//! Types and helpers shared by every stage of the decoder.

use crate::png::chunks::ihdr::IHDRChunk;
use vstd::prelude::*;

verus! {

/// One pixel: red, green and blue, eight bits each.
pub type RGBColor = (u8, u8, u8);

/// A raster in row-major order; row 0 is the top of the picture.
pub type Image<T> = Vec<Vec<T>>;

/// How the samples of a pixel are to be read.
#[derive(Debug, Clone, Copy, PartialEq, Eq, Structural)]
pub enum ColorType {
    Gray,
    RGB,
    Palette,
    GrayA,
    RGBA,
}

impl ColorType {
    /// The number of samples that make up one pixel.
    pub open spec fn spec_channels(self) -> nat {
        match self {
            ColorType::Gray => 1,
            ColorType::Palette => 1,
            ColorType::GrayA => 2,
            ColorType::RGB => 3,
            ColorType::RGBA => 4,
        }
    }

    /// Whether a header may combine this colour type with `bit_depth`.
    pub open spec fn spec_permits(self, bit_depth: u8) -> bool {
        match self {
            ColorType::Gray => bit_depth == 1 || bit_depth == 2 || bit_depth == 4 || bit_depth == 8
                || bit_depth == 16,
            ColorType::Palette => bit_depth == 1 || bit_depth == 2 || bit_depth == 4 || bit_depth
                == 8,
            ColorType::RGB | ColorType::GrayA | ColorType::RGBA => bit_depth == 8 || bit_depth
                == 16,
        }
    }

    /// The number of samples that make up one pixel.
    pub fn channels(self) -> (n: u8)
        ensures
            n == self.spec_channels(),
    {
        match self {
            ColorType::Gray => 1,
            ColorType::Palette => 1,
            ColorType::GrayA => 2,
            ColorType::RGB => 3,
            ColorType::RGBA => 4,
        }
    }

    /// Whether a header may combine this colour type with `bit_depth`.
    #[verifier::when_used_as_spec(spec_permits)]
    pub fn permits(self, bit_depth: u8) -> (ok: bool)
        ensures
            ok == self.spec_permits(bit_depth),
    {
        match self {
            ColorType::Gray => bit_depth == 1 || bit_depth == 2 || bit_depth == 4 || bit_depth == 8
                || bit_depth == 16,
            ColorType::Palette => bit_depth == 1 || bit_depth == 2 || bit_depth == 4 || bit_depth
                == 8,
            ColorType::RGB | ColorType::GrayA | ColorType::RGBA => bit_depth == 8 || bit_depth
                == 16,
        }
    }
}

/// The number of bytes that one complete pixel takes: `bit_depth / 8` times
/// the number of channels, rounded up, and never less than one.
pub open spec fn spec_pixel_size(color_type: ColorType, bit_depth: u8) -> nat {
    let bytes = (bit_depth as nat * color_type.spec_channels() + 7) / 8;
    if bytes < 1 {
        1
    } else {
        bytes
    }
}

/// Computes [`spec_pixel_size`].
pub fn compute_pixel_size(color_type: ColorType, bit_depth: u8) -> (px: u8)
    ensures
        px == spec_pixel_size(color_type, bit_depth),
        1 <= px <= 128,
{
    let depth: u16 = bit_depth as u16;
    let channels: u16 = color_type.channels() as u16;
    assert(depth * channels <= 1020) by (nonlinear_arith)
        requires
            depth <= 255,
            channels <= 4,
    ;
    let bits: u16 = depth * channels;
    let bytes: u16 = (bits + 7) / 8;
    if bytes < 1 {
        1
    } else {
        bytes as u8
    }
}

/// The transparency that a tRNS chunk declares, scaled to eight bits.
///
/// For 16-bit images only the high byte of the key is kept, so that several
/// 16-bit sample values are taken for the transparent one.
#[derive(Debug, PartialEq, Eq)]
pub enum AlphaValue {
    /// The colour that stands for a transparent pixel of an RGB image.
    RGB(u8, u8, u8),
    /// The gray level that stands for a transparent pixel of a gray image.
    Gray(u8),
    /// One alpha value for each palette entry.
    Palette(Vec<u8>),
}

/// What an [`AlphaValue`] holds.
pub enum AlphaModel {
    RGB(u8, u8, u8),
    Gray(u8),
    Palette(Seq<u8>),
}

impl View for AlphaValue {
    type V = AlphaModel;

    open spec fn view(&self) -> AlphaModel {
        match *self {
            AlphaValue::RGB(r, g, b) => AlphaModel::RGB(r, g, b),
            AlphaValue::Gray(v) => AlphaModel::Gray(v),
            AlphaValue::Palette(alphas) => AlphaModel::Palette(alphas@),
        }
    }
}

/// What a [`Metadata`] holds.
pub struct MetadataModel {
    pub width: nat,
    pub height: nat,
    pub bit_depth: u8,
    pub color_type: ColorType,
    pub palette: Option<Seq<RGBColor>>,
    pub alpha: Option<AlphaModel>,
    pub background: RGBColor,
}

impl MetadataModel {
    /// The number of bytes of one complete pixel.
    pub open spec fn pixel_size(self) -> nat {
        spec_pixel_size(self.color_type, self.bit_depth)
    }

    /// The number of bytes of one scanline: the filter byte and its samples.
    pub open spec fn stride(self) -> nat {
        1 + self.width * self.pixel_size()
    }

    /// The state in which a decoder starts: nothing known, a fully
    /// transparent background.
    pub open spec fn empty() -> MetadataModel {
        MetadataModel {
            width: 0,
            height: 0,
            bit_depth: 0,
            color_type: ColorType::RGB,
            palette: None,
            alpha: None,
            background: (0u8, 0u8, 0u8),
        }
    }
}

/// What is known of the image besides its pixels: the header's fields, the
/// palette, the transparency and the background colour.
pub struct Metadata {
    width: u32,
    height: u32,
    bit_depth: u8,
    color_type: ColorType,
    palette: Option<Vec<RGBColor>>,
    alpha: Option<AlphaValue>,
    bkgd: RGBColor,
}

impl View for Metadata {
    type V = MetadataModel;

    closed spec fn view(&self) -> MetadataModel {
        MetadataModel {
            width: self.width as nat,
            height: self.height as nat,
            bit_depth: self.bit_depth,
            color_type: self.color_type,
            palette: match self.palette {
                Some(palette) => Some(palette@),
                None => None,
            },
            alpha: match self.alpha {
                Some(alpha) => Some(alpha@),
                None => None,
            },
            background: self.bkgd,
        }
    }
}

impl Metadata {
    /// Metadata of which nothing is known yet; the background is transparent.
    pub fn new() -> (metadata: Metadata)
        ensures
            metadata@ == MetadataModel::empty(),
    {
        Metadata {
            alpha: None,
            palette: None,
            bkgd: (0, 0, 0),
            width: 0,
            height: 0,
            bit_depth: 0,
            color_type: ColorType::RGB,
        }
    }

    /// Takes size, bit depth and colour type from an image header; palette,
    /// transparency and background stay as they are.
    pub fn add_ihdr(&mut self, ihdr_chunk: IHDRChunk)
        ensures
            final(self)@ == (MetadataModel {
                width: ihdr_chunk@.width,
                height: ihdr_chunk@.height,
                bit_depth: ihdr_chunk@.bit_depth,
                color_type: ihdr_chunk@.color_type,
                ..old(self)@
            }),
    {
        self.width = ihdr_chunk.width();
        self.height = ihdr_chunk.height();
        self.bit_depth = ihdr_chunk.bit_depth();
        self.color_type = ihdr_chunk.color_type();
    }

    pub fn width(&self) -> (width: u32)
        ensures
            width == self@.width,
    {
        self.width
    }

    pub fn height(&self) -> (height: u32)
        ensures
            height == self@.height,
    {
        self.height
    }

    pub fn color_type(&self) -> (color_type: &ColorType)
        ensures
            *color_type == self@.color_type,
    {
        &self.color_type
    }

    pub fn bit_depth(&self) -> (bit_depth: u8)
        ensures
            bit_depth == self@.bit_depth,
    {
        self.bit_depth
    }

    /// The number of bytes of one complete pixel, at least one.
    pub fn pixel_size(&self) -> (px: u8)
        ensures
            px == self@.pixel_size(),
            1 <= px <= 128,
    {
        compute_pixel_size(self.color_type, self.bit_depth)
    }

    pub fn palette(&self) -> (palette: &Option<Vec<RGBColor>>)
        ensures
            match *palette {
                Some(colors) => self@.palette == Some(colors@),
                None => self@.palette is None,
            },
    {
        &self.palette
    }

    pub fn set_palette(&mut self, palette: Vec<RGBColor>)
        ensures
            final(self)@ == (MetadataModel { palette: Some(palette@), ..old(self)@ }),
    {
        self.palette = Some(palette);
    }

    pub fn alpha(&self) -> (alpha: &Option<AlphaValue>)
        ensures
            match *alpha {
                Some(value) => self@.alpha == Some(value@),
                None => self@.alpha is None,
            },
    {
        &self.alpha
    }

    pub fn set_alpha(&mut self, alpha: AlphaValue)
        ensures
            final(self)@ == (MetadataModel { alpha: Some(alpha@), ..old(self)@ }),
    {
        self.alpha = Some(alpha);
    }

    pub fn bkgd(&self) -> (bkgd: &RGBColor)
        ensures
            *bkgd == self@.background,
    {
        &self.bkgd
    }

    pub fn set_bkgd(&mut self, bkgd: RGBColor)
        ensures
            final(self)@ == (MetadataModel { background: bkgd, ..old(self)@ }),
    {
        self.bkgd = bkgd;
    }
}

/// True of the value that stands for a fully transparent pixel.
pub open spec fn spec_is_transparent(r: u8, g: u8, b: u8) -> bool {
    r == 0 && g == 0 && b == 0
}

/// Tells whether a pixel is the fully transparent sentinel `(0, 0, 0)`.
#[verifier::when_used_as_spec(spec_is_transparent)]
pub fn is_transparent(r: u8, g: u8, b: u8) -> (transparent: bool)
    ensures
        transparent == spec_is_transparent(r, g, b),
{
    r == 0 && g == 0 && b == 0
}

/// What shows at a pixel once the picture lies on its background.
pub open spec fn spec_replace_with_bg(col: RGBColor, bkgd: RGBColor) -> RGBColor {
    if spec_is_transparent(col.0, col.1, col.2) {
        bkgd
    } else {
        col
    }
}

/// Composites one pixel against the background: a transparent pixel shows
/// the background, any other pixel shows itself.
pub fn replace_with_bg(col: &RGBColor, bkgd: &RGBColor) -> (shown: RGBColor)
    ensures
        shown == spec_replace_with_bg(*col, *bkgd),
{
    if is_transparent(col.0, col.1, col.2) {
        *bkgd
    } else {
        *col
    }
}

/// The number that the first four bytes spell, most significant byte first.
pub open spec fn be_u32(bytes: Seq<u8>) -> nat
    recommends
        bytes.len() >= 4,
{
    (bytes[0] as nat) * 0x100_0000 + (bytes[1] as nat) * 0x1_0000 + (bytes[2] as nat) * 0x100
        + bytes[3] as nat
}

/// The number that the first two bytes spell, most significant byte first.
pub open spec fn be_u16(bytes: Seq<u8>) -> nat
    recommends
        bytes.len() >= 2,
{
    (bytes[0] as nat) * 0x100 + bytes[1] as nat
}

/// Reads a big-endian `u32` from the first four bytes.
pub fn from_bytes_u32(bytes: &[u8]) -> (value: u32)
    requires
        bytes@.len() >= 4,
    ensures
        value == be_u32(bytes@),
{
    let b0: u32 = bytes[0] as u32;
    let b1: u32 = bytes[1] as u32;
    let b2: u32 = bytes[2] as u32;
    let b3: u32 = bytes[3] as u32;
    assert(b0 << 24 == b0 * 0x100_0000 && b1 << 16 == b1 * 0x1_0000 && b2 << 8 == b2 * 0x100)
        by (bit_vector)
        requires
            b0 < 256,
            b1 < 256,
            b2 < 256,
    ;
    (b0 << 24) + (b1 << 16) + (b2 << 8) + b3
}

/// Reads a big-endian `u16` from the first two bytes.
pub fn from_bytes_u16(bytes: &[u8]) -> (value: u16)
    requires
        bytes@.len() >= 2,
    ensures
        value == be_u16(bytes@),
{
    let b0: u16 = bytes[0] as u16;
    let b1: u16 = bytes[1] as u16;
    assert(b0 << 8 == b0 * 0x100) by (bit_vector)
        requires
            b0 < 256,
    ;
    (b0 << 8) + b1
}

} // verus!
