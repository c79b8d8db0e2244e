//! From decompressed image data to pixels: every scanline is reconstructed
//! and its samples are expanded to 8-bit RGB.

use crate::common::{
    compute_pixel_size, spec_pixel_size, AlphaModel, AlphaValue, ColorType, Image, Metadata,
    MetadataModel, RGBColor,
};
use crate::error::{HeaderField, PngError};
use crate::filter::{reconstruct_row, spec_reconstruct};
use crate::png::chunks::ancillary::{opaque, spec_opaque};
use vstd::prelude::*;
use vstd::slice::slice_subrange;

verus! {

/// The colour scaled by `a / 256`, each part rounded down.
pub open spec fn spec_premultiply(color: RGBColor, a: u8) -> RGBColor {
    ((color.0 * a / 256) as u8, (color.1 * a / 256) as u8, (color.2 * a / 256) as u8)
}

/// Scales a colour by `a / 256`.
pub fn apply_alpha(r: u8, g: u8, b: u8, a: u8) -> (scaled: RGBColor)
    ensures
        scaled == spec_premultiply((r, g, b), a),
{
    let opacity: u16 = a as u16;
    assert(r * opacity <= 65025 && g * opacity <= 65025 && b * opacity <= 65025)
        by (nonlinear_arith)
        requires
            opacity <= 255,
    ;
    (
        ((r as u16 * opacity) / 256) as u8,
        ((g as u16 * opacity) / 256) as u8,
        ((b as u16 * opacity) / 256) as u8,
    )
}

/// What is emitted for a pixel with an alpha value: the colour scaled by it.
/// A fully opaque pixel (alpha 255) that comes out black is emitted as
/// `(0, 0, 1)`, so that it is not taken for a transparent one.
pub open spec fn spec_blend(color: RGBColor, a: u8) -> RGBColor {
    if a == 255 {
        spec_opaque(spec_premultiply(color, a))
    } else {
        spec_premultiply(color, a)
    }
}

/// Computes [`spec_blend`].
pub fn blend(color: RGBColor, a: u8) -> (shown: RGBColor)
    ensures
        shown == spec_blend(color, a),
{
    let scaled: RGBColor = apply_alpha(color.0, color.1, color.2, a);
    if a == 255 {
        opaque(scaled)
    } else {
        scaled
    }
}

/// What is emitted for a pixel of an image without alpha values: nothing
/// but `(0, 0, 0)` if it has the colour that a tRNS chunk declared
/// transparent; otherwise its colour, black being emitted as `(0, 0, 1)`.
pub open spec fn spec_keyed(color: RGBColor, is_key: bool) -> RGBColor {
    if is_key {
        (0u8, 0u8, 0u8)
    } else {
        spec_opaque(color)
    }
}

/// The number of samples that one byte holds, for bit depths below 8; 1 for
/// the others.
pub open spec fn spec_samples_per_chunk(bit_depth: u8) -> nat {
    if bit_depth == 1 {
        8
    } else if bit_depth == 2 {
        4
    } else if bit_depth == 4 {
        2
    } else {
        1
    }
}

/// Sample number `i` of a byte that packs samples of 1, 2 or 4 bits, the
/// leftmost sample in the most significant bits.
pub open spec fn spec_unpack(byte: u8, bit_depth: u8, i: u8) -> u8 {
    if bit_depth == 1 {
        (byte >> ((7 - i) as u8)) & 1
    } else if bit_depth == 2 {
        (byte >> ((6 - 2 * i) as u8)) & 3
    } else if bit_depth == 4 {
        (byte >> ((4 - 4 * i) as u8)) & 15
    } else {
        byte
    }
}

/// Computes [`spec_unpack`].
pub fn unpack(byte: u8, bit_depth: u8, i: u8) -> (sample: u8)
    requires
        i < spec_samples_per_chunk(bit_depth),
    ensures
        sample == spec_unpack(byte, bit_depth, i),
        bit_depth == 1 ==> sample <= 1,
        bit_depth == 2 ==> sample <= 3,
        bit_depth == 4 ==> sample <= 15,
{
    if bit_depth == 1 {
        let shift: u8 = 7 - i;
        assert((byte >> shift) & 1 <= 1) by (bit_vector);
        (byte >> shift) & 1
    } else if bit_depth == 2 {
        let shift: u8 = 6 - 2 * i;
        assert((byte >> shift) & 3 <= 3) by (bit_vector);
        (byte >> shift) & 3
    } else if bit_depth == 4 {
        let shift: u8 = 4 - 4 * i;
        assert((byte >> shift) & 15 <= 15) by (bit_vector);
        (byte >> shift) & 15
    } else {
        byte
    }
}

/// A gray sample brought to eight bits: 1-bit samples times 255, 2-bit
/// samples times 85, 4-bit samples times 17, 8-bit samples as they are, and
/// of 16-bit samples the high byte.
pub open spec fn spec_gray_level(chunk: Seq<u8>, bit_depth: u8, i: u8) -> u8 {
    if bit_depth == 1 {
        (spec_unpack(chunk[0], bit_depth, i) * 255) as u8
    } else if bit_depth == 2 {
        (spec_unpack(chunk[0], bit_depth, i) * 85) as u8
    } else if bit_depth == 4 {
        (spec_unpack(chunk[0], bit_depth, i) * 17) as u8
    } else {
        chunk[0]
    }
}

/// Sample number `c` of a pixel whose samples have 8 or 16 bits, brought to
/// eight bits: of a 16-bit sample the high byte.
pub open spec fn spec_channel(chunk: Seq<u8>, bit_depth: u8, c: int) -> u8 {
    if bit_depth == 16 {
        chunk[2 * c]
    } else {
        chunk[c]
    }
}

/// Computes [`spec_channel`].
pub fn channel(image_data: &[u8], bit_depth: u8, c: usize) -> (sample: u8)
    requires
        c < 4,
        bit_depth == 16 ==> 2 * c < image_data@.len(),
        bit_depth != 16 ==> c < image_data@.len(),
    ensures
        sample == spec_channel(image_data@, bit_depth, c as int),
{
    if bit_depth == 16 {
        image_data[2 * c]
    } else {
        image_data[c]
    }
}

/// The alpha value of palette entry `index`: what the table holds, and 255
/// where the table is too short.
pub open spec fn spec_alpha_at(alphas: Seq<u8>, index: int) -> u8 {
    if 0 <= index < alphas.len() {
        alphas[index]
    } else {
        255
    }
}

/// Pixel `i` of a byte of gray samples, or the one pixel of one or two
/// bytes.
pub open spec fn spec_gray_pixel(chunk: Seq<u8>, metadata: MetadataModel, i: u8) -> RGBColor {
    let val = spec_gray_level(chunk, metadata.bit_depth, i);
    spec_keyed((val, val, val), metadata.alpha == Some(AlphaModel::Gray(val)))
}

/// The pixel that three samples of 8 or 16 bits make.
pub open spec fn spec_rgb_pixel(chunk: Seq<u8>, metadata: MetadataModel) -> RGBColor {
    let r = spec_channel(chunk, metadata.bit_depth, 0);
    let g = spec_channel(chunk, metadata.bit_depth, 1);
    let b = spec_channel(chunk, metadata.bit_depth, 2);
    spec_keyed((r, g, b), metadata.alpha == Some(AlphaModel::RGB(r, g, b)))
}

/// The pixel that a gray sample and an alpha sample make.
pub open spec fn spec_gray_a_pixel(chunk: Seq<u8>, metadata: MetadataModel) -> RGBColor {
    let val = spec_channel(chunk, metadata.bit_depth, 0);
    spec_blend((val, val, val), spec_channel(chunk, metadata.bit_depth, 1))
}

/// The pixel that three colour samples and an alpha sample make.
pub open spec fn spec_rgba_pixel(chunk: Seq<u8>, metadata: MetadataModel) -> RGBColor {
    spec_blend(
        (
            spec_channel(chunk, metadata.bit_depth, 0),
            spec_channel(chunk, metadata.bit_depth, 1),
            spec_channel(chunk, metadata.bit_depth, 2),
        ),
        spec_channel(chunk, metadata.bit_depth, 3),
    )
}

/// The palette index that stands at place `i` of a byte.
pub open spec fn spec_palette_index(chunk: Seq<u8>, metadata: MetadataModel, i: u8) -> u8 {
    spec_unpack(chunk[0], metadata.bit_depth, i)
}

/// The pixel that a palette entry makes; `None` if the palette has no such
/// entry. With a table of alpha values the entry's colour is scaled by its
/// alpha value.
pub open spec fn spec_palette_pixel(chunk: Seq<u8>, metadata: MetadataModel, i: u8) -> Option<
    RGBColor,
> {
    let index = spec_palette_index(chunk, metadata, i) as int;
    match metadata.palette {
        Some(palette) => {
            if index < palette.len() {
                match metadata.alpha {
                    Some(AlphaModel::Palette(alphas)) => Some(
                        spec_blend(palette[index], spec_alpha_at(alphas, index)),
                    ),
                    _ => Some(spec_opaque(palette[index])),
                }
            } else {
                None
            }
        },
        None => None,
    }
}

/// Pixel `i` of the bytes of one complete pixel, read as the colour type
/// says; `None` for a palette index that the palette does not have.
pub open spec fn spec_chunk_pixel(chunk: Seq<u8>, metadata: MetadataModel, i: u8) -> Option<
    RGBColor,
> {
    match metadata.color_type {
        ColorType::Gray => Some(spec_gray_pixel(chunk, metadata, i)),
        ColorType::RGB => Some(spec_rgb_pixel(chunk, metadata)),
        ColorType::Palette => spec_palette_pixel(chunk, metadata, i),
        ColorType::GrayA => Some(spec_gray_a_pixel(chunk, metadata)),
        ColorType::RGBA => Some(spec_rgba_pixel(chunk, metadata)),
    }
}

/// How many pixels the next bytes give to a scanline that holds `filled`
/// pixels already: as many as they hold, but no more than the scanline still
/// lacks to the image's width.
pub open spec fn spec_chunk_count(metadata: MetadataModel, filled: nat) -> nat {
    let held = spec_samples_per_chunk(metadata.bit_depth);
    if filled >= metadata.width {
        0
    } else if metadata.width - filled < held {
        (metadata.width - filled) as nat
    } else {
        held
    }
}

/// Computes [`spec_chunk_count`].
pub fn chunk_count(metadata: &Metadata, filled: usize) -> (count: u8)
    ensures
        count == spec_chunk_count(metadata@, filled as nat),
        count <= spec_samples_per_chunk(metadata@.bit_depth),
{
    let bit_depth: u8 = metadata.bit_depth();
    let held: u8 = if bit_depth == 1 {
        8
    } else if bit_depth == 2 {
        4
    } else if bit_depth == 4 {
        2
    } else {
        1
    };
    let width: u64 = metadata.width() as u64;
    let filled: u64 = filled as u64;
    if filled >= width {
        0
    } else if width - filled < held as u64 {
        (width - filled) as u8
    } else {
        held
    }
}

/// What stops an expander before it has looked at a sample: a bit depth that
/// the colour type does not allow, fewer bytes than one pixel takes, or,
/// for a palette image, no palette.
pub open spec fn spec_chunk_check(color_type: ColorType, chunk: Seq<u8>, metadata: MetadataModel)
    -> Option<PngError> {
    if !color_type.spec_permits(metadata.bit_depth) {
        Some(PngError::MalformedHeader(HeaderField::BitDepth))
    } else if chunk.len() < spec_pixel_size(color_type, metadata.bit_depth) {
        Some(PngError::MalformedData)
    } else if color_type == ColorType::Palette && metadata.palette is None {
        Some(PngError::MissingPalette)
    } else {
        None
    }
}

/// Computes the first two parts of [`spec_chunk_check`].
fn check_chunk(color_type: ColorType, image_data: &[u8], metadata: &Metadata) -> (result: Result<
    (),
    PngError,
>)
    ensures
        !color_type.spec_permits(metadata@.bit_depth) ==> result == Err::<(), PngError>(
            PngError::MalformedHeader(HeaderField::BitDepth),
        ),
        color_type.spec_permits(metadata@.bit_depth) && image_data@.len() < spec_pixel_size(
            color_type,
            metadata@.bit_depth,
        ) ==> result == Err::<(), PngError>(PngError::MalformedData),
        color_type.spec_permits(metadata@.bit_depth) && image_data@.len() >= spec_pixel_size(
            color_type,
            metadata@.bit_depth,
        ) ==> result is Ok,
{
    let bit_depth: u8 = metadata.bit_depth();
    if !color_type.permits(bit_depth) {
        return Err(PngError::MalformedHeader(HeaderField::BitDepth));
    }
    if image_data.len() < compute_pixel_size(color_type, bit_depth) as usize {
        return Err(PngError::MalformedData);
    }
    Ok(())
}

/// Expands the next bytes of a scanline of gray samples and appends the
/// pixels to `scanline`, which is never made longer than the image is wide.
pub fn gray(image_data: &[u8], metadata: &Metadata, scanline: &mut Vec<RGBColor>) -> (result:
    Result<(), PngError>)
    ensures
        match spec_chunk_check(ColorType::Gray, image_data@, metadata@) {
            Some(e) => result == Err::<(), PngError>(e) && final(scanline)@ == old(scanline)@,
            None => result is Ok && final(scanline)@ == old(scanline)@ + Seq::new(
                spec_chunk_count(metadata@, old(scanline)@.len()),
                |i: int| spec_gray_pixel(image_data@, metadata@, i as u8),
            ),
        },
{
    let ghost before = scanline@;
    match check_chunk(ColorType::Gray, image_data, metadata) {
        Err(e) => {
            return Err(e);
        },
        Ok(()) => {},
    }
    let bit_depth: u8 = metadata.bit_depth();
    let count: u8 = chunk_count(metadata, scanline.len());
    let mut i: u8 = 0;
    while i < count
        invariant
            i <= count <= spec_samples_per_chunk(bit_depth),
            bit_depth == metadata@.bit_depth,
            ColorType::Gray.spec_permits(bit_depth),
            image_data@.len() >= 1,
            scanline@ == before + Seq::new(
                i as nat,
                |t: int| spec_gray_pixel(image_data@, metadata@, t as u8),
            ),
        decreases count - i,
    {
        let sample: u8 = unpack(image_data[0], bit_depth, i);
        let val: u8 = if bit_depth == 1 {
            sample * 255
        } else if bit_depth == 2 {
            sample * 85
        } else if bit_depth == 4 {
            sample * 17
        } else {
            sample
        };
        let is_key: bool = match metadata.alpha() {
            Some(AlphaValue::Gray(key)) => val == *key,
            _ => false,
        };
        if is_key {
            scanline.push((0, 0, 0));
        } else {
            scanline.push(opaque((val, val, val)));
        }
        i += 1;
    }
    Ok(())
}

/// Expands the next bytes of a scanline of RGB pixels and appends the pixel
/// to `scanline`, unless that holds as many pixels as the image is wide.
pub fn rgb(image_data: &[u8], metadata: &Metadata, scanline: &mut Vec<RGBColor>) -> (result: Result<
    (),
    PngError,
>)
    ensures
        match spec_chunk_check(ColorType::RGB, image_data@, metadata@) {
            Some(e) => result == Err::<(), PngError>(e) && final(scanline)@ == old(scanline)@,
            None => result is Ok && final(scanline)@ == old(scanline)@ + Seq::new(
                spec_chunk_count(metadata@, old(scanline)@.len()),
                |i: int| spec_rgb_pixel(image_data@, metadata@),
            ),
        },
{
    match check_chunk(ColorType::RGB, image_data, metadata) {
        Err(e) => {
            return Err(e);
        },
        Ok(()) => {},
    }
    let bit_depth: u8 = metadata.bit_depth();
    if chunk_count(metadata, scanline.len()) > 0 {
        let r: u8 = channel(image_data, bit_depth, 0);
        let g: u8 = channel(image_data, bit_depth, 1);
        let b: u8 = channel(image_data, bit_depth, 2);
        let is_key: bool = match metadata.alpha() {
            Some(AlphaValue::RGB(ar, ag, ab)) => *ar == r && *ag == g && *ab == b,
            _ => false,
        };
        if is_key {
            scanline.push((0, 0, 0));
        } else {
            scanline.push(opaque((r, g, b)));
        }
    }
    Ok(())
}

/// Expands the next bytes of a scanline of RGB pixels with alpha samples and
/// appends the pixel to `scanline`, unless that holds as many pixels as the
/// image is wide.
pub fn rgba(image_data: &[u8], metadata: &Metadata, scanline: &mut Vec<RGBColor>) -> (result:
    Result<(), PngError>)
    ensures
        match spec_chunk_check(ColorType::RGBA, image_data@, metadata@) {
            Some(e) => result == Err::<(), PngError>(e) && final(scanline)@ == old(scanline)@,
            None => result is Ok && final(scanline)@ == old(scanline)@ + Seq::new(
                spec_chunk_count(metadata@, old(scanline)@.len()),
                |i: int| spec_rgba_pixel(image_data@, metadata@),
            ),
        },
{
    match check_chunk(ColorType::RGBA, image_data, metadata) {
        Err(e) => {
            return Err(e);
        },
        Ok(()) => {},
    }
    let bit_depth: u8 = metadata.bit_depth();
    if chunk_count(metadata, scanline.len()) > 0 {
        let r: u8 = channel(image_data, bit_depth, 0);
        let g: u8 = channel(image_data, bit_depth, 1);
        let b: u8 = channel(image_data, bit_depth, 2);
        let a: u8 = channel(image_data, bit_depth, 3);
        scanline.push(blend((r, g, b), a));
    }
    Ok(())
}

/// Expands the next bytes of a scanline of gray pixels with alpha samples
/// and appends the pixel to `scanline`, unless that holds as many pixels as
/// the image is wide.
pub fn gray_a(image_data: &[u8], metadata: &Metadata, scanline: &mut Vec<RGBColor>) -> (result:
    Result<(), PngError>)
    ensures
        match spec_chunk_check(ColorType::GrayA, image_data@, metadata@) {
            Some(e) => result == Err::<(), PngError>(e) && final(scanline)@ == old(scanline)@,
            None => result is Ok && final(scanline)@ == old(scanline)@ + Seq::new(
                spec_chunk_count(metadata@, old(scanline)@.len()),
                |i: int| spec_gray_a_pixel(image_data@, metadata@),
            ),
        },
{
    match check_chunk(ColorType::GrayA, image_data, metadata) {
        Err(e) => {
            return Err(e);
        },
        Ok(()) => {},
    }
    let bit_depth: u8 = metadata.bit_depth();
    if chunk_count(metadata, scanline.len()) > 0 {
        let val: u8 = channel(image_data, bit_depth, 0);
        let alpha: u8 = channel(image_data, bit_depth, 1);
        scanline.push(blend((val, val, val), alpha));
    }
    Ok(())
}

/// True when each of the first `count` places of the byte holds an index
/// that the palette has.
pub open spec fn spec_palette_chunk_ok(chunk: Seq<u8>, metadata: MetadataModel, count: nat)
    -> bool {
    forall|i: u8| i < count ==> (#[trigger] spec_palette_pixel(chunk, metadata, i)) is Some
}

/// Expands the next byte of a scanline of palette indices and appends the
/// pixels to `scanline`, which is never made longer than the image is wide.
/// An index that the palette does not have is an error, and `scanline` is
/// then left as it was.
pub fn palette(image_data: &[u8], metadata: &Metadata, scanline: &mut Vec<RGBColor>) -> (result:
    Result<(), PngError>)
    ensures
        match spec_chunk_check(ColorType::Palette, image_data@, metadata@) {
            Some(e) => result == Err::<(), PngError>(e) && final(scanline)@ == old(scanline)@,
            None => {
                let count = spec_chunk_count(metadata@, old(scanline)@.len());
                if spec_palette_chunk_ok(image_data@, metadata@, count) {
                    result is Ok && final(scanline)@ == old(scanline)@ + Seq::new(
                        count,
                        |i: int| spec_palette_pixel(image_data@, metadata@, i as u8).unwrap(),
                    )
                } else {
                    result == Err::<(), PngError>(PngError::PaletteIndex) && final(scanline)@
                        == old(scanline)@
                }
            },
        },
{
    let ghost before = scanline@;
    match check_chunk(ColorType::Palette, image_data, metadata) {
        Err(e) => {
            return Err(e);
        },
        Ok(()) => {},
    }
    let pt = match metadata.palette() {
        Some(pt) => pt,
        None => {
            return Err(PngError::MissingPalette);
        },
    };
    let alpha: Option<&Vec<u8>> = match metadata.alpha() {
        Some(AlphaValue::Palette(alpha)) => Some(alpha),
        _ => None,
    };
    let bit_depth: u8 = metadata.bit_depth();
    let filled: usize = scanline.len();
    let count: u8 = chunk_count(metadata, filled);
    let mut i: u8 = 0;
    while i < count
        invariant
            i <= count <= spec_samples_per_chunk(bit_depth),
            bit_depth == metadata@.bit_depth,
            image_data@.len() >= 1,
            filled == before.len(),
            before == old(scanline)@,
            count == spec_chunk_count(metadata@, before.len()),
            spec_chunk_check(ColorType::Palette, image_data@, metadata@) is None,
            metadata@.palette == Some(pt@),
            match alpha {
                Some(alphas) => metadata@.alpha == Some(AlphaModel::Palette(alphas@)),
                None => !(metadata@.alpha matches Some(AlphaModel::Palette(_))),
            },
            spec_palette_chunk_ok(image_data@, metadata@, i as nat),
            scanline@ == before + Seq::new(
                i as nat,
                |t: int| spec_palette_pixel(image_data@, metadata@, t as u8).unwrap(),
            ),
        decreases count - i,
    {
        let index: usize = unpack(image_data[0], bit_depth, i) as usize;
        if index >= pt.len() {
            assert(spec_palette_pixel(image_data@, metadata@, i) is None);
            scanline.truncate(filled);
            return Err(PngError::PaletteIndex);
        }
        let color: RGBColor = pt[index];
        match alpha {
            Some(alphas) => {
                let a: u8 = if index < alphas.len() {
                    alphas[index]
                } else {
                    255
                };
                scanline.push(blend(color, a));
            },
            None => {
                scanline.push(opaque(color));
            },
        }
        i += 1;
    }
    Ok(())
}

/// What makes an image impossible to expand, whatever its data holds: a bit
/// depth that the colour type does not allow, or a palette image without a
/// palette.
pub open spec fn spec_metadata_check(metadata: MetadataModel) -> Option<PngError> {
    if !metadata.color_type.spec_permits(metadata.bit_depth) {
        Some(PngError::MalformedHeader(HeaderField::BitDepth))
    } else if metadata.color_type == ColorType::Palette && metadata.palette is None {
        Some(PngError::MissingPalette)
    } else {
        None
    }
}

/// Computes [`spec_metadata_check`].
pub fn check_metadata(metadata: &Metadata) -> (result: Result<(), PngError>)
    ensures
        match spec_metadata_check(metadata@) {
            Some(e) => result == Err::<(), PngError>(e),
            None => result is Ok,
        },
{
    if !metadata.color_type().permits(metadata.bit_depth()) {
        return Err(PngError::MalformedHeader(HeaderField::BitDepth));
    }
    match metadata.color_type() {
        ColorType::Palette => {
            if metadata.palette().is_none() {
                return Err(PngError::MissingPalette);
            }
        },
        _ => {},
    }
    Ok(())
}

/// The bytes of a scanline that hold pixel `k`.
pub open spec fn spec_row_chunk(row: Seq<u8>, metadata: MetadataModel, k: int) -> Seq<u8> {
    let start = (k / spec_samples_per_chunk(metadata.bit_depth) as int) * metadata.pixel_size();
    row.subrange(start, start + metadata.pixel_size())
}

/// Pixel `k` of a reconstructed scanline; `None` for a palette index that
/// the palette does not have.
pub open spec fn spec_row_pixel(row: Seq<u8>, metadata: MetadataModel, k: int) -> Option<
    RGBColor,
> {
    spec_chunk_pixel(
        spec_row_chunk(row, metadata, k),
        metadata,
        (k % spec_samples_per_chunk(metadata.bit_depth) as int) as u8,
    )
}

/// True when every palette index of a scanline is one that the palette has.
/// It is true of every scanline of an image without a palette.
pub open spec fn spec_row_ok(row: Seq<u8>, metadata: MetadataModel) -> bool {
    forall|k: int|
        0 <= k < metadata.width ==> (#[trigger] spec_row_pixel(row, metadata, k)) is Some
}

/// The pixels of a reconstructed scanline: as many as the image is wide.
pub open spec fn spec_expand_row(row: Seq<u8>, metadata: MetadataModel) -> Result<
    Seq<RGBColor>,
    PngError,
> {
    match spec_metadata_check(metadata) {
        Some(e) => Err(e),
        None => {
            if row.len() != metadata.width * metadata.pixel_size() {
                Err(PngError::MalformedData)
            } else if spec_row_ok(row, metadata) {
                Ok(Seq::new(metadata.width, |k: int| spec_row_pixel(row, metadata, k).unwrap()))
            } else {
                Err(PngError::PaletteIndex)
            }
        },
    }
}

proof fn lemma_product_step(j: int, width: int, px: int)
    by (nonlinear_arith)
    requires
        0 <= j < width,
        0 <= px,
    ensures
        0 <= j * px,
        (j + 1) * px == j * px + px,
        j * px + px <= width * px,
{
}

proof fn lemma_place(j: int, held: int, i: int)
    requires
        0 <= j,
        0 <= i < held,
    ensures
        (j * held + i) / held == j,
        (j * held + i) % held == i,
{
    vstd::arithmetic::div_mod::lemma_fundamental_div_mod_converse(j * held + i, held, j, i);
}

/// Pixel `j * held + i` of a scanline is pixel `i` of its chunk `j`.
proof fn lemma_pixel_of_chunk(row: Seq<u8>, metadata: MetadataModel, j: int, i: int)
    requires
        0 <= j,
        0 <= i < spec_samples_per_chunk(metadata.bit_depth),
    ensures
        spec_row_pixel(row, metadata, j * spec_samples_per_chunk(metadata.bit_depth) + i)
            == spec_chunk_pixel(
            row.subrange(j * metadata.pixel_size(), j * metadata.pixel_size() + metadata.pixel_size()),
            metadata,
            i as u8,
        ),
{
    lemma_place(j, spec_samples_per_chunk(metadata.bit_depth) as int, i);
}

/// Expands one reconstructed scanline to the pixels of one image row.
pub fn expand_row(row: &[u8], metadata: &Metadata) -> (result: Result<Vec<RGBColor>, PngError>)
    ensures
        match result {
            Ok(pixels) => spec_expand_row(row@, metadata@) == Ok::<Seq<RGBColor>, PngError>(
                pixels@,
            ),
            Err(e) => spec_expand_row(row@, metadata@) == Err::<Seq<RGBColor>, PngError>(e),
        },
        result matches Ok(pixels) ==> pixels@.len() == metadata@.width,
{
    match check_metadata(metadata) {
        Err(e) => {
            return Err(e);
        },
        Ok(()) => {},
    }
    let px: usize = metadata.pixel_size() as usize;
    let width: usize = metadata.width() as usize;
    assert(width * px <= 0x80_0000_0000) by (nonlinear_arith)
        requires
            width <= 0xFFFF_FFFF,
            px <= 128,
    ;
    let bytes: u64 = width as u64 * px as u64;
    if row.len() as u64 != bytes {
        return Err(PngError::MalformedData);
    }
    let ghost held: int = spec_samples_per_chunk(metadata@.bit_depth) as int;
    let mut scanline: Vec<RGBColor> = Vec::new();
    let mut j: usize = 0;
    while scanline.len() < width
        invariant
            spec_metadata_check(metadata@) is None,
            px == metadata@.pixel_size(),
            width == metadata@.width,
            row@.len() == width * px,
            row@.len() <= usize::MAX,
            held == spec_samples_per_chunk(metadata@.bit_depth),
            j <= width,
            scanline@.len() == if j * held < width {
                j * held
            } else {
                width as int
            },
            forall|k: int|
                0 <= k < scanline@.len() ==> (#[trigger] spec_row_pixel(row@, metadata@, k))
                    == Some(scanline@[k]),
        decreases width - j,
    {
        proof {
            assert(j < width) by (nonlinear_arith)
                requires
                    j * held < width,
                    held >= 1,
                    j >= 0,
            ;
            lemma_product_step(j as int, width as int, px as int);
        }
        let start: usize = j * px;
        let chunk = slice_subrange(row, start, start + px);
        let ghost before = scanline@;
        let ghost count = spec_chunk_count(metadata@, before.len());
        let expanded = match metadata.color_type() {
            ColorType::Palette => palette(chunk, metadata, &mut scanline),
            ColorType::RGBA => rgba(chunk, metadata, &mut scanline),
            ColorType::RGB => rgb(chunk, metadata, &mut scanline),
            ColorType::Gray => gray(chunk, metadata, &mut scanline),
            ColorType::GrayA => gray_a(chunk, metadata, &mut scanline),
        };
        match expanded {
            Err(e) => {
                proof {
                    // Only a palette index can fail here; the place in the
                    // chunk where it stands is a place in the row.
                    let i = choose|i: u8|
                        i < count && (#[trigger] spec_palette_pixel(chunk@, metadata@, i))
                            is None;
                    lemma_pixel_of_chunk(row@, metadata@, j as int, i as int);
                }
                return Err(e);
            },
            Ok(()) => {
                proof {
                    assert forall|k: int| 0 <= k < scanline@.len() implies (
                    #[trigger] spec_row_pixel(row@, metadata@, k)) == Some(scanline@[k]) by {
                        if k >= before.len() {
                            lemma_pixel_of_chunk(row@, metadata@, j as int, k - j * held);
                        }
                    }
                    assert((j + 1) * held == j * held + held) by (nonlinear_arith);
                }
            },
        }
        j += 1;
    }
    proof {
        assert(scanline@ =~= Seq::new(
            metadata@.width,
            |k: int| spec_row_pixel(row@, metadata@, k).unwrap(),
        ));
    }
    Ok(scanline)
}

/// The filter type that stands before scanline `y`.
pub open spec fn spec_filter_type(data: Seq<u8>, metadata: MetadataModel, y: nat) -> u8 {
    data[(y * metadata.stride()) as int]
}

/// Scanline `y` as it is stored, without its filter type.
pub open spec fn spec_stored_line(data: Seq<u8>, metadata: MetadataModel, y: nat) -> Seq<u8> {
    data.subrange((y * metadata.stride() + 1) as int, (y * metadata.stride() + metadata.stride()) as int)
}

/// The reconstructed scanline `y` of decompressed image data.
pub open spec fn spec_recon_line(data: Seq<u8>, metadata: MetadataModel, y: nat) -> Seq<u8>
    decreases y,
{
    spec_reconstruct(
        spec_filter_type(data, metadata, y),
        spec_stored_line(data, metadata, y),
        if y == 0 {
            Seq::empty()
        } else {
            spec_recon_line(data, metadata, (y - 1) as nat)
        },
        metadata.pixel_size(),
    )
}

/// The reconstructed scanline above scanline `y`: empty for the first
/// scanline.
pub open spec fn spec_history(data: Seq<u8>, metadata: MetadataModel, y: nat) -> Seq<u8> {
    if y == 0 {
        Seq::empty()
    } else {
        spec_recon_line(data, metadata, (y - 1) as nat)
    }
}

/// Row `y` of the image, or the error that scanline `y` ends in: a filter
/// type above 4, or a palette index that the palette does not have.
pub open spec fn spec_scanline(data: Seq<u8>, metadata: MetadataModel, y: nat) -> Result<
    Seq<RGBColor>,
    PngError,
> {
    if spec_filter_type(data, metadata, y) > 4 {
        Err(PngError::UnknownFilter)
    } else {
        spec_expand_row(spec_recon_line(data, metadata, y), metadata)
    }
}

/// The first `n` rows of the image, or the error of the first scanline
/// among them that has one.
pub open spec fn spec_scanlines(data: Seq<u8>, metadata: MetadataModel, n: nat) -> Result<
    Seq<Seq<RGBColor>>,
    PngError,
>
    decreases n,
{
    if n == 0 {
        Ok(Seq::empty())
    } else {
        match spec_scanlines(data, metadata, (n - 1) as nat) {
            Err(e) => Err(e),
            Ok(rows) => match spec_scanline(data, metadata, (n - 1) as nat) {
                Err(e) => Err(e),
                Ok(row) => Ok(rows.push(row)),
            },
        }
    }
}

/// The image that decompressed image data holds. The data must be made of
/// exactly `height` scanlines of one filter byte and `width * pixel_size`
/// sample bytes each.
pub open spec fn spec_parse(data: Seq<u8>, metadata: MetadataModel) -> Result<
    Seq<Seq<RGBColor>>,
    PngError,
> {
    match spec_metadata_check(metadata) {
        Some(e) => Err(e),
        None => {
            if data.len() != metadata.height * metadata.stride() {
                Err(PngError::MalformedData)
            } else {
                spec_scanlines(data, metadata, metadata.height)
            }
        },
    }
}

/// The rows of an image as sequences.
pub open spec fn image_view(image: Seq<Vec<RGBColor>>) -> Seq<Seq<RGBColor>> {
    Seq::new(image.len(), |y: int| image[y]@)
}

/// Once a scanline has failed, its error is the error of every longer run
/// of scanlines.
proof fn lemma_error_stays(data: Seq<u8>, metadata: MetadataModel, n: nat, m: nat)
    requires
        n <= m,
        spec_scanlines(data, metadata, n) is Err,
    ensures
        spec_scanlines(data, metadata, m) == spec_scanlines(data, metadata, n),
    decreases m,
{
    if n < m {
        lemma_error_stays(data, metadata, n, (m - 1) as nat);
    }
}

proof fn lemma_row_bounds(y: int, height: int, stride: int)
    by (nonlinear_arith)
    requires
        0 <= y < height,
        0 < stride,
    ensures
        0 <= y * stride,
        y * stride + stride <= height * stride,
        stride <= height * stride,
{
}

/// Turns decompressed image data into the image: reverses the filter of
/// each scanline, top to bottom, and expands its samples to pixels.
pub fn parse(image_data: Vec<u8>, metadata: &Metadata) -> (result: Result<
    Image<RGBColor>,
    PngError,
>)
    ensures
        match result {
            Ok(image) => spec_parse(image_data@, metadata@) == Ok::<Seq<Seq<RGBColor>>, PngError>(
                image_view(image@),
            ),
            Err(e) => spec_parse(image_data@, metadata@) == Err::<Seq<Seq<RGBColor>>, PngError>(
                e,
            ),
        },
        result matches Ok(image) ==> {
            &&& image@.len() == metadata@.height
            &&& forall|y: int| 0 <= y < image@.len() ==> (#[trigger] image@[y])@.len() == metadata@.width
        },
{
    match check_metadata(metadata) {
        Err(e) => {
            return Err(e);
        },
        Ok(()) => {},
    }
    let px: usize = metadata.pixel_size() as usize;
    let width: u32 = metadata.width();
    let height: u32 = metadata.height();
    assert(width * px + 1 <= 0x80_0000_0001 && height * (width * px + 1) <= 0x80_0000_0001
        * 0x1_0000_0000) by (nonlinear_arith)
        requires
            width <= 0xFFFF_FFFF,
            height <= 0xFFFF_FFFF,
            px <= 128,
    ;
    let wide_stride: u64 = width as u64 * px as u64 + 1;
    let total: u128 = height as u128 * wide_stride as u128;
    if image_data.len() as u128 != total {
        return Err(PngError::MalformedData);
    }
    let mut image: Image<RGBColor> = Vec::new();
    if height == 0 {
        assert(image_view(image@) =~= Seq::<Seq<RGBColor>>::empty());
        return Ok(image);
    }
    proof {
        lemma_row_bounds(0, height as int, wide_stride as int);
    }
    let stride: usize = wide_stride as usize;
    let rows: usize = height as usize;
    let mut prev: Vec<u8> = Vec::new();
    let mut y: usize = 0;
    assert(image_view(image@) =~= Seq::<Seq<RGBColor>>::empty());
    while y < rows
        invariant
            spec_metadata_check(metadata@) is None,
            px == metadata@.pixel_size(),
            stride == metadata@.stride(),
            rows == metadata@.height,
            image_data@.len() == rows * stride,
            y <= rows,
            prev@ == spec_history(image_data@, metadata@, y as nat),
            image@.len() == y,
            forall|r: int| 0 <= r < image@.len() ==> (#[trigger] image@[r])@.len() == metadata@.width,
            spec_scanlines(image_data@, metadata@, y as nat) == Ok::<
                Seq<Seq<RGBColor>>,
                PngError,
            >(image_view(image@)),
        decreases rows - y,
    {
        proof {
            lemma_row_bounds(y as int, rows as int, stride as int);
        }
        let s: usize = y * stride;
        let filter: u8 = image_data[s];
        let line = slice_subrange(image_data.as_slice(), s + 1, s + stride);
        let recon: Vec<u8> = match reconstruct_row(filter, line, prev.as_slice(), px) {
            Ok(recon) => recon,
            Err(e) => {
                proof {
                    lemma_error_stays(image_data@, metadata@, (y + 1) as nat, rows as nat);
                }
                return Err(e);
            },
        };
        let scanline: Vec<RGBColor> = match expand_row(recon.as_slice(), metadata) {
            Ok(scanline) => scanline,
            Err(e) => {
                proof {
                    lemma_error_stays(image_data@, metadata@, (y + 1) as nat, rows as nat);
                }
                return Err(e);
            },
        };
        let ghost before = image@;
        image.push(scanline);
        assert(image_view(image@) =~= image_view(before).push(scanline@));
        prev = recon;
        y += 1;
    }
    Ok(image)
}

/// An image that decodes has as many rows as its header says, each row has
/// as many pixels as the header says, and pixel `k` of row `y` is pixel `k`
/// of the reconstructed scanline `y`.
pub proof fn lemma_parse_shape(data: Seq<u8>, metadata: MetadataModel)
    requires
        spec_parse(data, metadata) is Ok,
    ensures
        ({
            let image = spec_parse(data, metadata)->Ok_0;
            &&& image.len() == metadata.height
            &&& forall|y: int|
                0 <= y < metadata.height ==> (#[trigger] image[y]).len() == metadata.width
            &&& forall|y: int, k: int|
                0 <= y < metadata.height && 0 <= k < metadata.width ==> Some(
                    #[trigger] image[y][k],
                ) == spec_row_pixel(spec_recon_line(data, metadata, y as nat), metadata, k)
        }),
{
    lemma_scanlines_shape(data, metadata, metadata.height);
}

proof fn lemma_scanlines_shape(data: Seq<u8>, metadata: MetadataModel, n: nat)
    requires
        spec_scanlines(data, metadata, n) is Ok,
    ensures
        ({
            let rows = spec_scanlines(data, metadata, n)->Ok_0;
            &&& rows.len() == n
            &&& forall|y: int| 0 <= y < n ==> (#[trigger] rows[y]).len() == metadata.width
            &&& forall|y: int, k: int|
                0 <= y < n && 0 <= k < metadata.width ==> Some(#[trigger] rows[y][k])
                    == spec_row_pixel(spec_recon_line(data, metadata, y as nat), metadata, k)
        }),
    decreases n,
{
    if n > 0 {
        lemma_scanlines_shape(data, metadata, (n - 1) as nat);
    }
}

/// A palette index that is not below the number of palette entries, an
/// index equal to that number among them, makes the scanline an error: no
/// entry is put in its place.
pub proof fn lemma_palette_index_is_checked(row: Seq<u8>, metadata: MetadataModel, k: int)
    requires
        metadata.color_type == ColorType::Palette,
        metadata.palette is Some,
        0 <= k < metadata.width,
        spec_palette_index(
            spec_row_chunk(row, metadata, k),
            metadata,
            (k % spec_samples_per_chunk(metadata.bit_depth) as int) as u8,
        ) >= metadata.palette->Some_0.len(),
    ensures
        spec_row_pixel(row, metadata, k) is None,
        spec_expand_row(row, metadata) is Err,
        spec_metadata_check(metadata) is None && row.len() == metadata.width
            * metadata.pixel_size() ==> spec_expand_row(row, metadata) == Err::<
            Seq<RGBColor>,
            PngError,
        >(PngError::PaletteIndex),
{
}

/// True of a pixel that nothing makes transparent: one that does not have
/// the colour that a tRNS chunk declared transparent, and whose alpha value,
/// where it has one, is 255.
pub open spec fn spec_chunk_opaque(chunk: Seq<u8>, metadata: MetadataModel, i: u8) -> bool {
    match metadata.color_type {
        ColorType::Gray => metadata.alpha != Some(
            AlphaModel::Gray(spec_gray_level(chunk, metadata.bit_depth, i)),
        ),
        ColorType::RGB => metadata.alpha != Some(
            AlphaModel::RGB(
                spec_channel(chunk, metadata.bit_depth, 0),
                spec_channel(chunk, metadata.bit_depth, 1),
                spec_channel(chunk, metadata.bit_depth, 2),
            ),
        ),
        ColorType::Palette => match metadata.alpha {
            Some(AlphaModel::Palette(alphas)) => spec_alpha_at(
                alphas,
                spec_palette_index(chunk, metadata, i) as int,
            ) == 255,
            _ => true,
        },
        ColorType::GrayA => spec_channel(chunk, metadata.bit_depth, 1) == 255,
        ColorType::RGBA => spec_channel(chunk, metadata.bit_depth, 3) == 255,
    }
}

/// [`spec_chunk_opaque`] of pixel `k` of a scanline.
pub open spec fn spec_row_opaque(row: Seq<u8>, metadata: MetadataModel, k: int) -> bool {
    spec_chunk_opaque(
        spec_row_chunk(row, metadata, k),
        metadata,
        (k % spec_samples_per_chunk(metadata.bit_depth) as int) as u8,
    )
}

/// A fully opaque pixel is never emitted as `(0, 0, 0)`, the value that
/// stands for transparency: where it is black it is emitted as `(0, 0, 1)`.
pub proof fn lemma_opaque_is_not_transparent(row: Seq<u8>, metadata: MetadataModel, k: int)
    requires
        spec_row_opaque(row, metadata, k),
        spec_row_pixel(row, metadata, k) is Some,
    ensures
        spec_row_pixel(row, metadata, k) != Some((0u8, 0u8, 0u8)),
{
}

/// No fully opaque pixel of a decoded image is `(0, 0, 0)`.
pub proof fn lemma_opaque_black_is_kept(data: Seq<u8>, metadata: MetadataModel, y: int, k: int)
    requires
        spec_parse(data, metadata) is Ok,
        0 <= y < metadata.height,
        0 <= k < metadata.width,
        spec_row_opaque(spec_recon_line(data, metadata, y as nat), metadata, k),
    ensures
        spec_parse(data, metadata)->Ok_0[y][k] != (0u8, 0u8, 0u8),
{
    lemma_parse_shape(data, metadata);
    let image = spec_parse(data, metadata)->Ok_0;
    assert(Some(image[y][k]) == spec_row_pixel(
        spec_recon_line(data, metadata, y as nat),
        metadata,
        k,
    ));
    lemma_opaque_is_not_transparent(spec_recon_line(data, metadata, y as nat), metadata, k);
}

} // verus!
