//! The image header.

use crate::common::{be_u32, from_bytes_u32, compute_pixel_size, spec_pixel_size, ColorType};
use crate::error::{HeaderField, PngError};
use vstd::prelude::*;
use vstd::slice::slice_subrange;

verus! {

#[derive(Debug, Clone, Copy, PartialEq, Eq, Structural)]
pub enum InterlaceMethod {
    NoInterlace,
    Adam7,
}

/// The colour type that a header's code stands for, if any.
pub open spec fn spec_color_type(code: u8) -> Option<ColorType> {
    if code == 0 {
        Some(ColorType::Gray)
    } else if code == 2 {
        Some(ColorType::RGB)
    } else if code == 3 {
        Some(ColorType::Palette)
    } else if code == 4 {
        Some(ColorType::GrayA)
    } else if code == 6 {
        Some(ColorType::RGBA)
    } else {
        None
    }
}

/// What an [`IHDRChunk`] holds.
pub struct IHDRModel {
    pub width: nat,
    pub height: nat,
    pub bit_depth: u8,
    pub color_type: ColorType,
    pub compression_method: u8,
    pub filter_method: u8,
    pub interlace_method: InterlaceMethod,
}

impl IHDRModel {
    /// The header that `Default` gives: all fields zero.
    pub open spec fn zero() -> IHDRModel {
        IHDRModel {
            width: 0,
            height: 0,
            bit_depth: 0,
            color_type: ColorType::Gray,
            compression_method: 0,
            filter_method: 0,
            interlace_method: InterlaceMethod::NoInterlace,
        }
    }
}

/// What a header of these bytes is: the first of the checks on colour type,
/// bit depth, compression, filter and interlace that fails decides the error.
pub open spec fn spec_parse_ihdr(bytes: Seq<u8>) -> Result<IHDRModel, PngError> {
    if bytes.len() != 13 {
        Err(PngError::MalformedHeader(HeaderField::Length))
    } else {
        match spec_color_type(bytes[9]) {
            None => Err(PngError::MalformedHeader(HeaderField::ColorType)),
            Some(color_type) => {
                if !color_type.spec_permits(bytes[8]) {
                    Err(PngError::MalformedHeader(HeaderField::BitDepth))
                } else if bytes[10] != 0 {
                    Err(PngError::MalformedHeader(HeaderField::Compression))
                } else if bytes[11] != 0 {
                    Err(PngError::MalformedHeader(HeaderField::Filter))
                } else if bytes[12] >= 2 {
                    Err(PngError::MalformedHeader(HeaderField::Interlace))
                } else if bytes[12] == 1 {
                    Err(PngError::Unsupported)
                } else {
                    Ok(
                        IHDRModel {
                            width: be_u32(bytes.subrange(0, 4)),
                            height: be_u32(bytes.subrange(4, 8)),
                            bit_depth: bytes[8],
                            color_type,
                            compression_method: 0,
                            filter_method: 0,
                            interlace_method: InterlaceMethod::NoInterlace,
                        },
                    )
                }
            },
        }
    }
}

/// The image header: size, sample layout, and the three method bytes.
pub struct IHDRChunk {
    width: u32,
    height: u32,
    bit_depth: u8,
    color_type: u8,
    compression_method: u8,
    filter_method: u8,
    interlace_method: u8,
}

impl View for IHDRChunk {
    type V = IHDRModel;

    closed spec fn view(&self) -> IHDRModel {
        IHDRModel {
            width: self.width as nat,
            height: self.height as nat,
            bit_depth: self.bit_depth,
            color_type: spec_color_type(self.color_type).unwrap(),
            compression_method: self.compression_method,
            filter_method: self.filter_method,
            interlace_method: if self.interlace_method == 0 {
                InterlaceMethod::NoInterlace
            } else {
                InterlaceMethod::Adam7
            },
        }
    }
}

impl Default for IHDRChunk {
    fn default() -> (ihdr: Self)
        ensures
            ihdr@ == IHDRModel::zero(),
    {
        IHDRChunk {
            width: 0,
            height: 0,
            bit_depth: 0,
            color_type: 0,
            compression_method: 0,
            filter_method: 0,
            interlace_method: 0,
        }
    }
}

impl IHDRChunk {
    /// The codes held are always ones that have a meaning.
    #[verifier::type_invariant]
    spec fn codes_known(self) -> bool {
        spec_color_type(self.color_type) is Some && self.interlace_method <= 1
    }

    /// Reads and checks a header of exactly 13 bytes.
    pub fn parse(bytes: &[u8]) -> (result: Result<IHDRChunk, PngError>)
        ensures
            match result {
                Ok(ihdr) => spec_parse_ihdr(bytes@) == Ok::<IHDRModel, PngError>(ihdr@),
                Err(e) => spec_parse_ihdr(bytes@) == Err::<IHDRModel, PngError>(e),
            },
            result matches Ok(ihdr) ==> ihdr@.color_type.spec_permits(ihdr@.bit_depth),
    {
        if bytes.len() != 13 {
            return Err(PngError::MalformedHeader(HeaderField::Length));
        }
        let width: u32 = from_bytes_u32(slice_subrange(bytes, 0, 4));
        let height: u32 = from_bytes_u32(slice_subrange(bytes, 4, 8));
        let bit_depth: u8 = bytes[8];
        let code: u8 = bytes[9];
        let compression_method: u8 = bytes[10];
        let filter_method: u8 = bytes[11];
        let interlace_method: u8 = bytes[12];

        let color_type = match code {
            0 => ColorType::Gray,
            2 => ColorType::RGB,
            3 => ColorType::Palette,
            4 => ColorType::GrayA,
            6 => ColorType::RGBA,
            _ => {
                return Err(PngError::MalformedHeader(HeaderField::ColorType));
            },
        };
        if !color_type.permits(bit_depth) {
            return Err(PngError::MalformedHeader(HeaderField::BitDepth));
        }
        // Only compression method 0 (deflate with a window of at most 32768
        // bytes) is defined.
        if compression_method != 0 {
            return Err(PngError::MalformedHeader(HeaderField::Compression));
        }
        // Only filter method 0 (adaptive filtering with five filter types) is
        // defined.
        if filter_method != 0 {
            return Err(PngError::MalformedHeader(HeaderField::Filter));
        }
        // Two values are defined: 0 (no interlace) and 1 (Adam7).
        if interlace_method >= 2 {
            return Err(PngError::MalformedHeader(HeaderField::Interlace));
        }
        let ihdr = IHDRChunk {
            width,
            height,
            bit_depth,
            color_type: code,
            compression_method,
            filter_method,
            interlace_method,
        };
        if ihdr.interlace_method() == InterlaceMethod::Adam7 {
            return Err(PngError::Unsupported);
        }
        Ok(ihdr)
    }

    pub fn width(&self) -> (width: u32)
        ensures
            width == self@.width,
    {
        self.width
    }

    pub fn height(&self) -> (height: u32)
        ensures
            height == self@.height,
    {
        self.height
    }

    pub fn color_type(&self) -> (color_type: ColorType)
        ensures
            color_type == self@.color_type,
    {
        proof {
            use_type_invariant(self);
        }
        match self.color_type {
            0 => ColorType::Gray,
            2 => ColorType::RGB,
            3 => ColorType::Palette,
            4 => ColorType::GrayA,
            _ => ColorType::RGBA,
        }
    }

    pub fn bit_depth(&self) -> (bit_depth: u8)
        ensures
            bit_depth == self@.bit_depth,
    {
        self.bit_depth
    }

    /// The number of bytes of one complete pixel, at least one.
    pub fn pixel_size(&self) -> (px: u8)
        ensures
            px == spec_pixel_size(self@.color_type, self@.bit_depth),
            1 <= px <= 128,
    {
        compute_pixel_size(self.color_type(), self.bit_depth)
    }

    pub fn interlace_method(&self) -> (method: InterlaceMethod)
        ensures
            method == self@.interlace_method,
    {
        proof {
            use_type_invariant(self);
        }
        match self.interlace_method {
            0 => InterlaceMethod::NoInterlace,
            _ => InterlaceMethod::Adam7,
        }
    }
}

} // verus!
