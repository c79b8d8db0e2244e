//! The errors that decoding can end in.

use vstd::prelude::*;

verus! {

/// `std::io::Error`, in which the ZLIB decompressor says why it failed.
/// Nothing is known of what one holds.
#[verifier::external_type_specification]
#[verifier::external_body]
pub struct ExIoError(std::io::Error);

/// The part of the image header that was found to be wrong.
#[derive(Debug, Clone, Copy, PartialEq, Eq, Structural)]
pub enum HeaderField {
    /// The header is not 13 bytes long.
    Length,
    /// The colour type is none of 0, 2, 3, 4, 6.
    ColorType,
    /// The bit depth is not permitted for the colour type.
    BitDepth,
    /// The compression method is not 0.
    Compression,
    /// The filter method is not 0.
    Filter,
    /// The interlace method is neither 0 nor 1.
    Interlace,
}

/// Why a byte stream could not be decoded, or why one chunk was skipped.
#[derive(Debug)]
pub enum PngError {
    /// The first eight bytes are not the PNG signature.
    InvalidSignature,
    /// A chunk's length, payload or CRC would lie past the end of the buffer.
    Truncated,
    /// The CRC stored with a chunk differs from the one computed over it.
    CRCMismatch { expected: u32, computed: u32 },
    /// A chunk stands where it may not: the first chunk is not IHDR, image
    /// data is interrupted by another chunk, or image data of a palette image
    /// comes before any palette.
    OrderingViolation,
    /// The image header is not one this decoder accepts.
    MalformedHeader(HeaderField),
    /// The image is interlaced.
    Unsupported,
    /// A critical chunk of a type this decoder does not know.
    UnknownCriticalChunk,
    /// A scanline begins with a filter type other than 0 to 4.
    UnknownFilter,
    /// The decompressor rejected the image data.
    InflateFailure(std::io::Error),
    /// The keyword or the text of a text chunk is not UTF-8.
    TextDecode,
    /// A chunk's payload has a length that its type does not allow.
    MalformedChunk,
    /// The chunk needs a palette and none has been read.
    MissingPalette,
    /// A palette index is not below the number of palette entries.
    PaletteIndex,
    /// A transparency chunk in an image that has an alpha channel.
    TransparencyNotAllowed,
    /// The decompressed image data does not hold exactly one filter byte and
    /// `width * pixel_size` sample bytes for each of the `height` rows.
    MalformedData,
}

} // verus!
