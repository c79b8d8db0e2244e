//! The chunks that a decoder may skip: transparency, background, the time of
//! the last change, and text.

use crate::common::{
    be_u16, from_bytes_u16, is_transparent, spec_is_transparent, AlphaModel, AlphaValue,
    ColorType, Metadata, MetadataModel, RGBColor,
};
use crate::error::{HeaderField, PngError};
use crate::zlib::{inflate, zlib_inflated};
use vstd::prelude::*;
use vstd::slice::slice_subrange;
use vstd::string::StringSliceAdditionalSpecFns;
use vstd::utf8::{decode_utf8, encode_utf8_decode_utf8, valid_utf8};

verus! {

/// `core::str::Utf8Error`, which says where a byte sequence stops being UTF-8.
#[verifier::external_type_specification]
#[verifier::external_body]
pub struct ExUtf8Error(core::str::Utf8Error);

/// `core::str::from_utf8` succeeds exactly on the byte sequences that are
/// UTF-8, and the string it then returns is made of the very bytes given.
pub assume_specification[ core::str::from_utf8 ](v: &[u8]) -> (res: Result<
    &str,
    core::str::Utf8Error,
>)
    ensures
        res is Ok <==> valid_utf8(v@),
        res matches Ok(s) ==> s.spec_bytes() == v@,
;

/// A 16-bit value of a tRNS or bKGD chunk brought to eight bits: the high
/// byte for 16-bit images; otherwise the low byte times 8, divided by the bit
/// depth, of which the low eight bits are kept.
pub open spec fn spec_scale_sample(val: nat, bit_depth: u8) -> u8 {
    if bit_depth == 16 {
        ((val / 256) % 256) as u8
    } else {
        (((val % 256) * 8 / (bit_depth as nat)) % 256) as u8
    }
}

/// Computes [`spec_scale_sample`].
pub fn scale_sample(val: u16, bit_depth: u8) -> (scaled: u8)
    requires
        bit_depth != 0,
    ensures
        scaled == spec_scale_sample(val as nat, bit_depth),
{
    if bit_depth == 16 {
        ((val / 256) % 256) as u8
    } else {
        let low: u16 = val % 256;
        (((low * 8) / (bit_depth as u16)) % 256) as u8
    }
}

/// A pixel that is known to be opaque: black is moved off the value that
/// stands for transparency.
pub open spec fn spec_opaque(color: RGBColor) -> RGBColor {
    if spec_is_transparent(color.0, color.1, color.2) {
        (0u8, 0u8, 1u8)
    } else {
        color
    }
}

/// Computes [`spec_opaque`].
pub fn opaque(color: RGBColor) -> (shown: RGBColor)
    ensures
        shown == spec_opaque(color),
{
    if is_transparent(color.0, color.1, color.2) {
        (0, 0, 1)
    } else {
        color
    }
}

/// The alpha table of a palette of `entries` colours: the chunk's bytes, and
/// 255 for every entry that the chunk is too short to reach.
pub open spec fn spec_palette_alpha(bytes: Seq<u8>, entries: nat) -> Seq<u8> {
    if bytes.len() >= entries {
        bytes
    } else {
        bytes + Seq::new((entries - bytes.len()) as nat, |i: int| 255u8)
    }
}

/// What a tRNS chunk of these bytes declares for an image of this kind.
pub open spec fn spec_parse_trns(bytes: Seq<u8>, metadata: MetadataModel) -> Result<
    AlphaModel,
    PngError,
> {
    match metadata.color_type {
        ColorType::Gray => {
            if metadata.bit_depth == 0 {
                Err(PngError::MalformedHeader(HeaderField::BitDepth))
            } else if bytes.len() < 2 {
                Err(PngError::MalformedChunk)
            } else {
                Ok(AlphaModel::Gray(spec_scale_sample(be_u16(bytes), metadata.bit_depth)))
            }
        },
        ColorType::RGB => {
            if metadata.bit_depth == 0 {
                Err(PngError::MalformedHeader(HeaderField::BitDepth))
            } else if bytes.len() < 6 {
                Err(PngError::MalformedChunk)
            } else {
                Ok(
                    AlphaModel::RGB(
                        spec_scale_sample(be_u16(bytes.subrange(0, 2)), metadata.bit_depth),
                        spec_scale_sample(be_u16(bytes.subrange(2, 4)), metadata.bit_depth),
                        spec_scale_sample(be_u16(bytes.subrange(4, 6)), metadata.bit_depth),
                    ),
                )
            }
        },
        ColorType::Palette => match metadata.palette {
            Some(palette) => Ok(AlphaModel::Palette(spec_palette_alpha(bytes, palette.len()))),
            None => Err(PngError::MissingPalette),
        },
        ColorType::GrayA | ColorType::RGBA => Err(PngError::TransparencyNotAllowed),
    }
}

/// Reads a tRNS chunk. Images with an alpha channel may not have one, and a
/// palette image must have its palette first.
pub fn parse_trns(bytes: &[u8], metadata: &Metadata) -> (result: Result<AlphaValue, PngError>)
    ensures
        match result {
            Ok(alpha) => spec_parse_trns(bytes@, metadata@) == Ok::<AlphaModel, PngError>(alpha@),
            Err(e) => spec_parse_trns(bytes@, metadata@) == Err::<AlphaModel, PngError>(e),
        },
{
    match metadata.color_type() {
        ColorType::Gray => {
            let bit_depth: u8 = metadata.bit_depth();
            if bit_depth == 0 {
                return Err(PngError::MalformedHeader(HeaderField::BitDepth));
            }
            if bytes.len() < 2 {
                return Err(PngError::MalformedChunk);
            }
            let val: u16 = from_bytes_u16(bytes);
            Ok(AlphaValue::Gray(scale_sample(val, bit_depth)))
        },
        ColorType::RGB => {
            let bit_depth: u8 = metadata.bit_depth();
            if bit_depth == 0 {
                return Err(PngError::MalformedHeader(HeaderField::BitDepth));
            }
            if bytes.len() < 6 {
                return Err(PngError::MalformedChunk);
            }
            let r: u16 = from_bytes_u16(slice_subrange(bytes, 0, 2));
            let g: u16 = from_bytes_u16(slice_subrange(bytes, 2, 4));
            let b: u16 = from_bytes_u16(slice_subrange(bytes, 4, 6));
            Ok(
                AlphaValue::RGB(
                    scale_sample(r, bit_depth),
                    scale_sample(g, bit_depth),
                    scale_sample(b, bit_depth),
                ),
            )
        },
        ColorType::Palette => {
            let len: usize = match metadata.palette() {
                Some(pt) => pt.len(),
                None => {
                    return Err(PngError::MissingPalette);
                },
            };
            let mut alpha: Vec<u8> = Vec::new();
            let mut i: usize = 0;
            while i < bytes.len()
                invariant
                    i <= bytes@.len(),
                    alpha@ == bytes@.take(i as int),
                decreases bytes@.len() - i,
            {
                alpha.push(bytes[i]);
                i += 1;
            }
            while i < len
                invariant
                    bytes@.len() <= i,
                    i <= len || i == bytes@.len(),
                    alpha@ == bytes@ + Seq::new((i - bytes@.len()) as nat, |k: int| 255u8),
                decreases len - i,
            {
                alpha.push(255);
                i += 1;
            }
            Ok(AlphaValue::Palette(alpha))
        },
        // Images with an alpha channel have no use for a tRNS chunk.
        ColorType::GrayA | ColorType::RGBA => Err(PngError::TransparencyNotAllowed),
    }
}

/// The time of the last change of the image.
#[derive(Debug, Clone, Copy, PartialEq, Eq, Structural)]
pub struct TIMEChunk {
    pub year: u16,
    pub month: u8,
    pub day: u8,
    pub hour: u8,
    pub minute: u8,
    pub second: u8,
}

/// The time that the first seven bytes of a tIME chunk spell: the year in
/// two bytes, then month, day, hour, minute and second.
pub open spec fn spec_parse_time(bytes: Seq<u8>) -> TIMEChunk {
    TIMEChunk {
        year: be_u16(bytes) as u16,
        month: bytes[2],
        day: bytes[3],
        hour: bytes[4],
        minute: bytes[5],
        second: bytes[6],
    }
}

impl TIMEChunk {
    /// Reads the seven bytes of a tIME chunk; the values are not checked.
    pub fn parse(bytes: &[u8]) -> (time: TIMEChunk)
        requires
            bytes@.len() >= 7,
        ensures
            time == spec_parse_time(bytes@),
    {
        TIMEChunk {
            year: from_bytes_u16(bytes),
            month: bytes[2],
            day: bytes[3],
            hour: bytes[4],
            minute: bytes[5],
            second: bytes[6],
        }
    }
}

/// A keyword and the text that goes with it.
#[derive(Debug, PartialEq, Eq)]
pub struct TextChunk {
    pub key: String,
    pub text: String,
}

/// True when `n` is where the first zero byte stands, or the length of
/// `bytes` if none of them is zero.
pub open spec fn is_first_nul(bytes: Seq<u8>, n: int) -> bool {
    &&& 0 <= n <= bytes.len()
    &&& forall|j: int| 0 <= j < n ==> bytes[j] != 0
    &&& n < bytes.len() ==> bytes[n] == 0
}

/// The number of bytes before the first zero byte: the one `n` of which
/// [`is_first_nul`] is true.
pub open spec fn spec_keyword_len(bytes: Seq<u8>) -> int {
    choose|n: int| is_first_nul(bytes, n)
}

/// The payload of a text chunk in two parts: what stands before the first
/// zero byte and what stands after it. Without a zero byte all of it stands
/// before.
pub open spec fn spec_split(bytes: Seq<u8>) -> (Seq<u8>, Seq<u8>) {
    let n = spec_keyword_len(bytes);
    (
        bytes.take(n),
        if n < bytes.len() {
            bytes.skip(n + 1)
        } else {
            Seq::empty()
        },
    )
}

/// There is one place where the first zero byte stands.
pub proof fn lemma_first_nul_is_unique(bytes: Seq<u8>, n: int, m: int)
    requires
        is_first_nul(bytes, n),
        is_first_nul(bytes, m),
    ensures
        n == m,
{
    // Were one of the two before the other, it would have a zero byte that
    // the other says is not there.
    if n < m {
        assert(bytes[n] == 0);
    } else if m < n {
        assert(bytes[m] == 0);
    }
}

/// Every byte sequence has a place where its first zero byte stands, and
/// [`spec_keyword_len`] is that place.
pub proof fn lemma_keyword_len(bytes: Seq<u8>)
    ensures
        is_first_nul(bytes, spec_keyword_len(bytes)),
    decreases bytes.len(),
{
    if bytes.len() == 0 {
        assert(is_first_nul(bytes, 0));
    } else {
        let front = bytes.drop_last();
        lemma_keyword_len(front);
        let m = spec_keyword_len(front);
        if m < front.len() {
            assert forall|j: int| 0 <= j < m implies bytes[j] != 0 by {
                assert(bytes[j] == front[j]);
            }
            assert(is_first_nul(bytes, m));
        } else {
            assert forall|j: int| 0 <= j < front.len() implies bytes[j] != 0 by {
                assert(bytes[j] == front[j]);
            }
            if bytes.last() == 0 {
                assert(is_first_nul(bytes, bytes.len() - 1));
            } else {
                assert(is_first_nul(bytes, bytes.len() as int));
            }
        }
    }
}

/// The keyword and the text of a text chunk, or the error that says which
/// cannot be read as UTF-8.
pub open spec fn spec_parse_text(keyword: Seq<u8>, text: Seq<u8>) -> Result<
    (Seq<char>, Seq<char>),
    PngError,
> {
    if valid_utf8(keyword) && valid_utf8(text) {
        Ok((decode_utf8(keyword), decode_utf8(text)))
    } else {
        Err(PngError::TextDecode)
    }
}

impl TextChunk {
    /// Splits the payload of a text chunk at its first zero byte: the keyword
    /// before it, the text after it. Without a zero byte all is keyword.
    pub fn split(bytes: &[u8]) -> (parts: (&[u8], &[u8]))
        ensures
            is_first_nul(bytes@, parts.0@.len() as int),
            (parts.0@, parts.1@) == spec_split(bytes@),
    {
        let mut i: usize = 0;
        while i < bytes.len() && bytes[i] != 0
            invariant
                i <= bytes@.len(),
                forall|j: int| 0 <= j < i ==> bytes@[j] != 0,
            decreases bytes@.len() - i,
        {
            i += 1;
        }
        let keyword = slice_subrange(bytes, 0, i);
        let text = if i < bytes.len() {
            slice_subrange(bytes, i + 1, bytes.len())
        } else {
            slice_subrange(bytes, i, i)
        };
        proof {
            lemma_keyword_len(bytes@);
            lemma_first_nul_is_unique(bytes@, i as int, spec_keyword_len(bytes@));
        }
        (keyword, text)
    }

    /// Reads keyword and text as UTF-8.
    pub fn parse(parts: (&[u8], &[u8])) -> (result: Result<TextChunk, PngError>)
        ensures
            match result {
                Ok(chunk) => spec_parse_text(parts.0@, parts.1@) == Ok::<
                    (Seq<char>, Seq<char>),
                    PngError,
                >((chunk.key@, chunk.text@)),
                Err(e) => spec_parse_text(parts.0@, parts.1@) == Err::<
                    (Seq<char>, Seq<char>),
                    PngError,
                >(e),
            },
    {
        broadcast use encode_utf8_decode_utf8;

        let key = match core::str::from_utf8(parts.0) {
            Ok(s) => s.to_owned(),
            Err(_) => {
                return Err(PngError::TextDecode);
            },
        };
        let text = match core::str::from_utf8(parts.1) {
            Ok(s) => s.to_owned(),
            Err(_) => {
                return Err(PngError::TextDecode);
            },
        };
        Ok(TextChunk { key, text })
    }
}

impl TextChunk {
    /// Reads a text chunk whose text is compressed: the payload is split at
    /// its first zero byte, what follows it is decompressed as a ZLIB stream,
    /// and keyword and text are read as UTF-8.
    pub fn parse_compressed(bytes: &[u8]) -> (result: Result<TextChunk, PngError>)
        ensures
            match zlib_inflated(spec_split(bytes@).1) {
                Some(text) => match result {
                    Ok(chunk) => spec_parse_text(spec_split(bytes@).0, text) == Ok::<
                        (Seq<char>, Seq<char>),
                        PngError,
                    >((chunk.key@, chunk.text@)),
                    Err(e) => spec_parse_text(spec_split(bytes@).0, text) == Err::<
                        (Seq<char>, Seq<char>),
                        PngError,
                    >(e),
                },
                None => result matches Err(PngError::InflateFailure(_)),
            },
    {
        let parts = TextChunk::split(bytes);
        let text: Vec<u8> = match inflate(parts.1) {
            Ok(text) => text,
            Err(e) => {
                return Err(PngError::InflateFailure(e));
            },
        };
        TextChunk::parse((parts.0, text.as_slice()))
    }
}

/// The background colour that a bKGD chunk of these bytes declares for an
/// image of this kind. It is never the value that stands for transparency.
pub open spec fn spec_parse_bkgd(bytes: Seq<u8>, metadata: MetadataModel) -> Result<
    RGBColor,
    PngError,
> {
    match metadata.color_type {
        ColorType::Palette => match metadata.palette {
            None => Err(PngError::MissingPalette),
            Some(palette) => {
                if bytes.len() < 1 {
                    Err(PngError::MalformedChunk)
                } else if bytes[0] >= palette.len() {
                    Err(PngError::PaletteIndex)
                } else {
                    Ok(spec_opaque(palette[bytes[0] as int]))
                }
            },
        },
        ColorType::Gray | ColorType::GrayA => {
            if metadata.bit_depth == 0 {
                Err(PngError::MalformedHeader(HeaderField::BitDepth))
            } else if bytes.len() < 2 {
                Err(PngError::MalformedChunk)
            } else {
                let val = spec_scale_sample(be_u16(bytes), metadata.bit_depth);
                Ok(spec_opaque((val, val, val)))
            }
        },
        ColorType::RGBA | ColorType::RGB => {
            if metadata.bit_depth == 0 {
                Err(PngError::MalformedHeader(HeaderField::BitDepth))
            } else if bytes.len() < 6 {
                Err(PngError::MalformedChunk)
            } else {
                Ok(
                    spec_opaque(
                        (
                            spec_scale_sample(be_u16(bytes.subrange(0, 2)), metadata.bit_depth),
                            spec_scale_sample(be_u16(bytes.subrange(2, 4)), metadata.bit_depth),
                            spec_scale_sample(be_u16(bytes.subrange(4, 6)), metadata.bit_depth),
                        ),
                    ),
                )
            }
        },
    }
}

/// Reads a bKGD chunk.
pub fn parse_bkgd_chunk(bytes: &[u8], metadata: &Metadata) -> (result: Result<RGBColor, PngError>)
    ensures
        match result {
            Ok(color) => spec_parse_bkgd(bytes@, metadata@) == Ok::<RGBColor, PngError>(color),
            Err(e) => spec_parse_bkgd(bytes@, metadata@) == Err::<RGBColor, PngError>(e),
        },
        result matches Ok(color) ==> !spec_is_transparent(color.0, color.1, color.2),
{
    let color: RGBColor = match metadata.color_type() {
        ColorType::Palette => match metadata.palette() {
            Some(pt) => {
                if bytes.len() < 1 {
                    return Err(PngError::MalformedChunk);
                }
                let index: usize = bytes[0] as usize;
                if index >= pt.len() {
                    return Err(PngError::PaletteIndex);
                }
                pt[index]
            },
            None => {
                return Err(PngError::MissingPalette);
            },
        },
        ColorType::Gray | ColorType::GrayA => {
            let bit_depth: u8 = metadata.bit_depth();
            if bit_depth == 0 {
                return Err(PngError::MalformedHeader(HeaderField::BitDepth));
            }
            if bytes.len() < 2 {
                return Err(PngError::MalformedChunk);
            }
            let val: u8 = scale_sample(from_bytes_u16(bytes), bit_depth);
            (val, val, val)
        },
        ColorType::RGBA | ColorType::RGB => {
            let bit_depth: u8 = metadata.bit_depth();
            if bit_depth == 0 {
                return Err(PngError::MalformedHeader(HeaderField::BitDepth));
            }
            if bytes.len() < 6 {
                return Err(PngError::MalformedChunk);
            }
            let r: u16 = from_bytes_u16(slice_subrange(bytes, 0, 2));
            let g: u16 = from_bytes_u16(slice_subrange(bytes, 2, 4));
            let b: u16 = from_bytes_u16(slice_subrange(bytes, 4, 6));
            (scale_sample(r, bit_depth), scale_sample(g, bit_depth), scale_sample(b, bit_depth))
        },
    };
    Ok(opaque(color))
}

} // verus!
