//! The PNG container: the signature, the chunk stream, and the decoder that
//! goes from a file's bytes to the image.

pub mod chunks;

use crate::common::{be_u32, from_bytes_u32, ColorType, Image, Metadata, MetadataModel, RGBColor};
use crate::crc::{spec_crc, CRCHandler};
use crate::error::PngError;
use crate::parse_image::{image_view, spec_parse};
use crate::png::chunks::ancillary::{
    parse_bkgd_chunk, parse_trns, spec_parse_bkgd, spec_parse_text, spec_parse_time, spec_parse_trns,
    spec_split, TIMEChunk, TextChunk,
};
use crate::png::chunks::chunk_types::{
    is_critical, spec_is_critical, BKGD, IDAT, IEND, IHDR, PLTE, TEXT, TIME, TRNS, ZTXT,
};
use crate::png::chunks::ihdr::{spec_parse_ihdr, IHDRChunk};
use crate::png::chunks::plte::{spec_palette, PLTEChunk};
use crate::zlib::{inflate, zlib_inflated};
use vstd::prelude::*;
use vstd::slice::slice_subrange;

verus! {

/// The eight bytes that every PNG file begins with.
pub open spec fn spec_signature() -> Seq<u8> {
    seq![137u8, 80u8, 78u8, 71u8, 13u8, 10u8, 26u8, 10u8]
}

/// True of a buffer that begins with the PNG signature.
pub open spec fn spec_has_signature(buffer: Seq<u8>) -> bool {
    buffer.len() >= 8 && buffer.take(8) == spec_signature()
}

/// Tells whether a buffer begins with the PNG signature.
pub fn has_signature(buffer: &[u8]) -> (found: bool)
    ensures
        found == spec_has_signature(buffer@),
{
    if buffer.len() < 8 {
        return false;
    }
    let found: bool = buffer[0] == 137 && buffer[1] == 80 && buffer[2] == 78 && buffer[3] == 71
        && buffer[4] == 13 && buffer[5] == 10 && buffer[6] == 26 && buffer[7] == 10;
    proof {
        if found {
            assert(buffer@.take(8) =~= spec_signature());
        }
    }
    found
}

/// One chunk of a chunk stream: its type, its payload, and the place in the
/// buffer where the next chunk begins.
pub struct Chunk<'a> {
    pub kind: u32,
    pub data: &'a [u8],
    pub end: usize,
}

/// What a [`Chunk`] holds.
pub struct ChunkModel {
    pub kind: u32,
    pub data: Seq<u8>,
    pub end: int,
}

impl<'a> View for Chunk<'a> {
    type V = ChunkModel;

    open spec fn view(&self) -> ChunkModel {
        ChunkModel { kind: self.kind, data: self.data@, end: self.end as int }
    }
}

/// The chunk that begins at `pos`: four bytes of length, four of type, the
/// payload, and four of CRC over type and payload, all numbers written most
/// significant byte first. It must lie within the buffer, and the CRC must
/// be right.
pub open spec fn spec_read_chunk(buffer: Seq<u8>, pos: int) -> Result<ChunkModel, PngError> {
    if pos < 0 || pos + 8 > buffer.len() {
        Err(PngError::Truncated)
    } else {
        let length = be_u32(buffer.subrange(pos, pos + 4)) as int;
        if pos + 12 + length > buffer.len() {
            Err(PngError::Truncated)
        } else {
            let stored = be_u32(buffer.subrange(pos + 8 + length, pos + 12 + length)) as u32;
            let computed = spec_crc(buffer.subrange(pos + 4, pos + 8 + length));
            if stored != computed {
                Err(PngError::CRCMismatch { expected: stored, computed })
            } else {
                Ok(
                    ChunkModel {
                        kind: be_u32(buffer.subrange(pos + 4, pos + 8)) as u32,
                        data: buffer.subrange(pos + 8, pos + 8 + length),
                        end: pos + 12 + length,
                    },
                )
            }
        }
    }
}

/// Reads the chunk that begins at `pos` and checks its CRC.
pub fn read_chunk<'a>(buffer: &'a [u8], pos: usize, crc_handler: &CRCHandler) -> (result: Result<
    Chunk<'a>,
    PngError,
>)
    ensures
        match result {
            Ok(chunk) => spec_read_chunk(buffer@, pos as int) == Ok::<ChunkModel, PngError>(
                chunk@,
            ),
            Err(e) => spec_read_chunk(buffer@, pos as int) == Err::<ChunkModel, PngError>(e),
        },
{
    let len: usize = buffer.len();
    if pos > len || len - pos < 8 {
        return Err(PngError::Truncated);
    }
    let length: usize = from_bytes_u32(slice_subrange(buffer, pos, pos + 4)) as usize;
    if len - pos < 12 || len - pos - 12 < length {
        return Err(PngError::Truncated);
    }
    let kind: u32 = from_bytes_u32(slice_subrange(buffer, pos + 4, pos + 8));
    let data = slice_subrange(buffer, pos + 8, pos + 8 + length);
    let stored: u32 = from_bytes_u32(slice_subrange(buffer, pos + 8 + length, pos + 12 + length));
    match crc_handler.verify(stored, slice_subrange(buffer, pos + 4, pos + 8 + length)) {
        Err(computed) => Err(PngError::CRCMismatch { expected: stored, computed }),
        Ok(()) => Ok(Chunk { kind, data, end: pos + 12 + length }),
    }
}

/// Where the reader of a chunk stream stands.
///
/// `InData` and `AfterData` are the parts of the body in which image data is
/// coming in, and in which it has come to its end: image data chunks must
/// follow one another without another chunk between them.
#[derive(Debug, Clone, Copy, PartialEq, Eq, Structural)]
pub enum ReaderState {
    ExpectSignature,
    ExpectIHDR,
    InBody,
    InData,
    AfterData,
    Done,
}

/// The state after a chunk that is not image data.
pub open spec fn spec_after_other(state: ReaderState) -> ReaderState {
    if state == ReaderState::InData || state == ReaderState::AfterData {
        ReaderState::AfterData
    } else {
        ReaderState::InBody
    }
}

/// All that the reader of a chunk stream has: its state, the metadata, and
/// the compressed image data that it has collected.
pub struct ReaderModel {
    pub state: ReaderState,
    pub metadata: MetadataModel,
    pub stream: Seq<u8>,
}

/// What one chunk does to the reader.
///
/// The first chunk must be the image header. A header is checked and its
/// fields taken over. A palette must come before the image data and hold at
/// most 256 entries of three bytes each; it is taken over. Image data is
/// appended to what has been collected; it must come in one run, and for a
/// palette image after the palette. The end chunk must be empty and ends the
/// stream. Any other critical chunk is an error. Transparency and background
/// are taken over where their parsers accept them, and skipped where they do
/// not; every other ancillary chunk is skipped.
pub open spec fn spec_apply_chunk(reader: ReaderModel, chunk: ChunkModel) -> Result<
    ReaderModel,
    PngError,
> {
    let state = spec_after_other(reader.state);
    if reader.state == ReaderState::Done {
        Ok(reader)
    } else if reader.state == ReaderState::ExpectSignature {
        Err(PngError::OrderingViolation)
    } else if reader.state == ReaderState::ExpectIHDR && chunk.kind != IHDR {
        Err(PngError::OrderingViolation)
    } else if chunk.kind == IHDR {
        match spec_parse_ihdr(chunk.data) {
            Err(e) => Err(e),
            Ok(ihdr) => Ok(
                ReaderModel {
                    state,
                    metadata: MetadataModel {
                        width: ihdr.width,
                        height: ihdr.height,
                        bit_depth: ihdr.bit_depth,
                        color_type: ihdr.color_type,
                        ..reader.metadata
                    },
                    ..reader
                },
            ),
        }
    } else if chunk.kind == PLTE {
        if state == ReaderState::AfterData {
            Err(PngError::OrderingViolation)
        } else if chunk.data.len() % 3 != 0 || chunk.data.len() / 3 > 256 {
            Err(PngError::MalformedChunk)
        } else {
            Ok(
                ReaderModel {
                    state,
                    metadata: MetadataModel {
                        palette: Some(spec_palette(chunk.data)),
                        ..reader.metadata
                    },
                    ..reader
                },
            )
        }
    } else if chunk.kind == IDAT {
        if reader.state == ReaderState::AfterData {
            Err(PngError::OrderingViolation)
        } else if reader.metadata.color_type == ColorType::Palette && reader.metadata.palette
            is None {
            Err(PngError::OrderingViolation)
        } else {
            Ok(
                ReaderModel {
                    state: ReaderState::InData,
                    stream: reader.stream + chunk.data,
                    ..reader
                },
            )
        }
    } else if chunk.kind == IEND {
        if chunk.data.len() != 0 {
            Err(PngError::MalformedChunk)
        } else {
            Ok(ReaderModel { state: ReaderState::Done, ..reader })
        }
    } else if spec_is_critical(chunk.kind) {
        Err(PngError::UnknownCriticalChunk)
    } else if chunk.kind == TRNS {
        match spec_parse_trns(chunk.data, reader.metadata) {
            Ok(alpha) => Ok(
                ReaderModel {
                    state,
                    metadata: MetadataModel { alpha: Some(alpha), ..reader.metadata },
                    ..reader
                },
            ),
            Err(_) => Ok(ReaderModel { state, ..reader }),
        }
    } else if chunk.kind == BKGD {
        match spec_parse_bkgd(chunk.data, reader.metadata) {
            Ok(background) => Ok(
                ReaderModel {
                    state,
                    metadata: MetadataModel { background, ..reader.metadata },
                    ..reader
                },
            ),
            Err(_) => Ok(ReaderModel { state, ..reader }),
        }
    } else {
        Ok(ReaderModel { state, ..reader })
    }
}

/// Computes [`spec_after_other`].
fn after_other(state: ReaderState) -> (next: ReaderState)
    ensures
        next == spec_after_other(state),
{
    match state {
        ReaderState::InData | ReaderState::AfterData => ReaderState::AfterData,
        _ => ReaderState::InBody,
    }
}

/// Lets one chunk act on the reader: on the metadata, on the compressed
/// image data collected so far, and on the state, which is returned. On an
/// error nothing is changed.
pub fn apply_chunk(
    state: ReaderState,
    chunk: &Chunk,
    metadata: &mut Metadata,
    stream: &mut Vec<u8>,
) -> (result: Result<ReaderState, PngError>)
    ensures
        match spec_apply_chunk(
            ReaderModel { state, metadata: old(metadata)@, stream: old(stream)@ },
            chunk@,
        ) {
            Ok(reader) => {
                &&& result == Ok::<ReaderState, PngError>(reader.state)
                &&& final(metadata)@ == reader.metadata
                &&& final(stream)@ == reader.stream
            },
            Err(e) => {
                &&& result == Err::<ReaderState, PngError>(e)
                &&& final(metadata)@ == old(metadata)@
                &&& final(stream)@ == old(stream)@
            },
        },
{
    let next: ReaderState = after_other(state);
    match state {
        ReaderState::Done => {
            return Ok(state);
        },
        ReaderState::ExpectSignature => {
            return Err(PngError::OrderingViolation);
        },
        _ => {},
    }
    if state == ReaderState::ExpectIHDR && chunk.kind != IHDR {
        return Err(PngError::OrderingViolation);
    }
    if chunk.kind == IHDR {
        match IHDRChunk::parse(chunk.data) {
            Err(e) => Err(e),
            Ok(ihdr) => {
                metadata.add_ihdr(ihdr);
                Ok(next)
            },
        }
    } else if chunk.kind == PLTE {
        if next == ReaderState::AfterData {
            return Err(PngError::OrderingViolation);
        }
        let size: usize = chunk.data.len();
        if size % 3 != 0 || size / 3 > 256 {
            return Err(PngError::MalformedChunk);
        }
        assert(chunk.data@.take(size as int) == chunk.data@);
        let plte_chunk = PLTEChunk::parse(chunk.data, size);
        metadata.set_palette(plte_chunk.colors);
        Ok(next)
    } else if chunk.kind == IDAT {
        if state == ReaderState::AfterData {
            return Err(PngError::OrderingViolation);
        }
        match metadata.color_type() {
            ColorType::Palette => {
                if metadata.palette().is_none() {
                    return Err(PngError::OrderingViolation);
                }
            },
            _ => {},
        }
        stream.extend_from_slice(chunk.data);
        Ok(ReaderState::InData)
    } else if chunk.kind == IEND {
        if chunk.data.len() != 0 {
            return Err(PngError::MalformedChunk);
        }
        Ok(ReaderState::Done)
    } else if is_critical(chunk.kind) {
        Err(PngError::UnknownCriticalChunk)
    } else if chunk.kind == TRNS {
        match parse_trns(chunk.data, metadata) {
            Ok(alpha) => {
                metadata.set_alpha(alpha);
            },
            Err(_) => {},
        }
        Ok(next)
    } else if chunk.kind == BKGD {
        match parse_bkgd_chunk(chunk.data, metadata) {
            Ok(background) => {
                metadata.set_bkgd(background);
            },
            Err(_) => {},
        }
        Ok(next)
    } else {
        Ok(next)
    }
}

/// What a chunk says that is of no use for decoding the image.
#[derive(Debug, PartialEq, Eq)]
pub enum Remark {
    /// The time of the last change, from a tIME chunk.
    Time(TIMEChunk),
    /// A keyword and its text, from a tEXt or a zTXt chunk.
    Text(TextChunk),
}

/// What [`Remark`] holds: a time, or a keyword and a text.
pub enum RemarkModel {
    Time(TIMEChunk),
    Text(Seq<char>, Seq<char>),
}

impl View for Remark {
    type V = RemarkModel;

    open spec fn view(&self) -> RemarkModel {
        match *self {
            Remark::Time(time) => RemarkModel::Time(time),
            Remark::Text(text) => RemarkModel::Text(text.key@, text.text@),
        }
    }
}

/// The remark that a chunk makes, given what the decompressor made of the
/// bytes after the first zero byte of its payload. A tIME chunk must hold
/// seven bytes at least; the text of a tEXt chunk is what follows the first
/// zero byte, the text of a zTXt chunk what those bytes decompress to.
/// Chunks of other types make none. The one error that cannot be told here
/// is that of the decompressor: it is `None` in `inflated`.
pub open spec fn spec_remark(chunk: ChunkModel, inflated: Option<Seq<u8>>) -> Option<
    Result<RemarkModel, PngError>,
> {
    if chunk.kind == TIME {
        if chunk.data.len() < 7 {
            Some(Err(PngError::MalformedChunk))
        } else {
            Some(Ok(RemarkModel::Time(spec_parse_time(chunk.data))))
        }
    } else if chunk.kind == TEXT || (chunk.kind == ZTXT && inflated is Some) {
        let text = if chunk.kind == TEXT {
            spec_split(chunk.data).1
        } else {
            inflated->Some_0
        };
        match spec_parse_text(spec_split(chunk.data).0, text) {
            Ok((key, text)) => Some(Ok(RemarkModel::Text(key, text))),
            Err(e) => Some(Err(e)),
        }
    } else {
        None
    }
}

/// Reads what a tIME, tEXt or zTXt chunk says; of other chunks it says
/// `None`. A remark that cannot be read is an error that a decoder may
/// report and pass over.
pub fn remark(chunk: &Chunk) -> (result: Option<Result<Remark, PngError>>)
    ensures
        chunk.kind == ZTXT && zlib_inflated(spec_split(chunk.data@).1) is None ==> result matches Some(
            Err(PngError::InflateFailure(_)),
        ),
        !(chunk.kind == ZTXT && zlib_inflated(spec_split(chunk.data@).1) is None) ==> match result {
            Some(Ok(found)) => spec_remark(chunk@, zlib_inflated(spec_split(chunk.data@).1))
                == Some(Ok::<RemarkModel, PngError>(found@)),
            Some(Err(e)) => spec_remark(chunk@, zlib_inflated(spec_split(chunk.data@).1))
                == Some(Err::<RemarkModel, PngError>(e)),
            None => spec_remark(chunk@, zlib_inflated(spec_split(chunk.data@).1)) is None,
        },
{
    if chunk.kind == TIME {
        if chunk.data.len() < 7 {
            return Some(Err(PngError::MalformedChunk));
        }
        Some(Ok(Remark::Time(TIMEChunk::parse(chunk.data))))
    } else if chunk.kind == TEXT {
        match TextChunk::parse(TextChunk::split(chunk.data)) {
            Ok(text) => Some(Ok(Remark::Text(text))),
            Err(e) => Some(Err(e)),
        }
    } else if chunk.kind == ZTXT {
        match TextChunk::parse_compressed(chunk.data) {
            Ok(text) => Some(Ok(Remark::Text(text))),
            Err(e) => Some(Err(e)),
        }
    } else {
        None
    }
}

/// How reading a chunk stream ended: the metadata and the compressed image
/// data as they then were, and the error, if it ended in one.
pub struct Outcome {
    pub metadata: MetadataModel,
    pub stream: Seq<u8>,
    pub error: Option<PngError>,
}

/// Reads chunk after chunk from `pos` on, until the end chunk or an error.
/// What follows the end chunk is not looked at.
pub open spec fn spec_run(buffer: Seq<u8>, pos: int, reader: ReaderModel) -> Outcome
    decreases buffer.len() - pos,
{
    match spec_read_chunk(buffer, pos) {
        Err(e) => Outcome { metadata: reader.metadata, stream: reader.stream, error: Some(e) },
        Ok(chunk) => match spec_apply_chunk(reader, chunk) {
            Err(e) => Outcome {
                metadata: reader.metadata,
                stream: reader.stream,
                error: Some(e),
            },
            Ok(next) => {
                if next.state == ReaderState::Done {
                    Outcome { metadata: next.metadata, stream: next.stream, error: None }
                } else {
                    spec_run(buffer, chunk.end, next)
                }
            },
        },
    }
}

/// Reads a whole file: the signature, then the chunk stream.
pub open spec fn spec_read_chunks(buffer: Seq<u8>, metadata: MetadataModel) -> Outcome {
    if !spec_has_signature(buffer) {
        Outcome { metadata, stream: Seq::empty(), error: Some(PngError::InvalidSignature) }
    } else {
        spec_run(
            buffer,
            8,
            ReaderModel { state: ReaderState::ExpectIHDR, metadata, stream: Seq::empty() },
        )
    }
}

/// Once the header has been read, the bit depth is one that the colour type
/// permits, whatever chunks follow.
proof fn lemma_run_keeps_header_valid(buffer: Seq<u8>, pos: int, reader: ReaderModel)
    requires
        reader.state == ReaderState::ExpectIHDR || reader.metadata.color_type.spec_permits(
            reader.metadata.bit_depth,
        ),
        spec_run(buffer, pos, reader).error is None,
    ensures
        spec_run(buffer, pos, reader).metadata.color_type.spec_permits(
            spec_run(buffer, pos, reader).metadata.bit_depth,
        ),
    decreases buffer.len() - pos,
{
    let chunk = spec_read_chunk(buffer, pos)->Ok_0;
    let next = spec_apply_chunk(reader, chunk)->Ok_0;
    if next.state != ReaderState::Done {
        lemma_run_keeps_header_valid(buffer, chunk.end, next);
    }
}

/// Of a file that is read without an error, the bit depth is one that the
/// colour type permits.
pub proof fn lemma_read_header_is_valid(buffer: Seq<u8>, metadata: MetadataModel)
    requires
        spec_read_chunks(buffer, metadata).error is None,
    ensures
        spec_read_chunks(buffer, metadata).metadata.color_type.spec_permits(
            spec_read_chunks(buffer, metadata).metadata.bit_depth,
        ),
{
    lemma_run_keeps_header_valid(
        buffer,
        8,
        ReaderModel { state: ReaderState::ExpectIHDR, metadata, stream: Seq::empty() },
    );
}

/// Reads the chunk stream of a file into `metadata` and returns the
/// compressed image data, the payloads of all image data chunks in order.
/// On an error `metadata` holds what the chunks before the error gave it.
pub fn read_chunks(buffer: &[u8], metadata: &mut Metadata) -> (result: Result<Vec<u8>, PngError>)
    ensures
        final(metadata)@ == spec_read_chunks(buffer@, old(metadata)@).metadata,
        match result {
            Ok(stream) => {
                &&& spec_read_chunks(buffer@, old(metadata)@).error is None
                &&& spec_read_chunks(buffer@, old(metadata)@).stream == stream@
            },
            Err(e) => spec_read_chunks(buffer@, old(metadata)@).error == Some(e),
        },
{
    if !has_signature(buffer) {
        return Err(PngError::InvalidSignature);
    }
    let crc_handler = CRCHandler::new();
    let mut state: ReaderState = ReaderState::ExpectIHDR;
    let mut zlib_stream: Vec<u8> = Vec::new();
    let mut i: usize = 8;
    loop
        invariant
            state != ReaderState::Done,
            i <= buffer@.len(),
            spec_run(buffer@, i as int, ReaderModel { state, metadata: metadata@, stream: zlib_stream@ })
                == spec_read_chunks(buffer@, old(metadata)@),
        decreases buffer@.len() - i,
    {
        let chunk = match read_chunk(buffer, i, &crc_handler) {
            Ok(chunk) => chunk,
            Err(e) => {
                return Err(e);
            },
        };
        state =
        match apply_chunk(state, &chunk, metadata, &mut zlib_stream) {
            Ok(state) => state,
            Err(e) => {
                return Err(e);
            },
        };
        if state == ReaderState::Done {
            return Ok(zlib_stream);
        }
        i = chunk.end;
    }
}

/// Decodes a PNG file: reads its chunks into `metadata`, decompresses the
/// image data, and turns it into the image.
///
/// The image has as many rows as the header says, and each row as many
/// pixels.
pub fn parse(buffer: Vec<u8>, metadata: &mut Metadata) -> (result: Result<
    Image<RGBColor>,
    PngError,
>)
    ensures
        final(metadata)@ == spec_read_chunks(buffer@, old(metadata)@).metadata,
        match spec_read_chunks(buffer@, old(metadata)@).error {
            Some(e) => result == Err::<Image<RGBColor>, PngError>(e),
            None => match zlib_inflated(spec_read_chunks(buffer@, old(metadata)@).stream) {
                None => result matches Err(PngError::InflateFailure(_)),
                Some(data) => match result {
                    Ok(image) => spec_parse(data, final(metadata)@) == Ok::<
                        Seq<Seq<RGBColor>>,
                        PngError,
                    >(image_view(image@)),
                    Err(e) => spec_parse(data, final(metadata)@) == Err::<
                        Seq<Seq<RGBColor>>,
                        PngError,
                    >(e),
                },
            },
        },
        result matches Ok(image) ==> {
            &&& image@.len() == final(metadata)@.height
            &&& forall|y: int|
                0 <= y < image@.len() ==> (#[trigger] image@[y])@.len() == final(metadata)@.width
        },
{
    let zlib_stream: Vec<u8> = match read_chunks(buffer.as_slice(), metadata) {
        Ok(zlib_stream) => zlib_stream,
        Err(e) => {
            return Err(e);
        },
    };
    let image_data: Vec<u8> = match inflate(zlib_stream.as_slice()) {
        Ok(image_data) => image_data,
        Err(e) => {
            return Err(PngError::InflateFailure(e));
        },
    };
    crate::parse_image::parse(image_data, metadata)
}

} // verus!
