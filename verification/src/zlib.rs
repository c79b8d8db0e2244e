//! Decompression of ZLIB streams, which is left to the `libflate` crate.

use std::io::Read;
use vstd::prelude::*;

verus! {

/// What `libflate`'s ZLIB decoder makes of a stream: the decompressed bytes,
/// or `None` where it reports an error.
pub uninterp spec fn zlib_inflated(stream: Seq<u8>) -> Option<Seq<u8>>;

/// Decompresses a ZLIB stream: `libflate::zlib::Decoder::new` reads the
/// header, and `read_to_end` on the decoder reads all that the stream holds
/// and compares the checksum. Nothing here is verified; it is taken on trust
/// that the outcome depends on the bytes of the stream alone, so that it can
/// be given the name [`zlib_inflated`].
#[verifier::external_body]
pub(crate) fn inflate(stream: &[u8]) -> (result: Result<Vec<u8>, std::io::Error>)
    ensures
        match result {
            Ok(data) => zlib_inflated(stream@) == Some(data@),
            Err(_) => zlib_inflated(stream@) is None,
        },
{
    let mut decoder = libflate::zlib::Decoder::new(stream)?;
    let mut data = Vec::new();
    decoder.read_to_end(&mut data)?;
    Ok(data)
}

} // verus!
