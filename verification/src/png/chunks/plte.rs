//! The palette.

use crate::common::RGBColor;
use vstd::prelude::*;

verus! {

/// The colours that a palette of these bytes holds: one for every three
/// bytes, in order.
pub open spec fn spec_palette(bytes: Seq<u8>) -> Seq<RGBColor> {
    Seq::new(bytes.len() / 3, |i: int| (bytes[3 * i], bytes[3 * i + 1], bytes[3 * i + 2]))
}

/// An ordered table of colours.
pub struct PLTEChunk {
    pub length: usize,
    pub colors: Vec<RGBColor>,
}

impl PLTEChunk {
    /// Reads the palette that the first `size` bytes hold. A palette has at
    /// most 256 entries of three bytes each.
    pub fn parse(bytes: &[u8], size: usize) -> (plte: PLTEChunk)
        requires
            size <= bytes@.len(),
            size % 3 == 0,
            size / 3 <= 256,
        ensures
            plte.length == size / 3,
            plte.colors@ == spec_palette(bytes@.take(size as int)),
    {
        let length: usize = size / 3;
        let mut colors: Vec<RGBColor> = Vec::new();
        let mut i: usize = 0;
        while i < length
            invariant
                i <= length,
                length == size / 3,
                size <= bytes@.len(),
                colors@.len() == i,
                forall|k: int|
                    0 <= k < i ==> colors@[k] == (
                        bytes@[3 * k],
                        bytes@[3 * k + 1],
                        bytes@[3 * k + 2],
                    ),
            decreases length - i,
        {
            colors.push((bytes[i * 3], bytes[i * 3 + 1], bytes[i * 3 + 2]));
            i += 1;
        }
        PLTEChunk { length, colors }
    }
}

} // verus!
