//! The chunk types that the decoder knows, each as the number that its four
//! letters spell, first letter in the most significant byte.

use vstd::prelude::*;

verus! {

pub const IHDR: u32 = 0x4948_4452;

pub const PLTE: u32 = 0x504C_5445;

pub const IDAT: u32 = 0x4944_4154;

pub const IEND: u32 = 0x4945_4E44;

/// tRNS
pub const TRNS: u32 = 0x7452_4E53;

/// tIME
pub const TIME: u32 = 0x7449_4D45;

/// tEXt
pub const TEXT: u32 = 0x7445_5874;

/// zTXt
pub const ZTXT: u32 = 0x7A54_5874;

/// bKGD
pub const BKGD: u32 = 0x624B_4744;

/// A chunk is critical, one that a decoder must understand, when the first
/// letter of its type is upper case: bit 5 of that letter is clear.
pub open spec fn spec_is_critical(kind: u32) -> bool {
    kind & 0x2000_0000 == 0
}

/// Tells whether a chunk of this type is critical.
#[verifier::when_used_as_spec(spec_is_critical)]
pub fn is_critical(kind: u32) -> (critical: bool)
    ensures
        critical == spec_is_critical(kind),
{
    kind & 0x2000_0000 == 0
}

} // verus!
