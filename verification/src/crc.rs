//! CRC-32 as PNG uses it: the reflected polynomial `0xEDB88320`, a register
//! that starts at all ones, and a result that is the register's complement.

use vstd::prelude::*;

verus! {

/// `Ok` when a checksum matched; otherwise the checksum that was computed.
pub type VerifyResult = Result<(), u32>;

/// Divides the register by the polynomial for one more bit of input.
pub open spec fn crc_shift(c: u32) -> u32 {
    if c & 1 > 0 {
        0xEDB88320u32 ^ (c >> 1)
    } else {
        c >> 1
    }
}

/// [`crc_shift`] applied `bits` times.
pub open spec fn crc_shifts(c: u32, bits: nat) -> u32
    decreases bits,
{
    if bits == 0 {
        c
    } else {
        crc_shift(crc_shifts(c, (bits - 1) as nat))
    }
}

/// The register after one more byte has gone in.
pub open spec fn crc_feed(c: u32, byte: u8) -> u32 {
    crc_shifts(c ^ (byte as u32), 8)
}

/// The register after all of `bytes` have gone in, in order.
pub open spec fn crc_run(c: u32, bytes: Seq<u8>) -> u32
    decreases bytes.len(),
{
    if bytes.len() == 0 {
        c
    } else {
        crc_feed(crc_run(c, bytes.drop_last()), bytes.last())
    }
}

/// The CRC-32 of a byte sequence.
pub open spec fn spec_crc(bytes: Seq<u8>) -> u32 {
    crc_run(0xFFFF_FFFFu32, bytes) ^ 0xFFFF_FFFFu32
}

/// What [`CRCHandler::verify`] answers for a stored checksum and the bytes it
/// is said to cover.
pub open spec fn spec_verify(crc: u32, bytes: Seq<u8>) -> VerifyResult {
    if spec_crc(bytes) == crc {
        Ok(())
    } else {
        Err(spec_crc(bytes))
    }
}

/// Eight shifts, written out.
spec fn crc_shift8(c: u32) -> u32 {
    crc_shift(crc_shift(crc_shift(crc_shift(crc_shift(crc_shift(crc_shift(crc_shift(c))))))))
}

proof fn lemma_shifts_unrolled(c: u32)
    ensures
        crc_shifts(c, 8) == crc_shift8(c),
{
    reveal_with_fuel(crc_shifts, 9);
}

/// The low byte of the register picks the table entry; the rest of the
/// register only moves down by eight bits.
proof fn lemma_table_step(c: u32, byte: u8)
    ensures
        (c ^ (byte as u32)) & 0xFF < 256,
        crc_feed(c, byte) == crc_shifts((c ^ (byte as u32)) & 0xFF, 8) ^ (c >> 8),
{
    let x: u32 = c ^ (byte as u32);
    let low: u32 = x & 0xFF;
    lemma_shifts_unrolled(x);
    lemma_shifts_unrolled(low);
    assert(low < 256 && crc_shift8(x) == crc_shift8(low) ^ (c >> 8)) by (bit_vector)
        requires
            x == c ^ (byte as u32),
            low == x & 0xFF,
    ;
}

/// The table that makes the computation fast: for each byte the register
/// that eight shifts make of it.
pub open spec fn spec_crc_table() -> Seq<u32> {
    Seq::new(256, |n: int| crc_shifts(n as u32, 8))
}

/// Computes and checks CRC-32 checksums with a table of the CRCs of all
/// one-byte messages.
pub struct CRCHandler {
    table: [u32; 256],
}

impl View for CRCHandler {
    type V = Seq<u32>;

    /// The table.
    closed spec fn view(&self) -> Seq<u32> {
        self.table@
    }
}

impl CRCHandler {
    #[verifier::type_invariant]
    spec fn table_is_filled(self) -> bool {
        forall|n: int| 0 <= n < 256 ==> self.table@[n] == crc_shifts(n as u32, 8)
    }

    /// Fills the table.
    pub fn new() -> (handler: CRCHandler)
        ensures
            handler@ == spec_crc_table(),
    {
        let mut crc_table: [u32; 256] = [0; 256];
        let mut n: usize = 0;
        while n < 256
            invariant
                n <= 256,
                forall|m: int| 0 <= m < n ==> crc_table@[m] == crc_shifts(m as u32, 8),
            decreases 256 - n,
        {
            let mut c: u32 = n as u32;
            let mut k: usize = 0;
            while k < 8
                invariant
                    k <= 8,
                    c == crc_shifts(n as u32, k as nat),
                decreases 8 - k,
            {
                if c & 1 > 0 {
                    c = 0xEDB88320 ^ (c >> 1);
                } else {
                    c = c >> 1;
                }
                k += 1;
            }
            crc_table[n] = c;
            n += 1;
        }
        CRCHandler { table: crc_table }
    }

    /// Runs the first `len` bytes of `buf` through the register `crc`.
    pub fn update_crc(&self, crc: u32, buf: &[u8], len: usize) -> (register: u32)
        requires
            len <= buf@.len(),
        ensures
            register == crc_run(crc, buf@.take(len as int)),
    {
        proof {
            use_type_invariant(self);
        }
        let mut c: u32 = crc;
        let mut n: usize = 0;
        while n < len
            invariant
                n <= len <= buf@.len(),
                c == crc_run(crc, buf@.take(n as int)),
                forall|m: int| 0 <= m < 256 ==> self.table@[m] == crc_shifts(m as u32, 8),
            decreases len - n,
        {
            proof {
                lemma_table_step(c, buf@[n as int]);
                assert(buf@.take(n + 1).drop_last() == buf@.take(n as int));
            }
            c = self.table[((c ^ buf[n] as u32) & 0xFF) as usize] ^ (c >> 8);
            n += 1;
        }
        c
    }

    /// The CRC-32 of `buf`.
    pub fn crc(&self, buf: &[u8]) -> (crc: u32)
        ensures
            crc == spec_crc(buf@),
    {
        assert(buf@.take(buf@.len() as int) == buf@);
        self.update_crc(0xFFFFFFFF, buf, buf.len()) ^ 0xFFFFFFFF
    }

    /// Checks `buf` against the checksum `crc` that was stored with it.
    pub fn verify(&self, crc: u32, buf: &[u8]) -> (result: VerifyResult)
        ensures
            result == spec_verify(crc, buf@),
    {
        let calc_crc: u32 = self.crc(buf);
        if calc_crc == crc {
            Ok(())
        } else {
            Err(calc_crc)
        }
    }
}

/// A checksum that was computed over a byte sequence verifies against that
/// sequence.
pub proof fn lemma_crc_round_trip(bytes: Seq<u8>)
    ensures
        spec_verify(spec_crc(bytes), bytes) == Ok::<(), u32>(()),
{
}

} // verus!
