//! Scanline filters: how a stored scanline is turned back into sample bytes.
//!
//! Each byte is stored as the difference, modulo 256, between the sample byte
//! and a prediction made from bytes that come before it: the byte one pixel
//! to the left, the byte above, and the byte above that one. The bytes that
//! predict are always reconstructed ones.

use crate::error::PngError;
use vstd::prelude::*;

verus! {

/// The distance between two numbers.
pub open spec fn spec_distance(x: int, y: int) -> int {
    if x >= y {
        x - y
    } else {
        y - x
    }
}

/// The Paeth predictor: of `a` (left), `b` (above) and `c` (above left) the
/// one nearest to `a + b - c`; of several that are equally near, the first in
/// the order `a`, `b`, `c`.
pub open spec fn spec_paeth(a: u8, b: u8, c: u8) -> u8 {
    let p = a + b - c;
    let pa = spec_distance(p, a as int);
    let pb = spec_distance(p, b as int);
    let pc = spec_distance(p, c as int);
    if pa <= pb && pa <= pc {
        a
    } else if pb <= pc {
        b
    } else {
        c
    }
}

/// Computes the Paeth predictor of the bytes to the left, above, and above
/// left.
pub fn paeth_predictor(a: u8, b: u8, c: u8) -> (nearest: u8)
    ensures
        nearest == spec_paeth(a, b, c),
        nearest == a || nearest == b || nearest == c,
{
    let p: i32 = a as i32 + b as i32 - c as i32;
    let pa: i32 = if p >= a as i32 {
        p - a as i32
    } else {
        a as i32 - p
    };
    let pb: i32 = if p >= b as i32 {
        p - b as i32
    } else {
        b as i32 - p
    };
    let pc: i32 = if p >= c as i32 {
        p - c as i32
    } else {
        c as i32 - p
    };
    // The nearest of a, b, c; ties go to a, then to b.
    if pa <= pb && pa <= pc {
        a
    } else if pb <= pc {
        b
    } else {
        c
    }
}

/// The Paeth predictor returns one of its three arguments, one that is at
/// least as near to `a + b - c` as the other two; where several are equally
/// near it returns `a` before `b`, and `b` before `c`.
pub proof fn lemma_paeth_picks_nearest(a: u8, b: u8, c: u8)
    ensures
        ({
            let p = a + b - c;
            let r = spec_paeth(a, b, c);
            let pa = spec_distance(p, a as int);
            let pb = spec_distance(p, b as int);
            let pc = spec_distance(p, c as int);
            &&& r == a || r == b || r == c
            &&& spec_distance(p, r as int) <= pa
            &&& spec_distance(p, r as int) <= pb
            &&& spec_distance(p, r as int) <= pc
            &&& pa <= pb && pa <= pc ==> r == a
            &&& !(pa <= pb && pa <= pc) && pb <= pc ==> r == b
            &&& !(pa <= pb && pa <= pc) && !(pb <= pc) ==> r == c
        }),
{
}

/// What filter `filter` predicts for a byte from its three neighbours.
/// Filter 0, and any number that is no filter, predicts nothing.
pub open spec fn spec_predict(filter: u8, left: u8, up: u8, upleft: u8) -> u8 {
    if filter == 1 {
        left
    } else if filter == 2 {
        up
    } else if filter == 3 {
        ((up + left) / 2) as u8
    } else if filter == 4 {
        spec_paeth(left, up, upleft)
    } else {
        0
    }
}

/// Computes [`spec_predict`].
pub fn predict(filter: u8, left: u8, up: u8, upleft: u8) -> (prediction: u8)
    ensures
        prediction == spec_predict(filter, left, up, upleft),
{
    match filter {
        1 => left,
        2 => up,
        3 => ((up as u16 + left as u16) / 2) as u8,
        4 => paeth_predictor(left, up, upleft),
        _ => 0,
    }
}

/// The distance in bytes to the left neighbour: the pixel size, at least 1.
pub open spec fn spec_step(pixel_size: nat) -> nat {
    if pixel_size == 0 {
        1
    } else {
        pixel_size
    }
}

/// The byte at `x` of a row, or 0 where the row has no such byte: left of
/// the first pixel, and anywhere in the row above the first one.
pub open spec fn spec_byte_or_zero(row: Seq<u8>, x: int) -> u8 {
    if 0 <= x < row.len() {
        row[x]
    } else {
        0
    }
}

/// The reconstructed byte at `x` of a scanline. `line` holds the scanline as
/// stored, without its filter byte; `prev` the reconstructed scanline above
/// it, empty for the first one.
pub open spec fn spec_recon_byte(
    filter: u8,
    line: Seq<u8>,
    prev: Seq<u8>,
    pixel_size: nat,
    x: int,
) -> u8
    decreases x,
{
    if 0 <= x < line.len() {
        let step = spec_step(pixel_size);
        let left = if x >= step {
            spec_recon_byte(filter, line, prev, pixel_size, x - step)
        } else {
            0
        };
        let up = spec_byte_or_zero(prev, x);
        let upleft = spec_byte_or_zero(prev, x - step);
        line[x].wrapping_add(spec_predict(filter, left, up, upleft))
    } else {
        0
    }
}

/// The reconstructed scanline.
pub open spec fn spec_reconstruct(filter: u8, line: Seq<u8>, prev: Seq<u8>, pixel_size: nat) -> Seq<
    u8,
> {
    Seq::new(line.len(), |x: int| spec_recon_byte(filter, line, prev, pixel_size, x))
}

/// The scanline as an encoder stores it: each sample byte less what the
/// filter predicts from the sample bytes before it.
pub open spec fn spec_apply_filter(filter: u8, raw: Seq<u8>, prev: Seq<u8>, pixel_size: nat) -> Seq<
    u8,
> {
    Seq::new(
        raw.len(),
        |x: int|
            raw[x].wrapping_sub(
                spec_predict(
                    filter,
                    spec_byte_or_zero(raw, x - spec_step(pixel_size)),
                    spec_byte_or_zero(prev, x),
                    spec_byte_or_zero(prev, x - spec_step(pixel_size)),
                ),
            ),
    )
}

/// Reverses the filter of one scanline.
///
/// `line` is the scanline without its filter byte, `prev` the reconstructed
/// scanline above it (empty for the first one), `pixel_size` the number of
/// bytes of a complete pixel. A filter type above 4 is an error.
pub fn reconstruct_row(filter: u8, line: &[u8], prev: &[u8], pixel_size: usize) -> (result: Result<
    Vec<u8>,
    PngError,
>)
    ensures
        filter > 4 ==> result == Err::<Vec<u8>, PngError>(PngError::UnknownFilter),
        filter <= 4 ==> (result matches Ok(row) && row@ == spec_reconstruct(
            filter,
            line@,
            prev@,
            pixel_size as nat,
        )),
{
    if filter > 4 {
        return Err(PngError::UnknownFilter);
    }
    let step: usize = if pixel_size == 0 {
        1
    } else {
        pixel_size
    };
    let mut row: Vec<u8> = Vec::new();
    let mut x: usize = 0;
    while x < line.len()
        invariant
            x <= line@.len(),
            step == spec_step(pixel_size as nat),
            row@.len() == x,
            forall|k: int|
                0 <= k < x ==> row@[k] == spec_recon_byte(
                    filter,
                    line@,
                    prev@,
                    pixel_size as nat,
                    k,
                ),
        decreases line@.len() - x,
    {
        let left: u8 = if x >= step {
            row[x - step]
        } else {
            0
        };
        let up: u8 = if x < prev.len() {
            prev[x]
        } else {
            0
        };
        let upleft: u8 = if x >= step && x - step < prev.len() {
            prev[x - step]
        } else {
            0
        };
        row.push(line[x].wrapping_add(predict(filter, left, up, upleft)));
        x += 1;
    }
    Ok(row)
}

/// Reconstruction is exact: the reconstructed scanline, filtered again with
/// the same filter type against the same scanline above, is the stored one.
pub proof fn lemma_filter_round_trip(filter: u8, line: Seq<u8>, prev: Seq<u8>, pixel_size: nat)
    ensures
        spec_apply_filter(filter, spec_reconstruct(filter, line, prev, pixel_size), prev, pixel_size)
            == line,
{
    // Byte by byte: what was added in the reconstruction is taken away again.
    let raw = spec_reconstruct(filter, line, prev, pixel_size);
    assert(spec_apply_filter(filter, raw, prev, pixel_size) =~= line);
}

/// Filter type 2 (Up) on the first scanline predicts 0 everywhere: the
/// reconstructed scanline is the stored one.
pub proof fn lemma_up_leaves_first_row(line: Seq<u8>, pixel_size: nat)
    ensures
        spec_reconstruct(2, line, Seq::<u8>::empty(), pixel_size) == line,
{
    assert(spec_reconstruct(2, line, Seq::<u8>::empty(), pixel_size) =~= line);
}

} // verus!
