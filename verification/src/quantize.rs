//! Shift, quantization with feedback, and packing.
//!
//! The reconstruction history is kept in fixed point with 32 binary places.
//! A predicted value adds a residual, in 64ths, to a weighted sum of the
//! history, whose weights are 64ths too, so it is exact in units of 2^-38.
//! The one rounding is that of the history which a sample leaves: it is
//! brought back to 32 places, to the nearest unit.

use vstd::prelude::*;
use vstd::arithmetic::div_mod::lemma_fundamental_div_mod;
use crate::fixed::{floor_div, scale, scale_of, trunc_div, trunc_quot};
use crate::predictor::{in_range, residual, residual_of, weigh, weighted};

verus! {

/// The history's largest magnitude, in its units of 2^-32; a value beyond
/// it is cut back to it.
pub const HIST_LIMIT: i64 = 0x4000_0000_0000_0000;

/// Whether the mask of shift `s` meets a set bit of the probe for `min_int`.
pub open spec fn mask_hits(min_int: u32, s: u32) -> bool {
    (0x4000u32 >> s) & ((min_int + ((0x4000u32 >> s) >> 3)) as u32) != 0
}

/// The first shift from `s` on whose mask hits, or 12 where none does.
pub open spec fn shift_from(min_int: u32, s: u32) -> u32
    decreases 12 - s,
{
    if s >= 12 {
        12
    } else if mask_hits(min_int, s) {
        s
    } else {
        shift_from(min_int, (s + 1) as u32)
    }
}

/// The shift of a block whose lowest peak, cut to an integer, is `min_int`.
pub open spec fn shift_for(min_int: u32) -> u32 {
    shift_from(min_int, 0)
}

/// Derives the shift of a block from its lowest peak, cut to an integer.
pub fn derive_shift(min_int: u32) -> (shift: u32)
    requires
        min_int <= 0x7FFF_F7FF,
    ensures
        shift == shift_for(min_int),
        shift <= 12,
{
    let mut s: u32 = 0;
    while s < 12
        invariant
            s <= 12,
            min_int <= 0x7FFF_F7FF,
            shift_for(min_int) == shift_from(min_int, s),
        decreases 12 - s,
    {
        let mask: u32 = 0x4000u32 >> s;
        assert((0x4000u32 >> s) <= 0x4000) by (bit_vector);
        assert(((0x4000u32 >> s) >> 3) <= 0x800) by (bit_vector);
        let probe: u32 = min_int + (mask >> 3);
        if mask & probe != 0 {
            return s;
        }
        s += 1;
    }
    s
}

/// A value cut back to the range of a 16-bit sample.
pub open spec fn clamp16(v: int) -> int {
    if v < -32768 {
        -32768
    } else if v > 32767 {
        32767
    } else {
        v
    }
}

/// A history value cut back to the range in which it is kept.
pub open spec fn saturate(h: int) -> int {
    if h < -0x4000_0000_0000_0000 {
        -0x4000_0000_0000_0000
    } else if h > 0x4000_0000_0000_0000 {
        0x4000_0000_0000_0000
    } else {
        h
    }
}

/// The predicted value, in units of 2^-38: the residual `d`, in 64ths, plus
/// what predictor `p` adds for the history `h1`, `h2`.
pub open spec fn predicted(d: int, p: int, h1: int, h2: int) -> int {
    d * 0x1_0000_0000 + weighted(p, h1, h2)
}

/// The reconstructed sample for a predicted value: scaled by the shift, cut
/// to an integer, half a step added, rounded down to a multiple of 4096 and
/// cut to 16 bits.
pub open spec fn quantized(pred: int, shift: int) -> int {
    let t = trunc_quot(pred * scale(shift), 0x40_0000_0000);
    clamp16(((t + 0x800) / 0x1000) * 0x1000)
}

/// The history left by a predicted value: the reconstructed sample taken
/// back through the shift, less the predicted value, rounded to the nearest
/// unit of the history.
pub open spec fn feedback(pred: int, shift: int) -> int {
    let back = quantized(pred, shift) / scale(shift);
    saturate((back * 0x40_0000_0000 - pred + 32) / 64)
}

/// Quantizes one sample: from its residual `d`, in 64ths, and the history
/// it yields the reconstructed sample and the history's next first value.
pub fn quantize_step(d: i64, p: usize, shift: u32, h1: i64, h2: i64) -> (r: (i16, i64))
    requires
        -7_557_120 <= d <= 7_557_120,
        p < 5,
        shift <= 12,
        -0x4000_0000_0000_0000 <= h1 <= 0x4000_0000_0000_0000,
        -0x4000_0000_0000_0000 <= h2 <= 0x4000_0000_0000_0000,
    ensures
        r.0 == quantized(predicted(d as int, p as int, h1 as int, h2 as int), shift as int),
        r.1 == feedback(predicted(d as int, p as int, h1 as int, h2 as int), shift as int),
        -0x4000_0000_0000_0000 <= r.1 <= 0x4000_0000_0000_0000,
{
    let w: i128 = weigh(p, h1 as i128, h2 as i128);
    let pred: i128 = (d as i128) * 0x1_0000_0000 + w;
    let sc: i128 = scale_of(shift);
    assert(-0x1000_0000_0000_0000_0000 <= pred <= 0x1000_0000_0000_0000_0000);
    assert(-0x1000_0000_0000_0000_0000_000 <= pred * sc <= 0x1000_0000_0000_0000_0000_000)
        by (nonlinear_arith)
        requires
            -0x1000_0000_0000_0000_0000 <= pred <= 0x1000_0000_0000_0000_0000,
            1 <= sc <= 4096,
    ;
    let t: i128 = trunc_div(pred * sc, 0x40_0000_0000);
    let step: i128 = floor_div(t + 0x800, 0x1000) * 0x1000;
    let q: i128 = if step < -32768 {
        -32768
    } else if step > 32767 {
        32767
    } else {
        step
    };
    let back: i128 = floor_div(q, sc);
    proof {
        lemma_fundamental_div_mod(q as int, sc as int);
        assert(-32768 <= back <= 32767) by (nonlinear_arith)
            requires
                q as int == sc as int * (back as int) + (q as int % sc as int),
                0 <= (q as int % sc as int) < sc as int,
                1 <= sc as int,
                -32768 <= q <= 32767,
        ;
    }
    let h: i128 = floor_div(back * 0x40_0000_0000 - pred + 32, 64);
    let kept: i64 = if h < -(HIST_LIMIT as i128) {
        -HIST_LIMIT
    } else if h > HIST_LIMIT as i128 {
        HIST_LIMIT
    } else {
        h as i64
    };
    (q as i16, kept)
}

/// The reconstruction history before sample `n` of a block: the pair that
/// the block started with, carried through the `n` samples before.
pub open spec fn history(
    c: Seq<i32>,
    f1: int,
    f2: int,
    p: int,
    shift: int,
    h1: int,
    h2: int,
    n: nat,
) -> (int, int)
    decreases n,
{
    if n == 0 {
        (h1, h2)
    } else {
        let before = history(c, f1, f2, p, shift, h1, h2, (n - 1) as nat);
        let pred = predicted(residual(c, f1, f2, p, n - 1), p, before.0, before.1);
        (feedback(pred, shift), before.0)
    }
}

/// The reconstructed sample `k` of a block.
pub open spec fn reconstructed(
    c: Seq<i32>,
    f1: int,
    f2: int,
    p: int,
    shift: int,
    h1: int,
    h2: int,
    k: int,
) -> int {
    let before = history(c, f1, f2, p, shift, h1, h2, k as nat);
    quantized(predicted(residual(c, f1, f2, p, k), p, before.0, before.1), shift)
}

/// Quantizes a block with predictor `p` and the given shift. It yields the
/// 28 reconstructed samples and the history after the block.
pub fn quantize_block(
    c: &Vec<i32>,
    f1: i32,
    f2: i32,
    p: usize,
    shift: u32,
    h1: i64,
    h2: i64,
) -> (r: (Vec<i16>, i64, i64))
    requires
        in_range(c@),
        -30720 <= f1 <= 30719,
        -30720 <= f2 <= 30719,
        p < 5,
        shift <= 12,
        -0x4000_0000_0000_0000 <= h1 <= 0x4000_0000_0000_0000,
        -0x4000_0000_0000_0000 <= h2 <= 0x4000_0000_0000_0000,
    ensures
        r.0@.len() == 28,
        forall|k: int|
            0 <= k < 28 ==> #[trigger] r.0@[k] as int == reconstructed(
                c@,
                f1 as int,
                f2 as int,
                p as int,
                shift as int,
                h1 as int,
                h2 as int,
                k,
            ),
        (r.1 as int, r.2 as int) == history(
            c@,
            f1 as int,
            f2 as int,
            p as int,
            shift as int,
            h1 as int,
            h2 as int,
            28,
        ),
        -0x4000_0000_0000_0000 <= r.1 <= 0x4000_0000_0000_0000,
        -0x4000_0000_0000_0000 <= r.2 <= 0x4000_0000_0000_0000,
{
    let mut out: Vec<i16> = Vec::new();
    let mut a1: i64 = h1;
    let mut a2: i64 = h2;
    let mut t1: i32 = f1;
    let mut t2: i32 = f2;
    let mut k: usize = 0;
    while k < 28
        invariant
            k <= 28,
            in_range(c@),
            p < 5,
            shift <= 12,
            -30720 <= t1 <= 30719,
            -30720 <= t2 <= 30719,
            t1 == crate::predictor::tap(c@, f1 as int, f2 as int, k as int - 1),
            t2 == crate::predictor::tap(c@, f1 as int, f2 as int, k as int - 2),
            -0x4000_0000_0000_0000 <= a1 <= 0x4000_0000_0000_0000,
            -0x4000_0000_0000_0000 <= a2 <= 0x4000_0000_0000_0000,
            (a1 as int, a2 as int) == history(
                c@,
                f1 as int,
                f2 as int,
                p as int,
                shift as int,
                h1 as int,
                h2 as int,
                k as nat,
            ),
            out@.len() == k,
            forall|j: int|
                0 <= j < k ==> #[trigger] out@[j] as int == reconstructed(
                    c@,
                    f1 as int,
                    f2 as int,
                    p as int,
                    shift as int,
                    h1 as int,
                    h2 as int,
                    j,
                ),
        decreases 28 - k,
    {
        let s: i32 = c[k];
        let d: i64 = residual_of(p, s, t1, t2);
        let step: (i16, i64) = quantize_step(d, p, shift, a1, a2);
        out.push(step.0);
        a2 = a1;
        a1 = step.1;
        t2 = t1;
        t1 = s;
        k += 1;
    }
    (out, a1, a2)
}

/// The high four bits of a reconstructed sample.
pub open spec fn nibble(q: int) -> int {
    (q / 4096) % 16
}

/// The payload byte of two neighbouring samples: the later one's high bits
/// above the earlier one's.
pub open spec fn packed(lo: int, hi: int) -> int {
    nibble(hi) * 16 + nibble(lo)
}

/// Packs the high four bits of two neighbouring samples into one byte. The
/// byte's two halves give both back.
pub fn pack_pair(lo: i16, hi: i16) -> (r: u8)
    ensures
        r == packed(lo as int, hi as int),
        r % 16 == nibble(lo as int),
        r / 16 == nibble(hi as int),
{
    let a: u32 = ((lo as i32 + 32768) as u32) / 4096;
    let b: u32 = ((hi as i32 + 32768) as u32) / 4096;
    let low: u32 = (a + 8) % 16;
    let high: u32 = (b + 8) % 16;
    (high * 16 + low) as u8
}

/// The payload of a block: byte `k` packs samples `2k` and `2k + 1`.
pub open spec fn payload_of(q: Seq<i16>) -> Seq<u8> {
    Seq::new(14, |k: int| packed(q[2 * k] as int, q[2 * k + 1] as int) as u8)
}

/// Packs the 28 reconstructed samples of a block into its 14 payload bytes.
pub fn pack(q: &Vec<i16>) -> (r: [u8; 14])
    requires
        q@.len() == 28,
    ensures
        r@ == payload_of(q@),
{
    let mut r: [u8; 14] = [0u8; 14];
    let mut k: usize = 0;
    while k < 14
        invariant
            k <= 14,
            q@.len() == 28,
            r@.len() == 14,
            forall|j: int| 0 <= j < k ==> #[trigger] r@[j] == payload_of(q@)[j],
        decreases 14 - k,
    {
        let b: u8 = pack_pair(q[2 * k], q[2 * k + 1]);
        r[k] = b;
        k += 1;
    }
    assert(r@ =~= payload_of(q@));
    r
}

} // verus!
