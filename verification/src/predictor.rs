//! The predictor bank and the choice of a predictor for a block.
//!
//! The weights of the five predictors are multiples of 1/64, so residuals
//! are computed exactly as integers that count 64ths.

use vstd::prelude::*;

verus! {

/// The running minimum before any candidate was scanned, in 64ths.
pub const SCAN_START: i64 = 640_000_000_000;

/// At or below this peak, in 64ths, the scan stops.
pub const SCAN_STOP: i64 = 448;

/// A sample brought into the range that the prediction accepts.
pub open spec fn clamp_sample(s: int) -> int {
    if s < -30720 {
        -30720
    } else if s > 30719 {
        30719
    } else {
        s
    }
}

/// Brings a sample into the range that the prediction accepts.
pub fn clamp(s: i16) -> (r: i32)
    ensures
        r == clamp_sample(s as int),
        -30720 <= r <= 30719,
        -30720 <= s <= 30719 ==> r == s,
{
    if s < -30720 {
        -30720
    } else if s > 30719 {
        30719
    } else {
        s as i32
    }
}

/// Numerator over 64 of the weight that predictor `p` gives the last sample.
pub open spec fn coef1(p: int) -> int {
    if p == 1 {
        -64
    } else if p == 2 {
        -115
    } else if p == 3 {
        -98
    } else if p == 4 {
        -122
    } else {
        0
    }
}

/// Numerator over 64 of the weight that predictor `p` gives the sample before the last.
pub open spec fn coef2(p: int) -> int {
    if p == 2 {
        52
    } else if p == 3 {
        55
    } else if p == 4 {
        60
    } else {
        0
    }
}

/// The bank: the two numerators over 64 of predictor `p`.
pub fn coefficients(p: usize) -> (r: (i64, i64))
    requires
        p < 5,
    ensures
        r.0 == coef1(p as int),
        r.1 == coef2(p as int),
{
    if p == 1 {
        (-64, 0)
    } else if p == 2 {
        (-115, 52)
    } else if p == 3 {
        (-98, 55)
    } else if p == 4 {
        (-122, 60)
    } else {
        (0, 0)
    }
}

/// Sixty-four times what predictor `p` adds for the two values `t1` and `t2`.
pub open spec fn weighted(p: int, t1: int, t2: int) -> int {
    if p == 1 {
        -64 * t1
    } else if p == 2 {
        -115 * t1 + 52 * t2
    } else if p == 3 {
        -98 * t1 + 55 * t2
    } else if p == 4 {
        -122 * t1 + 60 * t2
    } else {
        0
    }
}

/// The weighted sum is the bank's two numerators applied to the two values.
pub proof fn lemma_weighted_is_linear(p: int, t1: int, t2: int)
    ensures
        weighted(p, t1, t2) == coef1(p) * t1 + coef2(p) * t2,
{
}

/// Computes the weighted sum of predictor `p`.
pub fn weigh(p: usize, t1: i128, t2: i128) -> (r: i128)
    requires
        p < 5,
        -0x4000_0000_0000_0000 <= t1 <= 0x4000_0000_0000_0000,
        -0x4000_0000_0000_0000 <= t2 <= 0x4000_0000_0000_0000,
    ensures
        r == weighted(p as int, t1 as int, t2 as int),
{
    if p == 1 {
        0 - 64 * t1
    } else if p == 2 {
        52 * t2 - 115 * t1
    } else if p == 3 {
        55 * t2 - 98 * t1
    } else if p == 4 {
        60 * t2 - 122 * t1
    } else {
        0
    }
}

/// A block of 28 samples, each within the range of the prediction.
pub open spec fn in_range(c: Seq<i32>) -> bool {
    &&& c.len() == 28
    &&& forall|i: int| 0 <= i < 28 ==> -30720 <= #[trigger] c[i] <= 30719
}

/// The sample `i` places into the block; before the block stand the last
/// sample of the block before, `f1`, and the one before it, `f2`.
pub open spec fn tap(c: Seq<i32>, f1: int, f2: int, i: int) -> int {
    if i >= 0 {
        c[i] as int
    } else if i == -1 {
        f1
    } else {
        f2
    }
}

/// The residual of predictor `p` at sample `i`, in 64ths.
pub open spec fn residual(c: Seq<i32>, f1: int, f2: int, p: int, i: int) -> int {
    64 * (c[i] as int) + weighted(p, tap(c, f1, f2, i - 1), tap(c, f1, f2, i - 2))
}

/// The largest magnitude among the first `n` residuals of predictor `p`, in 64ths.
pub open spec fn peak(c: Seq<i32>, f1: int, f2: int, p: int, n: nat) -> int
    decreases n,
{
    if n == 0 {
        0
    } else {
        let before = peak(c, f1, f2, p, (n - 1) as nat);
        let r = residual(c, f1, f2, p, n - 1);
        let a = if r < 0 {
            -r
        } else {
            r
        };
        if a > before {
            a
        } else {
            before
        }
    }
}

/// The scan over the candidates from `p` on, with the lowest peak `best` so
/// far and its predictor `best_p`. It yields the chosen predictor and the
/// lowest peak. Once the lowest peak is at most seven the scan ends and
/// predictor 0 is chosen, whichever candidate gave that peak.
pub open spec fn scan(c: Seq<i32>, f1: int, f2: int, p: int, best: int, best_p: int) -> (int, int)
    decreases 5 - p,
{
    if p >= 5 {
        (best_p, best)
    } else {
        let m = peak(c, f1, f2, p, 28);
        let low = if m < best {
            m
        } else {
            best
        };
        let low_p = if m < best {
            p
        } else {
            best_p
        };
        if low <= 448 {
            (0, low)
        } else {
            scan(c, f1, f2, p + 1, low, low_p)
        }
    }
}

/// The predictor chosen for a block, and the lowest peak, in 64ths.
pub open spec fn selection(c: Seq<i32>, f1: int, f2: int) -> (int, int) {
    scan(c, f1, f2, 0, 640_000_000_000, 0)
}

/// Computes one residual, in 64ths, from a sample and the two before it.
pub fn residual_of(p: usize, s: i32, t1: i32, t2: i32) -> (r: i64)
    requires
        p < 5,
        -30720 <= s <= 30719,
        -30720 <= t1 <= 30719,
        -30720 <= t2 <= 30719,
    ensures
        r == 64 * (s as int) + weighted(p as int, t1 as int, t2 as int),
        -7_557_120 <= r <= 7_557_120,
{
    let w: i128 = weigh(p, t1 as i128, t2 as i128);
    (64 * (s as i128) + w) as i64
}

/// Computes the peak residual of predictor `p` over a block.
pub fn peak_residual(c: &Vec<i32>, f1: i32, f2: i32, p: usize) -> (m: i64)
    requires
        in_range(c@),
        -30720 <= f1 <= 30719,
        -30720 <= f2 <= 30719,
        p < 5,
    ensures
        m == peak(c@, f1 as int, f2 as int, p as int, 28),
        0 <= m <= 7_557_120,
{
    let mut m: i64 = 0;
    let mut t1: i32 = f1;
    let mut t2: i32 = f2;
    let mut k: usize = 0;
    while k < 28
        invariant
            k <= 28,
            in_range(c@),
            p < 5,
            -30720 <= f1 <= 30719,
            -30720 <= f2 <= 30719,
            t1 == tap(c@, f1 as int, f2 as int, k as int - 1),
            t2 == tap(c@, f1 as int, f2 as int, k as int - 2),
            -30720 <= t1 <= 30719,
            -30720 <= t2 <= 30719,
            m == peak(c@, f1 as int, f2 as int, p as int, k as nat),
            0 <= m <= 7_557_120,
        decreases 28 - k,
    {
        let s: i32 = c[k];
        let r: i64 = residual_of(p, s, t1, t2);
        let a: i64 = if r < 0 {
            -r
        } else {
            r
        };
        if a > m {
            m = a;
        }
        t2 = t1;
        t1 = s;
        k += 1;
    }
    m
}

/// Chooses the predictor of a block and finds the lowest peak, in 64ths.
pub fn select_predictor(c: &Vec<i32>, f1: i32, f2: i32) -> (r: (usize, i64))
    requires
        in_range(c@),
        -30720 <= f1 <= 30719,
        -30720 <= f2 <= 30719,
    ensures
        (r.0 as int, r.1 as int) == selection(c@, f1 as int, f2 as int),
        r.0 < 5,
        0 <= r.1 <= 7_557_120,
{
    let mut best: i64 = SCAN_START;
    let mut best_p: usize = 0;
    let mut p: usize = 0;
    while p < 5
        invariant
            p <= 5,
            in_range(c@),
            -30720 <= f1 <= 30719,
            -30720 <= f2 <= 30719,
            best_p < 5,
            p == 0 ==> best == 640_000_000_000,
            p > 0 ==> 0 <= best <= 7_557_120,
            selection(c@, f1 as int, f2 as int) == scan(
                c@,
                f1 as int,
                f2 as int,
                p as int,
                best as int,
                best_p as int,
            ),
        decreases 5 - p,
    {
        let m: i64 = peak_residual(c, f1, f2, p);
        if m < best {
            best = m;
            best_p = p;
        }
        if best <= SCAN_STOP {
            return (0, best);
        }
        p += 1;
    }
    (best_p, best)
}

} // verus!
