//! Integer division and powers of two for fixed-point arithmetic.

use vstd::prelude::*;
use vstd::arithmetic::div_mod::{lemma_fundamental_div_mod, lemma_fundamental_div_mod_converse};

verus! {

/// Division that rounds toward zero, for a positive divisor.
pub open spec fn trunc_quot(a: int, b: int) -> int {
    if a >= 0 {
        a / b
    } else {
        -((-a) / b)
    }
}

/// Two to the power `shift`.
pub open spec fn scale(shift: int) -> int
    decreases shift,
{
    if shift <= 0 {
        1
    } else {
        2 * scale(shift - 1)
    }
}

/// Computes two to the power `shift`.
pub fn scale_of(shift: u32) -> (r: i128)
    requires
        shift <= 12,
    ensures
        r == scale(shift as int),
        1 <= r <= 4096,
{
    let mut r: i128 = 1;
    let mut s: u32 = 0;
    while s < shift
        invariant
            s <= shift <= 12,
            r == scale(s as int),
            1 <= r,
            r <= 4096,
            s < 12 ==> r <= 2048,
            s < 11 ==> r <= 1024,
            s < 10 ==> r <= 512,
            s < 9 ==> r <= 256,
            s < 8 ==> r <= 128,
            s < 7 ==> r <= 64,
            s < 6 ==> r <= 32,
            s < 5 ==> r <= 16,
            s < 4 ==> r <= 8,
            s < 3 ==> r <= 4,
            s < 2 ==> r <= 2,
            s < 1 ==> r <= 1,
        decreases shift - s,
    {
        r = r * 2;
        s += 1;
    }
    r
}

/// Division that rounds down.
pub fn floor_div(a: i128, b: i128) -> (r: i128)
    requires
        b > 0,
        -0x4000_0000_0000_0000_0000_0000_0000_0000 < a < 0x4000_0000_0000_0000_0000_0000_0000_0000,
    ensures
        r == a / b,
{
    if a >= 0 {
        let q: u128 = (a as u128) / (b as u128);
        q as i128
    } else {
        let n: u128 = (-a) as u128;
        let d: u128 = b as u128;
        let q: u128 = n / d;
        let m: u128 = n % d;
        proof {
            lemma_fundamental_div_mod(n as int, d as int);
            assert(q as int <= n as int) by (nonlinear_arith)
                requires
                    n as int == d as int * (q as int) + m as int,
                    d as int >= 1,
                    q as int >= 0,
                    m as int >= 0,
            ;
        }
        if m == 0 {
            let r: i128 = -(q as i128);
            proof {
                assert(a as int == (r as int) * (b as int) + 0) by (nonlinear_arith)
                    requires
                        -(a as int) == (b as int) * (-(r as int)) + 0,
                ;
                lemma_fundamental_div_mod_converse(a as int, b as int, r as int, 0);
            }
            r
        } else {
            let r: i128 = -(q as i128) - 1;
            proof {
                let rem: int = b as int - m as int;
                assert(a as int == (r as int) * (b as int) + rem) by (nonlinear_arith)
                    requires
                        -(a as int) == (b as int) * (-(r as int) - 1) + (b as int - rem),
                ;
                lemma_fundamental_div_mod_converse(a as int, b as int, r as int, rem);
            }
            r
        }
    }
}

/// Division that rounds toward zero.
pub fn trunc_div(a: i128, b: i128) -> (r: i128)
    requires
        b > 0,
        -0x4000_0000_0000_0000_0000_0000_0000_0000 < a < 0x4000_0000_0000_0000_0000_0000_0000_0000,
    ensures
        r == trunc_quot(a as int, b as int),
{
    if a >= 0 {
        let q: u128 = (a as u128) / (b as u128);
        q as i128
    } else {
        let n: u128 = (-a) as u128;
        let d: u128 = b as u128;
        let q: u128 = n / d;
        proof {
            lemma_fundamental_div_mod(n as int, d as int);
            assert(q as int <= n as int) by (nonlinear_arith)
                requires
                    n as int == d as int * (q as int) + (n as int % d as int),
                    d as int >= 1,
                    q as int >= 0,
                    (n as int % d as int) >= 0,
            ;
        }
        -(q as i128)
    }
}

} // verus!
