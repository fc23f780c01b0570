//! Fixed-point conventions and rounding helpers.
//!
//! Preference weights are stored in thousandths (`1000` stands for `1.0`),
//! scores are carried in millionths (`1_000_000` stands for `1.0`).
use vstd::prelude::*;
use vstd::arithmetic::div_mod::{lemma_fundamental_div_mod, lemma_mod_bound};

verus! {

/// One whole unit of a preference weight (weights are kept in thousandths).
pub const WEIGHT_ONE: i64 = 1000;

/// One whole unit of a score (scores are kept in millionths).
pub const SCORE_ONE: i64 = 1_000_000;

/// `a / b` rounded to the nearest integer, halves away from zero.
pub open spec fn round_div(a: int, b: int) -> int
    recommends
        b > 0,
{
    if a >= 0 {
        (2 * a + b) / (2 * b)
    } else {
        -((-2 * a + b) / (2 * b))
    }
}

/// `x` limited to the closed range `[lo, hi]`.
pub open spec fn clamp(x: int, lo: int, hi: int) -> int {
    if x < lo {
        lo
    } else if x > hi {
        hi
    } else {
        x
    }
}

/// Executable `round_div` on 128-bit values.
pub fn round_div_i128(a: i128, b: i128) -> (r: i128)
    requires
        b > 0,
        -0x1000_0000_0000_0000_0000_0000_0000 <= a <= 0x1000_0000_0000_0000_0000_0000_0000,
        b <= 0x1000_0000_0000_0000_0000_0000_0000,
    ensures
        r == round_div(a as int, b as int),
{
    if a >= 0 {
        (2 * a + b) / (2 * b)
    } else {
        let m: i128 = 0 - a;
        let q: i128 = (2 * m + b) / (2 * b);
        0 - q
    }
}

/// `x / d` (Euclidean) lies in `[lo, hi]` when `x` lies in `[lo * d, hi * d + d - 1]`.
pub proof fn lemma_div_between(x: int, d: int, lo: int, hi: int)
    requires
        d > 0,
        lo * d <= x,
        x < hi * d + d,
    ensures
        lo <= x / d <= hi,
{
    lemma_fundamental_div_mod(x, d);
    lemma_mod_bound(x, d);
    let q = x / d;
    let r = x % d;
    assert(lo <= q) by (nonlinear_arith)
        requires
            x == d * q + r,
            r < d,
            lo * d <= x,
            d > 0,
    ;
    assert(q <= hi) by (nonlinear_arith)
        requires
            x == d * q + r,
            0 <= r,
            x < hi * d + d,
            d > 0,
    ;
}

/// Rounding a quotient keeps it within `[-k, k]` when `a` lies within
/// `[-k * b, k * b]`.
pub proof fn lemma_round_div_bounded(a: int, b: int, k: int)
    requires
        b > 0,
        k >= 0,
        -k * b <= a <= k * b,
    ensures
        -k <= round_div(a, b) <= k,
{
    assert(k * (2 * b) == 2 * (k * b)) by (nonlinear_arith);
    assert(0 * (2 * b) == 0);
    assert(-k * b == -(k * b)) by (nonlinear_arith);
    if a >= 0 {
        lemma_div_between(2 * a + b, 2 * b, 0, k);
    } else {
        lemma_div_between(-2 * a + b, 2 * b, 0, k);
    }
}

} // verus!
