//! 16.16 fixed-point scalars.
//!
//! All geometry in the crate (glyph positions, advances, quad corners,
//! texture coordinates) is measured in these units: the integer `FX_ONE`
//! stands for 1.0.  Rounding is always toward zero, captured by [`tdiv`].

use vstd::prelude::*;

verus! {

/// One unit in 16.16 fixed point.
pub const FX_ONE: i64 = 65536;

/// Magnitude bound within which fixed-point products cannot overflow `i64`.
pub const FX_BOUND: i64 = 0x8000_0000;

/// Truncated (round-toward-zero) integer division; the rounding used by
/// every fixed-point operation in this crate.
pub open spec fn tdiv(a: int, b: int) -> int {
    if a >= 0 {
        a / b
    } else {
        -((-a) / b)
    }
}

/// Fixed-point product: `(a * b) / FX_ONE`, rounded toward zero.
pub fn fx_mul(a: i64, b: i64) -> (r: i64)
    requires
        -FX_BOUND <= a <= FX_BOUND,
        -FX_BOUND <= b <= FX_BOUND,
    ensures
        r == tdiv(a * b, FX_ONE as int),
{
    assert(-0x4000_0000_0000_0000 <= a * b <= 0x4000_0000_0000_0000) by (nonlinear_arith)
        requires
            -FX_BOUND <= a <= FX_BOUND,
            -FX_BOUND <= b <= FX_BOUND,
    ;
    let p: i64 = a * b;
    if p >= 0 {
        p / FX_ONE
    } else {
        -((-p) / FX_ONE)
    }
}

/// Fixed-point quotient: `(a * FX_ONE) / b`, rounded toward zero.
pub fn fx_div(a: i64, b: i64) -> (r: i64)
    requires
        -FX_BOUND <= a <= FX_BOUND,
        0 < b,
    ensures
        r == tdiv(a * FX_ONE, b as int),
{
    assert(-0x4000_0000_0000_0000 <= a * FX_ONE <= 0x4000_0000_0000_0000) by (nonlinear_arith)
        requires
            -FX_BOUND <= a <= FX_BOUND,
    ;
    let p: i64 = a * FX_ONE;
    if p >= 0 {
        p / b
    } else {
        -((-p) / b)
    }
}

/// Truncated division of a nonnegative number by a positive one stays
/// within the numerator.
pub proof fn lemma_tdiv_nonneg(a: int, b: int)
    requires
        0 <= a,
        0 < b,
    ensures
        0 <= tdiv(a, b) <= a,
{
    assert(0 <= a / b <= a) by (nonlinear_arith)
        requires
            0 <= a,
            0 < b,
    ;
}

/// Fixed-point multiply then divide: `(a * b) / d`, rounded toward zero,
/// carrying full intermediate precision.
pub fn fx_mul_div(a: i64, b: i64, d: i64) -> (r: i64)
    requires
        -FX_BOUND <= a <= FX_BOUND,
        -FX_BOUND <= b <= FX_BOUND,
        0 < d,
    ensures
        r == tdiv(a * b, d as int),
{
    assert(-0x4000_0000_0000_0000 <= a * b <= 0x4000_0000_0000_0000) by (nonlinear_arith)
        requires
            -FX_BOUND <= a <= FX_BOUND,
            -FX_BOUND <= b <= FX_BOUND,
    ;
    let p: i64 = a * b;
    if p >= 0 {
        p / d
    } else {
        -((-p) / d)
    }
}

/// Truncated division as an executable operation.
pub fn tdiv_exec(a: i64, d: i64) -> (r: i64)
    requires
        a > i64::MIN,
        0 < d,
    ensures
        r == tdiv(a as int, d as int),
{
    if a >= 0 {
        a / d
    } else {
        -((-a) / d)
    }
}

/// Truncated division keeps magnitudes: a quotient never exceeds the
/// numerator's bound.
pub proof fn lemma_tdiv_bounds(a: int, b: int, m: int)
    requires
        -m <= a <= m,
        0 < b,
        0 <= m,
    ensures
        -m <= tdiv(a, b) <= m,
{
    if a >= 0 {
        lemma_tdiv_nonneg(a, b);
    } else {
        lemma_tdiv_nonneg(-a, b);
    }
}

/// A quotient stays within `m` when the numerator stays within `m * b`.
pub proof fn lemma_tdiv_quotient_bound(a: int, b: int, m: int)
    requires
        0 < b,
        0 <= m,
        -(m * b) <= a <= m * b,
    ensures
        -m <= tdiv(a, b) <= m,
{
    if a >= 0 {
        vstd::arithmetic::div_mod::lemma_div_is_ordered(a, m * b, b);
        vstd::arithmetic::div_mod::lemma_div_multiples_vanish(m, b);
        assert(m * b == b * m) by (nonlinear_arith);
        lemma_tdiv_nonneg(a, b);
    } else {
        vstd::arithmetic::div_mod::lemma_div_is_ordered(-a, m * b, b);
        vstd::arithmetic::div_mod::lemma_div_multiples_vanish(m, b);
        assert(m * b == b * m) by (nonlinear_arith);
        lemma_tdiv_nonneg(-a, b);
    }
}

} // verus!
