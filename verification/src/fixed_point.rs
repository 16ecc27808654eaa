//! Deterministic Q-format scalar arithmetic.
//!
//! A [`FixedPoint`] stores a real quantity as a count of millionths, so
//! prices, sizes and balances are exact integers and every arithmetic step
//! has a precise contract. Multiplication and division truncate toward
//! zero, the way Rust's integer `/` does.

use vstd::prelude::*;
use vstd::arithmetic::div_mod::{lemma_div_pos_is_pos, lemma_div_is_ordered, lemma_div_nonincreasing};

verus! {

/// Raw units per whole unit: six decimal places.
pub const FIXED_SCALE: i64 = 1_000_000;

/// Truncating (round-toward-zero) division, the semantics of Rust's `/` on
/// machine integers. Division on `int` in specifications is Euclidean, so
/// the negative cases are spelled out through magnitudes.
pub open spec fn div_trunc(a: int, b: int) -> int
    recommends
        b != 0,
{
    if a == 0 {
        0
    } else if a > 0 && b > 0 {
        a / b
    } else if a < 0 && b < 0 {
        (a * -1) / (b * -1)
    } else if a < 0 {
        ((a * -1) / b) * -1
    } else {
        (a / (b * -1)) * -1
    }
}

/// Raw value of the product of two fixed-point scalars.
pub open spec fn fp_mul_raw(a: int, b: int) -> int {
    div_trunc(a * b, FIXED_SCALE as int)
}

/// Raw value of the quotient of two fixed-point scalars.
pub open spec fn fp_div_raw(a: int, b: int) -> int
    recommends
        b != 0,
{
    div_trunc(a * (FIXED_SCALE as int), b)
}

/// For a nonnegative dividend and a positive divisor, truncating division
/// is the Euclidean quotient: nonnegative and no larger than the dividend.
pub proof fn lemma_div_trunc_nonneg(a: int, b: int)
    requires
        a >= 0,
        b >= 1,
    ensures
        div_trunc(a, b) == a / b,
        0 <= div_trunc(a, b) <= a,
{
    lemma_div_pos_is_pos(a, b);
    lemma_div_nonincreasing(a, b);
}

/// Truncating division never grows the magnitude of the dividend.
pub proof fn lemma_div_trunc_abs_le(a: int, b: int)
    requires
        b >= 1,
    ensures
        a >= 0 ==> 0 <= div_trunc(a, b) <= a,
        a < 0 ==> a <= div_trunc(a, b) <= 0,
{
    if a >= 0 {
        lemma_div_trunc_nonneg(a, b);
    } else {
        lemma_div_trunc_nonneg(a * -1, b);
    }
}

/// Bounds for the fixed product of nonnegative raw values.
pub proof fn lemma_fp_mul_raw_bounds(a: int, b: int, amax: int, bmax: int)
    requires
        0 <= a <= amax,
        0 <= b <= bmax,
    ensures
        fp_mul_raw(a, b) == (a * b) / (FIXED_SCALE as int),
        0 <= fp_mul_raw(a, b) <= (amax * bmax) / (FIXED_SCALE as int),
{
    let s = FIXED_SCALE as int;
    assert(0 <= a * b && a * b <= amax * bmax) by (nonlinear_arith)
        requires
            0 <= a <= amax,
            0 <= b <= bmax,
    ;
    lemma_div_trunc_nonneg(a * b, s);
    lemma_div_is_ordered(a * b, amax * bmax, s);
}

/// Bounds for the fixed quotient of a nonnegative raw value by a positive
/// raw value.
pub proof fn lemma_fp_div_raw_bounds(a: int, b: int, amax: int)
    requires
        0 <= a <= amax,
        b >= 1,
    ensures
        fp_div_raw(a, b) == (a * (FIXED_SCALE as int)) / b,
        0 <= fp_div_raw(a, b) <= amax * (FIXED_SCALE as int),
{
    let s = FIXED_SCALE as int;
    assert(0 <= a * s && a * s <= amax * s) by (nonlinear_arith)
        requires
            0 <= a <= amax,
            s == 1_000_000,
    ;
    lemma_div_trunc_nonneg(a * s, b);
}

/// Truncating division of raw values, total for a nonzero divisor whose
/// quotient stays in range.
pub fn raw_div_trunc(a: i64, b: i64) -> (r: i64)
    requires
        b != 0,
        i64::MIN <= div_trunc(a as int, b as int) <= i64::MAX,
    ensures
        r == div_trunc(a as int, b as int),
{
    match a.checked_div(b) {
        Some(v) => v,
        None => 0,
    }
}

/// Fixed-point scalar: `raw` counts millionths of a unit.
#[derive(Debug, Clone, Copy, PartialEq, Eq, Structural)]
pub struct FixedPoint {
    pub raw: i64,
}

impl FixedPoint {
    /// Wraps a raw count of millionths.
    pub fn from_raw(raw: i64) -> (r: Self)
        ensures
            r.raw == raw,
    {
        FixedPoint { raw }
    }

    /// The scalar for a whole number of units.
    pub fn from_units(units: i32) -> (r: Self)
        ensures
            r.raw == units * FIXED_SCALE,
    {
        FixedPoint { raw: (units as i64) * FIXED_SCALE }
    }

    pub fn zero() -> (r: Self)
        ensures
            r.raw == 0,
    {
        FixedPoint { raw: 0 }
    }

    pub fn is_positive(self) -> (r: bool)
        ensures
            r == (self.raw > 0),
    {
        self.raw > 0
    }

    pub fn add(self, rhs: Self) -> (r: Self)
        requires
            i64::MIN <= self.raw + rhs.raw <= i64::MAX,
        ensures
            r.raw == self.raw + rhs.raw,
    {
        FixedPoint { raw: self.raw + rhs.raw }
    }

    pub fn sub(self, rhs: Self) -> (r: Self)
        requires
            i64::MIN <= self.raw - rhs.raw <= i64::MAX,
        ensures
            r.raw == self.raw - rhs.raw,
    {
        FixedPoint { raw: self.raw - rhs.raw }
    }

    pub fn mul(self, rhs: Self) -> (r: Self)
        requires
            i64::MIN <= fp_mul_raw(self.raw as int, rhs.raw as int) <= i64::MAX,
        ensures
            r.raw == fp_mul_raw(self.raw as int, rhs.raw as int),
    {
        let p: i128 = (self.raw as i128) * (rhs.raw as i128);
        let q: i128 = match p.checked_div(FIXED_SCALE as i128) {
            Some(v) => v,
            None => 0,
        };
        FixedPoint { raw: q as i64 }
    }

    pub fn div(self, rhs: Self) -> (r: Self)
        requires
            rhs.raw != 0,
            i64::MIN <= fp_div_raw(self.raw as int, rhs.raw as int) <= i64::MAX,
        ensures
            r.raw == fp_div_raw(self.raw as int, rhs.raw as int),
    {
        let p: i128 = (self.raw as i128) * (FIXED_SCALE as i128);
        let q: i128 = match p.checked_div(rhs.raw as i128) {
            Some(v) => v,
            None => 0,
        };
        FixedPoint { raw: q as i64 }
    }
}

} // verus!
