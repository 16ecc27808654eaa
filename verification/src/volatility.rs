//! Realized-volatility estimator.
//!
//! The feed's volatility is the sample standard deviation of the
//! log-returns of the recorded prices, annualized by `sqrt(252)` and
//! clamped to `[0.1, 2.0]`; with no returns it falls back to the default
//! `0.3`. The logarithm of a price ratio is transcendental and is taken
//! outside the library; the statistics — mean, variance, square root,
//! annualization, clamp — are fixed-point arithmetic with an exact
//! contract here. Each return is one raw fixed-point scalar.

use vstd::prelude::*;
use vstd::arithmetic::div_mod::{lemma_div_is_ordered, lemma_div_multiples_vanish};
use crate::fixed_point::{
    FixedPoint, div_trunc, raw_div_trunc, lemma_div_trunc_nonneg, lemma_div_trunc_abs_le,
};

verus! {

/// Fallback volatility `0.3` in raw units, used with no samples.
pub const VOL_DEFAULT_RAW: i64 = 300_000;

/// Clamp floor `0.1` in raw units.
pub const VOL_MIN_RAW: i64 = 100_000;

/// Clamp ceiling `2.0` in raw units.
pub const VOL_MAX_RAW: i64 = 2_000_000;

/// `sqrt(252)` in raw units, truncated: the annualization factor.
pub const SQRT_252_RAW: i64 = 15_874_507;

/// Largest magnitude accepted for one log-return.
pub const MAX_RETURN_RAW: i64 = 1_000_000_000_000;

/// Most returns one estimate takes (one fewer than the history cap).
pub const MAX_RETURNS: usize = 1000;

pub open spec fn clamp_raw(x: int, lo: int, hi: int) -> int {
    if x < lo {
        lo
    } else if x > hi {
        hi
    } else {
        x
    }
}

pub open spec fn sum_of(s: Seq<i64>) -> int
    decreases s.len(),
{
    if s.len() == 0 {
        0
    } else {
        sum_of(s.drop_last()) + s.last()
    }
}

/// Truncated mean of the returns.
pub open spec fn mean_of(s: Seq<i64>) -> int
    recommends
        s.len() > 0,
{
    div_trunc(sum_of(s), s.len() as int)
}

/// Fixed-point square of one deviation from the mean.
pub open spec fn sq_dev_raw(v: i64, mu: int) -> int {
    div_trunc((v - mu) * (v - mu), 1_000_000)
}

pub open spec fn sum_sq_dev(s: Seq<i64>, mu: int) -> int
    decreases s.len(),
{
    if s.len() == 0 {
        0
    } else {
        sum_sq_dev(s.drop_last(), mu) + sq_dev_raw(s.last(), mu)
    }
}

/// Population variance of the returns, in raw units.
pub open spec fn variance_of(s: Seq<i64>) -> int
    recommends
        s.len() > 0,
{
    div_trunc(sum_sq_dev(s, mean_of(s)), s.len() as int)
}

/// Floor of the square root of a natural number.
pub open spec fn sqrt_floor(n: nat) -> nat
    decreases n,
{
    if n == 0 {
        0
    } else {
        let r = sqrt_floor((n - 1) as nat);
        if (r + 1) * (r + 1) <= n {
            r + 1
        } else {
            r
        }
    }
}

/// The annualized, clamped volatility of a return sequence, in raw units.
pub open spec fn volatility_of(s: Seq<i64>) -> int {
    if s.len() == 0 {
        VOL_DEFAULT_RAW as int
    } else {
        let sigma = sqrt_floor((variance_of(s) * 1_000_000) as nat) as int;
        let ann = div_trunc(sigma * (SQRT_252_RAW as int), 1_000_000);
        clamp_raw(ann, VOL_MIN_RAW as int, VOL_MAX_RAW as int)
    }
}

pub proof fn lemma_sqrt_floor_bracket(n: nat)
    ensures
        sqrt_floor(n) * sqrt_floor(n) <= n,
        n < (sqrt_floor(n) + 1) * (sqrt_floor(n) + 1),
    decreases n,
{
    reveal_with_fuel(sqrt_floor, 2);
    if n > 0 {
        lemma_sqrt_floor_bracket((n - 1) as nat);
        let r = sqrt_floor((n - 1) as nat);
        assert(r * r <= n - 1);
        assert(n - 1 < (r + 1) * (r + 1));
        if (r + 1) * (r + 1) <= n {
            assert(sqrt_floor(n) == r + 1);
            assert(n < (sqrt_floor(n) + 1) * (sqrt_floor(n) + 1)) by (nonlinear_arith)
                requires
                    sqrt_floor(n) == r + 1,
                    n - 1 < (r + 1) * (r + 1),
            ;
        } else {
            assert(sqrt_floor(n) == r);
            assert(n < (sqrt_floor(n) + 1) * (sqrt_floor(n) + 1)) by (nonlinear_arith)
                requires
                    sqrt_floor(n) == r,
                    !((r + 1) * (r + 1) <= n),
            ;
        }
        assert(sqrt_floor(n) * sqrt_floor(n) <= n) by (nonlinear_arith)
            requires
                n > 0,
                sqrt_floor(n) == if (r + 1) * (r + 1) <= n {
                    (r + 1) as nat
                } else {
                    r
                },
                r * r <= n - 1,
        ;
    } else {
        assert(sqrt_floor(n) == 0);
        assert(sqrt_floor(n) * sqrt_floor(n) <= n) by (nonlinear_arith)
            requires
                n == 0,
                sqrt_floor(n) == 0,
        ;
        assert(n < (sqrt_floor(n) + 1) * (sqrt_floor(n) + 1)) by (nonlinear_arith)
            requires
                n == 0,
                sqrt_floor(n) == 0,
        ;
    }
}

/// Any bracketing root is the floor root.
pub proof fn lemma_sqrt_floor_unique(n: nat, r: nat)
    requires
        r * r <= n,
        n < (r + 1) * (r + 1),
    ensures
        r == sqrt_floor(n),
{
    let s = sqrt_floor(n);
    lemma_sqrt_floor_bracket(n);
    if r < s {
        assert((r + 1) * (r + 1) <= s * s) by (nonlinear_arith)
            requires
                r + 1 <= s,
        ;
    } else if s < r {
        assert((s + 1) * (s + 1) <= r * r) by (nonlinear_arith)
            requires
                s + 1 <= r,
        ;
    }
}

/// Floor square root by bisection.
fn isqrt(x: u128) -> (r: u64)
    requires
        x < 79_228_162_514_264_337_593_543_950_336u128,  // 2^96
    ensures
        (r as int) * (r as int) <= x,
        x < ((r as int) + 1) * ((r as int) + 1),
        r as nat == sqrt_floor(x as nat),
{
    let mut lo: u64 = 0;
    let mut hi: u64 = 281_474_976_710_655;  // 2^48 - 1
    proof {
        assert((hi as int + 1) * (hi as int + 1) == 79_228_162_514_264_337_593_543_950_336)
            by (nonlinear_arith)
            requires
                hi == 281_474_976_710_655u64,
        ;
    }
    while lo < hi
        invariant
            lo <= hi,
            hi <= 281_474_976_710_655,
            (lo as int) * (lo as int) <= x,
            x < ((hi as int) + 1) * ((hi as int) + 1),
        decreases hi - lo,
    {
        let mid: u64 = lo + (hi - lo + 1) / 2;
        proof {
            assert((mid as int) * (mid as int) < 79_228_162_514_264_337_593_543_950_336)
                by (nonlinear_arith)
                requires
                    mid <= 281_474_976_710_655u64,
            ;
        }
        let sq: u128 = (mid as u128) * (mid as u128);
        if sq <= x {
            lo = mid;
        } else {
            hi = mid - 1;
        }
    }
    proof {
        lemma_sqrt_floor_unique(x as nat, lo as nat);
    }
    lo
}

/// The annualized, clamped realized volatility from fixed-point
/// log-returns; the default with none, and always within the clamp
/// bounds.
pub fn realized_volatility_from_returns(rets: &Vec<i64>) -> (r: FixedPoint)
    requires
        rets@.len() <= MAX_RETURNS,
        forall|i: int|
            0 <= i < rets@.len() ==> -MAX_RETURN_RAW <= #[trigger] rets@[i]
                <= MAX_RETURN_RAW,
    ensures
        r.raw == volatility_of(rets@),
        VOL_MIN_RAW <= r.raw <= VOL_MAX_RAW,
{
    let s = Ghost(rets@);
    let n = rets.len();
    if n == 0 {
        return FixedPoint { raw: VOL_DEFAULT_RAW };
    }

    // Sum of the returns.
    let mut sum: i64 = 0;
    let mut i: usize = 0;
    while i < n
        invariant
            s@ == rets@,
            n == s@.len(),
            1 <= n <= MAX_RETURNS,
            0 <= i <= n,
            forall|k: int|
                0 <= k < s@.len() ==> -MAX_RETURN_RAW <= #[trigger] s@[k] <= MAX_RETURN_RAW,
            sum == sum_of(s@.take(i as int)),
            -(i as int) * (MAX_RETURN_RAW as int) <= sum <= (i as int) * (MAX_RETURN_RAW as int),
        decreases n - i,
    {
        proof {
            assert(s@.take(i + 1).drop_last() =~= s@.take(i as int));
        }
        sum = sum + rets[i];
        i = i + 1;
    }
    proof {
        assert(s@.take(n as int) =~= s@);
    }

    // Truncated mean; its magnitude stays within the return bound.
    proof {
        let a = sum as int;
        let b = n as int;
        let m = MAX_RETURN_RAW as int;
        lemma_div_trunc_abs_le(a, b);
        if a >= 0 {
            lemma_div_is_ordered(a, b * m, b);
            lemma_div_multiples_vanish(m, b);
        } else {
            lemma_div_is_ordered(a * -1, b * m, b);
            lemma_div_multiples_vanish(m, b);
        }
    }
    let mean: i64 = raw_div_trunc(sum, n as i64);

    // Sum of the fixed-point squared deviations.
    let mut ssum: i128 = 0;
    let mut i: usize = 0;
    while i < n
        invariant
            s@ == rets@,
            n == s@.len(),
            1 <= n <= MAX_RETURNS,
            0 <= i <= n,
            forall|k: int|
                0 <= k < s@.len() ==> -MAX_RETURN_RAW <= #[trigger] s@[k] <= MAX_RETURN_RAW,
            -MAX_RETURN_RAW <= mean <= MAX_RETURN_RAW,
            mean == mean_of(s@),
            ssum == sum_sq_dev(s@.take(i as int), mean as int),
            0 <= ssum <= (i as int) * 4_000_000_000_000_000_000,
        decreases n - i,
    {
        let d: i128 = (rets[i] - mean) as i128;
        proof {
            assert(0 <= d * d <= 4_000_000_000_000_000_000_000_000) by (nonlinear_arith)
                requires
                    -2_000_000_000_000 <= d <= 2_000_000_000_000,
            ;
            lemma_div_trunc_nonneg(d * d, 1_000_000);
            lemma_div_is_ordered(d * d, 4_000_000_000_000_000_000_000_000, 1_000_000);
        }
        let sq: i128 = d * d;
        let term: i128 = match sq.checked_div(1_000_000) {
            Some(v) => v,
            None => 0,
        };
        proof {
            assert(s@.take(i + 1).drop_last() =~= s@.take(i as int));
        }
        ssum = ssum + term;
        i = i + 1;
    }
    proof {
        assert(s@.take(n as int) =~= s@);
    }

    // Truncated population variance.
    proof {
        lemma_div_trunc_nonneg(ssum as int, n as int);
        lemma_div_is_ordered(
            ssum as int,
            (n as int) * 4_000_000_000_000_000_000,
            n as int,
        );
        lemma_div_multiples_vanish(4_000_000_000_000_000_000, n as int);
    }
    let var: i128 = match ssum.checked_div(n as i128) {
        Some(v) => v,
        None => 0,
    };

    // Fixed-point square root, annualization, clamp.
    let x: u128 = (var as u128) * 1_000_000u128;
    let sigma: u64 = isqrt(x);
    proof {
        assert(sigma <= 2_100_000_000_000u64) by (nonlinear_arith)
            requires
                (sigma as int) * (sigma as int) <= 4_000_000_000_000_000_000_000_000,
        ;
        lemma_div_trunc_nonneg((sigma as int) * (SQRT_252_RAW as int), 1_000_000);
        lemma_div_is_ordered(
            (sigma as int) * (SQRT_252_RAW as int),
            2_100_000_000_000i128 as int * (SQRT_252_RAW as int),
            1_000_000,
        );
        assert((sigma as int) * (SQRT_252_RAW as int) <= 2_100_000_000_000 * (SQRT_252_RAW as int))
            by (nonlinear_arith)
            requires
                0 <= sigma <= 2_100_000_000_000u64,
        ;
    }
    let prod: u128 = (sigma as u128) * 15_874_507u128;
    let ann: u128 = match prod.checked_div(1_000_000u128) {
        Some(v) => v,
        None => 0,
    };
    let clamped: i64 = if ann < 100_000u128 {
        VOL_MIN_RAW
    } else if ann > 2_000_000u128 {
        VOL_MAX_RAW
    } else {
        ann as i64
    };
    FixedPoint { raw: clamped }
}

} // verus!
