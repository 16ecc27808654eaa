//! Closed-form inventory-aware quote engine.
//!
//! The Avellaneda–Stoikov closed form turns (time-in-session, mid price,
//! inventory, volatility) into a bid/ask pair. With `tau = 1 - t`,
//! `hu = gamma * sigma^2 * tau / 2` and `lg = ln_term / gamma`, the
//! half-spreads are `(2q + 1) * hu + lg` on the bid side and
//! `(1 - 2q) * hu + lg` on the ask side: positive inventory pushes both
//! quotes down, negative inventory pushes both up.
//!
//! `ln_term` stands for `ln(1 + gamma / k)`; the logarithm is
//! transcendental, so callers supply it precomputed (the default
//! parameters carry it for `gamma = 0.1`, `k = 1.5`). The engine itself is
//! pure fixed-point arithmetic with an exact contract.
//!
//! The engine is named for a planned hardware offload; only the software
//! form exists, and `initialized` stays false.

use vstd::prelude::*;
use crate::fixed_point::{FixedPoint, FIXED_SCALE, div_trunc, fp_mul_raw, fp_div_raw, raw_div_trunc, lemma_fp_mul_raw_bounds, lemma_fp_div_raw_bounds, lemma_div_trunc_nonneg};

verus! {

/// Default risk aversion `gamma = 0.1` in raw units.
pub const DEFAULT_GAMMA_RAW: i64 = 100_000;

/// Default order-arrival intensity `k = 1.5` in raw units.
pub const DEFAULT_K_RAW: i64 = 1_500_000;

/// `ln(1 + 0.1 / 1.5)` in raw units, truncated: the log term for the
/// default parameters.
pub const DEFAULT_LN_TERM_RAW: i64 = 64_538;

/// Magnitude bounds under which the quote arithmetic cannot overflow.
pub const MAX_PRICE_RAW: i64 = 1_000_000_000_000;

pub const MAX_SIGMA_RAW: i64 = 10_000_000;

pub const MAX_PARAM_RAW: i64 = 10_000_000;

/// Model parameters. `ln_term` must be `ln(1 + gamma / k)` for the pair
/// carried beside it; the library cannot compute the logarithm itself, so
/// the caller owes that relation.
pub struct QuoteParams {
    pub gamma: FixedPoint,
    pub k: FixedPoint,
    pub ln_term: FixedPoint,
}

/// Raw half-skew unit `gamma * sigma^2 * tau / 2`.
pub open spec fn half_skew_raw(gamma: int, sigma: int, tau: int) -> int {
    div_trunc(fp_mul_raw(fp_mul_raw(gamma, fp_mul_raw(sigma, sigma)), tau), 2)
}

/// Raw log premium `ln_term / gamma`.
pub open spec fn log_premium_raw(ln_term: int, gamma: int) -> int
    recommends
        gamma != 0,
{
    fp_div_raw(ln_term, gamma)
}

/// Raw bid half-spread for inventory `q`.
pub open spec fn bid_half_raw(q: int, hu: int, lg: int) -> int {
    (2 * q + 1) * hu + lg
}

/// Raw ask half-spread for inventory `q`.
pub open spec fn ask_half_raw(q: int, hu: int, lg: int) -> int {
    (1 - 2 * q) * hu + lg
}

/// Raw bid quote.
pub open spec fn bid_raw(mid: int, q: int, hu: int, lg: int) -> int {
    mid - bid_half_raw(q, hu, lg)
}

/// Raw ask quote.
pub open spec fn ask_raw(mid: int, q: int, hu: int, lg: int) -> int {
    mid + ask_half_raw(q, hu, lg)
}

impl QuoteParams {
    /// The default model parameters `gamma = 0.1`, `k = 1.5` with their
    /// precomputed log term.
    pub fn default_params() -> (r: Self)
        ensures
            r.gamma.raw == DEFAULT_GAMMA_RAW,
            r.k.raw == DEFAULT_K_RAW,
            r.ln_term.raw == DEFAULT_LN_TERM_RAW,
    {
        QuoteParams {
            gamma: FixedPoint { raw: DEFAULT_GAMMA_RAW },
            k: FixedPoint { raw: DEFAULT_K_RAW },
            ln_term: FixedPoint { raw: DEFAULT_LN_TERM_RAW },
        }
    }

    /// The bounds every quote computation asks of its parameters.
    pub open spec fn in_bounds(&self) -> bool {
        &&& 0 < self.gamma.raw <= MAX_PARAM_RAW
        &&& 0 <= self.ln_term.raw <= MAX_PARAM_RAW
    }
}

/// The closed-form engine: quotes for normalized time-in-session `t`, mid
/// price, signed inventory and volatility `sigma`.
pub fn optimal_quotes(
    t: FixedPoint,
    mid: FixedPoint,
    inventory: i32,
    sigma: FixedPoint,
    params: &QuoteParams,
) -> (r: (FixedPoint, FixedPoint))
    requires
        0 <= t.raw <= FIXED_SCALE,
        0 <= mid.raw <= MAX_PRICE_RAW,
        0 <= sigma.raw <= MAX_SIGMA_RAW,
        params.in_bounds(),
    ensures
        ({
            let tau = FIXED_SCALE - t.raw;
            let hu = half_skew_raw(params.gamma.raw as int, sigma.raw as int, tau as int);
            let lg = log_premium_raw(params.ln_term.raw as int, params.gamma.raw as int);
            &&& r.0.raw == bid_raw(mid.raw as int, inventory as int, hu, lg)
            &&& r.1.raw == ask_raw(mid.raw as int, inventory as int, hu, lg)
        }),
{
    let tau = FixedPoint { raw: FIXED_SCALE - t.raw };
    proof {
        lemma_fp_mul_raw_bounds(
            sigma.raw as int,
            sigma.raw as int,
            MAX_SIGMA_RAW as int,
            MAX_SIGMA_RAW as int,
        );
    }
    let vol_sq = sigma.mul(sigma);
    proof {
        lemma_fp_mul_raw_bounds(
            params.gamma.raw as int,
            vol_sq.raw as int,
            MAX_PARAM_RAW as int,
            100_000_000,
        );
    }
    let gvs = params.gamma.mul(vol_sq);
    proof {
        lemma_fp_mul_raw_bounds(gvs.raw as int, tau.raw as int, 1_000_000_000, FIXED_SCALE as int);
        lemma_div_trunc_nonneg(gvs.raw * tau.raw / (FIXED_SCALE as int), 2);
    }
    let gvst = gvs.mul(tau);
    proof {
        lemma_div_trunc_nonneg(gvst.raw as int, 2);
    }
    let hu: i64 = raw_div_trunc(gvst.raw, 2);
    proof {
        lemma_fp_div_raw_bounds(
            params.ln_term.raw as int,
            params.gamma.raw as int,
            MAX_PARAM_RAW as int,
        );
    }
    let lg: i64 = params.ln_term.div(params.gamma).raw;
    let q: i64 = inventory as i64;
    proof {
        assert((2 * q + 1) * hu <= 4_294_967_297 * 500_000_000 && (2 * q + 1) * hu
            >= -4_294_967_297 * 500_000_000) by (nonlinear_arith)
            requires
                -4_294_967_297 <= 2 * q + 1 <= 4_294_967_297,
                0 <= hu <= 500_000_000,
        ;
        assert((1 - 2 * q) * hu <= 4_294_967_297 * 500_000_000 && (1 - 2 * q) * hu
            >= -4_294_967_297 * 500_000_000) by (nonlinear_arith)
            requires
                -4_294_967_297 <= 1 - 2 * q <= 4_294_967_297,
                0 <= hu <= 500_000_000,
        ;
    }
    let bid_half: i64 = (2 * q + 1) * hu + lg;
    let ask_half: i64 = (1 - 2 * q) * hu + lg;
    (FixedPoint { raw: mid.raw - bid_half }, FixedPoint { raw: mid.raw + ask_half })
}

/// Quote symmetry: with zero inventory the ask sits exactly as far above
/// the mid as the bid sits below it.
pub proof fn lemma_quote_symmetry(mid: int, hu: int, lg: int)
    ensures
        ask_raw(mid, 0, hu, lg) - mid == mid - bid_raw(mid, 0, hu, lg),
{
}

/// Inventory skew monotonicity: whenever the half-skew unit is positive,
/// one more unit of inventory pushes both quotes strictly down, and the
/// ask-bid spread does not depend on inventory at all.
pub proof fn lemma_inventory_skew(mid: int, q: int, hu: int, lg: int)
    requires
        hu > 0,
    ensures
        bid_raw(mid, q + 1, hu, lg) < bid_raw(mid, q, hu, lg),
        ask_raw(mid, q + 1, hu, lg) < ask_raw(mid, q, hu, lg),
        ask_raw(mid, q + 1, hu, lg) - bid_raw(mid, q + 1, hu, lg) == ask_raw(mid, q, hu, lg)
            - bid_raw(mid, q, hu, lg),
{
    assert((2 * (q + 1) + 1) * hu == (2 * q + 1) * hu + 2 * hu) by (nonlinear_arith);
    assert((1 - 2 * (q + 1)) * hu == (1 - 2 * q) * hu - 2 * hu) by (nonlinear_arith);
}

/// Engine facade kept from the hardware-offload design: `initialized`
/// never becomes true, so quoting always takes the software path with the
/// default parameters.
pub struct FPGAEngine {
    pub initialized: bool,
}

impl FPGAEngine {
    pub fn new() -> (r: Self)
        ensures
            !r.initialized,
    {
        let mut engine = FPGAEngine { initialized: false };
        engine.initialize();
        engine
    }

    pub fn initialize(&mut self)
        ensures
            !final(self).initialized,
    {
        self.initialized = false;
    }

    /// Quotes at the session open (`t = 0`) for the given mid, inventory
    /// and volatility, with the default model parameters.
    pub fn calculate_optimal_quotes(
        &self,
        mid: FixedPoint,
        inventory: i32,
        volatility: FixedPoint,
    ) -> (r: (FixedPoint, FixedPoint))
        requires
            !self.initialized,
            0 <= mid.raw <= MAX_PRICE_RAW,
            0 <= volatility.raw <= MAX_SIGMA_RAW,
        ensures
            ({
                let hu = half_skew_raw(DEFAULT_GAMMA_RAW as int, volatility.raw as int, FIXED_SCALE as int);
                let lg = log_premium_raw(DEFAULT_LN_TERM_RAW as int, DEFAULT_GAMMA_RAW as int);
                &&& r.0.raw == bid_raw(mid.raw as int, inventory as int, hu, lg)
                &&& r.1.raw == ask_raw(mid.raw as int, inventory as int, hu, lg)
            }),
    {
        self.software_fallback(mid, inventory, volatility, &QuoteParams::default_params())
    }

    fn software_fallback(
        &self,
        mid: FixedPoint,
        inventory: i32,
        volatility: FixedPoint,
        params: &QuoteParams,
    ) -> (r: (FixedPoint, FixedPoint))
        requires
            0 <= mid.raw <= MAX_PRICE_RAW,
            0 <= volatility.raw <= MAX_SIGMA_RAW,
            params.in_bounds(),
        ensures
            ({
                let hu = half_skew_raw(params.gamma.raw as int, volatility.raw as int, FIXED_SCALE as int);
                let lg = log_premium_raw(params.ln_term.raw as int, params.gamma.raw as int);
                &&& r.0.raw == bid_raw(mid.raw as int, inventory as int, hu, lg)
                &&& r.1.raw == ask_raw(mid.raw as int, inventory as int, hu, lg)
            }),
    {
        optimal_quotes(FixedPoint { raw: 0 }, mid, inventory, volatility, params)
    }
}

} // verus!
