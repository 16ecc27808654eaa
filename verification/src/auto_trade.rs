//! Rebalancing policy: dynamic target, dynamic threshold, risk-bounded
//! size.
//!
//! Each invocation compares inventory with a target that fades as the
//! trading day closes, against a threshold that widens with volatility;
//! beyond the threshold it asks for a sell (over-inventory) or a buy
//! (under-inventory) of a size capped at five units per tick.

use vstd::prelude::*;
use vstd::arithmetic::div_mod::lemma_div_is_ordered;
use crate::fixed_point::{
    FixedPoint, FIXED_SCALE, div_trunc, fp_mul_raw, fp_div_raw, raw_div_trunc,
    lemma_fp_mul_raw_bounds, lemma_fp_div_raw_bounds, lemma_div_trunc_nonneg,
};
use crate::fpga_bridge::MAX_SIGMA_RAW;
use crate::volatility::clamp_raw;

verus! {

/// Seconds in the simulated 24-hour trading day.
pub const DAY_SECONDS: u64 = 86_400;

/// Largest initial base balance the planner takes, in raw units.
pub const MAX_PLAN_BASE_RAW: i64 = 1_000_000_000_000;

/// What the policy asks for on one tick.
#[derive(Debug, Clone, Copy, PartialEq, Eq, Structural)]
pub enum TradeAction {
    Hold,
    Buy,
    Sell,
}

/// What one auto-trade invocation decided and did. `executed` is false
/// both on a hold and on an execution reject.
#[derive(Debug, Clone, Copy, PartialEq, Eq, Structural)]
pub struct AutoTradeOutcome {
    pub action: TradeAction,
    pub trade_size: i32,
    pub target: i32,
    pub threshold: i32,
    pub inventory_before: i32,
    pub executed: bool,
}

/// The raw time-of-day factor: `1.0` through the first three quarters of
/// the day, then fading linearly to `0` at the close.
pub open spec fn time_factor_raw(now: int) -> int {
    let p = (now % (DAY_SECONDS as int)) * (FIXED_SCALE as int) / (DAY_SECONDS as int);
    if p < 750_000 {
        FIXED_SCALE as int
    } else {
        (FIXED_SCALE as int - p) * 4
    }
}

/// The raw volatility scalar: `sigma / 0.3` clamped to `[0.5, 2.0]`.
pub open spec fn vol_scalar_raw(sigma: int) -> int {
    clamp_raw(fp_div_raw(sigma, 300_000), 500_000, 2_000_000)
}

/// Whole-unit inventory target: `floor(initial_base * tf * 0.8)`.
pub open spec fn target_units(initial_base: int, tf: int) -> int {
    div_trunc(fp_mul_raw(fp_mul_raw(initial_base, tf), 800_000), FIXED_SCALE as int)
}

/// Whole-unit rebalance threshold: `floor(5 * vs * max(tf, 0.2))`.
pub open spec fn threshold_units(vs: int, tf: int) -> int {
    let t = if tf > 200_000 {
        tf
    } else {
        200_000
    };
    div_trunc(fp_mul_raw(5 * vs, t), FIXED_SCALE as int)
}

/// Units to trade for a deviation: `ceil(abs_dev * 0.3)` clamped to
/// `[1, 5]`.
pub open spec fn trade_size_units(abs_dev: int) -> int {
    clamp_raw((abs_dev * 3 + 9) / 10, 1, 5)
}

/// The action for a deviation and threshold.
pub open spec fn action_for(deviation: int, threshold: int) -> TradeAction {
    let abs_dev = if deviation >= 0 {
        deviation
    } else {
        -deviation
    };
    if abs_dev <= threshold {
        TradeAction::Hold
    } else if deviation > 0 {
        TradeAction::Sell
    } else {
        TradeAction::Buy
    }
}

/// The time-of-day factor from wall-clock seconds; the clock is supplied
/// by the caller.
pub fn time_to_close_factor(now_secs: u64) -> (r: FixedPoint)
    ensures
        r.raw == time_factor_raw(now_secs as int),
        0 <= r.raw <= FIXED_SCALE,
{
    let t: u64 = now_secs % DAY_SECONDS;
    let p: u64 = (t * 1_000_000u64) / DAY_SECONDS;
    if p < 750_000 {
        FixedPoint { raw: FIXED_SCALE }
    } else {
        FixedPoint { raw: (FIXED_SCALE - p as i64) * 4 }
    }
}

/// The volatility scalar for the current `sigma`.
pub fn vol_scalar(sigma: FixedPoint) -> (r: FixedPoint)
    requires
        0 <= sigma.raw <= MAX_SIGMA_RAW,
    ensures
        r.raw == vol_scalar_raw(sigma.raw as int),
        500_000 <= r.raw <= 2_000_000,
{
    proof {
        lemma_fp_div_raw_bounds(sigma.raw as int, 300_000, MAX_SIGMA_RAW as int);
    }
    let q: i64 = FixedPoint { raw: sigma.raw }.div(FixedPoint { raw: 300_000 }).raw;
    if q < 500_000 {
        FixedPoint { raw: 500_000 }
    } else if q > 2_000_000 {
        FixedPoint { raw: 2_000_000 }
    } else {
        FixedPoint { raw: q }
    }
}

/// The planned rebalance for the current inventory:
/// `(action, size, target, threshold)`.
pub fn plan_rebalance(
    inventory: i32,
    initial_base: FixedPoint,
    time_factor: FixedPoint,
    sigma: FixedPoint,
) -> (r: (TradeAction, i32, i32, i32))
    requires
        0 <= initial_base.raw <= MAX_PLAN_BASE_RAW,
        0 <= time_factor.raw <= FIXED_SCALE,
        0 <= sigma.raw <= MAX_SIGMA_RAW,
    ensures
        ({
            let tgt = target_units(initial_base.raw as int, time_factor.raw as int);
            let thr = threshold_units(
                vol_scalar_raw(sigma.raw as int),
                time_factor.raw as int,
            );
            let dev = inventory - tgt;
            let abs_dev = if dev >= 0 {
                dev
            } else {
                -dev
            };
            &&& r.2 == tgt
            &&& r.3 == thr
            &&& 0 <= r.3 <= 10
            &&& r.0 == action_for(dev, thr)
            &&& (r.0 != TradeAction::Hold) ==> r.1 == trade_size_units(abs_dev) && 1 <= r.1 <= 5
            &&& (r.0 == TradeAction::Hold) ==> r.1 == 0
        }),
{
    proof {
        lemma_fp_mul_raw_bounds(
            initial_base.raw as int,
            time_factor.raw as int,
            MAX_PLAN_BASE_RAW as int,
            FIXED_SCALE as int,
        );
        lemma_fp_mul_raw_bounds(
            fp_mul_raw(initial_base.raw as int, time_factor.raw as int),
            800_000,
            MAX_PLAN_BASE_RAW as int,
            800_000,
        );
        let t2s = fp_mul_raw(
            fp_mul_raw(initial_base.raw as int, time_factor.raw as int),
            800_000,
        );
        lemma_div_trunc_nonneg(t2s, FIXED_SCALE as int);
        lemma_div_is_ordered(t2s, 800_000_000_000, FIXED_SCALE as int);
    }
    let t1 = initial_base.mul(time_factor);
    let t2 = t1.mul(FixedPoint { raw: 800_000 });
    let target64: i64 = raw_div_trunc(t2.raw, FIXED_SCALE);
    let target: i32 = target64 as i32;

    let vs = vol_scalar(sigma);
    let t: i64 = if time_factor.raw > 200_000 {
        time_factor.raw
    } else {
        200_000
    };
    proof {
        lemma_fp_mul_raw_bounds(5 * vs.raw, t as int, 10_000_000, FIXED_SCALE as int);
        lemma_div_trunc_nonneg(fp_mul_raw(5 * vs.raw as int, t as int), FIXED_SCALE as int);
        lemma_div_is_ordered(
            fp_mul_raw(5 * vs.raw as int, t as int),
            10_000_000,
            FIXED_SCALE as int,
        );
    }
    let x = FixedPoint { raw: 5 * vs.raw };
    let y = x.mul(FixedPoint { raw: t });
    let threshold64: i64 = raw_div_trunc(y.raw, FIXED_SCALE);
    let threshold: i32 = threshold64 as i32;

    let dev: i64 = (inventory as i64) - (target as i64);
    let abs_dev: i64 = if dev >= 0 {
        dev
    } else {
        -dev
    };
    if abs_dev <= threshold as i64 {
        (TradeAction::Hold, 0, target, threshold)
    } else {
        proof {
            lemma_div_trunc_nonneg(abs_dev * 3 + 9, 10);
        }
        let raw_size: i64 = raw_div_trunc(abs_dev * 3 + 9, 10);
        let size: i32 = if raw_size < 1 {
            1
        } else if raw_size > 5 {
            5
        } else {
            raw_size as i32
        };
        if dev > 0 {
            (TradeAction::Sell, size, target, threshold)
        } else {
            (TradeAction::Buy, size, target, threshold)
        }
    }
}

} // verus!
