//! Single-instrument market-making core.
//!
//! The library computes inventory-aware bid/ask quotes from a closed-form
//! Avellaneda–Stoikov model, maintains a simulated portfolio of cash and
//! base-asset inventory with atomic execution semantics, ingests ticker and
//! depth messages into a consistent market snapshot, and decides when to
//! rebalance inventory toward a time- and volatility-scaled target.
//!
//! Prices, sizes and balances are fixed-point scalars with six decimal
//! places ([`fixed_point::FixedPoint`]), so every quantity the contracts
//! speak of is an exact integer.

pub mod auto_trade;
pub mod fixed_point;
pub mod fpga_bridge;
pub mod market_data;
pub mod metrics;
pub mod order_engine;
pub mod price_parse;
pub mod volatility;

use vstd::prelude::*;
use vstd::arithmetic::div_mod::lemma_div_is_ordered;
use crate::auto_trade::{
    AutoTradeOutcome, TradeAction, action_for, plan_rebalance, target_units, threshold_units,
    time_factor_raw, time_to_close_factor, trade_size_units, vol_scalar_raw,
};
use crate::fixed_point::{
    FixedPoint, FIXED_SCALE, div_trunc, fp_mul_raw, raw_div_trunc, lemma_div_trunc_abs_le,
    lemma_div_trunc_nonneg,
};
use crate::fpga_bridge::{
    DEFAULT_GAMMA_RAW, DEFAULT_LN_TERM_RAW, FPGAEngine, MAX_PRICE_RAW, MAX_SIGMA_RAW, ask_raw,
    bid_raw, half_skew_raw, log_premium_raw,
};
use crate::market_data::MarketDataFeed;
use crate::order_engine::{
    OrderEngine, base_after_buy, base_after_sell, buy_accepted, cash_after_buy, cash_after_sell,
    sell_accepted,
};

verus! {

/// Largest cash balance the core holds, in raw units.
pub const MAX_CASH_RAW: i64 = 1_000_000_000_000_000_000;

/// Largest base balance the core holds, in raw units.
pub const MAX_BASE_RAW: i64 = 1_000_000_000_000;

/// One snapshot of quotes, market and portfolio.
pub struct Quote {
    pub bid: FixedPoint,
    pub ask: FixedPoint,
    pub mid: FixedPoint,
    pub inventory: i32,
    pub market_bid: FixedPoint,
    pub market_ask: FixedPoint,
    pub spread: FixedPoint,
    pub usd_balance: FixedPoint,
    pub btc_balance: FixedPoint,
    pub pnl: FixedPoint,
    pub latency_us: u64,
}

/// Raw realized profit and loss against the initial portfolio, marked at
/// `mid`.
pub open spec fn pnl_raw(cash: int, initial_cash: int, base: int, initial_base: int, mid: int) -> int {
    (cash - initial_cash) + fp_mul_raw(base - initial_base, mid)
}

/// A buy fills when cash covers it and the filled position still fits
/// the core's ranges.
pub open spec fn buy_fits(cash: int, base: int, inventory: int, q: int, p: int) -> bool {
    &&& buy_accepted(cash, q, p)
    &&& base + q * (FIXED_SCALE as int) <= MAX_BASE_RAW
    &&& inventory + q <= i32::MAX
}

/// A sell fills when the base balance covers it and the proceeds still
/// fit the core's ranges.
pub open spec fn sell_fits(cash: int, base: int, inventory: int, q: int, p: int) -> bool {
    &&& sell_accepted(base, q)
    &&& cash + q * p <= MAX_CASH_RAW
    &&& inventory - q >= i32::MIN
}

/// The composition root: feed, quote engine, order engine and portfolio.
pub struct TradingCore {
    pub fpga_engine: FPGAEngine,
    pub market_feed: MarketDataFeed,
    pub order_engine: OrderEngine,
    pub usd_balance: FixedPoint,
    pub btc_balance: FixedPoint,
    pub initial_usd: FixedPoint,
    pub initial_btc: FixedPoint,
}

impl TradingCore {
    pub open spec fn wf(&self) -> bool {
        &&& !self.fpga_engine.initialized
        &&& self.market_feed.wf()
        &&& 0 <= self.usd_balance.raw <= MAX_CASH_RAW
        &&& 0 <= self.btc_balance.raw <= MAX_BASE_RAW
        &&& 0 <= self.initial_usd.raw <= MAX_CASH_RAW
        &&& 0 <= self.initial_btc.raw <= MAX_BASE_RAW
    }

    /// A fresh core for one symbol: empty portfolio, feed not yet live.
    pub fn new(symbol: String) -> (r: Self)
        ensures
            r.wf(),
            r.usd_balance.raw == 0,
            r.btc_balance.raw == 0,
            r.initial_usd.raw == 0,
            r.initial_btc.raw == 0,
            r.order_engine.inventory == 0,
            r.market_feed.last_price.raw == 0,
            r.market_feed.best_bid.raw == 0,
            r.market_feed.best_ask.raw == 0,
            r.market_feed.price_history@ == Seq::<i64>::empty(),
    {
        TradingCore {
            fpga_engine: FPGAEngine::new(),
            market_feed: MarketDataFeed::new(symbol),
            order_engine: OrderEngine::new(),
            usd_balance: FixedPoint { raw: 0 },
            btc_balance: FixedPoint { raw: 0 },
            initial_usd: FixedPoint { raw: 0 },
            initial_btc: FixedPoint { raw: 0 },
        }
    }

    /// Sets the initial balances; inventory becomes the whole-unit floor
    /// of the base balance.
    pub fn set_portfolio(&mut self, usd: FixedPoint, btc: FixedPoint)
        requires
            old(self).wf(),
            0 <= usd.raw <= MAX_CASH_RAW,
            0 <= btc.raw <= MAX_BASE_RAW,
        ensures
            final(self).wf(),
            final(self).usd_balance == usd,
            final(self).btc_balance == btc,
            final(self).initial_usd == usd,
            final(self).initial_btc == btc,
            final(self).order_engine.inventory == div_trunc(btc.raw as int, FIXED_SCALE as int),
            final(self).market_feed == old(self).market_feed,
            final(self).fpga_engine == old(self).fpga_engine,
    {
        self.initial_usd = usd;
        self.initial_btc = btc;
        self.usd_balance = usd;
        self.btc_balance = btc;
        proof {
            lemma_div_trunc_nonneg(btc.raw as int, FIXED_SCALE as int);
            lemma_div_is_ordered(btc.raw as int, MAX_BASE_RAW as int, FIXED_SCALE as int);
        }
        let units: i64 = raw_div_trunc(btc.raw, FIXED_SCALE);
        self.order_engine.set_inventory(units as i32);
    }

    /// Buys `quantity` units at `price` when cash covers the cost and
    /// the filled position stays in range; otherwise changes nothing.
    fn checked_buy(&mut self, quantity: i32, price: FixedPoint) -> (accepted: bool)
        requires
            old(self).wf(),
            quantity >= 0,
            0 <= price.raw <= MAX_PRICE_RAW,
        ensures
            final(self).wf(),
            accepted == buy_fits(
                old(self).usd_balance.raw as int,
                old(self).btc_balance.raw as int,
                old(self).order_engine.inventory as int,
                quantity as int,
                price.raw as int,
            ),
            accepted ==> final(self).usd_balance.raw == cash_after_buy(
                old(self).usd_balance.raw as int,
                quantity as int,
                price.raw as int,
            ) && final(self).btc_balance.raw == base_after_buy(
                old(self).btc_balance.raw as int,
                quantity as int,
            ) && final(self).order_engine.inventory == old(self).order_engine.inventory
                + quantity,
            !accepted ==> final(self).usd_balance == old(self).usd_balance
                && final(self).btc_balance == old(self).btc_balance
                && final(self).order_engine.inventory == old(self).order_engine.inventory,
            final(self).market_feed == old(self).market_feed,
            final(self).initial_usd == old(self).initial_usd,
            final(self).initial_btc == old(self).initial_btc,
            final(self).fpga_engine == old(self).fpga_engine,
    {
        proof {
            assert(0 <= (quantity as int) * (price.raw as int) <= 2_147_483_647
                * 1_000_000_000_000) by (nonlinear_arith)
                requires
                    0 <= quantity <= 2_147_483_647,
                    0 <= price.raw <= 1_000_000_000_000,
            ;
        }
        let cost128: i128 = (quantity as i128) * (price.raw as i128);
        if cost128 > MAX_CASH_RAW as i128 {
            return false;
        }
        let base_add: i64 = (quantity as i64) * FIXED_SCALE;
        if base_add > MAX_BASE_RAW || self.btc_balance.raw > MAX_BASE_RAW - base_add {
            return false;
        }
        let inv = self.order_engine.inventory();
        if inv > 0 && quantity > i32::MAX - inv {
            return false;
        }
        self.order_engine.execute_buy(
            quantity,
            price,
            &mut self.usd_balance,
            &mut self.btc_balance,
        )
    }

    /// Sells `quantity` units at `price` when the base balance covers it
    /// and the proceeds stay in range; otherwise changes nothing.
    fn checked_sell(&mut self, quantity: i32, price: FixedPoint) -> (accepted: bool)
        requires
            old(self).wf(),
            quantity >= 0,
            0 <= price.raw <= MAX_PRICE_RAW,
        ensures
            final(self).wf(),
            accepted == sell_fits(
                old(self).usd_balance.raw as int,
                old(self).btc_balance.raw as int,
                old(self).order_engine.inventory as int,
                quantity as int,
                price.raw as int,
            ),
            accepted ==> final(self).usd_balance.raw == cash_after_sell(
                old(self).usd_balance.raw as int,
                quantity as int,
                price.raw as int,
            ) && final(self).btc_balance.raw == base_after_sell(
                old(self).btc_balance.raw as int,
                quantity as int,
            ) && final(self).order_engine.inventory == old(self).order_engine.inventory
                - quantity,
            !accepted ==> final(self).usd_balance == old(self).usd_balance
                && final(self).btc_balance == old(self).btc_balance
                && final(self).order_engine.inventory == old(self).order_engine.inventory,
            final(self).market_feed == old(self).market_feed,
            final(self).initial_usd == old(self).initial_usd,
            final(self).initial_btc == old(self).initial_btc,
            final(self).fpga_engine == old(self).fpga_engine,
    {
        proof {
            assert(0 <= (quantity as int) * (price.raw as int) <= 2_147_483_647
                * 1_000_000_000_000) by (nonlinear_arith)
                requires
                    0 <= quantity <= 2_147_483_647,
                    0 <= price.raw <= 1_000_000_000_000,
            ;
        }
        let cost128: i128 = (quantity as i128) * (price.raw as i128);
        if cost128 > (MAX_CASH_RAW - self.usd_balance.raw) as i128 {
            return false;
        }
        let inv = self.order_engine.inventory();
        if inv < 0 && quantity > inv - i32::MIN {
            return false;
        }
        self.order_engine.execute_sell(
            quantity,
            price,
            &mut self.usd_balance,
            &mut self.btc_balance,
        )
    }

    /// A buy at the current market ask; a negative size is rejected.
    pub fn simulate_buy(&mut self, quantity: i32) -> (accepted: bool)
        requires
            old(self).wf(),
        ensures
            final(self).wf(),
            quantity < 0 ==> !accepted && *final(self) == *old(self),
            quantity >= 0 ==> accepted == buy_fits(
                old(self).usd_balance.raw as int,
                old(self).btc_balance.raw as int,
                old(self).order_engine.inventory as int,
                quantity as int,
                old(self).market_feed.best_ask.raw as int,
            ),
            quantity >= 0 && accepted ==> final(self).usd_balance.raw == cash_after_buy(
                old(self).usd_balance.raw as int,
                quantity as int,
                old(self).market_feed.best_ask.raw as int,
            ) && final(self).btc_balance.raw == base_after_buy(
                old(self).btc_balance.raw as int,
                quantity as int,
            ) && final(self).order_engine.inventory == old(self).order_engine.inventory
                + quantity,
            !accepted ==> *final(self) == *old(self),
            final(self).market_feed == old(self).market_feed,
    {
        if quantity < 0 {
            return false;
        }
        let price = self.market_feed.current_ask();
        self.checked_buy(quantity, price)
    }

    /// A sell at the current market bid; a negative size is rejected.
    pub fn simulate_sell(&mut self, quantity: i32) -> (accepted: bool)
        requires
            old(self).wf(),
        ensures
            final(self).wf(),
            quantity < 0 ==> !accepted && *final(self) == *old(self),
            quantity >= 0 ==> accepted == sell_fits(
                old(self).usd_balance.raw as int,
                old(self).btc_balance.raw as int,
                old(self).order_engine.inventory as int,
                quantity as int,
                old(self).market_feed.best_bid.raw as int,
            ),
            quantity >= 0 && accepted ==> final(self).usd_balance.raw == cash_after_sell(
                old(self).usd_balance.raw as int,
                quantity as int,
                old(self).market_feed.best_bid.raw as int,
            ) && final(self).btc_balance.raw == base_after_sell(
                old(self).btc_balance.raw as int,
                quantity as int,
            ) && final(self).order_engine.inventory == old(self).order_engine.inventory
                - quantity,
            !accepted ==> *final(self) == *old(self),
            final(self).market_feed == old(self).market_feed,
    {
        if quantity < 0 {
            return false;
        }
        let price = self.market_feed.current_bid();
        self.checked_sell(quantity, price)
    }

    /// One rebalancing tick at wall-clock second `now_secs` with
    /// volatility `sigma`: plans against the dynamic target and
    /// threshold, and executes the planned trade at the current mid.
    pub fn auto_trade(&mut self, now_secs: u64, sigma: FixedPoint) -> (r: AutoTradeOutcome)
        requires
            old(self).wf(),
            0 <= sigma.raw <= MAX_SIGMA_RAW,
        ensures
            final(self).wf(),
            ({
                let tf = time_factor_raw(now_secs as int);
                let tgt = target_units(old(self).initial_btc.raw as int, tf);
                let thr = threshold_units(vol_scalar_raw(sigma.raw as int), tf);
                let dev = old(self).order_engine.inventory - tgt;
                let abs_dev = if dev >= 0 {
                    dev
                } else {
                    -dev
                };
                let mid = old(self).market_feed.last_price.raw as int;
                &&& r.action == action_for(dev, thr)
                &&& r.target == tgt
                &&& r.threshold == thr
                &&& r.inventory_before == old(self).order_engine.inventory
                &&& (r.action == TradeAction::Hold) ==> !r.executed && r.trade_size == 0
                    && *final(self) == *old(self)
                &&& (r.action != TradeAction::Hold) ==> r.trade_size == trade_size_units(abs_dev)
                &&& (r.action == TradeAction::Sell) ==> r.executed == sell_fits(
                    old(self).usd_balance.raw as int,
                    old(self).btc_balance.raw as int,
                    old(self).order_engine.inventory as int,
                    r.trade_size as int,
                    mid,
                )
                &&& (r.action == TradeAction::Sell && r.executed) ==> final(self).usd_balance.raw
                    == cash_after_sell(old(self).usd_balance.raw as int, r.trade_size as int, mid)
                    && final(self).btc_balance.raw == base_after_sell(
                    old(self).btc_balance.raw as int,
                    r.trade_size as int,
                ) && final(self).order_engine.inventory == old(self).order_engine.inventory
                    - r.trade_size
                &&& (r.action == TradeAction::Buy) ==> r.executed == buy_fits(
                    old(self).usd_balance.raw as int,
                    old(self).btc_balance.raw as int,
                    old(self).order_engine.inventory as int,
                    r.trade_size as int,
                    mid,
                )
                &&& (r.action == TradeAction::Buy && r.executed) ==> final(self).usd_balance.raw
                    == cash_after_buy(old(self).usd_balance.raw as int, r.trade_size as int, mid)
                    && final(self).btc_balance.raw == base_after_buy(
                    old(self).btc_balance.raw as int,
                    r.trade_size as int,
                ) && final(self).order_engine.inventory == old(self).order_engine.inventory
                    + r.trade_size
                &&& !r.executed ==> final(self).usd_balance == old(self).usd_balance
                    && final(self).btc_balance == old(self).btc_balance
                    && final(self).order_engine.inventory == old(self).order_engine.inventory
                &&& final(self).market_feed == old(self).market_feed
                &&& final(self).initial_usd == old(self).initial_usd
                &&& final(self).initial_btc == old(self).initial_btc
            }),
    {
        let inventory = self.order_engine.inventory();
        let mid = self.market_feed.current_price();
        let tf = time_to_close_factor(now_secs);
        let (action, size, target, threshold) = plan_rebalance(
            inventory,
            self.initial_btc,
            tf,
            sigma,
        );
        let executed: bool = match action {
            TradeAction::Hold => false,
            TradeAction::Sell => self.checked_sell(size, mid),
            TradeAction::Buy => self.checked_buy(size, mid),
        };
        AutoTradeOutcome {
            action,
            trade_size: size,
            target,
            threshold,
            inventory_before: inventory,
            executed,
        }
    }

    /// The current snapshot: optimal quotes at the session open for the
    /// supplied volatility, market prices, balances and realized P&L.
    /// The caller stamps `latency_us`; here it is zero.
    pub fn get_quote(&self, sigma: FixedPoint) -> (r: Quote)
        requires
            self.wf(),
            0 <= sigma.raw <= MAX_SIGMA_RAW,
        ensures
            ({
                let hu = half_skew_raw(
                    DEFAULT_GAMMA_RAW as int,
                    sigma.raw as int,
                    FIXED_SCALE as int,
                );
                let lg = log_premium_raw(DEFAULT_LN_TERM_RAW as int, DEFAULT_GAMMA_RAW as int);
                let mid = self.market_feed.last_price.raw as int;
                let q = self.order_engine.inventory as int;
                &&& r.bid.raw == bid_raw(mid, q, hu, lg)
                &&& r.ask.raw == ask_raw(mid, q, hu, lg)
                &&& r.mid == self.market_feed.last_price
                &&& r.inventory == self.order_engine.inventory
                &&& r.market_bid == self.market_feed.best_bid
                &&& r.market_ask == self.market_feed.best_ask
                &&& r.spread.raw == self.market_feed.best_ask.raw - self.market_feed.best_bid.raw
                &&& r.usd_balance == self.usd_balance
                &&& r.btc_balance == self.btc_balance
                &&& r.pnl.raw == pnl_raw(
                    self.usd_balance.raw as int,
                    self.initial_usd.raw as int,
                    self.btc_balance.raw as int,
                    self.initial_btc.raw as int,
                    mid,
                )
                &&& r.latency_us == 0
            }),
    {
        let mid = self.market_feed.current_price();
        let market_bid = self.market_feed.current_bid();
        let market_ask = self.market_feed.current_ask();
        let inventory = self.order_engine.inventory();
        let (optimal_bid, optimal_ask) = self.fpga_engine.calculate_optimal_quotes(
            mid,
            inventory,
            sigma,
        );
        let d_base: i64 = self.btc_balance.raw - self.initial_btc.raw;
        proof {
            assert(-1_000_000_000_000_000_000_000_000 <= (d_base as int) * (mid.raw as int)
                <= 1_000_000_000_000_000_000_000_000) by (nonlinear_arith)
                requires
                    -1_000_000_000_000 <= d_base <= 1_000_000_000_000,
                    0 <= mid.raw <= 1_000_000_000_000,
            ;
        }
        let prod: i128 = (d_base as i128) * (mid.raw as i128);
        proof {
            lemma_div_trunc_abs_le(prod as int, 1_000_000);
            if prod >= 0 {
                lemma_div_is_ordered(
                    prod as int,
                    1_000_000_000_000_000_000_000_000,
                    1_000_000,
                );
            } else {
                lemma_div_is_ordered(
                    (prod as int) * -1,
                    1_000_000_000_000_000_000_000_000,
                    1_000_000,
                );
            }
        }
        let term128: i128 = match prod.checked_div(1_000_000) {
            Some(v) => v,
            None => 0,
        };
        let term: i64 = term128 as i64;
        let pnl: i64 = (self.usd_balance.raw - self.initial_usd.raw) + term;
        Quote {
            bid: optimal_bid,
            ask: optimal_ask,
            mid,
            inventory,
            market_bid,
            market_ask,
            spread: FixedPoint { raw: market_ask.raw - market_bid.raw },
            usd_balance: self.usd_balance,
            btc_balance: self.btc_balance,
            pnl: FixedPoint { raw: pnl },
            latency_us: 0,
        }
    }
}

} // verus!
