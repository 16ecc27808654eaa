use market_maker_core::auto_trade::{
    TradeAction, plan_rebalance, time_to_close_factor, vol_scalar,
};
use market_maker_core::fixed_point::FixedPoint;
use market_maker_core::metrics::{LatencyMetrics, LatencyTimer};
use market_maker_core::TradingCore;

fn fp(raw: i64) -> FixedPoint {
    FixedPoint::from_raw(raw)
}

fn core_with_market(cash: i64, base: i64, mid: &str, bid: &str, ask: &str) -> TradingCore {
    let mut core = TradingCore::new(String::from("BTCUSDT"));
    core.set_portfolio(fp(cash), fp(base));
    let ticker = format!("{{\"c\":\"{}\"}}", mid);
    assert!(core.market_feed.apply_ticker_message(&ticker));
    let depth = format!(
        "{{\"bids\":[[\"{}\",\"1\"]],\"asks\":[[\"{}\",\"1\"]]}}",
        bid, ask
    );
    assert!(core.market_feed.apply_depth_message(&depth));
    core
}

#[test]
fn set_portfolio_floors_inventory() {
    let mut core = TradingCore::new(String::from("BTCUSDT"));
    core.set_portfolio(fp(1_000_000_000), fp(2_700_000));
    assert_eq!(core.usd_balance.raw, 1_000_000_000);
    assert_eq!(core.btc_balance.raw, 2_700_000);
    assert_eq!(core.order_engine.inventory(), 2);
}

#[test]
fn simulate_trades_fill_at_market_prices() {
    // cash 1000, base 0; ask 100.5, bid 99.5
    let mut core = core_with_market(1_000_000_000, 0, "100.0", "99.5", "100.5");
    assert!(core.simulate_buy(2));
    // cash 1000 - 2 * 100.5 = 799
    assert_eq!(core.usd_balance.raw, 799_000_000);
    assert_eq!(core.btc_balance.raw, 2_000_000);
    assert_eq!(core.order_engine.inventory(), 2);
    assert!(core.simulate_sell(1));
    // cash 799 + 99.5 = 898.5
    assert_eq!(core.usd_balance.raw, 898_500_000);
    assert_eq!(core.btc_balance.raw, 1_000_000);
    assert_eq!(core.order_engine.inventory(), 1);
    // rejects: not enough cash for 100 units, not enough base for 5
    assert!(!core.simulate_buy(100));
    assert!(!core.simulate_sell(5));
    assert!(!core.simulate_buy(-1));
    assert!(!core.simulate_sell(-3));
    // a zero-size order fills trivially and changes nothing
    assert!(core.simulate_sell(0));
    assert_eq!(core.usd_balance.raw, 898_500_000);
    assert_eq!(core.btc_balance.raw, 1_000_000);
}

#[test]
fn realized_pnl_is_zero_at_unchanged_price() {
    // cash 1000, base 1; buy 1 at mid 100 (ask set to 100 so the fill
    // price equals the mid), then the snapshot P&L is
    // (900 - 1000) + (2 - 1) * 100 = 0.
    let mut core = core_with_market(1_000_000_000, 1_000_000, "100.0", "100.0", "100.0");
    assert!(core.simulate_buy(1));
    let quote = core.get_quote(fp(300_000));
    assert_eq!(quote.usd_balance.raw, 900_000_000);
    assert_eq!(quote.btc_balance.raw, 2_000_000);
    assert_eq!(quote.pnl.raw, 0);
}

#[test]
fn snapshot_carries_market_and_optimal_quotes() {
    let mut core = core_with_market(1_000_000_000, 0, "100.0", "99.5", "100.5");
    core.order_engine.set_inventory(0);
    let quote = core.get_quote(fp(300_000));
    assert_eq!(quote.mid.raw, 100_000_000);
    assert_eq!(quote.market_bid.raw, 99_500_000);
    assert_eq!(quote.market_ask.raw, 100_500_000);
    assert_eq!(quote.spread.raw, 1_000_000);
    assert_eq!(quote.inventory, 0);
    assert_eq!(quote.bid.raw, 99_350_120);
    assert_eq!(quote.ask.raw, 100_649_880);
    assert_eq!(quote.latency_us, 0);
}

#[test]
fn time_factor_fades_in_the_last_quarter() {
    // at the epoch day start: 1.0
    assert_eq!(time_to_close_factor(0).raw, 1_000_000);
    // just before three quarters: still 1.0
    assert_eq!(time_to_close_factor(64_799).raw, 1_000_000);
    // at 90% of the day: (1 - 0.9) * 4 = 0.4
    assert_eq!(time_to_close_factor(77_760).raw, 400_000);
    // the cycle repeats daily
    assert_eq!(time_to_close_factor(86_400).raw, 1_000_000);
}

#[test]
fn vol_scalar_clamps_around_base_volatility() {
    assert_eq!(vol_scalar(fp(300_000)).raw, 1_000_000);
    assert_eq!(vol_scalar(fp(30_000)).raw, 500_000);
    assert_eq!(vol_scalar(fp(3_000_000)).raw, 2_000_000);
}

#[test]
fn plan_holds_inside_threshold_and_sizes_beyond_it() {
    // initial base 10, tf = 1: target = 8; vol scalar 1: threshold = 5
    let (action, size, target, threshold) =
        plan_rebalance(12, fp(10_000_000), fp(1_000_000), fp(300_000));
    assert_eq!(target, 8);
    assert_eq!(threshold, 5);
    assert_eq!(action, TradeAction::Hold);
    assert_eq!(size, 0);
    // deviation 8 > 5: sell ceil(8 * 0.3) = 3
    let (action2, size2, _, _) = plan_rebalance(16, fp(10_000_000), fp(1_000_000), fp(300_000));
    assert_eq!(action2, TradeAction::Sell);
    assert_eq!(size2, 3);
    // deviation -30: buy, size clamped at 5
    let (action3, size3, _, _) = plan_rebalance(-22, fp(10_000_000), fp(1_000_000), fp(300_000));
    assert_eq!(action3, TradeAction::Buy);
    assert_eq!(size3, 5);
}

#[test]
fn auto_trade_no_op_at_target() {
    // inventory equals the target: no trade, no state change
    let mut core = core_with_market(1_000_000_000, 8_000_000, "100.0", "99.5", "100.5");
    core.order_engine.set_inventory(8);
    let out = core.auto_trade(0, fp(300_000));
    // target = floor(8 * 1.0 * 0.8) = 6, deviation 2 within threshold 5
    assert_eq!(out.target, 6);
    assert_eq!(out.threshold, 5);
    assert_eq!(out.action, TradeAction::Hold);
    assert!(!out.executed);
    assert_eq!(core.usd_balance.raw, 1_000_000_000);
    assert_eq!(core.btc_balance.raw, 8_000_000);
    assert_eq!(core.order_engine.inventory(), 8);
}

#[test]
fn auto_trade_sells_excess_inventory_at_mid() {
    let mut core = core_with_market(1_000_000_000, 20_000_000, "100.0", "99.5", "100.5");
    core.order_engine.set_inventory(20);
    let out = core.auto_trade(0, fp(300_000));
    // initial base 20: target = 16, deviation 4 <= threshold 5: hold;
    // bump inventory to force a sell
    assert_eq!(out.action, TradeAction::Hold);
    core.order_engine.set_inventory(24);
    let out2 = core.auto_trade(0, fp(300_000));
    // deviation 8 > 5: sell ceil(8 * 0.3) = 3 at mid 100
    assert_eq!(out2.action, TradeAction::Sell);
    assert_eq!(out2.trade_size, 3);
    assert!(out2.executed);
    assert_eq!(core.usd_balance.raw, 1_300_000_000);
    assert_eq!(core.btc_balance.raw, 17_000_000);
    assert_eq!(core.order_engine.inventory(), 21);
}

#[test]
fn auto_trade_reports_failure_without_retry() {
    // under-inventory forces a buy, but there is no cash: the attempt is
    // reported and nothing changes
    let mut core = core_with_market(0, 20_000_000, "100.0", "99.5", "100.5");
    core.order_engine.set_inventory(2);
    let out = core.auto_trade(0, fp(300_000));
    // target 16, deviation -14: buy ceil(14 * 0.3) = 5
    assert_eq!(out.action, TradeAction::Buy);
    assert_eq!(out.trade_size, 5);
    assert!(!out.executed);
    assert_eq!(core.usd_balance.raw, 0);
    assert_eq!(core.btc_balance.raw, 20_000_000);
    assert_eq!(core.order_engine.inventory(), 2);
}

#[test]
fn latency_metrics_track_sums_and_maxima() {
    let mut metrics = LatencyMetrics::new();
    assert_eq!(metrics.avg_quote_latency_us(), 0);
    assert_eq!(metrics.max_quote_latency_us(), 0);
    metrics.record_quote_latency(10);
    metrics.record_quote_latency(30);
    assert_eq!(metrics.avg_quote_latency_us(), 20);
    assert_eq!(metrics.max_quote_latency_us(), 30);
    metrics.record_order_latency(7);
    assert_eq!(metrics.avg_order_latency_us(), 7);
    assert_eq!(metrics.max_order_latency_us(), 7);
    // the two series stay independent
    assert_eq!(metrics.max_quote_latency_us(), 30);
}

#[test]
fn latency_timer_runs_forward() {
    let timer = LatencyTimer::start();
    let d = timer.elapsed();
    assert!(d.as_nanos() < 10_000_000_000);
}
