use market_maker_core::fixed_point::FixedPoint;
use market_maker_core::fpga_bridge::{FPGAEngine, QuoteParams, optimal_quotes};
use market_maker_core::order_engine::OrderEngine;

fn fp(raw: i64) -> FixedPoint {
    FixedPoint::from_raw(raw)
}

#[test]
fn fixed_point_basics() {
    assert_eq!(FixedPoint::zero().raw, 0);
    assert!(!FixedPoint::zero().is_positive());
    assert!(fp(1).is_positive());
    assert!(!fp(-1).is_positive());
    assert_eq!(FixedPoint::from_units(3).raw, 3_000_000);
    assert_eq!(fp(1_500_000).add(fp(2_500_000)).raw, 4_000_000);
    assert_eq!(fp(1_500_000).sub(fp(2_500_000)).raw, -1_000_000);
    // 2.5 * 4.0 = 10.0
    assert_eq!(fp(2_500_000).mul(fp(4_000_000)).raw, 10_000_000);
    // 10.0 / 4.0 = 2.5
    assert_eq!(fp(10_000_000).div(fp(4_000_000)).raw, 2_500_000);
    // truncation toward zero on a negative product: -1.0 * 0.0000015
    assert_eq!(fp(-1_000_000).mul(fp(1)).raw, -1);
}

#[test]
fn symmetric_quote_at_zero_inventory() {
    // mid = 100.0, q = 0, sigma = 0.3, default params:
    // half = 0.0045 + 0.645380 = 0.649880
    let engine = FPGAEngine::new();
    let (bid, ask) = engine.calculate_optimal_quotes(fp(100_000_000), 0, fp(300_000));
    assert_eq!(bid.raw, 99_350_120);
    assert_eq!(ask.raw, 100_649_880);
    // symmetric about the mid
    assert_eq!(100_000_000 - bid.raw, ask.raw - 100_000_000);
}

#[test]
fn inventory_skew_pushes_both_quotes_down() {
    // mid = 100.0, q = 5: bid_half = 11 * 0.0045 + 0.645380,
    // ask_half = -9 * 0.0045 + 0.645380
    let engine = FPGAEngine::new();
    let (bid, ask) = engine.calculate_optimal_quotes(fp(100_000_000), 5, fp(300_000));
    assert_eq!(bid.raw, 99_305_120);
    assert_eq!(ask.raw, 100_604_880);
    let (bid0, ask0) = engine.calculate_optimal_quotes(fp(100_000_000), 0, fp(300_000));
    assert!(bid.raw < bid0.raw);
    assert!(ask.raw < ask0.raw);
    // the ask-bid spread does not depend on inventory
    assert_eq!(ask.raw - bid.raw, ask0.raw - bid0.raw);
}

#[test]
fn negative_inventory_pushes_both_quotes_up() {
    let engine = FPGAEngine::new();
    let (bid_m, ask_m) = engine.calculate_optimal_quotes(fp(100_000_000), -3, fp(300_000));
    let (bid0, ask0) = engine.calculate_optimal_quotes(fp(100_000_000), 0, fp(300_000));
    assert!(bid_m.raw > bid0.raw);
    assert!(ask_m.raw > ask0.raw);
}

#[test]
fn quotes_with_session_time() {
    // t = 1 makes tau = 0: the skew term vanishes and only the log
    // premium is left on both sides.
    let params = QuoteParams::default_params();
    let (bid, ask) = optimal_quotes(fp(1_000_000), fp(50_000_000), 7, fp(300_000), &params);
    assert_eq!(50_000_000 - bid.raw, 645_380);
    assert_eq!(ask.raw - 50_000_000, 645_380);
}

#[test]
fn buy_then_balance_check() {
    // cash = 1000, base = 0; a buy of 5 at 100.0 fills, a buy of 10 at
    // 100.0 is rejected without any change.
    let mut engine = OrderEngine::new();
    let mut cash = fp(1_000_000_000);
    let mut base = fp(0);
    assert!(engine.execute_buy(5, fp(100_000_000), &mut cash, &mut base));
    assert_eq!(cash.raw, 500_000_000);
    assert_eq!(base.raw, 5_000_000);
    assert_eq!(engine.inventory(), 5);
    assert!(!engine.execute_buy(10, fp(100_000_000), &mut cash, &mut base));
    assert_eq!(cash.raw, 500_000_000);
    assert_eq!(base.raw, 5_000_000);
    assert_eq!(engine.inventory(), 5);
}

#[test]
fn sell_reject_leaves_state_unchanged() {
    // cash = 0, base = 2; a sell of 3 is rejected.
    let mut engine = OrderEngine::new();
    let mut cash = fp(0);
    let mut base = fp(2_000_000);
    assert!(!engine.execute_sell(3, fp(50_000_000), &mut cash, &mut base));
    assert_eq!(cash.raw, 0);
    assert_eq!(base.raw, 2_000_000);
    assert_eq!(engine.inventory(), 0);
}

#[test]
fn buy_sell_round_trip_restores_balances() {
    let mut engine = OrderEngine::new();
    let mut cash = fp(777_000_123);
    let mut base = fp(4_500_000);
    assert!(engine.execute_buy(3, fp(99_990_001), &mut cash, &mut base));
    assert!(engine.execute_sell(3, fp(99_990_001), &mut cash, &mut base));
    assert_eq!(cash.raw, 777_000_123);
    assert_eq!(base.raw, 4_500_000);
    assert_eq!(engine.inventory(), 0);
}

#[test]
fn inventory_moves_with_base_in_lockstep() {
    let mut engine = OrderEngine::new();
    engine.set_inventory(7);
    let mut cash = fp(1_000_000_000);
    let mut base = fp(10_000_000);
    assert!(engine.execute_sell(4, fp(1_000_000), &mut cash, &mut base));
    assert_eq!(engine.inventory(), 3);
    assert_eq!(base.raw, 6_000_000);
    assert!(engine.execute_buy(2, fp(1_000_000), &mut cash, &mut base));
    assert_eq!(engine.inventory(), 5);
    assert_eq!(base.raw, 8_000_000);
}
