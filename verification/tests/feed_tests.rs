use market_maker_core::fixed_point::FixedPoint;
use market_maker_core::market_data::MarketDataFeed;
use market_maker_core::price_parse::parse_price;
use market_maker_core::volatility::realized_volatility_from_returns;

fn fp(raw: i64) -> FixedPoint {
    FixedPoint::from_raw(raw)
}

#[test]
fn parse_plain_decimals() {
    assert_eq!(parse_price(b"0").unwrap().raw, 0);
    assert_eq!(parse_price(b"100.5").unwrap().raw, 100_500_000);
    assert_eq!(parse_price(b"65123.45").unwrap().raw, 65_123_450_000);
    assert_eq!(parse_price(b"0.000001").unwrap().raw, 1);
    assert_eq!(parse_price(b"7").unwrap().raw, 7_000_000);
    // fraction digits beyond the sixth are truncated
    assert_eq!(parse_price(b"1.2345678").unwrap().raw, 1_234_567);
    assert_eq!(parse_price(b"0.00000099").unwrap().raw, 0);
}

#[test]
fn parse_rejects_malformed_bytes() {
    assert!(parse_price(b"").is_none());
    assert!(parse_price(b"abc").is_none());
    assert!(parse_price(b"-1").is_none());
    assert!(parse_price(b"+1").is_none());
    assert!(parse_price(b"1.").is_none());
    assert!(parse_price(b".5").is_none());
    assert!(parse_price(b"1.2.3").is_none());
    assert!(parse_price(b"1e5").is_none());
    assert!(parse_price(b"1 0").is_none());
    // too large for the raw range
    assert!(parse_price(b"99999999999999999999").is_none());
}

#[test]
fn ticker_message_updates_last_price_and_history() {
    let mut feed = MarketDataFeed::new(String::from("BTCUSDT"));
    assert!(feed.apply_ticker_message("{\"e\":\"24hrTicker\",\"c\":\"42.5\",\"o\":\"41.0\"}"));
    assert_eq!(feed.current_price().raw, 42_500_000);
    assert_eq!(feed.history_snapshot(), vec![42_500_000]);
    // best bid and ask are untouched by ticker messages
    assert_eq!(feed.current_bid().raw, 0);
    assert_eq!(feed.current_ask().raw, 0);
}

#[test]
fn ticker_message_without_price_is_dropped() {
    let mut feed = MarketDataFeed::new(String::from("BTCUSDT"));
    assert!(!feed.apply_ticker_message("{\"e\":\"24hrTicker\",\"o\":\"41.0\"}"));
    assert!(!feed.apply_ticker_message("not json"));
    assert!(!feed.apply_ticker_message("{\"c\":\"not a number\"}"));
    assert!(!feed.apply_ticker_message("{\"c\":12.5}"));
    assert_eq!(feed.current_price().raw, 0);
    assert_eq!(feed.history_snapshot().len(), 0);
}

#[test]
fn depth_message_updates_both_sides_together() {
    let mut feed = MarketDataFeed::new(String::from("BTCUSDT"));
    let msg = "{\"bids\":[[\"99.5\",\"1.0\"],[\"99.4\",\"2.0\"]],\"asks\":[[\"100.5\",\"2.0\"]]}";
    assert!(feed.apply_depth_message(msg));
    assert_eq!(feed.current_bid().raw, 99_500_000);
    assert_eq!(feed.current_ask().raw, 100_500_000);
}

#[test]
fn depth_message_with_bad_side_is_dropped_whole() {
    let mut feed = MarketDataFeed::new(String::from("BTCUSDT"));
    assert!(feed.apply_depth_message("{\"bids\":[[\"99.5\",\"1\"]],\"asks\":[[\"100.5\",\"1\"]]}"));
    // ask price does not parse: neither side moves
    assert!(!feed.apply_depth_message("{\"bids\":[[\"98.0\",\"1\"]],\"asks\":[[\"x\",\"1\"]]}"));
    assert_eq!(feed.current_bid().raw, 99_500_000);
    assert_eq!(feed.current_ask().raw, 100_500_000);
    // missing asks: neither side moves
    assert!(!feed.apply_depth_message("{\"bids\":[[\"98.0\",\"1\"]]}"));
    assert_eq!(feed.current_bid().raw, 99_500_000);
    // empty bids array: neither side moves
    assert!(!feed.apply_depth_message("{\"bids\":[],\"asks\":[[\"100.0\",\"1\"]]}"));
    assert_eq!(feed.current_ask().raw, 100_500_000);
}

#[test]
fn price_history_keeps_the_most_recent_thousand() {
    let mut feed = MarketDataFeed::new(String::from("BTCUSDT"));
    for i in 0..1500i64 {
        feed.record_price(fp(1_000_000 + i));
    }
    let history = feed.history_snapshot();
    assert_eq!(history.len(), 1000);
    // eldest evicted first: the survivors are the last 1000, in order
    assert_eq!(history[0], 1_000_500);
    assert_eq!(history[999], 1_001_499);
    for (k, v) in history.iter().enumerate() {
        assert_eq!(*v, 1_000_500 + k as i64);
    }
    assert_eq!(feed.current_price().raw, 1_001_499);
}

#[test]
fn liquidity_factor_clamps() {
    let mut feed = MarketDataFeed::new(String::from("BTCUSDT"));
    // not yet live: 1.0
    assert_eq!(feed.liquidity_factor().raw, 1_000_000);
    // tight spread: 20/spread_bps above 2.0, clamped to 2.0
    assert!(feed.apply_depth_message("{\"bids\":[[\"100.0\",\"1\"]],\"asks\":[[\"100.02\",\"1\"]]}"));
    assert_eq!(feed.liquidity_factor().raw, 2_000_000);
    // wide spread: clamped to 0.5
    assert!(feed.apply_depth_message("{\"bids\":[[\"100.0\",\"1\"]],\"asks\":[[\"120.0\",\"1\"]]}"));
    assert_eq!(feed.liquidity_factor().raw, 500_000);
    // zero spread counts as perfectly liquid
    assert!(feed.apply_depth_message("{\"bids\":[[\"100.0\",\"1\"]],\"asks\":[[\"100.0\",\"1\"]]}"));
    assert_eq!(feed.liquidity_factor().raw, 2_000_000);
    // moderate spread stays inside the clamp: 20 bps gives 1.0
    assert!(feed.apply_depth_message("{\"bids\":[[\"99.9\",\"1\"]],\"asks\":[[\"100.1\",\"1\"]]}"));
    assert_eq!(feed.liquidity_factor().raw, 1_000_000);
}

#[test]
fn volatility_default_and_clamp() {
    // no samples: the default 0.3
    assert_eq!(realized_volatility_from_returns(&vec![]).raw, 300_000);
    // identical prices, zero variance: clamped up to 0.1
    assert_eq!(realized_volatility_from_returns(&vec![0, 0]).raw, 100_000);
    // violent swings: clamped down to 2.0
    assert_eq!(
        realized_volatility_from_returns(&vec![1_000_000, -1_000_000]).raw,
        2_000_000
    );
}

#[test]
fn volatility_exact_value() {
    // returns 0.001 and -0.001: mean 0, variance 1e-6 in fixed point,
    // sigma 0.001, annualized 0.001 * 15.874507 = 0.015874, clamped to 0.1
    let v = realized_volatility_from_returns(&vec![1_000, -1_000]);
    assert_eq!(v.raw, 100_000);
    // returns +-0.02: variance 4e-4, sigma 0.02, annualized 0.3174901
    let v2 = realized_volatility_from_returns(&vec![20_000, -20_000]);
    assert_eq!(v2.raw, 317_490);
}
