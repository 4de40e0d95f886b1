use ticker::json::JsonScalar;
use ticker::market::model::{json_number, sort_by_open_time, Candle, MarketState, HOUR_MS};

fn candle(open_time: i64, price: f64) -> Candle {
    Candle {
        open_time,
        open: price.to_bits(),
        high: price.to_bits(),
        low: price.to_bits(),
        close: price.to_bits(),
    }
}

fn price(bits: u64) -> f64 {
    f64::from_bits(bits)
}

fn text(value: &str) -> JsonScalar {
    JsonScalar {
        as_i64: None,
        text_number: value.parse::<f64>().ok().map(f64::to_bits),
        number: None,
    }
}

fn integer(value: i64) -> JsonScalar {
    JsonScalar {
        as_i64: Some(value),
        text_number: None,
        number: Some((value as f64).to_bits()),
    }
}

#[test]
fn model_trade_updates_current_hour() {
    let mut state = MarketState::default();
    state.replace_candles(vec![candle(0, 100.0)]);

    state.apply_trade(105.0f64.to_bits(), 1_800_000);

    let snapshot = state.snapshot();
    assert_eq!(snapshot.candles.len(), 1);
    assert_eq!(price(snapshot.candles[0].close), 105.0);
    assert_eq!(price(snapshot.candles[0].high), 105.0);
    assert_eq!(price(snapshot.price), 105.0);
}

#[test]
fn trade_creates_new_hour_and_keeps_three_candles() {
    let mut state = MarketState::default();
    state.replace_candles(vec![
        candle(0, 90.0),
        candle(HOUR_MS, 95.0),
        candle(HOUR_MS * 2, 100.0),
    ]);

    state.apply_trade(110.0f64.to_bits(), HOUR_MS * 3);

    let snapshot = state.snapshot();
    assert_eq!(snapshot.candles.len(), 3);
    assert_eq!(snapshot.candles[0].open_time, HOUR_MS);
    assert_eq!(price(snapshot.candles[2].open), 110.0);
}

#[test]
fn stale_trade_does_not_reorder_candles() {
    let mut state = MarketState::default();
    state.replace_candles(vec![candle(HOUR_MS, 100.0), candle(HOUR_MS * 2, 110.0)]);

    state.apply_trade(80.0f64.to_bits(), 0);

    let snapshot = state.snapshot();
    assert_eq!(snapshot.candles.len(), 2);
    assert_eq!(snapshot.candles[0].open_time, HOUR_MS);
    assert_eq!(price(snapshot.price), 80.0);
}

#[test]
fn model_invalid_trade_is_ignored() {
    let mut state = MarketState::default();
    state.replace_candles(vec![candle(0, 100.0)]);

    state.apply_trade(f64::NAN.to_bits(), HOUR_MS);
    state.apply_trade(0.0f64.to_bits(), HOUR_MS);
    state.apply_trade(120.0f64.to_bits(), -1);

    assert_eq!(state.snapshot().candles, vec![candle(0, 100.0)]);
}

#[test]
fn trade_in_hour_keeps_low_and_raises_high() {
    let mut state = MarketState::default();
    state.replace_candles(vec![candle(0, 100.0)]);
    state.apply_trade(90.0f64.to_bits(), 10);
    state.apply_trade(120.0f64.to_bits(), HOUR_MS - 1);
    let c = state.snapshot().candles[0];
    assert_eq!(price(c.open), 100.0);
    assert_eq!(price(c.high), 120.0);
    assert_eq!(price(c.low), 90.0);
    assert_eq!(price(c.close), 120.0);
}

#[test]
fn replace_candles_sorts_keeps_three_and_seeds_price() {
    let mut state = MarketState::default();
    assert!(!state.has_price());
    state.replace_candles(vec![
        candle(HOUR_MS * 3, 4.0),
        candle(0, 1.0),
        candle(HOUR_MS * 2, 3.0),
        candle(HOUR_MS, 2.0),
    ]);
    let snapshot = state.snapshot();
    let times: Vec<i64> = snapshot.candles.iter().map(|c| c.open_time).collect();
    assert_eq!(times, vec![HOUR_MS, HOUR_MS * 2, HOUR_MS * 3]);
    assert_eq!(price(snapshot.price), 4.0);
    assert!(state.has_price());

    state.replace_candles(vec![candle(0, 7.0)]);
    assert_eq!(price(state.snapshot().price), 4.0);
}

#[test]
fn replace_with_nothing_leaves_zero_price() {
    let mut state = MarketState::default();
    state.replace_candles(Vec::new());
    let snapshot = state.snapshot();
    assert!(snapshot.candles.is_empty());
    assert_eq!(price(snapshot.price), 0.0);
    assert!(!snapshot.connected);
}

#[test]
fn ticker_ignores_non_finite_and_non_positive_values() {
    let mut state = MarketState::default();
    state.apply_ticker(130.25f64.to_bits(), 2.5f64.to_bits());
    state.apply_ticker(f64::INFINITY.to_bits(), f64::NAN.to_bits());
    state.apply_ticker((-1.0f64).to_bits(), (-1.25f64).to_bits());
    let snapshot = state.snapshot();
    assert_eq!(price(snapshot.price), 130.25);
    assert_eq!(price(snapshot.change_percent), -1.25);
    state.set_connected(true);
    assert!(state.snapshot().connected);
}

#[test]
fn kline_row_is_read_and_validated() {
    let row = vec![integer(3_600_000), text("1.5"), text("2.5"), text("1.0"), text("2.0"), text("x")];
    let c = Candle::from_kline_row(&row).expect("valid row");
    assert_eq!(c.open_time, 3_600_000);
    assert_eq!(price(c.high), 2.5);
    assert!(Candle::from_kline_row(&row[..4]).is_none());
    let inverted = vec![integer(0), text("1.5"), text("1.0"), text("2.5"), text("2.0")];
    assert!(Candle::from_kline_row(&inverted).is_none());
    let negative_time = vec![integer(-1), text("1"), text("1"), text("1"), text("1")];
    assert!(Candle::from_kline_row(&negative_time).is_none());
    let nan = vec![integer(0), text("NaN"), text("1"), text("1"), text("1")];
    assert!(Candle::from_kline_row(&nan).is_none());
}

#[test]
fn json_number_prefers_text_and_rejects_non_finite() {
    assert_eq!(json_number(&text("123.45")), Some(123.45f64.to_bits()));
    assert_eq!(json_number(&text("inf")), None);
    assert_eq!(json_number(&text("abc")), None);
    assert_eq!(json_number(&integer(7)), Some(7.0f64.to_bits()));
}

#[test]
fn sorting_keeps_every_candle() {
    let sorted = sort_by_open_time(vec![candle(5, 1.0), candle(1, 2.0), candle(3, 3.0), candle(1, 4.0)]);
    let times: Vec<i64> = sorted.iter().map(|c| c.open_time).collect();
    assert_eq!(times, vec![1, 1, 3, 5]);
    let mut closes: Vec<f64> = sorted.iter().map(|c| price(c.close)).collect();
    closes.sort_by(|a, b| a.partial_cmp(b).unwrap());
    assert_eq!(closes, vec![1.0, 2.0, 3.0, 4.0]);
}

#[test]
fn snapshots_compare_prices_as_numbers() {
    let mut state = MarketState::default();
    state.replace_candles(vec![candle(0, 100.0)]);
    let a = state.snapshot();
    let mut b = a.clone();
    assert_eq!(a, b);
    b.change_percent = (-0.0f64).to_bits();
    assert_eq!(a, b);
    b.candles[0].close = f64::NAN.to_bits();
    assert_ne!(a, b);
    b.candles.clear();
    assert_ne!(a, b);
}
