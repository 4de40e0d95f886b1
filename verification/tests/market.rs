use ticker::json::JsonScalar;
use ticker::market::{
    apply_trade, candles_from_klines, next_backoff_ms, parse_number, snapshot, ticker_values,
    Candle, Feed, MarketEvent, CANDLE_LIMIT, HOUR_MS, INITIAL_BACKOFF_MS, MAX_BACKOFF_MS,
};

fn candle(open_time: i64, price: f64) -> Candle {
    Candle {
        open_time,
        open: price.to_bits(),
        high: price.to_bits(),
        low: price.to_bits(),
        close: price.to_bits(),
    }
}

fn bits(value: f64) -> u64 {
    value.to_bits()
}

fn price(bits: u64) -> f64 {
    f64::from_bits(bits)
}

fn read(text: &str) -> Option<u64> {
    text.parse::<f64>().ok().map(f64::to_bits)
}

fn text(value: &str) -> JsonScalar {
    JsonScalar {
        as_i64: None,
        text_number: read(value),
        number: None,
    }
}

fn integer(value: i64) -> JsonScalar {
    JsonScalar {
        as_i64: Some(value),
        text_number: None,
        number: Some((value as f64).to_bits()),
    }
}

#[test]
fn market_trade_updates_current_hour() {
    let mut candles = vec![candle(0, 100.0)];
    apply_trade(&mut candles, bits(105.0), 1_800_000);

    assert_eq!(candles.len(), 1);
    assert_eq!(price(candles[0].close), 105.0);
    assert_eq!(price(candles[0].high), 105.0);
    assert_eq!(price(candles[0].low), 100.0);
}

#[test]
fn trade_creates_new_hour() {
    let mut candles = vec![candle(0, 100.0)];
    apply_trade(&mut candles, bits(110.0), HOUR_MS);

    assert_eq!(candles.len(), 2);
    assert_eq!(price(candles[1].open), 110.0);
}

#[test]
fn trade_history_is_bounded_to_three_candles() {
    let mut candles = vec![
        candle(0, 100.0),
        candle(HOUR_MS, 101.0),
        candle(HOUR_MS * 2, 102.0),
    ];
    apply_trade(&mut candles, bits(103.0), HOUR_MS * 3);

    assert_eq!(candles.len(), CANDLE_LIMIT);
    assert_eq!(candles[0].open_time, HOUR_MS);
    assert_eq!(candles[2].open_time, HOUR_MS * 3);
}

#[test]
fn market_invalid_trade_is_ignored() {
    let original = vec![candle(0, 100.0)];
    let mut candles = original.clone();

    apply_trade(&mut candles, bits(f64::NAN), HOUR_MS);
    apply_trade(&mut candles, bits(0.0), HOUR_MS);
    apply_trade(&mut candles, bits(100.0), -1);

    assert_eq!(candles, original);
}

#[test]
fn parses_finite_market_numbers_only() {
    assert_eq!(parse_number(read("123.45")), Some(bits(123.45)));
    assert_eq!(parse_number(read("NaN")), None);
    assert_eq!(parse_number(read("inf")), None);
    assert_eq!(parse_number(read("invalid")), None);
}

#[test]
fn older_trade_opens_a_candle_after_the_newest() {
    let mut candles = vec![candle(HOUR_MS, 100.0)];
    apply_trade(&mut candles, bits(90.0), 5);
    assert_eq!(candles.len(), 2);
    assert_eq!(candles[1].open_time, 0);
}

#[test]
fn klines_skip_rows_without_a_positive_candle() {
    let rows = vec![
        vec![integer(0), text("1"), text("2"), text("0.5"), text("1.5")],
        vec![integer(HOUR_MS), text("0"), text("2"), text("0.5"), text("1.5")],
        vec![integer(HOUR_MS * 2), text("1")],
        vec![integer(-HOUR_MS), text("1"), text("2"), text("0.5"), text("1.5")],
        vec![integer(HOUR_MS * 3), text("3"), text("4"), text("2"), text("3.5")],
    ];
    let candles = candles_from_klines(&rows);
    assert_eq!(candles.len(), 2);
    assert_eq!(candles[0].open_time, 0);
    assert_eq!(candles[1].open_time, HOUR_MS * 3);
    assert_eq!(price(candles[1].close), 3.5);
}

#[test]
fn ticker_fields_default_to_zero() {
    assert_eq!(ticker_values(read("130.5"), read("-2")), (bits(130.5), bits(-2.0)));
    assert_eq!(ticker_values(read("NaN"), None), (0, 0));
}

#[test]
fn snapshot_copies_its_values() {
    let candles = vec![candle(0, 1.0), candle(HOUR_MS, 2.0)];
    let s = snapshot(bits(2.0), bits(0.5), &candles);
    assert_eq!(price(s.price), 2.0);
    assert_eq!(price(s.change_percent), 0.5);
    assert_eq!(s.candles, candles);
}

#[test]
fn backoff_doubles_up_to_thirty_seconds() {
    let mut wait = INITIAL_BACKOFF_MS;
    let mut waits = Vec::new();
    for _ in 0..7 {
        waits.push(wait);
        wait = next_backoff_ms(wait);
    }
    assert_eq!(waits, vec![1_000, 2_000, 4_000, 8_000, 16_000, 30_000, 30_000]);
    assert_eq!(next_backoff_ms(MAX_BACKOFF_MS), MAX_BACKOFF_MS);
}

#[test]
fn feed_cycle_follows_the_stream() {
    let mut feed = Feed::new();
    assert!(feed.resync(None, None).is_none());
    let shown = feed
        .resync(Some(vec![candle(0, 100.0)]), Some((0, bits(1.5))))
        .expect("price from the newest candle");
    assert_eq!(price(shown.price), 100.0);
    assert_eq!(price(shown.change_percent), 1.5);

    feed.on_connected();
    assert!(feed.on_event(MarketEvent::Trade { price: read("105"), timestamp: 1_000 }));
    assert!(!feed.on_event(MarketEvent::Trade { price: read("-1"), timestamp: 1_000 }));
    assert!(!feed.on_event(MarketEvent::Other));
    assert!(feed.on_event(MarketEvent::Ticker { price: read("x"), change_percent: read("3") }));
    let s = feed.snapshot();
    assert_eq!(price(s.price), 105.0);
    assert_eq!(price(s.change_percent), 3.0);
    assert_eq!(price(s.candles[0].high), 105.0);

    let (shown, wait) = feed.on_disconnected();
    assert!(shown.is_some());
    assert_eq!(wait, 1_000);
    let (_, wait) = feed.on_disconnected();
    assert_eq!(wait, 2_000);
    feed.on_connected();
    let (_, wait) = feed.on_disconnected();
    assert_eq!(wait, 1_000);
}

#[test]
fn ticker_price_wins_over_candle_close() {
    let mut feed = Feed::new();
    let s = feed
        .resync(Some(vec![candle(0, 100.0)]), Some((bits(101.0), 0)))
        .unwrap();
    assert_eq!(price(s.price), 101.0);
}
