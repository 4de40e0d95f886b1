use std::time::{Duration, Instant};
use ticker::market::api::{candles_from_klines, Ticker24h};
use ticker::market::model::{Candle, HOUR_MS};
use ticker::market::stream::{period_elapsed, should_emit, Feed, MarketEvent, UI_PERIOD_MS};
use ticker::json::JsonScalar;

fn candle(open_time: i64, price: f64) -> Candle {
    Candle {
        open_time,
        open: price.to_bits(),
        high: price.to_bits(),
        low: price.to_bits(),
        close: price.to_bits(),
    }
}

fn price(bits: u64) -> f64 {
    f64::from_bits(bits)
}

fn text(value: &str) -> JsonScalar {
    JsonScalar {
        as_i64: None,
        text_number: value.parse::<f64>().ok().map(f64::to_bits),
        number: None,
    }
}

fn integer(value: i64) -> JsonScalar {
    JsonScalar {
        as_i64: Some(value),
        text_number: None,
        number: Some((value as f64).to_bits()),
    }
}

#[test]
fn emission_waits_for_the_ui_period() {
    assert!(!period_elapsed(0));
    assert!(!period_elapsed(UI_PERIOD_MS as u128 - 1));
    assert!(period_elapsed(UI_PERIOD_MS as u128));

    let mut last = Instant::now();
    let before = last;
    assert!(!should_emit(&mut last));
    assert_eq!(last, before);

    let mut old = Instant::now() - Duration::from_millis(250);
    let before = old;
    assert!(should_emit(&mut old));
    assert!(old > before);
}

#[test]
fn feed_tracks_connection_and_backoff() {
    let mut feed = Feed::new();
    assert!(feed.resync(None, None).is_none());

    let shown = feed
        .resync(
            Some(vec![candle(HOUR_MS, 100.0), candle(0, 90.0)]),
            Some(Ticker24h {
                price: 101.0f64.to_bits(),
                change_percent: (-1.25f64).to_bits(),
            }),
        )
        .expect("a price is known");
    assert_eq!(price(shown.price), 101.0);
    assert_eq!(price(shown.change_percent), -1.25);
    assert_eq!(shown.candles[0].open_time, 0);
    assert!(!shown.connected);

    let connected = feed.on_connected();
    assert!(connected.connected);

    assert!(feed.on_event(Some(MarketEvent::Trade {
        price: 123.45f64.to_bits(),
        timestamp: 3_600_000,
    })));
    assert!(feed.on_event(Some(MarketEvent::Ticker24h {
        price: 130.25f64.to_bits(),
        change_percent: 2.5f64.to_bits(),
    })));
    assert!(!feed.on_event(Some(MarketEvent::Other)));
    assert!(!feed.on_event(None));

    let s = feed.snapshot();
    assert_eq!(price(s.price), 130.25);
    assert_eq!(price(s.change_percent), 2.5);
    assert_eq!(price(s.candles[1].close), 123.45);

    let (shown, wait) = feed.on_disconnected();
    assert!(!shown.unwrap().connected);
    assert_eq!(wait, 1_000);
    let (_, wait) = feed.on_disconnected();
    assert_eq!(wait, 2_000);
}

#[test]
fn kline_download_is_ordered_by_open_time() {
    let rows = vec![
        vec![integer(HOUR_MS * 2), text("3"), text("4"), text("2"), text("3.5")],
        vec![integer(0), text("1"), text("2"), text("0.5"), text("1.5")],
        vec![integer(HOUR_MS), text("2"), text("1"), text("3"), text("2")],
    ];
    let candles = candles_from_klines(&rows);
    let times: Vec<i64> = candles.iter().map(|c| c.open_time).collect();
    assert_eq!(times, vec![0, HOUR_MS * 2]);
}
