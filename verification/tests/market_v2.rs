use ticker::json::JsonScalar;
use ticker::market_v2::{candles_from_klines, finite, json_number, snapshot_from_poll, Candle};

fn read(text: &str) -> Option<u64> {
    text.parse::<f64>().ok().map(f64::to_bits)
}

fn text(value: &str) -> JsonScalar {
    JsonScalar {
        as_i64: None,
        text_number: read(value),
        number: None,
    }
}

fn integer(value: i64) -> JsonScalar {
    JsonScalar {
        as_i64: Some(value),
        text_number: None,
        number: Some((value as f64).to_bits()),
    }
}

fn row(open_time: i64, price: &str) -> Vec<JsonScalar> {
    vec![integer(open_time), text(price), text(price), text(price), text(price)]
}

#[test]
fn rejects_non_finite_numbers() {
    assert_eq!(finite(read("123.45")), Some(123.45f64.to_bits()));
    assert_eq!(finite(read("NaN")), None);
    assert_eq!(finite(read("inf")), None);
}

#[test]
fn poll_needs_positive_price_and_three_candles() {
    let rows = vec![row(0, "1"), row(1, "2"), row(2, "3")];
    let s = snapshot_from_poll(read("3.5"), read("-0.5"), &rows).expect("complete poll");
    assert_eq!(f64::from_bits(s.price), 3.5);
    assert_eq!(f64::from_bits(s.change_percent), -0.5);
    assert_eq!(s.candles.len(), 3);
    assert_eq!(
        s.candles[2],
        Candle {
            open_time: 2,
            open: 3.0f64.to_bits(),
            high: 3.0f64.to_bits(),
            low: 3.0f64.to_bits(),
            close: 3.0f64.to_bits()
        }
    );

    let s = snapshot_from_poll(read("3.5"), read("bad"), &rows).unwrap();
    assert_eq!(s.change_percent, 0);
    assert!(snapshot_from_poll(read("0"), read("1"), &rows).is_none());
    assert!(snapshot_from_poll(read("NaN"), read("1"), &rows).is_none());
    assert!(snapshot_from_poll(read("3.5"), read("1"), &rows[..2]).is_none());
}

#[test]
fn v2_klines_accept_any_finite_prices() {
    let rows = vec![row(0, "-1"), vec![integer(1), text("1")], row(2, "inf")];
    let candles = candles_from_klines(&rows);
    assert_eq!(candles.len(), 1);
    assert_eq!(f64::from_bits(candles[0].low), -1.0);
    assert_eq!(json_number(&integer(4)), Some(4.0f64.to_bits()));
}
