use ticker::icon::{candle_color, direction, first_visible, DOWN_COLOR, UP_COLOR};
use ticker::market::Candle;

fn candle(open: f64, close: f64) -> Candle {
    Candle {
        open_time: 0,
        open: open.to_bits(),
        high: open.max(close).to_bits(),
        low: open.min(close).to_bits(),
        close: close.to_bits(),
    }
}

#[test]
fn direction_matches_change_sign() {
    assert!(direction(0.0f64.to_bits()).contains(UP_COLOR));
    assert!(direction((-0.01f64).to_bits()).contains(DOWN_COLOR));
}

#[test]
fn direction_of_negative_zero_and_nan() {
    assert!(direction((-0.0f64).to_bits()).contains(UP_COLOR));
    assert!(direction(f64::NAN.to_bits()).contains(DOWN_COLOR));
    assert!(direction(2.5f64.to_bits()).starts_with("<svg"));
}

#[test]
fn candle_colour_follows_close_against_open() {
    assert_eq!(candle_color(&candle(1.0, 2.0)), UP_COLOR);
    assert_eq!(candle_color(&candle(2.0, 2.0)), UP_COLOR);
    assert_eq!(candle_color(&candle(2.0, 1.0)), DOWN_COLOR);
}

#[test]
fn icon_draws_the_last_three_candles() {
    assert_eq!(first_visible(0), 0);
    assert_eq!(first_visible(3), 0);
    assert_eq!(first_visible(4), 1);
}
