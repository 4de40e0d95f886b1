//! Choices of the panel icons. The candle geometry itself is drawn by the
//! applet.
use vstd::prelude::*;

use crate::binary64::{less_or_equal, spec_le, ZERO_BITS};
use crate::market::Candle;

verus! {

/// Colour of a rising candle and of a non-negative change.
pub const UP_COLOR: &'static str = "#10B981";

/// Colour of a falling candle and of a negative change.
pub const DOWN_COLOR: &'static str = "#F05252";

/// Colour of the icon shown while no candle is known.
pub const EMPTY_COLOR: &'static str = "#69707D";

/// Number of candles the icon draws.
pub const VISIBLE_CANDLES: usize = 3;

/// The upward arrow.
pub const UP_ARROW_SVG: &'static str = r##"<svg xmlns="http://www.w3.org/2000/svg" viewBox="0 0 64 64"><polygon points="32,7 52,31 40,31 40,57 24,57 24,31 12,31" fill="#10B981"/></svg>"##;

/// The downward arrow.
pub const DOWN_ARROW_SVG: &'static str = r##"<svg xmlns="http://www.w3.org/2000/svg" viewBox="0 0 64 64"><polygon points="24,7 40,7 40,33 52,33 32,57 12,33 24,33" fill="#F05252"/></svg>"##;

/// The icon shown while no candle is known.
pub const EMPTY_ICON_SVG: &'static str = r##"<svg xmlns="http://www.w3.org/2000/svg" viewBox="0 0 64 64"><rect x="8" y="8" width="48" height="48" rx="14" fill="#69707D"/></svg>"##;

/// A candle is drawn in the rising colour when it closes at or above its open.
pub fn candle_color(candle: &Candle) -> (color: &'static str)
    ensures
        color@ == if spec_le(candle.open, candle.close) {
            UP_COLOR@
        } else {
            DOWN_COLOR@
        },
{
    if less_or_equal(candle.open, candle.close) {
        UP_COLOR
    } else {
        DOWN_COLOR
    }
}

/// The first of the candles that the icon draws: the last `VISIBLE_CANDLES`.
pub fn first_visible(count: usize) -> (start: usize)
    ensures
        start == if count > VISIBLE_CANDLES {
            count - VISIBLE_CANDLES
        } else {
            0
        },
{
    if count > VISIBLE_CANDLES {
        count - VISIBLE_CANDLES
    } else {
        0
    }
}

/// The arrow for a 24-hour change: upward when the change is zero or more,
/// downward otherwise (a NaN change points down).
pub fn direction(change_percent: u64) -> (svg: String)
    ensures
        svg@ == if spec_le(ZERO_BITS, change_percent) {
            UP_ARROW_SVG@
        } else {
            DOWN_ARROW_SVG@
        },
{
    if less_or_equal(0, change_percent) {
        UP_ARROW_SVG.to_string()
    } else {
        DOWN_ARROW_SVG.to_string()
    }
}

} // verus!
