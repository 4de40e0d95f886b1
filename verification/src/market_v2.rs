//! The polled market: each poll reads the 24-hour ticker and the latest three
//! candles of the chosen timeframe. Prices are binary64 patterns (see
//! `binary64`).
use vstd::prelude::*;

use crate::binary64::{is_positive, spec_eq, spec_is_finite, spec_is_positive, ZERO_BITS};
use crate::json::{lemma_present_step, spec_present, JsonScalar};
use crate::market::model::spec_json_number;
use vstd::std_specs::cmp::PartialEqSpecImpl;

verus! {

/// Root of the exchange's REST interface.
pub const API_ROOT: &'static str = "https://data-api.binance.vision/api/v3";

/// Symbol of the market shown.
pub const SYMBOL: &'static str = "SOLUSDT";

/// Number of candles a poll asks for, and needs.
pub const CANDLE_COUNT: usize = 3;

/// Limit on how long a request may take, in milliseconds.
pub const HTTP_TIMEOUT_MS: u64 = 10_000;

/// One OHLC candle; prices are binary64 patterns.
#[derive(Clone, Copy, Debug, Default)]
pub struct Candle {
    pub open_time: i64,
    pub open: u64,
    pub high: u64,
    pub low: u64,
    pub close: u64,
}

/// Two candles are equal when their opening times are and their prices are
/// equal as numbers.
pub open spec fn spec_same_candle(a: Candle, b: Candle) -> bool {
    &&& a.open_time == b.open_time
    &&& spec_eq(a.open, b.open)
    &&& spec_eq(a.high, b.high)
    &&& spec_eq(a.low, b.low)
    &&& spec_eq(a.close, b.close)
}

impl PartialEq for Candle {
    fn eq(&self, other: &Self) -> (r: bool) {
        self.open_time == other.open_time && crate::binary64::equals(self.open, other.open)
            && crate::binary64::equals(self.high, other.high) && crate::binary64::equals(
            self.low,
            other.low,
        ) && crate::binary64::equals(self.close, other.close)
    }
}

impl PartialEqSpecImpl for Candle {
    open spec fn obeys_eq_spec() -> bool {
        true
    }

    open spec fn eq_spec(&self, other: &Self) -> bool {
        spec_same_candle(*self, *other)
    }
}

/// What the applet shows of the market.
#[derive(Clone, Debug, Default)]
pub struct Snapshot {
    pub price: u64,
    pub change_percent: u64,
    pub candles: Vec<Candle>,
}

/// A number read from text, kept only when finite.
pub open spec fn spec_finite(parsed: Option<u64>) -> Option<u64> {
    match parsed {
        Some(n) => if spec_is_finite(n) {
            Some(n)
        } else {
            None
        },
        None => None,
    }
}

/// Keeps a number read from text only when it is finite.
pub fn finite(parsed: Option<u64>) -> (r: Option<u64>)
    ensures
        r == spec_finite(parsed),
{
    crate::binary64::finite_only(parsed)
}

/// The number a JSON value stands for, when it is finite.
pub fn json_number(value: &JsonScalar) -> (r: Option<u64>)
    ensures
        r == spec_json_number(*value),
{
    match value.text_number {
        Some(n) => finite(Some(n)),
        None => crate::binary64::finite_only(value.number),
    }
}

/// The candle of a kline row: opening time and four finite prices in its first
/// five values.
pub open spec fn spec_kline_candle(row: Seq<JsonScalar>) -> Option<Candle> {
    if row.len() < 5 {
        None
    } else {
        match (
            row[0].as_i64,
            spec_json_number(row[1]),
            spec_json_number(row[2]),
            spec_json_number(row[3]),
            spec_json_number(row[4]),
        ) {
            (Some(t), Some(o), Some(h), Some(l), Some(c)) => Some(
                Candle { open_time: t, open: o, high: h, low: l, close: c },
            ),
            _ => None,
        }
    }
}

/// Whether `c` is what kline row `row` says: opening time in its first value,
/// then open, high, low and close, in that order.
pub open spec fn spec_row_says(row: Seq<JsonScalar>, c: Candle) -> bool {
    &&& row.len() >= 5
    &&& row[0].as_i64 == Some(c.open_time)
    &&& spec_json_number(row[1]) == Some(c.open)
    &&& spec_json_number(row[2]) == Some(c.high)
    &&& spec_json_number(row[3]) == Some(c.low)
    &&& spec_json_number(row[4]) == Some(c.close)
}

/// A kline row gives a candle exactly when its first five values are there;
/// the candle takes its opening time, open, high, low and close from those
/// values, in that order.
pub proof fn lemma_row_fields(row: Seq<JsonScalar>)
    ensures
        spec_kline_candle(row) matches Some(c) ==> spec_row_says(row, c),
        forall|c: Candle| #[trigger] spec_row_says(row, c) ==> spec_kline_candle(row) == Some(c),
{
}

/// The candles of the kline rows that describe one, in order.
pub open spec fn spec_klines(rows: Seq<Vec<JsonScalar>>) -> Seq<Candle> {
    spec_present(rows.map_values(|row: Vec<JsonScalar>| spec_kline_candle(row@)))
}

/// Reads one kline row.
pub fn kline_candle(row: &[JsonScalar]) -> (r: Option<Candle>)
    ensures
        r == spec_kline_candle(row@),
        r matches Some(c) ==> spec_row_says(row@, c),
        forall|c: Candle| #[trigger] spec_row_says(row@, c) ==> r == Some(c),
{
    proof {
        lemma_row_fields(row@);
    }
    if row.len() < 5 {
        return None;
    }
    let open_time = match row[0].as_i64 {
        Some(t) => t,
        None => return None,
    };
    let open = match json_number(&row[1]) {
        Some(n) => n,
        None => return None,
    };
    let high = match json_number(&row[2]) {
        Some(n) => n,
        None => return None,
    };
    let low = match json_number(&row[3]) {
        Some(n) => n,
        None => return None,
    };
    let close = match json_number(&row[4]) {
        Some(n) => n,
        None => return None,
    };
    Some(Candle { open_time, open, high, low, close })
}

/// The candles of a kline download, in the order of its rows; rows that do not
/// describe a candle are skipped.
pub fn candles_from_klines(rows: &[Vec<JsonScalar>]) -> (candles: Vec<Candle>)
    ensures
        candles@ == spec_klines(rows@),
{
    let ghost mapped = rows@.map_values(|row: Vec<JsonScalar>| spec_kline_candle(row@));
    let mut candles: Vec<Candle> = Vec::new();
    let n = rows.len();
    let mut i: usize = 0;
    while i < n
        invariant
            n == rows@.len(),
            i <= n,
            mapped == rows@.map_values(|row: Vec<JsonScalar>| spec_kline_candle(row@)),
            candles@ == spec_present(mapped.take(i as int)),
        decreases n - i,
    {
        let c = kline_candle(rows[i].as_slice());
        proof {
            lemma_present_step(mapped, i as int);
        }
        match c {
            Some(c) => candles.push(c),
            None => {},
        }
        i += 1;
    }
    proof {
        assert(mapped.take(n as int) =~= mapped);
    }
    candles
}

/// Whether a poll yields a snapshot: the ticker's last price reads as a finite
/// positive number and exactly `CANDLE_COUNT` candles came.
pub open spec fn spec_poll_succeeds(last_price: Option<u64>, rows: Seq<Vec<JsonScalar>>) -> bool {
    match spec_finite(last_price) {
        Some(p) => spec_is_positive(p) && spec_klines(rows).len() == CANDLE_COUNT,
        None => false,
    }
}

/// The snapshot of one poll, from the ticker's last price and change as read
/// from text and the kline rows: `Some` exactly when `spec_poll_succeeds`; a
/// change that does not read as a finite number counts as zero.
pub fn snapshot_from_poll(
    last_price: Option<u64>,
    change_percent: Option<u64>,
    rows: &[Vec<JsonScalar>],
) -> (r: Option<Snapshot>)
    ensures
        r is Some <==> spec_poll_succeeds(last_price, rows@),
        r matches Some(s) ==> {
            &&& Some(s.price) == spec_finite(last_price)
            &&& s.change_percent == match spec_finite(change_percent) {
                Some(c) => c,
                None => ZERO_BITS,
            }
            &&& s.candles@ == spec_klines(rows@)
        },
{
    let candles = candles_from_klines(rows);
    let price = match finite(last_price) {
        Some(p) => p,
        None => return None,
    };
    let change_percent = match finite(change_percent) {
        Some(c) => c,
        None => 0,
    };
    if is_positive(price) && candles.len() == CANDLE_COUNT {
        Some(Snapshot { price, change_percent, candles })
    } else {
        None
    }
}

} // verus!
