//! What the library makes of the exchange's REST answers.
use vstd::prelude::*;

use crate::json::{lemma_present_step, spec_present, JsonScalar};
use crate::market::model::{
    sort_by_open_time, spec_candle_from_row, spec_is_sorting, spec_ordered, Candle,
};

verus! {

/// Candles of the last three hours.
pub const CANDLES_URL: &'static str = "https://data-api.binance.vision/api/v3/klines?symbol=SOLUSDT&interval=1h&limit=3";

/// The 24-hour ticker.
pub const TICKER_URL: &'static str = "https://data-api.binance.vision/api/v3/ticker/24hr?symbol=SOLUSDT";

/// Limit on how long connecting to the exchange may take, in milliseconds.
pub const HTTP_CONNECT_TIMEOUT_MS: u64 = 5_000;

/// Limit on how long a request may take, in milliseconds.
pub const HTTP_REQUEST_TIMEOUT_MS: u64 = 10_000;

/// The rolling 24-hour ticker: last price and change in percent, both finite.
#[derive(Clone, Copy, Debug)]
pub struct Ticker24h {
    pub price: u64,
    pub change_percent: u64,
}

/// The valid candles of a kline download, in the order of its rows.
pub open spec fn spec_valid_candles(rows: Seq<Vec<JsonScalar>>) -> Seq<Candle> {
    spec_present(rows.map_values(|row: Vec<JsonScalar>| spec_candle_from_row(row@)))
}

/// The candles of a kline download: the rows that describe a valid candle,
/// ordered by opening time (rows already in that order keep it).
pub fn candles_from_klines(rows: &[Vec<JsonScalar>]) -> (candles: Vec<Candle>)
    ensures
        spec_is_sorting(candles@, spec_valid_candles(rows@)),
        spec_ordered(spec_valid_candles(rows@)) ==> candles@ == spec_valid_candles(rows@),
{
    let ghost mapped = rows@.map_values(|row: Vec<JsonScalar>| spec_candle_from_row(row@));
    let mut valid: Vec<Candle> = Vec::new();
    let n = rows.len();
    let mut i: usize = 0;
    while i < n
        invariant
            n == rows@.len(),
            i <= n,
            mapped == rows@.map_values(|row: Vec<JsonScalar>| spec_candle_from_row(row@)),
            valid@ == spec_present(mapped.take(i as int)),
        decreases n - i,
    {
        let c = Candle::from_kline_row(rows[i].as_slice());
        proof {
            lemma_present_step(mapped, i as int);
        }
        match c {
            Some(c) => valid.push(c),
            None => {},
        }
        i += 1;
    }
    proof {
        assert(mapped.take(n as int) =~= mapped);
    }
    sort_by_open_time(valid)
}

} // verus!
