//! The live SOL/USDT market: candles rebuilt from trades, the 24-hour ticker,
//! and the decisions of the reconnecting stream. Prices are binary64 patterns
//! (see `binary64`).
use vstd::prelude::*;

pub mod api;
pub mod model;
pub mod stream;

use crate::binary64::{
    is_finite, is_positive, spec_eq, spec_is_finite, spec_is_nan, spec_le, spec_is_positive,
    spec_is_valid_price, spec_max, spec_min, ZERO_BITS,
};
use crate::json::{lemma_present_step, spec_present, JsonScalar};
use crate::market::model::spec_json_number;
use vstd::std_specs::cmp::PartialEqSpecImpl;

verus! {

/// Least time between two snapshots emitted for stream messages, in milliseconds.
pub const UI_PERIOD_MS: u64 = 100;

/// Limit on how long an HTTP request may take, in milliseconds.
pub const HTTP_TIMEOUT_MS: u64 = 10_000;

/// Limit on how long opening the stream may take, in milliseconds.
pub const WS_CONNECT_TIMEOUT_MS: u64 = 10_000;

/// Wait before the first reconnection, in milliseconds.
pub const INITIAL_BACKOFF_MS: u64 = 1_000;

/// Longest wait between reconnections, in milliseconds.
pub const MAX_BACKOFF_MS: u64 = 30_000;

/// Number of candles kept.
pub const CANDLE_LIMIT: usize = 3;

/// One hour, in milliseconds.
pub const HOUR_MS: i64 = 3_600_000;

/// Candles of the last three hours.
pub const REST_URL: &'static str = "https://data-api.binance.vision/api/v3/klines?symbol=SOLUSDT&interval=1h&limit=3";

/// The 24-hour ticker.
pub const TICKER_URL: &'static str = "https://data-api.binance.vision/api/v3/ticker/24hr?symbol=SOLUSDT";

/// Trades and ticker updates, combined in one stream.
pub const WS_URL: &'static str = "wss://data-stream.binance.vision:443/stream?streams=solusdt@trade/solusdt@ticker";

/// One OHLC candle; prices are binary64 patterns.
#[derive(Clone, Copy, Debug, Default)]
pub struct Candle {
    pub open_time: i64,
    pub open: u64,
    pub high: u64,
    pub low: u64,
    pub close: u64,
}

/// Two candles are equal when their opening times are and their prices are
/// equal as numbers.
pub open spec fn spec_same_candle(a: Candle, b: Candle) -> bool {
    &&& a.open_time == b.open_time
    &&& spec_eq(a.open, b.open)
    &&& spec_eq(a.high, b.high)
    &&& spec_eq(a.low, b.low)
    &&& spec_eq(a.close, b.close)
}

impl PartialEq for Candle {
    fn eq(&self, other: &Self) -> (r: bool) {
        self.open_time == other.open_time && crate::binary64::equals(self.open, other.open)
            && crate::binary64::equals(self.high, other.high) && crate::binary64::equals(
            self.low,
            other.low,
        ) && crate::binary64::equals(self.close, other.close)
    }
}

impl PartialEqSpecImpl for Candle {
    open spec fn obeys_eq_spec() -> bool {
        true
    }

    open spec fn eq_spec(&self, other: &Self) -> bool {
        spec_same_candle(*self, *other)
    }
}

/// What the applet shows of the market.
#[derive(Clone, Debug, Default)]
pub struct Snapshot {
    pub price: u64,
    pub change_percent: u64,
    pub candles: Vec<Candle>,
}

/// A stream message, with its numbers as read from their text (`None` when the
/// text is not a number).
#[derive(Clone, Copy, Debug)]
pub enum MarketEvent {
    Trade { price: Option<u64>, timestamp: i64 },
    Ticker { price: Option<u64>, change_percent: Option<u64> },
    Other,
}

/// A number read from text, kept only when finite.
pub open spec fn spec_parse_number(parsed: Option<u64>) -> Option<u64> {
    match parsed {
        Some(n) => if spec_is_finite(n) {
            Some(n)
        } else {
            None
        },
        None => None,
    }
}

/// Keeps a number read from text only when it is finite.
pub fn parse_number(parsed: Option<u64>) -> (r: Option<u64>)
    ensures
        r == spec_parse_number(parsed),
{
    crate::binary64::finite_only(parsed)
}

/// The number a JSON value stands for, when it is finite.
pub fn number(value: &JsonScalar) -> (r: Option<u64>)
    ensures
        r == spec_json_number(*value),
{
    match value.text_number {
        Some(n) => parse_number(Some(n)),
        None => crate::binary64::finite_only(value.number),
    }
}

/// The candle of a kline row: opening time and four finite prices in its first
/// five values, a non-negative opening time and positive prices.
pub open spec fn spec_kline_candle(row: Seq<JsonScalar>) -> Option<Candle> {
    if row.len() < 5 {
        None
    } else {
        match (
            row[0].as_i64,
            spec_json_number(row[1]),
            spec_json_number(row[2]),
            spec_json_number(row[3]),
            spec_json_number(row[4]),
        ) {
            (Some(t), Some(o), Some(h), Some(l), Some(c)) => {
                if t >= 0 && spec_is_positive(o) && spec_is_positive(h) && spec_is_positive(l)
                    && spec_is_positive(c) {
                    Some(Candle { open_time: t, open: o, high: h, low: l, close: c })
                } else {
                    None
                }
            },
            _ => None,
        }
    }
}

/// Whether `c` is what kline row `row` says: opening time in its first value,
/// then open, high, low and close, in that order.
pub open spec fn spec_row_says(row: Seq<JsonScalar>, c: Candle) -> bool {
    &&& row.len() >= 5
    &&& row[0].as_i64 == Some(c.open_time)
    &&& spec_json_number(row[1]) == Some(c.open)
    &&& spec_json_number(row[2]) == Some(c.high)
    &&& spec_json_number(row[3]) == Some(c.low)
    &&& spec_json_number(row[4]) == Some(c.close)
}

/// A candle the first stream accepts from a kline row: a non-negative opening
/// time and positive prices.
pub open spec fn spec_kline_accepts(c: Candle) -> bool {
    c.open_time >= 0 && spec_is_positive(c.open) && spec_is_positive(c.high)
        && spec_is_positive(c.low) && spec_is_positive(c.close)
}

/// A kline row gives a candle exactly when its first five values are there
/// and make an accepted candle; the candle takes its opening time, open, high,
/// low and close from those values, in that order.
pub proof fn lemma_row_fields(row: Seq<JsonScalar>)
    ensures
        spec_kline_candle(row) matches Some(c) ==> spec_row_says(row, c) && spec_kline_accepts(c),
        forall|c: Candle|
            #[trigger] spec_row_says(row, c) && spec_kline_accepts(c) ==> spec_kline_candle(row)
                == Some(c),
{
}

/// The candles of the kline rows that describe one, in order.
pub open spec fn spec_klines(rows: Seq<Vec<JsonScalar>>) -> Seq<Candle> {
    spec_present(rows.map_values(|row: Vec<JsonScalar>| spec_kline_candle(row@)))
}

/// Reads one kline row.
pub fn kline_candle(row: &[JsonScalar]) -> (r: Option<Candle>)
    ensures
        r == spec_kline_candle(row@),
        r matches Some(c) ==> spec_row_says(row@, c) && spec_kline_accepts(c),
        forall|c: Candle| #[trigger] spec_row_says(row@, c) && spec_kline_accepts(c) ==> r == Some(c),
{
    proof {
        lemma_row_fields(row@);
    }
    if row.len() < 5 {
        return None;
    }
    let open_time = match row[0].as_i64 {
        Some(t) => t,
        None => return None,
    };
    let open = match number(&row[1]) {
        Some(n) => n,
        None => return None,
    };
    let high = match number(&row[2]) {
        Some(n) => n,
        None => return None,
    };
    let low = match number(&row[3]) {
        Some(n) => n,
        None => return None,
    };
    let close = match number(&row[4]) {
        Some(n) => n,
        None => return None,
    };
    if open_time >= 0 && is_positive(open) && is_positive(high) && is_positive(low) && is_positive(
        close,
    ) {
        Some(Candle { open_time, open, high, low, close })
    } else {
        None
    }
}

/// The candles of a kline download, in the order of its rows; rows that do not
/// describe a candle are skipped.
pub fn candles_from_klines(rows: &[Vec<JsonScalar>]) -> (candles: Vec<Candle>)
    ensures
        candles@ == spec_klines(rows@),
{
    let ghost mapped = rows@.map_values(|row: Vec<JsonScalar>| spec_kline_candle(row@));
    let mut candles: Vec<Candle> = Vec::new();
    let n = rows.len();
    let mut i: usize = 0;
    while i < n
        invariant
            n == rows@.len(),
            i <= n,
            mapped == rows@.map_values(|row: Vec<JsonScalar>| spec_kline_candle(row@)),
            candles@ == spec_present(mapped.take(i as int)),
        decreases n - i,
    {
        let c = kline_candle(rows[i].as_slice());
        proof {
            lemma_present_step(mapped, i as int);
        }
        match c {
            Some(c) => candles.push(c),
            None => {},
        }
        i += 1;
    }
    proof {
        assert(mapped.take(n as int) =~= mapped);
    }
    candles
}

/// The price and change of a 24-hour ticker, given its two fields as read from
/// text; a field that is missing or not finite counts as zero.
pub fn ticker_values(price: Option<u64>, change_percent: Option<u64>) -> (r: (u64, u64))
    ensures
        r.0 == match spec_parse_number(price) {
            Some(p) => p,
            None => ZERO_BITS,
        },
        r.1 == match spec_parse_number(change_percent) {
            Some(c) => c,
            None => ZERO_BITS,
        },
{
    let p = match parse_number(price) {
        Some(p) => p,
        None => 0,
    };
    let c = match parse_number(change_percent) {
        Some(c) => c,
        None => 0,
    };
    (p, c)
}

/// The first moment of the hour that holds `timestamp` (non-negative).
pub open spec fn spec_hour_bucket(timestamp: int) -> int {
    timestamp - timestamp % (HOUR_MS as int)
}

/// The candle after a trade at `price` inside its hour.
pub open spec fn spec_priced(c: Candle, price: u64) -> Candle {
    Candle { high: spec_max(c.high, price), low: spec_min(c.low, price), close: price, ..c }
}

/// `after` is candle `c` after a trade at `price` in its hour: same opening
/// time and open, closed at `price`; its high is the old high or the price and
/// no lower than either (NaN aside), and its low is the old low or the price
/// and no higher than either.
pub open spec fn spec_extends(c: Candle, price: u64, after: Candle) -> bool {
    &&& after.open_time == c.open_time
    &&& after.open == c.open
    &&& after.close == price
    &&& (after.high == c.high || after.high == price)
    &&& (!spec_is_nan(c.high) ==> spec_le(c.high, after.high))
    &&& (!spec_is_nan(price) ==> spec_le(price, after.high))
    &&& (after.low == c.low || after.low == price)
    &&& (!spec_is_nan(c.low) ==> spec_le(after.low, c.low))
    &&& (!spec_is_nan(price) ==> spec_le(after.low, price))
}

/// A trade inside a candle's hour keeps its opening time and open, closes it
/// at the trade's price, and moves its high up to the price (or keeps it) and
/// its low down to the price (or keeps it).
pub proof fn lemma_priced_extends(c: Candle, price: u64)
    ensures
        spec_extends(c, price, spec_priced(c, price)),
{
    crate::binary64::lemma_max_min_choose_extreme(c.high, price);
    crate::binary64::lemma_max_min_choose_extreme(c.low, price);
}

/// A trade in the hour of the newest candle extends it and changes nothing
/// else; any other trade adds a candle for its hour whose open, high, low and
/// close are the trade's price, after the candles held before (the oldest
/// dropped beyond `CANDLE_LIMIT`).
pub proof fn lemma_trade_effect(s: Seq<Candle>, price: u64, timestamp: int)
    requires
        0 <= timestamp <= i64::MAX,
    ensures
        ({
            let t = spec_traded(s, price, timestamp);
            let bucket = spec_hour_bucket(timestamp);
            if s.len() > 0 && s.last().open_time == bucket {
                &&& t.len() == s.len()
                &&& spec_extends(s.last(), price, t.last())
                &&& forall|j: int| 0 <= j < s.len() - 1 ==> #[trigger] t[j] == s[j]
            } else {
                &&& t.len() > 0
                &&& t.last().open_time == bucket
                &&& t.last().open == price && t.last().high == price
                &&& t.last().low == price && t.last().close == price
                &&& t.drop_last() == (if s.len() >= CANDLE_LIMIT {
                    s.subrange(s.len() - (CANDLE_LIMIT - 1), s.len() as int)
                } else {
                    s
                })
            }
        }),
{
    let t = spec_traded(s, price, timestamp);
    let bucket = spec_hour_bucket(timestamp);
    if s.len() > 0 && s.last().open_time == bucket {
        lemma_priced_extends(s.last(), price);
    } else {
        if s.len() >= CANDLE_LIMIT {
            assert(t.drop_last() =~= s.subrange(s.len() - (CANDLE_LIMIT - 1), s.len() as int));
        } else {
            assert(t.drop_last() =~= s);
        }
    }
}

/// The last `CANDLE_LIMIT` candles.
pub open spec fn spec_latest(s: Seq<Candle>) -> Seq<Candle> {
    if s.len() > CANDLE_LIMIT {
        s.subrange(s.len() - CANDLE_LIMIT, s.len() as int)
    } else {
        s
    }
}

/// The candles after a valid trade: the newest candle takes the price when the
/// trade falls in its hour; otherwise a candle opens for the trade's hour and
/// only the newest `CANDLE_LIMIT` are kept.
pub open spec fn spec_traded(s: Seq<Candle>, price: u64, timestamp: int) -> Seq<Candle> {
    let bucket = spec_hour_bucket(timestamp);
    if s.len() > 0 && s.last().open_time == bucket {
        s.update(s.len() - 1, spec_priced(s.last(), price))
    } else {
        spec_latest(
            s.push(
                Candle {
                    open_time: bucket as i64,
                    open: price,
                    high: price,
                    low: price,
                    close: price,
                },
            ),
        )
    }
}

/// After a valid trade the newest candle is the one of the trade's hour: it
/// closes at the trade's price and its low and high bracket it; and no more
/// than `CANDLE_LIMIT` candles remain when there were no more before.
pub proof fn lemma_trade_in_newest_candle(s: Seq<Candle>, price: u64, timestamp: int)
    requires
        spec_is_valid_price(price),
        0 <= timestamp <= i64::MAX,
    ensures
        ({
            let t = spec_traded(s, price, timestamp);
            &&& t.len() > 0
            &&& s.len() <= CANDLE_LIMIT ==> t.len() <= CANDLE_LIMIT
            &&& t.last().open_time == spec_hour_bucket(timestamp)
            &&& t.last().close == price
            &&& spec_le(t.last().low, price)
            &&& spec_le(price, t.last().high)
        }),
{
    let bucket = spec_hour_bucket(timestamp);
    if s.len() > 0 && s.last().open_time == bucket {
        crate::binary64::lemma_extremes_bracket_price(s.last().high, price);
        crate::binary64::lemma_extremes_bracket_price(s.last().low, price);
    }
}

/// Applies a trade to the candles. A trade whose price is not finite and
/// positive, or whose timestamp is negative, changes nothing.
pub fn apply_trade(candles: &mut Vec<Candle>, price: u64, timestamp: i64)
    ensures
        !spec_is_valid_price(price) || timestamp < 0 ==> final(candles)@ == old(candles)@,
        spec_is_valid_price(price) && timestamp >= 0 ==> final(candles)@ == spec_traded(
            old(candles)@,
            price,
            timestamp as int,
        ),
        spec_is_valid_price(price) && timestamp >= 0 && old(candles)@.len() > 0 && old(candles)@.last().open_time == spec_hour_bucket(timestamp as int) ==> final(candles)@.len() == old(candles)@.len() && spec_extends(old(candles)@.last(), price, final(candles)@.last()),
        spec_is_valid_price(price) && timestamp >= 0 && !(old(candles)@.len() > 0 && old(candles)@.last().open_time == spec_hour_bucket(timestamp as int)) ==> final(candles)@.len() > 0
            && final(candles)@.last().open_time == spec_hour_bucket(timestamp as int) && final(candles)@.last().open == price && final(candles)@.last().high == price && final(candles)@.last().low == price && final(candles)@.last().close == price,
{
    proof {
        if timestamp >= 0 {
            lemma_trade_effect(candles@, price, timestamp as int);
        }
    }
    if !is_finite(price) || !is_positive(price) || timestamp < 0 {
        return;
    }
    let bucket = timestamp - timestamp % HOUR_MS;
    let n = candles.len();
    if n > 0 && candles[n - 1].open_time == bucket {
        let mut last = candles[n - 1];
        last.high = crate::binary64::maximum(last.high, price);
        last.low = crate::binary64::minimum(last.low, price);
        last.close = price;
        candles.set(n - 1, last);
        return;
    }
    candles.push(Candle { open_time: bucket, open: price, high: price, low: price, close: price });
    if candles.len() > CANDLE_LIMIT {
        let start = candles.len() - CANDLE_LIMIT;
        let kept = candles.split_off(start);
        *candles = kept;
    }
}

/// A snapshot of the given values.
pub fn snapshot(price: u64, change_percent: u64, candles: &[Candle]) -> (s: Snapshot)
    ensures
        s.price == price,
        s.change_percent == change_percent,
        s.candles@ == candles@,
{
    let mut copied: Vec<Candle> = Vec::new();
    let n = candles.len();
    let mut i: usize = 0;
    while i < n
        invariant
            n == candles@.len(),
            i <= n,
            copied@ == candles@.take(i as int),
        decreases n - i,
    {
        copied.push(candles[i]);
        i += 1;
        proof {
            assert(copied@ =~= candles@.take(i as int));
        }
    }
    proof {
        assert(candles@.take(n as int) =~= candles@);
    }
    Snapshot { price, change_percent, candles: copied }
}

/// The wait after `backoff_ms`: twice as long, up to `MAX_BACKOFF_MS`.
pub open spec fn spec_next_backoff(backoff_ms: u64) -> u64 {
    if backoff_ms * 2 > MAX_BACKOFF_MS {
        MAX_BACKOFF_MS
    } else {
        (backoff_ms * 2) as u64
    }
}

/// The wait after `backoff_ms`: twice as long, up to `MAX_BACKOFF_MS`.
pub fn next_backoff_ms(backoff_ms: u64) -> (next: u64)
    ensures
        next == spec_next_backoff(backoff_ms),
{
    if backoff_ms > MAX_BACKOFF_MS / 2 {
        MAX_BACKOFF_MS
    } else {
        backoff_ms * 2
    }
}

/// Every wait lies between the first one and the longest one, and waits never
/// shrink.
pub proof fn lemma_backoff_bounded(backoff_ms: u64)
    requires
        INITIAL_BACKOFF_MS <= backoff_ms <= MAX_BACKOFF_MS,
    ensures
        INITIAL_BACKOFF_MS <= spec_next_backoff(backoff_ms) <= MAX_BACKOFF_MS,
        backoff_ms <= spec_next_backoff(backoff_ms),
{
}

/// The first wait doubled `k` times, without a cap.
pub open spec fn spec_doubled(k: nat) -> nat
    decreases k,
{
    if k == 0 {
        INITIAL_BACKOFF_MS as nat
    } else {
        2 * spec_doubled((k - 1) as nat)
    }
}

/// `value`, capped at the longest wait.
pub open spec fn spec_capped(value: nat) -> nat {
    if value > MAX_BACKOFF_MS {
        MAX_BACKOFF_MS as nat
    } else {
        value
    }
}

/// The wait before the first cycle's reconnection, and the state the stream's
/// cycles leave behind: `connected[c]` tells whether cycle `c` opened the
/// stream. A cycle that connects starts the waits over (`on_connected`); every
/// cycle then sleeps the current wait and doubles it up to the longest
/// (`on_disconnected`).
pub open spec fn spec_backoff_after(connected: Seq<bool>) -> u64
    decreases connected.len(),
{
    if connected.len() == 0 {
        INITIAL_BACKOFF_MS
    } else {
        spec_next_backoff(spec_cycle_wait(connected))
    }
}

/// How long the last of the cycles `connected` sleeps.
pub open spec fn spec_cycle_wait(connected: Seq<bool>) -> u64
    recommends
        connected.len() > 0,
    decreases connected.len(), 0nat,
{
    if connected.len() == 0 || connected.last() {
        INITIAL_BACKOFF_MS
    } else {
        spec_backoff_after(connected.drop_last())
    }
}

/// The number of cycles that came after the last one that connected (the first
/// cycle counting as a start when none did), up to the last cycle.
pub open spec fn spec_cycles_since_start(connected: Seq<bool>) -> nat
    decreases connected.len(),
{
    if connected.len() <= 1 || connected.last() {
        0
    } else {
        spec_cycles_since_start(connected.drop_last()) + 1
    }
}

/// One more cycle: it sleeps the first wait if it connected (`on_connected`),
/// else the wait the earlier cycles left; what it leaves is that wait doubled,
/// up to the longest (`on_disconnected`). So a `Feed` that starts at
/// `INITIAL_BACKOFF_MS` (`Feed::new`) holds `spec_backoff_after` of its cycles,
/// and each cycle's wait is `spec_cycle_wait`.
pub proof fn lemma_cycle_step(connected: Seq<bool>, this_cycle: bool)
    ensures
        spec_cycle_wait(connected.push(this_cycle)) == if this_cycle {
            INITIAL_BACKOFF_MS
        } else {
            spec_backoff_after(connected)
        },
        spec_backoff_after(connected.push(this_cycle)) == spec_next_backoff(
            spec_cycle_wait(connected.push(this_cycle)),
        ),
{
    assert(connected.push(this_cycle).drop_last() =~= connected);
}

/// The waits between cycles go 1 s, 2 s, 4 s, 8 s, 16 s, then 30 s each, and
/// start over at 1 s with every cycle that connects: the last of the cycles
/// `connected` sleeps min(1 s * 2^k, 30 s), where k counts the cycles since the
/// last one that connected (or since the first), and the next wait is
/// min(1 s * 2^(k+1), 30 s).
pub proof fn lemma_backoff_sequence(connected: Seq<bool>)
    requires
        connected.len() > 0,
    ensures
        spec_cycle_wait(connected) == spec_capped(
            spec_doubled(spec_cycles_since_start(connected)),
        ),
        spec_backoff_after(connected) == spec_capped(
            spec_doubled(spec_cycles_since_start(connected) + 1),
        ),
    decreases connected.len(),
{
    let k = spec_cycles_since_start(connected);
    if connected.len() == 1 || connected.last() {
        assert(k == 0);
        if connected.len() == 1 && !connected.last() {
            assert(connected.drop_last().len() == 0);
        }
    } else {
        lemma_backoff_sequence(connected.drop_last());
    }
    assert(spec_doubled(k + 1) == 2 * spec_doubled(k));
}

/// The state of the reconnecting stream between messages.
pub struct Feed {
    pub price: u64,
    pub change_percent: u64,
    pub candles: Vec<Candle>,
    pub backoff_ms: u64,
}

/// The price a cycle starts with: the ticker's price when positive, else the
/// close of the newest candle, else zero.
pub open spec fn spec_initial_price(ticker_price: u64, candles: Seq<Candle>) -> u64 {
    if spec_is_positive(ticker_price) {
        ticker_price
    } else if candles.len() > 0 {
        candles.last().close
    } else {
        ZERO_BITS
    }
}

impl Feed {
    pub fn new() -> (f: Feed)
        ensures
            f.price == ZERO_BITS,
            f.change_percent == ZERO_BITS,
            f.candles@ == Seq::<Candle>::empty(),
            f.backoff_ms == INITIAL_BACKOFF_MS,
    {
        Feed { price: 0, change_percent: 0, candles: Vec::new(), backoff_ms: INITIAL_BACKOFF_MS }
    }

    /// Starts a connection cycle from the downloaded candles and ticker values
    /// (`None` where a download failed); returns the snapshot to show, if the
    /// price is positive.
    pub fn resync(&mut self, candles: Option<Vec<Candle>>, ticker: Option<(u64, u64)>) -> (s:
        Option<Snapshot>)
        ensures
            final(self).candles@ == match candles {
                Some(c) => c@,
                None => Seq::empty(),
            },
            final(self).price == spec_initial_price(
                match ticker {
                    Some(t) => t.0,
                    None => ZERO_BITS,
                },
                final(self).candles@,
            ),
            final(self).change_percent == match ticker {
                Some(t) => t.1,
                None => ZERO_BITS,
            },
            final(self).backoff_ms == old(self).backoff_ms,
            !spec_is_positive(match ticker {
                Some(t) => t.0,
                None => ZERO_BITS,
            }) && final(self).candles@.len() > 0 ==> final(self).price
                == final(self).candles@.last().close,
            s is Some <==> spec_is_positive(final(self).price),
            s matches Some(snap) ==> snap.price == final(self).price && snap.change_percent
                == final(self).change_percent && snap.candles@ == final(self).candles@,
    {
        let candles = match candles {
            Some(c) => c,
            None => Vec::new(),
        };
        let (ticker_price, change_percent) = match ticker {
            Some(t) => t,
            None => (0, 0),
        };
        let n = candles.len();
        let price = if is_positive(ticker_price) {
            ticker_price
        } else if n > 0 {
            candles[n - 1].close
        } else {
            0
        };
        self.price = price;
        self.change_percent = change_percent;
        self.candles = candles;
        if is_positive(self.price) {
            Some(snapshot(self.price, self.change_percent, self.candles.as_slice()))
        } else {
            None
        }
    }

    /// The stream is open: the next wait starts over.
    pub fn on_connected(&mut self)
        ensures
            final(self).backoff_ms == INITIAL_BACKOFF_MS,
            final(self).price == old(self).price,
            final(self).change_percent == old(self).change_percent,
            final(self).candles@ == old(self).candles@,
    {
        self.backoff_ms = INITIAL_BACKOFF_MS;
    }

    /// Takes a stream message; returns whether it changed the market, in which
    /// case a snapshot is due once `UI_PERIOD_MS` have passed since the last one.
    pub fn on_event(&mut self, event: MarketEvent) -> (applied: bool)
        ensures
            final(self).backoff_ms == old(self).backoff_ms,
            match event {
                MarketEvent::Trade { price, timestamp } => match spec_parse_number(price) {
                    Some(p) => if spec_is_positive(p) {
                        &&& applied
                        &&& final(self).price == p
                        &&& final(self).change_percent == old(self).change_percent
                        &&& (if timestamp >= 0 {
                            final(self).candles@ == spec_traded(
                                old(self).candles@,
                                p,
                                timestamp as int,
                            )
                        } else {
                            final(self).candles@ == old(self).candles@
                        })
                    } else {
                        !applied && final(self).price == old(self).price
                            && final(self).change_percent == old(self).change_percent
                            && final(self).candles@ == old(self).candles@
                    },
                    None => !applied && final(self).price == old(self).price
                        && final(self).change_percent == old(self).change_percent
                        && final(self).candles@ == old(self).candles@,
                },
                MarketEvent::Ticker { price, change_percent } => {
                    &&& applied
                    &&& final(self).price == match spec_parse_number(price) {
                        Some(p) => if spec_is_positive(p) {
                            p
                        } else {
                            old(self).price
                        },
                        None => old(self).price,
                    }
                    &&& final(self).change_percent == match spec_parse_number(change_percent) {
                        Some(c) => c,
                        None => old(self).change_percent,
                    }
                    &&& final(self).candles@ == old(self).candles@
                },
                MarketEvent::Other => !applied && final(self).price == old(self).price
                    && final(self).change_percent == old(self).change_percent
                    && final(self).candles@ == old(self).candles@,
            },
    {
        match event {
            MarketEvent::Trade { price, timestamp } => {
                let next = match parse_number(price) {
                    Some(p) => p,
                    None => return false,
                };
                if !is_positive(next) {
                    return false;
                }
                self.price = next;
                apply_trade(&mut self.candles, next, timestamp);
                true
            },
            MarketEvent::Ticker { price, change_percent } => {
                match parse_number(price) {
                    Some(p) => if is_positive(p) {
                        self.price = p;
                    },
                    None => {},
                }
                match parse_number(change_percent) {
                    Some(c) => {
                        self.change_percent = c;
                    },
                    None => {},
                }
                true
            },
            MarketEvent::Other => false,
        }
    }

    pub fn snapshot(&self) -> (s: Snapshot)
        ensures
            s.price == self.price,
            s.change_percent == self.change_percent,
            s.candles@ == self.candles@,
    {
        snapshot(self.price, self.change_percent, self.candles.as_slice())
    }

    /// The stream ended: returns the snapshot to show, if the price is positive,
    /// and the wait before reconnecting; the next wait doubles, up to
    /// `MAX_BACKOFF_MS`.
    pub fn on_disconnected(&mut self) -> (r: (Option<Snapshot>, u64))
        ensures
            r.1 == old(self).backoff_ms,
            final(self).backoff_ms == spec_next_backoff(old(self).backoff_ms),
            final(self).price == old(self).price,
            final(self).change_percent == old(self).change_percent,
            final(self).candles@ == old(self).candles@,
            r.0 is Some <==> spec_is_positive(old(self).price),
            r.0 matches Some(snap) ==> snap.price == old(self).price && snap.change_percent
                == old(self).change_percent && snap.candles@ == old(self).candles@,
    {
        let shown = if is_positive(self.price) {
            Some(self.snapshot())
        } else {
            None
        };
        let wait = self.backoff_ms;
        self.backoff_ms = next_backoff_ms(self.backoff_ms);
        (shown, wait)
    }
}

} // verus!
