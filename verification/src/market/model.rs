//! The market state kept between exchange messages: the last price, the
//! rolling 24-hour change and a window of at most three one-hour candles,
//! ordered by opening time.
use vstd::prelude::*;

use crate::binary64::{
    is_finite, is_valid_price, spec_eq, spec_is_finite, spec_is_nan, spec_is_positive,
    spec_is_valid_price, spec_le, spec_max, spec_min, ZERO_BITS,
};
use crate::json::{spec_number_of, JsonScalar};
use vstd::std_specs::cmp::PartialEqSpecImpl;

verus! {

broadcast use vstd::seq_lib::group_to_multiset_ensures;

/// One hour, in milliseconds.
pub const HOUR_MS: i64 = 3_600_000;

/// Number of candles the state keeps.
pub const MAX_CANDLES: usize = 3;

/// One OHLC candle; prices are binary64 patterns.
#[derive(Clone, Copy, Debug, Default)]
pub struct Candle {
    pub open_time: i64,
    pub open: u64,
    pub high: u64,
    pub low: u64,
    pub close: u64,
}

/// Two candles are equal when their opening times are and their prices are
/// equal as numbers.
pub open spec fn spec_same_candle(a: Candle, b: Candle) -> bool {
    &&& a.open_time == b.open_time
    &&& spec_eq(a.open, b.open)
    &&& spec_eq(a.high, b.high)
    &&& spec_eq(a.low, b.low)
    &&& spec_eq(a.close, b.close)
}

impl PartialEq for Candle {
    fn eq(&self, other: &Self) -> (r: bool) {
        self.open_time == other.open_time && crate::binary64::equals(self.open, other.open)
            && crate::binary64::equals(self.high, other.high) && crate::binary64::equals(
            self.low,
            other.low,
        ) && crate::binary64::equals(self.close, other.close)
    }
}

impl PartialEqSpecImpl for Candle {
    open spec fn obeys_eq_spec() -> bool {
        true
    }

    open spec fn eq_spec(&self, other: &Self) -> bool {
        spec_same_candle(*self, *other)
    }
}

/// The number a JSON value of an exchange row stands for, when it is finite.
pub open spec fn spec_json_number(value: JsonScalar) -> Option<u64> {
    match spec_number_of(value) {
        Some(n) => if spec_is_finite(n) {
            Some(n)
        } else {
            None
        },
        None => None,
    }
}

/// A candle the market accepts: a non-negative opening time, finite positive
/// prices and a high not below the low.
pub open spec fn spec_is_valid_candle(c: Candle) -> bool {
    &&& c.open_time >= 0
    &&& spec_is_finite(c.open) && spec_is_finite(c.high)
    &&& spec_is_finite(c.low) && spec_is_finite(c.close)
    &&& spec_is_positive(c.open) && spec_is_positive(c.high)
    &&& spec_is_positive(c.low) && spec_is_positive(c.close)
    &&& spec_le(c.low, c.high)
}

/// The candle that an exchange kline row describes: opening time, open, high,
/// low and close in its first five values; `None` for a short row, a missing
/// value or an invalid candle.
pub open spec fn spec_candle_from_row(row: Seq<JsonScalar>) -> Option<Candle> {
    if row.len() < 5 {
        None
    } else {
        match (
            row[0].as_i64,
            spec_json_number(row[1]),
            spec_json_number(row[2]),
            spec_json_number(row[3]),
            spec_json_number(row[4]),
        ) {
            (Some(t), Some(o), Some(h), Some(l), Some(c)) => {
                let candle = Candle { open_time: t, open: o, high: h, low: l, close: c };
                if spec_is_valid_candle(candle) {
                    Some(candle)
                } else {
                    None
                }
            },
            _ => None,
        }
    }
}

/// Whether `c` is what kline row `row` says: opening time in its first value,
/// then open, high, low and close, in that order.
pub open spec fn spec_row_says(row: Seq<JsonScalar>, c: Candle) -> bool {
    &&& row.len() >= 5
    &&& row[0].as_i64 == Some(c.open_time)
    &&& spec_json_number(row[1]) == Some(c.open)
    &&& spec_json_number(row[2]) == Some(c.high)
    &&& spec_json_number(row[3]) == Some(c.low)
    &&& spec_json_number(row[4]) == Some(c.close)
}

/// A kline row gives a candle exactly when its first five values are there and
/// they make a valid candle; the candle takes its opening time, open, high, low
/// and close from those values, in that order.
pub proof fn lemma_row_fields(row: Seq<JsonScalar>)
    ensures
        spec_candle_from_row(row) matches Some(c) ==> spec_row_says(row, c) && spec_is_valid_candle(
            c,
        ),
        forall|c: Candle|
            #[trigger] spec_row_says(row, c) && spec_is_valid_candle(c) ==> spec_candle_from_row(row)
                == Some(c),
{
}

/// The candle after a trade at `price` inside its hour.
pub open spec fn spec_priced(c: Candle, price: u64) -> Candle {
    Candle { high: spec_max(c.high, price), low: spec_min(c.low, price), close: price, ..c }
}

/// `after` is candle `c` after a trade at `price` in its hour: same opening
/// time and open, closed at `price`; its high is the old high or the price and
/// no lower than either (NaN aside), and its low is the old low or the price
/// and no higher than either.
pub open spec fn spec_extends(c: Candle, price: u64, after: Candle) -> bool {
    &&& after.open_time == c.open_time
    &&& after.open == c.open
    &&& after.close == price
    &&& (after.high == c.high || after.high == price)
    &&& (!spec_is_nan(c.high) ==> spec_le(c.high, after.high))
    &&& (!spec_is_nan(price) ==> spec_le(price, after.high))
    &&& (after.low == c.low || after.low == price)
    &&& (!spec_is_nan(c.low) ==> spec_le(after.low, c.low))
    &&& (!spec_is_nan(price) ==> spec_le(after.low, price))
}

/// A trade inside a candle's hour keeps its opening time and open, closes it
/// at the trade's price, and moves its high up to the price (or keeps it) and
/// its low down to the price (or keeps it).
pub proof fn lemma_priced_extends(c: Candle, price: u64)
    ensures
        spec_extends(c, price, spec_priced(c, price)),
{
    crate::binary64::lemma_max_min_choose_extreme(c.high, price);
    crate::binary64::lemma_max_min_choose_extreme(c.low, price);
}

/// The candle after trades at `prices`, in order, inside its hour.
pub open spec fn spec_priced_all(c: Candle, prices: Seq<u64>) -> Candle
    decreases prices.len(),
{
    if prices.len() == 0 {
        c
    } else {
        spec_priced(spec_priced_all(c, prices.drop_last()), prices.last())
    }
}

/// After trades at valid prices inside a candle's hour, the candle's high is
/// the largest of its first high and those prices, and its low the smallest of
/// its first low and those prices; it closes at the last price.
pub proof fn lemma_hour_extremes(c: Candle, prices: Seq<u64>)
    requires
        !spec_is_nan(c.high),
        !spec_is_nan(c.low),
        forall|k: int| 0 <= k < prices.len() ==> spec_is_valid_price(#[trigger] prices[k]),
    ensures
        ({
            let d = spec_priced_all(c, prices);
            &&& d.open_time == c.open_time
            &&& d.open == c.open
            &&& prices.len() > 0 ==> d.close == prices.last()
            &&& spec_le(c.high, d.high)
            &&& spec_le(d.low, c.low)
            &&& forall|k: int| 0 <= k < prices.len() ==> spec_le(#[trigger] prices[k], d.high)
                && spec_le(d.low, prices[k])
            &&& (d.high == c.high || exists|k: int| 0 <= k < prices.len() && d.high == prices[k])
            &&& (d.low == c.low || exists|k: int| 0 <= k < prices.len() && d.low == prices[k])
        }),
    decreases prices.len(),
{
    if prices.len() > 0 {
        let rest = prices.drop_last();
        let p = prices.last();
        assert(forall|k: int| 0 <= k < rest.len() ==> rest[k] == prices[k]);
        lemma_hour_extremes(c, rest);
        let e = spec_priced_all(c, rest);
        lemma_priced_extends(e, p);
        crate::binary64::lemma_extremes_bracket_price(e.high, p);
        let d = spec_priced_all(c, prices);
        assert(!spec_is_nan(e.high) && !spec_is_nan(e.low)) by {
            if e.high != c.high {
                let k = choose|k: int| 0 <= k < rest.len() && e.high == rest[k];
                assert(spec_is_valid_price(prices[k]));
            }
            if e.low != c.low {
                let k = choose|k: int| 0 <= k < rest.len() && e.low == rest[k];
                assert(spec_is_valid_price(prices[k]));
            }
        }
        assert forall|k: int| 0 <= k < prices.len() implies spec_le(#[trigger] prices[k], d.high)
            && spec_le(d.low, prices[k]) by {
            if k < rest.len() {
                assert(rest[k] == prices[k]);
            }
        }
        if d.high != c.high && d.high != p {
            let k = choose|k: int| 0 <= k < rest.len() && e.high == rest[k];
            assert(d.high == prices[k]);
        }
        if d.high == p {
            assert(d.high == prices[prices.len() - 1]);
        }
        if d.low != c.low && d.low != p {
            let k = choose|k: int| 0 <= k < rest.len() && e.low == rest[k];
            assert(d.low == prices[k]);
        }
        if d.low == p {
            assert(d.low == prices[prices.len() - 1]);
        }
    }
}

/// The first moment of the hour that holds `timestamp` (non-negative).
pub open spec fn spec_hour_bucket(timestamp: int) -> int {
    timestamp - timestamp % (HOUR_MS as int)
}

/// The candle opened by a first trade at `price` in the hour starting at `bucket`.
pub open spec fn spec_new_candle(bucket: int, price: u64) -> Candle {
    Candle { open_time: bucket as i64, open: price, high: price, low: price, close: price }
}

/// Candles whose opening times never decrease.
pub open spec fn spec_ordered(s: Seq<Candle>) -> bool {
    forall|i: int, j: int| 0 <= i <= j < s.len() ==> s[i].open_time <= s[j].open_time
}

/// `sorted` holds the candles of `candles`, ordered by opening time.
pub open spec fn spec_is_sorting(sorted: Seq<Candle>, candles: Seq<Candle>) -> bool {
    spec_ordered(sorted) && sorted.to_multiset() == candles.to_multiset()
}

/// The last `MAX_CANDLES` candles.
pub open spec fn spec_latest(s: Seq<Candle>) -> Seq<Candle> {
    if s.len() > MAX_CANDLES {
        s.subrange(s.len() - MAX_CANDLES, s.len() as int)
    } else {
        s
    }
}

/// Whether `i` is the first position of a candle opened at `t`.
pub open spec fn spec_first_at(s: Seq<Candle>, t: int, i: int) -> bool {
    &&& 0 <= i < s.len()
    &&& s[i].open_time == t
    &&& forall|j: int| 0 <= j < i ==> s[j].open_time != t
}

/// The first position of a candle opened at `t`, if any.
pub open spec fn spec_position(s: Seq<Candle>, t: int) -> Option<int> {
    if exists|i: int| spec_first_at(s, t, i) {
        Some(choose|i: int| spec_first_at(s, t, i))
    } else {
        None
    }
}

/// The candles after a valid trade at `price` and `timestamp`: the candle of the
/// trade's hour takes the price; a trade older than the newest candle is
/// dropped; otherwise a candle opens for the hour and only the newest
/// `MAX_CANDLES` are kept.
pub open spec fn spec_traded(s: Seq<Candle>, price: u64, timestamp: int) -> Seq<Candle> {
    let bucket = spec_hour_bucket(timestamp);
    match spec_position(s, bucket) {
        Some(i) => s.update(i, spec_priced(s[i], price)),
        None => if s.len() > 0 && bucket < s.last().open_time {
            s
        } else {
            spec_latest(s.push(spec_new_candle(bucket, price)))
        },
    }
}

pub proof fn lemma_first_at_unique(s: Seq<Candle>, t: int, i: int, k: int)
    requires
        spec_first_at(s, t, i),
        spec_first_at(s, t, k),
    ensures
        i == k,
{
    if i < k {
        assert(s[i].open_time != t);
    } else if k < i {
        assert(s[k].open_time != t);
    }
}

pub proof fn lemma_position_found(s: Seq<Candle>, t: int, i: int)
    requires
        spec_first_at(s, t, i),
    ensures
        spec_position(s, t) == Some(i),
{
    let k = choose|k: int| spec_first_at(s, t, k);
    lemma_first_at_unique(s, t, i, k);
}

pub proof fn lemma_position_absent(s: Seq<Candle>, t: int)
    requires
        forall|j: int| 0 <= j < s.len() ==> s[j].open_time != t,
    ensures
        spec_position(s, t) is None,
{
}

impl Candle {
    /// Reads a kline row of the exchange.
    pub fn from_kline_row(row: &[JsonScalar]) -> (r: Option<Self>)
        ensures
            r == spec_candle_from_row(row@),
            r matches Some(c) ==> spec_row_says(row@, c) && spec_is_valid_candle(c),
            forall|c: Candle|
                #[trigger] spec_row_says(row@, c) && spec_is_valid_candle(c) ==> r == Some(c),
    {
        proof {
            lemma_row_fields(row@);
        }
        if row.len() < 5 {
            return None;
        }
        let open_time = match row[0].as_i64 {
            Some(t) => t,
            None => return None,
        };
        let open = match json_number(&row[1]) {
            Some(n) => n,
            None => return None,
        };
        let high = match json_number(&row[2]) {
            Some(n) => n,
            None => return None,
        };
        let low = match json_number(&row[3]) {
            Some(n) => n,
            None => return None,
        };
        let close = match json_number(&row[4]) {
            Some(n) => n,
            None => return None,
        };
        let candle = Candle { open_time, open, high, low, close };
        if candle.is_valid() {
            Some(candle)
        } else {
            None
        }
    }

    pub fn is_valid(&self) -> (r: bool)
        ensures
            r == spec_is_valid_candle(*self),
    {
        self.open_time >= 0 && is_finite(self.open) && is_finite(self.high) && is_finite(self.low)
            && is_finite(self.close) && crate::binary64::is_positive(self.open)
            && crate::binary64::is_positive(self.high) && crate::binary64::is_positive(self.low)
            && crate::binary64::is_positive(self.close) && crate::binary64::less_or_equal(
            self.low,
            self.high,
        )
    }

    pub fn apply_price(&mut self, price: u64)
        ensures
            *final(self) == spec_priced(*old(self), price),
            spec_extends(*old(self), price, *final(self)),
    {
        proof {
            lemma_priced_extends(*self, price);
        }
        self.high = crate::binary64::maximum(self.high, price);
        self.low = crate::binary64::minimum(self.low, price);
        self.close = price;
    }
}

/// What the applet shows of the market.
#[derive(Clone, Debug, Default)]
pub struct Snapshot {
    pub price: u64,
    pub change_percent: u64,
    pub candles: Vec<Candle>,
    pub connected: bool,
}

/// Two snapshots are equal when their prices and changes are equal as
/// numbers, their candles are pairwise equal and their connection flags agree.
pub open spec fn spec_same_snapshot(a: Snapshot, b: Snapshot) -> bool {
    &&& spec_eq(a.price, b.price)
    &&& spec_eq(a.change_percent, b.change_percent)
    &&& a.connected == b.connected
    &&& a.candles@.len() == b.candles@.len()
    &&& forall|i: int|
        0 <= i < a.candles@.len() ==> spec_same_candle(#[trigger] a.candles@[i], b.candles@[i])
}

impl PartialEq for Snapshot {
    fn eq(&self, other: &Self) -> (r: bool) {
        if !crate::binary64::equals(self.price, other.price) || !crate::binary64::equals(
            self.change_percent,
            other.change_percent,
        ) || self.connected != other.connected || self.candles.len() != other.candles.len() {
            return false;
        }
        let n = self.candles.len();
        let mut i: usize = 0;
        while i < n
            invariant
                n == self.candles@.len(),
                n == other.candles@.len(),
                i <= n,
                forall|j: int|
                    0 <= j < i ==> spec_same_candle(#[trigger] self.candles@[j], other.candles@[j]),
            decreases n - i,
        {
            if !(self.candles[i] == other.candles[i]) {
                return false;
            }
            i += 1;
        }
        true
    }
}

impl PartialEqSpecImpl for Snapshot {
    open spec fn obeys_eq_spec() -> bool {
        true
    }

    open spec fn eq_spec(&self, other: &Self) -> bool {
        spec_same_snapshot(*self, *other)
    }
}

/// The abstract content of a `MarketState`.
pub ghost struct MarketView {
    pub price: u64,
    pub change_percent: u64,
    pub candles: Seq<Candle>,
    pub connected: bool,
}

/// A trade in the hour of a candle already held extends that candle
/// (`spec_extends`) and leaves the other candles and their number as they were.
pub proof fn lemma_trade_extends_its_hour(s: Seq<Candle>, price: u64, timestamp: int, i: int)
    requires
        spec_first_at(s, spec_hour_bucket(timestamp), i),
    ensures
        spec_traded(s, price, timestamp).len() == s.len(),
        spec_extends(s[i], price, spec_traded(s, price, timestamp)[i]),
        forall|j: int|
            0 <= j < s.len() && j != i ==> #[trigger] spec_traded(s, price, timestamp)[j] == s[j],
{
    lemma_position_found(s, spec_hour_bucket(timestamp), i);
    lemma_priced_extends(s[i], price);
}

/// A trade whose hour has no candle yet: when it is older than the newest
/// candle nothing changes; otherwise a candle for its hour whose open, high,
/// low and close are the trade's price comes after the candles held before
/// (the oldest dropped beyond `MAX_CANDLES`).
pub proof fn lemma_trade_opens_its_hour(s: Seq<Candle>, price: u64, timestamp: int)
    requires
        0 <= timestamp <= i64::MAX,
        forall|j: int| 0 <= j < s.len() ==> s[j].open_time != spec_hour_bucket(timestamp),
    ensures
        ({
            let t = spec_traded(s, price, timestamp);
            let bucket = spec_hour_bucket(timestamp);
            if s.len() > 0 && bucket < s.last().open_time {
                t == s
            } else {
                &&& t.len() > 0
                &&& t.last().open_time == bucket
                &&& t.last().open == price && t.last().high == price
                &&& t.last().low == price && t.last().close == price
                &&& t.drop_last() == (if s.len() >= MAX_CANDLES {
                    s.subrange(s.len() - (MAX_CANDLES - 1), s.len() as int)
                } else {
                    s
                })
            }
        }),
{
    lemma_position_absent(s, spec_hour_bucket(timestamp));
    let t = spec_traded(s, price, timestamp);
    let bucket = spec_hour_bucket(timestamp);
    if !(s.len() > 0 && bucket < s.last().open_time) {
        if s.len() >= MAX_CANDLES {
            assert(t.drop_last() =~= s.subrange(s.len() - (MAX_CANDLES - 1), s.len() as int));
        } else {
            assert(t.drop_last() =~= s);
        }
    }
}

/// The candles hold one opened at `bucket` whose close is `price` and whose
/// low and high bracket it.
pub open spec fn spec_covers(s: Seq<Candle>, bucket: int, price: u64) -> bool {
    exists|i: int|
        0 <= i < s.len() && #[trigger] s[i].open_time == bucket && s[i].close == price && spec_le(
            s[i].low,
            price,
        ) && spec_le(price, s[i].high)
}

/// A valid trade that is not older than the newest candle ends up in the
/// candle of its hour: that candle closes at the trade's price, and its low and
/// high bracket it.
pub proof fn lemma_trade_reaches_its_candle(s: Seq<Candle>, price: u64, timestamp: int)
    requires
        spec_is_valid_price(price),
        0 <= timestamp <= i64::MAX,
        s.len() == 0 || spec_hour_bucket(timestamp) >= s.last().open_time,
    ensures
        spec_covers(spec_traded(s, price, timestamp), spec_hour_bucket(timestamp), price),
{
    let bucket = spec_hour_bucket(timestamp);
    let t = spec_traded(s, price, timestamp);
    match spec_position(s, bucket) {
        Some(i) => {
            crate::binary64::lemma_extremes_bracket_price(s[i].high, price);
            crate::binary64::lemma_extremes_bracket_price(s[i].low, price);
            assert(t[i].open_time == bucket);
        },
        None => {
            let last = t.len() - 1;
            assert(t[last] == spec_new_candle(bucket, price));
            assert(t[last].open_time == bucket);
        },
    }
}

/// The market as last seen: a price, a 24-hour change, the latest candles in
/// order of opening time, and whether the live stream is connected.
#[derive(Debug)]
pub struct MarketState {
    price: u64,
    change_percent: u64,
    candles: Vec<Candle>,
    connected: bool,
}

impl View for MarketState {
    type V = MarketView;

    closed spec fn view(&self) -> MarketView {
        MarketView {
            price: self.price,
            change_percent: self.change_percent,
            candles: self.candles@,
            connected: self.connected,
        }
    }
}

/// The view after `replace_candles(candles)` from `before`, given the order
/// `sorted` in which the candles were arranged.
pub open spec fn spec_replaced(before: MarketView, sorted: Seq<Candle>, after: MarketView) -> bool {
    &&& after.candles == spec_latest(sorted)
    &&& after.price == if spec_is_valid_price(before.price) {
        before.price
    } else if sorted.len() > 0 {
        sorted.last().close
    } else {
        ZERO_BITS
    }
    &&& after.change_percent == before.change_percent
    &&& after.connected == before.connected
}

/// `after` is `before` once `candles` replaced its candles, in some order by
/// opening time.
pub open spec fn spec_replacement(before: MarketView, candles: Seq<Candle>, after: MarketView) -> bool {
    exists|sorted: Seq<Candle>|
        #[trigger] spec_is_sorting(sorted, candles) && spec_replaced(before, sorted, after)
}

/// What a resynchronisation from downloaded `candles` leaves: a known valid
/// price stays; otherwise the price becomes the close of the newest candle
/// kept, which is a downloaded candle with the latest opening time (zero when
/// nothing came). The candles kept are the newest `MAX_CANDLES` of those that
/// came, each of them downloaded, and the change and connection stay.
pub open spec fn spec_resynchronised(before: MarketView, candles: Seq<Candle>, after: MarketView) -> bool {
    &&& after.change_percent == before.change_percent
    &&& after.connected == before.connected
    &&& after.candles.len() == if candles.len() > MAX_CANDLES {
        MAX_CANDLES as nat
    } else {
        candles.len()
    }
    &&& forall|k: int| 0 <= k < after.candles.len() ==> candles.contains(#[trigger] after.candles[k])
    &&& forall|k: int, i: int|
        0 <= k < after.candles.len() && 0 <= i < candles.len() && !after.candles.contains(
            #[trigger] candles[i],
        ) ==> candles[i].open_time <= #[trigger] after.candles[k].open_time
    &&& spec_is_valid_price(before.price) ==> after.price == before.price
    &&& !spec_is_valid_price(before.price) && candles.len() == 0 ==> after.price == ZERO_BITS
    &&& !spec_is_valid_price(before.price) && candles.len() > 0 ==> after.price
        == after.candles.last().close
    &&& candles.len() > 0 ==> forall|i: int|
        0 <= i < candles.len() ==> #[trigger] candles[i].open_time
            <= after.candles.last().open_time
}

/// Replacing the candles keeps the newest downloaded ones, and seeds a missing
/// price with the close of the newest candle (`spec_resynchronised`).
pub proof fn lemma_replacement_resynchronises(before: MarketView, candles: Seq<Candle>, after: MarketView)
    requires
        spec_replacement(before, candles, after),
    ensures
        spec_resynchronised(before, candles, after),
{
    broadcast use vstd::seq_lib::group_to_multiset_ensures;

    let sorted = choose|sorted: Seq<Candle>|
        #[trigger] spec_is_sorting(sorted, candles) && spec_replaced(before, sorted, after);
    assert(sorted.len() == candles.len()) by {
        assert(sorted.to_multiset().len() == candles.to_multiset().len());
    }
    let start: int = if sorted.len() > MAX_CANDLES {
        sorted.len() - MAX_CANDLES
    } else {
        0
    };
    assert(after.candles =~= sorted.subrange(start, sorted.len() as int));
    assert forall|x: Candle| sorted.contains(x) <==> candles.contains(x) by {
        assert(sorted.to_multiset().count(x) == candles.to_multiset().count(x));
    }
    assert forall|k: int| 0 <= k < after.candles.len() implies candles.contains(
        #[trigger] after.candles[k],
    ) by {
        assert(after.candles[k] == sorted[start + k]);
        assert(sorted.contains(sorted[start + k]));
    }
    assert forall|i: int| 0 <= i < candles.len() implies exists|j: int|
        0 <= j < sorted.len() && sorted[j] == #[trigger] candles[i] by {
        assert(candles.contains(candles[i]));
        assert(sorted.contains(candles[i]));
    }
    assert forall|k: int, i: int|
        0 <= k < after.candles.len() && 0 <= i < candles.len() && !after.candles.contains(
            #[trigger] candles[i],
        ) implies candles[i].open_time <= #[trigger] after.candles[k].open_time by {
        let j = choose|j: int| 0 <= j < sorted.len() && sorted[j] == candles[i];
        if j >= start {
            assert(after.candles[j - start] == candles[i]);
        }
        assert(after.candles[k] == sorted[start + k]);
    }
    if candles.len() > 0 {
        assert(after.candles.last() == sorted.last());
        assert forall|i: int| 0 <= i < candles.len() implies #[trigger] candles[i].open_time
            <= after.candles.last().open_time by {
            let j = choose|j: int| 0 <= j < sorted.len() && sorted[j] == candles[i];
        }
    }
}

/// Whether the candles of a view form a valid window.
pub open spec fn spec_window(v: MarketView) -> bool {
    v.candles.len() <= MAX_CANDLES && spec_ordered(v.candles)
}

/// Every market state holds at most `MAX_CANDLES` candles, in order of
/// opening time.
pub proof fn lemma_well_formed_window(s: MarketState)
    requires
        s.well_formed(),
    ensures
        spec_window(s@),
{
}

impl Default for MarketState {
    fn default() -> (s: Self)
        ensures
            s@ == (MarketView {
                price: ZERO_BITS,
                change_percent: ZERO_BITS,
                candles: Seq::empty(),
                connected: false,
            }),
    {
        MarketState { price: 0, change_percent: 0, candles: Vec::new(), connected: false }
    }
}

impl MarketState {
    #[verifier::type_invariant]
    pub closed spec fn well_formed(self) -> bool {
        self.candles@.len() <= MAX_CANDLES && spec_ordered(self.candles@)
    }

    pub fn snapshot(&self) -> (s: Snapshot)
        ensures
            s.price == self@.price,
            s.change_percent == self@.change_percent,
            s.candles@ == self@.candles,
            s.connected == self@.connected,
            s.candles@.len() <= MAX_CANDLES,
            spec_ordered(s.candles@),
    {
        proof {
            use_type_invariant(self);
        }
        let mut candles: Vec<Candle> = Vec::new();
        let n = self.candles.len();
        let mut i: usize = 0;
        while i < n
            invariant
                n == self.candles@.len(),
                i <= n,
                candles@ == self.candles@.take(i as int),
            decreases n - i,
        {
            candles.push(self.candles[i]);
            i += 1;
            proof {
                assert(candles@ =~= self.candles@.take(i as int));
            }
        }
        proof {
            assert(self.candles@.take(n as int) =~= self.candles@);
        }
        Snapshot {
            price: self.price,
            change_percent: self.change_percent,
            candles,
            connected: self.connected,
        }
    }

    pub fn has_price(&self) -> (r: bool)
        ensures
            r == spec_is_valid_price(self@.price),
    {
        is_valid_price(self.price)
    }

    /// Takes the candles of a fresh download: orders them by opening time and
    /// keeps the newest `MAX_CANDLES`; when no valid price is known yet, the
    /// close of the newest candle (or zero) becomes the price.
    pub fn replace_candles(&mut self, candles: Vec<Candle>)
        ensures
            spec_replacement(old(self)@, candles@, final(self)@),
            spec_resynchronised(old(self)@, candles@, final(self)@),
            spec_ordered(candles@) ==> spec_replaced(old(self)@, candles@, final(self)@),
            spec_window(final(self)@),
    {
        proof {
            use_type_invariant(&*self);
        }
        let ghost input = candles@;
        let ghost before = self@;
        let mut sorted = sort_by_open_time(candles);
        let ghost all = sorted@;
        let kept = if sorted.len() > MAX_CANDLES {
            let start = sorted.len() - MAX_CANDLES;
            sorted.split_off(start)
        } else {
            sorted
        };
        proof {
            assert(kept@ == spec_latest(all));
            if all.len() > 0 {
                assert(kept@.last() == all.last());
            }
            assert forall|i: int, j: int| 0 <= i <= j < kept@.len() implies kept@[i].open_time
                <= kept@[j].open_time by {
                if all.len() > MAX_CANDLES {
                    assert(kept@[i] == all[i + all.len() - MAX_CANDLES]);
                    assert(kept@[j] == all[j + all.len() - MAX_CANDLES]);
                }
            }
        }
        if !self.has_price() {
            self.price = if kept.len() > 0 {
                kept[kept.len() - 1].close
            } else {
                0
            };
        }
        self.candles = kept;
        proof {
            assert(spec_is_sorting(all, input));
            assert(spec_replacement(before, input, self@));
            lemma_replacement_resynchronises(before, input, self@);
        }
    }

    /// Takes a 24-hour ticker: a finite positive price replaces the price and a
    /// finite change replaces the change; anything else is ignored.
    pub fn apply_ticker(&mut self, price: u64, change_percent: u64)
        ensures
            final(self)@.price == if spec_is_valid_price(price) {
                price
            } else {
                old(self)@.price
            },
            final(self)@.change_percent == if spec_is_finite(change_percent) {
                change_percent
            } else {
                old(self)@.change_percent
            },
            final(self)@.candles == old(self)@.candles,
            final(self)@.connected == old(self)@.connected,
    {
        proof {
            use_type_invariant(&*self);
        }
        if is_valid_price(price) {
            self.price = price;
        }
        if is_finite(change_percent) {
            self.change_percent = change_percent;
        }
    }

    /// Takes a trade. A trade whose price is not finite and positive, or whose
    /// timestamp is negative, changes nothing. Otherwise its price becomes the
    /// price and the candles follow `spec_traded`.
    pub fn apply_trade(&mut self, price: u64, timestamp: i64)
        ensures
            !spec_is_valid_price(price) || timestamp < 0 ==> final(self)@ == old(self)@,
            spec_is_valid_price(price) && timestamp >= 0 ==> final(self)@ == (MarketView {
                price: price,
                candles: spec_traded(old(self)@.candles, price, timestamp as int),
                ..old(self)@
            }),
            spec_window(final(self)@),
            forall|i: int|
                spec_is_valid_price(price) && timestamp >= 0 && #[trigger] spec_first_at(
                    old(self)@.candles,
                    spec_hour_bucket(timestamp as int),
                    i,
                ) ==> final(self)@.candles.len() == old(self)@.candles.len() && spec_extends(
                    old(self)@.candles[i],
                    price,
                    final(self)@.candles[i],
                ),
            spec_is_valid_price(price) && timestamp >= 0 && (forall|j: int|
                0 <= j < old(self)@.candles.len() ==> old(self)@.candles[j].open_time
                    != spec_hour_bucket(timestamp as int)) && !(old(self)@.candles.len() > 0
                && spec_hour_bucket(timestamp as int) < old(self)@.candles.last().open_time)
                ==> final(self)@.candles.len() > 0 && final(self)@.candles.last().open_time
                == spec_hour_bucket(timestamp as int) && final(self)@.candles.last().open == price
                && final(self)@.candles.last().high == price && final(self)@.candles.last().low
                == price && final(self)@.candles.last().close == price,
    {
        proof {
            if timestamp >= 0 && (forall|j: int|
                0 <= j < self@.candles.len() ==> self@.candles[j].open_time != spec_hour_bucket(
                    timestamp as int,
                )) {
                lemma_trade_opens_its_hour(self@.candles, price, timestamp as int);
            }
        }
        proof {
            use_type_invariant(&*self);
            assert forall|i: int|
                spec_is_valid_price(price) && timestamp >= 0 && #[trigger] spec_first_at(
                    self@.candles,
                    spec_hour_bucket(timestamp as int),
                    i,
                ) implies spec_traded(self@.candles, price, timestamp as int).len()
                == self@.candles.len() && spec_extends(
                self@.candles[i],
                price,
                spec_traded(self@.candles, price, timestamp as int)[i],
            ) by {
                lemma_trade_extends_its_hour(self@.candles, price, timestamp as int, i);
            }
        }
        if !is_valid_price(price) || timestamp < 0 {
            return;
        }
        self.price = price;
        let bucket = timestamp - timestamp % HOUR_MS;
        let mut candles: Vec<Candle> = Vec::new();
        std::mem::swap(&mut candles, &mut self.candles);
        let ghost before = candles@;
        match position_of_open_time(&candles, bucket) {
            Some(i) => {
                let mut candle = candles[i];
                candle.apply_price(price);
                candles.set(i, candle);
                proof {
                    assert(candles@ == before.update(i as int, spec_priced(before[i as int], price)));
                }
            },
            None => {
                let n = candles.len();
                if n > 0 && bucket < candles[n - 1].open_time {
                } else {
                    let fresh = Candle {
                        open_time: bucket,
                        open: price,
                        high: price,
                        low: price,
                        close: price,
                    };
                    if n >= MAX_CANDLES {
                        candles.remove(0);
                    }
                    candles.push(fresh);
                    proof {
                        let pushed = before.push(fresh);
                        if n >= MAX_CANDLES {
                            assert(candles@ =~= pushed.subrange(
                                pushed.len() - MAX_CANDLES,
                                pushed.len() as int,
                            ));
                        } else {
                            assert(candles@ =~= pushed);
                        }
                        assert(candles@ == spec_latest(pushed));
                    }
                }
            },
        }
        self.candles = candles;
    }

    pub fn set_connected(&mut self, connected: bool)
        ensures
            final(self)@ == (MarketView { connected: connected, ..old(self)@ }),
    {
        proof {
            use_type_invariant(&*self);
        }
        self.connected = connected;
    }
}

/// The first position of a candle opened at `open_time`.
pub fn position_of_open_time(candles: &Vec<Candle>, open_time: i64) -> (r: Option<usize>)
    ensures
        match r {
            Some(i) => spec_position(candles@, open_time as int) == Some(i as int),
            None => spec_position(candles@, open_time as int) is None,
        },
{
    let n = candles.len();
    let mut i: usize = 0;
    while i < n
        invariant
            n == candles@.len(),
            i <= n,
            forall|j: int| 0 <= j < i ==> candles@[j].open_time != open_time,
        decreases n - i,
    {
        if candles[i].open_time == open_time {
            proof {
                lemma_position_found(candles@, open_time as int, i as int);
            }
            return Some(i);
        }
        i += 1;
    }
    proof {
        lemma_position_absent(candles@, open_time as int);
    }
    None
}

/// Orders candles by opening time, keeping each of them.
pub fn sort_by_open_time(candles: Vec<Candle>) -> (sorted: Vec<Candle>)
    ensures
        spec_is_sorting(sorted@, candles@),
        spec_ordered(candles@) ==> sorted@ == candles@,
{
    let mut sorted: Vec<Candle> = Vec::new();
    let n = candles.len();
    let mut i: usize = 0;
    while i < n
        invariant
            n == candles@.len(),
            i <= n,
            spec_ordered(sorted@),
            sorted@.to_multiset() == candles@.take(i as int).to_multiset(),
            spec_ordered(candles@) ==> sorted@ == candles@.take(i as int),
        decreases n - i,
    {
        let c = candles[i];
        let mut p: usize = 0;
        while p < sorted.len() && sorted[p].open_time <= c.open_time
            invariant
                p <= sorted@.len(),
                forall|k: int| 0 <= k < p ==> sorted@[k].open_time <= c.open_time,
                spec_ordered(candles@) ==> sorted@ == candles@.take(i as int),
                c == candles@[i as int],
                i < n,
                n == candles@.len(),
            decreases sorted@.len() - p,
        {
            p += 1;
        }
        let ghost prev = sorted@;
        proof {
            assert(candles@.take(i + 1) =~= candles@.take(i as int).push(c));
        }
        proof {
            if spec_ordered(candles@) {
                if p < prev.len() {
                    assert(prev[p as int] == candles@[p as int]);
                    assert(candles@[p as int].open_time <= candles@[i as int].open_time);
                }
                assert(p == prev.len());
            }
        }
        sorted.insert(p, c);
        proof {
            assert(sorted@ == prev.insert(p as int, c));
            if spec_ordered(candles@) {
                assert(sorted@ =~= candles@.take(i + 1));
            }
            assert forall|a: int, b: int| 0 <= a <= b < sorted@.len() implies sorted@[a].open_time
                <= sorted@[b].open_time by {
                if a < p && b < p {
                    assert(sorted@[a] == prev[a] && sorted@[b] == prev[b]);
                } else if a < p && b == p {
                } else if a < p {
                    assert(sorted@[b] == prev[b - 1]);
                    assert(prev[a].open_time <= prev[b - 1].open_time);
                } else if a == p && b == p {
                } else if a == p {
                    assert(sorted@[b] == prev[b - 1]);
                    assert(prev[p as int].open_time <= prev[b - 1].open_time);
                } else {
                    assert(sorted@[a] == prev[a - 1] && sorted@[b] == prev[b - 1]);
                }
            }
        }
        i += 1;
    }
    proof {
        assert(candles@.take(n as int) =~= candles@);
    }
    sorted
}

/// The number a JSON value stands for, when it is finite.
pub fn json_number(value: &JsonScalar) -> (r: Option<u64>)
    ensures
        r == spec_json_number(*value),
{
    let number = match value.text_number {
        Some(n) => Some(n),
        None => value.number,
    };
    crate::binary64::finite_only(number)
}

} // verus!
