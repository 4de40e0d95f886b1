//! The decisions of the reconnecting market stream: what each download and each
//! message does to the market state, when a snapshot is shown, and how long to
//! wait before reconnecting.
use vstd::prelude::*;

use crate::market::api::Ticker24h;
use crate::market::model::{
    spec_traded, spec_window, Candle, MarketState, MarketView, Snapshot, spec_replacement,
};
use crate::binary64::{spec_is_finite, spec_is_valid_price};
use crate::market::{next_backoff_ms, spec_next_backoff, INITIAL_BACKOFF_MS};
use std::time::{Duration, Instant};

verus! {

/// Least time between two snapshots emitted for stream messages, in milliseconds.
pub const UI_PERIOD_MS: u64 = 100;

/// Trades and ticker updates, combined in one stream.
pub const WS_URL: &'static str = "wss://data-stream.binance.vision:443/stream?streams=solusdt@trade/solusdt@ticker";

/// Limit on how long opening the stream may take, in milliseconds.
pub const WS_CONNECT_TIMEOUT_MS: u64 = 10_000;

/// `std::time::Instant`, carried through as an opaque moment.
#[verifier::external_type_specification]
#[verifier::external_body]
pub struct ExInstant(Instant);

/// `Instant::now`. Nothing is stated of the moment it returns: it is the clock's.
#[verifier::external_body]
fn now() -> Instant {
    Instant::now()
}

/// `Instant::elapsed`. Nothing is stated of the time it returns: it is the clock's.
#[verifier::external_body]
fn elapsed(since: &Instant) -> Duration {
    since.elapsed()
}

/// `Duration::as_millis`: the whole milliseconds of a duration. A duration has
/// no plain value here to state it over, so nothing is stated of the result.
#[verifier::external_body]
fn as_millis(duration: &Duration) -> u128 {
    duration.as_millis()
}

/// A stream message, numbers finite.
#[derive(Clone, Copy, Debug)]
pub enum MarketEvent {
    Trade { price: u64, timestamp: i64 },
    Ticker24h { price: u64, change_percent: u64 },
    Other,
}

/// Whether a snapshot is due `elapsed_ms` milliseconds after the last one.
pub fn period_elapsed(elapsed_ms: u128) -> (due: bool)
    ensures
        due == (elapsed_ms >= UI_PERIOD_MS),
{
    elapsed_ms >= UI_PERIOD_MS as u128
}

/// Whether a snapshot is due, that is whether `UI_PERIOD_MS` have passed since
/// `last_emit`; when it is, `last_emit` moves to now, and otherwise it stays.
pub fn should_emit(last_emit: &mut Instant) -> (emit: bool)
    ensures
        !emit ==> *final(last_emit) == *old(last_emit),
{
    let waited = elapsed(last_emit);
    if !period_elapsed(as_millis(&waited)) {
        return false;
    }
    *last_emit = now();
    true
}

/// The market state of the stream and its wait before reconnecting.
pub struct Feed {
    pub state: MarketState,
    pub backoff_ms: u64,
}

/// `mid` is `before` once the downloaded candles were taken, if they came.
pub open spec fn spec_candles_taken(before: MarketView, candles: Option<Seq<Candle>>, mid: MarketView) -> bool {
    match candles {
        Some(c) => spec_replacement(before, c, mid),
        None => mid == before,
    }
}

/// `after` is `mid` once the downloaded ticker was taken, if it came, and the
/// market marked disconnected.
pub open spec fn spec_ticker_taken(mid: MarketView, ticker: Option<Ticker24h>, after: MarketView) -> bool {
    &&& after.price == match ticker {
        Some(t) => if spec_is_valid_price(t.price) {
            t.price
        } else {
            mid.price
        },
        None => mid.price,
    }
    &&& after.change_percent == match ticker {
        Some(t) => if spec_is_finite(t.change_percent) {
            t.change_percent
        } else {
            mid.change_percent
        },
        None => mid.change_percent,
    }
    &&& after.candles == mid.candles
    &&& !after.connected
}

/// `after` is `before` once the cycle's downloads were taken: candles when
/// they came, then the ticker when it came, then disconnected.
pub open spec fn spec_resynced(
    before: MarketView,
    candles: Option<Seq<Candle>>,
    ticker: Option<Ticker24h>,
    after: MarketView,
) -> bool {
    exists|mid: MarketView|
        #[trigger] spec_candles_taken(before, candles, mid) && spec_ticker_taken(mid, ticker, after)
}

/// The snapshot shows the view.
pub open spec fn spec_shows(s: Snapshot, v: MarketView) -> bool {
    &&& s.price == v.price
    &&& s.change_percent == v.change_percent
    &&& s.candles@ == v.candles
    &&& s.connected == v.connected
}

impl Feed {
    pub fn new() -> (f: Feed)
        ensures
            f.state@ == (MarketView {
                price: 0,
                change_percent: 0,
                candles: Seq::empty(),
                connected: false,
            }),
            f.backoff_ms == INITIAL_BACKOFF_MS,
    {
        Feed { state: MarketState::default(), backoff_ms: INITIAL_BACKOFF_MS }
    }

    /// Starts a connection cycle from the downloads (`None` where one failed);
    /// returns the snapshot to show when a valid price is known.
    pub fn resync(&mut self, candles: Option<Vec<Candle>>, ticker: Option<Ticker24h>) -> (s:
        Option<Snapshot>)
        ensures
            spec_resynced(
                old(self).state@,
                match candles {
                    Some(c) => Some(c@),
                    None => None,
                },
                ticker,
                final(self).state@,
            ),
            final(self).backoff_ms == old(self).backoff_ms,
            spec_window(final(self).state@),
            s is Some <==> spec_is_valid_price(final(self).state@.price),
            s matches Some(snap) ==> spec_shows(snap, final(self).state@),
    {
        proof {
            use_type_invariant(&self.state);
        }
        let ghost before = self.state@;
        let ghost cs = match &candles {
            Some(c) => Some(c@),
            None => None,
        };
        match candles {
            Some(c) => {
                self.state.replace_candles(c);
                assert(spec_candles_taken(before, cs, self.state@));
            },
            None => {
                assert(spec_candles_taken(before, cs, self.state@));
            },
        }
        let ghost mid = self.state@;
        match ticker {
            Some(t) => self.state.apply_ticker(t.price, t.change_percent),
            None => {},
        }
        self.state.set_connected(false);
        proof {
            assert(spec_candles_taken(before, cs, mid));
            assert(spec_ticker_taken(mid, ticker, self.state@));
        }
        proof {
            use_type_invariant(&self.state);
            crate::market::model::lemma_well_formed_window(self.state);
        }
        let shown = if self.state.has_price() {
            Some(self.state.snapshot())
        } else {
            None
        };
        shown
    }

    /// The stream is open: the next wait starts over, and the connected
    /// market is shown.
    pub fn on_connected(&mut self) -> (s: Snapshot)
        ensures
            final(self).backoff_ms == INITIAL_BACKOFF_MS,
            final(self).state@ == (MarketView { connected: true, ..old(self).state@ }),
            spec_shows(s, final(self).state@),
    {
        self.backoff_ms = INITIAL_BACKOFF_MS;
        self.state.set_connected(true);
        self.state.snapshot()
    }

    /// Takes a stream message (`None` when it could not be read); returns
    /// whether it changed the market, in which case a snapshot may be due.
    pub fn on_event(&mut self, event: Option<MarketEvent>) -> (applied: bool)
        ensures
            final(self).backoff_ms == old(self).backoff_ms,
            spec_window(final(self).state@),
            match event {
                Some(MarketEvent::Trade { price, timestamp }) => {
                    &&& applied
                    &&& (if spec_is_valid_price(price) && timestamp >= 0 {
                        final(self).state@ == (MarketView {
                            price: price,
                            candles: spec_traded(old(self).state@.candles, price, timestamp as int),
                            ..old(self).state@
                        })
                    } else {
                        final(self).state@ == old(self).state@
                    })
                },
                Some(MarketEvent::Ticker24h { price, change_percent }) => {
                    &&& applied
                    &&& final(self).state@ == (MarketView {
                        price: if spec_is_valid_price(price) {
                            price
                        } else {
                            old(self).state@.price
                        },
                        change_percent: if spec_is_finite(change_percent) {
                            change_percent
                        } else {
                            old(self).state@.change_percent
                        },
                        ..old(self).state@
                    })
                },
                _ => !applied && final(self).state@ == old(self).state@,
            },
    {
        proof {
            use_type_invariant(&self.state);
            crate::market::model::lemma_well_formed_window(self.state);
        }
        match event {
            Some(MarketEvent::Trade { price, timestamp }) => {
                self.state.apply_trade(price, timestamp);
                true
            },
            Some(MarketEvent::Ticker24h { price, change_percent }) => {
                self.state.apply_ticker(price, change_percent);
                true
            },
            _ => false,
        }
    }

    pub fn snapshot(&self) -> (s: Snapshot)
        ensures
            spec_shows(s, self.state@),
    {
        self.state.snapshot()
    }

    /// The stream ended: the market is shown disconnected when a valid price
    /// is known; returns that snapshot and the wait before reconnecting, and
    /// the next wait doubles, up to `MAX_BACKOFF_MS`.
    pub fn on_disconnected(&mut self) -> (r: (Option<Snapshot>, u64))
        ensures
            r.1 == old(self).backoff_ms,
            final(self).backoff_ms == spec_next_backoff(old(self).backoff_ms),
            final(self).state@ == (MarketView { connected: false, ..old(self).state@ }),
            r.0 is Some <==> spec_is_valid_price(old(self).state@.price),
            r.0 matches Some(snap) ==> spec_shows(snap, final(self).state@),
    {
        self.state.set_connected(false);
        let shown = if self.state.has_price() {
            Some(self.state.snapshot())
        } else {
            None
        };
        let wait = self.backoff_ms;
        self.backoff_ms = next_backoff_ms(self.backoff_ms);
        (shown, wait)
    }
}

} // verus!
