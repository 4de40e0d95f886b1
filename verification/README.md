# ticker

A COSMIC panel applet that shows the live SOL/USDT price, the latest three
one-hour candles and the exchange's rolling 24-hour change.

`src/` is the verified library; `app/` is the applet around it (the COSMIC
user interface, HTTP and WebSocket traffic, JSON decoding, the preferences
file, and drawing the candle icon).

Prices cross from the applet into the library as the 64-bit patterns of their
binary64 encoding (`f64::to_bits`); `src/binary64.rs` states and computes the
comparisons the market logic makes on them.

- `settings`, `poll`, `preferences`: timeframes, preferences and their editor.
- `market` and `market/{model,api,stream}`: candles rebuilt from trades, the
  market state with its window of at most three ordered candles, and the
  decisions of the reconnecting stream (resynchronisation, snapshots, backoff).
- `market_v2`: the polled market used by the applet.
- `icon`: colours and arrows of the panel icon.
