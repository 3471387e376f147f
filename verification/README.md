# ema_crossover

A backtester for an EMA-crossover strategy on Phemex candle data.

- `src/` is the verified library (Verus):
  - `signing` signs API requests (Base64-URL secret, HMAC-SHA256 through *ring*,
    hex digits cut out of the tag's debug text) and computes request expiry;
  - `decimal` prints integers in decimal, with a proof that the text reads back;
  - `market` builds the candle-history request (time window and URL);
  - `window` keeps bounded newest-first histories, builds the seed window of an
    average and chooses the stage of the EMA and RSI indicators;
  - `position` is the state machine of a trade (signal, entry, cancellation,
    take profit before stop loss) and the tally of settled trades.
- `app/` is the program: it fetches the history over HTTP, does the
  floating-point indicator arithmetic and the signal rule, and drives the
  library.
- `tests/` runs the library on concrete values.
