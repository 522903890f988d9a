# poly-last-new

A trading bot for Polymarket's short up/down crypto markets (5- and 15-minute
buckets). When a market ends it decides the winner from the oracle price at the
bucket boundary (the beat price) and the price at the close, then buys the
winning side's asks below $1.00 during a short post-market window.

The decision logic is a Verus-verified library; the program around it does the
I/O.

## Layout

- `src/` — the verified library. Amounts are integers: asset prices in
  `10^-8` USD; USDC, share counts and share prices in millionths.
  - `engine.rs` — the per-poll state machine (market end, winner, post-market
    window, level walk, settlement) and its laws.
  - `order.rs` — fill-or-kill order sizing (cent-aligned sizes, $1.00
    minimum), the paper executor, reading of order replies.
  - `book.rs` — order-book levels, stable sorting, asks below $1.00.
  - `price.rs` — the window of oracle rounds and lookups by second.
  - `market.rs` — the market table, bucket clock and slugs.
  - `config.rs` — settings from environment values.
  - `api.rs` — market metadata and resolution as the API reports them, URL
    encoding, beat prices found in text.
  - `chainlink.rs` — data-stream request signing and oracle price encodings.
  - `pnl.rs` — the PnL log summary.
  - `report.rs` — numbers to fixed places, UTC times, the lines of the trade
    and PnL logs.
  - `frame.rs` — the terminal frame: header, prices, candles, ask tables,
    the post-market block and the status line.
  - `display.rs`, `text.rs`, `types.rs` — text helpers and shared types.
- `tests/` — tests of the library.
- `app/` — the program: HTTP, WebSocket, files, writing frames to the
  terminal, the live executor.
  Run as `bot_test`, `bot_real <market>` or `pnl`.
