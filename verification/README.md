# basol

A Solana memecoin trading bot whose decision logic is a library verified with
Verus.

- `src/` — the verified library `basol`:
  - `base58`, `codec`, `transaction`, `wallet_key`: Solana wallet keys
    (JSON array, hex or base58), addresses, compact-u16 headers and
    transaction signing, with Ed25519, base64, hex and JSON behind thin
    wrappers over `ed25519-dalek`, `base64`, `hex` and `serde_json`;
  - `rate_limit`, `helius`: sliding-window request budgets and the rotating
    pool of Helius API keys;
  - `telegram`, `control`, `schedule`: Telegram commands and polling
    back-off, the pause / circuit-breaker / peak-hour switches, and when
    reports and warnings are due;
  - `analysis`, `scoring`, `trade`: the discrete verdicts of a token
    analysis, the retry policy of swaps and the records of trades;
  - `buy_gate`, `exit_rules`: the order of the buy checks and of the exits
    of an open position, and what a sell leaves of it;
  - `text`: string helpers (decimal formatting, trimming, splitting).
- `tests/` — tests of the library on concrete values.
- `app/` — the program: network, files, clock, and the price arithmetic in
  `f64` (strategies, paper trading, backtesting) around the library.
