# tikr_strategy

Deterministic market-making strategies over exact decimal arithmetic, verified with
Verus.

A strategy reads a context (position, book, resting quotes, recent fills and forced
orders) and a market event, and returns actions: quotes, requotes and cancels. For every
strategy the state after an event and the actions it calls for are given by a
mathematical function, and the executable code is proved to compute it. Where a number
cannot be represented there is no result, and the `try_` form of an operation returns
`None`.

- `src/decimal.rs` holds the number type. Its arithmetic is that of `rust_decimal`,
  reached through trusted wrappers; all else is verified.
- `src/market.rs` and `src/strategy.rs` hold the market types and the `Strategy` trait.
- `src/quoting.rs`, `sizing.rs`, `grid.rs`, `scalping.rs`, `risk.rs` and `sorting.rs`
  hold what the strategies share.
- Every other module is one strategy. What holds of a strategy as a whole is stated at
  the end of its module in proof functions whose names begin with `law_`.
- `app/` drives the strategies that need a number computed in floating point.
