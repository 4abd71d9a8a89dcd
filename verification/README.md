# trading_common

The shared core of a crypto trading system, written in Verus: market data types and timeframe
alignment, the 1m-to-higher-timeframe bar aggregator, the portfolio with its fills, fees and
equity curve, paper trading, the backtest engines (single strategy, multi-timeframe,
walk-forward, out-of-sample, multi-symbol), market state analysis, indicators and the
multi-timeframe trend strategy, the tick cache rules, events, alerts and reports.

Prices and amounts are `Dec`, a decimal held as mantissa and scale whose arithmetic is
`rust_decimal`'s, called through trusted wrappers in `src/decimal.rs`. Every operation that
`rust_decimal` could make panic is checked first: the engines return `None` at the first step
that would overflow, and their contracts say exactly where that happens.

## Layout

- `src/` — the verified library, one module per concern; `src/lib.rs` lists them.
- `tests/` — tests of the library on concrete values.
- `app/` — what Verus does not check: the PostgreSQL store, the Redis tick cache, the event bus,
  alert delivery, the floating-point models (the moving-average pullback strategy, option
  pricing, price simulation) and the printed reports. The Parquet cold store and the
  Polars-backed repository are not part of this crate.

The risk figures of a backtest (Sharpe ratio, drawdown, volatility) come from a
`RiskMetricsSource` that the caller supplies.
