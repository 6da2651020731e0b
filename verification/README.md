# rs_czsc

Chan-theory (缠中说禅) market structure analysis with machine-checked
contracts: bars and their merging, fractals, strokes and pivots, multi-period
bar generation, signals, events and positions, and the bookkeeping of
strategy weights.

- `src/` is the library, written in Verus. Public functions state what they
  return or change in their `ensures`; where the outcome rests on the clock
  (`is_trading_end`), on a connection the caller implements (the ClickHouse
  functions, stated over the answers it gives), or leaves nothing behind
  (`clear_strategy`), the doc comment says so. The `law_*` proof functions state properties
  that span several functions (resampling keeps totals, a cache gives back what
  was written, clearing a strategy is idempotent, and so on). Prices, volumes
  and amounts are integers in an instrument's smallest unit; times are seconds
  since the Unix epoch. Calls into chrono, serde_json and dirs stand behind a
  few small trusted functions whose contracts are documented where they are
  declared.
- `app/` is ordinary Rust around the library: the Feishu API client, network
  and file I/O, background heartbeats, and everything computed in floating point
  (features, indicators, reports).
- `tests/` exercises the library from outside.
