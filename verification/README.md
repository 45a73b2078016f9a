# crstop

`crstop` is designed for checking usage from a terminal when the relay service (CRS) is only reachable through an SSH-accessible intranet relay. If you are already inside the intranet and can open the CRS web UI, the browser dashboard is still the simplest option.

It is a terminal dashboard for the usage of one API key on a relay service (CRS):
service health, the key's totals and limits, usage by model for the day and the
month, a status level with its messages, and a live trend of requests, tokens
and cost between refreshes.

- `src/` is the library, verified with Verus: the reading of the relay's JSON
  replies, the configuration checks, the API-id cache, the status rules, number
  formatting, the trend history, the texts of the one-shot report and of the
  dashboard panels, the order of the requests of one refresh, and the key
  bindings. Every public function states what it returns in its contract.
  Amounts of dollars are held as the doubles the relay sends (`src/amount.rs`);
  ratios, roundings and printed amounts (usage bars, cost levels, `$x.xx`,
  `1.2K`) are computed in integers exactly as double-precision arithmetic gives
  them (`src/binary64.rs`, `src/bigdecimal.rs`).
- `app/` is the program around it: command-line arguments, files, HTTP,
  the clock, and drawing the dashboard in the terminal.
- `tests/` runs the library on concrete values.
