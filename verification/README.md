# etoro_backend

Backend of an automated trading bot for the eToro API, with its decision
logic verified by Verus.

- `src/` — the verified library:
  - `trader.rs`: the bot's state (price windows, confirmation counts, tracked
    positions), the decision taken on each confirmed signal, and the
    reconciliation with the portfolio, with their laws;
  - `strategy.rs`: the three-out-of-four vote of the indicators;
  - `etoro.rs`: the requests sent to the eToro API (paths, headers, queries);
  - `news.rs`: the NewsAPI search URL and the selection of articles;
  - `routes.rs`: the parsing of the `ids` query of the rates route;
  - `config.rs`: the settings read from the environment, and their redaction;
  - `text.rs`: decimal rendering and small string helpers.
- `app/` — the server and the trading loop: environment, HTTP (axum,
  reqwest), JSON (serde) and the floating-point indicators.
  It also holds these choices of the server, none of them verified: the
  `TraderSettings` read from `TRADING_MODE` and the `TRADER_*`
  environment variables (all required), `compute_initial_sl` (the long
  stop-loss of `compute_sl_tp`, mirrored above the entry for a short), and
  the `HistoryResponse` and `CandlesResponse` models.
- `tests/` — tests of the library on concrete values.
