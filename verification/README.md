# pendulum_kelly

A local portfolio ledger for fund investors, with its decision logic proved
correct by Verus.

## Layout

- `src/` — the verified library. Every function states its behaviour in
  `requires` / `ensures` over mathematical models (`Seq`, `Map`, views of the
  data types), and the public proof functions named `law_*` state what holds
  across calls:
  - `watchlist` — market watchlist filters, archive and test detection,
    duplicate detection by provider symbol, migrations, default restoration
    and upserts;
  - `providers`, `market_data` — which fund, market, FX and instrument source
    a configuration selects, Eastmoney symbol mapping and page reading;
  - `dca`, `operation`, `dca_lifecycle` — DCA schedules on calendar dates,
    the preview of a target date and the lifecycle of each asset;
  - `daily_operation`, `daily_plan` — the step log of the daily run, the
    assets of the daily execution plan and its safety gates;
  - `alipay`, `holdings_csv`, `import`, `verification` — imported holdings and
    transactions, CSV columns, import commits and data checks;
  - `reconciliation`, `enrichment`, `report`, `cli` — reconciliation
    verdicts, sector inference, report rendering and the command set;
  - `refresh` — the market refresh plan: which symbols to fetch, from which
    provider and under which provider symbol;
  - `text`, `model`, `error`, `clock` — string and number helpers with
    specifications, the configuration records, the error type and the local
    clock.
- `app/` — the command-line program: argument parsing, HTTP requests to the
  data sources, JSON replies and the floating-point figures (quotes, NAVs,
  market regime). This build has no local portfolio store: the fund, market,
  FX and instrument lookups and the market refresh of the default watchlist
  work, while the ledger commands (holdings, daily run, ops, reports,
  transactions, import, reconcile) answer that the store is unavailable.
- `tests/` — tests of the library on concrete values.

Calls into chrono, csv and the few std functions that vstd leaves
unspecified go through small trusted functions whose contracts state what
those crates document; everything else in `src/` is proved.
