# solana_memecoin_db

Data and processing layer of an intelligence system for sniping Solana memecoins,
over one shared SQLite database (WAL mode), written in Verus.

- `src/db.rs` — the schema (`SCHEMA_SQL`, every table `STRICT`), idempotent
  set-up (`init`) and `reset_recomputable`, which drops and rebuilds only the
  derived tables. `init` creates the tables and inserts no row: the `'seed'`
  rows of `passthrough_node` (the permanent denylist of hubs) are loaded by
  whoever operates the database, and survive every reset.
- `src/ingest.rs` — the ingestor: append-only, idempotent inserts of launches,
  flows, participants, token outcomes (never the label `alive`) and trades.
- `src/analyze.rs` — one analysis tick (`run_once`): passthrough hubs, analysis
  queue, clusters, Beta-Bernoulli risk profiles and predictions. The decisions
  are verified functions on query results:
  - `src/analyze/hubs.rs` — hub detection on the flow graph,
  - `src/analyze/links.rs` — the strongest link per wallet,
  - `src/analyze/risk.rs` — the risk profile,
  - `src/analyze/ratio.rs` — exact fractions (SQLite divides them into `REAL`s).
- `src/sql.rs` — the boundary with `rusqlite`: one trusted wrapper per function
  called, and verified helpers reading rows into plain values.
- `src/text.rs` — character-level text utilities (lines, trimming, ordering).
- `src/writes.rs` — write statements and the table each one writes; the
  ingestor and the analyser each run only statements on their own tables.
- `app/main.rs` — the `analyze` program: one tick on a database file.

Verus proves the contracts of `src/`; the tests under `tests/` run the library
against real SQLite databases in temporary directories.
