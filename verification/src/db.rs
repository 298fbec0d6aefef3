//! SQLite persistence: the schema, connection set-up, and the reset of the
//! recomputable derived tables.
//!
//! [`SCHEMA_SQL`] is the single definition of the schema: [`init`] applies it as is,
//! and [`reset_recomputable`] re-applies it without its leading `PRAGMA` lines.

use vstd::prelude::*;
use crate::sql::{DbError, execute, execute_batch, open_connection, begin_transaction, transaction_connection, commit_transaction};
use crate::text::{strip_pragma_lines, without_pragma_lines};

verus! {

/// The schema: connection pragmas first, then every table and index, all
/// idempotent (`IF NOT EXISTS`) and every table `STRICT`. There is no foreign key.
pub const SCHEMA_SQL: &'static str = "PRAGMA journal_mode = WAL;
PRAGMA busy_timeout = 5000;
PRAGMA synchronous = NORMAL;

-- RAW: facts observed on-chain, append-only, never dropped.
CREATE TABLE IF NOT EXISTS raw_token_launch (
    mint         TEXT    NOT NULL PRIMARY KEY,
    deployer     TEXT    NOT NULL,
    program      TEXT    NOT NULL,
    slot         INTEGER NOT NULL,
    seen_unix_ms INTEGER NOT NULL,
    launch_sig   TEXT    NOT NULL
) STRICT;
CREATE INDEX IF NOT EXISTS idx_raw_token_launch_deployer ON raw_token_launch (deployer);

-- No index beyond the uniqueness constraint: the analyser scans this table whole.
CREATE TABLE IF NOT EXISTS raw_wallet_flow (
    id     INTEGER PRIMARY KEY,
    sig    TEXT    NOT NULL,
    slot   INTEGER NOT NULL,
    src    TEXT    NOT NULL,
    dst    TEXT    NOT NULL,
    mint   TEXT,
    amount INTEGER NOT NULL,
    kind   TEXT    NOT NULL,
    UNIQUE (sig, src, dst, mint)
) STRICT;

CREATE TABLE IF NOT EXISTS raw_launch_participant (
    mint      TEXT    NOT NULL,
    wallet    TEXT    NOT NULL,
    slot      INTEGER NOT NULL,
    amount    INTEGER,
    is_signer INTEGER NOT NULL CHECK (is_signer IN (0, 1)),
    PRIMARY KEY (mint, wallet)
) STRICT;

-- FACT-LIKE: irreversible observations, never dropped.
-- 'alive' is a conclusion drawn on the fly and is never stored.
CREATE TABLE IF NOT EXISTS token_outcome (
    id            INTEGER PRIMARY KEY,
    mint          TEXT    NOT NULL,
    label         TEXT    NOT NULL CHECK (label <> 'alive'),
    label_class   TEXT    NOT NULL CHECK (label_class IN ('terminal', 'event')),
    observed_slot INTEGER NOT NULL,
    \"final\"     INTEGER NOT NULL DEFAULT 0 CHECK (\"final\" IN (0, 1)),
    UNIQUE (mint, label, observed_slot)
) STRICT;

CREATE TABLE IF NOT EXISTS trade_outcome (
    id               INTEGER PRIMARY KEY,
    mint             TEXT    NOT NULL,
    cluster_id       INTEGER,
    prediction_id    INTEGER,
    action           TEXT    NOT NULL CHECK (action IN ('buy', 'sell', 'skip', 'blocked')),
    reason           TEXT,
    amount_sol       INTEGER,
    pnl_lamports     INTEGER,
    bot_slot         INTEGER NOT NULL,
    ingested_unix_ms INTEGER NOT NULL
) STRICT;

-- DERIVED, RECOMPUTABLE: dropped and rebuilt by the analyser.
CREATE TABLE IF NOT EXISTS cluster (
    id             INTEGER PRIMARY KEY,
    anchor_wallet  TEXT    NOT NULL,
    method_version INTEGER NOT NULL,
    updated_slot   INTEGER NOT NULL
) STRICT;
CREATE INDEX IF NOT EXISTS idx_cluster_anchor ON cluster (anchor_wallet, method_version);

CREATE TABLE IF NOT EXISTS cluster_member (
    cluster_id    INTEGER NOT NULL,
    wallet        TEXT    NOT NULL,
    link_type     TEXT    NOT NULL
        CHECK (link_type IN ('funding', 'consolidation', 'cobehavior', 'exclusivity')),
    link_strength REAL    NOT NULL,
    PRIMARY KEY (cluster_id, wallet)
) STRICT;
CREATE INDEX IF NOT EXISTS idx_cluster_member_wallet ON cluster_member (wallet);

CREATE TABLE IF NOT EXISTS cluster_profile (
    cluster_id      INTEGER PRIMARY KEY,
    token_count     INTEGER NOT NULL DEFAULT 0,
    rug_count       INTEGER NOT NULL DEFAULT 0,
    beta_alpha      REAL    NOT NULL,
    beta_beta       REAL    NOT NULL,
    risk            REAL,
    confidence      REAL,
    last_decay_slot INTEGER,
    is_rugger       INTEGER NOT NULL DEFAULT 0 CHECK (is_rugger IN (0, 1))
) STRICT;

CREATE TABLE IF NOT EXISTS score_prediction (
    id             INTEGER PRIMARY KEY,
    cluster_id     INTEGER NOT NULL,
    mint           TEXT    NOT NULL,
    risk           REAL    NOT NULL,
    confidence     REAL    NOT NULL,
    method_version INTEGER NOT NULL,
    predicted_slot INTEGER NOT NULL
) STRICT;
CREATE INDEX IF NOT EXISTS idx_score_prediction_cluster ON score_prediction (cluster_id);

-- MIXED: 'seed' rows are a permanent denylist, 'auto' rows are recomputed.
CREATE TABLE IF NOT EXISTS passthrough_node (
    address       TEXT    NOT NULL PRIMARY KEY,
    label         TEXT,
    source        TEXT    NOT NULL CHECK (source IN ('seed', 'auto')),
    degree        INTEGER,
    heterogeneity REAL,
    decided_slot  INTEGER
) STRICT;

-- QUEUE: owned by the analyser, never dropped.
CREATE TABLE IF NOT EXISTS analysis_queue (
    entity          TEXT    NOT NULL,
    entity_kind     TEXT    NOT NULL,
    status          TEXT    NOT NULL DEFAULT 'pending'
        CHECK (status IN ('pending', 'analyzing', 'done', 'error')),
    attempts        INTEGER NOT NULL DEFAULT 0,
    last_error      TEXT,
    enqueued_slot   INTEGER NOT NULL,
    updated_unix_ms INTEGER NOT NULL,
    PRIMARY KEY (entity, entity_kind)
) STRICT;
";

/// Connection settings applied at every opening. `foreign_keys` keeps its
/// default (off): the schema has no foreign key.
pub const CONNECTION_PRAGMAS: &'static str = "PRAGMA journal_mode = WAL;
PRAGMA busy_timeout = 5000;
PRAGMA synchronous = NORMAL;";

/// The derived tables that [`reset_recomputable`] drops and recreates.
/// `passthrough_node` is not among them: only its `'auto'` rows are purged.
pub const RECOMPUTABLE_TABLES: [&'static str; 4] = ["cluster", "cluster_member", "cluster_profile", "score_prediction"];

/// The tables that hold observations that cannot be made again, or the queue:
/// a reset must never drop them.
pub open spec fn is_preserved_table(name: Seq<char>) -> bool {
    ||| name == "raw_token_launch"@
    ||| name == "raw_wallet_flow"@
    ||| name == "raw_launch_participant"@
    ||| name == "token_outcome"@
    ||| name == "trade_outcome"@
    ||| name == "analysis_queue"@
    ||| name == "passthrough_node"@
}

/// The drop frontier: no table that [`reset_recomputable`] drops is a preserved one.
pub proof fn lemma_reset_drops_no_preserved_table()
    ensures
        forall|i: int| 0 <= i < 4 ==> !is_preserved_table(#[trigger] RECOMPUTABLE_TABLES[i]@),
{
    reveal_strlit("cluster");
    reveal_strlit("cluster_member");
    reveal_strlit("cluster_profile");
    reveal_strlit("score_prediction");
    reveal_strlit("raw_token_launch");
    reveal_strlit("raw_wallet_flow");
    reveal_strlit("raw_launch_participant");
    reveal_strlit("token_outcome");
    reveal_strlit("trade_outcome");
    reveal_strlit("analysis_queue");
    reveal_strlit("passthrough_node");
    assert("raw_token_launch"@.len() == 16);
    assert("raw_wallet_flow"@.len() == 15);
    assert("raw_launch_participant"@.len() == 22);
    assert("token_outcome"@.len() == 13);
    assert("trade_outcome"@.len() == 13);
    assert("analysis_queue"@.len() == 14);
    assert("passthrough_node"@.len() == 16);
    assert("cluster_profile"@[0] != "raw_wallet_flow"@[0]);
    assert("cluster_profile"@[0] != "trade_outcome"@[0]);
    assert("cluster_member"@[0] != "analysis_queue"@[0]);
    assert("score_prediction"@[0] != "raw_token_launch"@[0]);
    assert("score_prediction"@[0] != "passthrough_node"@[0]);
}

/// Purges the automatically detected passthrough nodes, keeping the `'seed'` ones.
pub const PURGE_AUTO_PASSTHROUGH_SQL: &'static str = "DELETE FROM passthrough_node WHERE source = 'auto';";

/// The schema without its `PRAGMA` lines, which cannot all run inside a
/// transaction (`synchronous` cannot change there).
pub fn schema_ddl_only() -> (ddl: String)
    ensures
        ddl@ == without_pragma_lines(SCHEMA_SQL@),
{
    strip_pragma_lines(SCHEMA_SQL)
}

/// The statement that drops `table` if it exists.
pub fn drop_table_sql(table: &str) -> (sql: String)
    ensures
        sql@ == "DROP TABLE IF EXISTS "@ + table@ + ";"@,
{
    let mut sql = String::from_str("DROP TABLE IF EXISTS ");
    sql.append(table);
    sql.append(";");
    sql
}

/// Applies the connection settings.
fn apply_pragmas(conn: &rusqlite::Connection) -> (r: Result<(), DbError>)
    ensures
        r matches Err(e) ==> e is Sqlite,
{
    execute_batch(conn, CONNECTION_PRAGMAS)
}

/// Opens (or creates) the database at `path`, applies the connection settings and
/// the schema. Safe to call at every start: the whole schema is idempotent.
pub fn init(path: &str) -> (r: Result<rusqlite::Connection, DbError>)
    ensures
        r matches Err(e) ==> e is Sqlite,
{
    let conn = match open_connection(path) {
        Ok(c) => c,
        Err(e) => return Err(DbError::Sqlite(e)),
    };
    apply_pragmas(&conn)?;
    execute_batch(&conn, SCHEMA_SQL)?;
    Ok(conn)
}

/// Drops and recreates the recomputable tables ([`RECOMPUTABLE_TABLES`]) and purges
/// the `'auto'` passthrough nodes, in one transaction.
///
/// Never touches `raw_token_launch`, `raw_wallet_flow`, `raw_launch_participant`,
/// `token_outcome`, `trade_outcome`, `analysis_queue`, nor the `'seed'` passthrough
/// nodes: those hold observations that cannot be made again.
pub fn reset_recomputable(conn: &rusqlite::Connection) -> (r: Result<(), DbError>)
    ensures
        r matches Err(e) ==> e is Sqlite,
{
    let tx = match begin_transaction(conn) {
        Ok(t) => t,
        Err(e) => return Err(DbError::Sqlite(e)),
    };
    {
        let c = transaction_connection(&tx);
        let mut i: usize = 0;
        while i < RECOMPUTABLE_TABLES.len()
            decreases RECOMPUTABLE_TABLES.len() - i,
        {
            let sql = drop_table_sql(RECOMPUTABLE_TABLES[i]);
            execute_batch(c, sql.as_str())?;
            i = i + 1;
        }
        // Recreates the dropped tables; the others stay as they are (IF NOT EXISTS).
        let ddl = schema_ddl_only();
        execute_batch(c, ddl.as_str())?;
        execute(c, PURGE_AUTO_PASSTHROUGH_SQL, &Vec::new())?;
    }
    match commit_transaction(tx) {
        Ok(()) => Ok(()),
        Err(e) => Err(DbError::Sqlite(e)),
    }
}

} // verus!
