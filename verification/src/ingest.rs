//! Ingestor: writes field observations to the database.
//!
//! Strict write scope: only the RAW tables (`raw_token_launch`, `raw_wallet_flow`,
//! `raw_launch_participant`) and the FACT-LIKE ones (`token_outcome`,
//! `trade_outcome`). The ingestor never touches a derived table nor
//! `analysis_queue`.
//!
//! All these tables are append-only. Inserts are idempotent through `INSERT OR
//! IGNORE` on the schema's uniqueness constraints: recording the same observation
//! twice is safe. The parameters bound to each statement are built by the
//! `*_params` functions, whose contracts fix them exactly. Every statement is a
//! [`crate::writes::Write`] and runs only if its table is a RAW or FACT-LIKE one.

use vstd::prelude::*;
use crate::sql::{
    SqlValue, SqlParam, params_view, text_param, opt_text_param, opt_int_param, run_statement,
    last_rowid, begin_transaction, transaction_connection, commit_transaction, error_text,
};
use crate::text::texts_equal;
use crate::sql::{DbError, Executed, run};
use crate::writes::{Table, Verb, Write, write_statement};

verus! {

/// Why the ingestor failed.
#[derive(Debug)]
pub enum IngestError {
    /// Error reported by SQLite through `rusqlite`.
    Sqlite(rusqlite::Error),
    /// An attempt to store the forbidden `token_outcome.label` `'alive'`: `'alive'`
    /// is a conclusion drawn on the fly, never stored.
    ForbiddenLabel(String),
}

impl IngestError {
    /// A human-readable description of the error.
    pub fn message(&self) -> (m: String)
        ensures
            self is Sqlite ==> "erreur SQLite : "@.is_prefix_of(m@),
            self matches IngestError::ForbiddenLabel(label) ==> m@ == "label interdit '"@ + label@
                + "' : 'alive' est une conclusion dérivée (aucun label terminal final=1 et âge >= 24h), jamais stockée"@,
    {
        match self {
            IngestError::Sqlite(e) => {
                let mut m = String::from_str("erreur SQLite : ");
                let t = error_text(e);
                m.append(t.as_str());
                assert(m@.subrange(0, "erreur SQLite : "@.len() as int) =~= "erreur SQLite : "@);
                m
            },
            IngestError::ForbiddenLabel(label) => {
                let mut m = String::from_str("label interdit '");
                m.append(label.as_str());
                m.append(
                    "' : 'alive' est une conclusion dérivée (aucun label terminal final=1 et âge >= 24h), jamais stockée",
                );
                m
            },
        }
    }
}

impl From<rusqlite::Error> for IngestError {
    fn from(e: rusqlite::Error) -> (r: Self) {
        IngestError::Sqlite(e)
    }
}

impl vstd::std_specs::convert::FromSpecImpl<rusqlite::Error> for IngestError {
    open spec fn obeys_from_spec() -> bool {
        true
    }

    open spec fn from_spec(e: rusqlite::Error) -> Self {
        IngestError::Sqlite(e)
    }
}

// ===== Input records, one per written table. =====

/// A token launch observed on-chain. Goes to `raw_token_launch`.
#[derive(Debug, Clone)]
pub struct TokenLaunch {
    pub mint: String,
    pub deployer: String,
    pub program: String,
    pub slot: i64,
    pub seen_unix_ms: i64,
    pub launch_sig: String,
}

/// A movement of funds between two wallets. Goes to `raw_wallet_flow`.
#[derive(Debug, Clone)]
pub struct WalletFlow {
    pub sig: String,
    pub slot: i64,
    pub src: String,
    pub dst: String,
    /// `None` for a native SOL transfer. With `mint = None` the constraint
    /// `UNIQUE(sig, src, dst, mint)` does not deduplicate (SQLite treats
    /// `NULL != NULL`). See [`record_flow`].
    pub mint: Option<String>,
    pub amount: i64,
    /// Nature of the flow, e.g. `"sol"`, `"token"`, `"fee"`.
    pub kind: String,
}

/// A participant in a launch. Goes to `raw_launch_participant`.
#[derive(Debug, Clone)]
pub struct LaunchParticipant {
    pub mint: String,
    pub wallet: String,
    pub slot: i64,
    pub amount: Option<i64>,
    pub is_signer: bool,
}

/// A fact observed in the life cycle of a token. Goes to `token_outcome`.
///
/// `label` must never be `'alive'` ([`record_outcome`] refuses it).
#[derive(Debug, Clone)]
pub struct TokenOutcome {
    pub mint: String,
    /// E.g. `'lp_pulled'`, `'price_zero'`, `'dev_dumped'`. Never `'alive'`.
    pub label: String,
    /// `'terminal'` or `'event'`.
    pub label_class: String,
    pub observed_slot: i64,
    /// Finality against forks: `true` once 32 slots are stacked on top.
    pub is_final: bool,
}

/// An action taken by the sniping bot, read from its journal. Goes to
/// `trade_outcome`.
///
/// FACT-LIKE: irreversible and not observable again. `ingested_unix_ms` is stamped
/// at the time of writing.
#[derive(Debug, Clone)]
pub struct TradeOutcome {
    pub mint: String,
    pub cluster_id: Option<i64>,
    pub prediction_id: Option<i64>,
    /// `'buy'`, `'sell'`, `'skip'`, `'blocked'`.
    pub action: String,
    pub reason: Option<String>,
    pub amount_sol: Option<i64>,
    /// `None` while the position is open or when the action was not executed.
    pub pnl_lamports: Option<i64>,
    pub bot_slot: i64,
}

/// On-chain observations of one time slice, written atomically.
#[derive(Debug, Default, Clone)]
pub struct EventBatch {
    pub launches: Vec<TokenLaunch>,
    pub flows: Vec<WalletFlow>,
    pub participants: Vec<LaunchParticipant>,
}

/// Number of rows actually inserted by [`ingest_batch`] (duplicates ignored).
#[derive(Debug, Default, Clone, PartialEq, Eq)]
pub struct BatchCounts {
    pub launches: usize,
    pub flows: usize,
    pub participants: usize,
}

// ===== Statements and their parameters. =====
//
// Each `*_BODY` is the text of a statement after its table's name:
// `write_statement` puts the keyword and the table in front of it.

/// `INSERT OR IGNORE INTO raw_token_launch ...`.
pub const INSERT_LAUNCH_BODY: &'static str = "(mint, deployer, program, slot, seen_unix_ms, launch_sig) VALUES (?, ?, ?, ?, ?, ?)";

/// `INSERT OR IGNORE INTO raw_wallet_flow ...`.
pub const INSERT_FLOW_BODY: &'static str = "(sig, slot, src, dst, mint, amount, kind) VALUES (?, ?, ?, ?, ?, ?, ?)";

/// `INSERT OR IGNORE INTO raw_launch_participant ...`.
pub const INSERT_PARTICIPANT_BODY: &'static str = "(mint, wallet, slot, amount, is_signer) VALUES (?, ?, ?, ?, ?)";

/// `INSERT OR IGNORE INTO token_outcome ...`.
pub const INSERT_OUTCOME_BODY: &'static str = "(mint, label, label_class, observed_slot, \"final\") VALUES (?, ?, ?, ?, ?)";

/// `INSERT INTO trade_outcome ...`.
pub const INSERT_TRADE_BODY: &'static str = "(mint, cluster_id, prediction_id, action, reason, amount_sol, pnl_lamports, bot_slot, \
      ingested_unix_ms) VALUES (?, ?, ?, ?, ?, ?, ?, ?, ?)";

/// SQLite's integer for a boolean.
pub open spec fn flag(b: bool) -> i64 {
    if b { 1 } else { 0 }
}

/// The values bound to the parameters of the launch insert, in order.
pub open spec fn launch_values(l: TokenLaunch) -> Seq<SqlParam> {
    seq![
        SqlParam::Text(l.mint@),
        SqlParam::Text(l.deployer@),
        SqlParam::Text(l.program@),
        SqlParam::Integer(l.slot),
        SqlParam::Integer(l.seen_unix_ms),
        SqlParam::Text(l.launch_sig@),
    ]
}

/// The parameters of [`INSERT_LAUNCH_BODY`] for `l`.
pub fn launch_params(l: &TokenLaunch) -> (p: Vec<SqlValue>)
    ensures
        params_view(p@) == launch_values(*l),
{
    let p = vec![
        text_param(&l.mint),
        text_param(&l.deployer),
        text_param(&l.program),
        SqlValue::Integer(l.slot),
        SqlValue::Integer(l.seen_unix_ms),
        text_param(&l.launch_sig),
    ];
    assert(params_view(p@) =~= seq![
        SqlParam::Text(l.mint@),
        SqlParam::Text(l.deployer@),
        SqlParam::Text(l.program@),
        SqlParam::Integer(l.slot),
        SqlParam::Integer(l.seen_unix_ms),
        SqlParam::Text(l.launch_sig@),
    ]);
    p
}

/// The values bound to the parameters of the flow insert, in order.
pub open spec fn flow_values(f: WalletFlow) -> Seq<SqlParam> {
    seq![
        SqlParam::Text(f.sig@),
        SqlParam::Integer(f.slot),
        SqlParam::Text(f.src@),
        SqlParam::Text(f.dst@),
        match f.mint {
            Some(m) => SqlParam::Text(m@),
            None => SqlParam::Null,
        },
        SqlParam::Integer(f.amount),
        SqlParam::Text(f.kind@),
    ]
}

/// The parameters of [`INSERT_FLOW_BODY`] for `f`; an absent mint is bound as `NULL`.
pub fn flow_params(f: &WalletFlow) -> (p: Vec<SqlValue>)
    ensures
        params_view(p@) == flow_values(*f),
{
    let p = vec![
        text_param(&f.sig),
        SqlValue::Integer(f.slot),
        text_param(&f.src),
        text_param(&f.dst),
        opt_text_param(&f.mint),
        SqlValue::Integer(f.amount),
        text_param(&f.kind),
    ];
    assert(params_view(p@) =~= seq![
        SqlParam::Text(f.sig@),
        SqlParam::Integer(f.slot),
        SqlParam::Text(f.src@),
        SqlParam::Text(f.dst@),
        match f.mint {
            Some(m) => SqlParam::Text(m@),
            None => SqlParam::Null,
        },
        SqlParam::Integer(f.amount),
        SqlParam::Text(f.kind@),
    ]);
    p
}

/// The values bound to the parameters of the participant insert, in order.
pub open spec fn participant_values(p: LaunchParticipant) -> Seq<SqlParam> {
    seq![
        SqlParam::Text(p.mint@),
        SqlParam::Text(p.wallet@),
        SqlParam::Integer(p.slot),
        match p.amount {
            Some(a) => SqlParam::Integer(a),
            None => SqlParam::Null,
        },
        SqlParam::Integer(flag(p.is_signer)),
    ]
}

/// The parameters of [`INSERT_PARTICIPANT_BODY`] for `p`; `is_signer` is bound as
/// `0` or `1`.
pub fn participant_params(p: &LaunchParticipant) -> (v: Vec<SqlValue>)
    ensures
        params_view(v@) == participant_values(*p),
{
    let v = vec![
        text_param(&p.mint),
        text_param(&p.wallet),
        SqlValue::Integer(p.slot),
        opt_int_param(p.amount),
        SqlValue::Integer(if p.is_signer { 1 } else { 0 }),
    ];
    assert(params_view(v@) =~= seq![
        SqlParam::Text(p.mint@),
        SqlParam::Text(p.wallet@),
        SqlParam::Integer(p.slot),
        match p.amount {
            Some(a) => SqlParam::Integer(a),
            None => SqlParam::Null,
        },
        SqlParam::Integer(flag(p.is_signer)),
    ]);
    v
}

/// The parameters of [`INSERT_OUTCOME_BODY`] for `o`; `is_final` is bound as `0`
/// or `1`.
pub fn outcome_params(o: &TokenOutcome) -> (v: Vec<SqlValue>)
    ensures
        params_view(v@) == seq![
            SqlParam::Text(o.mint@),
            SqlParam::Text(o.label@),
            SqlParam::Text(o.label_class@),
            SqlParam::Integer(o.observed_slot),
            SqlParam::Integer(flag(o.is_final)),
        ],
{
    let v = vec![
        text_param(&o.mint),
        text_param(&o.label),
        text_param(&o.label_class),
        SqlValue::Integer(o.observed_slot),
        SqlValue::Integer(if o.is_final { 1 } else { 0 }),
    ];
    assert(params_view(v@) =~= seq![
        SqlParam::Text(o.mint@),
        SqlParam::Text(o.label@),
        SqlParam::Text(o.label_class@),
        SqlParam::Integer(o.observed_slot),
        SqlParam::Integer(flag(o.is_final)),
    ]);
    v
}

/// The parameters of [`INSERT_TRADE_BODY`] for `t`, stamped `ingested_unix_ms`.
pub fn trade_params(t: &TradeOutcome, ingested_unix_ms: i64) -> (v: Vec<SqlValue>)
    ensures
        params_view(v@) == seq![
            SqlParam::Text(t.mint@),
            match t.cluster_id {
                Some(x) => SqlParam::Integer(x),
                None => SqlParam::Null,
            },
            match t.prediction_id {
                Some(x) => SqlParam::Integer(x),
                None => SqlParam::Null,
            },
            SqlParam::Text(t.action@),
            match t.reason {
                Some(x) => SqlParam::Text(x@),
                None => SqlParam::Null,
            },
            match t.amount_sol {
                Some(x) => SqlParam::Integer(x),
                None => SqlParam::Null,
            },
            match t.pnl_lamports {
                Some(x) => SqlParam::Integer(x),
                None => SqlParam::Null,
            },
            SqlParam::Integer(t.bot_slot),
            SqlParam::Integer(ingested_unix_ms),
        ],
{
    let v = vec![
        text_param(&t.mint),
        opt_int_param(t.cluster_id),
        opt_int_param(t.prediction_id),
        text_param(&t.action),
        opt_text_param(&t.reason),
        opt_int_param(t.amount_sol),
        opt_int_param(t.pnl_lamports),
        SqlValue::Integer(t.bot_slot),
        SqlValue::Integer(ingested_unix_ms),
    ];
    assert(params_view(v@) =~= seq![
        SqlParam::Text(t.mint@),
        match t.cluster_id {
            Some(x) => SqlParam::Integer(x),
            None => SqlParam::Null,
        },
        match t.prediction_id {
            Some(x) => SqlParam::Integer(x),
            None => SqlParam::Null,
        },
        SqlParam::Text(t.action@),
        match t.reason {
            Some(x) => SqlParam::Text(x@),
            None => SqlParam::Null,
        },
        match t.amount_sol {
            Some(x) => SqlParam::Integer(x),
            None => SqlParam::Null,
        },
        match t.pnl_lamports {
            Some(x) => SqlParam::Integer(x),
            None => SqlParam::Null,
        },
        SqlParam::Integer(t.bot_slot),
        SqlParam::Integer(ingested_unix_ms),
    ]);
    v
}

// ===== Single inserts: append-only, idempotent. =====

/// Whether an `INSERT OR IGNORE` of one row added it: it changed exactly one row.
pub fn inserted(changed: usize) -> (new: bool)
    ensures
        new == (changed == 1),
{
    changed == 1
}

/// Runs a write statement of the ingestor, and records it. Its table must be one
/// that the ingestor writes (RAW or FACT-LIKE), so the ingestor never writes a
/// derived table nor the queue; and it must be an `INSERT`, so the ingestor's
/// tables stay append-only.
fn ingest_run(conn: &rusqlite::Connection, w: &Write, params: &Vec<SqlValue>) -> (r: Result<Executed, IngestError>)
    requires
        w.wf(),
        w.table.is_field_table(),
        w.only_adds(),
    ensures
        r matches Err(e) ==> e is Sqlite,
        r matches Ok(x) ==> x.sql() == w.sql@ && x.params() == params_view(params@),
{
    match run(conn, w.sql.as_str(), params) {
        Ok(x) => Ok(x),
        Err(DbError::Sqlite(e)) => Err(IngestError::Sqlite(e)),
        Err(_) => {
            proof {
                assert(false);
            }
            Err(IngestError::ForbiddenLabel(String::new()))
        },
    }
}

/// Runs a write statement of the ingestor, and returns how many rows it changed
/// (see [`ingest_run`]).
fn ingest_write(conn: &rusqlite::Connection, w: &Write, params: &Vec<SqlValue>) -> (r: Result<usize, IngestError>)
    requires
        w.wf(),
        w.table.is_field_table(),
        w.only_adds(),
    ensures
        r matches Err(e) ==> e is Sqlite,
{
    let x = ingest_run(conn, w, params)?;
    Ok(x.changed_rows())
}

/// The statement that records a launch.
pub open spec fn launch_insert_sql() -> Seq<char> {
    Verb::InsertOrIgnore.keyword() + Table::RawTokenLaunch.table_name() + " "@ + INSERT_LAUNCH_BODY@
}

/// The statement that records a flow.
pub open spec fn flow_insert_sql() -> Seq<char> {
    Verb::InsertOrIgnore.keyword() + Table::RawWalletFlow.table_name() + " "@ + INSERT_FLOW_BODY@
}

/// The statement that records a participant.
pub open spec fn participant_insert_sql() -> Seq<char> {
    Verb::InsertOrIgnore.keyword() + Table::RawLaunchParticipant.table_name() + " "@ + INSERT_PARTICIPANT_BODY@
}

/// Runs the insert of launch `l`.
fn insert_launch(conn: &rusqlite::Connection, l: &TokenLaunch) -> (r: Result<Executed, IngestError>)
    ensures
        r matches Err(e) ==> e is Sqlite,
        r matches Ok(x) ==> x.sql() == launch_insert_sql() && x.params() == launch_values(*l),
{
    let w = write_statement(Verb::InsertOrIgnore, Table::RawTokenLaunch, INSERT_LAUNCH_BODY);
    ingest_run(conn, &w, &launch_params(l))
}

/// Runs the insert of flow `f`.
fn insert_flow(conn: &rusqlite::Connection, f: &WalletFlow) -> (r: Result<Executed, IngestError>)
    ensures
        r matches Err(e) ==> e is Sqlite,
        r matches Ok(x) ==> x.sql() == flow_insert_sql() && x.params() == flow_values(*f),
{
    let w = write_statement(Verb::InsertOrIgnore, Table::RawWalletFlow, INSERT_FLOW_BODY);
    ingest_run(conn, &w, &flow_params(f))
}

/// Runs the insert of participant `p`.
fn insert_participant(conn: &rusqlite::Connection, p: &LaunchParticipant) -> (r: Result<Executed, IngestError>)
    ensures
        r matches Err(e) ==> e is Sqlite,
        r matches Ok(x) ==> x.sql() == participant_insert_sql() && x.params() == participant_values(*p),
{
    let w = write_statement(Verb::InsertOrIgnore, Table::RawLaunchParticipant, INSERT_PARTICIPANT_BODY);
    ingest_run(conn, &w, &participant_params(p))
}

/// How many of the statements `xs` added a row: changed exactly one.
pub open spec fn new_rows(xs: Seq<Executed>) -> nat
    decreases xs.len(),
{
    if xs.len() == 0 {
        0
    } else {
        new_rows(xs.drop_last()) + if xs.last().changed() == 1 { 1nat } else { 0nat }
    }
}

/// No more statements added a row than were run.
proof fn lemma_new_rows_bound(xs: Seq<Executed>)
    ensures
        new_rows(xs) <= xs.len(),
    decreases xs.len(),
{
    if xs.len() > 0 {
        lemma_new_rows_bound(xs.drop_last());
    }
}

/// The statements `xs` record the items `items` one by one, in order: the `i`-th
/// ran `sql` with the values of the `i`-th item.
pub open spec fn records_each<T>(xs: Seq<Executed>, items: Seq<T>, sql: Seq<char>, values: spec_fn(T) -> Seq<SqlParam>) -> bool {
    &&& xs.len() == items.len()
    &&& forall|i: int| 0 <= i < xs.len() ==> (#[trigger] xs[i]).sql() == sql && xs[i].params() == values(items[i])
}

/// A batch was written: every launch, flow and participant of it was inserted,
/// in order, each by its own statement, and each count is the number of those
/// inserts that added a row.
pub open spec fn batch_recorded(
    batch: EventBatch,
    launches: Seq<Executed>,
    flows: Seq<Executed>,
    participants: Seq<Executed>,
    counts: BatchCounts,
) -> bool {
    &&& records_each(launches, batch.launches@, launch_insert_sql(), |l: TokenLaunch| launch_values(l))
    &&& records_each(flows, batch.flows@, flow_insert_sql(), |f: WalletFlow| flow_values(f))
    &&& records_each(participants, batch.participants@, participant_insert_sql(), |p: LaunchParticipant| participant_values(p))
    &&& counts.launches == new_rows(launches)
    &&& counts.flows == new_rows(flows)
    &&& counts.participants == new_rows(participants)
}

/// Runs the insert `w` with `params`; `Ok` tells whether the row was new.
fn insert_or_ignore(conn: &rusqlite::Connection, w: &Write, params: &Vec<SqlValue>) -> (r: Result<bool, IngestError>)
    requires
        w.wf(),
        w.table.is_field_table(),
        w.only_adds(),
    ensures
        r matches Err(e) ==> e is Sqlite,
{
    let n = ingest_write(conn, w, params)?;
    Ok(inserted(n))
}

/// Records a launch. `true` when the row was new, `false` when one with the same
/// `mint` already existed.
pub fn record_launch(conn: &rusqlite::Connection, l: &TokenLaunch) -> (r: Result<bool, IngestError>)
    ensures
        r matches Err(e) ==> e is Sqlite,
{
    let x = insert_launch(conn, l)?;
    Ok(inserted(x.changed_rows()))
}

/// Records a flow of funds. `true` when new, `false` when a duplicate on
/// `UNIQUE(sig, src, dst, mint)`.
///
/// Idempotence holds for token flows (`mint` present). For a native SOL flow
/// (`mint = None`), SQLite treats `NULL != NULL` in a UNIQUE constraint, so two
/// identical SOL flows make two rows: the source must provide signatures that are
/// unique per transaction.
pub fn record_flow(conn: &rusqlite::Connection, f: &WalletFlow) -> (r: Result<bool, IngestError>)
    ensures
        r matches Err(e) ==> e is Sqlite,
{
    let x = insert_flow(conn, f)?;
    Ok(inserted(x.changed_rows()))
}

/// Records a participant. `true` when new, `false` when a duplicate on
/// `PRIMARY KEY (mint, wallet)`.
pub fn record_participant(conn: &rusqlite::Connection, p: &LaunchParticipant) -> (r: Result<bool, IngestError>)
    ensures
        r matches Err(e) ==> e is Sqlite,
{
    let x = insert_participant(conn, p)?;
    Ok(inserted(x.changed_rows()))
}

/// Records a `token_outcome`. `true` when new, `false` when a duplicate on
/// `UNIQUE(mint, label, observed_slot)`.
///
/// Refuses `label == "alive"` before any write, with `ForbiddenLabel` holding the
/// label; any other label reaches the database.
pub fn record_outcome(conn: &rusqlite::Connection, o: &TokenOutcome) -> (r: Result<bool, IngestError>)
    ensures
        o.label@ == "alive"@ <==> r matches Err(IngestError::ForbiddenLabel(_)),
        r matches Err(IngestError::ForbiddenLabel(label)) ==> label@ == o.label@,
{
    if texts_equal(o.label.as_str(), "alive") {
        return Err(IngestError::ForbiddenLabel(o.label.clone()));
    }
    let w = write_statement(Verb::InsertOrIgnore, Table::TokenOutcome, INSERT_OUTCOME_BODY);
    insert_or_ignore(conn, &w, &outcome_params(o))
}

/// Records a `trade_outcome` (append-only journal, always inserted), stamped with
/// the current time. Returns the `rowid` of the new row.
pub fn record_trade(conn: &rusqlite::Connection, t: &TradeOutcome) -> (r: Result<i64, IngestError>)
    ensures
        r matches Err(e) ==> e is Sqlite,
{
    let w = write_statement(Verb::Insert, Table::TradeOutcome, INSERT_TRADE_BODY);
    ingest_write(conn, &w, &trade_params(t, crate::now_unix_ms()))?;
    Ok(last_rowid(conn))
}

/// Writes a batch of on-chain observations in one transaction.
///
/// Atomic: if one insert fails, the whole batch is rolled back. Rows already
/// present are ignored and not counted, so no count exceeds its input.
pub fn ingest_batch(conn: &rusqlite::Connection, batch: &EventBatch) -> (r: Result<BatchCounts, IngestError>)
    ensures
        r matches Err(e) ==> e is Sqlite,
        r matches Ok(c) ==> {
            &&& c.launches <= batch.launches@.len()
            &&& c.flows <= batch.flows@.len()
            &&& c.participants <= batch.participants@.len()
        },
        r matches Ok(c) ==> exists|l: Seq<Executed>, f: Seq<Executed>, p: Seq<Executed>|
            #[trigger] batch_recorded(*batch, l, f, p, c),
{
    let tx = match begin_transaction(conn) {
        Ok(t) => t,
        Err(e) => return Err(IngestError::Sqlite(e)),
    };
    let mut counts = BatchCounts { launches: 0, flows: 0, participants: 0 };
    let ghost mut lx: Seq<Executed> = Seq::empty();
    let ghost mut fx: Seq<Executed> = Seq::empty();
    let ghost mut px: Seq<Executed> = Seq::empty();
    {
        let c = transaction_connection(&tx);
        let mut i: usize = 0;
        while i < batch.launches.len()
            invariant
                i <= batch.launches@.len(),
                records_each(lx, batch.launches@.take(i as int), launch_insert_sql(), |l: TokenLaunch| launch_values(l)),
                counts.launches == new_rows(lx),
                counts.flows == 0,
                counts.participants == 0,
            decreases batch.launches@.len() - i,
        {
            let x = insert_launch(c, &batch.launches[i])?;
            proof {
                lemma_new_rows_bound(lx);
                assert(lx.push(x).drop_last() =~= lx);
                lx = lx.push(x);
            }
            if inserted(x.changed_rows()) {
                counts.launches = counts.launches + 1;
            }
            i = i + 1;
        }
        let mut i: usize = 0;
        while i < batch.flows.len()
            invariant
                i <= batch.flows@.len(),
                records_each(lx, batch.launches@, launch_insert_sql(), |l: TokenLaunch| launch_values(l)),
                counts.launches == new_rows(lx),
                records_each(fx, batch.flows@.take(i as int), flow_insert_sql(), |f: WalletFlow| flow_values(f)),
                counts.flows == new_rows(fx),
                counts.participants == 0,
            decreases batch.flows@.len() - i,
        {
            let x = insert_flow(c, &batch.flows[i])?;
            proof {
                lemma_new_rows_bound(fx);
                assert(fx.push(x).drop_last() =~= fx);
                fx = fx.push(x);
            }
            if inserted(x.changed_rows()) {
                counts.flows = counts.flows + 1;
            }
            i = i + 1;
        }
        let mut i: usize = 0;
        while i < batch.participants.len()
            invariant
                i <= batch.participants@.len(),
                records_each(lx, batch.launches@, launch_insert_sql(), |l: TokenLaunch| launch_values(l)),
                counts.launches == new_rows(lx),
                records_each(fx, batch.flows@, flow_insert_sql(), |f: WalletFlow| flow_values(f)),
                counts.flows == new_rows(fx),
                records_each(px, batch.participants@.take(i as int), participant_insert_sql(), |p: LaunchParticipant| participant_values(p)),
                counts.participants == new_rows(px),
            decreases batch.participants@.len() - i,
        {
            let x = insert_participant(c, &batch.participants[i])?;
            proof {
                lemma_new_rows_bound(px);
                assert(px.push(x).drop_last() =~= px);
                px = px.push(x);
            }
            if inserted(x.changed_rows()) {
                counts.participants = counts.participants + 1;
            }
            i = i + 1;
        }
    }
    proof {
        lemma_new_rows_bound(lx);
        lemma_new_rows_bound(fx);
        lemma_new_rows_bound(px);
        assert(batch_recorded(*batch, lx, fx, px, counts));
    }
    match commit_transaction(tx) {
        Ok(()) => {
            let r: Result<BatchCounts, IngestError> = Ok(counts);
            assert(r matches Ok(c) && batch_recorded(*batch, lx, fx, px, c));
            r
        },
        Err(e) => Err(IngestError::Sqlite(e)),
    }
}

} // verus!
