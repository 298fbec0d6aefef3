//! Analyser: computes the DERIVED RECOMPUTABLE tables from field facts.
//!
//! Strict write scope: only `cluster`, `cluster_member`, `cluster_profile`,
//! `score_prediction` (all dropped and recreated by
//! [`crate::db::reset_recomputable`]), the `'auto'` rows of `passthrough_node`, and
//! the queue `analysis_queue`. The analyser only READS the RAW / FACT-LIKE tables.
//!
//! One tick ([`run_once`]):
//! 1. [`detect_passthrough`]: marks the hubs (mixers, exchanges) with high fan-in
//!    AND fan-out as `'auto'`; they are kept out of every cluster.
//! 2. [`enqueue_new_deployers`]: queues the deployers of `raw_token_launch` not yet
//!    in `analysis_queue`.
//! 3. [`analyze_deployer`] for each deployer to (re)process: builds its cluster, its
//!    Bayesian profile and its predictions.
//!
//! Every write statement is a [`crate::writes::Write`] whose table is checked to be
//! one of the above before it runs; each `*_BODY` constant is the text of a
//! statement after its table's name.
//!
//! The decisions are made by verified functions on query results:
//! [`hubs::passthrough_hubs`], [`links::strongest_links`], [`risk::beta_profile`].

pub mod hubs;
pub mod links;
pub mod ratio;
pub mod risk;

use vstd::prelude::*;
use vstd::hash_set::StringHashSet;
use crate::sql::{
    Answer, Executed, ask_text_int_pairs, ask_text_text_int_triples, ask_one_int, ask_texts, run,
    DbError, SqlValue, SqlParam, params_view, text_param, execute, query_texts, query_ints,
    query_text_int_pairs, query_text_text_int_triples, query_one_int, last_rowid, begin_transaction,
    transaction_connection, commit_transaction,
};
use crate::text::{copy_string, push_char, texts_equal};
use crate::writes::{Table, Verb, Write, write_statement};
use hubs::{HubStats, FlowRow, passthrough_hubs};
use links::{Link, CoParticipation, link_signals, strongest_links};
use ratio::Ratio;
use risk::{RiskProfile, beta_profile, MAX_TOKEN_COUNT};

verus! {

/// Version of the clustering and scoring method. Raised when the algorithm
/// changes, to tell apart `cluster` / `score_prediction` rows of different epochs.
pub const METHOD_VERSION: i64 = 1;

/// The outcome of one analysis tick.
#[derive(Debug, Default, Clone, PartialEq, Eq)]
pub struct AnalysisReport {
    pub passthrough_detected: usize,
    pub deployers_enqueued: usize,
    pub deployers_analyzed: usize,
    pub clusters_built: usize,
    pub members_linked: usize,
    pub predictions_emitted: usize,
}

/// The outcome of the analysis of one deployer.
#[derive(Debug, Clone)]
pub struct DeployerResult {
    pub cluster_id: i64,
    pub members: usize,
    pub predictions: usize,
}

impl AnalysisReport {
    /// Accounts for one analysed deployer: one more deployer, one more cluster, its
    /// members and its predictions (sums saturate at `usize::MAX`).
    pub fn count_analyzed(&mut self, res: &DeployerResult)
        ensures
            final(self).passthrough_detected == old(self).passthrough_detected,
            final(self).deployers_enqueued == old(self).deployers_enqueued,
            final(self).deployers_analyzed == saturated(old(self).deployers_analyzed + 1),
            final(self).clusters_built == saturated(old(self).clusters_built + 1),
            final(self).members_linked == saturated(old(self).members_linked + res.members),
            final(self).predictions_emitted == saturated(old(self).predictions_emitted + res.predictions),
    {
        self.deployers_analyzed = self.deployers_analyzed.saturating_add(1);
        self.clusters_built = self.clusters_built.saturating_add(1);
        self.members_linked = self.members_linked.saturating_add(res.members);
        self.predictions_emitted = self.predictions_emitted.saturating_add(res.predictions);
    }
}

/// `n`, or `usize::MAX` when it is larger.
pub open spec fn saturated(n: int) -> int {
    if n > usize::MAX { usize::MAX as int } else { n }
}

/// The report once the analysis of one more deployer, with result `res`, is
/// accounted for (see [`AnalysisReport::count_analyzed`]).
pub open spec fn counted(report: AnalysisReport, res: DeployerResult) -> AnalysisReport {
    AnalysisReport {
        passthrough_detected: report.passthrough_detected,
        deployers_enqueued: report.deployers_enqueued,
        deployers_analyzed: saturated(report.deployers_analyzed + 1) as usize,
        clusters_built: saturated(report.clusters_built + 1) as usize,
        members_linked: saturated(report.members_linked + res.members) as usize,
        predictions_emitted: saturated(report.predictions_emitted + res.predictions) as usize,
    }
}

/// The queue status that an analysed deployer receives.
#[derive(Debug, Clone, Copy, PartialEq, Eq, Structural)]
pub enum QueueMark {
    /// The analysis succeeded: status `'done'`.
    Done,
    /// The analysis failed: status `'error'`, one more attempt, and the message.
    Error,
}

/// The step of a tick after the analysis of one deployer: a success is counted
/// in the report and marks the deployer `'done'`; a failure leaves the report as
/// it was and marks the deployer `'error'`, and the tick goes on.
pub fn after_analysis(report: &AnalysisReport, outcome: &Result<DeployerResult, DbError>) -> (r: (AnalysisReport, QueueMark))
    ensures
        match outcome {
            Ok(res) => r.0 == counted(*report, *res) && r.1 == QueueMark::Done,
            Err(_) => r.0 == *report && r.1 == QueueMark::Error,
        },
{
    let mut next = AnalysisReport {
        passthrough_detected: report.passthrough_detected,
        deployers_enqueued: report.deployers_enqueued,
        deployers_analyzed: report.deployers_analyzed,
        clusters_built: report.clusters_built,
        members_linked: report.members_linked,
        predictions_emitted: report.predictions_emitted,
    };
    match outcome {
        Ok(res) => {
            next.count_analyzed(res);
            (next, QueueMark::Done)
        },
        Err(_) => (next, QueueMark::Error),
    }
}

/// The message recorded as `last_error` for a failed analysis; empty for a success.
pub fn failure_message(outcome: &Result<DeployerResult, DbError>) -> (m: String)
    ensures
        outcome is Ok ==> m@ == Seq::<char>::empty(),
        outcome matches Err(DbError::NoRow) ==> m@ == "Query returned no rows"@,
        outcome matches Err(DbError::UnexpectedValue) ==> m@ == "unexpected value in query result"@,
{
    match outcome {
        Ok(_) => String::new(),
        Err(e) => e.message(),
    }
}

// ===== Statement building. =====

/// `n` parameter markers `?` separated by commas, for an `IN (...)` clause.
pub open spec fn placeholder_list(n: nat) -> Seq<char>
    decreases n,
{
    if n == 0 {
        Seq::empty()
    } else if n == 1 {
        seq!['?']
    } else {
        placeholder_list((n - 1) as nat) + seq![',', '?']
    }
}

/// Builds `n` parameter markers `?` separated by commas, for an `IN (...)` clause.
pub fn placeholders(n: usize) -> (s: String)
    ensures
        s@ == placeholder_list(n as nat),
        n > 0 ==> s@.len() == 2 * n - 1,
        forall|i: int| 0 <= i < s@.len() ==> s@[i] == (if i % 2 == 0 { '?' } else { ',' }),
{
    let mut s = String::new();
    let mut i: usize = 0;
    while i < n
        invariant
            i <= n,
            s@ == placeholder_list(i as nat),
            i > 0 ==> s@.len() == 2 * i - 1,
            i == 0 ==> s@.len() == 0,
            forall|j: int| 0 <= j < s@.len() ==> s@[j] == (if j % 2 == 0 { '?' } else { ',' }),
        decreases n - i,
    {
        if i > 0 {
            push_char(&mut s, ',');
        }
        push_char(&mut s, '?');
        i = i + 1;
    }
    s
}

/// `prefix + middle + suffix` as a new string.
fn concat3(prefix: &str, middle: &str, suffix: &str) -> (s: String)
    ensures
        s@ == prefix@ + middle@ + suffix@,
{
    let mut s = String::from_str(prefix);
    s.append(middle);
    s.append(suffix);
    s
}

/// `first` followed by each of `rest`, as text parameters.
pub fn text_params(first: &str, rest: &Vec<String>) -> (p: Vec<SqlValue>)
    ensures
        p@.len() == rest@.len() + 1,
        p@[0]@ == SqlParam::Text(first@),
        forall|i: int| 0 <= i < rest@.len() ==> (#[trigger] p@[i + 1])@ == SqlParam::Text(rest@[i]@),
        params_view(p@) == text_values(first@, rest@),
{
    let mut p: Vec<SqlValue> = Vec::new();
    p.push(SqlValue::Text(String::from_str(first)));
    let mut i: usize = 0;
    while i < rest.len()
        invariant
            i <= rest@.len(),
            p@.len() == i + 1,
            p@[0]@ == SqlParam::Text(first@),
            forall|j: int| 0 <= j < i ==> (#[trigger] p@[j + 1])@ == SqlParam::Text(rest@[j]@),
        decreases rest@.len() - i,
    {
        p.push(text_param(&rest[i]));
        i = i + 1;
    }
    assert(params_view(p@) =~= text_values(first@, rest@)) by {
        assert forall|k: int| 0 <= k < p@.len() implies params_view(p@)[k] == text_values(first@, rest@)[k] by {
            if k > 0 {
                assert(p@[(k - 1) + 1]@ == SqlParam::Text(rest@[k - 1]@));
            }
        }
    }
    p
}

/// The values bound by [`text_params`]: `first`, then each of `rest`, as texts.
pub open spec fn text_values(first: Seq<char>, rest: Seq<String>) -> Seq<SqlParam> {
    seq![SqlParam::Text(first)] + rest.map_values(|s: String| SqlParam::Text(s@))
}

/// Each of `items`, as text parameters.
fn texts_as_params(items: &Vec<String>) -> (p: Vec<SqlValue>)
    ensures
        p@.len() == items@.len(),
        forall|i: int| 0 <= i < items@.len() ==> (#[trigger] p@[i])@ == SqlParam::Text(items@[i]@),
{
    let mut p: Vec<SqlValue> = Vec::new();
    let mut i: usize = 0;
    while i < items.len()
        invariant
            i <= items@.len(),
            p@.len() == i,
            forall|j: int| 0 <= j < i ==> (#[trigger] p@[j])@ == SqlParam::Text(items@[j]@),
        decreases items@.len() - i,
    {
        p.push(text_param(&items[i]));
        i = i + 1;
    }
    p
}

/// Runs a write statement of the analyser. Its table must be one that the
/// analyser writes (a derived table, `passthrough_node` or the queue), so the
/// analyser never writes a RAW or FACT-LIKE table.
fn analysis_write(conn: &rusqlite::Connection, w: &Write, params: &Vec<SqlValue>) -> (r: Result<usize, DbError>)
    requires
        w.wf(),
        w.table.is_analysis_table(),
    ensures
        r matches Err(e) ==> e is Sqlite,
{
    let x = analysis_run(conn, w, params)?;
    Ok(x.changed_rows())
}

/// Runs a write statement of the analyser, as [`analysis_write`] does, and
/// records it.
fn analysis_run(conn: &rusqlite::Connection, w: &Write, params: &Vec<SqlValue>) -> (r: Result<Executed, DbError>)
    requires
        w.wf(),
        w.table.is_analysis_table(),
    ensures
        r matches Err(e) ==> e is Sqlite,
        r matches Ok(x) ==> x.sql() == w.sql@ && x.params() == params_view(params@),
{
    run(conn, w.sql.as_str(), params)
}

// ===== Step 1: passthrough detection. =====

pub const SELECT_FLOWS_SQL: &'static str = "SELECT src, dst, slot FROM raw_wallet_flow";

/// `DELETE FROM passthrough_node ...`: the `'auto'` rows, never the `'seed'` ones.
pub const PURGE_AUTO_HUBS_BODY: &'static str = "WHERE source = 'auto'";

/// `INSERT OR IGNORE INTO passthrough_node ...`: inserts a hub; the heterogeneity `2·min(in, out) / (in + out)` (1 for a pure
/// relay) is computed by SQLite from its two integer parameters.
pub const INSERT_HUB_BODY: &'static str = "(address, label, source, degree, heterogeneity, decided_slot) \
     VALUES (?, ?, 'auto', ?, 2.0 * ? / ?, ?)";

pub const HUB_LABEL: &'static str = "auto-detected hub";

/// The values bound to the parameters of the insert of hub `h`, in order.
pub open spec fn hub_values(h: HubStats) -> Seq<SqlParam> {
    seq![
        SqlParam::Text(h.address@),
        SqlParam::Text(HUB_LABEL@),
        SqlParam::Integer(h.degree as i64),
        SqlParam::Integer((if h.fan_in < h.fan_out { h.fan_in } else { h.fan_out }) as i64),
        SqlParam::Integer((h.fan_in + h.fan_out) as i64),
        SqlParam::Integer(h.max_slot),
    ]
}

/// The parameters of [`INSERT_HUB_BODY`] for `h`: address, label, degree,
/// `min(fan_in, fan_out)`, `fan_in + fan_out`, latest slot.
pub fn hub_params(h: &HubStats) -> (p: Vec<SqlValue>)
    ensures
        params_view(p@) == hub_values(*h),
{
    let low = if h.fan_in < h.fan_out { h.fan_in } else { h.fan_out };
    let p = vec![
        text_param(&h.address),
        SqlValue::Text(String::from_str(HUB_LABEL)),
        SqlValue::Integer(h.degree as i64),
        SqlValue::Integer(low as i64),
        SqlValue::Integer(((h.fan_in as u128) + (h.fan_out as u128)) as i64),
        SqlValue::Integer(h.max_slot),
    ];
    assert(params_view(p@) =~= seq![
        SqlParam::Text(h.address@),
        SqlParam::Text(HUB_LABEL@),
        SqlParam::Integer(h.degree as i64),
        SqlParam::Integer(low as i64),
        SqlParam::Integer((h.fan_in + h.fan_out) as i64),
        SqlParam::Integer(h.max_slot),
    ]);
    p
}

/// The sum of the row counts `changes`.
pub open spec fn sum_of(changes: Seq<usize>) -> int
    decreases changes.len(),
{
    if changes.len() == 0 {
        0
    } else {
        sum_of(changes.drop_last()) + changes.last()
    }
}

/// How many rows a series of statements changed in all: the sum of `changes`,
/// saturating at `usize::MAX`.
pub fn total_changed(changes: &Vec<usize>) -> (n: usize)
    ensures
        n == saturated(sum_of(changes@)),
{
    let mut n: usize = 0;
    let mut i: usize = 0;
    while i < changes.len()
        invariant
            i <= changes@.len(),
            n == saturated(sum_of(changes@.take(i as int))),
        decreases changes@.len() - i,
    {
        proof {
            assert(changes@.take(i + 1).drop_last() =~= changes@.take(i as int));
            assert(sum_of(changes@.take(i as int)) >= 0) by {
                lemma_sum_of_nonnegative(changes@.take(i as int));
            }
        }
        n = n.saturating_add(changes[i]);
        i = i + 1;
    }
    assert(changes@.take(changes@.len() as int) =~= changes@);
    n
}

/// A sum of row counts is never negative.
proof fn lemma_sum_of_nonnegative(changes: Seq<usize>)
    ensures
        sum_of(changes) >= 0,
    decreases changes.len(),
{
    if changes.len() > 0 {
        lemma_sum_of_nonnegative(changes.drop_last());
    }
}

/// The statement that purges the `'auto'` hubs.
pub open spec fn purge_auto_hubs_sql() -> Seq<char> {
    Verb::DeleteFrom.keyword() + Table::PassthroughNode.table_name() + " "@ + PURGE_AUTO_HUBS_BODY@
}

/// The statement that records a hub: an `INSERT OR IGNORE`, so that an address
/// already present (a `'seed'` row) is kept and does not make it fail.
pub open spec fn hub_insert_sql() -> Seq<char> {
    Verb::InsertOrIgnore.keyword() + Table::PassthroughNode.table_name() + " "@ + INSERT_HUB_BODY@
}

/// The hubs were recorded: the flows were read (`flows`), `hubs` are exactly the
/// hubs of those flows, each described from them and listed once; the `'auto'`
/// rows were purged; then each hub, in order, was inserted by an `INSERT OR
/// IGNORE`; and `count` is the total of the rows those inserts changed.
pub open spec fn hubs_recorded(flows: Answer<FlowRow>, hubs: Seq<HubStats>, purge: Executed, inserts: Seq<Executed>, count: int) -> bool {
    &&& flows.answers(SELECT_FLOWS_SQL@, Seq::empty())
    &&& forall|k: int| 0 <= k < hubs.len() ==> hubs::is_hub(flows.rows(), (#[trigger] hubs[k]).address@)
        && hubs::describes(flows.rows(), hubs[k])
    &&& forall|k: int, l: int| 0 <= k < l < hubs.len() ==> (#[trigger] hubs[k]).address@ != (#[trigger] hubs[l]).address@
    &&& forall|a: Seq<char>| #[trigger] hubs::is_hub(flows.rows(), a) ==> exists|k: int| 0 <= k < hubs.len() && (#[trigger] hubs[k]).address@ == a
    &&& purge.sql() == purge_auto_hubs_sql() && purge.params() == Seq::<SqlParam>::empty()
    &&& inserts.len() == hubs.len()
    &&& forall|k: int| 0 <= k < inserts.len() ==> (#[trigger] inserts[k]).sql() == hub_insert_sql()
        && inserts[k].params() == hub_values(hubs[k])
    &&& count == saturated(sum_of(inserts.map_values(|x: Executed| x.changed())))
}

/// Every hub insert is an `INSERT OR IGNORE INTO passthrough_node`: a hub whose
/// address is already present (a `'seed'` row) is ignored, never an error.
pub proof fn lemma_hub_inserts_ignore_present(flows: Answer<FlowRow>, hubs: Seq<HubStats>, purge: Executed, inserts: Seq<Executed>, count: int)
    requires
        hubs_recorded(flows, hubs, purge, inserts, count),
    ensures
        forall|k: int| 0 <= k < inserts.len() ==> Verb::InsertOrIgnore.keyword().is_prefix_of(#[trigger] inserts[k].sql()),
        forall|k: int| 0 <= k < inserts.len() ==> crate::writes::written_table(#[trigger] inserts[k].sql()) == Table::PassthroughNode.table_name(),
{
    assert forall|k: int| 0 <= k < inserts.len() implies Verb::InsertOrIgnore.keyword().is_prefix_of(#[trigger] inserts[k].sql())
        && crate::writes::written_table(inserts[k].sql()) == Table::PassthroughNode.table_name() by {
        let kw = Verb::InsertOrIgnore.keyword();
        assert(inserts[k].sql().subrange(0, kw.len() as int) =~= kw);
        crate::writes::lemma_statement_table(Verb::InsertOrIgnore, Table::PassthroughNode, INSERT_HUB_BODY@);
    }
}

/// Detects the hub addresses and records them in `passthrough_node` with
/// `source = 'auto'`. Returns how many were recorded: the rows the inserts
/// changed, in all (see [`total_changed`]).
///
/// Refresh: first purges the `'auto'` rows (never the `'seed'` ones, a permanent
/// denylist), then inserts the detected hubs; `INSERT OR IGNORE` keeps an address
/// already present as `'seed'`.
pub fn detect_passthrough(conn: &rusqlite::Connection) -> (r: Result<usize, DbError>)
    ensures
        r matches Err(e) ==> e is Sqlite,
        r matches Ok(n) ==> exists|flows: Answer<FlowRow>, hubs: Seq<HubStats>, purge: Executed, inserts: Seq<Executed>|
            #[trigger] hubs_recorded(flows, hubs, purge, inserts, n as int),
{
    let no_params: Vec<SqlValue> = Vec::new();
    assert(params_view(no_params@) =~= Seq::<SqlParam>::empty());
    let flows = ask_text_text_int_triples(conn, SELECT_FLOWS_SQL, &no_params)?;
    let ghost answer = flows;
    let rows: Vec<FlowRow> = flows.into_rows();
    let hubs = passthrough_hubs(&rows);
    let w = write_statement(Verb::DeleteFrom, Table::PassthroughNode, PURGE_AUTO_HUBS_BODY);
    let none: Vec<SqlValue> = Vec::new();
    assert(params_view(none@) =~= Seq::<SqlParam>::empty());
    let purge = analysis_run(conn, &w, &none)?;
    let mut changes: Vec<usize> = Vec::new();
    let ghost mut inserts: Seq<Executed> = Seq::empty();
    let mut i: usize = 0;
    while i < hubs.len()
        invariant
            i <= hubs@.len(),
            inserts.len() == i,
            changes@ == inserts.map_values(|x: Executed| x.changed()),
            forall|k: int| 0 <= k < i ==> (#[trigger] inserts[k]).sql() == hub_insert_sql()
                && inserts[k].params() == hub_values(hubs@[k]),
        decreases hubs@.len() - i,
    {
        let w = write_statement(Verb::InsertOrIgnore, Table::PassthroughNode, INSERT_HUB_BODY);
        let x = analysis_run(conn, &w, &hub_params(&hubs[i]))?;
        changes.push(x.changed_rows());
        proof {
            assert(inserts.push(x).map_values(|x: Executed| x.changed()) =~= inserts.map_values(
                |x: Executed| x.changed(),
            ).push(x.changed()));
            inserts = inserts.push(x);
        }
        i = i + 1;
    }
    let r: Result<usize, DbError> = Ok(total_changed(&changes));
    assert(r matches Ok(n) && hubs_recorded(answer, hubs@, purge, inserts, n as int));
    r
}

// ===== Step 2: feeding the analysis queue. =====

/// `INSERT OR IGNORE INTO analysis_queue ...`: queues as `'pending'` every deployer of `raw_token_launch` not yet queued, with
/// its latest launch slot; `INSERT OR IGNORE` keeps the status of known deployers.
pub const ENQUEUE_BODY: &'static str = "(entity, entity_kind, status, attempts, enqueued_slot, updated_unix_ms) \
     SELECT deployer, 'deployer', 'pending', 0, MAX(slot), ? \
     FROM raw_token_launch GROUP BY deployer";

/// Queues the deployers not yet known. Returns how many were queued.
pub fn enqueue_new_deployers(conn: &rusqlite::Connection) -> (r: Result<usize, DbError>)
    ensures
        r matches Err(e) ==> e is Sqlite,
{
    let w = write_statement(Verb::InsertOrIgnore, Table::AnalysisQueue, ENQUEUE_BODY);
    analysis_write(conn, &w, &vec![SqlValue::Integer(crate::now_unix_ms())])
}

/// The deployers to (re)process: the `'pending'` ones, OR those whose cluster has
/// gone (after [`crate::db::reset_recomputable`]) while the queue, never dropped,
/// still marks them `'done'`. The second criterion makes the derived state
/// recomputable without crossing the drop frontier.
pub const NEEDING_ANALYSIS_SQL: &'static str = "SELECT entity, enqueued_slot FROM analysis_queue \
     WHERE entity_kind = 'deployer' \
       AND (status = 'pending' \
            OR NOT EXISTS (SELECT 1 FROM cluster \
                           WHERE anchor_wallet = entity AND method_version = ?))";

fn deployers_needing_analysis(conn: &rusqlite::Connection) -> (r: Result<Vec<(String, i64)>, DbError>)
    ensures
        r matches Err(e) ==> e is Sqlite,
{
    query_text_int_pairs(conn, NEEDING_ANALYSIS_SQL, &vec![SqlValue::Integer(METHOD_VERSION)])
}

/// `UPDATE analysis_queue ...`: sets the status of a deployer.
pub const MARK_STATUS_BODY: &'static str = "SET status = ?, updated_unix_ms = ? \
     WHERE entity = ? AND entity_kind = 'deployer'";

/// `UPDATE analysis_queue ...`: marks a deployer failed, with one more attempt
/// and the message.
pub const MARK_ERROR_BODY: &'static str = "SET status = 'error', attempts = attempts + 1, last_error = ?, updated_unix_ms = ? \
     WHERE entity = ? AND entity_kind = 'deployer'";

/// The parameters of [`MARK_STATUS_BODY`]: the new status, the time, the deployer.
pub fn status_params(status: &str, now_unix_ms: i64, entity: &str) -> (p: Vec<SqlValue>)
    ensures
        params_view(p@) == seq![SqlParam::Text(status@), SqlParam::Integer(now_unix_ms), SqlParam::Text(entity@)],
{
    let p = vec![SqlValue::Text(String::from_str(status)), SqlValue::Integer(now_unix_ms), SqlValue::Text(String::from_str(entity))];
    assert(params_view(p@) =~= seq![SqlParam::Text(status@), SqlParam::Integer(now_unix_ms), SqlParam::Text(entity@)]);
    p
}

/// The parameters of [`MARK_ERROR_BODY`]: the message stored as `last_error`, the
/// time, the deployer.
pub fn error_params(message: &str, now_unix_ms: i64, entity: &str) -> (p: Vec<SqlValue>)
    ensures
        params_view(p@) == seq![SqlParam::Text(message@), SqlParam::Integer(now_unix_ms), SqlParam::Text(entity@)],
{
    let p = vec![SqlValue::Text(String::from_str(message)), SqlValue::Integer(now_unix_ms), SqlValue::Text(String::from_str(entity))];
    assert(params_view(p@) =~= seq![SqlParam::Text(message@), SqlParam::Integer(now_unix_ms), SqlParam::Text(entity@)]);
    p
}

/// Sets the queue status of `entity`.
fn mark_status(conn: &rusqlite::Connection, entity: &str, status: &str) -> (r: Result<(), DbError>)
    ensures
        r matches Err(e) ==> e is Sqlite,
{
    let w = write_statement(Verb::Update, Table::AnalysisQueue, MARK_STATUS_BODY);
    analysis_write(conn, &w, &status_params(status, crate::now_unix_ms(), entity))?;
    Ok(())
}

/// Marks `entity` as failed with message `err`, counting one more attempt.
fn mark_error(conn: &rusqlite::Connection, entity: &str, err: &str) -> (r: Result<(), DbError>)
    ensures
        r matches Err(e) ==> e is Sqlite,
{
    let w = write_statement(Verb::Update, Table::AnalysisQueue, MARK_ERROR_BODY);
    analysis_write(conn, &w, &error_params(err, crate::now_unix_ms(), entity))?;
    Ok(())
}

/// Runs one complete tick: passthrough, then queue, then the analysis of the
/// pending deployers. A deployer whose analysis fails is marked `'error'` with the
/// message; the tick goes on. Idempotent: run again without new data, it rebuilds
/// nothing.
///
/// One cluster is built per analysed deployer.
pub fn run_once(conn: &rusqlite::Connection) -> (r: Result<AnalysisReport, DbError>)
    ensures
        r matches Err(e) ==> e is Sqlite,
        r matches Ok(report) ==> report.clusters_built == report.deployers_analyzed,
{
    let passthrough_detected = detect_passthrough(conn)?;
    let deployers_enqueued = enqueue_new_deployers(conn)?;
    let mut report = AnalysisReport {
        passthrough_detected,
        deployers_enqueued,
        deployers_analyzed: 0,
        clusters_built: 0,
        members_linked: 0,
        predictions_emitted: 0,
    };
    let pending = deployers_needing_analysis(conn)?;
    let mut i: usize = 0;
    while i < pending.len()
        invariant
            report.clusters_built == report.deployers_analyzed,
        decreases pending@.len() - i,
    {
        let deployer = pending[i].0.as_str();
        mark_status(conn, deployer, "analyzing")?;
        let outcome = analyze_deployer(conn, deployer);
        let (next, mark) = after_analysis(&report, &outcome);
        match mark {
            QueueMark::Done => mark_status(conn, deployer, "done")?,
            QueueMark::Error => mark_error(conn, deployer, failure_message(&outcome).as_str())?,
        }
        report = next;
        i = i + 1;
    }
    Ok(report)
}

// ===== Step 3: analysis of one deployer. =====

pub const SELECT_PASSTHROUGH_SQL: &'static str = "SELECT address FROM passthrough_node";

pub const DEPLOYER_MAX_SLOT_SQL: &'static str = "SELECT COALESCE(MAX(slot), 0) FROM raw_token_launch WHERE deployer = ?";

pub const SELECT_ANCHOR_CLUSTERS_SQL: &'static str = "SELECT id FROM cluster WHERE anchor_wallet = ? AND method_version = ?";

/// `INSERT INTO cluster ...`: a cluster anchored on a deployer.
pub const INSERT_CLUSTER_BODY: &'static str = "(anchor_wallet, method_version, updated_slot) VALUES (?, ?, ?)";

/// `INSERT INTO cluster_member ...`: a member; its strength is the fraction `?4 / ?5`, divided by SQLite.
pub const INSERT_MEMBER_BODY: &'static str = "(cluster_id, wallet, link_type, link_strength) \
     VALUES (?, ?, ?, CAST(? AS REAL) / ?)";

/// (Re)builds the cluster, members, profile and predictions of a deployer.
///
/// A clean rebuild: first purges every derived row of this anchor at the current
/// [`METHOD_VERSION`], then recreates them, in one transaction.
pub fn analyze_deployer(conn: &rusqlite::Connection, deployer: &str) -> (r: Result<DeployerResult, DbError>)
    ensures
        r matches Err(e) ==> (e is Sqlite || e is NoRow || e is UnexpectedValue),
{
    let passthrough = load_passthrough(conn)?;
    let slot = deployer_max_slot(conn, deployer)?;

    let tx = match begin_transaction(conn) {
        Ok(t) => t,
        Err(e) => return Err(DbError::Sqlite(e)),
    };
    let res = {
        let c = transaction_connection(&tx);
        purge_anchor(c, deployer)?;
        let w = write_statement(Verb::Insert, Table::Cluster, INSERT_CLUSTER_BODY);
        analysis_write(c, &w, &cluster_params(deployer, slot))?;
        let cluster_id = last_rowid(c);

        let members = collect_members(c, deployer, &passthrough)?;
        let mut i: usize = 0;
        while i < members.len()
            decreases members@.len() - i,
        {
            let w = write_statement(Verb::Insert, Table::ClusterMember, INSERT_MEMBER_BODY);
            analysis_write(c, &w, &member_params(cluster_id, &members[i]))?;
            i = i + 1;
        }

        let profile = compute_profile(c, cluster_id, deployer, &members, slot)?;
        let predictions = emit_predictions(c, cluster_id, deployer, &profile.risk, &profile.confidence)?;
        deployer_result(cluster_id, &members, predictions)
    };
    match commit_transaction(tx) {
        Ok(()) => Ok(res),
        Err(e) => Err(DbError::Sqlite(e)),
    }
}

/// The parameters of [`INSERT_CLUSTER_BODY`]: the anchor, the method version and
/// the anchor's latest launch slot.
pub fn cluster_params(deployer: &str, slot: i64) -> (p: Vec<SqlValue>)
    ensures
        params_view(p@) == seq![SqlParam::Text(deployer@), SqlParam::Integer(METHOD_VERSION), SqlParam::Integer(slot)],
{
    let p = vec![SqlValue::Text(String::from_str(deployer)), SqlValue::Integer(METHOD_VERSION), SqlValue::Integer(slot)];
    assert(params_view(p@) =~= seq![SqlParam::Text(deployer@), SqlParam::Integer(METHOD_VERSION), SqlParam::Integer(slot)]);
    p
}

/// The result of the analysis of a deployer whose cluster `cluster_id` received
/// the links `members` and `predictions` predictions.
pub fn deployer_result(cluster_id: i64, members: &Vec<Link>, predictions: usize) -> (r: DeployerResult)
    ensures
        r.cluster_id == cluster_id,
        r.members == members@.len(),
        r.predictions == predictions,
{
    DeployerResult { cluster_id, members: members.len(), predictions }
}

/// The parameters of [`INSERT_MEMBER_BODY`] for link `m` of cluster `cluster_id`.
pub fn member_params(cluster_id: i64, m: &Link) -> (p: Vec<SqlValue>)
    ensures
        params_view(p@) == seq![
            SqlParam::Integer(cluster_id),
            SqlParam::Text(m.wallet@),
            SqlParam::Text(m.link_type.label()),
            SqlParam::Integer(m.strength.num as i64),
            SqlParam::Integer(m.strength.den as i64),
        ],
{
    let p = vec![
        SqlValue::Integer(cluster_id),
        text_param(&m.wallet),
        SqlValue::Text(String::from_str(m.link_type.name())),
        SqlValue::Integer(m.strength.num as i64),
        SqlValue::Integer(m.strength.den as i64),
    ];
    assert(params_view(p@) =~= seq![
        SqlParam::Integer(cluster_id),
        SqlParam::Text(m.wallet@),
        SqlParam::Text(m.link_type.label()),
        SqlParam::Integer(m.strength.num as i64),
        SqlParam::Integer(m.strength.den as i64),
    ]);
    p
}

/// The set of the addresses `a`.
pub fn address_set(a: &Vec<String>) -> (s: StringHashSet)
    ensures
        s@ == a@.map_values(|x: String| x@).to_set(),
{
    let mut s = StringHashSet::new();
    let mut i: usize = 0;
    while i < a.len()
        invariant
            i <= a@.len(),
            s@ == a@.take(i as int).map_values(|x: String| x@).to_set(),
        decreases a@.len() - i,
    {
        let ghost before = a@.take(i as int).map_values(|x: String| x@);
        s.insert(copy_string(&a[i]));
        proof {
            let after = a@.take(i + 1).map_values(|x: String| x@);
            assert(after =~= before.push(a@[i as int]@));
            assert(after.to_set() =~= before.to_set().insert(a@[i as int]@)) by {
                assert forall|x: Seq<char>| after.to_set().contains(x) <==> before.to_set().insert(a@[i as int]@).contains(x) by {
                    if after.contains(x) {
                        let j = choose|j: int| 0 <= j < after.len() && after[j] == x;
                        if j < before.len() {
                            assert(before[j] == x);
                        }
                    }
                    if before.contains(x) {
                        let j = choose|j: int| 0 <= j < before.len() && before[j] == x;
                        assert(after[j] == x);
                    }
                    if x == a@[i as int]@ {
                        assert(after[i as int] == x);
                    }
                }
            }
        }
        i = i + 1;
    }
    assert(a@.take(a@.len() as int) =~= a@);
    s
}

/// Loads every passthrough address (`'seed'` and `'auto'`). They are kept out of
/// clustering: neither members nor relays of links.
fn load_passthrough(conn: &rusqlite::Connection) -> (r: Result<StringHashSet, DbError>)
    ensures
        r matches Err(e) ==> e is Sqlite,
{
    let addresses = query_texts(conn, SELECT_PASSTHROUGH_SQL, &Vec::new())?;
    Ok(address_set(&addresses))
}

fn deployer_max_slot(conn: &rusqlite::Connection, deployer: &str) -> (r: Result<i64, DbError>)
    ensures
        r matches Err(e) ==> (e is Sqlite || e is NoRow),
{
    query_one_int(conn, DEPLOYER_MAX_SLOT_SQL, &vec![SqlValue::Text(String::from_str(deployer))])
}

/// Deletes the clusters of `deployer` at the current method version, with their
/// members, profiles and predictions.
fn purge_anchor(conn: &rusqlite::Connection, deployer: &str) -> (r: Result<(), DbError>)
    ensures
        r matches Err(e) ==> e is Sqlite,
{
    let ids = query_ints(
        conn,
        SELECT_ANCHOR_CLUSTERS_SQL,
        &vec![SqlValue::Text(String::from_str(deployer)), SqlValue::Integer(METHOD_VERSION)],
    )?;
    let mut i: usize = 0;
    while i < ids.len()
        decreases ids@.len() - i,
    {
        let p = vec![SqlValue::Integer(ids[i])];
        let w = write_statement(Verb::DeleteFrom, Table::ClusterMember, "WHERE cluster_id = ?");
        analysis_write(conn, &w, &p)?;
        let w = write_statement(Verb::DeleteFrom, Table::ClusterProfile, "WHERE cluster_id = ?");
        analysis_write(conn, &w, &p)?;
        let w = write_statement(Verb::DeleteFrom, Table::ScorePrediction, "WHERE cluster_id = ?");
        analysis_write(conn, &w, &p)?;
        let w = write_statement(Verb::DeleteFrom, Table::Cluster, "WHERE id = ?");
        analysis_write(conn, &w, &p)?;
        i = i + 1;
    }
    Ok(())
}

pub const FUNDING_SQL: &'static str = "SELECT dst, COUNT(*) FROM raw_wallet_flow WHERE src = ? GROUP BY dst";

pub const CONSOLIDATION_SQL: &'static str = "SELECT src, COUNT(*) FROM raw_wallet_flow WHERE dst = ? GROUP BY src";

pub const ANCHOR_MINTS_SQL: &'static str = "SELECT mint FROM raw_token_launch WHERE deployer = ?";

/// Lists, for the co-participants of the deployer's tokens (bound to the `?`
/// markers that follow it), how many of those tokens each took part in.
pub const CO_PARTICIPANTS_HEAD: &'static str = "SELECT wallet, COUNT(DISTINCT mint) FROM raw_launch_participant WHERE wallet != ? AND mint IN (";

/// The end of the co-participants query.
pub const CO_PARTICIPANTS_TAIL: &'static str = ") GROUP BY wallet";

/// Counts the participations of a wallet in tokens that are not the deployer's
/// (bound to the `?` markers that follow it).
pub const OUTSIDE_HEAD: &'static str = "SELECT COUNT(*) FROM raw_launch_participant WHERE wallet = ? AND mint NOT IN (";

/// The co-participants query over `n` deployer tokens.
pub open spec fn co_participants_sql(n: nat) -> Seq<char> {
    CO_PARTICIPANTS_HEAD@ + placeholder_list(n) + CO_PARTICIPANTS_TAIL@
}

/// The query counting a wallet's participations outside `n` deployer tokens.
pub open spec fn outside_count_sql(n: nat) -> Seq<char> {
    OUTSIDE_HEAD@ + placeholder_list(n) + ")"@
}

/// The co-participant rows whose wallet may join the cluster, in order.
pub open spec fn co_candidates(rows: Seq<(String, i64)>, deployer: Seq<char>, passthrough: Set<Seq<char>>) -> Seq<(String, i64)>
    decreases rows.len(),
{
    if rows.len() == 0 {
        Seq::empty()
    } else {
        let before = co_candidates(rows.drop_last(), deployer, passthrough);
        let r = rows.last();
        if r.0@ != deployer && !passthrough.contains(r.0@) {
            before.push(r)
        } else {
            before
        }
    }
}

/// One more row adds itself to the candidates when its wallet may join, and
/// nothing otherwise.
proof fn lemma_co_candidates_step(rows: Seq<(String, i64)>, i: int, deployer: Seq<char>, passthrough: Set<Seq<char>>)
    requires
        0 <= i < rows.len(),
    ensures
        co_candidates(rows.take(i + 1), deployer, passthrough) == if rows[i].0@ != deployer && !passthrough.contains(rows[i].0@) {
            co_candidates(rows.take(i), deployer, passthrough).push(rows[i])
        } else {
            co_candidates(rows.take(i), deployer, passthrough)
        },
{
    let t = rows.take(i + 1);
    assert(t.drop_last() =~= rows.take(i));
    assert(t.last() == rows[i]);
}

/// `co` holds one co-participation per candidate row, in order: its wallet, its
/// count of the deployer's tokens (which is not negative), and the count that
/// the candidate's outside query (`outside`, over the deployer's tokens `mints`)
/// returned.
pub open spec fn co_fits(co: Seq<CoParticipation>, outside: Seq<Answer<i64>>, candidates: Seq<(String, i64)>, mints: Seq<String>) -> bool {
    &&& co.len() == candidates.len()
    &&& outside.len() == candidates.len()
    &&& forall|k: int| 0 <= k < co.len() ==> {
        &&& (#[trigger] co[k]).wallet@ == candidates[k].0@
        &&& candidates[k].1 >= 0
        &&& co[k].anchor_mints == candidates[k].1 as u64
        &&& outside[k].answers(outside_count_sql(mints.len()), text_values(candidates[k].0@, mints))
        &&& outside[k].rows().len() == 1
        &&& co[k].outside_mints == outside[k].rows()[0]
    }
}

/// The members `links` of the cluster anchored on `deployer` were built from the
/// database: the funding, consolidation and anchor-token queries ran for the
/// deployer; when it has tokens, the co-participants query ran over them and
/// each candidate's outside query ran; and `links` is, for every wallet with an
/// eligible signal among all the signals of those rows, its strongest one.
pub open spec fn members_recorded(
    funding: Answer<(String, i64)>,
    consolidation: Answer<(String, i64)>,
    mints: Answer<String>,
    coparts: Seq<Answer<(String, i64)>>,
    outside: Seq<Answer<i64>>,
    co: Seq<CoParticipation>,
    deployer: Seq<char>,
    passthrough: Set<Seq<char>>,
    links: Seq<Link>,
) -> bool {
    let n = mints.rows().len();
    let candidates = if n > 0 { co_candidates(coparts[0].rows(), deployer, passthrough) } else { Seq::empty() };
    let signals = links::all_signals(funding.rows(), consolidation.rows(), co, n as u64);
    &&& funding.answers(FUNDING_SQL@, seq![SqlParam::Text(deployer)])
    &&& consolidation.answers(CONSOLIDATION_SQL@, seq![SqlParam::Text(deployer)])
    &&& mints.answers(ANCHOR_MINTS_SQL@, seq![SqlParam::Text(deployer)])
    &&& coparts.len() == if n > 0 { 1int } else { 0int }
    &&& n > 0 ==> coparts[0].answers(co_participants_sql(n), text_values(deployer, mints.rows()))
    &&& co_fits(co, outside, candidates, mints.rows())
    &&& links::strongest_per_wallet(signals, signals.len() as int, deployer, passthrough, links)
}

/// Every wallet that the deployer funded (a row of the funding query), other than
/// the deployer and not a passthrough address, is a member of the cluster, and
/// its link is at least as strong as its funding signal.
pub proof fn lemma_funded_wallet_is_member(
    funding: Answer<(String, i64)>,
    consolidation: Answer<(String, i64)>,
    mints: Answer<String>,
    coparts: Seq<Answer<(String, i64)>>,
    outside: Seq<Answer<i64>>,
    co: Seq<CoParticipation>,
    deployer: Seq<char>,
    passthrough: Set<Seq<char>>,
    links: Seq<Link>,
    j: int,
)
    requires
        members_recorded(funding, consolidation, mints, coparts, outside, co, deployer, passthrough, links),
        0 <= j < funding.rows().len(),
        funding.rows()[j].0@ != deployer,
        !passthrough.contains(funding.rows()[j].0@),
    ensures
        exists|k: int| 0 <= k < links.len() && (#[trigger] links[k]).wallet@ == funding.rows()[j].0@
            && !links::beats(links::funding_link(funding.rows()[j]), links[k]),
{
    let n = mints.rows().len();
    let signals = links::all_signals(funding.rows(), consolidation.rows(), co, n as u64);
    let w = funding.rows()[j].0@;
    assert(signals[j] == links::funding_link(funding.rows()[j]));
    assert(links::eligible(signals[j], deployer, passthrough));
    assert(links::has_signal(signals, signals.len() as int, deployer, passthrough, w));
    let k = choose|k: int| 0 <= k < links.len() && (#[trigger] links[k]).wallet@ == w;
    assert(links::is_strongest(signals, signals.len() as int, deployer, passthrough, links[k]));
    assert(!links::beats(signals[j], links[k]));
}

/// Whether a co-participant may join the cluster: it is neither the deployer nor
/// a passthrough address.
pub fn is_candidate(wallet: &str, deployer: &str, passthrough: &StringHashSet) -> (b: bool)
    ensures
        b == (wallet@ != deployer@ && !passthrough@.contains(wallet@)),
{
    !texts_equal(wallet, deployer) && !passthrough.contains(wallet)
}

/// The number of the deployer's tokens a co-participant took part in, from the
/// `COUNT` its query returned; a negative count, which no `COUNT` gives, is refused.
pub fn anchor_mint_count(count: i64) -> (r: Result<u64, DbError>)
    ensures
        count >= 0 ==> r == Ok::<u64, DbError>(count as u64),
        count < 0 ==> r matches Err(DbError::UnexpectedValue),
{
    if count < 0 {
        Err(DbError::UnexpectedValue)
    } else {
        Ok(count as u64)
    }
}

/// The co-participation of `wallet`: `anchor_mints` of the deployer's tokens, and
/// `outside_mints` participations in other tokens.
pub fn co_participation(wallet: &String, anchor_mints: u64, outside_mints: i64) -> (c: CoParticipation)
    ensures
        c.wallet@ == wallet@,
        c.anchor_mints == anchor_mints,
        c.outside_mints == outside_mints,
{
    CoParticipation { wallet: wallet.clone(), anchor_mints, outside_mints }
}

/// The members of the cluster anchored on `deployer`, from the query rows: the
/// funding rows `(wallet, flows from the deployer)`, the consolidation rows
/// `(wallet, flows to the deployer)` and the co-participations among `total`
/// deployer tokens. Each eligible wallet keeps its strongest signal.
pub fn members_from_rows(
    deployer: &str,
    passthrough: &StringHashSet,
    funding: &Vec<(String, i64)>,
    consolidation: &Vec<(String, i64)>,
    co: &Vec<CoParticipation>,
    total: u64,
) -> (links: Vec<Link>)
    requires
        co@.len() > 0 ==> total > 0,
    ensures
        links::strongest_per_wallet(
            links::all_signals(funding@, consolidation@, co@, total),
            links::all_signals(funding@, consolidation@, co@, total).len() as int,
            deployer@,
            passthrough@,
            links@,
        ),
        links::rows_as_counted(funding@, consolidation@, co@, total) ==> forall|k: int|
            0 <= k < links@.len() ==> links::strength_in_range(#[trigger] links@[k]),
{
    let signals = link_signals(funding, consolidation, co, total);
    let links = strongest_links(deployer, passthrough, &signals);
    proof {
        if links::rows_as_counted(funding@, consolidation@, co@, total) {
            links::lemma_member_strength_bounds(funding@, consolidation@, co@, total, deployer@, passthrough@, links@);
        }
    }
    links
}

/// Builds the members of the cluster anchored on `deployer` from four signals,
/// keeping for each wallet its strongest (see [`links`]).
fn collect_members(conn: &rusqlite::Connection, deployer: &str, passthrough: &StringHashSet) -> (r: Result<Vec<Link>, DbError>)
    ensures
        r matches Ok(links) ==> {
            &&& links::sorted_by_wallet(links@)
            &&& forall|k: int| 0 <= k < links@.len() ==> (#[trigger] links@[k]).wallet@ != deployer@
                && !passthrough@.contains(links@[k].wallet@)
        },
        r matches Ok(links) ==> exists|
            funding: Answer<(String, i64)>,
            consolidation: Answer<(String, i64)>,
            mints: Answer<String>,
            coparts: Seq<Answer<(String, i64)>>,
            outside: Seq<Answer<i64>>,
            co: Seq<CoParticipation>,
        | #[trigger] members_recorded(funding, consolidation, mints, coparts, outside, co, deployer@, passthrough@, links@),
{
    let dp = vec![SqlValue::Text(String::from_str(deployer))];
    assert(params_view(dp@) =~= seq![SqlParam::Text(deployer@)]);
    // funding: deployer -> wallet (the deployer funded the wallet).
    let funding_answer = ask_text_int_pairs(conn, FUNDING_SQL, &dp)?;
    let ghost fa = funding_answer;
    let funding = funding_answer.into_rows();
    // consolidation: wallet -> deployer (the wallet sends back to the deployer).
    let consolidation_answer = ask_text_int_pairs(conn, CONSOLIDATION_SQL, &dp)?;
    let ghost ca = consolidation_answer;
    let consolidation = consolidation_answer.into_rows();

    // cobehavior / exclusivity: wallets taking part in the deployer's tokens.
    let mints_answer = ask_texts(conn, ANCHOR_MINTS_SQL, &dp)?;
    let ghost ma = mints_answer;
    let anchor_mints = mints_answer.into_rows();
    let mut co: Vec<CoParticipation> = Vec::new();
    let ghost mut coparts: Seq<Answer<(String, i64)>> = Seq::empty();
    let ghost mut outside: Seq<Answer<i64>> = Seq::empty();
    let total = anchor_mints.len() as u64;
    if anchor_mints.len() > 0 {
        let ph = placeholders(anchor_mints.len());
        let sql = concat3(CO_PARTICIPANTS_HEAD, ph.as_str(), CO_PARTICIPANTS_TAIL);
        let cp_answer = ask_text_int_pairs(conn, sql.as_str(), &text_params(deployer, &anchor_mints))?;
        let ghost cpa = cp_answer;
        proof {
            coparts = seq![cpa];
        }
        let coparticipants = cp_answer.into_rows();
        let outside_sql = concat3(OUTSIDE_HEAD, ph.as_str(), ")");
        let mut i: usize = 0;
        while i < coparticipants.len()
            invariant
                i <= coparticipants@.len(),
                anchor_mints@.len() > 0,
                outside_sql@ == outside_count_sql(anchor_mints@.len()),
                co_fits(co@, outside, co_candidates(coparticipants@.take(i as int), deployer@, passthrough@), anchor_mints@),
            decreases coparticipants@.len() - i,
        {
            let (wallet, c) = (&coparticipants[i].0, coparticipants[i].1);
            let ghost before = co_candidates(coparticipants@.take(i as int), deployer@, passthrough@);
            let ghost row = coparticipants@[i as int];
            proof {
                assert(coparticipants@.take(i + 1).drop_last() =~= coparticipants@.take(i as int));
                assert(coparticipants@.take(i + 1).last() == row);
            }
            if is_candidate(wallet.as_str(), deployer, passthrough) {
                proof {
                    lemma_co_candidates_step(coparticipants@, i as int, deployer@, passthrough@);
                }
                let anchor = anchor_mint_count(c)?;
                // exclusivity: the wallet takes part in NO token outside the anchor's.
                let out_answer = ask_one_int(conn, outside_sql.as_str(), &text_params(wallet.as_str(), &anchor_mints))?;
                let ghost oa = out_answer;
                let out = out_answer.into_rows()[0];
                let ghost co_before = co@;
                let ghost out_before = outside;
                co.push(co_participation(wallet, anchor, out));
                proof {
                    outside = outside.push(oa);
                    let after = before.push(row);
                    assert forall|k: int| 0 <= k < co@.len() implies {
                        &&& (#[trigger] co@[k]).wallet@ == after[k].0@
                        &&& after[k].1 >= 0
                        &&& co@[k].anchor_mints == after[k].1 as u64
                        &&& outside[k].answers(outside_count_sql(anchor_mints@.len()), text_values(after[k].0@, anchor_mints@))
                        &&& outside[k].rows().len() == 1
                        &&& co@[k].outside_mints == outside[k].rows()[0]
                    } by {
                        if k < co_before.len() {
                            assert(co@[k] == co_before[k]);
                            assert(outside[k] == out_before[k]);
                            assert(after[k] == before[k]);
                        }
                    }
                }
            } else {
                proof {
                    lemma_co_candidates_step(coparticipants@, i as int, deployer@, passthrough@);
                }
            }
            i = i + 1;
        }
        proof {
            reveal_strlit(")");
            assert(coparticipants@.take(coparticipants@.len() as int) =~= coparticipants@);
            assert(sql@ == co_participants_sql(anchor_mints@.len()));
        }
    } else {
        proof {
            assert(co_candidates(Seq::<(String, i64)>::empty(), deployer@, passthrough@) =~= Seq::<(String, i64)>::empty());
        }
    }
    let links = members_from_rows(deployer, passthrough, &funding, &consolidation, &co, total);
    proof {
        let signals = links::all_signals(funding@, consolidation@, co@, total);
        links::lemma_members_eligible(signals, signals.len() as int, deployer@, passthrough@, links@);
    }
    let r: Result<Vec<Link>, DbError> = Ok(links);
    assert(r matches Ok(l) && members_recorded(fa, ca, ma, coparts, outside, co@, deployer@, passthrough@, l@));
    r
}

/// `INSERT INTO cluster_profile ...`: the profile; its four ratios are divided by SQLite.
pub const INSERT_PROFILE_BODY: &'static str = "(cluster_id, token_count, rug_count, beta_alpha, beta_beta, risk, confidence, \
      last_decay_slot, is_rugger) \
     VALUES (?, ?, ?, CAST(? AS REAL), CAST(? AS REAL), CAST(? AS REAL) / ?, \
             CAST(? AS REAL) / ?, ?, ?)";

/// Counts the distinct tokens launched by the cluster's wallets, bound to the
/// `?` markers that follow it.
pub const TOKEN_COUNT_HEAD: &'static str = "SELECT COUNT(DISTINCT mint) FROM raw_token_launch WHERE deployer IN (";

/// Counts, among the tokens launched by the cluster's wallets, those with a
/// terminal final label (a rug); `'alive'` is never stored.
pub const RUG_COUNT_HEAD: &'static str = "SELECT COUNT(DISTINCT mint) FROM token_outcome WHERE label_class = 'terminal' AND \"final\" = 1 \
     AND mint IN (SELECT mint FROM raw_token_launch WHERE deployer IN (";

/// The values bound to the cluster's wallets: the deployer, then each member's
/// wallet in order.
pub open spec fn wallet_values(deployer: Seq<char>, members: Seq<Link>) -> Seq<SqlParam> {
    seq![SqlParam::Text(deployer)] + members.map_values(|l: Link| SqlParam::Text(l.wallet@))
}

/// The query counting the tokens of `n` wallets.
pub open spec fn token_count_sql(n: nat) -> Seq<char> {
    TOKEN_COUNT_HEAD@ + placeholder_list(n) + ")"@
}

/// The query counting the rugged tokens of `n` wallets.
pub open spec fn rug_count_sql(n: nat) -> Seq<char> {
    RUG_COUNT_HEAD@ + placeholder_list(n) + "))"@
}

/// The statement that inserts a profile.
pub open spec fn profile_insert_sql() -> Seq<char> {
    Verb::Insert.keyword() + Table::ClusterProfile.table_name() + " "@ + INSERT_PROFILE_BODY@
}

/// The profile `p` of the cluster anchored on `deployer` with `members` was
/// computed and recorded: its token and rug counts were read over all the
/// cluster's wallets (the deployer and every member), `p` is the profile of those
/// counts, and it was inserted for cluster `cluster_id`.
pub open spec fn profile_recorded(
    tokens: Answer<i64>,
    rugs: Answer<i64>,
    insert: Executed,
    cluster_id: i64,
    deployer: Seq<char>,
    members: Seq<Link>,
    slot: i64,
    p: RiskProfile,
) -> bool {
    &&& tokens.answers(token_count_sql(members.len() + 1), wallet_values(deployer, members))
    &&& rugs.answers(rug_count_sql(members.len() + 1), wallet_values(deployer, members))
    &&& tokens.rows().len() == 1 && rugs.rows().len() == 1
    &&& 0 <= tokens.rows()[0] <= MAX_TOKEN_COUNT && rugs.rows()[0] >= 0
    &&& p == risk::profile_of(tokens.rows()[0] as u64, rugs.rows()[0] as u64)
    &&& insert.sql() == profile_insert_sql() && insert.params() == profile_values(cluster_id, p, slot)
}

/// Both counts of a recorded profile are taken over every wallet of the cluster:
/// the deployer first, then each member, and nothing else.
pub proof fn lemma_profile_counts_every_member(
    tokens: Answer<i64>,
    rugs: Answer<i64>,
    insert: Executed,
    cluster_id: i64,
    deployer: Seq<char>,
    members: Seq<Link>,
    slot: i64,
    p: RiskProfile,
)
    requires
        profile_recorded(tokens, rugs, insert, cluster_id, deployer, members, slot, p),
    ensures
        tokens.params() == rugs.params(),
        tokens.params().len() == members.len() + 1,
        tokens.params()[0] == SqlParam::Text(deployer),
        forall|k: int| 0 <= k < members.len() ==> tokens.params()[k + 1] == SqlParam::Text((#[trigger] members[k]).wallet@),
        p.token_count == tokens.rows()[0],
{
    assert forall|k: int| 0 <= k < members.len() implies tokens.params()[k + 1] == SqlParam::Text((#[trigger] members[k]).wallet@) by {
        assert(wallet_values(deployer, members)[k + 1] == SqlParam::Text(members[k].wallet@));
    }
}

/// The wallets of the cluster anchored on `deployer`: the deployer, then each
/// member in order.
pub fn cluster_wallets(deployer: &str, members: &Vec<Link>) -> (w: Vec<String>)
    ensures
        w@.len() == members@.len() + 1,
        w@[0]@ == deployer@,
        forall|k: int| 0 <= k < members@.len() ==> (#[trigger] w@[k + 1])@ == members@[k].wallet@,
{
    let mut w: Vec<String> = Vec::new();
    w.push(String::from_str(deployer));
    let mut i: usize = 0;
    while i < members.len()
        invariant
            i <= members@.len(),
            w@.len() == i + 1,
            w@[0]@ == deployer@,
            forall|k: int| 0 <= k < i ==> (#[trigger] w@[k + 1])@ == members@[k].wallet@,
        decreases members@.len() - i,
    {
        w.push(copy_string(&members[i].wallet));
        i = i + 1;
    }
    w
}

/// The profile from the two counts its queries returned: a negative count, or
/// more tokens than [`MAX_TOKEN_COUNT`], which no `COUNT` gives, is refused.
pub fn profile_from_counts(token_count: i64, rug_count: i64) -> (r: Result<RiskProfile, DbError>)
    ensures
        (token_count < 0 || rug_count < 0 || token_count > MAX_TOKEN_COUNT as i64) ==> r matches Err(
            DbError::UnexpectedValue,
        ),
        (0 <= token_count <= MAX_TOKEN_COUNT && rug_count >= 0) ==> r == Ok::<RiskProfile, DbError>(
            risk::profile_of(token_count as u64, rug_count as u64),
        ),
{
    if token_count < 0 || rug_count < 0 || token_count as u64 > MAX_TOKEN_COUNT {
        return Err(DbError::UnexpectedValue);
    }
    Ok(beta_profile(token_count as u64, rug_count as u64))
}

/// Computes and inserts the `cluster_profile` (Beta-Bernoulli model of the rug
/// rate) of the cluster made of `deployer` and its members.
fn compute_profile(conn: &rusqlite::Connection, cluster_id: i64, deployer: &str, members: &Vec<Link>, slot: i64) -> (r: Result<RiskProfile, DbError>)
    ensures
        r matches Ok(p) ==> p.token_count <= MAX_TOKEN_COUNT && p == risk::profile_of(p.token_count, p.rug_count),
        r matches Ok(p) ==> exists|tokens: Answer<i64>, rugs: Answer<i64>, insert: Executed|
            #[trigger] profile_recorded(tokens, rugs, insert, cluster_id, deployer@, members@, slot, p),
{
    // The cluster's wallets: the anchor and its members.
    let wallets = cluster_wallets(deployer, members);
    let params = texts_as_params(&wallets);
    proof {
        assert(params_view(params@) =~= wallet_values(deployer@, members@)) by {
            assert forall|k: int| 0 <= k < params@.len() implies params_view(params@)[k] == wallet_values(deployer@, members@)[k] by {
                if k > 0 {
                    assert(wallets@[(k - 1) + 1]@ == members@[k - 1].wallet@);
                }
            }
        }
    }
    let ph = placeholders(wallets.len());
    // Tokens launched by a wallet of the cluster.
    let token_sql = concat3(TOKEN_COUNT_HEAD, ph.as_str(), ")");
    let tokens = ask_one_int(conn, token_sql.as_str(), &params)?;
    let ghost token_answer = tokens;
    let token_count = tokens.into_rows()[0];
    // Among them, those with a terminal final label (a rug). 'alive' is never stored.
    let rug_sql = concat3(RUG_COUNT_HEAD, ph.as_str(), "))");
    let rugs = ask_one_int(conn, rug_sql.as_str(), &params)?;
    let ghost rug_answer = rugs;
    let rug_count = rugs.into_rows()[0];
    let profile = profile_from_counts(token_count, rug_count)?;
    let w = write_statement(Verb::Insert, Table::ClusterProfile, INSERT_PROFILE_BODY);
    let insert = analysis_run(conn, &w, &profile_params(cluster_id, &profile, slot))?;
    proof {
        reveal_strlit(")");
        reveal_strlit("))");
    }
    let r: Result<RiskProfile, DbError> = Ok(profile);
    assert(r matches Ok(p) && profile_recorded(token_answer, rug_answer, insert, cluster_id, deployer@, members@, slot, p));
    r
}

/// The values bound to the parameters of the insert of profile `p` of cluster
/// `cluster_id`, in order.
pub open spec fn profile_values(cluster_id: i64, p: RiskProfile, slot: i64) -> Seq<SqlParam> {
    seq![
        SqlParam::Integer(cluster_id),
        SqlParam::Integer(p.token_count as i64),
        SqlParam::Integer(p.rug_count as i64),
        SqlParam::Integer(p.beta_alpha as i64),
        SqlParam::Integer(p.beta_beta as i64),
        SqlParam::Integer(p.risk.num as i64),
        SqlParam::Integer(p.risk.den as i64),
        SqlParam::Integer(p.confidence.num as i64),
        SqlParam::Integer(p.confidence.den as i64),
        SqlParam::Integer(slot),
        SqlParam::Integer(if p.is_rugger { 1 } else { 0 }),
    ]
}

/// The parameters of [`INSERT_PROFILE_BODY`] for profile `p` of cluster `cluster_id`.
pub fn profile_params(cluster_id: i64, p: &RiskProfile, slot: i64) -> (v: Vec<SqlValue>)
    ensures
        params_view(v@) == profile_values(cluster_id, *p, slot),
{
    let v = vec![
        SqlValue::Integer(cluster_id),
        SqlValue::Integer(p.token_count as i64),
        SqlValue::Integer(p.rug_count as i64),
        SqlValue::Integer(p.beta_alpha as i64),
        SqlValue::Integer(p.beta_beta as i64),
        SqlValue::Integer(p.risk.num as i64),
        SqlValue::Integer(p.risk.den as i64),
        SqlValue::Integer(p.confidence.num as i64),
        SqlValue::Integer(p.confidence.den as i64),
        SqlValue::Integer(slot),
        SqlValue::Integer(if p.is_rugger { 1 } else { 0 }),
    ];
    assert(params_view(v@) =~= seq![
        SqlParam::Integer(cluster_id),
        SqlParam::Integer(p.token_count as i64),
        SqlParam::Integer(p.rug_count as i64),
        SqlParam::Integer(p.beta_alpha as i64),
        SqlParam::Integer(p.beta_beta as i64),
        SqlParam::Integer(p.risk.num as i64),
        SqlParam::Integer(p.risk.den as i64),
        SqlParam::Integer(p.confidence.num as i64),
        SqlParam::Integer(p.confidence.den as i64),
        SqlParam::Integer(slot),
        SqlParam::Integer(if p.is_rugger { 1 } else { 0 }),
    ]);
    v
}

pub const DEPLOYER_TOKENS_SQL: &'static str = "SELECT mint, slot FROM raw_token_launch WHERE deployer = ?";

/// `INSERT INTO score_prediction ...`: a prediction; risk and confidence are fractions divided by SQLite.
pub const INSERT_PREDICTION_BODY: &'static str = "(cluster_id, mint, risk, confidence, method_version, predicted_slot) \
     VALUES (?, ?, CAST(? AS REAL) / ?, CAST(? AS REAL) / ?, ?, ?)";

/// The values bound to the parameters of the insert of the prediction for token
/// `row` (mint, launch slot) of cluster `cluster_id`, in order.
pub open spec fn prediction_values(cluster_id: i64, row: (String, i64), risk: Ratio, confidence: Ratio) -> Seq<SqlParam> {
    seq![
        SqlParam::Integer(cluster_id),
        SqlParam::Text(row.0@),
        SqlParam::Integer(risk.num as i64),
        SqlParam::Integer(risk.den as i64),
        SqlParam::Integer(confidence.num as i64),
        SqlParam::Integer(confidence.den as i64),
        SqlParam::Integer(METHOD_VERSION),
        SqlParam::Integer(row.1),
    ]
}

/// The statement that inserts a prediction.
pub open spec fn prediction_insert_sql() -> Seq<char> {
    Verb::Insert.keyword() + Table::ScorePrediction.table_name() + " "@ + INSERT_PREDICTION_BODY@
}

/// The predictions of cluster `cluster_id` were emitted: the deployer's tokens
/// were read (`tokens`), and for each of them, in order, one prediction was
/// inserted at the given risk and confidence; `count` is how many.
pub open spec fn predictions_recorded(
    tokens: Answer<(String, i64)>,
    inserts: Seq<Executed>,
    cluster_id: i64,
    deployer: Seq<char>,
    risk: Ratio,
    confidence: Ratio,
    count: int,
) -> bool {
    &&& tokens.answers(DEPLOYER_TOKENS_SQL@, seq![SqlParam::Text(deployer)])
    &&& inserts.len() == tokens.rows().len()
    &&& count == inserts.len()
    &&& forall|i: int| 0 <= i < inserts.len() ==> (#[trigger] inserts[i]).sql() == prediction_insert_sql()
        && inserts[i].params() == prediction_values(cluster_id, tokens.rows()[i], risk, confidence)
}

/// Each emitted prediction is for the `i`-th token read, in cluster
/// `cluster_id`, and binds the risk it was given as the risk and the confidence
/// it was given as the confidence.
pub proof fn lemma_prediction_binds_risk_and_confidence(
    tokens: Answer<(String, i64)>,
    inserts: Seq<Executed>,
    cluster_id: i64,
    deployer: Seq<char>,
    risk: Ratio,
    confidence: Ratio,
    count: int,
    i: int,
)
    requires
        predictions_recorded(tokens, inserts, cluster_id, deployer, risk, confidence, count),
        0 <= i < count,
    ensures
        inserts[i].params()[0] == SqlParam::Integer(cluster_id),
        inserts[i].params()[1] == SqlParam::Text(tokens.rows()[i].0@),
        inserts[i].params()[2] == SqlParam::Integer(risk.num as i64),
        inserts[i].params()[3] == SqlParam::Integer(risk.den as i64),
        inserts[i].params()[4] == SqlParam::Integer(confidence.num as i64),
        inserts[i].params()[5] == SqlParam::Integer(confidence.den as i64),
        inserts[i].params()[7] == SqlParam::Integer(tokens.rows()[i].1),
{
    assert(inserts[i].params() == prediction_values(cluster_id, tokens.rows()[i], risk, confidence));
}

/// The parameters of [`INSERT_PREDICTION_BODY`] for the token `row` (mint, launch
/// slot) of cluster `cluster_id`, at the given risk and confidence.
pub fn prediction_params(cluster_id: i64, row: &(String, i64), risk: &Ratio, confidence: &Ratio) -> (p: Vec<SqlValue>)
    ensures
        params_view(p@) == prediction_values(cluster_id, *row, *risk, *confidence),
{
    let p = vec![
        SqlValue::Integer(cluster_id),
        text_param(&row.0),
        SqlValue::Integer(risk.num as i64),
        SqlValue::Integer(risk.den as i64),
        SqlValue::Integer(confidence.num as i64),
        SqlValue::Integer(confidence.den as i64),
        SqlValue::Integer(METHOD_VERSION),
        SqlValue::Integer(row.1),
    ];
    assert(params_view(p@) =~= seq![
        SqlParam::Integer(cluster_id),
        SqlParam::Text(row.0@),
        SqlParam::Integer(risk.num as i64),
        SqlParam::Integer(risk.den as i64),
        SqlParam::Integer(confidence.num as i64),
        SqlParam::Integer(confidence.den as i64),
        SqlParam::Integer(METHOD_VERSION),
        SqlParam::Integer(row.1),
    ]);
    p
}

/// Emits one `score_prediction` per token of the deployer, at the profile's risk
/// and confidence; `predicted_slot` is the token's launch slot. Returns how many.
fn emit_predictions(conn: &rusqlite::Connection, cluster_id: i64, deployer: &str, risk: &Ratio, confidence: &Ratio) -> (r: Result<usize, DbError>)
    ensures
        r matches Err(e) ==> e is Sqlite,
        r matches Ok(n) ==> exists|tokens: Answer<(String, i64)>, inserts: Seq<Executed>|
            #[trigger] predictions_recorded(tokens, inserts, cluster_id, deployer@, *risk, *confidence, n as int),
{
    let params = vec![SqlValue::Text(String::from_str(deployer))];
    assert(params_view(params@) =~= seq![SqlParam::Text(deployer@)]);
    let tokens = ask_text_int_pairs(conn, DEPLOYER_TOKENS_SQL, &params)?;
    let ghost answer = tokens;
    let mints = tokens.into_rows();
    let ghost mut inserts: Seq<Executed> = Seq::empty();
    let mut i: usize = 0;
    while i < mints.len()
        invariant
            i <= mints@.len(),
            mints@ == answer.rows(),
            inserts.len() == i,
            forall|k: int| 0 <= k < i ==> (#[trigger] inserts[k]).sql() == prediction_insert_sql()
                && inserts[k].params() == prediction_values(cluster_id, mints@[k], *risk, *confidence),
        decreases mints@.len() - i,
    {
        let w = write_statement(Verb::Insert, Table::ScorePrediction, INSERT_PREDICTION_BODY);
        let x = analysis_run(conn, &w, &prediction_params(cluster_id, &mints[i], risk, confidence))?;
        proof {
            inserts = inserts.push(x);
        }
        i = i + 1;
    }
    let r: Result<usize, DbError> = Ok(mints.len());
    assert(r matches Ok(n) && predictions_recorded(answer, inserts, cluster_id, deployer@, *risk, *confidence, n as int));
    r
}

} // verus!
