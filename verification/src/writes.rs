//! Write statements and the tables they write.
//!
//! The database has two writers with disjoint scopes. The ingestor writes the
//! RAW and FACT-LIKE tables only; the analyser writes the derived tables,
//! `passthrough_node` and `analysis_queue` only. Every write statement of either is
//! a [`Write`], built by [`write_statement`] from a keyword, a [`Table`] and the
//! rest of its text, so that the table it writes is known: [`written_table`] reads
//! it from the statement's text, and a well-formed `Write` names that table.

use vstd::prelude::*;

verus! {

/// A table that the ingestor or the analyser writes.
#[derive(Debug, Clone, Copy, PartialEq, Eq, Structural)]
pub enum Table {
    RawTokenLaunch,
    RawWalletFlow,
    RawLaunchParticipant,
    TokenOutcome,
    TradeOutcome,
    Cluster,
    ClusterMember,
    ClusterProfile,
    ScorePrediction,
    PassthroughNode,
    AnalysisQueue,
}

impl Table {
    /// The table's name in the schema.
    pub open spec fn table_name(self) -> Seq<char> {
        match self {
            Table::RawTokenLaunch => "raw_token_launch"@,
            Table::RawWalletFlow => "raw_wallet_flow"@,
            Table::RawLaunchParticipant => "raw_launch_participant"@,
            Table::TokenOutcome => "token_outcome"@,
            Table::TradeOutcome => "trade_outcome"@,
            Table::Cluster => "cluster"@,
            Table::ClusterMember => "cluster_member"@,
            Table::ClusterProfile => "cluster_profile"@,
            Table::ScorePrediction => "score_prediction"@,
            Table::PassthroughNode => "passthrough_node"@,
            Table::AnalysisQueue => "analysis_queue"@,
        }
    }

    /// The table's name in the schema.
    pub fn name(&self) -> (s: &'static str)
        ensures
            s@ == self.table_name(),
    {
        match self {
            Table::RawTokenLaunch => "raw_token_launch",
            Table::RawWalletFlow => "raw_wallet_flow",
            Table::RawLaunchParticipant => "raw_launch_participant",
            Table::TokenOutcome => "token_outcome",
            Table::TradeOutcome => "trade_outcome",
            Table::Cluster => "cluster",
            Table::ClusterMember => "cluster_member",
            Table::ClusterProfile => "cluster_profile",
            Table::ScorePrediction => "score_prediction",
            Table::PassthroughNode => "passthrough_node",
            Table::AnalysisQueue => "analysis_queue",
        }
    }

    /// A RAW or FACT-LIKE table: field observations, written by the ingestor.
    pub open spec fn is_field_table(self) -> bool {
        match self {
            Table::RawTokenLaunch | Table::RawWalletFlow | Table::RawLaunchParticipant
            | Table::TokenOutcome | Table::TradeOutcome => true,
            _ => false,
        }
    }

    /// A derived table, `passthrough_node` or the queue: written by the analyser.
    pub open spec fn is_analysis_table(self) -> bool {
        match self {
            Table::Cluster | Table::ClusterMember | Table::ClusterProfile | Table::ScorePrediction
            | Table::PassthroughNode | Table::AnalysisQueue => true,
            _ => false,
        }
    }
}

/// The keyword that opens a write statement, up to the table's name.
#[derive(Debug, Clone, Copy, PartialEq, Eq, Structural)]
pub enum Verb {
    InsertOrIgnore,
    Insert,
    DeleteFrom,
    Update,
}

impl Verb {
    /// The keyword's text, with its trailing space.
    pub open spec fn keyword(self) -> Seq<char> {
        match self {
            Verb::InsertOrIgnore => "INSERT OR IGNORE INTO "@,
            Verb::Insert => "INSERT INTO "@,
            Verb::DeleteFrom => "DELETE FROM "@,
            Verb::Update => "UPDATE "@,
        }
    }

    /// The keyword's text, with its trailing space.
    pub fn text(&self) -> (s: &'static str)
        ensures
            s@ == self.keyword(),
    {
        match self {
            Verb::InsertOrIgnore => "INSERT OR IGNORE INTO ",
            Verb::Insert => "INSERT INTO ",
            Verb::DeleteFrom => "DELETE FROM ",
            Verb::Update => "UPDATE ",
        }
    }
}

/// A character of a table's name: a lower-case letter, a digit or `_`.
pub open spec fn is_name_char(c: char) -> bool {
    ('a' <= c && c <= 'z') || ('0' <= c && c <= '9') || c == '_'
}

/// The end of the name that starts at `i` in `s`: the first position from `i` on
/// that holds no name character.
pub open spec fn name_end(s: Seq<char>, i: int) -> int
    decreases s.len() - i,
{
    if 0 <= i < s.len() && is_name_char(s[i]) {
        name_end(s, i + 1)
    } else {
        i
    }
}

/// The name that starts at `i` in `s`.
pub open spec fn name_at(s: Seq<char>, i: int) -> Seq<char> {
    s.subrange(i, name_end(s, i))
}

/// The table that statement `sql` writes: the name that follows its opening
/// `INSERT OR IGNORE INTO`, `INSERT INTO`, `DELETE FROM` or `UPDATE`; empty for a
/// statement that opens with none of them.
pub open spec fn written_table(sql: Seq<char>) -> Seq<char> {
    if Verb::InsertOrIgnore.keyword().is_prefix_of(sql) {
        name_at(sql, Verb::InsertOrIgnore.keyword().len() as int)
    } else if Verb::Insert.keyword().is_prefix_of(sql) {
        name_at(sql, Verb::Insert.keyword().len() as int)
    } else if Verb::DeleteFrom.keyword().is_prefix_of(sql) {
        name_at(sql, Verb::DeleteFrom.keyword().len() as int)
    } else if Verb::Update.keyword().is_prefix_of(sql) {
        name_at(sql, Verb::Update.keyword().len() as int)
    } else {
        Seq::empty()
    }
}

/// A write statement, the keyword it opens with and the table it writes.
pub struct Write {
    pub verb: Verb,
    pub table: Table,
    pub sql: String,
}

impl Write {
    /// The statement opens with the keyword it names and writes the table it names.
    pub open spec fn wf(&self) -> bool {
        &&& self.verb.keyword().is_prefix_of(self.sql@)
        &&& written_table(self.sql@) == self.table.table_name()
    }

    /// The statement adds rows and changes or deletes none: an `INSERT`.
    pub open spec fn only_adds(&self) -> bool {
        self.verb is Insert || self.verb is InsertOrIgnore
    }
}

/// A table's name is made of name characters only, and is not empty.
proof fn lemma_table_name_chars(t: Table)
    ensures
        t.table_name().len() > 0,
        forall|k: int| 0 <= k < t.table_name().len() ==> is_name_char(#[trigger] t.table_name()[k]),
{
    reveal_strlit("raw_token_launch");
    reveal_strlit("raw_wallet_flow");
    reveal_strlit("raw_launch_participant");
    reveal_strlit("token_outcome");
    reveal_strlit("trade_outcome");
    reveal_strlit("cluster");
    reveal_strlit("cluster_member");
    reveal_strlit("cluster_profile");
    reveal_strlit("score_prediction");
    reveal_strlit("passthrough_node");
    reveal_strlit("analysis_queue");
}

/// A run of name characters from `i` up to `j`, followed by a character that is
/// not one, is the name at `i`.
proof fn lemma_name_end(s: Seq<char>, i: int, j: int)
    requires
        0 <= i <= j < s.len(),
        forall|k: int| i <= k < j ==> is_name_char(#[trigger] s[k]),
        !is_name_char(s[j]),
    ensures
        name_end(s, i) == j,
    decreases j - i,
{
    if i < j {
        lemma_name_end(s, i + 1, j);
    }
}

/// The statement `keyword + name + " " + rest` writes the table `name`.
proof fn lemma_written_table(verb: Verb, table: Table, rest: Seq<char>)
    ensures
        verb.keyword().is_prefix_of(verb.keyword() + table.table_name() + " "@ + rest),
        written_table(verb.keyword() + table.table_name() + " "@ + rest) == table.table_name(),
{
    reveal_strlit("INSERT OR IGNORE INTO ");
    reveal_strlit("INSERT INTO ");
    reveal_strlit("DELETE FROM ");
    reveal_strlit("UPDATE ");
    reveal_strlit(" ");
    lemma_table_name_chars(table);
    let k = verb.keyword();
    let n = table.table_name();
    let s = k + n + " "@ + rest;
    assert(s[0] == k[0]);
    if k.len() > 7 {
        assert(s[7] == k[7]);
    }
    assert(s.subrange(0, k.len() as int) =~= k);
    assert(k.is_prefix_of(s));
    assert forall|q: int| k.len() <= q < k.len() + n.len() implies is_name_char(#[trigger] s[q]) by {
        assert(s[q] == n[q - k.len()]);
    }
    let e: int = (k.len() + n.len()) as int;
    assert(s[e] == ' ');
    lemma_name_end(s, k.len() as int, e);
    assert(s.subrange(k.len() as int, e) =~= n);
}

/// The statement `keyword table rest` writes `table`, whatever `rest` is.
pub proof fn lemma_statement_table(verb: Verb, table: Table, rest: Seq<char>)
    ensures
        written_table(verb.keyword() + table.table_name() + " "@ + rest) == table.table_name(),
{
    lemma_written_table(verb, table, rest);
}

/// Builds the statement `keyword table rest`, which writes `table`.
pub fn write_statement(verb: Verb, table: Table, rest: &str) -> (w: Write)
    ensures
        w.verb == verb,
        w.table == table,
        w.sql@ == verb.keyword() + table.table_name() + " "@ + rest@,
        w.wf(),
{
    let mut sql = String::from_str(verb.text());
    sql.append(table.name());
    sql.append(" ");
    sql.append(rest);
    proof {
        lemma_written_table(verb, table, rest@);
    }
    Write { verb, table, sql }
}

/// A statement that only adds rows opens with `INSERT`: it is no `UPDATE` and no
/// `DELETE`.
pub proof fn lemma_only_adds_is_insert(w: Write)
    requires
        w.wf(),
        w.only_adds(),
    ensures
        "INSERT "@.is_prefix_of(w.sql@),
        !Verb::Update.keyword().is_prefix_of(w.sql@),
        !Verb::DeleteFrom.keyword().is_prefix_of(w.sql@),
{
    reveal_strlit("INSERT OR IGNORE INTO ");
    reveal_strlit("INSERT INTO ");
    reveal_strlit("DELETE FROM ");
    reveal_strlit("UPDATE ");
    reveal_strlit("INSERT ");
    let k = w.verb.keyword();
    assert(w.sql@[0] == k[0]);
    assert(w.sql@.subrange(0, 7) =~= k.subrange(0, 7));
    assert(w.sql@.subrange(0, 7) =~= "INSERT "@);
}

/// Different tables have different names.
pub proof fn lemma_table_names_distinct(a: Table, b: Table)
    ensures
        a.table_name() == b.table_name() ==> a == b,
{
    reveal_strlit("raw_token_launch");
    reveal_strlit("raw_wallet_flow");
    reveal_strlit("raw_launch_participant");
    reveal_strlit("token_outcome");
    reveal_strlit("trade_outcome");
    reveal_strlit("cluster");
    reveal_strlit("cluster_member");
    reveal_strlit("cluster_profile");
    reveal_strlit("score_prediction");
    reveal_strlit("passthrough_node");
    reveal_strlit("analysis_queue");
    if a.table_name() == b.table_name() && a != b {
        assert(a.table_name().len() == b.table_name().len());
        assert(a.table_name()[0] == b.table_name()[0]);
        assert(a.table_name()[4] == b.table_name()[4]);
        assert(a.table_name()[8] == b.table_name()[8]);
        assert(a.table_name()[10] == b.table_name()[10]);
    }
}

/// The write boundary: every table is written by exactly one of the two writers,
/// and no statement that the analyser may run writes a table that the ingestor
/// writes, whatever the rest of its text.
pub proof fn lemma_write_boundary(analysis: Write, field: Write)
    requires
        analysis.wf(),
        analysis.table.is_analysis_table(),
        field.wf(),
        field.table.is_field_table(),
    ensures
        written_table(analysis.sql@) != written_table(field.sql@),
        forall|t: Table| #[trigger] t.is_field_table() != t.is_analysis_table(),
{
    lemma_table_names_distinct(analysis.table, field.table);
}

} // verus!
