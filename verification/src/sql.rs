//! The boundary with SQLite, through `rusqlite`.
//!
//! Every call into `rusqlite` goes through one trusted wrapper below. What a query
//! returns and how many rows a statement changes depend on the database file, so
//! the wrappers promise nothing of those values; the verified helpers at the end
//! of this module read rows into plain values and map `rusqlite` errors into
//! [`DbError`].

use vstd::prelude::*;
use rusqlite::types::Value;

verus! {

#[verifier::external_type_specification]
#[verifier::external_body]
pub struct ExConnection(rusqlite::Connection);

#[verifier::external_type_specification]
#[verifier::external_body]
pub struct ExSqliteError(rusqlite::Error);

#[verifier::external_type_specification]
#[verifier::external_body]
pub struct ExStatement<'c>(rusqlite::Statement<'c>);

#[verifier::external_type_specification]
#[verifier::external_body]
pub struct ExRows<'s>(rusqlite::Rows<'s>);

#[verifier::external_type_specification]
#[verifier::external_body]
pub struct ExRow<'s>(rusqlite::Row<'s>);

#[verifier::external_type_specification]
#[verifier::external_body]
pub struct ExTransaction<'c>(rusqlite::Transaction<'c>);

/// A value bound to a `?` parameter of a statement.
#[derive(Debug, PartialEq, Eq)]
pub enum SqlValue {
    Null,
    Integer(i64),
    Text(String),
}

/// The mathematical content of a [`SqlValue`].
pub enum SqlParam {
    Null,
    Integer(i64),
    Text(Seq<char>),
}

impl View for SqlValue {
    type V = SqlParam;

    open spec fn view(&self) -> SqlParam {
        match self {
            SqlValue::Null => SqlParam::Null,
            SqlValue::Integer(i) => SqlParam::Integer(*i),
            SqlValue::Text(s) => SqlParam::Text(s@),
        }
    }
}

/// The parameters of a statement, by their content.
pub open spec fn params_view(params: Seq<SqlValue>) -> Seq<SqlParam> {
    params.map_values(|v: SqlValue| v@)
}

/// A text parameter holding a copy of `s`.
pub fn text_param(s: &String) -> (v: SqlValue)
    ensures
        v@ == SqlParam::Text(s@),
{
    SqlValue::Text(s.clone())
}

/// A text parameter, or `NULL` when absent.
pub fn opt_text_param(s: &Option<String>) -> (v: SqlValue)
    ensures
        v@ == match s {
            Some(t) => SqlParam::Text(t@),
            None => SqlParam::Null,
        },
{
    match s {
        Some(t) => SqlValue::Text(t.clone()),
        None => SqlValue::Null,
    }
}

/// An integer parameter, or `NULL` when absent.
pub fn opt_int_param(i: Option<i64>) -> (v: SqlValue)
    ensures
        v@ == match i {
            Some(x) => SqlParam::Integer(x),
            None => SqlParam::Null,
        },
{
    match i {
        Some(x) => SqlValue::Integer(x),
        None => SqlValue::Null,
    }
}

/// Why a database operation of the library failed.
#[derive(Debug)]
pub enum DbError {
    /// SQLite, through `rusqlite`, reported an error.
    Sqlite(rusqlite::Error),
    /// A query that always yields one row yielded none.
    NoRow,
    /// A query yielded a value that its SQL cannot produce (such as a negative count).
    UnexpectedValue,
}

impl DbError {
    /// A human-readable description of the error.
    pub fn message(&self) -> (m: String)
        ensures
            self is NoRow ==> m@ == "Query returned no rows"@,
            self is UnexpectedValue ==> m@ == "unexpected value in query result"@,
    {
        match self {
            DbError::Sqlite(e) => error_text(e),
            DbError::NoRow => String::from_str("Query returned no rows"),
            DbError::UnexpectedValue => String::from_str("unexpected value in query result"),
        }
    }
}

// ---------------------------------------------------------------------------
// Trusted wrappers: one per rusqlite function.
// ---------------------------------------------------------------------------

/// `Connection::open`: opens (or creates) the database file at `path`.
/// Whether it succeeds depends on the file system: nothing is stated of the result.
#[verifier::external_body]
pub(crate) fn open_connection(path: &str) -> (r: Result<rusqlite::Connection, rusqlite::Error>) {
    rusqlite::Connection::open(path)
}

/// `Connection::execute_batch`: runs the statements of `sql`, which take no parameters.
/// Whether it succeeds depends on the database: nothing is stated of the result.
#[verifier::external_body]
pub(crate) fn run_batch(conn: &rusqlite::Connection, sql: &str) -> (r: Result<(), rusqlite::Error>) {
    conn.execute_batch(sql)
}

/// `Connection::execute`: runs one statement with `params` bound to its `?` in order;
/// `Ok` holds the number of rows it changed. That number depends on the database
/// content: nothing is stated of it.
#[verifier::external_body]
pub(crate) fn run_statement(conn: &rusqlite::Connection, sql: &str, params: &Vec<SqlValue>) -> (r: Result<usize, rusqlite::Error>) {
    conn.execute(sql, rusqlite::params_from_iter(params.iter().map(|v| match v {
        SqlValue::Null => Value::Null,
        SqlValue::Integer(i) => Value::Integer(*i),
        SqlValue::Text(s) => Value::Text(s.clone()),
    })))
}

/// `Connection::last_insert_rowid`: the rowid of the latest successful `INSERT`,
/// which SQLite chooses: nothing is stated of it.
#[verifier::external_body]
pub(crate) fn last_rowid(conn: &rusqlite::Connection) -> (r: i64) {
    conn.last_insert_rowid()
}

/// `Connection::prepare`: compiles one statement (it fails on invalid SQL or a
/// missing table): nothing is stated of the result.
#[verifier::external_body]
pub(crate) fn prepare_statement<'c>(conn: &'c rusqlite::Connection, sql: &str) -> (r: Result<rusqlite::Statement<'c>, rusqlite::Error>) {
    conn.prepare(sql)
}

/// `Statement::query`: binds `params` to the `?` in order and starts the query;
/// nothing is stated of the result.
#[verifier::external_body]
pub(crate) fn open_rows<'s>(stmt: &'s mut rusqlite::Statement<'_>, params: &Vec<SqlValue>) -> (r: Result<rusqlite::Rows<'s>, rusqlite::Error>) {
    stmt.query(rusqlite::params_from_iter(params.iter().map(|v| match v {
        SqlValue::Null => Value::Null,
        SqlValue::Integer(i) => Value::Integer(*i),
        SqlValue::Text(s) => Value::Text(s.clone()),
    })))
}

/// `Rows::next`: the next row of the query, or `None` once all were read. The rows
/// come from the database: nothing is stated of them.
#[verifier::external_body]
pub(crate) fn next_row<'r, 's>(rows: &'r mut rusqlite::Rows<'s>) -> (r: Result<Option<&'r rusqlite::Row<'s>>, rusqlite::Error>) {
    rows.next()
}

/// `Row::get` read as text: the column `idx` of the row, an error when it is not
/// text. Its value comes from the database: nothing is stated of it.
#[verifier::external_body]
pub(crate) fn column_text(row: &rusqlite::Row<'_>, idx: usize) -> (r: Result<String, rusqlite::Error>) {
    row.get::<usize, String>(idx)
}

/// `Row::get` read as an integer: the column `idx` of the row, an error when it is
/// not an integer. Its value comes from the database: nothing is stated of it.
#[verifier::external_body]
pub(crate) fn column_int(row: &rusqlite::Row<'_>, idx: usize) -> (r: Result<i64, rusqlite::Error>) {
    row.get::<usize, i64>(idx)
}

/// `Connection::unchecked_transaction`: begins a deferred transaction, rolled back
/// when dropped without a commit. Nothing is stated of the result.
#[verifier::external_body]
pub(crate) fn begin_transaction(conn: &rusqlite::Connection) -> (r: Result<rusqlite::Transaction<'_>, rusqlite::Error>) {
    conn.unchecked_transaction()
}

/// `<Transaction as Deref>::deref`: the connection the transaction runs on. The
/// connection is opaque here: nothing is stated of it.
#[verifier::external_body]
pub(crate) fn transaction_connection<'t>(tx: &'t rusqlite::Transaction<'_>) -> (r: &'t rusqlite::Connection) {
    &**tx
}

/// `Transaction::commit`: commits the transaction; whether it succeeds depends on
/// the database, so nothing is stated of the result.
#[verifier::external_body]
pub(crate) fn commit_transaction(tx: rusqlite::Transaction<'_>) -> (r: Result<(), rusqlite::Error>) {
    tx.commit()
}

/// `<rusqlite::Error as ToString>::to_string`: the error's message. The error is
/// opaque here: nothing is stated of the text.
#[verifier::external_body]
pub(crate) fn error_text(e: &rusqlite::Error) -> (r: String) {
    e.to_string()
}

// ---------------------------------------------------------------------------
// Verified helpers.
// ---------------------------------------------------------------------------

/// The rows a query returned, together with the statement and the parameters it
/// ran with. Only the query functions of this module make one, so an `Answer`
/// for a statement shows that the statement was run.
pub struct Answer<T> {
    sql: Ghost<Seq<char>>,
    params: Ghost<Seq<SqlParam>>,
    rows: Vec<T>,
}

impl<T> Answer<T> {
    /// The statement that was run.
    pub closed spec fn sql(&self) -> Seq<char> {
        self.sql@
    }

    /// The parameters it was run with.
    pub closed spec fn params(&self) -> Seq<SqlParam> {
        self.params@
    }

    /// The rows it returned, in order.
    pub closed spec fn rows(&self) -> Seq<T> {
        self.rows@
    }

    /// This answers `sql` run with `params`.
    pub open spec fn answers(&self, sql: Seq<char>, params: Seq<SqlParam>) -> bool {
        self.sql() == sql && self.params() == params
    }

    /// The rows, in order.
    pub fn into_rows(self) -> (v: Vec<T>)
        ensures
            v@ == self.rows(),
    {
        self.rows
    }
}

/// A statement that was run, with its parameters and the number of rows it
/// changed. Only [`run`] makes one.
pub struct Executed {
    sql: Ghost<Seq<char>>,
    params: Ghost<Seq<SqlParam>>,
    changed: usize,
}

impl Executed {
    /// The statement that was run.
    pub closed spec fn sql(&self) -> Seq<char> {
        self.sql@
    }

    /// The parameters it was run with.
    pub closed spec fn params(&self) -> Seq<SqlParam> {
        self.params@
    }

    /// How many rows it changed.
    pub closed spec fn changed(&self) -> usize {
        self.changed
    }

    /// How many rows it changed.
    pub fn changed_rows(&self) -> (n: usize)
        ensures
            n == self.changed(),
    {
        self.changed
    }
}

/// Runs one statement with `params`; `Ok` records it, with the rows it changed.
pub fn run(conn: &rusqlite::Connection, sql: &str, params: &Vec<SqlValue>) -> (r: Result<Executed, DbError>)
    ensures
        r matches Err(e) ==> e is Sqlite,
        r matches Ok(x) ==> x.sql() == sql@ && x.params() == params_view(params@),
{
    match run_statement(conn, sql, params) {
        Ok(n) => Ok(Executed { sql: Ghost(sql@), params: Ghost(params_view(params@)), changed: n }),
        Err(e) => Err(DbError::Sqlite(e)),
    }
}

/// Runs one statement; `Ok` holds the number of rows it changed.
pub fn execute(conn: &rusqlite::Connection, sql: &str, params: &Vec<SqlValue>) -> (r: Result<usize, DbError>)
    ensures
        r matches Err(e) ==> e is Sqlite,
{
    match run(conn, sql, params) {
        Ok(x) => Ok(x.changed_rows()),
        Err(e) => Err(e),
    }
}

/// Runs statements without parameters.
pub fn execute_batch(conn: &rusqlite::Connection, sql: &str) -> (r: Result<(), DbError>)
    ensures
        r matches Err(e) ==> e is Sqlite,
{
    match run_batch(conn, sql) {
        Ok(()) => Ok(()),
        Err(e) => Err(DbError::Sqlite(e)),
    }
}

/// The first column of every row of a query, read as text.
pub fn ask_texts(conn: &rusqlite::Connection, sql: &str, params: &Vec<SqlValue>) -> (r: Result<Answer<String>, DbError>)
    ensures
        r matches Err(e) ==> e is Sqlite,
        r matches Ok(a) ==> a.answers(sql@, params_view(params@)),
{
    let mut stmt = match prepare_statement(conn, sql) {
        Ok(s) => s,
        Err(e) => return Err(DbError::Sqlite(e)),
    };
    let mut rows = match open_rows(&mut stmt, params) {
        Ok(r) => r,
        Err(e) => return Err(DbError::Sqlite(e)),
    };
    let mut out: Vec<String> = Vec::new();
    // A vector never reaches `usize::MAX` elements: the bound only gives the loop a measure.
    while out.len() < usize::MAX
        decreases usize::MAX - out.len(),
    {
        match next_row(&mut rows) {
            Err(e) => return Err(DbError::Sqlite(e)),
            Ok(None) => break,
            Ok(Some(row)) => match column_text(row, 0) {
                Ok(a) => out.push(a),
                Err(e) => return Err(DbError::Sqlite(e)),
            },
        }
    }
    Ok(Answer { sql: Ghost(sql@), params: Ghost(params_view(params@)), rows: out })
}

/// The first column of every row of a query, read as text.
pub fn query_texts(conn: &rusqlite::Connection, sql: &str, params: &Vec<SqlValue>) -> (r: Result<Vec<String>, DbError>)
    ensures
        r matches Err(e) ==> e is Sqlite,
{
    match ask_texts(conn, sql, params) {
        Ok(a) => Ok(a.into_rows()),
        Err(e) => Err(e),
    }
}

/// The first column of every row of a query, read as an integer.
pub fn ask_ints(conn: &rusqlite::Connection, sql: &str, params: &Vec<SqlValue>) -> (r: Result<Answer<i64>, DbError>)
    ensures
        r matches Err(e) ==> e is Sqlite,
        r matches Ok(a) ==> a.answers(sql@, params_view(params@)),
{
    let mut stmt = match prepare_statement(conn, sql) {
        Ok(s) => s,
        Err(e) => return Err(DbError::Sqlite(e)),
    };
    let mut rows = match open_rows(&mut stmt, params) {
        Ok(r) => r,
        Err(e) => return Err(DbError::Sqlite(e)),
    };
    let mut out: Vec<i64> = Vec::new();
    while out.len() < usize::MAX
        decreases usize::MAX - out.len(),
    {
        match next_row(&mut rows) {
            Err(e) => return Err(DbError::Sqlite(e)),
            Ok(None) => break,
            Ok(Some(row)) => match column_int(row, 0) {
                Ok(a) => out.push(a),
                Err(e) => return Err(DbError::Sqlite(e)),
            },
        }
    }
    Ok(Answer { sql: Ghost(sql@), params: Ghost(params_view(params@)), rows: out })
}

/// The first column of every row of a query, read as an integer.
pub fn query_ints(conn: &rusqlite::Connection, sql: &str, params: &Vec<SqlValue>) -> (r: Result<Vec<i64>, DbError>)
    ensures
        r matches Err(e) ==> e is Sqlite,
{
    match ask_ints(conn, sql, params) {
        Ok(a) => Ok(a.into_rows()),
        Err(e) => Err(e),
    }
}

/// Every row of a query whose columns are a text and an integer.
pub fn ask_text_int_pairs(conn: &rusqlite::Connection, sql: &str, params: &Vec<SqlValue>) -> (r: Result<Answer<(String, i64)>, DbError>)
    ensures
        r matches Err(e) ==> e is Sqlite,
        r matches Ok(a) ==> a.answers(sql@, params_view(params@)),
{
    let mut stmt = match prepare_statement(conn, sql) {
        Ok(s) => s,
        Err(e) => return Err(DbError::Sqlite(e)),
    };
    let mut rows = match open_rows(&mut stmt, params) {
        Ok(r) => r,
        Err(e) => return Err(DbError::Sqlite(e)),
    };
    let mut out: Vec<(String, i64)> = Vec::new();
    while out.len() < usize::MAX
        decreases usize::MAX - out.len(),
    {
        match next_row(&mut rows) {
            Err(e) => return Err(DbError::Sqlite(e)),
            Ok(None) => break,
            Ok(Some(row)) => {
                let a = match column_text(row, 0) {
                    Ok(a) => a,
                    Err(e) => return Err(DbError::Sqlite(e)),
                };
                let b = match column_int(row, 1) {
                    Ok(b) => b,
                    Err(e) => return Err(DbError::Sqlite(e)),
                };
                out.push((a, b));
            },
        }
    }
    Ok(Answer { sql: Ghost(sql@), params: Ghost(params_view(params@)), rows: out })
}

/// Every row of a query whose columns are a text and an integer.
pub fn query_text_int_pairs(conn: &rusqlite::Connection, sql: &str, params: &Vec<SqlValue>) -> (r: Result<Vec<(String, i64)>, DbError>)
    ensures
        r matches Err(e) ==> e is Sqlite,
{
    match ask_text_int_pairs(conn, sql, params) {
        Ok(a) => Ok(a.into_rows()),
        Err(e) => Err(e),
    }
}

/// Every row of a query whose columns are two texts and an integer.
pub fn ask_text_text_int_triples(conn: &rusqlite::Connection, sql: &str, params: &Vec<SqlValue>) -> (r: Result<Answer<(String, String, i64)>, DbError>)
    ensures
        r matches Err(e) ==> e is Sqlite,
        r matches Ok(a) ==> a.answers(sql@, params_view(params@)),
{
    let mut stmt = match prepare_statement(conn, sql) {
        Ok(s) => s,
        Err(e) => return Err(DbError::Sqlite(e)),
    };
    let mut rows = match open_rows(&mut stmt, params) {
        Ok(r) => r,
        Err(e) => return Err(DbError::Sqlite(e)),
    };
    let mut out: Vec<(String, String, i64)> = Vec::new();
    while out.len() < usize::MAX
        decreases usize::MAX - out.len(),
    {
        match next_row(&mut rows) {
            Err(e) => return Err(DbError::Sqlite(e)),
            Ok(None) => break,
            Ok(Some(row)) => {
                let a = match column_text(row, 0) {
                    Ok(a) => a,
                    Err(e) => return Err(DbError::Sqlite(e)),
                };
                let b = match column_text(row, 1) {
                    Ok(b) => b,
                    Err(e) => return Err(DbError::Sqlite(e)),
                };
                let c = match column_int(row, 2) {
                    Ok(c) => c,
                    Err(e) => return Err(DbError::Sqlite(e)),
                };
                out.push((a, b, c));
            },
        }
    }
    Ok(Answer { sql: Ghost(sql@), params: Ghost(params_view(params@)), rows: out })
}

/// Every row of a query whose columns are two texts and an integer.
pub fn query_text_text_int_triples(conn: &rusqlite::Connection, sql: &str, params: &Vec<SqlValue>) -> (r: Result<Vec<(String, String, i64)>, DbError>)
    ensures
        r matches Err(e) ==> e is Sqlite,
{
    match ask_text_text_int_triples(conn, sql, params) {
        Ok(a) => Ok(a.into_rows()),
        Err(e) => Err(e),
    }
}

/// The first column of the first row of a query, read as an integer; `NoRow` when
/// the query yields no row.
pub fn ask_one_int(conn: &rusqlite::Connection, sql: &str, params: &Vec<SqlValue>) -> (r: Result<Answer<i64>, DbError>)
    ensures
        r matches Err(e) ==> (e is Sqlite || e is NoRow),
        r matches Ok(a) ==> a.answers(sql@, params_view(params@)) && a.rows().len() == 1,
{
    let mut stmt = match prepare_statement(conn, sql) {
        Ok(s) => s,
        Err(e) => return Err(DbError::Sqlite(e)),
    };
    let mut rows = match open_rows(&mut stmt, params) {
        Ok(r) => r,
        Err(e) => return Err(DbError::Sqlite(e)),
    };
    match next_row(&mut rows) {
        Err(e) => Err(DbError::Sqlite(e)),
        Ok(None) => Err(DbError::NoRow),
        Ok(Some(row)) => match column_int(row, 0) {
            Ok(a) => Ok(Answer { sql: Ghost(sql@), params: Ghost(params_view(params@)), rows: vec![a] }),
            Err(e) => Err(DbError::Sqlite(e)),
        },
    }
}

/// The first column of the first row of a query, read as an integer; `NoRow` when
/// the query yields no row.
pub fn query_one_int(conn: &rusqlite::Connection, sql: &str, params: &Vec<SqlValue>) -> (r: Result<i64, DbError>)
    ensures
        r matches Err(e) ==> (e is Sqlite || e is NoRow),
{
    match ask_one_int(conn, sql, params) {
        Ok(a) => {
            let v = a.into_rows();
            Ok(v[0])
        },
        Err(e) => Err(e),
    }
}

} // verus!
