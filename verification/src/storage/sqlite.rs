//! The SQLite connection that the native store keeps, and the calls into
//! `rusqlite` that run its statements. What the database holds lives on
//! disk, outside the library, so nothing is stated of what a query returns
//! beyond its shape; a session records each statement it runs, with the
//! values bound to it and the answer, so that the callers can state what
//! they handed to the database and what they made of its answers.
use rusqlite::types::Value as Sql;
use vstd::prelude::*;

use crate::clock::{Timestamp, rfc3339_text};
use crate::error::StorageError;
use crate::storage::migrations::{Migration, pending_migrations, pending_spec};
use crate::text::to_string;

verus! {

#[verifier::external_type_specification]
#[verifier::external_body]
pub struct ExConnection(rusqlite::Connection);

/// A value passed to or read from SQLite.
#[derive(Debug, Clone)]
pub enum SqlValue {
    Null,
    Integer(i64),
    Text(String),
    Blob(Vec<u8>),
    /// A value of a kind that the library never stores (a real number).
    Other,
}

/// A value passed to or read from SQLite, as a value.
pub enum SqlView {
    Null,
    Integer(i64),
    Text(Seq<char>),
    Blob(Seq<u8>),
    Other,
}

impl View for SqlValue {
    type V = SqlView;

    open spec fn view(&self) -> SqlView {
        match self {
            SqlValue::Null => SqlView::Null,
            SqlValue::Integer(i) => SqlView::Integer(*i),
            SqlValue::Text(s) => SqlView::Text(s@),
            SqlValue::Blob(b) => SqlView::Blob(b@),
            SqlValue::Other => SqlView::Other,
        }
    }
}

/// The values of a list of SQL values.
pub open spec fn sql_views(vs: Seq<SqlValue>) -> Seq<SqlView> {
    vs.map_values(|v: SqlValue| v@)
}

/// Opens (or creates) the database file at a path.
/// Trusted: `rusqlite::Connection::open`; whether it succeeds depends on the
/// file system.
#[verifier::external_body]
pub(crate) fn open_connection(path: &str) -> (r: Result<rusqlite::Connection, String>) {
    rusqlite::Connection::open(path).map_err(|e| e.to_string())
}

/// Opens a new database that lives in memory only.
/// Trusted: `rusqlite::Connection::open_in_memory`.
#[verifier::external_body]
pub(crate) fn open_memory_connection() -> (r: Result<rusqlite::Connection, String>) {
    rusqlite::Connection::open_in_memory().map_err(|e| e.to_string())
}

/// Runs statements that take no parameters.
/// Trusted: `rusqlite::Connection::execute_batch`.
#[verifier::external_body]
pub(crate) fn execute_batch(conn: &rusqlite::Connection, sql: &str) -> (r: Result<(), String>) {
    conn.execute_batch(sql).map_err(|e| e.to_string())
}

#[verifier::external_type_specification]
#[verifier::external_body]
pub struct ExRawValue(rusqlite::types::Value);

/// A value read from SQLite, as the library keeps it.
/// Trusted: a conversion of `rusqlite::types::Value`, one variant for one
/// (a real number becomes `Other`).
#[verifier::external_body]
fn from_raw(v: &rusqlite::types::Value) -> SqlValue {
    match v {
        Sql::Null => SqlValue::Null,
        Sql::Integer(i) => SqlValue::Integer(*i),
        Sql::Text(t) => SqlValue::Text(t.clone()),
        Sql::Blob(b) => SqlValue::Blob(b.clone()),
        Sql::Real(_) => SqlValue::Other,
    }
}

fn from_raw_all(vs: &[rusqlite::types::Value]) -> (r: Vec<SqlValue>)
    ensures
        r@.len() == vs@.len(),
{
    let mut r: Vec<SqlValue> = Vec::new();
    let mut i: usize = 0;
    while i < vs.len()
        invariant
            i <= vs@.len(),
            r@.len() == i,
        decreases vs@.len() - i,
    {
        r.push(from_raw(&vs[i]));
        i = i + 1;
    }
    r
}

/// Runs one statement with parameters and gives the number of changed rows.
/// Trusted: `rusqlite::Connection::execute`, each parameter passed as the
/// `rusqlite` value of its kind (`Other` as `NULL`).
#[verifier::external_body]
fn run_statement(conn: &rusqlite::Connection, sql: &str, params: &[SqlValue]) -> (r: Result<usize, String>) {
    let raw = rusqlite::params_from_iter(params.iter().map(|v| match v {
        SqlValue::Integer(i) => Sql::Integer(*i),
        SqlValue::Text(t) => Sql::Text(t.clone()),
        SqlValue::Blob(b) => Sql::Blob(b.clone()),
        _ => Sql::Null,
    }));
    conn.execute(sql, raw).map_err(|e| e.to_string())
}

/// Runs a query and gives the first `ncols` columns of its first row, or
/// `None` when it returns no row.
/// Trusted: `rusqlite::Connection::query_row`, each parameter passed as the
/// `rusqlite` value of its kind (`Other` as `NULL`), reading each column
/// with `Row::get`; `QueryReturnedNoRows` becomes `None`.
#[verifier::external_body]
fn fetch_row(conn: &rusqlite::Connection, sql: &str, params: &[SqlValue], ncols: usize) -> (r:
    Result<Option<Vec<rusqlite::types::Value>>, String>)
    ensures
        r matches Ok(Some(row)) ==> row@.len() == ncols,
{
    let raw = rusqlite::params_from_iter(params.iter().map(|v| match v {
        SqlValue::Integer(i) => Sql::Integer(*i),
        SqlValue::Text(t) => Sql::Text(t.clone()),
        SqlValue::Blob(b) => Sql::Blob(b.clone()),
        _ => Sql::Null,
    }));
    match conn.query_row(sql, raw, |row| (0..ncols).map(|i| row.get::<_, Sql>(i)).collect()) {
        Ok(row) => Ok(Some(row)),
        Err(rusqlite::Error::QueryReturnedNoRows) => Ok(None),
        Err(e) => Err(e.to_string()),
    }
}

/// Runs a query and gives the first `ncols` columns of each row, in the
/// order the query returns them.
/// Trusted: `rusqlite::Connection::prepare` and `Statement::query_map`, each
/// parameter passed as the `rusqlite` value of its kind (`Other` as
/// `NULL`), reading each column with `Row::get`.
#[verifier::external_body]
fn fetch_rows(conn: &rusqlite::Connection, sql: &str, params: &[SqlValue], ncols: usize) -> (r:
    Result<Vec<Vec<rusqlite::types::Value>>, String>)
    ensures
        r matches Ok(rows) ==> forall|i: int| 0 <= i < rows@.len() ==> (#[trigger] rows@[i])@.len() == ncols,
{
    let raw = rusqlite::params_from_iter(params.iter().map(|v| match v {
        SqlValue::Integer(i) => Sql::Integer(*i),
        SqlValue::Text(t) => Sql::Text(t.clone()),
        SqlValue::Blob(b) => Sql::Blob(b.clone()),
        _ => Sql::Null,
    }));
    let mut stmt = conn.prepare(sql).map_err(|e| e.to_string())?;
    let rows = stmt.query_map(raw, |row| (0..ncols).map(|i| row.get::<_, Sql>(i)).collect());
    let all = rows.map_err(|e| e.to_string())?.collect::<Result<Vec<Vec<Sql>>, _>>();
    all.map_err(|e| e.to_string())
}

/// Runs one statement with parameters and gives the number of changed rows.
pub(crate) fn execute(conn: &rusqlite::Connection, sql: &str, params: &[SqlValue]) -> (r: Result<usize, String>) {
    run_statement(conn, sql, params)
}

/// Runs a query that reads at most one row, and gives the first `ncols`
/// columns of its first row, or `None` when it returns no row.
pub(crate) fn query_row(conn: &rusqlite::Connection, sql: &str, params: &[SqlValue], ncols: usize) -> (r:
    Result<Option<Vec<SqlValue>>, String>)
    ensures
        r matches Ok(Some(row)) ==> row@.len() == ncols,
{
    match fetch_row(conn, sql, params, ncols) {
        Ok(Some(row)) => Ok(Some(from_raw_all(row.as_slice()))),
        Ok(None) => Ok(None),
        Err(m) => Err(m),
    }
}

/// Runs a query and gives the first `ncols` columns of each row, in the
/// order the query returns them.
pub(crate) fn query_rows(conn: &rusqlite::Connection, sql: &str, params: &[SqlValue], ncols: usize) -> (r:
    Result<Vec<Vec<SqlValue>>, String>)
    ensures
        r matches Ok(rows) ==> forall|i: int| 0 <= i < rows@.len() ==> (#[trigger] rows@[i])@.len() == ncols,
{
    let rows = match fetch_rows(conn, sql, params, ncols) {
        Ok(rows) => rows,
        Err(m) => {
            return Err(m);
        },
    };
    let mut out: Vec<Vec<SqlValue>> = Vec::new();
    let mut i: usize = 0;
    while i < rows.len()
        invariant
            i <= rows@.len(),
            out@.len() == i,
            forall|k: int| 0 <= k < rows@.len() ==> (#[trigger] rows@[k])@.len() == ncols,
            forall|k: int| 0 <= k < i ==> (#[trigger] out@[k])@.len() == ncols,
        decreases rows@.len() - i,
    {
        out.push(from_raw_all(rows[i].as_slice()));
        i = i + 1;
    }
    Ok(out)
}

/// What the database answered a statement, as values.
pub enum SqlAnswer {
    /// A statement that changes rows: how many it changed, or its error.
    Changed(Result<usize, Seq<char>>),
    /// A query for at most one row: the row, none, or the error.
    Row(Result<Option<Seq<SqlView>>, Seq<char>>),
    /// A query for many rows: the rows in order, or the error.
    Rows(Result<Seq<Seq<SqlView>>, Seq<char>>),
    /// Statements run as one batch, without parameters: done, or the error.
    Batch(Result<(), Seq<char>>),
}

/// One statement handed to the database: its text, the values bound to
/// its parameters, and what came back.
pub struct SqlCall {
    pub sql: Seq<char>,
    pub params: Seq<SqlView>,
    pub answer: SqlAnswer,
}

/// The answer to a statement that changes rows, as values.
pub open spec fn changed_answer(r: Result<usize, String>) -> Result<usize, Seq<char>> {
    match r {
        Ok(k) => Ok(k),
        Err(m) => Err(m@),
    }
}

/// The answer to a batch of statements, as values.
pub open spec fn batch_answer(r: Result<(), String>) -> Result<(), Seq<char>> {
    match r {
        Ok(_) => Ok(()),
        Err(m) => Err(m@),
    }
}

/// The answer to a query for at most one row, as values.
pub open spec fn row_answer(row: Result<Option<Vec<SqlValue>>, String>) -> Result<
    Option<Seq<SqlView>>,
    Seq<char>,
> {
    match row {
        Ok(Some(cols)) => Ok(Some(sql_views(cols@))),
        Ok(None) => Ok(None),
        Err(m) => Err(m@),
    }
}

/// The answer to a query for many rows, as values.
pub open spec fn rows_answer(rows: Result<Vec<Vec<SqlValue>>, String>) -> Result<
    Seq<Seq<SqlView>>,
    Seq<char>,
> {
    match rows {
        Ok(rs) => Ok(rs@.map_values(|c: Vec<SqlValue>| sql_views(c@))),
        Err(m) => Err(m@),
    }
}

/// Whether `after` is `before` with more statements after it.
pub open spec fn extends(before: Seq<SqlCall>, after: Seq<SqlCall>) -> bool {
    &&& before.len() <= after.len()
    &&& forall|i: int| 0 <= i < before.len() ==> #[trigger] after[i] == before[i]
}

/// The statements of `after` that follow those of `before`.
pub open spec fn since(before: Seq<SqlCall>, after: Seq<SqlCall>) -> Seq<SqlCall> {
    after.skip(before.len() as int)
}

/// A connection together with the record of every statement run through
/// it, in order, and of every instant read from the clock for the values
/// those statements carry.
pub struct SqlSession<'a> {
    conn: &'a rusqlite::Connection,
    log: Ghost<Seq<SqlCall>>,
    clock: Ghost<Seq<Timestamp>>,
}

impl<'a> SqlSession<'a> {
    /// The connection the statements run through.
    pub closed spec fn connection(&self) -> rusqlite::Connection {
        *self.conn
    }

    /// The statements run so far, oldest first.
    pub closed spec fn calls(&self) -> Seq<SqlCall> {
        self.log@
    }

    /// The instants read from the clock so far, oldest first.
    pub closed spec fn times(&self) -> Seq<Timestamp> {
        self.clock@
    }

    pub fn new(conn: &'a rusqlite::Connection) -> (s: Self)
        ensures
            s.connection() == *conn,
            s.calls() == Seq::<SqlCall>::empty(),
            s.times() == Seq::<Timestamp>::empty(),
    {
        SqlSession { conn, log: Ghost(Seq::empty()), clock: Ghost(Seq::empty()) }
    }

    /// The current time, with its RFC 3339 text.
    pub fn now(&mut self) -> (r: (Timestamp, String))
        ensures
            final(self).connection() == old(self).connection(),
            final(self).calls() == old(self).calls(),
            final(self).times() == old(self).times().push(r.0),
            rfc3339_text(r.0.secs, r.0.nanos) == Some(r.1@),
    {
        let r = crate::storage::note_repo::now_stamp();
        self.clock = Ghost(self.clock@.push(r.0));
        r
    }

    /// Runs one statement with parameters and gives the number of changed
    /// rows.
    pub fn execute(&mut self, sql: &str, params: &[SqlValue]) -> (r: Result<usize, String>)
        ensures
            final(self).connection() == old(self).connection(),
            final(self).times() == old(self).times(),
            final(self).calls() == old(self).calls().push(
                SqlCall { sql: sql@, params: sql_views(params@), answer: SqlAnswer::Changed(changed_answer(r)) },
            ),
    {
        let r = execute(self.conn, sql, params);
        self.log = Ghost(
            self.log@.push(
                SqlCall { sql: sql@, params: sql_views(params@), answer: SqlAnswer::Changed(changed_answer(r)) },
            ),
        );
        r
    }

    /// Runs statements that take no parameters, as one batch.
    pub fn execute_batch(&mut self, sql: &str) -> (r: Result<(), String>)
        ensures
            final(self).connection() == old(self).connection(),
            final(self).times() == old(self).times(),
            final(self).calls() == old(self).calls().push(
                SqlCall { sql: sql@, params: Seq::empty(), answer: SqlAnswer::Batch(batch_answer(r)) },
            ),
    {
        let r = execute_batch(self.conn, sql);
        self.log = Ghost(
            self.log@.push(SqlCall { sql: sql@, params: Seq::empty(), answer: SqlAnswer::Batch(batch_answer(r)) }),
        );
        r
    }

    /// Runs a query that reads at most one row, and gives the first `ncols`
    /// columns of its first row, or `None` when it returns no row.
    pub fn query_row(&mut self, sql: &str, params: &[SqlValue], ncols: usize) -> (r: Result<
        Option<Vec<SqlValue>>,
        String,
    >)
        ensures
            final(self).connection() == old(self).connection(),
            final(self).times() == old(self).times(),
            final(self).calls() == old(self).calls().push(
                SqlCall { sql: sql@, params: sql_views(params@), answer: SqlAnswer::Row(row_answer(r)) },
            ),
            r matches Ok(Some(row)) ==> row@.len() == ncols,
    {
        let r = query_row(self.conn, sql, params, ncols);
        self.log = Ghost(
            self.log@.push(SqlCall { sql: sql@, params: sql_views(params@), answer: SqlAnswer::Row(row_answer(r)) }),
        );
        r
    }

    /// Runs a query and gives the first `ncols` columns of each row, in the
    /// order the query returns them.
    pub fn query_rows(&mut self, sql: &str, params: &[SqlValue], ncols: usize) -> (r: Result<
        Vec<Vec<SqlValue>>,
        String,
    >)
        ensures
            final(self).connection() == old(self).connection(),
            final(self).times() == old(self).times(),
            final(self).calls() == old(self).calls().push(
                SqlCall { sql: sql@, params: sql_views(params@), answer: SqlAnswer::Rows(rows_answer(r)) },
            ),
            r matches Ok(rows) ==> forall|i: int| 0 <= i < rows@.len() ==> (#[trigger] rows@[i])@.len() == ncols,
    {
        let r = query_rows(self.conn, sql, params, ncols);
        self.log = Ghost(
            self.log@.push(SqlCall { sql: sql@, params: sql_views(params@), answer: SqlAnswer::Rows(rows_answer(r)) }),
        );
        r
    }

    /// The rowid of the row that the last successful insert added.
    pub fn last_insert_rowid(&self) -> (r: i64) {
        last_insert_rowid(self.conn)
    }
}

/// The rowid of the row that the last successful insert added.
/// Trusted: `rusqlite::Connection::last_insert_rowid`.
#[verifier::external_body]
pub(crate) fn last_insert_rowid(conn: &rusqlite::Connection) -> (r: i64) {
    conn.last_insert_rowid()
}

/// A database error, with its message.
pub fn sqlite_error(m: String) -> (e: StorageError)
    ensures
        e matches StorageError::Sqlite(x) && x@ == m@,
{
    StorageError::Sqlite(m)
}

/// An open notes database.
pub struct Database {
    conn: rusqlite::Connection,
}

impl Database {
    /// Opens the database at `path` with foreign keys enforced, bringing its
    /// schema up to date.
    pub fn open(path: &str) -> (r: Result<Database, StorageError>)
        ensures
            r matches Err(e) ==> e is Sqlite,
    {
        let conn = match open_connection(path) {
            Ok(c) => c,
            Err(m) => {
                return Err(sqlite_error(m));
            },
        };
        Database::prepare(conn)
    }

    /// Opens a new in-memory database with foreign keys enforced and the
    /// schema in place.
    pub fn open_in_memory() -> (r: Result<Database, StorageError>)
        ensures
            r matches Err(e) ==> e is Sqlite,
    {
        match open_memory_connection() {
            Ok(c) => Database::prepare(c),
            Err(m) => Err(sqlite_error(m)),
        }
    }

    fn prepare(conn: rusqlite::Connection) -> (r: Result<Database, StorageError>)
        ensures
            r matches Err(e) ==> e is Sqlite,
    {
        if let Err(m) = execute_batch(&conn, "PRAGMA foreign_keys=ON;") {
            return Err(sqlite_error(m));
        }
        match crate::storage::migrations::run(&conn) {
            Ok(_) => Ok(Database { conn }),
            Err(e) => Err(e),
        }
    }

    /// The connection the database is reached through.
    pub closed spec fn db(&self) -> rusqlite::Connection {
        self.conn
    }

    pub fn connection(&self) -> (c: &rusqlite::Connection)
        ensures
            *c == self.db(),
    {
        &self.conn
    }
}

/// The first column, read as an integer, or 0.
pub open spec fn first_integer(cols: Seq<SqlValue>) -> i64 {
    if cols.len() > 0 {
        match cols[0] {
            SqlValue::Integer(x) => x,
            _ => 0,
        }
    } else {
        0
    }
}

/// The schema version a query of `MAX(version)` gave, reading an error or a
/// non-integer as version 0.
pub fn version_from_row(row: Result<Option<Vec<SqlValue>>, String>) -> (v: i64)
    ensures
        v == (match row {
            Ok(Some(cols)) => first_integer(cols@),
            _ => 0,
        }),
{
    match row {
        Ok(Some(cols)) => {
            if cols.len() > 0 {
                match &cols[0] {
                    SqlValue::Integer(x) => *x,
                    _ => 0,
                }
            } else {
                0
            }
        },
        _ => 0,
    }
}

/// Creates the table of applied schema versions when there is none.
pub const CREATE_VERSION_TABLE_SQL: &'static str = "CREATE TABLE IF NOT EXISTS _schema_version (
            version INTEGER PRIMARY KEY,
            description TEXT NOT NULL,
            applied_at TEXT NOT NULL DEFAULT (datetime('now'))
        );";

/// Reads the schema version: the largest one applied, or 0.
pub const CURRENT_VERSION_SQL: &'static str = "SELECT COALESCE(MAX(version), 0) FROM _schema_version";

/// Records an applied migration (`?1` its version, `?2` its description).
pub const RECORD_VERSION_SQL: &'static str = "INSERT INTO _schema_version (version, description) VALUES (?1, ?2)";

/// Whether statement `c` ran a batch that succeeded.
pub open spec fn batch_ok(c: SqlCall) -> bool {
    c.answer matches SqlAnswer::Batch(Ok(_))
}

/// Whether statement `c` succeeded in changing the database.
pub open spec fn changed_rows(c: SqlCall) -> bool {
    c.answer matches SqlAnswer::Changed(Ok(_))
}

/// The first column of a row, read as an integer, or 0.
pub open spec fn first_integer_view(cols: Seq<SqlView>) -> i64 {
    if cols.len() > 0 {
        match cols[0] {
            SqlView::Integer(x) => x,
            _ => 0,
        }
    } else {
        0
    }
}

/// The schema version a version query answered, reading a failed query, no
/// row, or a value that is not an integer as version 0.
pub open spec fn answered_version(c: SqlCall) -> i64 {
    match c.answer {
        SqlAnswer::Row(Ok(Some(row))) => first_integer_view(row),
        _ => 0,
    }
}

/// Whether statement `c` reads the schema version.
pub open spec fn reads_version(c: SqlCall) -> bool {
    c.sql == CURRENT_VERSION_SQL@ && c.params == Seq::<SqlView>::empty() && c.answer is Row
}

/// The versions of a list of migrations, in order.
pub open spec fn versions_of(ms: Seq<Migration>) -> Seq<i64> {
    ms.map_values(|m: Migration| m.version)
}

/// Whether statements `a` and `b` apply migration `m` and record it: its
/// SQL run as a batch, then its version and description inserted.
pub open spec fn applies_migration(a: SqlCall, b: SqlCall, m: Migration) -> bool {
    &&& a.sql == m.sql@ && a.params == Seq::<SqlView>::empty()
    &&& b.sql == RECORD_VERSION_SQL@ && b.params == seq![SqlView::Integer(m.version), SqlView::Text(m.description@)]
}

/// Whether `cs` apply and record, each with success, the migrations of `ms`
/// at positions `order`, in that order, two statements each.
pub open spec fn migrations_applied(ms: Seq<Migration>, order: Seq<int>, cs: Seq<SqlCall>) -> bool {
    &&& cs.len() == 2 * order.len()
    &&& forall|j: int|
        0 <= j < order.len() ==> applies_migration(cs[2 * j], cs[2 * j + 1], ms[#[trigger] order[j]])
            && batch_ok(cs[2 * j]) && changed_rows(cs[2 * j + 1])
}

/// Whether `cs` are the statements of a failed attempt to apply migration
/// `m`: its batch failed, or it ran and recording it failed.
pub open spec fn migration_failed(m: Migration, cs: Seq<SqlCall>) -> bool {
    ||| cs.len() == 1 && cs[0].sql == m.sql@ && cs[0].params == Seq::<SqlView>::empty() && !batch_ok(cs[0])
    ||| cs.len() == 2 && applies_migration(cs[0], cs[1], m) && batch_ok(cs[0]) && !changed_rows(cs[1])
}

/// Whether `cs` are the statements that bringing a schema up to date with
/// the migrations `ms` runs, and `r` what they give. The version table is
/// created when missing, and a failure there ends the work; the schema
/// version is read; every migration whose version is above it is applied
/// and recorded, in version order (`pending_spec`), a failure ending the
/// work with its error; last the schema version is read again, and that is
/// the result.
pub open spec fn run_made(ms: Seq<Migration>, cs: Seq<SqlCall>, r: Result<i64, StorageError>) -> bool {
    &&& cs.len() >= 1 && cs[0].sql == CREATE_VERSION_TABLE_SQL@ && cs[0].params == Seq::<SqlView>::empty()
    &&& if !batch_ok(cs[0]) {
        cs.len() == 1 && (r matches Err(e) && e is Sqlite)
    } else {
        let order = pending_spec(answered_version(cs[1]), versions_of(ms));
        &&& cs.len() >= 2 && reads_version(cs[1])
        &&& match r {
            Ok(v) => {
                &&& cs.len() == 2 * order.len() + 3
                &&& migrations_applied(ms, order, cs.subrange(2, cs.len() - 1))
                &&& reads_version(cs.last()) && v == answered_version(cs.last())
            },
            Err(e) => e is Sqlite && exists|j: int|
                0 <= j < order.len() && migrations_applied(ms, order.take(j), #[trigger] cs.subrange(2, 2 + 2 * j))
                    && migration_failed(ms[order[j]], cs.skip(2 + 2 * j)),
        }
    }
}

/// The number of migrations a successful schema update applied, two
/// statements each between the two version reads.
pub open spec fn steps(cs: Seq<SqlCall>) -> int {
    (cs.len() - 3) / 2
}

/// The batch statement of the `j`-th migration a schema update applied.
pub open spec fn step_batch(cs: Seq<SqlCall>, j: int) -> SqlCall {
    cs[2 * j + 2]
}

/// The statement that recorded the `j`-th migration a schema update applied.
pub open spec fn step_record(cs: Seq<SqlCall>, j: int) -> SqlCall {
    cs[2 * j + 3]
}

/// The version a recording statement wrote, if it wrote an integer first.
pub open spec fn recorded_version(c: SqlCall) -> Option<i64> {
    if c.params.len() > 0 {
        match c.params[0] {
            SqlView::Integer(a) => Some(a),
            _ => None,
        }
    } else {
        None
    }
}

/// A schema brought up to date with success has had applied and recorded
/// exactly the migrations whose version is above the version it was read
/// at: each of them, none other, in increasing version order; and the
/// result is the version read after them.
pub proof fn lemma_run_applies_every_pending_migration(ms: Seq<Migration>, cs: Seq<SqlCall>, v: i64)
    requires
        run_made(ms, cs, Ok(v)),
    ensures
        cs.len() == 2 * steps(cs) + 3,
        reads_version(cs[1]) && reads_version(cs.last()) && v == answered_version(cs.last()),
        forall|p: int|
            0 <= p < ms.len() && #[trigger] ms[p].version > answered_version(cs[1]) ==> exists|j: int|
                0 <= j < steps(cs) && #[trigger] applies_migration(step_batch(cs, j), step_record(cs, j), ms[p])
                    && batch_ok(step_batch(cs, j)) && changed_rows(step_record(cs, j)),
        forall|j: int|
            #![trigger step_batch(cs, j)]
            0 <= j < steps(cs) ==> exists|p: int|
                #![trigger applies_migration(step_batch(cs, j), step_record(cs, j), ms[p])]
                0 <= p < ms.len() && ms[p].version > answered_version(cs[1]) && applies_migration(
                    step_batch(cs, j),
                    step_record(cs, j),
                    ms[p],
                ),
        forall|i: int, j: int|
            0 <= i < j < steps(cs) ==> recorded_version(#[trigger] step_record(cs, i)) is Some
                && recorded_version(#[trigger] step_record(cs, j)) is Some
                && recorded_version(step_record(cs, i))->Some_0 <= recorded_version(step_record(cs, j))->Some_0,
{
    let vs = versions_of(ms);
    let cur = answered_version(cs[1]);
    let order = pending_spec(cur, vs);
    let body = cs.subrange(2, cs.len() - 1);
    crate::storage::migrations::lemma_pending_in_range(cur, vs);
    crate::storage::migrations::lemma_pending_in_version_order(cur, vs);
    crate::storage::migrations::lemma_pending_complete(cur, vs);
    assert(steps(cs) == order.len());
    assert forall|j: int| 0 <= j < order.len() implies applies_migration(
        step_batch(cs, j),
        step_record(cs, j),
        ms[#[trigger] order[j]],
    ) && batch_ok(step_batch(cs, j)) && changed_rows(step_record(cs, j)) by {
        assert(body[2 * j] == cs[2 * j + 2] && body[2 * j + 1] == cs[2 * j + 3]);
    }
    assert forall|p: int|
        0 <= p < ms.len() && #[trigger] ms[p].version > cur implies exists|j: int|
            0 <= j < steps(cs) && #[trigger] applies_migration(step_batch(cs, j), step_record(cs, j), ms[p])
                && batch_ok(step_batch(cs, j)) && changed_rows(step_record(cs, j)) by {
        assert(vs[p] == ms[p].version);
        let j = choose|j: int| 0 <= j < order.len() && order[j] == p;
        assert(applies_migration(step_batch(cs, j), step_record(cs, j), ms[order[j]]));
    }
    assert forall|j: int| #![trigger step_batch(cs, j)] 0 <= j < steps(cs) implies exists|p: int|
        #![trigger applies_migration(step_batch(cs, j), step_record(cs, j), ms[p])]
        0 <= p < ms.len() && ms[p].version > cur && applies_migration(
            step_batch(cs, j),
            step_record(cs, j),
            ms[p],
        ) by {
        let p = order[j];
        assert(applies_migration(step_batch(cs, j), step_record(cs, j), ms[p]));
        assert(vs[p] == ms[p].version);
    }
    assert forall|i: int, j: int| 0 <= i < j < steps(cs) implies recorded_version(
        #[trigger] step_record(cs, i),
    ) is Some && recorded_version(#[trigger] step_record(cs, j)) is Some && recorded_version(
        step_record(cs, i),
    )->Some_0 <= recorded_version(step_record(cs, j))->Some_0 by {
        assert(applies_migration(step_batch(cs, i), step_record(cs, i), ms[order[i]]));
        assert(applies_migration(step_batch(cs, j), step_record(cs, j), ms[order[j]]));
        assert(crate::storage::migrations::version_before(vs, order[i], order[j]));
        assert(vs[order[i]] == ms[order[i]].version && vs[order[j]] == ms[order[j]].version);
    }
}

/// Applies the migrations that the database still needs, in increasing
/// version order, recording each statement in `session`, and gives the
/// schema version it ends at.
pub fn run_logged(session: &mut SqlSession, all: &[Migration]) -> (r: Result<i64, StorageError>)
    ensures
        final(session).connection() == old(session).connection(),
        final(session).times() == old(session).times(),
        extends(old(session).calls(), final(session).calls()),
        run_made(all@, since(old(session).calls(), final(session).calls()), r),
        r matches Err(e) ==> e is Sqlite,
{
    let ghost start = session.calls();
    let created = session.execute_batch(CREATE_VERSION_TABLE_SQL);
    let ghost c0 = session.calls().last();
    if let Err(m) = created {
        assert(since(start, session.calls()) =~= seq![c0]);
        return Err(sqlite_error(m));
    }
    let no_params: Vec<SqlValue> = Vec::new();
    assert(sql_views(no_params@) =~= Seq::<SqlView>::empty());
    let row = session.query_row(CURRENT_VERSION_SQL, no_params.as_slice(), 1);
    let ghost c1 = session.calls().last();
    assert((row matches Ok(Some(cols)) && cols.len() > 0) ==> sql_views(row->Ok_0->Some_0@)[0] == row->Ok_0->Some_0@[0]@);
    let current = version_from_row(row);
    assert(current == answered_version(c1));
    let pending = pending_migrations(current, all);
    let ghost order = pending_spec(current, versions_of(all@));
    assert(versions_of(all@) == all@.map_values(|m: Migration| m.version));
    proof {
        crate::storage::migrations::lemma_pending_in_range(current, versions_of(all@));
        assert(since(start, session.calls()) =~= seq![c0, c1]);
        assert(since(start, session.calls()).subrange(2, 2) =~= Seq::<SqlCall>::empty());
        assert(order.take(0) =~= Seq::<int>::empty());
    }
    let mut i: usize = 0;
    while i < pending.len()
        invariant
            i <= pending@.len(),
            pending@.map_values(|k: usize| k as int) == order,
            order == pending_spec(current, versions_of(all@)),
            forall|j: int| 0 <= j < order.len() ==> 0 <= #[trigger] order[j] < all@.len(),
            extends(start, session.calls()),
            session.connection() == old(session).connection(),
            session.times() == old(session).times(),
            start == old(session).calls(),
            since(start, session.calls()).len() == 2 + 2 * i,
            since(start, session.calls())[0] == c0,
            since(start, session.calls())[1] == c1,
            batch_ok(c0),
            c0.sql == CREATE_VERSION_TABLE_SQL@ && c0.params == Seq::<SqlView>::empty(),
            reads_version(c1) && current == answered_version(c1),
            migrations_applied(all@, order.take(i as int), since(start, session.calls()).subrange(2, 2 + 2 * i)),
        decreases pending@.len() - i,
    {
        let k = pending[i];
        assert(order[i as int] == k as int);
        let m = &all[k];
        let ghost before = session.calls();
        let done = session.execute_batch(m.sql);
        let ghost a = session.calls().last();
        if let Err(e) = done {
            proof {
                let cs = since(start, session.calls());
                assert(cs.subrange(2, 2 + 2 * i) =~= since(start, before).subrange(2, 2 + 2 * i));
                assert(cs.skip(2 + 2 * i) =~= seq![a]);
                assert(cs[0] == c0 && cs[1] == c1);
                assert(migration_failed(all@[order[i as int]], cs.skip(2 + 2 * i)));
            }
            return Err(sqlite_error(e));
        }
        let mut params: Vec<SqlValue> = Vec::new();
        params.push(SqlValue::Integer(m.version));
        params.push(SqlValue::Text(to_string(m.description)));
        assert(sql_views(params@) =~= seq![SqlView::Integer(m.version), SqlView::Text(m.description@)]);
        let recorded = session.execute(RECORD_VERSION_SQL, params.as_slice());
        let ghost b = session.calls().last();
        assert(applies_migration(a, b, all@[order[i as int]]));
        if let Err(e) = recorded {
            proof {
                let cs = since(start, session.calls());
                assert(cs.subrange(2, 2 + 2 * i) =~= since(start, before).subrange(2, 2 + 2 * i));
                assert(cs.skip(2 + 2 * i) =~= seq![a, b]);
                assert(cs[0] == c0 && cs[1] == c1);
                assert(migration_failed(all@[order[i as int]], cs.skip(2 + 2 * i)));
            }
            return Err(sqlite_error(e));
        }
        proof {
            let old_body = since(start, before).subrange(2, 2 + 2 * i);
            let cs = since(start, session.calls());
            let body = cs.subrange(2, 2 + 2 * (i + 1));
            assert(body =~= old_body + seq![a, b]);
            assert(order.take(i + 1) =~= order.take(i as int).push(k as int));
            assert forall|j: int| 0 <= j < order.take(i + 1).len() implies applies_migration(
                body[2 * j],
                body[2 * j + 1],
                all@[#[trigger] order.take(i + 1)[j]],
            ) && batch_ok(body[2 * j]) && changed_rows(body[2 * j + 1]) by {
                if j < i {
                    assert(order.take(i + 1)[j] == order.take(i as int)[j]);
                    assert(body[2 * j] == old_body[2 * j] && body[2 * j + 1] == old_body[2 * j + 1]);
                } else {
                    assert(body[2 * j] == a && body[2 * j + 1] == b);
                }
            }
            assert(cs[0] == c0 && cs[1] == c1);
        }
        i = i + 1;
    }
    let last = session.query_row(CURRENT_VERSION_SQL, no_params.as_slice(), 1);
    let ghost cl = session.calls().last();
    assert((last matches Ok(Some(cols)) && cols.len() > 0) ==> sql_views(last->Ok_0->Some_0@)[0] == last->Ok_0->Some_0@[0]@);
    let v = version_from_row(last);
    proof {
        let cs = since(start, session.calls());
        assert(order.take(order.len() as int) =~= order);
        assert(cs.subrange(2, cs.len() - 1) =~= since(start, session.calls().drop_last()).subrange(2, 2 + 2 * i));
        assert(cs[0] == c0 && cs[1] == c1 && cs.last() == cl);
    }
    Ok(v)
}

/// Applies the migrations that the database still needs, in increasing
/// version order (the positions `pending_migrations` gives), and
/// gives the schema version it ends at.
pub fn run(conn: &rusqlite::Connection, all: &[Migration]) -> (r: Result<i64, StorageError>)
    ensures
        r matches Err(e) ==> e is Sqlite,
        exists|cs: Seq<SqlCall>| run_made(all@, cs, r),
{
    let mut session = SqlSession::new(conn);
    let r = run_logged(&mut session, all);
    assert(since(Seq::<SqlCall>::empty(), session.calls()) =~= session.calls());
    r
}

} // verus!
