//! Records of the tool's SQLite database: the statements that insert them,
//! the values bound to those statements, and the reports of failed
//! operations.  Every record has a generated `id` and the times it was
//! created and last updated.
use vstd::prelude::*;
use crate::text::{contains_seq, contains_str, decimal, decimal_string, join, join_strings, push_str, to_string, views};

verus! {

/// A SQLite connection (rusqlite's `Connection`).
#[verifier::external_type_specification]
#[verifier::external_body]
pub struct ExConnection(rusqlite::Connection);

/// A value bound to a statement parameter.
#[derive(Debug)]
pub enum SqlValue {
    Null,
    Integer(i64),
    Text(String),
}

/// A bound value as plain data.
pub enum SqlModel {
    Null,
    Integer(i64),
    Text(Seq<char>),
}

impl View for SqlValue {
    type V = SqlModel;

    open spec fn view(&self) -> SqlModel {
        match self {
            SqlValue::Null => SqlModel::Null,
            SqlValue::Integer(i) => SqlModel::Integer(*i),
            SqlValue::Text(s) => SqlModel::Text(s@),
        }
    }
}

/// Plain values of bound values.
pub open spec fn sql_views(v: Seq<SqlValue>) -> Seq<SqlModel> {
    v.map_values(|x: SqlValue| x@)
}

/// An optional text as a bound value: `NULL` when absent.
pub open spec fn opt_text(o: Option<Seq<char>>) -> SqlModel {
    match o {
        Some(s) => SqlModel::Text(s),
        None => SqlModel::Null,
    }
}

/// An optional text as a bound value.
pub fn opt_text_value(o: &Option<String>) -> (r: SqlValue)
    ensures
        r@ == opt_text(crate::config::opt_view(*o)),
{
    match o {
        Some(s) => SqlValue::Text(to_string(s.as_str())),
        None => SqlValue::Null,
    }
}

/// A text as a bound value.
pub fn text_value(s: &str) -> (r: SqlValue)
    ensures
        r@ == SqlModel::Text(s@),
{
    SqlValue::Text(to_string(s))
}

/// How a database operation failed, as rusqlite reported it.
#[derive(Debug)]
pub enum DbFailure {
    /// SQLite refused the operation: its error code in words, and SQLite's
    /// own message when it gave one.
    Sqlite { code: String, message: Option<String> },
    /// Any other failure, in words.
    Other { text: String },
}

/// SQLite ran `sql` with `params` bound to `?1`, `?2`, ... in order, and
/// reported success.
pub uninterp spec fn ran_statement(sql: Seq<char>, params: Seq<SqlModel>) -> bool;

/// Calls rusqlite's `Connection::execute` with the values bound to `?1`,
/// `?2`, ... in order, each converted to rusqlite's `Value` of the same kind
/// (`Null`, `Integer`, `Text`).  A success means that SQLite ran exactly this
/// statement with exactly these values; the number of rows it reports, and
/// whether it succeeds at all, depend on the database and are not stated.
/// A failure is converted to a `DbFailure`.
#[verifier::external_body]
fn sql_execute(conn: &rusqlite::Connection, sql: &str, params: &Vec<SqlValue>) -> (r: Result<usize, DbFailure>)
    ensures
        r is Ok ==> ran_statement(sql@, sql_views(params@)),
{
    let values = params.iter().map(|v| match v {
        SqlValue::Null => rusqlite::types::Value::Null,
        SqlValue::Integer(i) => rusqlite::types::Value::Integer(*i),
        SqlValue::Text(t) => rusqlite::types::Value::Text(t.clone()),
    });
    conn.execute(sql, rusqlite::params_from_iter(values)).map_err(|e| match e {
        rusqlite::Error::SqliteFailure(code, message) => DbFailure::Sqlite { code: code.to_string(), message },
        other => DbFailure::Other { text: other.to_string() },
    })
}

/// Calls `Uuid::new_v4` and writes it in its hyphenated form, which is 36
/// characters long.  The identifier is random.
#[verifier::external_body]
fn new_row_id() -> (r: String)
    ensures
        r@.len() == 36,
{
    uuid::Uuid::new_v4().to_string()
}

/// Calls chrono's `Utc::now().timestamp()`: the current time in seconds
/// since the Unix epoch.  Nothing is claimed of it.
#[verifier::external_body]
fn unix_now() -> (r: i64) {
    chrono::Utc::now().timestamp()
}

/// `?1, ?2, ..., ?n`.
pub open spec fn placeholders(n: nat) -> Seq<char> {
    join(Seq::new(n, |i: int| "?"@ + decimal((i + 1) as nat)), ", "@)
}

/// The statement inserting a record with the given columns.
pub open spec fn insert_statement(table: Seq<char>, columns: Seq<Seq<char>>) -> Seq<char> {
    "INSERT INTO "@ + table + " ("@ + join(columns, ", "@) + ") VALUES ("@ + placeholders(columns.len()) + ")"@
}

/// The statement inserting a record (see `insert_statement`).
pub fn insert_sql(table: &str, columns: &Vec<String>) -> (r: String)
    requires
        columns@.len() < u64::MAX,
    ensures
        r@ == insert_statement(table@, views(columns@)),
{
    let mut marks: Vec<String> = Vec::new();
    let mut i: usize = 0;
    while i < columns.len()
        invariant
            i <= columns@.len(),
            columns@.len() < u64::MAX,
            views(marks@) == Seq::new(i as nat, |k: int| "?"@ + decimal((k + 1) as nat)),
        decreases columns@.len() - i,
    {
        let mut m = to_string("?");
        let d = decimal_string((i + 1) as u64);
        push_str(&mut m, d.as_str());
        let ghost before = marks@;
        assert(m@ == "?"@ + decimal((i + 1) as nat));
        marks.push(m);
        assert(marks@ == before.push(m));
        assert(views(marks@) =~= views(before).push(m@));
        assert(views(marks@) =~= Seq::new((i + 1) as nat, |k: int| "?"@ + decimal((k + 1) as nat)));
        i = i + 1;
    }
    let cols = join_strings(columns, ", ");
    let ph = join_strings(&marks, ", ");
    let mut s = to_string("INSERT INTO ");
    push_str(&mut s, table);
    push_str(&mut s, " (");
    push_str(&mut s, cols.as_str());
    push_str(&mut s, ") VALUES (");
    push_str(&mut s, ph.as_str());
    push_str(&mut s, ")");
    s
}

/// The columns written when a record is inserted: `id`, the data columns,
/// `created_at`, `updated_at`.
pub open spec fn insert_columns(data_columns: Seq<Seq<char>>) -> Seq<Seq<char>> {
    seq!["id"@] + data_columns + seq!["created_at"@, "updated_at"@]
}

/// SQLite inserted a record into `table`: the insert statement for the data
/// columns ran with `id`, the data, and one time as both creation and update
/// time.
pub open spec fn inserted(table: Seq<char>, data_columns: Seq<Seq<char>>, id: Seq<char>, data: Seq<SqlModel>) -> bool {
    exists|now: i64| #[trigger] ran_statement(
        insert_statement(table, insert_columns(data_columns)),
        insert_values(id, data, now),
    )
}

/// SQLite inserted a record with this data into `table` under some new
/// 36-character identifier.
pub open spec fn inserted_some(table: Seq<char>, data_columns: Seq<Seq<char>>, data: Seq<SqlModel>) -> bool {
    exists|id: Seq<char>| id.len() == 36 && #[trigger] inserted(table, data_columns, id, data)
}

/// The values bound when a record is inserted: its new `id`, its data, and
/// the current time as both creation and update time.
pub open spec fn insert_values(id: Seq<char>, data: Seq<SqlModel>, now: i64) -> Seq<SqlModel> {
    seq![SqlModel::Text(id)] + data + seq![SqlModel::Integer(now), SqlModel::Integer(now)]
}

/// The values bound when a record is inserted (see `insert_values`).
pub fn insert_params(id: &str, data: Vec<SqlValue>, now: i64) -> (r: Vec<SqlValue>)
    ensures
        sql_views(r@) == insert_values(id@, sql_views(data@), now),
{
    let mut r: Vec<SqlValue> = Vec::new();
    r.push(SqlValue::Text(to_string(id)));
    let mut rest = data;
    let ghost all = rest@;
    let total = rest.len();
    let mut taken: usize = 0;
    assert(rest@ =~= all.subrange(0, all.len() as int));
    assert(sql_views(r@) =~= seq![SqlModel::Text(id@)] + sql_views(all).take(0));
    while rest.len() > 0
        invariant
            taken + rest@.len() == all.len(),
            all.len() == total,
            rest@ == all.subrange(taken as int, all.len() as int),
            sql_views(r@) == seq![SqlModel::Text(id@)] + sql_views(all).take(taken as int),
        decreases rest@.len(),
    {
        let v = rest.remove(0);
        let ghost before = r@;
        r.push(v);
        proof {
            assert(v == all[taken as int]);
            assert(rest@ =~= all.subrange(taken + 1, all.len() as int));
            assert(sql_views(r@) =~= sql_views(before).push(v@));
            assert(sql_views(all).take(taken + 1) =~= sql_views(all).take(taken as int).push(all[taken as int]@));
        }
        taken = taken + 1;
    }
    assert(sql_views(all).take(all.len() as int) =~= sql_views(all));
    r.push(SqlValue::Integer(now));
    r.push(SqlValue::Integer(now));
    assert(sql_views(r@) =~= insert_values(id@, sql_views(all), now));
    r
}

/// Inserts a record into `table` with the given data columns and values,
/// giving it a new identifier and the current time.  On success the
/// identifier (36 characters) is returned and SQLite has run the insert
/// statement with exactly that identifier and data (see `inserted`).
pub fn insert_record(conn: &rusqlite::Connection, table: &str, data_columns: &Vec<String>, data: Vec<SqlValue>) -> (r: Result<String, DbFailure>)
    requires
        data_columns@.len() + 3 < u64::MAX,
    ensures
        r matches Ok(id) ==> id@.len() == 36 && inserted(table@, views(data_columns@), id@, sql_views(data@)),
{
    let ghost dv = sql_views(data@);
    let mut columns: Vec<String> = Vec::new();
    columns.push(to_string("id"));
    let mut i: usize = 0;
    while i < data_columns.len()
        invariant
            i <= data_columns@.len(),
            views(columns@) == seq!["id"@] + views(data_columns@).take(i as int),
        decreases data_columns@.len() - i,
    {
        let ghost before = columns@;
        columns.push(to_string(data_columns[i].as_str()));
        proof {
            assert(views(columns@) =~= views(before).push(data_columns@[i as int]@));
            assert(views(data_columns@).take(i + 1) =~= views(data_columns@).take(i as int).push(
                data_columns@[i as int]@,
            ));
        }
        i = i + 1;
    }
    assert(views(data_columns@).take(i as int) =~= views(data_columns@));
    let ghost mid = columns@;
    columns.push(to_string("created_at"));
    columns.push(to_string("updated_at"));
    assert(views(columns@) =~= views(mid).push("created_at"@).push("updated_at"@));
    assert(views(columns@) =~= insert_columns(views(data_columns@)));
    let sql = insert_sql(table, &columns);
    let id = new_row_id();
    let now = unix_now();
    let params = insert_params(id.as_str(), data, now);
    match sql_execute(conn, sql.as_str(), &params) {
        Ok(_) => {
            assert(ran_statement(
                insert_statement(table@, insert_columns(views(data_columns@))),
                insert_values(id@, dv, now),
            ));
            Ok(id)
        },
        Err(e) => Err(e),
    }
}

/// `c1 = ?1, c2 = ?2, ...` for the columns.
pub open spec fn set_clause(columns: Seq<Seq<char>>) -> Seq<char> {
    join(Seq::new(columns.len(), |i: int| columns[i] + " = ?"@ + decimal((i + 1) as nat)), ", "@)
}

/// The statement updating the data columns of the record with a given
/// identifier, and its update time.
pub open spec fn update_statement(table: Seq<char>, columns: Seq<Seq<char>>) -> Seq<char> {
    "UPDATE "@ + table + " SET "@ + set_clause(columns) + ", updated_at = ?"@ + decimal(columns.len() + 1)
        + " WHERE id = ?"@ + decimal(columns.len() + 2)
}

/// The statement updating a record (see `update_statement`).
pub fn update_sql(table: &str, columns: &Vec<String>) -> (r: String)
    requires
        columns@.len() + 2 < u64::MAX,
    ensures
        r@ == update_statement(table@, views(columns@)),
{
    let ghost cv = views(columns@);
    let mut sets: Vec<String> = Vec::new();
    let mut i: usize = 0;
    while i < columns.len()
        invariant
            i <= columns@.len(),
            columns@.len() + 2 < u64::MAX,
            cv == views(columns@),
            views(sets@) == Seq::new(i as nat, |k: int| cv[k] + " = ?"@ + decimal((k + 1) as nat)),
        decreases columns@.len() - i,
    {
        let mut m = to_string(columns[i].as_str());
        push_str(&mut m, " = ?");
        let d = decimal_string((i + 1) as u64);
        push_str(&mut m, d.as_str());
        let ghost before = sets@;
        sets.push(m);
        assert(views(sets@) =~= views(before).push(m@));
        assert(views(sets@) =~= Seq::new((i + 1) as nat, |k: int| cv[k] + " = ?"@ + decimal((k + 1) as nat)));
        i = i + 1;
    }
    let set = join_strings(&sets, ", ");
    let n = columns.len() as u64;
    let mut s = to_string("UPDATE ");
    push_str(&mut s, table);
    push_str(&mut s, " SET ");
    push_str(&mut s, set.as_str());
    push_str(&mut s, ", updated_at = ?");
    let d1 = decimal_string(n + 1);
    push_str(&mut s, d1.as_str());
    push_str(&mut s, " WHERE id = ?");
    let d2 = decimal_string(n + 2);
    push_str(&mut s, d2.as_str());
    s
}

/// The values bound when a record is updated: its data, the update time,
/// its identifier.
pub open spec fn update_values(data: Seq<SqlModel>, now: i64, id: Seq<char>) -> Seq<SqlModel> {
    data + seq![SqlModel::Integer(now), SqlModel::Text(id)]
}

/// SQLite updated the record `id` of `table`: the update statement for the
/// data columns ran with the data, then one time as update time, then the
/// identifier.
pub open spec fn updated(table: Seq<char>, data_columns: Seq<Seq<char>>, id: Seq<char>, data: Seq<SqlModel>) -> bool {
    exists|now: i64| #[trigger] ran_statement(update_statement(table, data_columns), update_values(data, now, id))
}

/// Updates the data columns of record `id` of `table` and sets its update
/// time to now; its creation time is left as it is.  On success SQLite has
/// run the update statement with exactly that data and identifier, and the
/// number of rows it changed is returned.
pub fn update_record(
    conn: &rusqlite::Connection,
    table: &str,
    data_columns: &Vec<String>,
    data: Vec<SqlValue>,
    id: &str,
) -> (r: Result<usize, DbFailure>)
    requires
        data_columns@.len() + 2 < u64::MAX,
    ensures
        r is Ok ==> updated(table@, views(data_columns@), id@, sql_views(data@)),
{
    let ghost dv = sql_views(data@);
    let sql = update_sql(table, data_columns);
    let now = unix_now();
    let mut params = data;
    params.push(SqlValue::Integer(now));
    params.push(text_value(id));
    assert(sql_views(params@) =~= update_values(dv, now, id@));
    let r = sql_execute(conn, sql.as_str(), &params);
    proof {
        if r is Ok {
            assert(ran_statement(update_statement(table@, views(data_columns@)), update_values(dv, now, id@)));
        }
    }
    r
}

/// The statement deleting the record with a given identifier.
pub open spec fn delete_statement(table: Seq<char>) -> Seq<char> {
    "DELETE FROM "@ + table + " WHERE id = ?1"@
}

/// Deletes record `key` of `table`.  On success SQLite has run the delete
/// statement with exactly that identifier.
pub fn delete_record(conn: &rusqlite::Connection, table: &str, key: &str) -> (r: Result<usize, DbFailure>)
    ensures
        r is Ok ==> ran_statement(delete_statement(table@), seq![SqlModel::Text(key@)]),
{
    let mut sql = to_string("DELETE FROM ");
    push_str(&mut sql, table);
    push_str(&mut sql, " WHERE id = ?1");
    let mut params: Vec<SqlValue> = Vec::new();
    params.push(text_value(key));
    assert(sql_views(params@) =~= seq![SqlModel::Text(key@)]);
    sql_execute(conn, sql.as_str(), &params)
}

/// A failed database operation as reported to the user: the failure, with
/// a hint for the constraint violations.
#[derive(Debug)]
pub struct DbError {
    pub message: String,
    pub hint: Option<String>,
}

/// The report of a failure: SQLite's message is recognised as a violated
/// uniqueness, foreign-key or not-null constraint; otherwise the failure is
/// reported as a database error.
pub open spec fn db_error_report(f: DbFailureModel) -> (Seq<char>, Option<Seq<char>>) {
    match f {
        DbFailureModel::Sqlite { code, message: Some(m) } => if contains_seq(m, "UNIQUE constraint"@) {
            ("Unique constraint violation: "@ + m, Some("A record with this value already exists"@))
        } else if contains_seq(m, "FOREIGN KEY constraint"@) {
            ("Foreign key constraint violation: "@ + m, Some("Referenced record does not exist"@))
        } else if contains_seq(m, "NOT NULL constraint"@) {
            ("Not null constraint violation: "@ + m, Some("A required field is missing"@))
        } else {
            ("Database error: "@ + m, None)
        },
        DbFailureModel::Sqlite { code, message: None } => ("Database error: "@ + code, None),
        DbFailureModel::Other { text } => ("Database error: "@ + text, None),
    }
}

/// A failure as plain data.
pub enum DbFailureModel {
    Sqlite { code: Seq<char>, message: Option<Seq<char>> },
    Other { text: Seq<char> },
}

impl View for DbFailure {
    type V = DbFailureModel;

    open spec fn view(&self) -> DbFailureModel {
        match self {
            DbFailure::Sqlite { code, message } => DbFailureModel::Sqlite {
                code: code@,
                message: crate::config::opt_view(*message),
            },
            DbFailure::Other { text } => DbFailureModel::Other { text: text@ },
        }
    }
}

fn prefixed(p: &str, s: &str) -> (r: String)
    ensures
        r@ == p@ + s@,
{
    let mut r = to_string(p);
    push_str(&mut r, s);
    r
}

/// The report of a failure (see `db_error_report`).
pub fn handle_db_error(f: &DbFailure) -> (r: DbError)
    ensures
        (r.message@, crate::config::opt_view(r.hint)) == db_error_report(f@),
{
    match f {
        DbFailure::Sqlite { code, message: Some(m) } => {
            if contains_str(m.as_str(), "UNIQUE constraint") {
                DbError {
                    message: prefixed("Unique constraint violation: ", m.as_str()),
                    hint: Some(to_string("A record with this value already exists")),
                }
            } else if contains_str(m.as_str(), "FOREIGN KEY constraint") {
                DbError {
                    message: prefixed("Foreign key constraint violation: ", m.as_str()),
                    hint: Some(to_string("Referenced record does not exist")),
                }
            } else if contains_str(m.as_str(), "NOT NULL constraint") {
                DbError {
                    message: prefixed("Not null constraint violation: ", m.as_str()),
                    hint: Some(to_string("A required field is missing")),
                }
            } else {
                DbError { message: prefixed("Database error: ", m.as_str()), hint: None }
            }
        },
        DbFailure::Sqlite { code, message: None } => DbError {
            message: prefixed("Database error: ", code.as_str()),
            hint: None,
        },
        DbFailure::Other { text } => DbError { message: prefixed("Database error: ", text.as_str()), hint: None },
    }
}

/// A failed database operation: what failed, with the reported cause.
#[derive(Debug)]
pub struct DbOperationError {
    pub context: String,
    pub cause: DbError,
}

/// The outcome of a database operation: a success is passed on; a failure
/// is reported (see `handle_db_error`) under "Database operation failed".
pub fn execute_with_error_handling<R>(outcome: Result<R, DbFailure>) -> (r: Result<R, DbOperationError>)
    ensures
        match outcome {
            Ok(v) => r matches Ok(w) && w == v,
            Err(f) => r matches Err(e) && e.context@ == "Database operation failed"@ && (
            e.cause.message@, crate::config::opt_view(e.cause.hint)) == db_error_report(f@),
        },
{
    match outcome {
        Ok(v) => Ok(v),
        Err(f) => Err(DbOperationError { context: to_string("Database operation failed"), cause: handle_db_error(&f) }),
    }
}

/// A client for statements of the caller's own.
pub struct DbClient {
    conn: rusqlite::Connection,
}

impl DbClient {
    /// A client over an open connection.
    pub fn new(conn: rusqlite::Connection) -> (r: DbClient)
        ensures
            r.connection_value() == conn,
    {
        DbClient { conn }
    }

    /// The connection the client uses.
    pub closed spec fn connection_value(&self) -> rusqlite::Connection {
        self.conn
    }

    /// The connection the client uses.
    pub fn connection(&self) -> (r: &rusqlite::Connection)
        ensures
            *r == self.connection_value(),
    {
        &self.conn
    }

    /// Runs a statement with the values bound in order; returns the number
    /// of rows changed.  On success SQLite has run exactly this statement
    /// with exactly these values.
    pub fn execute(&self, sql: &str, params: &Vec<SqlValue>) -> (r: Result<usize, DbFailure>)
        ensures
            r is Ok ==> ran_statement(sql@, sql_views(params@)),
    {
        sql_execute(&self.conn, sql, params)
    }
}

/// A client over the given open connection.
pub fn get_client(conn: rusqlite::Connection) -> (r: DbClient)
    ensures
        r.connection_value() == conn,
{
    DbClient::new(conn)
}

} // verus!
