//! The `smb_servers` table: a stored SMB server per record.
use vstd::prelude::*;
use crate::config::opt_view;
use crate::db::{inserted, inserted_some, DbFailure, SqlModel, SqlValue, insert_record, opt_text, opt_text_value, sql_views, text_value};
use crate::text::{to_string, views};

verus! {

/// A stored SMB server, as stored.
#[derive(Debug)]
pub struct SmbServersRow {
    pub id: String,
    pub server_name: Option<String>,
    pub host: String,
    pub shares: String,
    pub username: Option<String>,
    pub password: Option<String>,
    pub options: Option<String>,
    pub created_at: i64,
    pub updated_at: i64,
}

/// The data of a stored SMB server, without its identifier and times.
#[derive(Debug)]
pub struct SmbServersRowData {
    pub server_name: Option<String>,
    pub host: String,
    pub shares: String,
    pub username: Option<String>,
    pub password: Option<String>,
    pub options: Option<String>,
}

/// The table's name.
pub fn table_name() -> (r: &'static str)
    ensures
        r@ == "smb_servers"@,
{
    "smb_servers"
}

/// The data columns, in order.
pub fn data_columns() -> (r: Vec<String>)
    ensures
        views(r@) == seq!["server_name"@, "host"@, "shares"@, "username"@, "password"@, "options"@],
        r@.len() == 6,
{
    let mut v: Vec<String> = Vec::new();
    v.push(to_string("server_name"));
    v.push(to_string("host"));
    v.push(to_string("shares"));
    v.push(to_string("username"));
    v.push(to_string("password"));
    v.push(to_string("options"));
    assert(views(v@) =~= seq!["server_name"@, "host"@, "shares"@, "username"@, "password"@, "options"@]);
    v
}

/// The values bound for the data, in column order; an absent text is `NULL`.
pub open spec fn row_values(data: SmbServersRowData) -> Seq<SqlModel> {
    seq![opt_text(opt_view(data.server_name)), SqlModel::Text(data.host@), SqlModel::Text(data.shares@), opt_text(opt_view(data.username)), opt_text(opt_view(data.password)), opt_text(opt_view(data.options))]
}

/// The values bound for the data (see `row_values`).
pub fn data_values(data: &SmbServersRowData) -> (r: Vec<SqlValue>)
    ensures
        sql_views(r@) == row_values(*data),
{
    let mut v: Vec<SqlValue> = Vec::new();
    v.push(opt_text_value(&data.server_name));
    v.push(text_value(data.host.as_str()));
    v.push(text_value(data.shares.as_str()));
    v.push(opt_text_value(&data.username));
    v.push(opt_text_value(&data.password));
    v.push(opt_text_value(&data.options));
    assert(sql_views(v@) =~= seq![opt_text(opt_view(data.server_name)), SqlModel::Text(data.host@), SqlModel::Text(data.shares@), opt_text(opt_view(data.username)), opt_text(opt_view(data.password)), opt_text(opt_view(data.options))]);
    v
}

/// Inserts a record with a new identifier and the current time; returns
/// the identifier.  On success SQLite has run the insert statement for
/// `smb_servers` with that identifier and the record's values.
pub fn insert_one(conn: &rusqlite::Connection, data: SmbServersRowData) -> (r: Result<String, DbFailure>)
    ensures
        r matches Ok(id) ==> id@.len() == 36 && inserted("smb_servers"@, seq!["server_name"@, "host"@, "shares"@, "username"@, "password"@, "options"@], id@, row_values(data)),
{
    let columns = data_columns();
    let values = data_values(&data);
    insert_record(conn, table_name(), &columns, values)
}

/// The records before position `k` were inserted.
pub open spec fn inserted_before(data_vec: Seq<SmbServersRowData>, k: int) -> bool {
    forall|j: int| 0 <= j < k ==> inserted_some("smb_servers"@, seq!["server_name"@, "host"@, "shares"@, "username"@, "password"@, "options"@], #[trigger] row_values(data_vec[j]))
}

/// Inserts the records in order, stopping at the first failure; returns the
/// new identifiers, one per record, each inserted with its record's values.
/// With no records nothing reaches the database and the result is an empty
/// list.  On a failure the records before the failing one have been
/// inserted; whether any later one was tried is not stated.
pub fn insert_many(conn: &rusqlite::Connection, data_vec: Vec<SmbServersRowData>) -> (r: Result<Vec<String>, DbFailure>)
    ensures
        r matches Ok(ids) ==> ids@.len() == data_vec@.len() && forall|i: int| 0 <= i < ids@.len() ==> (#[trigger] ids@[i])@.len() == 36
            && inserted("smb_servers"@, seq!["server_name"@, "host"@, "shares"@, "username"@, "password"@, "options"@], ids@[i]@, row_values(data_vec@[i])),
        data_vec@.len() == 0 ==> (r matches Ok(ids) && ids@.len() == 0),
        r is Err ==> exists|k: int| 0 <= k < data_vec@.len() && #[trigger] inserted_before(data_vec@, k),
{
    let mut ids: Vec<String> = Vec::new();
    let mut i: usize = 0;
    while i < data_vec.len()
        invariant
            i <= data_vec@.len(),
            ids@.len() == i,
            forall|k: int| 0 <= k < ids@.len() ==> (#[trigger] ids@[k])@.len() == 36
                && inserted("smb_servers"@, seq!["server_name"@, "host"@, "shares"@, "username"@, "password"@, "options"@], ids@[k]@, row_values(data_vec@[k])),
        decreases data_vec@.len() - i,
    {
        let columns = data_columns();
        let values = data_values(&data_vec[i]);
        match insert_record(conn, table_name(), &columns, values) {
            Ok(id) => ids.push(id),
            Err(e) => {
                assert forall|j: int| 0 <= j < i implies inserted_some(
                    "smb_servers"@,
                    seq!["server_name"@, "host"@, "shares"@, "username"@, "password"@, "options"@],
                    #[trigger] row_values(data_vec@[j]),
                ) by {
                    assert(ids@[j]@.len() == 36);
                }
                assert(inserted_before(data_vec@, i as int));
                return Err(e);
            },
        }
        i = i + 1;
    }
    Ok(ids)
}

} // verus!
