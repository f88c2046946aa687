//! The `update_history` table: an installed update per record.
use vstd::prelude::*;
use crate::config::opt_view;
use crate::db::{inserted, inserted_some, DbFailure, SqlModel, SqlValue, insert_record, opt_text, opt_text_value, sql_views, text_value};
use crate::text::{to_string, views};

verus! {

/// An installed update, as stored.
#[derive(Debug)]
pub struct UpdateHistoryRow {
    pub id: String,
    pub version: String,
    pub channel: String,
    pub installed_at: i64,
    pub source: Option<String>,
    pub created_at: i64,
    pub updated_at: i64,
}

/// The data of an installed update, without its identifier and times.
#[derive(Debug)]
pub struct UpdateHistoryRowData {
    pub version: String,
    pub channel: String,
    pub installed_at: i64,
    pub source: Option<String>,
}

/// The table's name.
pub fn table_name() -> (r: &'static str)
    ensures
        r@ == "update_history"@,
{
    "update_history"
}

/// The data columns, in order.
pub fn data_columns() -> (r: Vec<String>)
    ensures
        views(r@) == seq!["version"@, "channel"@, "installed_at"@, "source"@],
        r@.len() == 4,
{
    let mut v: Vec<String> = Vec::new();
    v.push(to_string("version"));
    v.push(to_string("channel"));
    v.push(to_string("installed_at"));
    v.push(to_string("source"));
    assert(views(v@) =~= seq!["version"@, "channel"@, "installed_at"@, "source"@]);
    v
}

/// The values bound for the data, in column order; an absent text is `NULL`.
pub open spec fn row_values(data: UpdateHistoryRowData) -> Seq<SqlModel> {
    seq![SqlModel::Text(data.version@), SqlModel::Text(data.channel@), SqlModel::Integer(data.installed_at), opt_text(opt_view(data.source))]
}

/// The values bound for the data (see `row_values`).
pub fn data_values(data: &UpdateHistoryRowData) -> (r: Vec<SqlValue>)
    ensures
        sql_views(r@) == row_values(*data),
{
    let mut v: Vec<SqlValue> = Vec::new();
    v.push(text_value(data.version.as_str()));
    v.push(text_value(data.channel.as_str()));
    v.push(SqlValue::Integer(data.installed_at));
    v.push(opt_text_value(&data.source));
    assert(sql_views(v@) =~= seq![SqlModel::Text(data.version@), SqlModel::Text(data.channel@), SqlModel::Integer(data.installed_at), opt_text(opt_view(data.source))]);
    v
}

/// Inserts a record with a new identifier and the current time; returns
/// the identifier.  On success SQLite has run the insert statement for
/// `update_history` with that identifier and the record's values.
pub fn insert_one(conn: &rusqlite::Connection, data: UpdateHistoryRowData) -> (r: Result<String, DbFailure>)
    ensures
        r matches Ok(id) ==> id@.len() == 36 && inserted("update_history"@, seq!["version"@, "channel"@, "installed_at"@, "source"@], id@, row_values(data)),
{
    let columns = data_columns();
    let values = data_values(&data);
    insert_record(conn, table_name(), &columns, values)
}

/// The records before position `k` were inserted.
pub open spec fn inserted_before(data_vec: Seq<UpdateHistoryRowData>, k: int) -> bool {
    forall|j: int| 0 <= j < k ==> inserted_some("update_history"@, seq!["version"@, "channel"@, "installed_at"@, "source"@], #[trigger] row_values(data_vec[j]))
}

/// Inserts the records in order, stopping at the first failure; returns the
/// new identifiers, one per record, each inserted with its record's values.
/// With no records nothing reaches the database and the result is an empty
/// list.  On a failure the records before the failing one have been
/// inserted; whether any later one was tried is not stated.
pub fn insert_many(conn: &rusqlite::Connection, data_vec: Vec<UpdateHistoryRowData>) -> (r: Result<Vec<String>, DbFailure>)
    ensures
        r matches Ok(ids) ==> ids@.len() == data_vec@.len() && forall|i: int| 0 <= i < ids@.len() ==> (#[trigger] ids@[i])@.len() == 36
            && inserted("update_history"@, seq!["version"@, "channel"@, "installed_at"@, "source"@], ids@[i]@, row_values(data_vec@[i])),
        data_vec@.len() == 0 ==> (r matches Ok(ids) && ids@.len() == 0),
        r is Err ==> exists|k: int| 0 <= k < data_vec@.len() && #[trigger] inserted_before(data_vec@, k),
{
    let mut ids: Vec<String> = Vec::new();
    let mut i: usize = 0;
    while i < data_vec.len()
        invariant
            i <= data_vec@.len(),
            ids@.len() == i,
            forall|k: int| 0 <= k < ids@.len() ==> (#[trigger] ids@[k])@.len() == 36
                && inserted("update_history"@, seq!["version"@, "channel"@, "installed_at"@, "source"@], ids@[k]@, row_values(data_vec@[k])),
        decreases data_vec@.len() - i,
    {
        let columns = data_columns();
        let values = data_values(&data_vec[i]);
        match insert_record(conn, table_name(), &columns, values) {
            Ok(id) => ids.push(id),
            Err(e) => {
                assert forall|j: int| 0 <= j < i implies inserted_some(
                    "update_history"@,
                    seq!["version"@, "channel"@, "installed_at"@, "source"@],
                    #[trigger] row_values(data_vec@[j]),
                ) by {
                    assert(ids@[j]@.len() == 36);
                }
                assert(inserted_before(data_vec@, i as int));
                return Err(e);
            },
        }
        i = i + 1;
    }
    Ok(ids)
}

} // verus!
