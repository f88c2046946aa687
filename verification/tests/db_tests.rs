use halvor::db::{
    delete_record, update_record, update_sql, execute_with_error_handling, get_client, handle_db_error, insert_params, insert_sql, DbFailure, SqlValue,
};
use halvor::generated::{settings, smb_servers};
use halvor::schema::create_table_sql;

fn s(x: &str) -> String {
    x.to_string()
}

#[test]
fn insert_statement_and_values() {
    let sql = insert_sql("settings", &vec![s("id"), s("key"), s("value"), s("created_at"), s("updated_at")]);
    assert_eq!(sql, "INSERT INTO settings (id, key, value, created_at, updated_at) VALUES (?1, ?2, ?3, ?4, ?5)");
    let p = insert_params("abc", vec![SqlValue::Null, SqlValue::Text(s("v"))], 7);
    assert_eq!(p.len(), 5);
    assert!(matches!(&p[0], SqlValue::Text(t) if t == "abc"));
    assert!(matches!(&p[1], SqlValue::Null));
    assert!(matches!(&p[4], SqlValue::Integer(7)));
}

#[test]
fn records_are_inserted_with_new_ids() {
    let conn = rusqlite::Connection::open_in_memory().unwrap();
    conn.execute(&create_table_sql("settings", &vec![s("key TEXT UNIQUE"), s("value TEXT NOT NULL")]), []).unwrap();
    let id = settings::insert_one(&conn, settings::SettingsRowData { key: Some(s("A")), value: s("1") }).unwrap();
    assert_eq!(id.len(), 36);
    let ids = settings::insert_many(
        &conn,
        vec![
            settings::SettingsRowData { key: Some(s("B")), value: s("2") },
            settings::SettingsRowData { key: None, value: s("3") },
        ],
    )
    .unwrap();
    assert_eq!(ids.len(), 2);
    let count: i64 = conn.query_row("SELECT COUNT(*) FROM settings", [], |r| r.get(0)).unwrap();
    assert_eq!(count, 3);
    let dup = settings::insert_one(&conn, settings::SettingsRowData { key: Some(s("A")), value: s("x") });
    let err = execute_with_error_handling(dup).unwrap_err();
    assert_eq!(err.context, "Database operation failed");
    assert!(err.cause.message.starts_with("Unique constraint violation: "));
    assert_eq!(err.cause.hint, Some(s("A record with this value already exists")));
}

#[test]
fn missing_table_fails() {
    let conn = rusqlite::Connection::open_in_memory().unwrap();
    let r = smb_servers::insert_one(
        &conn,
        smb_servers::SmbServersRowData {
            server_name: Some(s("nas")),
            host: s("h"),
            shares: s("a,b"),
            username: None,
            password: None,
            options: None,
        },
    );
    assert!(r.is_err());
    let client = get_client(conn);
    assert!(client.execute("CREATE TABLE t (x TEXT NOT NULL)", &vec![]).is_ok());
    let r = client.execute("INSERT INTO t (x) VALUES (?1)", &vec![SqlValue::Null]);
    let e = execute_with_error_handling(r).unwrap_err();
    assert_eq!(e.context, "Database operation failed");
    assert!(e.cause.message.starts_with("Not null constraint violation: "));
}

#[test]
fn failure_reports() {
    let f = DbFailure::Sqlite { code: s("code 1"), message: None };
    assert_eq!(handle_db_error(&f).message, "Database error: code 1");
    let f = DbFailure::Sqlite { code: s("c"), message: Some(s("FOREIGN KEY constraint failed")) };
    let r = handle_db_error(&f);
    assert_eq!(r.message, "Foreign key constraint violation: FOREIGN KEY constraint failed");
    assert_eq!(r.hint, Some(s("Referenced record does not exist")));
    let f = DbFailure::Other { text: s("boom") };
    assert_eq!(handle_db_error(&f).message, "Database error: boom");
    assert_eq!(execute_with_error_handling::<u8>(Ok(3)).unwrap(), 3);
}

#[test]
fn records_are_updated_and_deleted_by_id() {
    assert_eq!(
        update_sql("settings", &vec![s("key"), s("value")]),
        "UPDATE settings SET key = ?1, value = ?2, updated_at = ?3 WHERE id = ?4"
    );
    let conn = rusqlite::Connection::open_in_memory().unwrap();
    conn.execute(&create_table_sql("settings", &vec![s("key TEXT UNIQUE"), s("value TEXT NOT NULL")]), []).unwrap();
    let id = settings::insert_one(&conn, settings::SettingsRowData { key: Some(s("A")), value: s("1") }).unwrap();
    let created: i64 = conn.query_row("SELECT created_at FROM settings", [], |r| r.get(0)).unwrap();
    let n = update_record(&conn, "settings", &vec![s("value")], vec![SqlValue::Text(s("2"))], &id).unwrap();
    assert_eq!(n, 1);
    let (value, created_after): (String, i64) =
        conn.query_row("SELECT value, created_at FROM settings WHERE id = ?1", [&id], |r| Ok((r.get(0)?, r.get(1)?))).unwrap();
    assert_eq!(value, "2");
    assert_eq!(created_after, created);
    assert_eq!(update_record(&conn, "settings", &vec![s("value")], vec![SqlValue::Text(s("3"))], "nope").unwrap(), 0);
    assert_eq!(delete_record(&conn, "settings", &id).unwrap(), 1);
    let count: i64 = conn.query_row("SELECT COUNT(*) FROM settings", [], |r| r.get(0)).unwrap();
    assert_eq!(count, 0);
}
