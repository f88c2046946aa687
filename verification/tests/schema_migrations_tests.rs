use halvor::schema_migrations::{
    host_config_columns, host_config_columns_rollback, host_info_id_fix, initial_schema, migration_list,
    smb_servers_table, smb_servers_table_rollback,
};
use rusqlite::Connection;

fn s(v: &[&str]) -> Vec<String> {
    v.iter().map(|x| x.to_string()).collect()
}

#[test]
fn steps_are_listed_in_order() {
    let names: Vec<(u32, String)> = migration_list();
    assert_eq!(
        names,
        vec![
            (1, "initial_schema".to_string()),
            (2, "add_host_config_columns".to_string()),
            (3, "add_smb_servers_table".to_string()),
            (4, "fix_host_info_id_column".to_string()),
        ]
    );
}

#[test]
fn step_statements_name_their_tables() {
    let first = initial_schema();
    assert_eq!(first.len(), 5);
    assert!(first[0].starts_with("CREATE TABLE IF NOT EXISTS settings ("));
    assert!(first[4].starts_with("CREATE TABLE IF NOT EXISTS migrations ("));
    assert_eq!(host_config_columns()[1], "ALTER TABLE host_info ADD COLUMN hostname_field TEXT");
    assert_eq!(host_config_columns_rollback().len(), 5);
    assert!(smb_servers_table()[0].starts_with("CREATE TABLE IF NOT EXISTS smb_servers ("));
    assert_eq!(smb_servers_table_rollback(), vec!["DROP TABLE IF EXISTS smb_servers".to_string()]);
}

#[test]
fn a_table_with_an_id_is_left_alone() {
    assert!(host_info_id_fix(true, true, &s(&["id", "hostname"])).is_empty());
}

#[test]
fn a_missing_table_is_created() {
    let v = host_info_id_fix(false, false, &Vec::new());
    assert_eq!(v.len(), 1);
    assert!(v[0].starts_with("CREATE TABLE host_info (\n                id TEXT PRIMARY KEY,"));
}

#[test]
fn a_table_without_id_is_rebuilt_keeping_its_columns() {
    let v = host_info_id_fix(true, false, &s(&["hostname", "ip", "created_at"]));
    assert_eq!(v.len(), 5);
    assert_eq!(v[0], "CREATE TABLE IF NOT EXISTS host_info_backup AS SELECT hostname, ip, created_at FROM host_info");
    assert_eq!(v[1], "DROP TABLE host_info");
    assert!(v[2].starts_with("CREATE TABLE host_info ("));
    assert!(v[3].ends_with(
        "SELECT lower(hex(randomblob(4)) || '-' || hex(randomblob(2)) || '-4' || substr(hex(randomblob(2)), 2) || '-' || substr('89ab', abs(random()) % 4 + 1, 1) || substr(hex(randomblob(2)), 2) || '-' || hex(randomblob(6))), hostname, NULL, NULL, NULL, NULL, NULL, ip, NULL, NULL, NULL, created_at, strftime('%s', 'now')\n                FROM host_info_backup"
    ));
    assert_eq!(v[4], "DROP TABLE host_info_backup");
}

#[test]
fn rebuilding_on_sqlite_keeps_the_rows() {
    let conn = Connection::open_in_memory().unwrap();
    conn.execute("CREATE TABLE host_info (hostname TEXT PRIMARY KEY, ip TEXT, created_at INTEGER)", []).unwrap();
    conn.execute("INSERT INTO host_info VALUES ('frigg', '10.0.0.5', 7)", []).unwrap();
    for sql in host_info_id_fix(true, false, &s(&["hostname", "ip", "created_at"])) {
        conn.execute(&sql, []).unwrap();
    }
    let (id, ip, created, updated): (String, Option<String>, i64, i64) = conn
        .query_row("SELECT id, ip, created_at, updated_at FROM host_info WHERE hostname = 'frigg'", [], |r| {
            Ok((r.get(0)?, r.get(1)?, r.get(2)?, r.get(3)?))
        })
        .unwrap();
    assert_eq!(id.len(), 36);
    assert_eq!(ip.as_deref(), Some("10.0.0.5"));
    assert_eq!(created, 7);
    assert!(updated > 0);
}

#[test]
fn every_step_runs_again_on_an_updated_database() {
    let conn = Connection::open_in_memory().unwrap();
    for _ in 0..2 {
        for sql in initial_schema() {
            conn.execute(&sql, []).unwrap();
        }
        for sql in host_config_columns() {
            assert!(conn.execute(&sql, []).is_err());
        }
        for sql in smb_servers_table() {
            conn.execute(&sql, []).unwrap();
        }
        assert!(host_info_id_fix(true, true, &Vec::new()).is_empty());
    }
}
