use halvor::schema::{create_table_sql, diff_schemas, generate_migration_from_schema_diff, ColumnDef, TableSchema};

fn col(name: &str, ty: &str, not_null: bool, default: Option<&str>, pk: bool) -> ColumnDef {
    ColumnDef {
        name: name.to_string(),
        sql_type: ty.to_string(),
        not_null,
        default_value: default.map(|d| d.to_string()),
        primary_key: pk,
    }
}

fn table(name: &str, cols: Vec<ColumnDef>) -> TableSchema {
    TableSchema { name: name.to_string(), columns: cols }
}

#[test]
fn missing_table_is_created_and_dropped() {
    let t = table("hosts", vec![col("id", "TEXT", false, None, true), col("ip", "TEXT", true, Some("''"), false)]);
    let (up, down) = diff_schemas(&t, None);
    assert_eq!(up, vec!["CREATE TABLE IF NOT EXISTS hosts (id TEXT PRIMARY KEY, ip TEXT NOT NULL DEFAULT '')".to_string()]);
    assert_eq!(down, vec!["DROP TABLE IF EXISTS hosts".to_string()]);
}

#[test]
fn new_and_extra_columns_are_reported() {
    let expected = table("hosts", vec![col("id", "TEXT", false, None, true), col("port", "INTEGER", true, Some("22"), false)]);
    let actual = table("hosts", vec![col("id", "TEXT", false, None, true), col("old", "TEXT", false, None, false)]);
    let (up, down) = diff_schemas(&expected, Some(&actual));
    assert_eq!(
        up,
        vec![
            "ALTER TABLE hosts ADD COLUMN port INTEGER NOT NULL DEFAULT 22".to_string(),
            "-- Warning: Column old exists in database but not in struct. Manual removal required.".to_string(),
        ]
    );
    assert_eq!(
        down,
        vec!["-- Note: SQLite doesn't support DROP COLUMN. Manual intervention required for port".to_string()]
    );
}

#[test]
fn equal_schemas_need_no_migration() {
    let a = vec![table("t", vec![col("id", "TEXT", false, None, true)])];
    let b = vec![table("t", vec![col("id", "TEXT", false, None, true)])];
    assert!(generate_migration_from_schema_diff(&a, &b).is_none());
    let (up, down) = diff_schemas(&a[0], Some(&b[0]));
    assert!(up.is_empty() && down.is_empty());
}

#[test]
fn migration_covers_every_target_table() {
    let current = vec![table("a", vec![col("id", "TEXT", false, None, true)])];
    let target = vec![
        table("a", vec![col("id", "TEXT", false, None, true), col("x", "TEXT", false, None, false)]),
        table("b", vec![col("id", "TEXT", false, None, true)]),
    ];
    let (up, down) = generate_migration_from_schema_diff(&current, &target).unwrap();
    assert_eq!(up.len(), 2);
    assert_eq!(up[0], "ALTER TABLE a ADD COLUMN x TEXT");
    assert_eq!(up[1], "CREATE TABLE IF NOT EXISTS b (id TEXT PRIMARY KEY)");
    assert_eq!(down.len(), 2);
    assert_eq!(down[1], "DROP TABLE IF EXISTS b");
}

#[test]
fn standard_columns_come_first() {
    let sql = create_table_sql("settings", &vec!["key TEXT".to_string(), "value TEXT NOT NULL".to_string()]);
    assert_eq!(
        sql,
        "CREATE TABLE IF NOT EXISTS settings (id TEXT PRIMARY KEY, created_at INTEGER NOT NULL, updated_at INTEGER NOT NULL, key TEXT, value TEXT NOT NULL)"
    );
}

#[test]
fn type_changes_alone_need_no_migration() {
    let current = vec![table("t", vec![col("id", "TEXT", false, None, true), col("n", "TEXT", false, None, false)])];
    let target = vec![table("t", vec![col("id", "TEXT", false, None, true), col("n", "INTEGER", true, Some("0"), false)])];
    assert!(generate_migration_from_schema_diff(&current, &target).is_none());
}

#[test]
fn one_statement_per_missing_name_and_one_warning_per_extra_name() {
    let expected = table("t", vec![col("a", "TEXT", false, None, false), col("b", "TEXT", false, None, false), col("a", "TEXT", false, None, false)]);
    let actual = table("t", vec![col("c", "TEXT", false, None, false), col("d", "TEXT", false, None, false)]);
    let (up, down) = diff_schemas(&expected, Some(&actual));
    assert_eq!(down.len(), 2);
    assert_eq!(up.len(), 4);
    assert_eq!(up[2], "-- Warning: Column c exists in database but not in struct. Manual removal required.");
}
