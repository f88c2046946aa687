use halvor::crud::{generate_crud_operations, ColumnInfo, UniqueConstraint};

fn column(name: &str, sql_type: &str, not_null: bool) -> ColumnInfo {
    ColumnInfo {
        name: name.to_string(),
        sql_type: sql_type.to_string(),
        not_null,
        is_primary_key: false,
        is_unique: false,
    }
}

fn unique(columns: &[&str]) -> UniqueConstraint {
    UniqueConstraint { columns: columns.iter().map(|c| c.to_string()).collect() }
}

#[test]
fn settings_operations_with_a_single_column_key() {
    let fields = vec![column("key", "TEXT", false), column("value", "TEXT", true)];
    let uniques = vec![unique(&["key"]), unique(&["key", "value"])];
    let text = generate_crud_operations("SettingsRow", "settings", &fields, &uniques);
    assert_eq!(text, "\n/// Data structure for SettingsRow operations (excludes id, created_at, updated_at)\n#[derive(Debug, Clone)]\npub struct SettingsRowData {\n    pub key: Option<String>,\n    pub value: String,\n\n}\n\n/// Insert a new SettingsRow record\n/// Only data fields are required - id, created_at, and updated_at are set automatically\npub fn insert_one(data: SettingsRowData) -> Result<String> {\n    let conn = db::get_connection()?;\n    let row = SettingsRow {\n        id: String::new(), // Set automatically\n        key: data.key.clone(),\n        value: data.value.clone(),\n\n        created_at: 0, // Set automatically\n        updated_at: 0, // Set automatically\n    };\n    DbTable::<SettingsRow>::insert(&conn, &row)\n}\n\n/// Insert multiple SettingsRow records\npub fn insert_many(data_vec: Vec<SettingsRowData>) -> Result<Vec<String>> {\n    let conn = db::get_connection()?;\n    let mut ids = Vec::new();\n    for data in data_vec {\n        let row = SettingsRow {\n            id: String::new(), // Set automatically\n        key: data.key.clone(),\n        value: data.value.clone(),\n\n            created_at: 0, // Set automatically\n            updated_at: 0, // Set automatically\n        };\n        ids.push(DbTable::<SettingsRow>::insert(&conn, &row)?);\n    }\n    Ok(ids)\n}\n\n/// Upsert a SettingsRow record (insert if new, update if exists)\n/// Only data fields are required - id, created_at, and updated_at are handled automatically\npub fn upsert_one(where_clause: &str, where_params: &[&dyn rusqlite::types::ToSql], data: SettingsRowData) -> Result<String> {\n    let conn = db::get_connection()?;\n    DbTable::<SettingsRow>::upsert_by(\n        &conn,\n        where_clause,\n        where_params,\n        |existing| {\n            let mut row = existing.cloned().unwrap_or_else(|| {\n                let mut r = SettingsRow {\n                    id: String::new(), // Set automatically\n                key: None,\n                value: String::new(),\n\n                    created_at: 0, // Set automatically\n                    updated_at: 0, // Set automatically\n                };\n                // Set initial values from data\n                r.key = data.key.clone();\n                r.value = data.value.clone();\n\n                r\n            });\n            // Update only the data fields\n            row.key = data.key;\n            row.value = data.value;\n\n            row\n        },\n    )\n}\n\n/// Select one SettingsRow record\npub fn select_one(where_clause: &str, params: &[&dyn rusqlite::types::ToSql]) -> Result<Option<SettingsRow>> {\n    let conn = db::get_connection()?;\n    DbTable::<SettingsRow>::select_one(&conn, where_clause, params)\n}\n\n/// Select many SettingsRow records\npub fn select_many(where_clause: &str, params: &[&dyn rusqlite::types::ToSql]) -> Result<Vec<SettingsRow>> {\n    let conn = db::get_connection()?;\n    DbTable::<SettingsRow>::select_many(&conn, where_clause, params)\n}\n\n/// Delete SettingsRow record by primary key (id)\npub fn delete_by_id(id: &str) -> Result<usize> {\n    let conn = db::get_connection()?;\n    DbTable::<SettingsRow>::delete_many(&conn, \"id = ?1\", &[&id as &dyn rusqlite::types::ToSql])\n}\n\n/// Delete SettingsRow record by unique key: key\npub fn delete_by_key(key_value: &str) -> Result<usize> {\n    let conn = db::get_connection()?;\n    DbTable::<SettingsRow>::delete_many(&conn, \"key = ?1\", &[&key_value as &dyn rusqlite::types::ToSql])\n}\n\n");
}

#[test]
fn defaults_follow_the_field_types() {
    let fields = vec![
        column("hostname", "TEXT", true),
        column("tailscale_installed", "INTEGER", false),
        column("ratio", "REAL", true),
        column("n", "INTEGER", true),
    ];
    let text = generate_crud_operations("HostInfoRow", "host_info", &fields, &Vec::new());
    assert_eq!(text, "\n/// Data structure for HostInfoRow operations (excludes id, created_at, updated_at)\n#[derive(Debug, Clone)]\npub struct HostInfoRowData {\n    pub hostname: String,\n    pub tailscale_installed: Option<i32>,\n    pub ratio: f64,\n    pub n: i64,\n\n}\n\n/// Insert a new HostInfoRow record\n/// Only data fields are required - id, created_at, and updated_at are set automatically\npub fn insert_one(data: HostInfoRowData) -> Result<String> {\n    let conn = db::get_connection()?;\n    let row = HostInfoRow {\n        id: String::new(), // Set automatically\n        hostname: data.hostname.clone(),\n        tailscale_installed: data.tailscale_installed.clone(),\n        ratio: data.ratio.clone(),\n        n: data.n.clone(),\n\n        created_at: 0, // Set automatically\n        updated_at: 0, // Set automatically\n    };\n    DbTable::<HostInfoRow>::insert(&conn, &row)\n}\n\n/// Insert multiple HostInfoRow records\npub fn insert_many(data_vec: Vec<HostInfoRowData>) -> Result<Vec<String>> {\n    let conn = db::get_connection()?;\n    let mut ids = Vec::new();\n    for data in data_vec {\n        let row = HostInfoRow {\n            id: String::new(), // Set automatically\n        hostname: data.hostname.clone(),\n        tailscale_installed: data.tailscale_installed.clone(),\n        ratio: data.ratio.clone(),\n        n: data.n.clone(),\n\n            created_at: 0, // Set automatically\n            updated_at: 0, // Set automatically\n        };\n        ids.push(DbTable::<HostInfoRow>::insert(&conn, &row)?);\n    }\n    Ok(ids)\n}\n\n/// Upsert a HostInfoRow record (insert if new, update if exists)\n/// Only data fields are required - id, created_at, and updated_at are handled automatically\npub fn upsert_one(where_clause: &str, where_params: &[&dyn rusqlite::types::ToSql], data: HostInfoRowData) -> Result<String> {\n    let conn = db::get_connection()?;\n    DbTable::<HostInfoRow>::upsert_by(\n        &conn,\n        where_clause,\n        where_params,\n        |existing| {\n            let mut row = existing.cloned().unwrap_or_else(|| {\n                let mut r = HostInfoRow {\n                    id: String::new(), // Set automatically\n                hostname: String::new(),\n                tailscale_installed: None,\n                ratio: Default::default(),\n                n: 0,\n\n                    created_at: 0, // Set automatically\n                    updated_at: 0, // Set automatically\n                };\n                // Set initial values from data\n                r.hostname = data.hostname.clone();\n                r.tailscale_installed = data.tailscale_installed.clone();\n                r.ratio = data.ratio.clone();\n                r.n = data.n.clone();\n\n                r\n            });\n            // Update only the data fields\n            row.hostname = data.hostname;\n            row.tailscale_installed = data.tailscale_installed;\n            row.ratio = data.ratio;\n            row.n = data.n;\n\n            row\n        },\n    )\n}\n\n/// Select one HostInfoRow record\npub fn select_one(where_clause: &str, params: &[&dyn rusqlite::types::ToSql]) -> Result<Option<HostInfoRow>> {\n    let conn = db::get_connection()?;\n    DbTable::<HostInfoRow>::select_one(&conn, where_clause, params)\n}\n\n/// Select many HostInfoRow records\npub fn select_many(where_clause: &str, params: &[&dyn rusqlite::types::ToSql]) -> Result<Vec<HostInfoRow>> {\n    let conn = db::get_connection()?;\n    DbTable::<HostInfoRow>::select_many(&conn, where_clause, params)\n}\n\n/// Delete HostInfoRow record by primary key (id)\npub fn delete_by_id(id: &str) -> Result<usize> {\n    let conn = db::get_connection()?;\n    DbTable::<HostInfoRow>::delete_many(&conn, \"id = ?1\", &[&id as &dyn rusqlite::types::ToSql])\n}\n");
    assert!(text.contains("                ratio: Default::default(),\n"));
    assert!(text.contains("                tailscale_installed: None,\n"));
    assert!(!text.contains("pub fn delete_by_hostname"));
}

#[test]
fn only_single_column_keys_get_a_delete_function() {
    let fields = vec![column("server_name", "TEXT", true)];
    let uniques = vec![unique(&["server_name"]), unique(&["a", "b"]), unique(&[])];
    let text = generate_crud_operations("SmbServersRow", "smb_servers", &fields, &uniques);
    assert_eq!(text.matches("pub fn delete_by_").count(), 2);
    assert!(text.contains("pub fn delete_by_server_name(server_name_value: &str) -> Result<usize> {"));
    assert!(text.starts_with("\n/// Data structure for SmbServersRow operations"));
}

#[test]
fn several_column_indexes_add_no_operation() {
    let fields = vec![column("a", "TEXT", true), column("b", "TEXT", false)];
    let plain = generate_crud_operations("TRow", "t", &fields, &Vec::new());
    let with_pair = generate_crud_operations("TRow", "t", &fields, &vec![unique(&["a", "b"])]);
    assert_eq!(plain, with_pair);
    let with_single = generate_crud_operations("TRow", "t", &fields, &vec![unique(&["a", "b"]), unique(&["b"])]);
    assert!(with_single.starts_with(&plain));
    assert!(with_single[plain.len()..].starts_with("\n/// Delete TRow record by unique key: b\npub fn delete_by_b("));
    assert!(plain.starts_with("\n/// Data structure for TRow operations"));
}

#[test]
fn every_operation_is_defined() {
    let fields = vec![column("a", "TEXT", true)];
    let text = generate_crud_operations("TRow", "t", &fields, &vec![unique(&["a"]), unique(&["a", "b"])]);
    for f in ["insert_one(", "insert_many(", "upsert_one(", "select_one(", "select_many(", "delete_by_id(", "delete_by_a("] {
        assert!(text.contains(&format!("pub fn {}", f)));
    }
    assert!(!text.contains("pub fn delete_by_b("));
}
