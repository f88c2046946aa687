//! The steps that bring the database schema up to date, in order, and the
//! statements each of them runs.  Every step can run again on a database it
//! has already brought up to date.
use vstd::prelude::*;
use crate::text::{join, join_strings, str_eq, to_string, vec_contains_str, views};

verus! {

/// The schema steps: version and name, in the order they run.
pub open spec fn schema_steps() -> Seq<(u32, Seq<char>)> {
    seq![
        (1u32, "initial_schema"@),
        (2u32, "add_host_config_columns"@),
        (3u32, "add_smb_servers_table"@),
        (4u32, "fix_host_info_id_column"@),
    ]
}

/// The schema steps (see `schema_steps`).
pub fn migration_list() -> (r: Vec<(u32, String)>)
    ensures
        r@.map_values(|s: (u32, String)| (s.0, s.1@)) == schema_steps(),
{
    let mut v: Vec<(u32, String)> = Vec::new();
    v.push((1, to_string("initial_schema")));
    v.push((2, to_string("add_host_config_columns")));
    v.push((3, to_string("add_smb_servers_table")));
    v.push((4, to_string("fix_host_info_id_column")));
    assert(v@.map_values(|s: (u32, String)| (s.0, s.1@)) =~= schema_steps());
    v
}

/// Step 1: the tables `settings`, `update_history`, `host_info`,
/// `encrypted_env_data` and `migrations`, each created when missing.
pub open spec fn initial_schema_statements() -> Seq<Seq<char>> {
    seq!["CREATE TABLE IF NOT EXISTS settings (\n            id TEXT PRIMARY KEY,\n            key TEXT NOT NULL UNIQUE,\n            value TEXT NOT NULL,\n            created_at INTEGER NOT NULL,\n            updated_at INTEGER NOT NULL\n        )"@, "CREATE TABLE IF NOT EXISTS update_history (\n            id TEXT PRIMARY KEY,\n            version TEXT NOT NULL,\n            channel TEXT NOT NULL,\n            installed_at INTEGER NOT NULL,\n            source TEXT,\n            created_at INTEGER NOT NULL,\n            updated_at INTEGER NOT NULL\n        )"@, "CREATE TABLE IF NOT EXISTS host_info (\n            id TEXT PRIMARY KEY,\n            hostname TEXT NOT NULL UNIQUE,\n            last_provisioned_at INTEGER,\n            docker_version TEXT,\n            tailscale_installed INTEGER,\n            portainer_installed INTEGER,\n            metadata TEXT,\n            ip TEXT,\n            hostname_field TEXT,\n            tailscale TEXT,\n            backup_path TEXT,\n            created_at INTEGER NOT NULL,\n            updated_at INTEGER NOT NULL\n        )"@, "CREATE TABLE IF NOT EXISTS encrypted_env_data (\n            id INTEGER PRIMARY KEY AUTOINCREMENT,\n            hostname TEXT,\n            key TEXT NOT NULL,\n            encrypted_value TEXT NOT NULL,\n            created_at INTEGER NOT NULL,\n            updated_at INTEGER NOT NULL,\n            UNIQUE(hostname, key)\n        )"@, "CREATE TABLE IF NOT EXISTS migrations (\n            version INTEGER PRIMARY KEY,\n            name TEXT NOT NULL,\n            applied_at INTEGER NOT NULL\n        )"@]
}

/// The statements of step 1 (see `initial_schema_statements`).
pub fn initial_schema() -> (r: Vec<String>)
    ensures
        views(r@) == initial_schema_statements(),
{
    let mut v: Vec<String> = Vec::new();
    v.push(to_string("CREATE TABLE IF NOT EXISTS settings (\n            id TEXT PRIMARY KEY,\n            key TEXT NOT NULL UNIQUE,\n            value TEXT NOT NULL,\n            created_at INTEGER NOT NULL,\n            updated_at INTEGER NOT NULL\n        )"));
    v.push(to_string("CREATE TABLE IF NOT EXISTS update_history (\n            id TEXT PRIMARY KEY,\n            version TEXT NOT NULL,\n            channel TEXT NOT NULL,\n            installed_at INTEGER NOT NULL,\n            source TEXT,\n            created_at INTEGER NOT NULL,\n            updated_at INTEGER NOT NULL\n        )"));
    v.push(to_string("CREATE TABLE IF NOT EXISTS host_info (\n            id TEXT PRIMARY KEY,\n            hostname TEXT NOT NULL UNIQUE,\n            last_provisioned_at INTEGER,\n            docker_version TEXT,\n            tailscale_installed INTEGER,\n            portainer_installed INTEGER,\n            metadata TEXT,\n            ip TEXT,\n            hostname_field TEXT,\n            tailscale TEXT,\n            backup_path TEXT,\n            created_at INTEGER NOT NULL,\n            updated_at INTEGER NOT NULL\n        )"));
    v.push(to_string("CREATE TABLE IF NOT EXISTS encrypted_env_data (\n            id INTEGER PRIMARY KEY AUTOINCREMENT,\n            hostname TEXT,\n            key TEXT NOT NULL,\n            encrypted_value TEXT NOT NULL,\n            created_at INTEGER NOT NULL,\n            updated_at INTEGER NOT NULL,\n            UNIQUE(hostname, key)\n        )"));
    v.push(to_string("CREATE TABLE IF NOT EXISTS migrations (\n            version INTEGER PRIMARY KEY,\n            name TEXT NOT NULL,\n            applied_at INTEGER NOT NULL\n        )"));
    assert(views(v@) =~= initial_schema_statements());
    v
}

/// Step 2: the host configuration columns of `host_info`; a statement
/// fails when its column exists, which leaves the step done.
pub open spec fn host_config_column_statements() -> Seq<Seq<char>> {
    seq!["ALTER TABLE host_info ADD COLUMN ip TEXT"@, "ALTER TABLE host_info ADD COLUMN hostname_field TEXT"@, "ALTER TABLE host_info ADD COLUMN tailscale TEXT"@, "ALTER TABLE host_info ADD COLUMN backup_path TEXT"@]
}

/// The statements of step 2 (see `host_config_column_statements`).
pub fn host_config_columns() -> (r: Vec<String>)
    ensures
        views(r@) == host_config_column_statements(),
{
    let mut v: Vec<String> = Vec::new();
    v.push(to_string("ALTER TABLE host_info ADD COLUMN ip TEXT"));
    v.push(to_string("ALTER TABLE host_info ADD COLUMN hostname_field TEXT"));
    v.push(to_string("ALTER TABLE host_info ADD COLUMN tailscale TEXT"));
    v.push(to_string("ALTER TABLE host_info ADD COLUMN backup_path TEXT"));
    assert(views(v@) =~= host_config_column_statements());
    v
}

/// Undoing step 2: `host_info` rebuilt without the configuration columns.
pub open spec fn host_config_columns_rollback_statements() -> Seq<Seq<char>> {
    seq!["CREATE TABLE IF NOT EXISTS host_info_backup AS SELECT hostname, last_provisioned_at, docker_version, tailscale_installed, portainer_installed, metadata FROM host_info"@, "DROP TABLE host_info"@, "CREATE TABLE host_info (\n            hostname TEXT PRIMARY KEY,\n            last_provisioned_at INTEGER,\n            docker_version TEXT,\n            tailscale_installed INTEGER,\n            portainer_installed INTEGER,\n            metadata TEXT\n        )"@, "INSERT INTO host_info SELECT hostname, last_provisioned_at, docker_version, tailscale_installed, portainer_installed, metadata FROM host_info_backup"@, "DROP TABLE host_info_backup"@]
}

/// The statements that undo step 2 (see `host_config_columns_rollback_statements`).
pub fn host_config_columns_rollback() -> (r: Vec<String>)
    ensures
        views(r@) == host_config_columns_rollback_statements(),
{
    let mut v: Vec<String> = Vec::new();
    v.push(to_string("CREATE TABLE IF NOT EXISTS host_info_backup AS SELECT hostname, last_provisioned_at, docker_version, tailscale_installed, portainer_installed, metadata FROM host_info"));
    v.push(to_string("DROP TABLE host_info"));
    v.push(to_string("CREATE TABLE host_info (\n            hostname TEXT PRIMARY KEY,\n            last_provisioned_at INTEGER,\n            docker_version TEXT,\n            tailscale_installed INTEGER,\n            portainer_installed INTEGER,\n            metadata TEXT\n        )"));
    v.push(to_string("INSERT INTO host_info SELECT hostname, last_provisioned_at, docker_version, tailscale_installed, portainer_installed, metadata FROM host_info_backup"));
    v.push(to_string("DROP TABLE host_info_backup"));
    assert(views(v@) =~= host_config_columns_rollback_statements());
    v
}

/// Step 3: the `smb_servers` table, created when missing.
pub open spec fn smb_servers_table_statements() -> Seq<Seq<char>> {
    seq!["CREATE TABLE IF NOT EXISTS smb_servers (\n            id TEXT PRIMARY KEY,\n            server_name TEXT NOT NULL UNIQUE,\n            host TEXT NOT NULL,\n            shares TEXT NOT NULL,\n            username TEXT,\n            password TEXT,\n            options TEXT,\n            created_at INTEGER NOT NULL,\n            updated_at INTEGER NOT NULL\n        )"@]
}

/// The statements of step 3 (see `smb_servers_table_statements`).
pub fn smb_servers_table() -> (r: Vec<String>)
    ensures
        views(r@) == smb_servers_table_statements(),
{
    let mut v: Vec<String> = Vec::new();
    v.push(to_string("CREATE TABLE IF NOT EXISTS smb_servers (\n            id TEXT PRIMARY KEY,\n            server_name TEXT NOT NULL UNIQUE,\n            host TEXT NOT NULL,\n            shares TEXT NOT NULL,\n            username TEXT,\n            password TEXT,\n            options TEXT,\n            created_at INTEGER NOT NULL,\n            updated_at INTEGER NOT NULL\n        )"));
    assert(views(v@) =~= smb_servers_table_statements());
    v
}

/// Undoing step 3: the `smb_servers` table dropped.
pub open spec fn smb_servers_table_rollback_statements() -> Seq<Seq<char>> {
    seq!["DROP TABLE IF EXISTS smb_servers"@]
}

/// The statements that undo step 3 (see `smb_servers_table_rollback_statements`).
pub fn smb_servers_table_rollback() -> (r: Vec<String>)
    ensures
        views(r@) == smb_servers_table_rollback_statements(),
{
    let mut v: Vec<String> = Vec::new();
    v.push(to_string("DROP TABLE IF EXISTS smb_servers"));
    assert(views(v@) =~= smb_servers_table_rollback_statements());
    v
}

/// The `host_info` table as step 4 creates it, with its `id` column.
pub open spec fn host_info_table() -> Seq<char> {
    "CREATE TABLE host_info (\n                id TEXT PRIMARY KEY,\n                hostname TEXT NOT NULL UNIQUE,\n                last_provisioned_at INTEGER,\n                docker_version TEXT,\n                tailscale_installed INTEGER,\n                portainer_installed INTEGER,\n                metadata TEXT,\n                ip TEXT,\n                hostname_field TEXT,\n                tailscale TEXT,\n                backup_path TEXT,\n                created_at INTEGER NOT NULL,\n                updated_at INTEGER NOT NULL\n            )"@
}

/// A fresh random identifier in SQLite's own terms, shaped like a version 4
/// UUID.
pub open spec fn new_id_expression() -> Seq<char> {
    "lower(hex(randomblob(4)) || '-' || hex(randomblob(2)) || '-4' || substr(hex(randomblob(2)), 2) || '-' || substr('89ab', abs(random()) % 4 + 1, 1) || substr(hex(randomblob(2)), 2) || '-' || hex(randomblob(6)))"@
}

/// The columns of `host_info` carried over when it is rebuilt, in order.
pub open spec fn carried_columns() -> Seq<Seq<char>> {
    seq!["hostname"@, "last_provisioned_at"@, "docker_version"@, "tailscale_installed"@, "portainer_installed"@, "metadata"@, "ip"@, "hostname_field"@, "tailscale"@, "backup_path"@, "created_at"@, "updated_at"@]
}

/// What fills column `c` of the rebuilt table: the old column when the old
/// table has it, else the current time for the two time columns, else `NULL`.
pub open spec fn carried_value(existing: Seq<Seq<char>>, c: Seq<char>) -> Seq<char> {
    if existing.contains(c) {
        c
    } else if c == "created_at"@ || c == "updated_at"@ {
        "strftime('%s', 'now')"@
    } else {
        "NULL"@
    }
}

/// The values selected into the rebuilt table: a new identifier, then each
/// carried column.
pub open spec fn restore_values(existing: Seq<Seq<char>>) -> Seq<Seq<char>> {
    seq![new_id_expression()] + carried_columns().map_values(|c: Seq<char>| carried_value(existing, c))
}

/// The copy of the old `host_info` that step 4 keeps while it rebuilds the
/// table: the columns that exist.
pub open spec fn backup_statement(existing: Seq<Seq<char>>) -> Seq<char> {
    "CREATE TABLE IF NOT EXISTS host_info_backup AS SELECT "@ + join(existing, ", "@) + " FROM host_info"@
}

/// The statement that fills the rebuilt `host_info` from the copy.
pub open spec fn restore_statement(existing: Seq<Seq<char>>) -> Seq<char> {
    "INSERT INTO host_info (\n                    id, hostname, last_provisioned_at, docker_version, \n                    tailscale_installed, portainer_installed, metadata,\n                    ip, hostname_field, tailscale, backup_path,\n                    created_at, updated_at\n                )\n                SELECT "@ + join(restore_values(existing), ", "@)
        + "\n                FROM host_info_backup"@
}

/// Step 4: a missing `host_info` is created; one without an `id` column is
/// copied, dropped, created again and refilled from the copy, which is then
/// dropped; a table with an `id` column is left alone.  `existing` names the
/// columns the table has.
pub open spec fn id_fix_statements(table_exists: bool, has_id_column: bool, existing: Seq<Seq<char>>) -> Seq<Seq<char>> {
    if !table_exists {
        seq![host_info_table()]
    } else if !has_id_column {
        seq![
            backup_statement(existing),
            "DROP TABLE host_info"@,
            host_info_table(),
            restore_statement(existing),
            "DROP TABLE host_info_backup"@,
        ]
    } else {
        seq![]
    }
}

fn carried_value_exec(existing: &Vec<String>, c: &str) -> (r: String)
    ensures
        r@ == carried_value(views(existing@), c@),
{
    if vec_contains_str(existing, c) {
        to_string(c)
    } else if str_eq(c, "created_at") || str_eq(c, "updated_at") {
        to_string("strftime('%s', 'now')")
    } else {
        to_string("NULL")
    }
}

fn restore_values_exec(existing: &Vec<String>) -> (r: Vec<String>)
    ensures
        views(r@) == restore_values(views(existing@)),
{
    let ghost ev = views(existing@);
    let mut v: Vec<String> = Vec::new();
    v.push(to_string("lower(hex(randomblob(4)) || '-' || hex(randomblob(2)) || '-4' || substr(hex(randomblob(2)), 2) || '-' || substr('89ab', abs(random()) % 4 + 1, 1) || substr(hex(randomblob(2)), 2) || '-' || hex(randomblob(6)))"));
    let ghost before = views(v@);
    v.push(carried_value_exec(existing, "hostname"));
    assert(views(v@) =~= before.push(carried_value(ev, "hostname"@)));
    let ghost before = views(v@);
    v.push(carried_value_exec(existing, "last_provisioned_at"));
    assert(views(v@) =~= before.push(carried_value(ev, "last_provisioned_at"@)));
    let ghost before = views(v@);
    v.push(carried_value_exec(existing, "docker_version"));
    assert(views(v@) =~= before.push(carried_value(ev, "docker_version"@)));
    let ghost before = views(v@);
    v.push(carried_value_exec(existing, "tailscale_installed"));
    assert(views(v@) =~= before.push(carried_value(ev, "tailscale_installed"@)));
    let ghost before = views(v@);
    v.push(carried_value_exec(existing, "portainer_installed"));
    assert(views(v@) =~= before.push(carried_value(ev, "portainer_installed"@)));
    let ghost before = views(v@);
    v.push(carried_value_exec(existing, "metadata"));
    assert(views(v@) =~= before.push(carried_value(ev, "metadata"@)));
    let ghost before = views(v@);
    v.push(carried_value_exec(existing, "ip"));
    assert(views(v@) =~= before.push(carried_value(ev, "ip"@)));
    let ghost before = views(v@);
    v.push(carried_value_exec(existing, "hostname_field"));
    assert(views(v@) =~= before.push(carried_value(ev, "hostname_field"@)));
    let ghost before = views(v@);
    v.push(carried_value_exec(existing, "tailscale"));
    assert(views(v@) =~= before.push(carried_value(ev, "tailscale"@)));
    let ghost before = views(v@);
    v.push(carried_value_exec(existing, "backup_path"));
    assert(views(v@) =~= before.push(carried_value(ev, "backup_path"@)));
    let ghost before = views(v@);
    v.push(carried_value_exec(existing, "created_at"));
    assert(views(v@) =~= before.push(carried_value(ev, "created_at"@)));
    let ghost before = views(v@);
    v.push(carried_value_exec(existing, "updated_at"));
    assert(views(v@) =~= before.push(carried_value(ev, "updated_at"@)));
    assert(views(v@) =~= restore_values(ev));
    v
}

/// The statements of step 4 for a table in the given state (see
/// `id_fix_statements`).
pub fn host_info_id_fix(table_exists: bool, has_id_column: bool, existing_columns: &Vec<String>) -> (r: Vec<String>)
    ensures
        views(r@) == id_fix_statements(table_exists, has_id_column, views(existing_columns@)),
{
    let mut v: Vec<String> = Vec::new();
    if !table_exists {
        v.push(to_string("CREATE TABLE host_info (\n                id TEXT PRIMARY KEY,\n                hostname TEXT NOT NULL UNIQUE,\n                last_provisioned_at INTEGER,\n                docker_version TEXT,\n                tailscale_installed INTEGER,\n                portainer_installed INTEGER,\n                metadata TEXT,\n                ip TEXT,\n                hostname_field TEXT,\n                tailscale TEXT,\n                backup_path TEXT,\n                created_at INTEGER NOT NULL,\n                updated_at INTEGER NOT NULL\n            )"));
        assert(views(v@) =~= id_fix_statements(table_exists, has_id_column, views(existing_columns@)));
    } else if !has_id_column {
        let mut backup = to_string("CREATE TABLE IF NOT EXISTS host_info_backup AS SELECT ");
        let cols = join_strings(existing_columns, ", ");
        crate::text::push_str(&mut backup, cols.as_str());
        crate::text::push_str(&mut backup, " FROM host_info");
        let values = restore_values_exec(existing_columns);
        let mut restore = to_string("INSERT INTO host_info (\n                    id, hostname, last_provisioned_at, docker_version, \n                    tailscale_installed, portainer_installed, metadata,\n                    ip, hostname_field, tailscale, backup_path,\n                    created_at, updated_at\n                )\n                SELECT ");
        let list = join_strings(&values, ", ");
        crate::text::push_str(&mut restore, list.as_str());
        crate::text::push_str(&mut restore, "\n                FROM host_info_backup");
        v.push(backup);
        v.push(to_string("DROP TABLE host_info"));
        v.push(to_string("CREATE TABLE host_info (\n                id TEXT PRIMARY KEY,\n                hostname TEXT NOT NULL UNIQUE,\n                last_provisioned_at INTEGER,\n                docker_version TEXT,\n                tailscale_installed INTEGER,\n                portainer_installed INTEGER,\n                metadata TEXT,\n                ip TEXT,\n                hostname_field TEXT,\n                tailscale TEXT,\n                backup_path TEXT,\n                created_at INTEGER NOT NULL,\n                updated_at INTEGER NOT NULL\n            )"));
        v.push(restore);
        v.push(to_string("DROP TABLE host_info_backup"));
        assert(views(v@) =~= id_fix_statements(table_exists, has_id_column, views(existing_columns@)));
    } else {
        assert(views(v@) =~= id_fix_statements(table_exists, has_id_column, views(existing_columns@)));
    }
    v
}

} // verus!
