use halvor::migrations::{
    highest_migration_version, migration_description, migration_file_content, next_migration_file_name,
    version_of_file, MigrationNameError,
};

fn s(x: &str) -> String {
    x.to_string()
}

#[test]
fn versions_of_migration_files() {
    assert_eq!(version_of_file("001_initial_schema.rs"), Some(1));
    assert_eq!(version_of_file("004_fix.rs"), Some(4));
    assert_eq!(version_of_file("mod.rs"), None);
    assert_eq!(version_of_file("notes.md"), None);
    assert_eq!(version_of_file("abc_x.rs"), None);
    assert_eq!(version_of_file("12.rs.rs"), Some(12));
    let names = vec![s("mod.rs"), s("001_a.rs"), s("004_b.rs"), s("003_c.rs")];
    assert_eq!(highest_migration_version(&names), 4);
    assert_eq!(highest_migration_version(&vec![]), 0);
}

#[test]
fn migration_names() {
    let d = migration_description(&vec![s("Add"), s("Users Table")]).unwrap();
    assert_eq!(d, "add_users_table");
    assert_eq!(migration_description(&vec![]), Err(MigrationNameError::MissingDescription));
    assert_eq!(next_migration_file_name(4, &d), "005_add_users_table.rs");
    assert_eq!(next_migration_file_name(999, "x"), "1000_x.rs");
    let content = migration_file_content(4, "add_users");
    assert!(content.starts_with("use anyhow::{Context, Result};\nuse rusqlite::Connection;\n\n/// Migration 005: add users\n"));
    assert!(content.contains("/// Rollback: Undo add users\npub fn down(conn: &Connection)"));
}
