use halvor::schema_text::{
    checked_column_def, checked_table_schema, is_one_word_column, generate_field_updates, parse_column_def, split_column_defs, split_words, sql_type_to_rust, strip_char_exec,
    table_schema_from_defs, to_field_name, to_struct_name,
};

#[test]
fn column_list_splits_outside_parentheses() {
    assert_eq!(
        split_column_defs("id TEXT PRIMARY KEY, price NUMERIC(10, 2) ,UNIQUE(a, b), "),
        vec!["id TEXT PRIMARY KEY", "price NUMERIC(10, 2)", "UNIQUE(a, b)"]
    );
}

#[test]
fn blank_parts_between_commas_are_kept() {
    assert_eq!(split_column_defs("a TEXT,,b TEXT"), vec!["a TEXT", "", "b TEXT"]);
    assert!(split_column_defs("   ").is_empty());
}

#[test]
fn words_split_at_any_white_space() {
    assert_eq!(split_words("  a  b\tc \n"), vec!["a", "b", "c"]);
    assert!(split_words(" \t ").is_empty());
}

#[test]
fn quotes_are_stripped_from_both_ends() {
    assert_eq!(strip_char_exec("\"name\"", '"'), "name");
    assert_eq!(strip_char_exec("``x`", '`'), "x");
    assert_eq!(strip_char_exec("a\"b", '"'), "a\"b");
}

#[test]
fn integer_primary_key_reads_as_text() {
    let c = parse_column_def("id INTEGER PRIMARY KEY AUTOINCREMENT").unwrap();
    assert_eq!(c.name, "id");
    assert_eq!(c.sql_type, "TEXT");
    assert!(c.primary_key);
    assert!(!c.not_null);
    assert_eq!(c.default_value, None);
}

#[test]
fn quoted_column_with_default() {
    let c = parse_column_def("\"port\" integer NOT NULL DEFAULT 22").unwrap();
    assert_eq!(c.name, "port");
    assert_eq!(c.sql_type, "INTEGER");
    assert!(c.not_null);
    assert!(!c.primary_key);
    assert_eq!(c.default_value, Some("22".to_string()));
}

#[test]
fn a_bare_null_marks_the_column_not_null() {
    let c = parse_column_def("note text NULL").unwrap();
    assert_eq!(c.sql_type, "TEXT");
    assert!(c.not_null);
}

#[test]
fn default_without_value_is_ignored() {
    let c = parse_column_def("`flag` INTEGER DEFAULT").unwrap();
    assert_eq!(c.name, "flag");
    assert_eq!(c.default_value, None);
}

#[test]
fn constraints_and_blanks_are_not_columns() {
    assert!(parse_column_def("CHECK (x > 0)").is_none());
    assert!(parse_column_def("primary key (a, b)").is_none());
    assert!(parse_column_def("Unique(a)").is_none());
    assert!(parse_column_def("foreign key (a) references t(b)").is_none());
    assert!(parse_column_def("   ").is_none());
}

#[test]
fn table_schema_keeps_columns_in_order() {
    let t = table_schema_from_defs(
        "smb_servers",
        "id TEXT PRIMARY KEY, server_name TEXT NOT NULL UNIQUE, options TEXT, UNIQUE(server_name)",
    );
    assert_eq!(t.name, "smb_servers");
    let names: Vec<&str> = t.columns.iter().map(|c| c.name.as_str()).collect();
    assert_eq!(names, vec!["id", "server_name", "options"]);
    assert!(t.columns[0].primary_key);
    assert!(t.columns[1].not_null);
    assert!(!t.columns[2].not_null);
}

#[test]
fn struct_names_are_pascal_case_rows() {
    assert_eq!(to_struct_name("host_info"), "HostInfoRow");
    assert_eq!(to_struct_name("settings"), "SettingsRow");
    assert_eq!(to_struct_name("encrypted_env_data"), "EncryptedEnvDataRow");
    assert_eq!(to_struct_name("a__b"), "ABRow");
}

#[test]
fn field_names_are_the_column_names() {
    assert_eq!(to_field_name("hostname_field"), "hostname_field");
    assert_eq!(to_field_name("ip"), "ip");
}

#[test]
fn sql_types_map_to_rust_types() {
    assert_eq!(sql_type_to_rust("INTEGER", true, "installed_at"), "i64");
    assert_eq!(sql_type_to_rust("INTEGER", false, "tailscale_installed"), "Option<i32>");
    assert_eq!(sql_type_to_rust("TEXT", true, "key"), "String");
    assert_eq!(sql_type_to_rust("REAL", false, "ratio"), "Option<f64>");
    assert_eq!(sql_type_to_rust("BLOB", true, "data"), "Vec<u8>");
    assert_eq!(sql_type_to_rust("NUMERIC", false, "n"), "Option<String>");
}

#[test]
fn field_updates_assign_each_data_field() {
    let fields = vec!["key".to_string(), "value".to_string()];
    assert_eq!(
        generate_field_updates(&fields),
        "            row.key = data.key;\n            row.value = data.value;\n"
    );
    assert_eq!(generate_field_updates(&Vec::new()), "");
}

#[test]
fn definitions_that_are_only_a_name_are_refused() {
    assert!(is_one_word_column("  nickname "));
    assert!(!is_one_word_column("UNIQUE"));
    assert!(!is_one_word_column("   "));
    assert!(!is_one_word_column("name TEXT"));
    assert_eq!(checked_column_def("nickname").unwrap_err().definition, "nickname");
    assert!(checked_column_def("CHECK").unwrap().is_none());
    let c = checked_column_def("age INTEGER NOT NULL").unwrap().unwrap();
    assert_eq!(c.name, "age");
    assert_eq!(c.sql_type, "INTEGER");
    assert!(c.not_null);
    let e = checked_table_schema("people", "id TEXT PRIMARY KEY, alias, nick").unwrap_err();
    assert_eq!(e.definition, "alias");
    let t = checked_table_schema("people", "id TEXT PRIMARY KEY, name TEXT").unwrap();
    assert_eq!(t.name, "people");
    assert_eq!(t.columns.len(), 2);
    assert_eq!(t.columns[1].name, "name");
}
