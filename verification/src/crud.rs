//! The text of a table's record operations: the data struct and the insert,
//! upsert, select and delete functions written for each table of the
//! database, built from the table's columns and unique keys.
use vstd::prelude::*;
use crate::schema_text::{field_updates, generate_field_updates, rust_type, sql_type_to_rust};
use crate::text::{contains_seq, has_prefix, occurs_at, push_str, starts_with, str_eq, to_string, views};

verus! {

/// A column as the database describes it.
#[derive(Debug)]
pub struct ColumnInfo {
    pub name: String,
    pub sql_type: String,
    pub not_null: bool,
    pub is_primary_key: bool,
    pub is_unique: bool,
}

/// The columns of one unique index of a table.
#[derive(Debug)]
pub struct UniqueConstraint {
    pub columns: Vec<String>,
}

/// Name, type and not-null flag of each column.
pub open spec fn fields_view(v: Seq<ColumnInfo>) -> Seq<(Seq<char>, Seq<char>, bool)> {
    v.map_values(|c: ColumnInfo| (c.name@, c.sql_type@, c.not_null))
}

/// The column list of each unique index.
pub open spec fn constraints_view(v: Seq<UniqueConstraint>) -> Seq<Seq<Seq<char>>> {
    v.map_values(|c: UniqueConstraint| views(c.columns@))
}

/// The Rust type of a field (see `rust_type`).
pub open spec fn field_type(f: (Seq<char>, Seq<char>, bool)) -> Seq<char> {
    rust_type(f.1, f.2, f.0)
}

/// The field names: each field is named after its column.
pub open spec fn field_names(fs: Seq<(Seq<char>, Seq<char>, bool)>) -> Seq<Seq<char>> {
    fs.map_values(|f: (Seq<char>, Seq<char>, bool)| f.0)
}

/// `    pub <field>: <type>,` for each field.
pub open spec fn struct_field_lines(fs: Seq<(Seq<char>, Seq<char>, bool)>) -> Seq<char>
    decreases fs.len(),
{
    if fs.len() == 0 {
        Seq::empty()
    } else {
        struct_field_lines(fs.drop_last()) + "    pub "@ + fs.last().0 + ": "@ + field_type(fs.last()) + ",\n"@
    }
}

/// `        <field>: data.<field>.clone(),` for each field.
pub open spec fn param_lines(fs: Seq<(Seq<char>, Seq<char>, bool)>) -> Seq<char>
    decreases fs.len(),
{
    if fs.len() == 0 {
        Seq::empty()
    } else {
        param_lines(fs.drop_last()) + "        "@ + fs.last().0 + ": data."@ + fs.last().0 + ".clone(),\n"@
    }
}

/// The value a new record starts with for a field of type `t`: `None` for
/// an optional field, an empty string, zero for the integer types, else the
/// type's default.
pub open spec fn default_value_text(t: Seq<char>) -> Seq<char> {
    if has_prefix(t, "Option<"@) {
        ": None,\n"@
    } else if t == "String"@ {
        ": String::new(),\n"@
    } else if t == "i64"@ || t == "i32"@ {
        ": 0,\n"@
    } else {
        ": Default::default(),\n"@
    }
}

/// `                <field>: <default>,` for each field.
pub open spec fn default_lines(fs: Seq<(Seq<char>, Seq<char>, bool)>) -> Seq<char>
    decreases fs.len(),
{
    if fs.len() == 0 {
        Seq::empty()
    } else {
        default_lines(fs.drop_last()) + "                "@ + fs.last().0 + default_value_text(field_type(fs.last()))
    }
}

/// `                r.<field> = data.<field>.clone();` for each field.
pub open spec fn assignment_lines(fs: Seq<(Seq<char>, Seq<char>, bool)>) -> Seq<char>
    decreases fs.len(),
{
    if fs.len() == 0 {
        Seq::empty()
    } else {
        assignment_lines(fs.drop_last()) + "                r."@ + fs.last().0 + " = data."@ + fs.last().0
            + ".clone();\n"@
    }
}

/// A `delete_by_<col>` function for each unique index of exactly one column,
/// in order; indexes over several columns get none.
pub open spec fn unique_deletes(s: Seq<char>, cs: Seq<Seq<Seq<char>>>) -> Seq<char>
    decreases cs.len(),
{
    if cs.len() == 0 {
        Seq::empty()
    } else {
        unique_deletes(s, cs.drop_last()) + if cs.last().len() == 1 {
            delete_unique_text(s, cs.last()[0])
        } else {
            Seq::empty()
        }
    }
}

/// Every operation after the data struct, in the order they are written.
pub open spec fn operations_text(s: Seq<char>, fs: Seq<(Seq<char>, Seq<char>, bool)>, cs: Seq<Seq<Seq<char>>>) -> Seq<char> {
    insert_one_text(s, param_lines(fs)) + insert_many_text(s, param_lines(fs)) + upsert_one_text(
        s,
        default_lines(fs),
        assignment_lines(fs),
        field_updates(field_names(fs)),
    ) + select_one_text(s) + select_many_text(s) + delete_by_id_text(s) + unique_deletes(s, cs)
}

/// The text of a table's record operations: its data struct, then the
/// operations.
pub open spec fn crud_operations(s: Seq<char>, fs: Seq<(Seq<char>, Seq<char>, bool)>, cs: Seq<Seq<Seq<char>>>) -> Seq<char> {
    data_struct_text(s, struct_field_lines(fs)) + operations_text(s, fs, cs)
}


/// The `insert_one` function text defines `insert_one`.
proof fn lemma_defines_insert_one(s: Seq<char>, params: Seq<char>)
    ensures
        contains_seq(insert_one_text(s, params), "pub fn insert_one("@),
{
    reveal_strlit("\n/// Insert a new ");
    reveal_strlit(" record\n/// Only data fields are required - id, created_at, and updated_at are set automatically\npub fn insert_one(data: ");
    reveal_strlit("pub fn insert_one(");
    let t = insert_one_text(s, params);
    let at = ("\n/// Insert a new "@.len() + s.len() + 97) as int;
    assert(t.subrange(at, at + "pub fn insert_one("@.len()) =~= "pub fn insert_one("@);
    assert(occurs_at(t, "pub fn insert_one("@, at));
}

/// The `insert_many` function text defines `insert_many`.
proof fn lemma_defines_insert_many(s: Seq<char>, params: Seq<char>)
    ensures
        contains_seq(insert_many_text(s, params), "pub fn insert_many("@),
{
    reveal_strlit("\n/// Insert multiple ");
    reveal_strlit(" records\npub fn insert_many(data_vec: Vec<");
    reveal_strlit("pub fn insert_many(");
    let t = insert_many_text(s, params);
    let at = ("\n/// Insert multiple "@.len() + s.len() + 9) as int;
    assert(t.subrange(at, at + "pub fn insert_many("@.len()) =~= "pub fn insert_many("@);
    assert(occurs_at(t, "pub fn insert_many("@, at));
}

/// The `upsert_one` function text defines `upsert_one`.
proof fn lemma_defines_upsert_one(s: Seq<char>, defaults: Seq<char>, assigns: Seq<char>, updates: Seq<char>)
    ensures
        contains_seq(upsert_one_text(s, defaults, assigns, updates), "pub fn upsert_one("@),
{
    reveal_strlit("\n/// Upsert a ");
    reveal_strlit(" record (insert if new, update if exists)\n/// Only data fields are required - id, created_at, and updated_at are handled automatically\npub fn upsert_one(where_clause: &str, where_params: &[&dyn rusqlite::types::ToSql], data: ");
    reveal_strlit("pub fn upsert_one(");
    let t = upsert_one_text(s, defaults, assigns, updates);
    let at = ("\n/// Upsert a "@.len() + s.len() + 135) as int;
    assert(t.subrange(at, at + "pub fn upsert_one("@.len()) =~= "pub fn upsert_one("@);
    assert(occurs_at(t, "pub fn upsert_one("@, at));
}

/// The `select_one` function text defines `select_one`.
proof fn lemma_defines_select_one(s: Seq<char>)
    ensures
        contains_seq(select_one_text(s), "pub fn select_one("@),
{
    reveal_strlit("\n/// Select one ");
    reveal_strlit(" record\npub fn select_one(where_clause: &str, params: &[&dyn rusqlite::types::ToSql]) -> Result<Option<");
    reveal_strlit("pub fn select_one(");
    let t = select_one_text(s);
    let at = ("\n/// Select one "@.len() + s.len() + 8) as int;
    assert(t.subrange(at, at + "pub fn select_one("@.len()) =~= "pub fn select_one("@);
    assert(occurs_at(t, "pub fn select_one("@, at));
}

/// The `select_many` function text defines `select_many`.
proof fn lemma_defines_select_many(s: Seq<char>)
    ensures
        contains_seq(select_many_text(s), "pub fn select_many("@),
{
    reveal_strlit("\n/// Select many ");
    reveal_strlit(" records\npub fn select_many(where_clause: &str, params: &[&dyn rusqlite::types::ToSql]) -> Result<Vec<");
    reveal_strlit("pub fn select_many(");
    let t = select_many_text(s);
    let at = ("\n/// Select many "@.len() + s.len() + 9) as int;
    assert(t.subrange(at, at + "pub fn select_many("@.len()) =~= "pub fn select_many("@);
    assert(occurs_at(t, "pub fn select_many("@, at));
}

/// The `delete_by_id` function text defines `delete_by_id`.
proof fn lemma_defines_delete_by_id(s: Seq<char>)
    ensures
        contains_seq(delete_by_id_text(s), "pub fn delete_by_id("@),
{
    reveal_strlit("\n/// Delete ");
    reveal_strlit(" record by primary key (id)\npub fn delete_by_id(id: &str) -> Result<usize> {\n    let conn = db::get_connection()?;\n    DbTable::<");
    reveal_strlit("pub fn delete_by_id(");
    let t = delete_by_id_text(s);
    let at = ("\n/// Delete "@.len() + s.len() + 28) as int;
    assert(t.subrange(at, at + "pub fn delete_by_id("@.len()) =~= "pub fn delete_by_id("@);
    assert(occurs_at(t, "pub fn delete_by_id("@, at));
}

/// Text inside a longer text is inside it too.
proof fn lemma_contains_within(a: Seq<char>, t: Seq<char>, b: Seq<char>, p: Seq<char>)
    requires
        contains_seq(t, p),
    ensures
        contains_seq(a + t + b, p),
{
    let i = choose|i: int| occurs_at(t, p, i);
    let all = a + t + b;
    assert(all.subrange(a.len() + i, a.len() + i + p.len()) =~= t.subrange(i, i + p.len()));
    assert(occurs_at(all, p, a.len() + i));
}

/// The text of a single-column unique index defines its `delete_by_<col>`.
proof fn lemma_defines_delete_unique(s: Seq<char>, col: Seq<char>)
    ensures
        contains_seq(delete_unique_text(s, col), "\npub fn delete_by_"@ + col + "("@),
{
    reveal_strlit("\n/// Delete ");
    reveal_strlit(" record by unique key: ");
    let t = delete_unique_text(s, col);
    let h = "\npub fn delete_by_"@ + col + "("@;
    let at = ("\n/// Delete "@.len() + s.len() + " record by unique key: "@.len() + col.len()) as int;
    assert(t.subrange(at, at + h.len()) =~= h);
    assert(occurs_at(t, h, at));
}

/// Every single-column unique index has its `delete_by_<col>` among the
/// unique deletes.
proof fn lemma_unique_deletes_define(s: Seq<char>, cs: Seq<Seq<Seq<char>>>, i: int)
    requires
        0 <= i < cs.len(),
        cs[i].len() == 1,
    ensures
        contains_seq(unique_deletes(s, cs), "\npub fn delete_by_"@ + cs[i][0] + "("@),
    decreases cs.len(),
{
    let h = "\npub fn delete_by_"@ + cs[i][0] + "("@;
    let prev = unique_deletes(s, cs.drop_last());
    let last = if cs.last().len() == 1 { delete_unique_text(s, cs.last()[0]) } else { Seq::empty() };
    assert(unique_deletes(s, cs) == prev + last);
    if i == cs.len() - 1 {
        lemma_defines_delete_unique(s, cs[i][0]);
        lemma_contains_within(prev, last, Seq::empty(), h);
        assert(prev + last + Seq::<char>::empty() =~= prev + last);
    } else {
        assert(cs.drop_last()[i] == cs[i]);
        lemma_unique_deletes_define(s, cs.drop_last(), i);
        lemma_contains_within(Seq::empty(), prev, last, h);
        assert(Seq::<char>::empty() + prev + last =~= prev + last);
    }
}

/// The record operations of a table define `insert_one`, `insert_many`,
/// `upsert_one`, `select_one`, `select_many` and `delete_by_id`, and a
/// `delete_by_<col>` for each unique index of exactly one column.
pub proof fn crud_text_defines_operations(
    s: Seq<char>,
    fs: Seq<(Seq<char>, Seq<char>, bool)>,
    cs: Seq<Seq<Seq<char>>>,
)
    ensures
        contains_seq(crud_operations(s, fs, cs), "pub fn insert_one("@),
        contains_seq(crud_operations(s, fs, cs), "pub fn insert_many("@),
        contains_seq(crud_operations(s, fs, cs), "pub fn upsert_one("@),
        contains_seq(crud_operations(s, fs, cs), "pub fn select_one("@),
        contains_seq(crud_operations(s, fs, cs), "pub fn select_many("@),
        contains_seq(crud_operations(s, fs, cs), "pub fn delete_by_id("@),
        forall|i: int| 0 <= i < cs.len() && (#[trigger] cs[i]).len() == 1 ==> contains_seq(
            crud_operations(s, fs, cs),
            "\npub fn delete_by_"@ + cs[i][0] + "("@,
        ),
{
    let head = data_struct_text(s, struct_field_lines(fs));
    let a = insert_one_text(s, param_lines(fs));
    let b = insert_many_text(s, param_lines(fs));
    let c = upsert_one_text(s, default_lines(fs), assignment_lines(fs), field_updates(field_names(fs)));
    let d = select_one_text(s);
    let e = select_many_text(s);
    let f = delete_by_id_text(s);
    let u = unique_deletes(s, cs);
    assert(crud_operations(s, fs, cs) == head + (a + b + c + d + e + f + u));
    lemma_defines_insert_one(s, param_lines(fs));
    lemma_defines_insert_many(s, param_lines(fs));
    lemma_defines_upsert_one(s, default_lines(fs), assignment_lines(fs), field_updates(field_names(fs)));
    lemma_defines_select_one(s);
    lemma_defines_select_many(s);
    lemma_defines_delete_by_id(s);
    lemma_in_parts(head, a, b, c, d, e, f, u, "pub fn insert_one("@);
    lemma_in_parts(head, a, b, c, d, e, f, u, "pub fn insert_many("@);
    lemma_in_parts(head, a, b, c, d, e, f, u, "pub fn upsert_one("@);
    lemma_in_parts(head, a, b, c, d, e, f, u, "pub fn select_one("@);
    lemma_in_parts(head, a, b, c, d, e, f, u, "pub fn select_many("@);
    lemma_in_parts(head, a, b, c, d, e, f, u, "pub fn delete_by_id("@);
    assert forall|i: int| 0 <= i < cs.len() && (#[trigger] cs[i]).len() == 1 implies contains_seq(
        crud_operations(s, fs, cs),
        "\npub fn delete_by_"@ + cs[i][0] + "("@,
    ) by {
        lemma_unique_deletes_define(s, cs, i);
        lemma_in_parts(head, a, b, c, d, e, f, u, "\npub fn delete_by_"@ + cs[i][0] + "("@);
    }
}

/// Text found in one of the parts is found in the text made of them.
proof fn lemma_in_parts(
    head: Seq<char>,
    a: Seq<char>,
    b: Seq<char>,
    c: Seq<char>,
    d: Seq<char>,
    e: Seq<char>,
    f: Seq<char>,
    u: Seq<char>,
    p: Seq<char>,
)
    requires
        contains_seq(a, p) || contains_seq(b, p) || contains_seq(c, p) || contains_seq(d, p) || contains_seq(e, p)
            || contains_seq(f, p) || contains_seq(u, p),
    ensures
        contains_seq(head + (a + b + c + d + e + f + u), p),
{
    let t = head + (a + b + c + d + e + f + u);
    let z = Seq::<char>::empty();
    if contains_seq(a, p) {
        lemma_contains_within(head, a, b + c + d + e + f + u, p);
        assert(head + a + (b + c + d + e + f + u) =~= t);
    } else if contains_seq(b, p) {
        lemma_contains_within(head + a, b, c + d + e + f + u, p);
        assert(head + a + b + (c + d + e + f + u) =~= t);
    } else if contains_seq(c, p) {
        lemma_contains_within(head + a + b, c, d + e + f + u, p);
        assert(head + a + b + c + (d + e + f + u) =~= t);
    } else if contains_seq(d, p) {
        lemma_contains_within(head + a + b + c, d, e + f + u, p);
        assert(head + a + b + c + d + (e + f + u) =~= t);
    } else if contains_seq(e, p) {
        lemma_contains_within(head + a + b + c + d, e, f + u, p);
        assert(head + a + b + c + d + e + (f + u) =~= t);
    } else if contains_seq(f, p) {
        lemma_contains_within(head + a + b + c + d + e, f, u, p);
        assert(head + a + b + c + d + e + f + u =~= t);
    } else {
        lemma_contains_within(head + a + b + c + d + e + f, u, z, p);
        assert(head + a + b + c + d + e + f + u + z =~= t);
    }
}

/// The record operations begin with the data struct and end with one
/// `delete_by_<col>` per single-column unique index, in index order; an
/// index over several columns adds nothing.
pub proof fn crud_text_structure(
    s: Seq<char>,
    fs: Seq<(Seq<char>, Seq<char>, bool)>,
    cs: Seq<Seq<Seq<char>>>,
    c: Seq<Seq<char>>,
)
    ensures
        has_prefix(crud_operations(s, fs, cs), data_struct_text(s, struct_field_lines(fs))),
        crud_operations(s, fs, cs) == crud_operations(s, fs, seq![]) + unique_deletes(s, cs),
        c.len() != 1 ==> crud_operations(s, fs, cs.push(c)) == crud_operations(s, fs, cs),
        c.len() == 1 ==> crud_operations(s, fs, cs.push(c)) == crud_operations(s, fs, cs) + delete_unique_text(
            s,
            c[0],
        ),
{
    let head = data_struct_text(s, struct_field_lines(fs));
    let ops = crud_operations(s, fs, cs);
    assert(ops.take(head.len() as int) =~= head);
    assert(unique_deletes(s, seq![]) =~= Seq::<char>::empty());
    let base = insert_one_text(s, param_lines(fs)) + insert_many_text(s, param_lines(fs)) + upsert_one_text(
        s,
        default_lines(fs),
        assignment_lines(fs),
        field_updates(field_names(fs)),
    ) + select_one_text(s) + select_many_text(s) + delete_by_id_text(s);
    assert(ops =~= head + base + unique_deletes(s, cs));
    assert(crud_operations(s, fs, seq![]) =~= head + base);
    assert(cs.push(c).drop_last() =~= cs);
    let extra = if c.len() == 1 { delete_unique_text(s, c[0]) } else { Seq::empty() };
    assert(unique_deletes(s, cs.push(c)) == unique_deletes(s, cs) + extra);
    assert(crud_operations(s, fs, cs.push(c)) =~= head + base + unique_deletes(s, cs) + extra);
    assert(ops + Seq::<char>::empty() =~= ops);
}

/// The `insert_one` function of a table's record struct `s`, whose
/// data fields are filled by `params`.
pub open spec fn insert_one_text(s: Seq<char>, params: Seq<char>) -> Seq<char> {
    "\n/// Insert a new "@
        + s
        + " record\n/// Only data fields are required - id, created_at, and updated_at are set automatically\npub fn insert_one(data: "@
        + s
        + "Data) -> Result<String> {\n    let conn = db::get_connection()?;\n    let row = "@
        + s
        + " {\n        id: String::new(), // Set automatically\n"@
        + params
        + "\n        created_at: 0, // Set automatically\n        updated_at: 0, // Set automatically\n    };\n    DbTable::<"@
        + s
        + ">::insert(&conn, &row)\n}\n"@
}

fn insert_one_exec(s: &str, params: &str) -> (r: String)
    ensures
        r@ == insert_one_text(s@, params@),
{
    let mut r = to_string("\n/// Insert a new ");
    push_str(&mut r, s);
    push_str(&mut r, " record\n/// Only data fields are required - id, created_at, and updated_at are set automatically\npub fn insert_one(data: ");
    push_str(&mut r, s);
    push_str(&mut r, "Data) -> Result<String> {\n    let conn = db::get_connection()?;\n    let row = ");
    push_str(&mut r, s);
    push_str(&mut r, " {\n        id: String::new(), // Set automatically\n");
    push_str(&mut r, params);
    push_str(&mut r, "\n        created_at: 0, // Set automatically\n        updated_at: 0, // Set automatically\n    };\n    DbTable::<");
    push_str(&mut r, s);
    push_str(&mut r, ">::insert(&conn, &row)\n}\n");
    r
}

/// The `insert_many` function of a table's record struct `s`.
pub open spec fn insert_many_text(s: Seq<char>, params: Seq<char>) -> Seq<char> {
    "\n/// Insert multiple "@
        + s
        + " records\npub fn insert_many(data_vec: Vec<"@
        + s
        + "Data>) -> Result<Vec<String>> {\n    let conn = db::get_connection()?;\n    let mut ids = Vec::new();\n    for data in data_vec {\n        let row = "@
        + s
        + " {\n            id: String::new(), // Set automatically\n"@
        + params
        + "\n            created_at: 0, // Set automatically\n            updated_at: 0, // Set automatically\n        };\n        ids.push(DbTable::<"@
        + s
        + ">::insert(&conn, &row)?);\n    }\n    Ok(ids)\n}\n"@
}

fn insert_many_exec(s: &str, params: &str) -> (r: String)
    ensures
        r@ == insert_many_text(s@, params@),
{
    let mut r = to_string("\n/// Insert multiple ");
    push_str(&mut r, s);
    push_str(&mut r, " records\npub fn insert_many(data_vec: Vec<");
    push_str(&mut r, s);
    push_str(&mut r, "Data>) -> Result<Vec<String>> {\n    let conn = db::get_connection()?;\n    let mut ids = Vec::new();\n    for data in data_vec {\n        let row = ");
    push_str(&mut r, s);
    push_str(&mut r, " {\n            id: String::new(), // Set automatically\n");
    push_str(&mut r, params);
    push_str(&mut r, "\n            created_at: 0, // Set automatically\n            updated_at: 0, // Set automatically\n        };\n        ids.push(DbTable::<");
    push_str(&mut r, s);
    push_str(&mut r, ">::insert(&conn, &row)?);\n    }\n    Ok(ids)\n}\n");
    r
}

/// The `upsert_one` function of a table's record struct `s`: `defaults`
/// start a new record, `assigns` copy the data into it, `updates` write the
/// data over an existing one.
pub open spec fn upsert_one_text(s: Seq<char>, defaults: Seq<char>, assigns: Seq<char>, updates: Seq<char>) -> Seq<char> {
    "\n/// Upsert a "@
        + s
        + " record (insert if new, update if exists)\n/// Only data fields are required - id, created_at, and updated_at are handled automatically\npub fn upsert_one(where_clause: &str, where_params: &[&dyn rusqlite::types::ToSql], data: "@
        + s
        + "Data) -> Result<String> {\n    let conn = db::get_connection()?;\n    DbTable::<"@
        + s
        + ">::upsert_by(\n        &conn,\n        where_clause,\n        where_params,\n        |existing| {\n            let mut row = existing.cloned().unwrap_or_else(|| {\n                let mut r = "@
        + s
        + " {\n                    id: String::new(), // Set automatically\n"@
        + defaults
        + "\n                    created_at: 0, // Set automatically\n                    updated_at: 0, // Set automatically\n                };\n                // Set initial values from data\n"@
        + assigns
        + "\n                r\n            });\n            // Update only the data fields\n"@
        + updates
        + "\n            row\n        },\n    )\n}\n"@
}

fn upsert_one_exec(s: &str, defaults: &str, assigns: &str, updates: &str) -> (r: String)
    ensures
        r@ == upsert_one_text(s@, defaults@, assigns@, updates@),
{
    let mut r = to_string("\n/// Upsert a ");
    push_str(&mut r, s);
    push_str(&mut r, " record (insert if new, update if exists)\n/// Only data fields are required - id, created_at, and updated_at are handled automatically\npub fn upsert_one(where_clause: &str, where_params: &[&dyn rusqlite::types::ToSql], data: ");
    push_str(&mut r, s);
    push_str(&mut r, "Data) -> Result<String> {\n    let conn = db::get_connection()?;\n    DbTable::<");
    push_str(&mut r, s);
    push_str(&mut r, ">::upsert_by(\n        &conn,\n        where_clause,\n        where_params,\n        |existing| {\n            let mut row = existing.cloned().unwrap_or_else(|| {\n                let mut r = ");
    push_str(&mut r, s);
    push_str(&mut r, " {\n                    id: String::new(), // Set automatically\n");
    push_str(&mut r, defaults);
    push_str(&mut r, "\n                    created_at: 0, // Set automatically\n                    updated_at: 0, // Set automatically\n                };\n                // Set initial values from data\n");
    push_str(&mut r, assigns);
    push_str(&mut r, "\n                r\n            });\n            // Update only the data fields\n");
    push_str(&mut r, updates);
    push_str(&mut r, "\n            row\n        },\n    )\n}\n");
    r
}

/// The `select_one` function of a table's record struct `s`.
pub open spec fn select_one_text(s: Seq<char>) -> Seq<char> {
    "\n/// Select one "@
        + s
        + " record\npub fn select_one(where_clause: &str, params: &[&dyn rusqlite::types::ToSql]) -> Result<Option<"@
        + s
        + ">> {\n    let conn = db::get_connection()?;\n    DbTable::<"@
        + s
        + ">::select_one(&conn, where_clause, params)\n}\n"@
}

fn select_one_exec(s: &str) -> (r: String)
    ensures
        r@ == select_one_text(s@),
{
    let mut r = to_string("\n/// Select one ");
    push_str(&mut r, s);
    push_str(&mut r, " record\npub fn select_one(where_clause: &str, params: &[&dyn rusqlite::types::ToSql]) -> Result<Option<");
    push_str(&mut r, s);
    push_str(&mut r, ">> {\n    let conn = db::get_connection()?;\n    DbTable::<");
    push_str(&mut r, s);
    push_str(&mut r, ">::select_one(&conn, where_clause, params)\n}\n");
    r
}

/// The `select_many` function of a table's record struct `s`.
pub open spec fn select_many_text(s: Seq<char>) -> Seq<char> {
    "\n/// Select many "@
        + s
        + " records\npub fn select_many(where_clause: &str, params: &[&dyn rusqlite::types::ToSql]) -> Result<Vec<"@
        + s
        + ">> {\n    let conn = db::get_connection()?;\n    DbTable::<"@
        + s
        + ">::select_many(&conn, where_clause, params)\n}\n"@
}

fn select_many_exec(s: &str) -> (r: String)
    ensures
        r@ == select_many_text(s@),
{
    let mut r = to_string("\n/// Select many ");
    push_str(&mut r, s);
    push_str(&mut r, " records\npub fn select_many(where_clause: &str, params: &[&dyn rusqlite::types::ToSql]) -> Result<Vec<");
    push_str(&mut r, s);
    push_str(&mut r, ">> {\n    let conn = db::get_connection()?;\n    DbTable::<");
    push_str(&mut r, s);
    push_str(&mut r, ">::select_many(&conn, where_clause, params)\n}\n");
    r
}

/// The `delete_by_id` function of a table's record struct `s`.
pub open spec fn delete_by_id_text(s: Seq<char>) -> Seq<char> {
    "\n/// Delete "@
        + s
        + " record by primary key (id)\npub fn delete_by_id(id: &str) -> Result<usize> {\n    let conn = db::get_connection()?;\n    DbTable::<"@
        + s
        + ">::delete_many(&conn, \"id = ?1\", &[&id as &dyn rusqlite::types::ToSql])\n}\n"@
}

fn delete_by_id_exec(s: &str) -> (r: String)
    ensures
        r@ == delete_by_id_text(s@),
{
    let mut r = to_string("\n/// Delete ");
    push_str(&mut r, s);
    push_str(&mut r, " record by primary key (id)\npub fn delete_by_id(id: &str) -> Result<usize> {\n    let conn = db::get_connection()?;\n    DbTable::<");
    push_str(&mut r, s);
    push_str(&mut r, ">::delete_many(&conn, \"id = ?1\", &[&id as &dyn rusqlite::types::ToSql])\n}\n");
    r
}

/// The `delete_by_<col>` function of a table's record struct `s` for a
/// single-column unique key `col`.
pub open spec fn delete_unique_text(s: Seq<char>, col: Seq<char>) -> Seq<char> {
    "\n/// Delete "@
        + s
        + " record by unique key: "@
        + col
        + "\npub fn delete_by_"@
        + col
        + "("@
        + col
        + "_value: &str) -> Result<usize> {\n    let conn = db::get_connection()?;\n    DbTable::<"@
        + s
        + ">::delete_many(&conn, \""@
        + col
        + " = ?1\", &[&"@
        + col
        + "_value as &dyn rusqlite::types::ToSql])\n}\n\n"@
}

fn delete_unique_exec(s: &str, col: &str) -> (r: String)
    ensures
        r@ == delete_unique_text(s@, col@),
{
    let mut r = to_string("\n/// Delete ");
    push_str(&mut r, s);
    push_str(&mut r, " record by unique key: ");
    push_str(&mut r, col);
    push_str(&mut r, "\npub fn delete_by_");
    push_str(&mut r, col);
    push_str(&mut r, "(");
    push_str(&mut r, col);
    push_str(&mut r, "_value: &str) -> Result<usize> {\n    let conn = db::get_connection()?;\n    DbTable::<");
    push_str(&mut r, s);
    push_str(&mut r, ">::delete_many(&conn, \"");
    push_str(&mut r, col);
    push_str(&mut r, " = ?1\", &[&");
    push_str(&mut r, col);
    push_str(&mut r, "_value as &dyn rusqlite::types::ToSql])\n}\n\n");
    r
}

/// The data struct of a table's record struct `s` (every column but `id`,
/// `created_at` and `updated_at`), with its field lines `fields`.
pub open spec fn data_struct_text(s: Seq<char>, fields: Seq<char>) -> Seq<char> {
    "\n/// Data structure for "@
        + s
        + " operations (excludes id, created_at, updated_at)\n#[derive(Debug, Clone)]\npub struct "@
        + s
        + "Data {\n"@
        + fields
        + "\n}\n"@
}

fn data_struct_exec(s: &str, fields: &str) -> (r: String)
    ensures
        r@ == data_struct_text(s@, fields@),
{
    let mut r = to_string("\n/// Data structure for ");
    push_str(&mut r, s);
    push_str(&mut r, " operations (excludes id, created_at, updated_at)\n#[derive(Debug, Clone)]\npub struct ");
    push_str(&mut r, s);
    push_str(&mut r, "Data {\n");
    push_str(&mut r, fields);
    push_str(&mut r, "\n}\n");
    r
}

fn struct_field_lines_exec(fields: &Vec<ColumnInfo>) -> (r: String)
    ensures
        r@ == struct_field_lines(fields_view(fields@)),
{
    let ghost fv = fields_view(fields@);
    let mut r = String::new();
    let mut i: usize = 0;
    while i < fields.len()
        invariant
            i <= fields@.len(),
            fv == fields_view(fields@),
            r@ == struct_field_lines(fv.take(i as int)),
        decreases fields@.len() - i,
    {
        let c = &fields[i];
        let t = sql_type_to_rust(c.sql_type.as_str(), c.not_null, c.name.as_str());
        push_str(&mut r, "    pub ");
        push_str(&mut r, c.name.as_str());
        push_str(&mut r, ": ");
        push_str(&mut r, t.as_str());
        push_str(&mut r, ",\n");
        proof {
            assert(fv.take(i + 1).drop_last() =~= fv.take(i as int));
        }
        i = i + 1;
    }
    proof {
        assert(fv.take(fv.len() as int) =~= fv);
    }
    r
}

fn param_lines_exec(fields: &Vec<ColumnInfo>) -> (r: String)
    ensures
        r@ == param_lines(fields_view(fields@)),
{
    let ghost fv = fields_view(fields@);
    let mut r = String::new();
    let mut i: usize = 0;
    while i < fields.len()
        invariant
            i <= fields@.len(),
            fv == fields_view(fields@),
            r@ == param_lines(fv.take(i as int)),
        decreases fields@.len() - i,
    {
        let c = &fields[i];
        push_str(&mut r, "        ");
        push_str(&mut r, c.name.as_str());
        push_str(&mut r, ": data.");
        push_str(&mut r, c.name.as_str());
        push_str(&mut r, ".clone(),\n");
        proof {
            assert(fv.take(i + 1).drop_last() =~= fv.take(i as int));
        }
        i = i + 1;
    }
    proof {
        assert(fv.take(fv.len() as int) =~= fv);
    }
    r
}

fn default_value_exec(t: &str) -> (r: &'static str)
    ensures
        r@ == default_value_text(t@),
{
    if starts_with(t, "Option<") {
        ": None,\n"
    } else if str_eq(t, "String") {
        ": String::new(),\n"
    } else if str_eq(t, "i64") || str_eq(t, "i32") {
        ": 0,\n"
    } else {
        ": Default::default(),\n"
    }
}

fn default_lines_exec(fields: &Vec<ColumnInfo>) -> (r: String)
    ensures
        r@ == default_lines(fields_view(fields@)),
{
    let ghost fv = fields_view(fields@);
    let mut r = String::new();
    let mut i: usize = 0;
    while i < fields.len()
        invariant
            i <= fields@.len(),
            fv == fields_view(fields@),
            r@ == default_lines(fv.take(i as int)),
        decreases fields@.len() - i,
    {
        let c = &fields[i];
        let t = sql_type_to_rust(c.sql_type.as_str(), c.not_null, c.name.as_str());
        push_str(&mut r, "                ");
        push_str(&mut r, c.name.as_str());
        push_str(&mut r, default_value_exec(t.as_str()));
        proof {
            assert(fv.take(i + 1).drop_last() =~= fv.take(i as int));
        }
        i = i + 1;
    }
    proof {
        assert(fv.take(fv.len() as int) =~= fv);
    }
    r
}

fn assignment_lines_exec(fields: &Vec<ColumnInfo>) -> (r: String)
    ensures
        r@ == assignment_lines(fields_view(fields@)),
{
    let ghost fv = fields_view(fields@);
    let mut r = String::new();
    let mut i: usize = 0;
    while i < fields.len()
        invariant
            i <= fields@.len(),
            fv == fields_view(fields@),
            r@ == assignment_lines(fv.take(i as int)),
        decreases fields@.len() - i,
    {
        let c = &fields[i];
        push_str(&mut r, "                r.");
        push_str(&mut r, c.name.as_str());
        push_str(&mut r, " = data.");
        push_str(&mut r, c.name.as_str());
        push_str(&mut r, ".clone();\n");
        proof {
            assert(fv.take(i + 1).drop_last() =~= fv.take(i as int));
        }
        i = i + 1;
    }
    proof {
        assert(fv.take(fv.len() as int) =~= fv);
    }
    r
}

fn names_of(fields: &Vec<ColumnInfo>) -> (r: Vec<String>)
    ensures
        views(r@) == field_names(fields_view(fields@)),
{
    let mut r: Vec<String> = Vec::new();
    let mut i: usize = 0;
    while i < fields.len()
        invariant
            i <= fields@.len(),
            views(r@) == field_names(fields_view(fields@)).take(i as int),
        decreases fields@.len() - i,
    {
        let ghost before = views(r@);
        r.push(to_string(fields[i].name.as_str()));
        proof {
            let names = field_names(fields_view(fields@));
            assert(names[i as int] == fields@[i as int].name@);
            assert(views(r@) =~= before.push(fields@[i as int].name@));
            assert(names.take(i + 1) =~= names.take(i as int).push(names[i as int]));
        }
        i = i + 1;
    }
    proof {
        assert(field_names(fields_view(fields@)).take(fields@.len() as int) =~= field_names(
            fields_view(fields@),
        ));
    }
    r
}

fn unique_deletes_exec(s: &str, cs: &Vec<UniqueConstraint>) -> (r: String)
    ensures
        r@ == unique_deletes(s@, constraints_view(cs@)),
{
    let ghost cv = constraints_view(cs@);
    let mut r = String::new();
    let mut i: usize = 0;
    while i < cs.len()
        invariant
            i <= cs@.len(),
            cv == constraints_view(cs@),
            r@ == unique_deletes(s@, cv.take(i as int)),
        decreases cs@.len() - i,
    {
        proof {
            assert(cv.take(i + 1).drop_last() =~= cv.take(i as int));
            assert(cv.take(i + 1).last() == views(cs@[i as int].columns@));
        }
        let columns = &cs[i].columns;
        if columns.len() == 1 {
            let t = delete_unique_exec(s, columns[0].as_str());
            push_str(&mut r, t.as_str());
        } else {
            assert(r@ =~= r@ + Seq::<char>::empty());
        }
        i = i + 1;
    }
    proof {
        assert(cv.take(cv.len() as int) =~= cv);
    }
    r
}

/// The text of the record operations of the table whose record struct is
/// `struct_name`: the data struct over `data_fields`, then `insert_one`,
/// `insert_many`, `upsert_one`, `select_one`, `select_many`, `delete_by_id`
/// and a `delete_by_<col>` for each single-column unique index.
pub fn generate_crud_operations(
    struct_name: &str,
    table_name: &str,
    data_fields: &Vec<ColumnInfo>,
    unique_constraints: &Vec<UniqueConstraint>,
) -> (r: String)
    ensures
        r@ == crud_operations(struct_name@, fields_view(data_fields@), constraints_view(unique_constraints@)),
{
    let params = param_lines_exec(data_fields);
    let mut ops = insert_one_exec(struct_name, params.as_str());
    let t = insert_many_exec(struct_name, params.as_str());
    push_str(&mut ops, t.as_str());
    let defaults = default_lines_exec(data_fields);
    let assigns = assignment_lines_exec(data_fields);
    let names = names_of(data_fields);
    let updates = generate_field_updates(&names);
    let t = upsert_one_exec(struct_name, defaults.as_str(), assigns.as_str(), updates.as_str());
    push_str(&mut ops, t.as_str());
    let t = select_one_exec(struct_name);
    push_str(&mut ops, t.as_str());
    let t = select_many_exec(struct_name);
    push_str(&mut ops, t.as_str());
    let t = delete_by_id_exec(struct_name);
    push_str(&mut ops, t.as_str());
    let t = unique_deletes_exec(struct_name, unique_constraints);
    push_str(&mut ops, t.as_str());
    let fields = struct_field_lines_exec(data_fields);
    let mut r = data_struct_exec(struct_name, fields.as_str());
    push_str(&mut r, ops.as_str());
    r
}

} // verus!
