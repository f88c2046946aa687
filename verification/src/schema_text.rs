//! Reading table schemas out of `CREATE TABLE` text, and the names the
//! record structs are generated under.
use vstd::prelude::*;
use crate::config::opt_view;
use crate::schema::{ColumnDef, ColumnModel, TableSchema, columns_view};
use crate::text::{
    chars_of, char_is_ws, contains_seq, contains_str, has_prefix, is_ws, push_str, split_char,
    split_on, starts_with, str_eq, string_of_range, to_string, to_uppercase, trim, trimmed,
    uppercase, views,
};

verus! {

// ---------------------------------------------------------------------------
// Splitting the column list
// ---------------------------------------------------------------------------

/// The parenthesis depth after `s` (opening `(` adds one, `)` removes one).
pub open spec fn depth_after(s: Seq<char>) -> int
    decreases s.len(),
{
    if s.len() == 0 {
        0
    } else {
        depth_after(s.drop_last()) + if s.last() == '(' {
            1int
        } else if s.last() == ')' {
            -1int
        } else {
            0int
        }
    }
}

/// The state of the split after `s`: the finished parts and the current one.
pub open spec fn split_state(s: Seq<char>) -> (Seq<Seq<char>>, Seq<char>)
    decreases s.len(),
{
    if s.len() == 0 {
        (seq![], seq![])
    } else {
        let (parts, cur) = split_state(s.drop_last());
        let c = s.last();
        if c == ',' && depth_after(s.drop_last()) == 0 {
            (parts.push(trimmed(cur)), seq![])
        } else {
            (parts, cur.push(c))
        }
    }
}

/// The column definitions of a column list: split at the commas outside
/// parentheses, each part trimmed, a blank last part dropped.
pub open spec fn column_parts(defs: Seq<char>) -> Seq<Seq<char>> {
    let (parts, cur) = split_state(defs);
    if trimmed(cur).len() > 0 {
        parts.push(trimmed(cur))
    } else {
        parts
    }
}

/// Splits a column list into column definitions (see `column_parts`).
pub fn split_column_defs(defs: &str) -> (r: Vec<String>)
    requires
        defs@.len() < i64::MAX,
    ensures
        views(r@) == column_parts(defs@),
{
    let v = chars_of(defs);
    let mut parts: Vec<String> = Vec::new();
    let mut cur = String::new();
    let mut depth: i64 = 0;
    let mut i: usize = 0;
    while i < v.len()
        invariant
            i <= v@.len(),
            v@ == defs@,
            v@.len() < i64::MAX,
            -(i as int) <= depth <= i,
            depth == depth_after(v@.take(i as int)),
            (views(parts@), cur@) == split_state(v@.take(i as int)),
        decreases v@.len() - i,
    {
        let c = v[i];
        proof {
            assert(v@.take(i + 1).drop_last() =~= v@.take(i as int));
            assert(v@.take(i + 1).last() == c);
        }
        if c == ',' && depth == 0 {
            let t = trim(cur.as_str());
            let ghost before = parts@;
            parts.push(t);
            assert(views(parts@) =~= views(before).push(t@));
            cur = String::new();
        } else {
            crate::text::push_char(&mut cur, c);
        }
        if c == '(' {
            depth = depth + 1;
        } else if c == ')' {
            depth = depth - 1;
        }
        i = i + 1;
    }
    assert(v@.take(v@.len() as int) =~= v@);
    let t = trim(cur.as_str());
    if t.unicode_len() > 0 {
        let ghost before = parts@;
        parts.push(t);
        assert(views(parts@) =~= views(before).push(t@));
    }
    parts
}

// ---------------------------------------------------------------------------
// Words
// ---------------------------------------------------------------------------

/// The state of a split at white space after `s`: finished words and the
/// current one.
pub open spec fn ws_state(s: Seq<char>) -> (Seq<Seq<char>>, Seq<char>)
    decreases s.len(),
{
    if s.len() == 0 {
        (seq![], seq![])
    } else {
        let (ws, cur) = ws_state(s.drop_last());
        let c = s.last();
        if is_ws(c) {
            if cur.len() > 0 { (ws.push(cur), seq![]) } else { (ws, cur) }
        } else {
            (ws, cur.push(c))
        }
    }
}

/// The words of `s` (`str::split_whitespace`).
pub open spec fn words(s: Seq<char>) -> Seq<Seq<char>> {
    let (ws, cur) = ws_state(s);
    if cur.len() > 0 { ws.push(cur) } else { ws }
}

/// The words of `s`.
pub fn split_words(s: &str) -> (r: Vec<String>)
    ensures
        views(r@) == words(s@),
{
    let v = chars_of(s);
    let mut ws: Vec<String> = Vec::new();
    let mut cur = String::new();
    let mut i: usize = 0;
    while i < v.len()
        invariant
            i <= v@.len(),
            v@ == s@,
            (views(ws@), cur@) == ws_state(v@.take(i as int)),
        decreases v@.len() - i,
    {
        let c = v[i];
        proof {
            assert(v@.take(i + 1).drop_last() =~= v@.take(i as int));
            assert(v@.take(i + 1).last() == c);
        }
        if char_is_ws(c) {
            if cur.unicode_len() > 0 {
                let ghost before = ws@;
                let w = cur;
                ws.push(w);
                assert(views(ws@) =~= views(before).push(w@));
                cur = String::new();
            }
        } else {
            crate::text::push_char(&mut cur, c);
        }
        i = i + 1;
    }
    assert(v@.take(v@.len() as int) =~= v@);
    if cur.unicode_len() > 0 {
        let ghost before = ws@;
        let w = cur;
        ws.push(w);
        assert(views(ws@) =~= views(before).push(w@));
    }
    ws
}

/// `s` without every leading and trailing `c` (`str::trim_matches`).
pub open spec fn strip_char(s: Seq<char>, c: char) -> Seq<char>
    decreases s.len(),
{
    if s.len() > 0 && s[0] == c {
        strip_char(s.drop_first(), c)
    } else if s.len() > 0 && s.last() == c {
        strip_char(s.drop_last(), c)
    } else {
        s
    }
}

/// `s` without every leading and trailing `c`.
pub fn strip_char_exec(s: &str, c: char) -> (r: String)
    ensures
        r@ == strip_char(s@, c),
{
    let v = chars_of(s);
    let mut lo: usize = 0;
    let mut hi: usize = v.len();
    assert(v@.subrange(0, v@.len() as int) =~= s@);
    while lo < hi && (v[lo] == c || v[hi - 1] == c)
        invariant
            lo <= hi <= v@.len(),
            v@ == s@,
            strip_char(s@, c) == strip_char(v@.subrange(lo as int, hi as int), c),
        decreases hi - lo,
    {
        let ghost t = v@.subrange(lo as int, hi as int);
        if v[lo] == c {
            assert(t[0] == c);
            assert(t.drop_first() =~= v@.subrange(lo + 1, hi as int));
            lo = lo + 1;
        } else {
            assert(t[0] != c);
            assert(t.last() == c);
            assert(t.drop_last() =~= v@.subrange(lo as int, hi - 1));
            hi = hi - 1;
        }
    }
    proof {
        let t = v@.subrange(lo as int, hi as int);
        if lo < hi {
            assert(t[0] != c && t.last() != c);
        } else {
            assert(t.len() == 0);
        }
    }
    string_of_range(&v, lo, hi)
}

// ---------------------------------------------------------------------------
// Column definitions
// ---------------------------------------------------------------------------

/// Table constraints, which are not columns.
pub open spec fn is_constraint(part: Seq<char>) -> bool {
    let u = uppercase(part);
    has_prefix(u, "PRIMARY KEY"@) || has_prefix(u, "UNIQUE"@) || has_prefix(u, "FOREIGN KEY"@) || has_prefix(
        u,
        "CHECK"@,
    )
}

/// Index of the first word that is `DEFAULT` in upper case, or -1.
pub open spec fn default_index(ws: Seq<Seq<char>>) -> int
    decreases ws.len(),
{
    if ws.len() == 0 {
        -1
    } else if uppercase(ws[0]) == "DEFAULT"@ {
        0
    } else {
        let r = default_index(ws.drop_first());
        if r < 0 { -1 } else { r + 1 }
    }
}

/// The column's flags and default after the words from the third on:
/// `NOT` or `NULL` marks it not-null, `PRIMARY` or `KEY` a primary key, and
/// `DEFAULT` takes the word after the first `DEFAULT` as default.
pub open spec fn flags_after(ws: Seq<Seq<char>>, k: int, acc: (bool, bool, Option<Seq<char>>)) -> (bool, bool, Option<Seq<char>>)
    decreases ws.len() - k,
{
    if k >= ws.len() {
        acc
    } else {
        let u = uppercase(ws[k]);
        let (nn, pk, d) = acc;
        let next = if u == "NOT"@ || u == "NULL"@ {
            (true, pk, d)
        } else if u == "PRIMARY"@ || u == "KEY"@ {
            (nn, true, d)
        } else if u == "DEFAULT"@ {
            let i = default_index(ws);
            if 0 <= i && i + 1 < ws.len() { (nn, pk, Some(ws[i + 1])) } else { (nn, pk, d) }
        } else {
            (nn, pk, d)
        };
        flags_after(ws, k + 1, next)
    }
}

/// The column a definition describes: the first word without quotes or
/// backticks as name, the second upper-cased as type (`INTEGER` with a
/// primary key reads as `TEXT`), then the flags; `None` for a table
/// constraint or a blank definition.
pub open spec fn column_of(part: Seq<char>) -> Option<ColumnModel> {
    let p = trimmed(part);
    let ws = words(p);
    if p.len() == 0 || is_constraint(p) || ws.len() == 0 {
        None
    } else {
        let name = strip_char(strip_char(ws[0], '"'), '`');
        let t = if ws.len() > 1 {
            let u = uppercase(ws[1]);
            if u == "INTEGER"@ && contains_seq(uppercase(p), "PRIMARY KEY"@) { "TEXT"@ } else { u }
        } else {
            Seq::empty()
        };
        let (nn, pk, d) = flags_after(ws, 2, (false, false, None));
        Some(ColumnModel { name, sql_type: t, not_null: nn, default_value: d, primary_key: pk })
    }
}

/// A definition that names a column but nothing more, which the reader
/// cannot handle.
pub open spec fn one_word_column(part: Seq<char>) -> bool {
    let p = trimmed(part);
    p.len() > 0 && !is_constraint(p) && words(p).len() == 1
}

fn first_default(ws: &Vec<String>, uppers: &Vec<String>) -> (r: Option<usize>)
    requires
        uppers@.len() == ws@.len(),
        forall|k: int| 0 <= k < ws@.len() ==> #[trigger] uppers@[k]@ == uppercase(ws@[k]@),
    ensures
        match r {
            Some(i) => default_index(views(ws@)) == i,
            None => default_index(views(ws@)) == -1,
        },
{
    let ghost wv = views(ws@);
    let mut i: usize = 0;
    assert(wv.skip(0) =~= wv);
    while i < uppers.len()
        invariant
            i <= ws@.len(),
            uppers@.len() == ws@.len(),
            wv == views(ws@),
            forall|k: int| 0 <= k < ws@.len() ==> #[trigger] uppers@[k]@ == uppercase(ws@[k]@),
            default_index(wv) == if default_index(wv.skip(i as int)) < 0 {
                -1
            } else {
                default_index(wv.skip(i as int)) + i
            },
        decreases ws@.len() - i,
    {
        assert(wv.skip(i as int)[0] == ws@[i as int]@);
        assert(uppers@[i as int]@ == uppercase(ws@[i as int]@));
        if str_eq(uppers[i].as_str(), "DEFAULT") {
            return Some(i);
        }
        assert(wv.skip(i as int).drop_first() =~= wv.skip(i + 1));
        i = i + 1;
    }
    None
}

/// Reads one column definition (see `column_of`).
pub fn parse_column_def(part: &str) -> (r: Option<ColumnDef>)
    requires
        !one_word_column(part@),
    ensures
        match r {
            Some(c) => column_of(part@) == Some(c@),
            None => column_of(part@) is None,
        },
{
    let p = trim(part);
    if p.unicode_len() == 0 {
        return None;
    }
    let up = to_uppercase(p.as_str());
    if starts_with(up.as_str(), "PRIMARY KEY") || starts_with(up.as_str(), "UNIQUE") || starts_with(
        up.as_str(),
        "FOREIGN KEY",
    ) || starts_with(up.as_str(), "CHECK") {
        return None;
    }
    let ws = split_words(p.as_str());
    if ws.len() == 0 {
        return None;
    }
    let ghost wv = views(ws@);
    let n1 = strip_char_exec(ws[0].as_str(), '"');
    let name = strip_char_exec(n1.as_str(), '`');
    let sql_type = if ws.len() > 1 {
        let u = to_uppercase(ws[1].as_str());
        if str_eq(u.as_str(), "INTEGER") && contains_str(up.as_str(), "PRIMARY KEY") {
            to_string("TEXT")
        } else {
            u
        }
    } else {
        String::new()
    };
    let mut uppers: Vec<String> = Vec::new();
    let mut k: usize = 0;
    while k < ws.len()
        invariant
            k <= ws@.len(),
            uppers@.len() == k,
            forall|j: int| 0 <= j < k ==> #[trigger] uppers@[j]@ == uppercase(ws@[j]@),
        decreases ws@.len() - k,
    {
        uppers.push(to_uppercase(ws[k].as_str()));
        k = k + 1;
    }
    let dflt = first_default(&ws, &uppers);
    let mut not_null = false;
    let mut primary_key = false;
    let mut default_value: Option<String> = None;
    let mut j: usize = 2;
    assert(ws@.len() >= 2);
    while j < ws.len()
        invariant
            2 <= j <= ws@.len(),
            wv == views(ws@),
            uppers@.len() == ws@.len(),
            forall|q: int| 0 <= q < ws@.len() ==> #[trigger] uppers@[q]@ == uppercase(ws@[q]@),
            match dflt {
                Some(i) => default_index(wv) == i,
                None => default_index(wv) == -1,
            },
            flags_after(wv, 2, (false, false, None)) == flags_after(
                wv,
                j as int,
                (not_null, primary_key, opt_view(default_value)),
            ),
        decreases ws@.len() - j,
    {
        let u = uppers[j].as_str();
        assert(uppers@[j as int]@ == uppercase(wv[j as int]));
        if str_eq(u, "NOT") || str_eq(u, "NULL") {
            not_null = true;
        } else if str_eq(u, "PRIMARY") || str_eq(u, "KEY") {
            primary_key = true;
        } else if str_eq(u, "DEFAULT") {
            match dflt {
                Some(i) => {
                    if i < ws.len() - 1 {
                        default_value = Some(to_string(ws[i + 1].as_str()));
                    }
                },
                None => {},
            }
        }
        j = j + 1;
    }
    Some(ColumnDef { name, sql_type, not_null, default_value, primary_key })
}

/// The columns of a column list, definitions in order, table constraints
/// left out.
pub open spec fn columns_of(parts: Seq<Seq<char>>) -> Seq<ColumnModel>
    decreases parts.len(),
{
    if parts.len() == 0 {
        seq![]
    } else {
        let rest = columns_of(parts.drop_last());
        match column_of(parts.last()) {
            Some(c) => rest.push(c),
            None => rest,
        }
    }
}

/// The schema of table `table_name` from the column list of its
/// `CREATE TABLE` statement (the text between its outer parentheses).
pub fn table_schema_from_defs(table_name: &str, column_defs: &str) -> (r: TableSchema)
    requires
        column_defs@.len() < i64::MAX,
        forall|i: int| 0 <= i < column_parts(column_defs@).len() ==> !one_word_column(
            #[trigger] column_parts(column_defs@)[i],
        ),
    ensures
        r.name@ == table_name@,
        columns_view(r.columns@) == columns_of(column_parts(column_defs@)),
{
    let parts = split_column_defs(column_defs);
    let ghost pv = views(parts@);
    let mut columns: Vec<ColumnDef> = Vec::new();
    let mut i: usize = 0;
    while i < parts.len()
        invariant
            i <= parts@.len(),
            pv == views(parts@),
            pv == column_parts(column_defs@),
            forall|q: int| 0 <= q < pv.len() ==> !one_word_column(#[trigger] pv[q]),
            columns_view(columns@) == columns_of(pv.take(i as int)),
        decreases parts@.len() - i,
    {
        proof {
            assert(pv.take(i + 1).drop_last() =~= pv.take(i as int));
            assert(pv.take(i + 1).last() == pv[i as int]);
            assert(pv[i as int] == parts@[i as int]@);
        }
        match parse_column_def(parts[i].as_str()) {
            Some(c) => {
                let ghost before = columns@;
                columns.push(c);
                assert(columns_view(columns@) =~= columns_view(before).push(c@));
            },
            None => {},
        }
        i = i + 1;
    }
    assert(pv.take(pv.len() as int) =~= pv);
    TableSchema { name: to_string(table_name), columns }
}

/// A column definition that is only a name, which the reader does not take.
#[derive(Debug)]
pub struct NameOnlyColumn {
    pub definition: String,
}

/// Whether a definition is only a column name (see `one_word_column`).
pub fn is_one_word_column(part: &str) -> (r: bool)
    ensures
        r == one_word_column(part@),
{
    let p = trim(part);
    if p.unicode_len() == 0 {
        return false;
    }
    let up = to_uppercase(p.as_str());
    if starts_with(up.as_str(), "PRIMARY KEY") || starts_with(up.as_str(), "UNIQUE") || starts_with(
        up.as_str(),
        "FOREIGN KEY",
    ) || starts_with(up.as_str(), "CHECK") {
        return false;
    }
    let ws = split_words(p.as_str());
    ws.len() == 1
}

/// Reads one column definition (see `column_of`), refusing a definition
/// that is only a name.
pub fn checked_column_def(part: &str) -> (r: Result<Option<ColumnDef>, NameOnlyColumn>)
    ensures
        r is Err <==> one_word_column(part@),
        r matches Err(e) ==> e.definition@ == part@,
        r matches Ok(Some(c)) ==> column_of(part@) == Some(c@),
        r matches Ok(None) ==> column_of(part@) is None,
{
    if is_one_word_column(part) {
        Err(NameOnlyColumn { definition: to_string(part) })
    } else {
        Ok(parse_column_def(part))
    }
}

/// Index of the first definition that is only a name, or the number of
/// definitions when there is none.
pub open spec fn first_one_word(parts: Seq<Seq<char>>) -> int
    decreases parts.len(),
{
    if parts.len() == 0 {
        0
    } else if one_word_column(parts[0]) {
        0
    } else {
        first_one_word(parts.drop_first()) + 1
    }
}

proof fn lemma_first_one_word(parts: Seq<Seq<char>>)
    ensures
        0 <= first_one_word(parts) <= parts.len(),
        forall|i: int| 0 <= i < first_one_word(parts) ==> !one_word_column(#[trigger] parts[i]),
        first_one_word(parts) < parts.len() ==> one_word_column(parts[first_one_word(parts)]),
    decreases parts.len(),
{
    if parts.len() > 0 && !one_word_column(parts[0]) {
        lemma_first_one_word(parts.drop_first());
        assert forall|i: int| 0 <= i < first_one_word(parts) implies !one_word_column(#[trigger] parts[i]) by {
            if i > 0 {
                assert(parts[i] == parts.drop_first()[i - 1]);
            }
        }
    }
}

/// The schema of table `table_name` from the column list of its
/// `CREATE TABLE` statement (see `table_schema_from_defs`), or the first
/// definition that is only a name.
pub fn checked_table_schema(table_name: &str, column_defs: &str) -> (r: Result<TableSchema, NameOnlyColumn>)
    requires
        column_defs@.len() < i64::MAX,
    ensures
        r is Err <==> exists|i: int| 0 <= i < column_parts(column_defs@).len() && one_word_column(
            #[trigger] column_parts(column_defs@)[i],
        ),
        r matches Err(e) ==> e.definition@ == column_parts(column_defs@)[first_one_word(column_parts(column_defs@))],
        r matches Ok(t) ==> t.name@ == table_name@ && columns_view(t.columns@) == columns_of(column_parts(column_defs@)),
{
    let parts = split_column_defs(column_defs);
    let ghost pv = views(parts@);
    proof {
        lemma_first_one_word(pv);
    }
    let mut i: usize = 0;
    while i < parts.len()
        invariant
            i <= parts@.len(),
            pv == views(parts@),
            pv == column_parts(column_defs@),
            i <= first_one_word(pv),
            0 <= first_one_word(pv) <= pv.len(),
            first_one_word(pv) < pv.len() ==> one_word_column(pv[first_one_word(pv)]),
            forall|q: int| 0 <= q < first_one_word(pv) ==> !one_word_column(#[trigger] pv[q]),
        decreases parts@.len() - i,
    {
        assert(pv[i as int] == parts@[i as int]@);
        if is_one_word_column(parts[i].as_str()) {
            return Err(NameOnlyColumn { definition: to_string(parts[i].as_str()) });
        }
        i = i + 1;
    }
    Ok(table_schema_from_defs(table_name, column_defs))
}

// ---------------------------------------------------------------------------
// Generated names
// ---------------------------------------------------------------------------

/// A word with its first character upper-cased.
pub open spec fn capitalized(w: Seq<char>) -> Seq<char> {
    if w.len() == 0 { w } else { uppercase(seq![w[0]]) + w.drop_first() }
}

/// The record struct of a table: the `_`-separated words capitalised and
/// joined, then `Row`.
pub open spec fn struct_name(table: Seq<char>) -> Seq<char> {
    split_char(table, '_').map_values(|w: Seq<char>| capitalized(w)).fold_left(Seq::empty(), |acc: Seq<char>, w: Seq<char>| acc + w) + "Row"@
}

fn capitalize(w: &str) -> (r: String)
    ensures
        r@ == capitalized(w@),
{
    let v = chars_of(w);
    if v.len() == 0 {
        return String::new();
    }
    let mut first = String::new();
    crate::text::push_char(&mut first, v[0]);
    assert(first@ =~= seq![w@[0]]);
    let mut r = to_uppercase(first.as_str());
    let rest = string_of_range(&v, 1, v.len());
    assert(rest@ =~= w@.drop_first());
    push_str(&mut r, rest.as_str());
    r
}

/// The name of the record struct of a table (see `struct_name`).
pub fn to_struct_name(table_name: &str) -> (r: String)
    ensures
        r@ == struct_name(table_name@),
{
    let parts = split_on(table_name, '_');
    let ghost ps = split_char(table_name@, '_');
    let ghost f = |acc: Seq<char>, w: Seq<char>| acc + w;
    let ghost caps = ps.map_values(|w: Seq<char>| capitalized(w));
    let mut r = String::new();
    let mut i: usize = 0;
    while i < parts.len()
        invariant
            i <= parts@.len(),
            parts@.len() == ps.len(),
            forall|k: int| 0 <= k < parts@.len() ==> #[trigger] parts@[k]@ == ps[k],
            caps == ps.map_values(|w: Seq<char>| capitalized(w)),
            f == (|acc: Seq<char>, w: Seq<char>| acc + w),
            r@ == caps.take(i as int).fold_left(Seq::empty(), f),
        decreases parts@.len() - i,
    {
        let c = capitalize(parts[i].as_str());
        proof {
            assert(caps.take(i + 1).drop_last() =~= caps.take(i as int));
            assert(caps.take(i + 1).last() == capitalized(ps[i as int]));
        }
        push_str(&mut r, c.as_str());
        i = i + 1;
    }
    assert(caps.take(caps.len() as int) =~= caps);
    push_str(&mut r, "Row");
    r
}

/// The field a column is stored in: the column's own name.
pub fn to_field_name(column_name: &str) -> (r: String)
    ensures
        r@ == column_name@,
{
    to_string(column_name)
}

/// The Rust type of a column: `INTEGER` is `i64` (`i32` for the two
/// installed flags), `TEXT` `String`, `REAL` `f64`, `BLOB` `Vec<u8>`, any
/// other type `String`; a nullable column's type is wrapped in `Option`.
pub open spec fn rust_type(sql_type: Seq<char>, not_null: bool, column: Seq<char>) -> Seq<char> {
    let t = if sql_type == "INTEGER"@ {
        if column == "tailscale_installed"@ || column == "portainer_installed"@ { "i32"@ } else { "i64"@ }
    } else if sql_type == "TEXT"@ {
        "String"@
    } else if sql_type == "REAL"@ {
        "f64"@
    } else if sql_type == "BLOB"@ {
        "Vec<u8>"@
    } else {
        "String"@
    };
    if not_null { t } else { "Option<"@ + t + ">"@ }
}

/// The Rust type of a column (see `rust_type`).
pub fn sql_type_to_rust(sql_type: &str, not_null: bool, column_name: &str) -> (r: String)
    ensures
        r@ == rust_type(sql_type@, not_null, column_name@),
{
    let t = if str_eq(sql_type, "INTEGER") {
        if str_eq(column_name, "tailscale_installed") || str_eq(column_name, "portainer_installed") {
            "i32"
        } else {
            "i64"
        }
    } else if str_eq(sql_type, "TEXT") {
        "String"
    } else if str_eq(sql_type, "REAL") {
        "f64"
    } else if str_eq(sql_type, "BLOB") {
        "Vec<u8>"
    } else {
        "String"
    };
    if not_null {
        to_string(t)
    } else {
        let mut r = to_string("Option<");
        push_str(&mut r, t);
        push_str(&mut r, ">");
        r
    }
}

/// The assignments an upsert makes: one line per data field.
pub open spec fn field_updates(fields: Seq<Seq<char>>) -> Seq<char>
    decreases fields.len(),
{
    if fields.len() == 0 {
        Seq::empty()
    } else {
        field_updates(fields.drop_last()) + "            row."@ + fields.last() + " = data."@ + fields.last()
            + ";\n"@
    }
}

/// The assignments an upsert makes (see `field_updates`).
pub fn generate_field_updates(fields: &Vec<String>) -> (r: String)
    ensures
        r@ == field_updates(views(fields@)),
{
    let ghost fv = views(fields@);
    let mut r = String::new();
    let mut i: usize = 0;
    while i < fields.len()
        invariant
            i <= fields@.len(),
            fv == views(fields@),
            r@ == field_updates(fv.take(i as int)),
        decreases fields@.len() - i,
    {
        proof {
            assert(fv.take(i + 1).drop_last() =~= fv.take(i as int));
            assert(fv.take(i + 1).last() == fields@[i as int]@);
        }
        push_str(&mut r, "            row.");
        push_str(&mut r, fields[i].as_str());
        push_str(&mut r, " = data.");
        push_str(&mut r, fields[i].as_str());
        push_str(&mut r, ";\n");
        i = i + 1;
    }
    assert(fv.take(fv.len() as int) =~= fv);
    r
}

} // verus!
