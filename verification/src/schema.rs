//! Table schemas and the SQL that brings one schema to another.
use vstd::prelude::*;
use crate::text::{copy_string, join, join_strings, lemma_views_push, push_str, str_eq, to_string, views};
use crate::config::opt_view;

verus! {

/// A column of a table.
#[derive(Debug)]
pub struct ColumnDef {
    pub name: String,
    pub sql_type: String,
    pub not_null: bool,
    pub default_value: Option<String>,
    pub primary_key: bool,
}

/// Mathematical view of a [`ColumnDef`].
pub struct ColumnModel {
    pub name: Seq<char>,
    pub sql_type: Seq<char>,
    pub not_null: bool,
    pub default_value: Option<Seq<char>>,
    pub primary_key: bool,
}

impl View for ColumnDef {
    type V = ColumnModel;

    open spec fn view(&self) -> ColumnModel {
        ColumnModel {
            name: self.name@,
            sql_type: self.sql_type@,
            not_null: self.not_null,
            default_value: opt_view(self.default_value),
            primary_key: self.primary_key,
        }
    }
}

/// A table and its columns, in declaration order.
#[derive(Debug)]
pub struct TableSchema {
    pub name: String,
    pub columns: Vec<ColumnDef>,
}

/// Mathematical view of a [`TableSchema`].
pub struct TableModel {
    pub name: Seq<char>,
    pub columns: Seq<ColumnModel>,
}

/// Views of columns.
pub open spec fn columns_view(v: Seq<ColumnDef>) -> Seq<ColumnModel> {
    v.map_values(|c: ColumnDef| c@)
}

impl View for TableSchema {
    type V = TableModel;

    open spec fn view(&self) -> TableModel {
        TableModel { name: self.name@, columns: columns_view(self.columns@) }
    }
}

/// Views of tables.
pub open spec fn tables_view(v: Seq<TableSchema>) -> Seq<TableModel> {
    v.map_values(|t: TableSchema| t@)
}

// ---------------------------------------------------------------------------
// Specification
// ---------------------------------------------------------------------------

/// ` NOT NULL` where the column requires a value.
pub open spec fn not_null_sql(c: ColumnModel) -> Seq<char> {
    if c.not_null {
        " NOT NULL"@
    } else {
        seq![]
    }
}

/// ` DEFAULT <value>` where the column has a default.
pub open spec fn default_sql(c: ColumnModel) -> Seq<char> {
    match c.default_value {
        Some(d) => " DEFAULT "@ + d,
        None => seq![],
    }
}

/// A column's definition inside `CREATE TABLE`.
pub open spec fn column_sql(c: ColumnModel) -> Seq<char> {
    c.name + " "@ + c.sql_type + not_null_sql(c) + (if c.primary_key {
        " PRIMARY KEY"@
    } else {
        seq![]
    }) + default_sql(c)
}

/// Column definitions of a table.
pub open spec fn columns_sql(cols: Seq<ColumnModel>) -> Seq<Seq<char>> {
    cols.map_values(|c: ColumnModel| column_sql(c))
}

/// Statement creating a table that does not exist.
pub open spec fn create_sql(t: TableModel) -> Seq<char> {
    "CREATE TABLE IF NOT EXISTS "@ + t.name + " ("@ + join(columns_sql(t.columns), ", "@) + ")"@
}

/// Statement dropping a table.
pub open spec fn drop_sql(t: TableModel) -> Seq<char> {
    "DROP TABLE IF EXISTS "@ + t.name
}

/// Some column of `cols` is named `n`.
pub open spec fn has_column(cols: Seq<ColumnModel>, n: Seq<char>) -> bool {
    exists|i: int| 0 <= i < cols.len() && (#[trigger] cols[i]).name == n
}

/// The last column of `cols` named `n` (columns are looked up by name, a later
/// definition replacing an earlier one).
pub open spec fn column_named(cols: Seq<ColumnModel>, n: Seq<char>) -> ColumnModel
    decreases cols.len(),
{
    if cols.len() == 0 {
        arbitrary()
    } else if cols.last().name == n {
        cols.last()
    } else {
        column_named(cols.drop_last(), n)
    }
}

/// Statement adding a column to table `table`.
pub open spec fn add_column_sql(table: Seq<char>, c: ColumnModel) -> Seq<char> {
    "ALTER TABLE "@ + table + " ADD COLUMN "@ + c.name + " "@ + c.sql_type + not_null_sql(c)
        + default_sql(c)
}

/// Note left in the rollback for an added column.
pub open spec fn drop_column_note(name: Seq<char>) -> Seq<char> {
    "-- Note: SQLite doesn't support DROP COLUMN. Manual intervention required for "@ + name
}

/// Warning for a column that the database has and the schema lacks.
pub open spec fn extra_column_warning(name: Seq<char>) -> Seq<char> {
    "-- Warning: Column "@ + name + " exists in database but not in struct. Manual removal required."@
}

/// The column names of `cols`, each once, in order of first appearance.
pub open spec fn distinct_names(cols: Seq<ColumnModel>) -> Seq<Seq<char>>
    decreases cols.len(),
{
    if cols.len() == 0 {
        seq![]
    } else {
        let r = distinct_names(cols.drop_last());
        if r.contains(cols.last().name) {
            r
        } else {
            r.push(cols.last().name)
        }
    }
}

/// Statements of the migration and its rollback that bring `actual` to `expected`:
/// a table that is missing is created (and dropped on rollback); for an existing
/// table, each column name of `expected` that `actual` lacks is added, and each
/// column name of `actual` that `expected` lacks gets a warning. Names are taken
/// in order of first appearance.
pub open spec fn schema_diff(expected: TableModel, actual: Option<TableModel>) -> (
    Seq<Seq<char>>,
    Seq<Seq<char>>,
) {
    match actual {
        None => (seq![create_sql(expected)], seq![drop_sql(expected)]),
        Some(a) => {
            let added = distinct_names(expected.columns).filter(
                |n: Seq<char>| !has_column(a.columns, n),
            );
            let extra = distinct_names(a.columns).filter(
                |n: Seq<char>| !has_column(expected.columns, n),
            );
            (
                added.map_values(|n: Seq<char>| add_column_sql(a.name, column_named(expected.columns, n)))
                    + extra.map_values(|n: Seq<char>| extra_column_warning(n)),
                added.map_values(|n: Seq<char>| drop_column_note(n)),
            )
        },
    }
}

/// The table of `tables` named `n`, if any (the first such).
pub open spec fn table_named(tables: Seq<TableModel>, n: Seq<char>) -> Option<TableModel>
    decreases tables.len(),
{
    if tables.len() == 0 {
        None
    } else if tables[0].name == n {
        Some(tables[0])
    } else {
        table_named(tables.drop_first(), n)
    }
}

/// The statements for all target tables, in order.
pub open spec fn all_diffs(current: Seq<TableModel>, target: Seq<TableModel>) -> (
    Seq<Seq<char>>,
    Seq<Seq<char>>,
)
    decreases target.len(),
{
    if target.len() == 0 {
        (seq![], seq![])
    } else {
        let prev = all_diffs(current, target.drop_last());
        let d = schema_diff(target.last(), table_named(current, target.last().name));
        (prev.0 + d.0, prev.1 + d.1)
    }
}

// ---------------------------------------------------------------------------
// Implementation
// ---------------------------------------------------------------------------

impl ColumnDef {
    /// A copy of this column.
    pub fn copy(&self) -> (r: ColumnDef)
        ensures
            r@ == self@,
    {
        ColumnDef {
            name: self.name.clone(),
            sql_type: self.sql_type.clone(),
            not_null: self.not_null,
            default_value: crate::config::copy_opt(&self.default_value),
            primary_key: self.primary_key,
        }
    }
}

impl TableSchema {
    /// A copy of this table.
    pub fn copy(&self) -> (r: TableSchema)
        ensures
            r@ == self@,
    {
        let mut cols: Vec<ColumnDef> = Vec::new();
        let mut i: usize = 0;
        while i < self.columns.len()
            invariant
                i <= self.columns@.len(),
                columns_view(cols@) == columns_view(self.columns@.take(i as int)),
            decreases self.columns@.len() - i,
        {
            cols.push(self.columns[i].copy());
            proof {
                assert(columns_view(self.columns@.take(i + 1)) =~= columns_view(
                    self.columns@.take(i as int),
                ).push(self.columns@[i as int]@));
                assert(columns_view(cols@) =~= columns_view(self.columns@.take(i as int)).push(
                    self.columns@[i as int]@,
                ));
            }
            i = i + 1;
        }
        assert(self.columns@.take(self.columns@.len() as int) =~= self.columns@);
        TableSchema { name: self.name.clone(), columns: cols }
    }
}

fn push_not_null_and_default(s: &mut String, c: &ColumnDef, pk: bool)
    ensures
        final(s)@ == old(s)@ + not_null_sql(c@) + (if pk {
            " PRIMARY KEY"@
        } else {
            seq![]
        }) + default_sql(c@),
{
    let ghost s0 = s@;
    if c.not_null {
        push_str(s, " NOT NULL");
    } else {
        assert(s@ == s0 + not_null_sql(c@));
    }
    let ghost s1 = s@;
    if pk {
        push_str(s, " PRIMARY KEY");
    } else {
        assert(s@ =~= s1 + Seq::<char>::empty());
    }
    let ghost s2 = s@;
    match &c.default_value {
        Some(d) => {
            push_str(s, " DEFAULT ");
            push_str(s, d.as_str());
            assert(s@ =~= s2 + (" DEFAULT "@ + d@));
        },
        None => {
            assert(s@ =~= s2 + Seq::<char>::empty());
        },
    }
    assert(s@ =~= s0 + not_null_sql(c@) + (if pk {
        " PRIMARY KEY"@
    } else {
        seq![]
    }) + default_sql(c@));
}

/// A column's definition inside `CREATE TABLE`.
fn column_definition(c: &ColumnDef) -> (r: String)
    ensures
        r@ == column_sql(c@),
{
    let mut s = c.name.clone();
    push_str(&mut s, " ");
    push_str(&mut s, c.sql_type.as_str());
    push_not_null_and_default(&mut s, c, c.primary_key);
    s
}

/// Whether some column of `cols` is named `n`.
fn has_column_exec(cols: &Vec<ColumnDef>, n: &str) -> (r: bool)
    ensures
        r == has_column(columns_view(cols@), n@),
{
    let mut i: usize = 0;
    while i < cols.len()
        invariant
            i <= cols@.len(),
            forall|j: int| 0 <= j < i ==> cols@[j].name@ != n@,
        decreases cols@.len() - i,
    {
        if str_eq(cols[i].name.as_str(), n) {
            assert(columns_view(cols@)[i as int].name == n@);
            return true;
        }
        i = i + 1;
    }
    assert forall|j: int| 0 <= j < columns_view(cols@).len() implies (#[trigger] columns_view(
        cols@,
    )[j]).name != n@ by {
        assert(columns_view(cols@)[j] == cols@[j]@);
    }
    false
}

/// Index of the last column named `n`.
fn last_column_named(cols: &Vec<ColumnDef>, n: &str) -> (r: usize)
    requires
        has_column(columns_view(cols@), n@),
    ensures
        r < cols@.len(),
        cols@[r as int]@ == column_named(columns_view(cols@), n@),
{
    let ghost cv = columns_view(cols@);
    let mut i: usize = cols.len();
    assert(cv.take(cols@.len() as int) =~= cv);
    while i > 0
        invariant
            i <= cols@.len(),
            cv == columns_view(cols@),
            has_column(cv.take(i as int), n@),
            column_named(cv, n@) == column_named(cv.take(i as int), n@),
        decreases i,
    {
        if str_eq(cols[i - 1].name.as_str(), n) {
            assert(cv.take(i as int).last() == cols@[i - 1]@);
            return i - 1;
        }
        proof {
            assert(cv.take(i as int).drop_last() =~= cv.take(i - 1));
            assert(cv.take(i as int).last() == cols@[i - 1]@);
            let w = choose|k: int| 0 <= k < cv.take(i as int).len() && (
            #[trigger] cv.take(i as int)[k]).name == n@;
            assert(w != i - 1);
            assert(cv.take(i - 1)[w] == cv.take(i as int)[w]);
        }
        i = i - 1;
    }
    assert(false);
    0
}

/// The column names of `cols`, each once, in order of first appearance.
fn distinct_column_names(cols: &Vec<ColumnDef>) -> (r: Vec<String>)
    ensures
        views(r@) == distinct_names(columns_view(cols@)),
{
    let ghost cv = columns_view(cols@);
    let mut r: Vec<String> = Vec::new();
    let mut i: usize = 0;
    while i < cols.len()
        invariant
            i <= cols@.len(),
            cv == columns_view(cols@),
            views(r@) == distinct_names(cv.take(i as int)),
        decreases cols@.len() - i,
    {
        let n = &cols[i].name;
        let mut seen = false;
        let mut k: usize = 0;
        while k < r.len()
            invariant
                k <= r@.len(),
                seen == exists|j: int| 0 <= j < k && r@[j]@ == n@,
            decreases r@.len() - k,
        {
            if str_eq(r[k].as_str(), n.as_str()) {
                seen = true;
            }
            k = k + 1;
        }
        proof {
            assert(cv.take(i + 1).drop_last() =~= cv.take(i as int));
            assert(cv.take(i + 1).last() == cols@[i as int]@);
            if seen {
                let j = choose|j: int| 0 <= j < r@.len() && r@[j]@ == n@;
                assert(views(r@)[j] == n@);
            } else {
                assert forall|j: int| 0 <= j < views(r@).len() implies views(r@)[j] != n@ by {
                    assert(views(r@)[j] == r@[j]@);
                }
            }
        }
        if !seen {
            let ghost before = r@;
            r.push(n.clone());
            assert(views(r@) =~= views(before).push(n@));
        }
        i = i + 1;
    }
    assert(cv.take(cols@.len() as int) =~= cv);
    r
}

/// The names of `names` that no column of `cols` has.
fn names_missing_from(names: &Vec<String>, cols: &Vec<ColumnDef>) -> (r: Vec<String>)
    ensures
        views(r@) == views(names@).filter(|n: Seq<char>| !has_column(columns_view(cols@), n)),
{
    let ghost p = |n: Seq<char>| !has_column(columns_view(cols@), n);
    let mut r: Vec<String> = Vec::new();
    let mut i: usize = 0;
    assert(views(names@).take(0).filter(p) =~= Seq::<Seq<char>>::empty()) by {
        reveal(Seq::filter);
    }
    while i < names.len()
        invariant
            i <= names@.len(),
            p == (|n: Seq<char>| !has_column(columns_view(cols@), n)),
            views(r@) == views(names@).take(i as int).filter(p),
        decreases names@.len() - i,
    {
        let present = has_column_exec(cols, names[i].as_str());
        proof {
            reveal(Seq::filter);
            assert(views(names@).take(i + 1).drop_last() =~= views(names@).take(i as int));
            assert(views(names@).take(i + 1).last() == names@[i as int]@);
        }
        if !present {
            let ghost before = r@;
            r.push(names[i].clone());
            assert(views(r@) =~= views(before).push(names@[i as int]@));
        }
        i = i + 1;
    }
    assert(views(names@).take(names@.len() as int) =~= views(names@));
    r
}

/// Compares a table's expected schema with the one in the database (if the
/// table exists there) and gives the statements of the migration and of its
/// rollback.
pub fn diff_schemas(expected: &TableSchema, actual: Option<&TableSchema>) -> (r: (
    Vec<String>,
    Vec<String>,
))
    ensures
        (views(r.0@), views(r.1@)) == schema_diff(
            expected@,
            match actual {
                Some(a) => Some(a@),
                None => None,
            },
        ),
{
    let mut up: Vec<String> = Vec::new();
    let mut down: Vec<String> = Vec::new();
    match actual {
        None => {
            let mut defs: Vec<String> = Vec::new();
            let mut i: usize = 0;
            while i < expected.columns.len()
                invariant
                    i <= expected.columns@.len(),
                    views(defs@) == columns_sql(columns_view(expected.columns@.take(i as int))),
                decreases expected.columns@.len() - i,
            {
                let d = column_definition(&expected.columns[i]);
                let ghost before = defs@;
                defs.push(d);
                proof {
                    assert(columns_sql(columns_view(expected.columns@.take(i + 1))) =~= columns_sql(
                        columns_view(expected.columns@.take(i as int)),
                    ).push(column_sql(expected.columns@[i as int]@)));
                    assert(views(defs@) =~= views(before).push(column_sql(
                        expected.columns@[i as int]@,
                    )));
                }
                i = i + 1;
            }
            assert(expected.columns@.take(expected.columns@.len() as int) =~= expected.columns@);
            let mut c = to_string("CREATE TABLE IF NOT EXISTS ");
            push_str(&mut c, expected.name.as_str());
            push_str(&mut c, " (");
            let joined = join_strings(&defs, ", ");
            push_str(&mut c, joined.as_str());
            push_str(&mut c, ")");
            up.push(c);
            let mut d = to_string("DROP TABLE IF EXISTS ");
            push_str(&mut d, expected.name.as_str());
            down.push(d);
            assert(views(up@) =~= seq![create_sql(expected@)]);
            assert(views(down@) =~= seq![drop_sql(expected@)]);
        },
        Some(a) => {
            let exp_names = distinct_column_names(&expected.columns);
            let added = names_missing_from(&exp_names, &a.columns);
            let act_names = distinct_column_names(&a.columns);
            let extra = names_missing_from(&act_names, &expected.columns);
            let ghost added_v = views(added@);
            let ghost extra_v = views(extra@);
            let ghost ecols = columns_view(expected.columns@);
            proof {
                assert forall|q: int| 0 <= q < added_v.len() implies has_column(
                    ecols,
                    #[trigger] added_v[q],
                ) by {
                    lemma_distinct_names_have_column(ecols, added_v[q]);
                    lemma_filter_member(
                        distinct_names(ecols),
                        |n: Seq<char>| !has_column(columns_view(a.columns@), n),
                        q,
                    );
                }
            }
            let mut i: usize = 0;
            while i < added.len()
                invariant
                    i <= added@.len(),
                    added_v == views(added@),
                    ecols == columns_view(expected.columns@),
                    forall|k: int| 0 <= k < added_v.len() ==> has_column(ecols, #[trigger] added_v[k]),
                    views(up@) == added_v.take(i as int).map_values(
                        |n: Seq<char>| add_column_sql(a@.name, column_named(ecols, n)),
                    ),
                    views(down@) == added_v.take(i as int).map_values(
                        |n: Seq<char>| drop_column_note(n),
                    ),
                decreases added@.len() - i,
            {
                let n = &added[i];
                assert(added_v[i as int] == n@);
                let j = last_column_named(&expected.columns, n.as_str());
                let col = &expected.columns[j];
                let mut s = to_string("ALTER TABLE ");
                push_str(&mut s, a.name.as_str());
                push_str(&mut s, " ADD COLUMN ");
                push_str(&mut s, col.name.as_str());
                push_str(&mut s, " ");
                push_str(&mut s, col.sql_type.as_str());
                push_not_null_and_default(&mut s, col, false);
                let ghost ub = up@;
                up.push(s);
                let mut note = to_string(
                    "-- Note: SQLite doesn't support DROP COLUMN. Manual intervention required for ",
                );
                push_str(&mut note, n.as_str());
                let ghost db = down@;
                down.push(note);
                proof {
                    assert(added_v.take(i + 1) =~= added_v.take(i as int).push(n@));
                    assert(col@ == column_named(ecols, n@));
                    assert(views(up@) =~= views(ub).push(add_column_sql(a@.name, col@)));
                    assert(views(down@) =~= views(db).push(drop_column_note(n@)));
                }
                i = i + 1;
            }
            let mut k: usize = 0;
            let ghost up_added = views(up@);
            while k < extra.len()
                invariant
                    k <= extra@.len(),
                    extra_v == views(extra@),
                    views(up@) == up_added + extra_v.take(k as int).map_values(
                        |n: Seq<char>| extra_column_warning(n),
                    ),
                decreases extra@.len() - k,
            {
                let mut w = to_string("-- Warning: Column ");
                push_str(&mut w, extra[k].as_str());
                push_str(
                    &mut w,
                    " exists in database but not in struct. Manual removal required.",
                );
                let ghost ub = up@;
                up.push(w);
                proof {
                    assert(extra_v[k as int] == extra@[k as int]@);
                    assert(extra_v.take(k + 1) =~= extra_v.take(k as int).push(extra_v[k as int]));
                    assert(views(up@) =~= views(ub).push(extra_column_warning(extra_v[k as int])));
                }
                k = k + 1;
            }
            proof {
                assert(added_v.take(added_v.len() as int) =~= added_v);
                assert(extra_v.take(extra_v.len() as int) =~= extra_v);
            }
        },
    }
    (up, down)
}

/// Members of `distinct_names` are column names.
pub proof fn lemma_distinct_names_have_column(cols: Seq<ColumnModel>, n: Seq<char>)
    ensures
        distinct_names(cols).contains(n) ==> has_column(cols, n),
    decreases cols.len(),
{
    if cols.len() > 0 {
        lemma_distinct_names_have_column(cols.drop_last(), n);
        if distinct_names(cols).contains(n) {
            if has_column(cols.drop_last(), n) {
                let i = choose|i: int| 0 <= i < cols.drop_last().len() && (
                #[trigger] cols.drop_last()[i]).name == n;
                assert(cols[i] == cols.drop_last()[i]);
            } else {
                let r = distinct_names(cols.drop_last());
                if !r.contains(n) {
                    assert(cols.last().name == n) by {
                        let j = choose|j: int| 0 <= j < distinct_names(cols).len()
                            && distinct_names(cols)[j] == n;
                        if !r.contains(cols.last().name) {
                            if j < r.len() {
                                assert(r[j] == n);
                            }
                        } else {
                            assert(r[j] == n);
                        }
                    }
                    assert(cols[cols.len() - 1].name == n);
                }
            }
        }
    }
}

/// A member of a filtered sequence is a member of the sequence.
pub proof fn lemma_filter_member(s: Seq<Seq<char>>, p: spec_fn(Seq<char>) -> bool, q: int)
    requires
        0 <= q < s.filter(p).len(),
    ensures
        s.contains(s.filter(p)[q]),
    decreases s.len(),
{
    reveal(Seq::filter);
    if s.len() > 0 {
        let f0 = s.drop_last().filter(p);
        if p(s.last()) {
            assert(s.filter(p) == f0.push(s.last()));
            if q < f0.len() {
                lemma_filter_member(s.drop_last(), p, q);
                let j = choose|j: int| 0 <= j < s.drop_last().len() && s.drop_last()[j] == f0[q];
                assert(s[j] == f0[q]);
            } else {
                assert(s[s.len() - 1] == s.filter(p)[q]);
            }
        } else {
            assert(s.filter(p) == f0);
            lemma_filter_member(s.drop_last(), p, q);
            let j = choose|j: int| 0 <= j < s.drop_last().len() && s.drop_last()[j] == f0[q];
            assert(s[j] == f0[q]);
        }
    }
}

/// Two tables have the same column names.
pub open spec fn same_column_names(a: TableModel, b: TableModel) -> bool {
    forall|n: Seq<char>| has_column(a.columns, n) <==> has_column(b.columns, n)
}

/// Every column name occurs in `distinct_names`.
pub proof fn lemma_column_in_distinct_names(cols: Seq<ColumnModel>, n: Seq<char>)
    requires
        has_column(cols, n),
    ensures
        distinct_names(cols).contains(n),
    decreases cols.len(),
{
    let r = distinct_names(cols.drop_last());
    if cols.last().name == n {
        if !r.contains(n) {
            assert(r.push(n)[r.len() as int] == n);
        }
    } else {
        let i = choose|i: int| 0 <= i < cols.len() && (#[trigger] cols[i]).name == n;
        assert(cols.drop_last()[i] == cols[i]);
        lemma_column_in_distinct_names(cols.drop_last(), n);
        let j = choose|j: int| 0 <= j < r.len() && r[j] == n;
        if !r.contains(cols.last().name) {
            assert(r.push(cols.last().name)[j] == n);
        }
    }
}

/// A table compared with one that has the same column names needs no
/// statement: changes of type, nullability or default are not migrated.
pub proof fn same_columns_no_diff(expected: TableModel, actual: TableModel)
    requires
        same_column_names(expected, actual),
    ensures
        schema_diff(expected, Some(actual)).0.len() == 0,
        schema_diff(expected, Some(actual)).1.len() == 0,
{
    let de = distinct_names(expected.columns);
    let da = distinct_names(actual.columns);
    let pa = |n: Seq<char>| !has_column(actual.columns, n);
    let pe = |n: Seq<char>| !has_column(expected.columns, n);
    assert forall|i: int| 0 <= i < de.len() implies !pa(de[i]) by {
        assert(de.contains(de[i]));
        lemma_distinct_names_have_column(expected.columns, de[i]);
    }
    assert forall|i: int| 0 <= i < da.len() implies !pe(da[i]) by {
        assert(da.contains(da[i]));
        lemma_distinct_names_have_column(actual.columns, da[i]);
    }
    de.lemma_all_neg_filter_empty(pa);
    da.lemma_all_neg_filter_empty(pe);
}

/// A table compared with one whose column names differ gets a statement:
/// an added column for each missing name, a warning for each extra one.
pub proof fn different_columns_diff(expected: TableModel, actual: TableModel)
    requires
        !same_column_names(expected, actual),
    ensures
        schema_diff(expected, Some(actual)).0.len() > 0,
{
    let n = choose|n: Seq<char>| !(has_column(expected.columns, n) <==> has_column(actual.columns, n));
    let pa = |m: Seq<char>| !has_column(actual.columns, m);
    let pe = |m: Seq<char>| !has_column(expected.columns, m);
    if has_column(expected.columns, n) {
        let de = distinct_names(expected.columns);
        lemma_column_in_distinct_names(expected.columns, n);
        let i = choose|i: int| 0 <= i < de.len() && de[i] == n;
        de.lemma_filter_contains(pa, i);
    } else {
        let da = distinct_names(actual.columns);
        lemma_column_in_distinct_names(actual.columns, n);
        let i = choose|i: int| 0 <= i < da.len() && da[i] == n;
        da.lemma_filter_contains(pe, i);
    }
}

/// The names of a list of columns, as a set.
pub open spec fn column_names(cols: Seq<ColumnModel>) -> Set<Seq<char>> {
    Set::new(|n: Seq<char>| has_column(cols, n))
}

/// `distinct_names` repeats no name, and holds exactly the column names.
pub proof fn lemma_distinct_names_set(cols: Seq<ColumnModel>)
    ensures
        distinct_names(cols).no_duplicates(),
        distinct_names(cols).to_set() == column_names(cols),
    decreases cols.len(),
{
    if cols.len() > 0 {
        lemma_distinct_names_set(cols.drop_last());
        let r = distinct_names(cols.drop_last());
        if !r.contains(cols.last().name) {
            let t = r.push(cols.last().name);
            assert forall|i: int, j: int| 0 <= i < t.len() && 0 <= j < t.len() && i != j implies t[i] != t[j] by {
                if i == r.len() {
                    assert(t[j] == r[j]);
                    if r[j] == t[i] {
                        assert(r.contains(t[i]));
                    }
                } else if j == r.len() {
                    assert(t[i] == r[i]);
                    if r[i] == t[j] {
                        assert(r.contains(t[j]));
                    }
                } else {
                    assert(r[i] == t[i] && r[j] == t[j]);
                }
            }
        }
    }
    assert forall|n: Seq<char>| distinct_names(cols).to_set().contains(n) <==> column_names(cols).contains(n) by {
        lemma_distinct_names_have_column(cols, n);
        if has_column(cols, n) {
            lemma_column_in_distinct_names(cols, n);
        }
    }
    assert(distinct_names(cols).to_set() =~= column_names(cols));
}

/// Filtering keeps a sequence free of repeats.
pub proof fn lemma_filter_no_duplicates(s: Seq<Seq<char>>, p: spec_fn(Seq<char>) -> bool)
    requires
        s.no_duplicates(),
    ensures
        s.filter(p).no_duplicates(),
    decreases s.len(),
{
    reveal(Seq::filter);
    if s.len() > 0 {
        let d = s.drop_last();
        assert(d.no_duplicates()) by {
            assert forall|i: int, j: int| 0 <= i < d.len() && 0 <= j < d.len() && i != j implies d[i] != d[j] by {
                assert(d[i] == s[i] && d[j] == s[j]);
            }
        }
        lemma_filter_no_duplicates(d, p);
        let f = d.filter(p);
        if p(s.last()) {
            assert(s.filter(p) == f.push(s.last()));
            let t = f.push(s.last());
            assert forall|i: int, j: int| 0 <= i < t.len() && 0 <= j < t.len() && i != j implies t[i] != t[j] by {
                if i == f.len() || j == f.len() {
                    let k = if i == f.len() { j } else { i };
                    assert(t[k] == f[k]);
                    assert(f.contains(f[k]));
                    d.lemma_filter_contains_rev(p, f[k]);
                    if f[k] == s.last() {
                        let m = choose|m: int| 0 <= m < d.len() && d[m] == f[k];
                        assert(s[m] == s[s.len() - 1]);
                    }
                } else {
                    assert(t[i] == f[i] && t[j] == f[j]);
                }
            }
        } else {
            assert(s.filter(p) == f);
        }
    }
}

/// The members of a filtered sequence without repeats, as a set.
proof fn lemma_filter_set(s: Seq<Seq<char>>, p: spec_fn(Seq<char>) -> bool)
    ensures
        s.filter(p).to_set() == s.to_set().filter(p),
{
    assert forall|x: Seq<char>| s.filter(p).to_set().contains(x) <==> s.to_set().filter(p).contains(x) by {
        if s.filter(p).contains(x) {
            s.lemma_filter_contains_rev(p, x);
            let k = choose|k: int| 0 <= k < s.filter(p).len() && s.filter(p)[k] == x;
            s.lemma_filter_pred(p, k);
        }
        if s.contains(x) && p(x) {
            let k = choose|k: int| 0 <= k < s.len() && s[k] == x;
            s.lemma_filter_contains(p, k);
        }
    }
    assert(s.filter(p).to_set() =~= s.to_set().filter(p));
}

/// Comparing a table with the one in the database gives one rollback note
/// per column name that the database lacks, and one statement per such name
/// plus one warning per column name that only the database has.
pub proof fn schema_diff_counts(expected: TableModel, actual: TableModel)
    ensures
        column_names(expected.columns).finite(),
        column_names(actual.columns).finite(),
        schema_diff(expected, Some(actual)).1.len() == column_names(expected.columns).difference(
            column_names(actual.columns),
        ).len(),
        schema_diff(expected, Some(actual)).0.len() == column_names(expected.columns).difference(
            column_names(actual.columns),
        ).len() + column_names(actual.columns).difference(column_names(expected.columns)).len(),
{
    let e = column_names(expected.columns);
    let a = column_names(actual.columns);
    let de = distinct_names(expected.columns);
    let da = distinct_names(actual.columns);
    lemma_distinct_names_set(expected.columns);
    lemma_distinct_names_set(actual.columns);
    let pa = |n: Seq<char>| !has_column(actual.columns, n);
    let pe = |n: Seq<char>| !has_column(expected.columns, n);
    let added = de.filter(pa);
    let extra = da.filter(pe);
    lemma_filter_no_duplicates(de, pa);
    lemma_filter_no_duplicates(da, pe);
    lemma_filter_set(de, pa);
    lemma_filter_set(da, pe);
    added.unique_seq_to_set();
    extra.unique_seq_to_set();
    vstd::seq_lib::seq_to_set_is_finite(de);
    vstd::seq_lib::seq_to_set_is_finite(da);
    assert(e.filter(pa) =~= e.difference(a));
    assert(a.filter(pe) =~= a.difference(e));
}

/// Table `t` exists in `current` with the same column names.
pub open spec fn table_unchanged(current: Seq<TableModel>, t: TableModel) -> bool {
    table_named(current, t.name) matches Some(c) && same_column_names(t, c)
}

/// No statement is needed for the target tables exactly when each of them
/// exists in the current schema with the same column names; tables only in
/// the current schema are left alone.
pub proof fn no_migration_iff_tables_match(current: Seq<TableModel>, target: Seq<TableModel>)
    ensures
        (all_diffs(current, target).0.len() == 0 && all_diffs(current, target).1.len() == 0) <==> forall|i: int|
            0 <= i < target.len() ==> table_unchanged(current, #[trigger] target[i]),
    decreases target.len(),
{
    if target.len() > 0 {
        let prev = target.drop_last();
        no_migration_iff_tables_match(current, prev);
        let t = target.last();
        let found = table_named(current, t.name);
        let d = schema_diff(t, found);
        match found {
            Some(c) => {
                if same_column_names(t, c) {
                    same_columns_no_diff(t, c);
                } else {
                    different_columns_diff(t, c);
                }
            },
            None => {},
        }
        assert(table_unchanged(current, t) <==> (d.0.len() == 0 && d.1.len() == 0));
        let all_t = forall|i: int| 0 <= i < target.len() ==> table_unchanged(current, #[trigger] target[i]);
        let all_p = forall|i: int| 0 <= i < prev.len() ==> table_unchanged(current, #[trigger] prev[i]);
        assert(all_t <==> all_p && table_unchanged(current, t)) by {
            if all_t {
                assert forall|i: int| 0 <= i < prev.len() implies table_unchanged(current, #[trigger] prev[i]) by {
                    assert(prev[i] == target[i]);
                }
                assert(table_unchanged(current, target[target.len() - 1]));
            }
            if all_p && table_unchanged(current, t) {
                assert forall|i: int| 0 <= i < target.len() implies table_unchanged(current, #[trigger] target[i]) by {
                    if i < prev.len() {
                        assert(prev[i] == target[i]);
                    }
                }
            }
        }
    }
}

/// Compares whole database schemas: the statements for every target table in
/// turn, or nothing when there is nothing to do.
pub fn generate_migration_from_schema_diff(
    current_schema: &Vec<TableSchema>,
    target_schema: &Vec<TableSchema>,
) -> (r: Option<(Vec<String>, Vec<String>)>)
    ensures
        ({
            let d = all_diffs(tables_view(current_schema@), tables_view(target_schema@));
            match r {
                None => d.0.len() == 0 && d.1.len() == 0,
                Some((u, w)) => (views(u@), views(w@)) == d && (d.0.len() > 0 || d.1.len() > 0),
            }
        }),
{
    let ghost cv = tables_view(current_schema@);
    let ghost tv = tables_view(target_schema@);
    let mut ups: Vec<String> = Vec::new();
    let mut downs: Vec<String> = Vec::new();
    let mut i: usize = 0;
    while i < target_schema.len()
        invariant
            i <= target_schema@.len(),
            cv == tables_view(current_schema@),
            tv == tables_view(target_schema@),
            (views(ups@), views(downs@)) == all_diffs(cv, tv.take(i as int)),
        decreases target_schema@.len() - i,
    {
        let t = &target_schema[i];
        let cur = find_table(current_schema, t.name.as_str());
        let (u, w) = match cur {
            Some(j) => diff_schemas(t, Some(&current_schema[j])),
            None => diff_schemas(t, None),
        };
        let ghost ub = ups@;
        let ghost wb = downs@;
        let mut a: usize = 0;
        while a < u.len()
            invariant
                a <= u@.len(),
                views(ups@) == views(ub) + views(u@).take(a as int),
            decreases u@.len() - a,
        {
            let ghost before = ups@;
            ups.push(copy_string(&u[a]));
            proof {
                lemma_views_push(before, ups@[before.len() as int]);
                assert(ups@ == before.push(ups@[before.len() as int]));
                assert(views(u@).take(a + 1) =~= views(u@).take(a as int).push(u@[a as int]@));
                assert(views(ups@) =~= views(ub) + views(u@).take(a + 1));
            }
            a = a + 1;
        }
        let mut b: usize = 0;
        while b < w.len()
            invariant
                b <= w@.len(),
                views(downs@) == views(wb) + views(w@).take(b as int),
            decreases w@.len() - b,
        {
            let ghost before = downs@;
            downs.push(copy_string(&w[b]));
            proof {
                lemma_views_push(before, downs@[before.len() as int]);
                assert(downs@ == before.push(downs@[before.len() as int]));
                assert(views(w@).take(b + 1) =~= views(w@).take(b as int).push(w@[b as int]@));
                assert(views(downs@) =~= views(wb) + views(w@).take(b + 1));
            }
            b = b + 1;
        }
        proof {
            assert(views(u@).take(u@.len() as int) =~= views(u@));
            assert(views(w@).take(w@.len() as int) =~= views(w@));
            assert(tv.take(i + 1).drop_last() =~= tv.take(i as int));
            assert(tv.take(i + 1).last() == t@);
        }
        i = i + 1;
    }
    assert(tv.take(tv.len() as int) =~= tv);
    if ups.len() == 0 && downs.len() == 0 {
        None
    } else {
        Some((ups, downs))
    }
}

/// Index of the first table named `n`.
fn find_table(tables: &Vec<TableSchema>, n: &str) -> (r: Option<usize>)
    ensures
        match r {
            Some(j) => j < tables@.len() && table_named(tables_view(tables@), n@) == Some(
                tables@[j as int]@,
            ),
            None => table_named(tables_view(tables@), n@) is None,
        },
{
    let ghost tv = tables_view(tables@);
    let mut i: usize = 0;
    assert(tv.skip(0) =~= tv);
    while i < tables.len()
        invariant
            i <= tables@.len(),
            tv == tables_view(tables@),
            table_named(tv, n@) == table_named(tv.skip(i as int), n@),
        decreases tables@.len() - i,
    {
        assert(tv.skip(i as int)[0] == tables@[i as int]@);
        if str_eq(tables[i].name.as_str(), n) {
            return Some(i);
        }
        assert(tv.skip(i as int).drop_first() =~= tv.skip(i + 1));
        i = i + 1;
    }
    None
}

/// `CREATE TABLE IF NOT EXISTS <name> (<id, created_at, updated_at>, <columns>)`.
pub open spec fn create_table_statement(table_name: Seq<char>, columns: Seq<Seq<char>>) -> Seq<char> {
    "CREATE TABLE IF NOT EXISTS "@ + table_name + " ("@ + join(
        seq!["id TEXT PRIMARY KEY"@, "created_at INTEGER NOT NULL"@, "updated_at INTEGER NOT NULL"@]
            + columns,
        ", "@,
    ) + ")"@
}

/// Creation SQL for a table with the standard id and timestamp columns
/// followed by the given column definitions.
pub fn create_table_sql(table_name: &str, columns: &Vec<String>) -> (r: String)
    ensures
        r@ == create_table_statement(table_name@, views(columns@)),
{
    let mut cols: Vec<String> = Vec::new();
    cols.push(to_string("id TEXT PRIMARY KEY"));
    cols.push(to_string("created_at INTEGER NOT NULL"));
    cols.push(to_string("updated_at INTEGER NOT NULL"));
    let ghost head = views(cols@);
    let mut i: usize = 0;
    while i < columns.len()
        invariant
            i <= columns@.len(),
            views(cols@) == head + views(columns@).take(i as int),
        decreases columns@.len() - i,
    {
        let ghost before = cols@;
        cols.push(copy_string(&columns[i]));
        proof {
            lemma_views_push(before, cols@[before.len() as int]);
            assert(cols@ == before.push(cols@[before.len() as int]));
            assert(views(columns@).take(i + 1) =~= views(columns@).take(i as int).push(
                columns@[i as int]@,
            ));
            assert(views(cols@) =~= head + views(columns@).take(i + 1));
        }
        i = i + 1;
    }
    assert(views(columns@).take(columns@.len() as int) =~= views(columns@));
    assert(head =~= seq![
        "id TEXT PRIMARY KEY"@,
        "created_at INTEGER NOT NULL"@,
        "updated_at INTEGER NOT NULL"@,
    ]);
    let mut s = to_string("CREATE TABLE IF NOT EXISTS ");
    push_str(&mut s, table_name);
    push_str(&mut s, " (");
    let j = join_strings(&cols, ", ");
    push_str(&mut s, j.as_str());
    push_str(&mut s, ")");
    s
}

} // verus!
