//! Numbering and naming of new migration files, and the routing of the `db`
//! and `db migrate` subcommands.
use vstd::prelude::*;
use crate::commands::{DbCommands, MigrateCommands};
use crate::text::{
    chars_of, decimal, decimal_string, ends_with, find_char, has_suffix, index_of, join,
    join_strings, lemma_index_of, lowercase, parse_u32, parse_u32_str, push_char, push_str,
    str_eq, string_of, string_of_range, to_lowercase, to_string, views, zero_pad,
};

verus! {

/// What `db migrate ...` runs.
#[derive(PartialEq, Eq, Debug)]
pub enum MigrateAction {
    Up,
    Down,
    List,
    Generate { description: Vec<String> },
}

/// Routes a `db migrate` subcommand; the short form of `generate` is the
/// same operation.
pub fn handle_migrate_command(command: MigrateCommands) -> (r: MigrateAction)
    ensures
        r == (match command {
            MigrateCommands::Up => MigrateAction::Up,
            MigrateCommands::Down => MigrateAction::Down,
            MigrateCommands::List => MigrateAction::List,
            MigrateCommands::Generate { description } => MigrateAction::Generate { description },
            MigrateCommands::GenerateShort { description } => MigrateAction::Generate { description },
        }),
{
    match command {
        MigrateCommands::Up => MigrateAction::Up,
        MigrateCommands::Down => MigrateAction::Down,
        MigrateCommands::List => MigrateAction::List,
        MigrateCommands::Generate { description } => MigrateAction::Generate { description },
        MigrateCommands::GenerateShort { description } => MigrateAction::Generate { description },
    }
}

/// What a `db` subcommand runs.
#[derive(PartialEq, Eq, Debug)]
pub enum DbAction {
    GenerateStructs,
    Backup { path: Option<String> },
    /// Apply every pending migration.
    MigrateAll,
    Migrate(MigrateAction),
    SyncFromEnv,
    Restore,
}

/// Routes a `db` subcommand; `migrate` without a subcommand applies every
/// pending migration.
pub fn handle_db_command(command: DbCommands) -> (r: DbAction)
    ensures
        r == (match command {
            DbCommands::Generate => DbAction::GenerateStructs,
            DbCommands::Backup { path } => DbAction::Backup { path },
            DbCommands::Migrate { command: None } => DbAction::MigrateAll,
            DbCommands::Migrate { command: Some(c) } => DbAction::Migrate(match c {
                MigrateCommands::Up => MigrateAction::Up,
                MigrateCommands::Down => MigrateAction::Down,
                MigrateCommands::List => MigrateAction::List,
                MigrateCommands::Generate { description } => MigrateAction::Generate { description },
                MigrateCommands::GenerateShort { description } => MigrateAction::Generate { description },
            }),
            DbCommands::Sync => DbAction::SyncFromEnv,
            DbCommands::Restore => DbAction::Restore,
        }),
{
    match command {
        DbCommands::Generate => DbAction::GenerateStructs,
        DbCommands::Backup { path } => DbAction::Backup { path },
        DbCommands::Migrate { command } => match command {
            None => DbAction::MigrateAll,
            Some(c) => DbAction::Migrate(handle_migrate_command(c)),
        },
        DbCommands::Sync => DbAction::SyncFromEnv,
        DbCommands::Restore => DbAction::Restore,
    }
}

/// `s` with every trailing `.rs` removed (`str::trim_end_matches(".rs")`).
pub open spec fn trim_rs(s: Seq<char>) -> Seq<char>
    decreases s.len(),
{
    if s.len() >= 3 && has_suffix(s, ".rs"@) {
        trim_rs(s.take(s.len() - 3))
    } else {
        s
    }
}

/// The text before the first `_` (all of it when there is none).
pub open spec fn before_underscore(s: Seq<char>) -> Seq<char> {
    let i = index_of(s, '_');
    if i < 0 { s } else { s.take(i) }
}

/// The version number a file of the migrations directory declares: a Rust
/// file other than `mod.rs` whose name starts with a number before `_`.
pub open spec fn file_version(name: Seq<char>) -> Option<u32> {
    if has_suffix(name, ".rs"@) && name != "mod.rs"@ {
        parse_u32(before_underscore(trim_rs(name)))
    } else {
        None
    }
}

/// The highest version among the files, 0 when there is none.
pub open spec fn max_version(names: Seq<Seq<char>>) -> u32
    decreases names.len(),
{
    if names.len() == 0 {
        0
    } else {
        let m = max_version(names.drop_last());
        match file_version(names.last()) {
            Some(v) => if v > m { v } else { m },
            None => m,
        }
    }
}

fn trim_rs_exec(s: &str) -> (r: String)
    ensures
        r@ == trim_rs(s@),
{
    let v = chars_of(s);
    let mut n: usize = v.len();
    assert(v@.take(n as int) =~= s@);
    loop
        invariant_except_break
            n <= v@.len(),
            v@ == s@,
            trim_rs(s@) == trim_rs(v@.take(n as int)),
        ensures
            n <= v@.len(),
            trim_rs(s@) == v@.take(n as int),
        decreases n,
    {
        proof {
            reveal_strlit(".rs");
        }
        let ghost t = v@.take(n as int);
        if n >= 3 && v[n - 1] == 's' && v[n - 2] == 'r' && v[n - 3] == '.' {
            proof {
                assert(t.skip(t.len() - 3) =~= ".rs"@);
                assert(t.take(t.len() - 3) =~= v@.take(n - 3));
            }
            n = n - 3;
        } else {
            proof {
                if t.len() >= 3 && has_suffix(t, ".rs"@) {
                    assert(t.skip(t.len() - 3)[0] == '.');
                    assert(t.skip(t.len() - 3)[1] == 'r');
                    assert(t.skip(t.len() - 3)[2] == 's');
                }
            }
            break;
        }
    }
    string_of_range(&v, 0, n)
}

/// The version a file name declares.
pub fn version_of_file(name: &str) -> (r: Option<u32>)
    ensures
        r == file_version(name@),
{
    if !ends_with(name, ".rs") || str_eq(name, "mod.rs") {
        return None;
    }
    let t = trim_rs_exec(name);
    let v = chars_of(t.as_str());
    let first = match find_char(&v, '_') {
        Some(i) => {
            proof {
                lemma_index_of(v@, '_');
            }
            string_of_range(&v, 0, i)
        },
        None => string_of(&v),
    };
    proof {
        if index_of(v@, '_') < 0 {
            assert(first@ =~= t@);
        } else {
            assert(first@ =~= t@.take(index_of(t@, '_')));
        }
    }
    parse_u32_str(first.as_str())
}

/// The highest version declared by the files of the migrations directory.
pub fn highest_migration_version(names: &Vec<String>) -> (r: u32)
    ensures
        r == max_version(views(names@)),
{
    let mut m: u32 = 0;
    let mut i: usize = 0;
    while i < names.len()
        invariant
            i <= names@.len(),
            m == max_version(views(names@).take(i as int)),
        decreases names@.len() - i,
    {
        let v = version_of_file(names[i].as_str());
        proof {
            let vs = views(names@);
            assert(vs.take(i + 1).drop_last() =~= vs.take(i as int));
            assert(vs.take(i + 1).last() == names@[i as int]@);
        }
        match v {
            Some(x) => {
                if x > m {
                    m = x;
                }
            },
            None => {},
        }
        i = i + 1;
    }
    assert(views(names@).take(names@.len() as int) =~= views(names@));
    m
}

/// Why no migration file could be named.
#[derive(PartialEq, Eq, Structural, Debug)]
pub enum MigrationNameError {
    /// No description words were given.
    MissingDescription,
}

/// The name part of a migration file: the description words joined with
/// `_`, lower-cased, spaces turned into `_`.
pub open spec fn migration_slug(words: Seq<Seq<char>>) -> Seq<char> {
    lowercase(join(words, "_"@)).map_values(|c: char| if c == ' ' { '_' } else { c })
}

/// The name part of a new migration file.
pub fn migration_description(description: &Vec<String>) -> (r: Result<String, MigrationNameError>)
    ensures
        match r {
            Ok(s) => description@.len() > 0 && s@ == migration_slug(views(description@)),
            Err(e) => e == MigrationNameError::MissingDescription && description@.len() == 0,
        },
{
    if description.len() == 0 {
        return Err(MigrationNameError::MissingDescription);
    }
    let joined = join_strings(description, "_");
    let lowered = to_lowercase(joined.as_str());
    let v = chars_of(lowered.as_str());
    let mut r = String::new();
    let mut i: usize = 0;
    while i < v.len()
        invariant
            i <= v@.len(),
            v@ == lowercase(join(views(description@), "_"@)),
            r@ == v@.take(i as int).map_values(|c: char| if c == ' ' { '_' } else { c }),
        decreases v@.len() - i,
    {
        let c = v[i];
        if c == ' ' {
            push_char(&mut r, '_');
        } else {
            push_char(&mut r, c);
        }
        assert(v@.take(i + 1).map_values(|c: char| if c == ' ' { '_' } else { c }) =~= v@.take(
            i as int,
        ).map_values(|c: char| if c == ' ' { '_' } else { c }).push(if c == ' ' { '_' } else { c }));
        i = i + 1;
    }
    assert(v@.take(v@.len() as int) =~= v@);
    Ok(r)
}

/// `s` padded on the left with `0` to at least `w` characters.
pub fn zero_padded(s: &str, w: usize) -> (r: String)
    ensures
        r@ == zero_pad(s@, w as nat),
{
    let n = s.unicode_len();
    if n >= w {
        return to_string(s);
    }
    let mut r = String::new();
    let mut i: usize = 0;
    while i < w - n
        invariant
            n < w,
            n == s@.len(),
            i <= w - n,
            r@ == Seq::new(i as nat, |k: int| '0'),
        decreases w - n - i,
    {
        push_char(&mut r, '0');
        assert(r@ =~= Seq::new((i + 1) as nat, |k: int| '0'));
        i = i + 1;
    }
    push_str(&mut r, s);
    r
}

/// The file name of the next migration: the version after `max_version`,
/// three digits at least, then `_`, the description and `.rs`.
pub fn next_migration_file_name(max_version: u32, desc: &str) -> (r: String)
    requires
        max_version < u32::MAX,
    ensures
        r@ == zero_pad(decimal((max_version + 1) as nat), 3) + "_"@ + desc@ + ".rs"@,
{
    let next: u32 = max_version + 1;
    let digits = decimal_string(next as u64);
    let mut r = zero_padded(digits.as_str(), 3);
    push_str(&mut r, "_");
    push_str(&mut r, desc);
    push_str(&mut r, ".rs");
    r
}

/// `s` with every `_` shown as a space.
pub open spec fn spaced(s: Seq<char>) -> Seq<char> {
    s.map_values(|c: char| if c == '_' { ' ' } else { c })
}

fn spaced_exec(s: &str) -> (r: String)
    ensures
        r@ == spaced(s@),
{
    let v = chars_of(s);
    let mut r = String::new();
    let mut i: usize = 0;
    while i < v.len()
        invariant
            i <= v@.len(),
            v@ == s@,
            r@ == spaced(v@.take(i as int)),
        decreases v@.len() - i,
    {
        let c = v[i];
        if c == '_' {
            push_char(&mut r, ' ');
        } else {
            push_char(&mut r, c);
        }
        assert(spaced(v@.take(i + 1)) =~= spaced(v@.take(i as int)).push(if c == '_' { ' ' } else { c }));
        i = i + 1;
    }
    assert(v@.take(v@.len() as int) =~= v@);
    r
}

/// The body of a new migration whose steps are still to be written.
pub open spec fn migration_template(version: Seq<char>, desc: Seq<char>) -> Seq<char> {
    "use anyhow::{Context, Result};\nuse rusqlite::Connection;\n\n/// Migration "@ + version + ": "@
        + spaced(desc)
        + "\npub fn up(conn: &Connection) -> Result<()> {\n    // TODO: Implement migration\n    // Example:\n    // conn.execute(\n    //     \"CREATE TABLE IF NOT EXISTS example (\n    //         id TEXT PRIMARY KEY,\n    //         name TEXT NOT NULL,\n    //         created_at INTEGER NOT NULL,\n    //         updated_at INTEGER NOT NULL\n    //     )\",\n    //     [],\n    // )\n    // .context(\"Failed to create example table\")?;\n    \n    Ok(())\n\n}\n\n/// Rollback: Undo "@
        + spaced(desc)
        + "\npub fn down(conn: &Connection) -> Result<()> {\n    // TODO: Implement rollback\n    // Example:\n    // conn.execute(\"DROP TABLE IF EXISTS example\", [])\n    //     .context(\"Failed to drop example table\")?;\n    \n    Ok(())\n\n}\n"@
}

/// The text of a new migration file numbered after `max_version`.
pub fn migration_file_content(max_version: u32, desc: &str) -> (r: String)
    requires
        max_version < u32::MAX,
    ensures
        r@ == migration_template(zero_pad(decimal((max_version + 1) as nat), 3), desc@),
{
    let next: u32 = max_version + 1;
    let digits = decimal_string(next as u64);
    let version = zero_padded(digits.as_str(), 3);
    let sp = spaced_exec(desc);
    let mut r = to_string("use anyhow::{Context, Result};\nuse rusqlite::Connection;\n\n/// Migration ");
    push_str(&mut r, version.as_str());
    push_str(&mut r, ": ");
    push_str(&mut r, sp.as_str());
    push_str(&mut r, "\npub fn up(conn: &Connection) -> Result<()> {\n    // TODO: Implement migration\n    // Example:\n    // conn.execute(\n    //     \"CREATE TABLE IF NOT EXISTS example (\n    //         id TEXT PRIMARY KEY,\n    //         name TEXT NOT NULL,\n    //         created_at INTEGER NOT NULL,\n    //         updated_at INTEGER NOT NULL\n    //     )\",\n    //     [],\n    // )\n    // .context(\"Failed to create example table\")?;\n    \n    Ok(())\n\n}\n\n/// Rollback: Undo ");
    push_str(&mut r, sp.as_str());
    push_str(&mut r, "\npub fn down(conn: &Connection) -> Result<()> {\n    // TODO: Implement rollback\n    // Example:\n    // conn.execute(\"DROP TABLE IF EXISTS example\", [])\n    //     .context(\"Failed to drop example table\")?;\n    \n    Ok(())\n\n}\n");
    r
}

} // verus!
