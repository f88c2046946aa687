//! The lines of the configuration reports: values from the `.env` file set
//! against those in the database, differences per host, other environment
//! values, and the checks a configuration must pass.
use vstd::prelude::*;
use crate::config::{EnvConfig, HostConfig, HostModel, opt_view};
use crate::discovery::{lemma_text_lt_irreflexive, lemma_text_lt_total, lemma_text_lt_transitive, text_lt};
use crate::text::{
    chars_of, contains_seq, contains_str, has_prefix, join, join_strings, lowercase, push_str, starts_with, str_eq,
    to_lowercase, to_string, utf8_len, vec_contains_str, views,
};

verus! {

/// How a database value compares with the `.env` value.
pub open spec fn db_status(env: Seq<char>, db: Option<Seq<char>>) -> Seq<char> {
    match db {
        Some(d) => if d == env { " [db: match]"@ } else { " [db: mismatch]"@ },
        None => " [db: missing]"@,
    }
}

fn db_status_exec(env: &str, db: Option<&str>) -> (r: &'static str)
    ensures
        r@ == db_status(env@, match db {
            Some(d) => Some(d@),
            None => None,
        }),
{
    match db {
        Some(d) => if str_eq(d, env) { " [db: match]" } else { " [db: mismatch]" },
        None => " [db: missing]",
    }
}

/// The optional text as plain values.
pub open spec fn opt_str(o: Option<&str>) -> Option<Seq<char>> {
    match o {
        Some(s) => Some(s@),
        None => None,
    }
}

/// The report line of one value: the `.env` value with how the database
/// compares, or the database value alone when the `.env` file lacks it,
/// or no line when neither has one.
pub open spec fn compared_line(label: Seq<char>, env: Option<Seq<char>>, db: Option<Seq<char>>) -> Option<Seq<char>> {
    match env {
        Some(e) => Some(label + ": "@ + e + db_status(e, db)),
        None => match db {
            Some(d) => Some(label + ": (env missing) [db: "@ + d + "]"@),
            None => None,
        },
    }
}

/// The report line of one value (see `compared_line`).
pub fn compare_values(label: &str, env: Option<&str>, db: Option<&str>) -> (r: Option<String>)
    ensures
        match r {
            Some(l) => compared_line(label@, opt_str(env), opt_str(db)) == Some(l@),
            None => compared_line(label@, opt_str(env), opt_str(db)) is None,
        },
{
    match env {
        Some(e) => {
            let mut l = to_string(label);
            push_str(&mut l, ": ");
            push_str(&mut l, e);
            push_str(&mut l, db_status_exec(e, db));
            Some(l)
        },
        None => match db {
            Some(d) => {
                let mut l = to_string(label);
                push_str(&mut l, ": (env missing) [db: ");
                push_str(&mut l, d);
                push_str(&mut l, "]");
                Some(l)
            },
            None => None,
        },
    }
}

/// The report line of a value that is always shown: as `compared_line`, or
/// `(not set)` when neither side has it.
pub fn compare_or_unset(label: &str, env: Option<&str>, db: Option<&str>) -> (r: String)
    ensures
        r@ == (match compared_line(label@, opt_str(env), opt_str(db)) {
            Some(l) => l,
            None => label@ + ": (not set)"@,
        }),
{
    match compare_values(label, env, db) {
        Some(l) => l,
        None => {
            let mut l = to_string(label);
            push_str(&mut l, ": (not set)");
            l
        },
    }
}

/// How two hidden values compare.
pub open spec fn hidden_status(env: Option<Seq<char>>, db: Option<Seq<char>>) -> Seq<char> {
    match (env, db) {
        (Some(p), Some(d)) => if p == d { " [db: match]"@ } else { " [db: mismatch]"@ },
        (Some(_), None) => " [db: missing]"@,
        (None, Some(_)) => " [env missing]"@,
        (None, None) => ""@,
    }
}

/// The report line of a password shown masked: `***` when the `.env` file
/// has one, `(not set)` otherwise, then how the database compares.
pub fn hidden_line(label: &str, env: Option<&str>, db: Option<&str>) -> (r: String)
    ensures
        r@ == label@ + ": "@ + (if env is Some { "***"@ } else { "(not set)"@ }) + hidden_status(
            opt_str(env),
            opt_str(db),
        ),
{
    let mut l = to_string(label);
    push_str(&mut l, ": ");
    push_str(&mut l, if env.is_some() { "***" } else { "(not set)" });
    let status = match (env, db) {
        (Some(p), Some(d)) => if str_eq(p, d) { " [db: match]" } else { " [db: mismatch]" },
        (Some(_), None) => " [db: missing]",
        (None, Some(_)) => " [env missing]",
        (None, None) => "",
    };
    push_str(&mut l, status);
    proof {
        reveal_strlit("");
    }
    l
}

/// A password shown as one `*` per byte, at most eight.
pub fn mask_password(password: &str) -> (r: String)
    ensures
        r@ == Seq::new(if utf8_len(password@) < 8 { utf8_len(password@) } else { 8 }, |i: int| '*'),
{
    let n = password.as_bytes().len();
    proof {
        crate::text::lemma_utf8_len(password@);
    }
    let m: usize = if n < 8 { n } else { 8 };
    let mut r = String::new();
    let mut i: usize = 0;
    while i < m
        invariant
            i <= m,
            r@ == Seq::new(i as nat, |k: int| '*'),
        decreases m - i,
    {
        crate::text::push_char(&mut r, '*');
        assert(r@ =~= Seq::new((i + 1) as nat, |k: int| '*'));
        i = i + 1;
    }
    r
}

/// A value as the difference report shows it.
pub open spec fn shown(v: Option<Seq<char>>) -> Seq<char> {
    match v {
        Some(x) => x,
        None => "(not set)"@,
    }
}

/// The lines reporting one differing field of a host.
pub open spec fn field_diff_lines(name: Seq<char>, label: Seq<char>, env: Option<Seq<char>>, db: Option<Seq<char>>) -> Seq<Seq<char>> {
    if env == db {
        seq![]
    } else {
        seq!["  "@ + name + " - "@ + label + " differs:"@, "    .env: "@ + shown(env), "    db:   "@ + shown(db)]
    }
}

/// The lines reporting how a host differs between the `.env` file and the
/// database.
pub open spec fn host_diff(name: Seq<char>, env: Option<HostModel>, db: Option<HostModel>) -> Seq<Seq<char>> {
    match (env, db) {
        (Some(e), Some(d)) => {
            let lines = field_diff_lines(name, "IP"@, e.ip, d.ip) + field_diff_lines(
                name,
                "Hostname"@,
                e.hostname,
                d.hostname,
            ) + field_diff_lines(name, "Tailscale"@, e.tailscale, d.tailscale) + field_diff_lines(
                name,
                "Backup path"@,
                e.backup_path,
                d.backup_path,
            );
            if lines.len() == 0 {
                seq!["  "@ + name + " - No differences"@]
            } else {
                lines
            }
        },
        (Some(_), None) => seq!["  "@ + name + " - Only in .env (not in database)"@],
        (None, Some(_)) => seq!["  "@ + name + " - Only in database (not in .env)"@],
        (None, None) => seq![],
    }
}

/// The lines that report a field as different.
pub open spec fn differs_block(name: Seq<char>, label: Seq<char>, env: Option<Seq<char>>, db: Option<Seq<char>>) -> Seq<
    Seq<char>,
> {
    seq!["  "@ + name + " - "@ + label + " differs:"@, "    .env: "@ + shown(env), "    db:   "@ + shown(db)]
}

/// The block `b` stands in `r` at position `i`.
pub open spec fn block_at(r: Seq<Seq<char>>, b: Seq<Seq<char>>, i: int) -> bool {
    0 <= i && i + b.len() <= r.len() && r.subrange(i, i + b.len()) == b
}

/// How many of the four fields differ.
pub open spec fn differing_fields(e: HostModel, d: HostModel) -> nat {
    (if e.ip != d.ip { 1nat } else { 0nat }) + (if e.hostname != d.hostname { 1nat } else { 0nat }) + (if e.tailscale
        != d.tailscale {
        1nat
    } else {
        0nat
    }) + (if e.backup_path != d.backup_path { 1nat } else { 0nat })
}

/// For a host on both sides: "No differences" is reported exactly when the
/// IP, host name, Tailscale name and backup path all agree; otherwise each
/// field that differs gets a block naming it with both values, and the
/// report is those blocks, three lines per differing field.
pub proof fn host_diff_reports_each_difference(name: Seq<char>, e: HostModel, d: HostModel)
    ensures
        (host_diff(name, Some(e), Some(d)) == seq!["  "@ + name + " - No differences"@]) <==> (e.ip == d.ip
            && e.hostname == d.hostname && e.tailscale == d.tailscale && e.backup_path == d.backup_path),
        differing_fields(e, d) > 0 ==> host_diff(name, Some(e), Some(d)).len() == 3 * differing_fields(e, d),
        e.ip != d.ip ==> exists|i: int| block_at(host_diff(name, Some(e), Some(d)), differs_block(name, "IP"@, e.ip, d.ip), i),
        e.hostname != d.hostname ==> exists|i: int| block_at(
            host_diff(name, Some(e), Some(d)),
            differs_block(name, "Hostname"@, e.hostname, d.hostname),
            i,
        ),
        e.tailscale != d.tailscale ==> exists|i: int| block_at(
            host_diff(name, Some(e), Some(d)),
            differs_block(name, "Tailscale"@, e.tailscale, d.tailscale),
            i,
        ),
        e.backup_path != d.backup_path ==> exists|i: int| block_at(
            host_diff(name, Some(e), Some(d)),
            differs_block(name, "Backup path"@, e.backup_path, d.backup_path),
            i,
        ),
{
    let a = field_diff_lines(name, "IP"@, e.ip, d.ip);
    let b = field_diff_lines(name, "Hostname"@, e.hostname, d.hostname);
    let c = field_diff_lines(name, "Tailscale"@, e.tailscale, d.tailscale);
    let f = field_diff_lines(name, "Backup path"@, e.backup_path, d.backup_path);
    let lines = a + b + c + f;
    let r = host_diff(name, Some(e), Some(d));
    if lines.len() > 0 {
        assert(r == lines);
        let first = lines[0];
        reveal_strlit(" - ");
        reveal_strlit(" - No differences");
        reveal_strlit("No differences");
        reveal_strlit("IP");
        reveal_strlit("Hostname");
        reveal_strlit("Tailscale");
        reveal_strlit("Backup path");
        reveal_strlit(" differs:");
        reveal_strlit("  ");
        let k = (2 + name.len() + 3) as int;
        let hdr = "  "@ + name + " - "@;
        assert(hdr.len() == k);
        let nd = "  "@ + name + " - No differences"@;
        assert(nd =~= hdr + "No differences"@);
        assert(nd[k] == 'N');
        if a.len() > 0 {
            assert(first == a[0]);
            assert(a[0] =~= hdr + "IP"@ + " differs:"@);
            assert(first[k] == 'I');
        } else if b.len() > 0 {
            assert(first == b[0]);
            assert(b[0] =~= hdr + "Hostname"@ + " differs:"@);
            assert(first[k] == 'H');
        } else if c.len() > 0 {
            assert(first == c[0]);
            assert(c[0] =~= hdr + "Tailscale"@ + " differs:"@);
            assert(first[k] == 'T');
        } else {
            assert(first == f[0]);
            assert(f[0] =~= hdr + "Backup path"@ + " differs:"@);
            assert(first[k] == 'B');
        }
        assert(r != seq![nd]);
    }
    if e.ip != d.ip {
        assert(block_at(r, differs_block(name, "IP"@, e.ip, d.ip), 0)) by {
            assert(r.subrange(0, 3) =~= a);
        }
    }
    if e.hostname != d.hostname {
        assert(block_at(r, differs_block(name, "Hostname"@, e.hostname, d.hostname), a.len() as int)) by {
            assert(r.subrange(a.len() as int, (a.len() + 3) as int) =~= b);
        }
    }
    if e.tailscale != d.tailscale {
        assert(block_at(r, differs_block(name, "Tailscale"@, e.tailscale, d.tailscale), (a.len() + b.len()) as int))
            by {
            assert(r.subrange((a.len() + b.len()) as int, (a.len() + b.len() + 3) as int) =~= c);
        }
    }
    if e.backup_path != d.backup_path {
        assert(block_at(
            r,
            differs_block(name, "Backup path"@, e.backup_path, d.backup_path),
            (a.len() + b.len() + c.len()) as int,
        )) by {
            assert(r.subrange((a.len() + b.len() + c.len()) as int, (a.len() + b.len() + c.len() + 3) as int) =~= f);
        }
    }
}

fn opt_eq(a: &Option<String>, b: &Option<String>) -> (r: bool)
    ensures
        r == (opt_view(*a) == opt_view(*b)),
{
    match (a, b) {
        (Some(x), Some(y)) => str_eq(x.as_str(), y.as_str()),
        (None, None) => true,
        _ => false,
    }
}

fn shown_exec(v: &Option<String>) -> (r: String)
    ensures
        r@ == shown(opt_view(*v)),
{
    match v {
        Some(x) => to_string(x.as_str()),
        None => to_string("(not set)"),
    }
}

fn push_field_diff(out: &mut Vec<String>, name: &str, label: &str, env: &Option<String>, db: &Option<String>)
    ensures
        views(final(out)@) == views(old(out)@) + field_diff_lines(name@, label@, opt_view(*env), opt_view(*db)),
{
    let ghost before = views(out@);
    if opt_eq(env, db) {
        assert(views(out@) =~= before + Seq::<Seq<char>>::empty());
        return;
    }
    let mut a = to_string("  ");
    push_str(&mut a, name);
    push_str(&mut a, " - ");
    push_str(&mut a, label);
    push_str(&mut a, " differs:");
    let mut b = to_string("    .env: ");
    let e = shown_exec(env);
    push_str(&mut b, e.as_str());
    let mut c = to_string("    db:   ");
    let d = shown_exec(db);
    push_str(&mut c, d.as_str());
    out.push(a);
    out.push(b);
    out.push(c);
    assert(views(out@) =~= before + field_diff_lines(name@, label@, opt_view(*env), opt_view(*db)));
}

/// The difference report of one host (see `host_diff`).
pub fn host_diff_lines(name: &str, env: Option<&HostConfig>, db: Option<&HostConfig>) -> (r: Vec<String>)
    ensures
        views(r@) == host_diff(
            name@,
            match env {
                Some(e) => Some(e@),
                None => None,
            },
            match db {
                Some(d) => Some(d@),
                None => None,
            },
        ),
{
    let mut out: Vec<String> = Vec::new();
    match (env, db) {
        (Some(e), Some(d)) => {
            push_field_diff(&mut out, name, "IP", &e.ip, &d.ip);
            push_field_diff(&mut out, name, "Hostname", &e.hostname, &d.hostname);
            push_field_diff(&mut out, name, "Tailscale", &e.tailscale, &d.tailscale);
            push_field_diff(&mut out, name, "Backup path", &e.backup_path, &d.backup_path);
            assert(views(out@) =~= field_diff_lines(name@, "IP"@, e@.ip, d@.ip) + field_diff_lines(
                name@,
                "Hostname"@,
                e@.hostname,
                d@.hostname,
            ) + field_diff_lines(name@, "Tailscale"@, e@.tailscale, d@.tailscale) + field_diff_lines(
                name@,
                "Backup path"@,
                e@.backup_path,
                d@.backup_path,
            ));
            if out.len() == 0 {
                let mut l = to_string("  ");
                push_str(&mut l, name);
                push_str(&mut l, " - No differences");
                out.push(l);
                assert(views(out@) =~= seq!["  "@ + name@ + " - No differences"@]);
            }
        },
        (Some(_), None) => {
            let mut l = to_string("  ");
            push_str(&mut l, name);
            push_str(&mut l, " - Only in .env (not in database)");
            out.push(l);
            assert(views(out@) =~= seq!["  "@ + name@ + " - Only in .env (not in database)"@]);
        },
        (None, Some(_)) => {
            let mut l = to_string("  ");
            push_str(&mut l, name);
            push_str(&mut l, " - Only in database (not in .env)");
            out.push(l);
            assert(views(out@) =~= seq!["  "@ + name@ + " - Only in database (not in .env)"@]);
        },
        (None, None) => {
            assert(views(out@) =~= Seq::<Seq<char>>::empty());
        },
    }
    out
}

// ---------------------------------------------------------------------------
// Ordered name lists
// ---------------------------------------------------------------------------

/// Strictly increasing (so free of repeats).
pub open spec fn strictly_sorted(s: Seq<Seq<char>>) -> bool {
    forall|i: int, j: int| 0 <= i < j < s.len() ==> text_lt(#[trigger] s[i], #[trigger] s[j])
}

/// The names of `a` and `b` once each, in increasing order.
pub open spec fn sorted_names(a: Seq<Seq<char>>, b: Seq<Seq<char>>) -> Seq<Seq<char>> {
    choose|s: Seq<Seq<char>>| strictly_sorted(s) && forall|x: Seq<char>| #[trigger] s.contains(x) <==> (a.contains(x)
        || b.contains(x))
}

/// Two increasing sequences with the same members are equal.
pub proof fn lemma_sorted_unique(s: Seq<Seq<char>>, t: Seq<Seq<char>>)
    requires
        strictly_sorted(s),
        strictly_sorted(t),
        forall|x: Seq<char>| #[trigger] s.contains(x) <==> t.contains(x),
    ensures
        s == t,
    decreases s.len(),
{
    if s.len() == 0 {
        if t.len() > 0 {
            assert(t.contains(t[0]));
            assert(s.contains(t[0]));
        }
        assert(s =~= t);
    } else {
        assert(s.contains(s[0]));
        assert(t.contains(s[0]));
        assert(t.len() > 0);
        assert(t.contains(t[0]));
        assert(s.contains(t[0]));
        let i = choose|i: int| 0 <= i < s.len() && s[i] == t[0];
        let j = choose|j: int| 0 <= j < t.len() && t[j] == s[0];
        lemma_text_lt_irreflexive(s[0]);
        if j > 0 && i > 0 {
            assert(text_lt(t[0], t[j]));
            assert(text_lt(s[0], s[i]));
            lemma_text_lt_transitive(s[0], t[0], s[0]);
        }
        assert(s[0] == t[0]);
        let s1 = s.drop_first();
        let t1 = t.drop_first();
        assert forall|x: Seq<char>| #[trigger] s1.contains(x) <==> t1.contains(x) by {
            if s1.contains(x) {
                let k = choose|k: int| 0 <= k < s1.len() && s1[k] == x;
                assert(s[k + 1] == x);
                assert(text_lt(s[0], s[k + 1]));
                lemma_text_lt_irreflexive(x);
                assert(s.contains(x));
                assert(t.contains(x));
                let m = choose|m: int| 0 <= m < t.len() && t[m] == x;
                assert(m != 0);
                assert(t1[m - 1] == x);
            }
            if t1.contains(x) {
                let k = choose|k: int| 0 <= k < t1.len() && t1[k] == x;
                assert(t[k + 1] == x);
                assert(text_lt(t[0], t[k + 1]));
                lemma_text_lt_irreflexive(x);
                assert(s.contains(x) <==> t.contains(x));
                assert(s.contains(x));
                let m = choose|m: int| 0 <= m < s.len() && s[m] == x;
                assert(m != 0);
                assert(s1[m - 1] == x);
            }
        }
        lemma_sorted_unique(s1, t1);
        assert(s =~= seq![s[0]] + s1);
        assert(t =~= seq![t[0]] + t1);
    }
}

fn insert_sorted(out: &mut Vec<String>, s: &str)
    requires
        strictly_sorted(views(old(out)@)),
    ensures
        strictly_sorted(views(final(out)@)),
        forall|x: Seq<char>| views(final(out)@).contains(x) <==> (views(old(out)@).contains(x) || x == s@),
{
    let ghost os = views(out@);
    let mut p: usize = 0;
    while p < out.len() && crate::discovery::str_lt(out[p].as_str(), s)
        invariant
            p <= out@.len(),
            os == views(out@),
            forall|a: int| 0 <= a < p ==> text_lt(#[trigger] os[a], s@),
        decreases out@.len() - p,
    {
        assert(os[p as int] == out@[p as int]@);
        p = p + 1;
    }
    if p < out.len() && str_eq(out[p].as_str(), s) {
        assert(os[p as int] == s@);
        assert forall|x: Seq<char>| views(out@).contains(x) <==> (os.contains(x) || x == s@) by {
            if x == s@ {
                assert(os[p as int] == x);
            }
        }
        return;
    }
    proof {
        if p < os.len() {
            assert(os[p as int] == out@[p as int]@);
            assert(!text_lt(os[p as int], s@));
            assert(os[p as int] != s@);
            lemma_text_lt_total(os[p as int], s@);
        }
    }
    out.insert(p, to_string(s));
    proof {
        let ns = views(out@);
        assert(ns =~= os.insert(p as int, s@));
        assert forall|i: int, j: int| 0 <= i < j < ns.len() implies text_lt(#[trigger] ns[i], #[trigger] ns[j]) by {
            if j < p {
                assert(ns[i] == os[i] && ns[j] == os[j]);
            } else if j == p {
                assert(ns[i] == os[i]);
            } else if i < p {
                assert(ns[i] == os[i] && ns[j] == os[j - 1]);
                if j - 1 > p {
                    lemma_text_lt_transitive(s@, os[p as int], os[j - 1]);
                }
                lemma_text_lt_transitive(os[i], s@, os[j - 1]);
            } else if i == p {
                assert(ns[j] == os[j - 1]);
                if j - 1 > p {
                    lemma_text_lt_transitive(s@, os[p as int], os[j - 1]);
                }
            } else {
                assert(ns[i] == os[i - 1] && ns[j] == os[j - 1]);
            }
        }
        assert forall|x: Seq<char>| ns.contains(x) <==> (os.contains(x) || x == s@) by {
            if ns.contains(x) {
                let k = choose|k: int| 0 <= k < ns.len() && ns[k] == x;
                if k < p {
                    assert(os[k] == x);
                } else if k > p {
                    assert(os[k - 1] == x);
                }
            }
            if os.contains(x) {
                let k = choose|k: int| 0 <= k < os.len() && os[k] == x;
                if k < p {
                    assert(ns[k] == x);
                } else {
                    assert(ns[k + 1] == x);
                }
            }
            if x == s@ {
                assert(ns[p as int] == x);
            }
        }
    }
}

/// The names of both lists once each, in order (as the reports list the
/// hosts and SMB servers of the `.env` file and of the database).
pub fn sorted_union(a: &Vec<String>, b: &Vec<String>) -> (r: Vec<String>)
    ensures
        strictly_sorted(views(r@)),
        forall|x: Seq<char>| views(r@).contains(x) <==> (views(a@).contains(x) || views(b@).contains(x)),
        views(r@) == sorted_names(views(a@), views(b@)),
{
    let mut out: Vec<String> = Vec::new();
    let mut i: usize = 0;
    while i < a.len()
        invariant
            i <= a@.len(),
            strictly_sorted(views(out@)),
            forall|x: Seq<char>| views(out@).contains(x) <==> views(a@).take(i as int).contains(x),
        decreases a@.len() - i,
    {
        insert_sorted(&mut out, a[i].as_str());
        proof {
            assert(views(a@).take(i + 1) =~= views(a@).take(i as int).push(a@[i as int]@));
            assert forall|x: Seq<char>| views(out@).contains(x) <==> views(a@).take(i + 1).contains(x) by {
                if x == a@[i as int]@ {
                    assert(views(a@).take(i + 1)[i as int] == x);
                }
                if views(a@).take(i + 1).contains(x) {
                    let k = choose|k: int| 0 <= k < i + 1 && #[trigger] views(a@).take(i + 1)[k] == x;
                    if k < i {
                        assert(views(a@).take(i as int)[k] == x);
                    }
                }
            }
        }
        i = i + 1;
    }
    assert(views(a@).take(a@.len() as int) =~= views(a@));
    let mut j: usize = 0;
    while j < b.len()
        invariant
            j <= b@.len(),
            strictly_sorted(views(out@)),
            forall|x: Seq<char>| views(out@).contains(x) <==> (views(a@).contains(x) || views(b@).take(
                j as int,
            ).contains(x)),
        decreases b@.len() - j,
    {
        insert_sorted(&mut out, b[j].as_str());
        proof {
            assert(views(b@).take(j + 1) =~= views(b@).take(j as int).push(b@[j as int]@));
            assert forall|x: Seq<char>| views(out@).contains(x) <==> (views(a@).contains(x) || views(
                b@,
            ).take(j + 1).contains(x)) by {
                if x == b@[j as int]@ {
                    assert(views(b@).take(j + 1)[j as int] == x);
                }
                if views(b@).take(j + 1).contains(x) {
                    let k = choose|k: int| 0 <= k < j + 1 && #[trigger] views(b@).take(j + 1)[k] == x;
                    if k < j {
                        assert(views(b@).take(j as int)[k] == x);
                    }
                }
            }
        }
        j = j + 1;
    }
    assert(views(b@).take(b@.len() as int) =~= views(b@));
    proof {
        let sn = sorted_names(views(a@), views(b@));
        assert(strictly_sorted(views(out@)) && forall|x: Seq<char>| #[trigger] views(out@).contains(x) <==> (views(
            a@,
        ).contains(x) || views(b@).contains(x)));
        lemma_sorted_unique(views(out@), sn);
    }
    out
}

// ---------------------------------------------------------------------------
// Other environment values and validation
// ---------------------------------------------------------------------------

/// The variables the report shows in their own sections.
pub open spec fn known_var(k: Seq<char>) -> bool {
    ||| k == "TAILNET_BASE"@
    ||| k == "TAILNET_TLD"@
    ||| k == "TLD"@
    ||| k == "ACME_EMAIL"@
    ||| k == "PIA_USERNAME"@
    ||| k == "PIA_PASSWORD"@
    ||| k == "DOWNLOADS_PATH"@
    ||| k == "MOVIES_PATH"@
    ||| k == "TV_PATH"@
    ||| k == "MOVIES_4K_PATH"@
    ||| k == "MUSIC_PATH"@
    ||| k == "NGINX_PROXY_MANAGER_URL"@
    ||| k == "NGINX_PROXY_MANAGER_USERNAME"@
    ||| k == "NGINX_PROXY_MANAGER_PASSWORD"@
}

/// Whether a variable belongs among the other environment values: not a
/// host or SMB variable, nor one shown elsewhere.
pub open spec fn is_other_var(k: Seq<char>) -> bool {
    !(has_prefix(k, "HOST_"@) || has_prefix(k, "SMB_"@) || known_var(k))
}

/// Whether a variable belongs among the other environment values.
pub fn other_var(k: &str) -> (r: bool)
    ensures
        r == is_other_var(k@),
{
    !(starts_with(k, "HOST_") || starts_with(k, "SMB_") || str_eq(k, "TAILNET_BASE") || str_eq(
        k,
        "TAILNET_TLD",
    ) || str_eq(k, "TLD") || str_eq(k, "ACME_EMAIL") || str_eq(k, "PIA_USERNAME") || str_eq(
        k,
        "PIA_PASSWORD",
    ) || str_eq(k, "DOWNLOADS_PATH") || str_eq(k, "MOVIES_PATH") || str_eq(k, "TV_PATH") || str_eq(
        k,
        "MOVIES_4K_PATH",
    ) || str_eq(k, "MUSIC_PATH") || str_eq(k, "NGINX_PROXY_MANAGER_URL") || str_eq(
        k,
        "NGINX_PROXY_MANAGER_USERNAME",
    ) || str_eq(k, "NGINX_PROXY_MANAGER_PASSWORD"))
}

/// The value shown for another environment variable: hidden when its name,
/// lower-cased, mentions a password or a secret.
pub open spec fn shown_value(k: Seq<char>, v: Seq<char>) -> Seq<char> {
    if contains_seq(lowercase(k), "password"@) || contains_seq(lowercase(k), "secret"@) {
        "***"@
    } else {
        v
    }
}

/// The value shown for another environment variable.
pub fn masked_value(k: &str, v: &str) -> (r: String)
    ensures
        r@ == shown_value(k@, v@),
{
    let l = to_lowercase(k);
    if contains_str(l.as_str(), "password") || contains_str(l.as_str(), "secret") {
        to_string("***")
    } else {
        to_string(v)
    }
}

/// The problems the report lists for a configuration: no hosts, and each
/// SMB server without a host or without shares, in order.
pub open spec fn smb_issues(servers: Seq<(Seq<char>, crate::config::SmbModel)>) -> Seq<Seq<char>>
    decreases servers.len(),
{
    if servers.len() == 0 {
        seq![]
    } else {
        let rest = smb_issues(servers.drop_last());
        let (name, s) = servers.last();
        let a = if s.host.len() == 0 { seq!["SMB server '"@ + name + "' missing host"@] } else { seq![] };
        let b = if s.shares.len() == 0 { seq!["SMB server '"@ + name + "' missing shares"@] } else { seq![] };
        rest + a + b
    }
}

/// The problems found in a configuration; none means it is valid.
pub open spec fn config_issues(c: crate::config::EnvModel) -> Seq<Seq<char>> {
    (if c.hosts.len() == 0 { seq!["No hosts configured"@] } else { seq![] }) + smb_issues(c.smb_servers)
}

/// The problems found in a configuration (see `config_issues`).
pub fn validation_issues(config: &EnvConfig) -> (r: Vec<String>)
    ensures
        views(r@) == config_issues(config@),
{
    let mut out: Vec<String> = Vec::new();
    if config.hosts.len() == 0 {
        out.push(to_string("No hosts configured"));
    }
    let ghost head = views(out@);
    assert(head =~= (if config@.hosts.len() == 0 { seq!["No hosts configured"@] } else { seq![] }));
    let ghost sv = config@.smb_servers;
    let mut i: usize = 0;
    while i < config.smb_servers.len()
        invariant
            i <= config.smb_servers@.len(),
            sv == config@.smb_servers,
            sv.len() == config.smb_servers@.len(),
            views(out@) == head + smb_issues(sv.take(i as int)),
        decreases config.smb_servers@.len() - i,
    {
        let entry = &config.smb_servers[i];
        proof {
            assert(sv.take(i + 1).drop_last() =~= sv.take(i as int));
            assert(sv.take(i + 1).last() == sv[i as int]);
            assert(sv[i as int] == (entry.name@, entry.config@));
        }
        let ghost before = views(out@);
        if entry.config.host.unicode_len() == 0 {
            let mut l = to_string("SMB server '");
            push_str(&mut l, entry.name.as_str());
            push_str(&mut l, "' missing host");
            out.push(l);
        }
        if entry.config.shares.len() == 0 {
            let mut l = to_string("SMB server '");
            push_str(&mut l, entry.name.as_str());
            push_str(&mut l, "' missing shares");
            out.push(l);
        }
        proof {
            let (name, s) = sv[i as int];
            let a = if s.host.len() == 0 { seq!["SMB server '"@ + name + "' missing host"@] } else { seq![] };
            let b = if s.shares.len() == 0 { seq!["SMB server '"@ + name + "' missing shares"@] } else { seq![] };
            assert(views(out@) =~= before + a + b);
        }
        i = i + 1;
    }
    assert(sv.take(sv.len() as int) =~= sv);
    out
}


/// Plain values of key/value pairs.
pub open spec fn pair_views(v: Seq<(String, String)>) -> Seq<(Seq<char>, Seq<char>)> {
    v.map_values(|p: (String, String)| (p.0@, p.1@))
}

/// Pairs whose keys strictly increase.
pub open spec fn keys_strictly_sorted(s: Seq<(Seq<char>, Seq<char>)>) -> bool {
    forall|i: int, j: int| 0 <= i < j < s.len() ==> text_lt(#[trigger] s[i].0, #[trigger] s[j].0)
}

/// The other environment values of `vars` (see `is_other_var`), ordered by
/// name.
pub open spec fn sorted_others(vars: Seq<(Seq<char>, Seq<char>)>) -> Seq<(Seq<char>, Seq<char>)> {
    choose|s: Seq<(Seq<char>, Seq<char>)>| keys_strictly_sorted(s) && forall|x: (Seq<char>, Seq<char>)|
        #[trigger] s.contains(x) <==> (vars.contains(x) && is_other_var(x.0))
}

/// Two sequences of pairs ordered by strictly increasing keys, with the same
/// members, are equal.
pub proof fn lemma_pairs_sorted_unique(s: Seq<(Seq<char>, Seq<char>)>, t: Seq<(Seq<char>, Seq<char>)>)
    requires
        keys_strictly_sorted(s),
        keys_strictly_sorted(t),
        forall|x: (Seq<char>, Seq<char>)| #[trigger] s.contains(x) <==> t.contains(x),
    ensures
        s == t,
    decreases s.len(),
{
    if s.len() == 0 {
        if t.len() > 0 {
            assert(t.contains(t[0]));
            assert(s.contains(t[0]));
        }
        assert(s =~= t);
    } else {
        assert(s.contains(s[0]));
        assert(t.contains(s[0]));
        assert(t.len() > 0);
        assert(t.contains(t[0]));
        assert(s.contains(t[0]));
        let i = choose|i: int| 0 <= i < s.len() && s[i] == t[0];
        let j = choose|j: int| 0 <= j < t.len() && t[j] == s[0];
        lemma_text_lt_irreflexive(s[0].0);
        if j > 0 && i > 0 {
            assert(text_lt(t[0].0, t[j].0));
            assert(text_lt(s[0].0, s[i].0));
            lemma_text_lt_transitive(s[0].0, t[0].0, s[0].0);
        }
        if j > 0 && i == 0 {
            assert(text_lt(t[0].0, t[j].0));
        }
        if i > 0 && j == 0 {
            assert(text_lt(s[0].0, s[i].0));
        }
        assert(s[0] == t[0]);
        let s1 = s.drop_first();
        let t1 = t.drop_first();
        assert forall|x: (Seq<char>, Seq<char>)| #[trigger] s1.contains(x) <==> t1.contains(x) by {
            if s1.contains(x) {
                let k = choose|k: int| 0 <= k < s1.len() && s1[k] == x;
                assert(s[k + 1] == x);
                assert(text_lt(s[0].0, s[k + 1].0));
                lemma_text_lt_irreflexive(x.0);
                assert(s.contains(x));
                assert(t.contains(x));
                let m = choose|m: int| 0 <= m < t.len() && t[m] == x;
                assert(m != 0);
                assert(t1[m - 1] == x);
            }
            if t1.contains(x) {
                let k = choose|k: int| 0 <= k < t1.len() && t1[k] == x;
                assert(t[k + 1] == x);
                assert(text_lt(t[0].0, t[k + 1].0));
                lemma_text_lt_irreflexive(x.0);
                assert(s.contains(x) <==> t.contains(x));
                assert(s.contains(x));
                let m = choose|m: int| 0 <= m < s.len() && s[m] == x;
                assert(m != 0);
                assert(s1[m - 1] == x);
            }
        }
        lemma_pairs_sorted_unique(s1, t1);
        assert(s =~= seq![s[0]] + s1);
        assert(t =~= seq![t[0]] + t1);
    }
}

fn insert_pair_sorted(out: &mut Vec<(String, String)>, k: &str, v: &str)
    requires
        keys_strictly_sorted(pair_views(old(out)@)),
        forall|i: int| 0 <= i < old(out)@.len() ==> #[trigger] pair_views(old(out)@)[i].0 != k@,
    ensures
        keys_strictly_sorted(pair_views(final(out)@)),
        forall|x: (Seq<char>, Seq<char>)| pair_views(final(out)@).contains(x) <==> (pair_views(old(out)@).contains(x)
            || x == (k@, v@)),
{
    let ghost os = pair_views(out@);
    let mut p: usize = 0;
    while p < out.len() && crate::discovery::str_lt(out[p].0.as_str(), k)
        invariant
            p <= out@.len(),
            os == pair_views(out@),
            forall|a: int| 0 <= a < p ==> text_lt(#[trigger] os[a].0, k@),
        decreases out@.len() - p,
    {
        assert(os[p as int] == (out@[p as int].0@, out@[p as int].1@));
        p = p + 1;
    }
    proof {
        if p < os.len() {
            assert(os[p as int] == (out@[p as int].0@, out@[p as int].1@));
            assert(os[p as int].0 != k@);
            lemma_text_lt_total(os[p as int].0, k@);
        }
    }
    out.insert(p, (to_string(k), to_string(v)));
    proof {
        let ns = pair_views(out@);
        assert(ns =~= os.insert(p as int, (k@, v@)));
        assert forall|i: int, j: int| 0 <= i < j < ns.len() implies text_lt(#[trigger] ns[i].0, #[trigger] ns[j].0) by {
            if j < p {
                assert(ns[i] == os[i] && ns[j] == os[j]);
            } else if j == p {
                assert(ns[i] == os[i]);
            } else if i < p {
                assert(ns[i] == os[i] && ns[j] == os[j - 1]);
                if j - 1 > p {
                    lemma_text_lt_transitive(k@, os[p as int].0, os[j - 1].0);
                }
                lemma_text_lt_transitive(os[i].0, k@, os[j - 1].0);
            } else if i == p {
                assert(ns[j] == os[j - 1]);
                if j - 1 > p {
                    lemma_text_lt_transitive(k@, os[p as int].0, os[j - 1].0);
                }
            } else {
                assert(ns[i] == os[i - 1] && ns[j] == os[j - 1]);
            }
        }
        assert forall|x: (Seq<char>, Seq<char>)| ns.contains(x) <==> (os.contains(x) || x == (k@, v@)) by {
            if ns.contains(x) {
                let q = choose|q: int| 0 <= q < ns.len() && ns[q] == x;
                if q < p {
                    assert(os[q] == x);
                } else if q > p {
                    assert(os[q - 1] == x);
                }
            }
            if os.contains(x) {
                let q = choose|q: int| 0 <= q < os.len() && os[q] == x;
                if q < p {
                    assert(ns[q] == x);
                } else {
                    assert(ns[q + 1] == x);
                }
            }
            if x == (k@, v@) {
                assert(ns[p as int] == x);
            }
        }
    }
}

/// The names that both lists hold, once each, in order (as the
/// configuration summary lists the hosts of both the `.env` file and the
/// database).
pub fn sorted_intersection(a: &Vec<String>, b: &Vec<String>) -> (r: Vec<String>)
    ensures
        strictly_sorted(views(r@)),
        forall|x: Seq<char>| views(r@).contains(x) <==> (views(a@).contains(x) && views(b@).contains(x)),
{
    let mut out: Vec<String> = Vec::new();
    let mut i: usize = 0;
    while i < a.len()
        invariant
            i <= a@.len(),
            strictly_sorted(views(out@)),
            forall|x: Seq<char>| views(out@).contains(x) <==> (views(a@).take(i as int).contains(x) && views(
                b@,
            ).contains(x)),
        decreases a@.len() - i,
    {
        let ghost before = views(out@);
        let shared = vec_contains_str(b, a[i].as_str());
        if shared {
            insert_sorted(&mut out, a[i].as_str());
        }
        proof {
            assert(views(a@).take(i + 1) =~= views(a@).take(i as int).push(a@[i as int]@));
            assert forall|x: Seq<char>| views(out@).contains(x) <==> (views(a@).take(i + 1).contains(x)
                && views(b@).contains(x)) by {
                if x == a@[i as int]@ {
                    assert(views(a@).take(i + 1)[i as int] == x);
                }
                if views(a@).take(i + 1).contains(x) {
                    let k = choose|k: int| 0 <= k < i + 1 && #[trigger] views(a@).take(i + 1)[k] == x;
                    if k < i {
                        assert(views(a@).take(i as int)[k] == x);
                    }
                }
            }
        }
        i = i + 1;
    }
    assert(views(a@).take(a@.len() as int) =~= views(a@));
    out
}

/// What a host's configuration sets, as the summary names it: `IP`,
/// `Tailscale`, `Backup`, in that order.
pub open spec fn summary_parts(c: HostModel) -> Seq<Seq<char>> {
    (if c.ip is Some { seq!["IP"@] } else { seq![] }) + (if c.tailscale is Some { seq!["Tailscale"@] } else { seq![] })
        + (if c.backup_path is Some { seq!["Backup"@] } else { seq![] })
}

/// What a host's configuration sets, joined with `, ` (see `summary_parts`).
pub fn host_summary(c: &HostConfig) -> (r: String)
    ensures
        r@ == join(summary_parts(c@), ", "@),
{
    let mut parts: Vec<String> = Vec::new();
    if c.ip.is_some() {
        parts.push(to_string("IP"));
    }
    if c.tailscale.is_some() {
        parts.push(to_string("Tailscale"));
    }
    if c.backup_path.is_some() {
        parts.push(to_string("Backup"));
    }
    assert(views(parts@) =~= summary_parts(c@));
    join_strings(&parts, ", ")
}

/// The environment values the report lists apart: every variable that is
/// not a host or SMB variable nor shown elsewhere, ordered by name.  The
/// environment names each variable once.
pub fn other_env_values(vars: &Vec<(String, String)>) -> (r: Vec<(String, String)>)
    requires
        forall|i: int, j: int| 0 <= i < j < vars@.len() ==> vars@[i].0@ != vars@[j].0@,
    ensures
        keys_strictly_sorted(pair_views(r@)),
        forall|x: (Seq<char>, Seq<char>)| pair_views(r@).contains(x) <==> (pair_views(vars@).contains(x)
            && is_other_var(x.0)),
        pair_views(r@) == sorted_others(pair_views(vars@)),
{
    let ghost vv = pair_views(vars@);
    let mut out: Vec<(String, String)> = Vec::new();
    let mut i: usize = 0;
    while i < vars.len()
        invariant
            i <= vars@.len(),
            vv == pair_views(vars@),
            forall|a: int, b: int| 0 <= a < b < vars@.len() ==> vars@[a].0@ != vars@[b].0@,
            keys_strictly_sorted(pair_views(out@)),
            forall|x: (Seq<char>, Seq<char>)| pair_views(out@).contains(x) <==> (vv.take(i as int).contains(x)
                && is_other_var(x.0)),
        decreases vars@.len() - i,
    {
        let ghost before = pair_views(out@);
        proof {
            assert(vv.take(i + 1) =~= vv.take(i as int).push(vv[i as int]));
            assert(vv[i as int] == (vars@[i as int].0@, vars@[i as int].1@));
        }
        if other_var(vars[i].0.as_str()) {
            proof {
                assert forall|q: int| 0 <= q < out@.len() implies #[trigger] pair_views(out@)[q].0 != vars@[i as int].0@ by {
                    let x = pair_views(out@)[q];
                    assert(pair_views(out@).contains(x));
                    assert(vv.take(i as int).contains(x));
                    let c = choose|c: int| 0 <= c < i && #[trigger] vv.take(i as int)[c] == x;
                    assert(vv[c] == (vars@[c].0@, vars@[c].1@));
                }
            }
            insert_pair_sorted(&mut out, vars[i].0.as_str(), vars[i].1.as_str());
        }
        proof {
            assert forall|x: (Seq<char>, Seq<char>)| pair_views(out@).contains(x) <==> (vv.take(i + 1).contains(x)
                && is_other_var(x.0)) by {
                if vv.take(i + 1).contains(x) {
                    let c = choose|c: int| 0 <= c < i + 1 && #[trigger] vv.take(i + 1)[c] == x;
                    if c < i {
                        assert(vv.take(i as int)[c] == x);
                    }
                }
                if vv.take(i as int).contains(x) {
                    let c = choose|c: int| 0 <= c < i && #[trigger] vv.take(i as int)[c] == x;
                    assert(vv.take(i + 1)[c] == x);
                }
                if x == vv[i as int] {
                    assert(vv.take(i + 1)[i as int] == x);
                }
            }
        }
        i = i + 1;
    }
    assert(vv.take(vars@.len() as int) =~= vv);
    proof {
        assert(keys_strictly_sorted(pair_views(out@)) && forall|x: (Seq<char>, Seq<char>)|
            #[trigger] pair_views(out@).contains(x) <==> (vv.contains(x) && is_other_var(x.0)));
        lemma_pairs_sorted_unique(pair_views(out@), sorted_others(vv));
    }
    out
}

} // verus!
