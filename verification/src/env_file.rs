//! Rewriting the host entries of a `.env` file's text.
use vstd::prelude::*;
use crate::text::{
    concat, has_prefix, is_ws, join, join_strings, lemma_index_of, lemma_index_of_is, lines, lines_of, push_str,
    starts_with, strip_cr, to_string, to_uppercase, trim, trim_end, trim_start, trimmed, uppercase, views,
};
use crate::config::{HostConfig, HostModel};

verus! {

/// `HOST_<NAME>_`, the start of every variable of one host.
pub open spec fn host_prefix(upper: Seq<char>) -> Seq<char> {
    "HOST_"@ + upper + "_"@
}

/// A comment line: `#` after leading white space.
pub open spec fn is_comment(l: Seq<char>) -> bool {
    has_prefix(trimmed(l), "#"@)
}

/// A line that sets a variable of the host.
pub open spec fn is_host_line(l: Seq<char>, upper: Seq<char>) -> bool {
    has_prefix(trimmed(l), host_prefix(upper))
}

/// Lines kept when a host is written: neither comments nor lines of the
/// host.
pub open spec fn kept_on_write(ls: Seq<Seq<char>>, upper: Seq<char>) -> Seq<Seq<char>>
    decreases ls.len(),
{
    if ls.len() == 0 {
        seq![]
    } else {
        let r = kept_on_write(ls.drop_last(), upper);
        if !is_comment(ls.last()) && !is_host_line(ls.last(), upper) {
            r.push(ls.last())
        } else {
            r
        }
    }
}

/// Lines kept when a host is removed: comments and every line that is not
/// one of the host's own.
pub open spec fn kept_on_remove(ls: Seq<Seq<char>>, upper: Seq<char>) -> Seq<Seq<char>>
    decreases ls.len(),
{
    if ls.len() == 0 {
        seq![]
    } else {
        let r = kept_on_remove(ls.drop_last(), upper);
        if is_comment(ls.last()) || !is_host_line(ls.last(), upper) {
            r.push(ls.last())
        } else {
            r
        }
    }
}

/// `HOST_<NAME>_<FIELD>=<value>` when the value is set.
pub open spec fn var_line(upper: Seq<char>, field: Seq<char>, v: Option<Seq<char>>) -> Seq<
    Seq<char>,
> {
    match v {
        Some(x) => seq![host_prefix(upper) + field + "="@ + x],
        None => seq![],
    }
}

/// The lines that describe a host: IP, host name, Tailscale name, backup path.
pub open spec fn host_lines(upper: Seq<char>, c: HostModel) -> Seq<Seq<char>> {
    var_line(upper, "IP"@, c.ip) + var_line(upper, "HOSTNAME"@, c.hostname) + var_line(
        upper,
        "TAILSCALE"@,
        c.tailscale,
    ) + var_line(upper, "BACKUP_PATH"@, c.backup_path)
}

/// The lines of a file once a host has been written to it.
pub open spec fn write_lines(ls: Seq<Seq<char>>, upper: Seq<char>, c: HostModel) -> Seq<Seq<char>> {
    kept_on_write(ls, upper) + host_lines(upper, c)
}

/// The text of a file made of lines, each ended by a newline.
pub open spec fn file_text(ls: Seq<Seq<char>>) -> Seq<char> {
    join(ls, "\n"@) + "\n"@
}

// ---------------------------------------------------------------------------
// Laws
// ---------------------------------------------------------------------------

/// `kept_on_write` of a concatenation.
pub proof fn lemma_kept_on_write_concat(a: Seq<Seq<char>>, b: Seq<Seq<char>>, upper: Seq<char>)
    ensures
        kept_on_write(a + b, upper) == kept_on_write(a, upper) + kept_on_write(b, upper),
    decreases b.len(),
{
    if b.len() == 0 {
        assert(a + b =~= a);
        assert(kept_on_write(a, upper) + kept_on_write(b, upper) =~= kept_on_write(a, upper));
    } else {
        assert((a + b).drop_last() =~= a + b.drop_last());
        assert((a + b).last() == b.last());
        lemma_kept_on_write_concat(a, b.drop_last(), upper);
        let k = kept_on_write(a, upper);
        let kb = kept_on_write(b.drop_last(), upper);
        assert((k + kb).push(b.last()) =~= k + kb.push(b.last()));
    }
}

/// Lines kept on writing are kept again, by writing and by removing.
pub proof fn lemma_kept_on_write_stable(ls: Seq<Seq<char>>, upper: Seq<char>)
    ensures
        kept_on_write(kept_on_write(ls, upper), upper) == kept_on_write(ls, upper),
        kept_on_remove(kept_on_write(ls, upper), upper) == kept_on_write(ls, upper),
    decreases ls.len(),
{
    if ls.len() > 0 {
        lemma_kept_on_write_stable(ls.drop_last(), upper);
        let r = kept_on_write(ls.drop_last(), upper);
        if !is_comment(ls.last()) && !is_host_line(ls.last(), upper) {
            assert(r.push(ls.last()).drop_last() =~= r);
        }
    }
}

/// `kept_on_remove` of a concatenation.
pub proof fn lemma_kept_on_remove_concat(a: Seq<Seq<char>>, b: Seq<Seq<char>>, upper: Seq<char>)
    ensures
        kept_on_remove(a + b, upper) == kept_on_remove(a, upper) + kept_on_remove(b, upper),
    decreases b.len(),
{
    if b.len() == 0 {
        assert(a + b =~= a);
        assert(kept_on_remove(a, upper) + kept_on_remove(b, upper) =~= kept_on_remove(a, upper));
    } else {
        assert((a + b).drop_last() =~= a + b.drop_last());
        assert((a + b).last() == b.last());
        lemma_kept_on_remove_concat(a, b.drop_last(), upper);
        let k = kept_on_remove(a, upper);
        let kb = kept_on_remove(b.drop_last(), upper);
        assert((k + kb).push(b.last()) =~= k + kb.push(b.last()));
    }
}

/// Removing a host's lines a second time changes nothing.
pub proof fn remove_host_idempotent(ls: Seq<Seq<char>>, upper: Seq<char>)
    ensures
        kept_on_remove(kept_on_remove(ls, upper), upper) == kept_on_remove(ls, upper),
    decreases ls.len(),
{
    if ls.len() > 0 {
        remove_host_idempotent(ls.drop_last(), upper);
        let r = kept_on_remove(ls.drop_last(), upper);
        if is_comment(ls.last()) || !is_host_line(ls.last(), upper) {
            assert(r.push(ls.last()).drop_last() =~= r);
        }
    }
}

/// Trailing white space is removed without reaching into a prefix that ends
/// in a non-space.
pub proof fn lemma_trim_end_keeps_prefix(p: Seq<char>, q: Seq<char>)
    requires
        p.len() > 0,
        !is_ws(p.last()),
    ensures
        has_prefix(trim_end(p + q), p),
    decreases q.len(),
{
    if q.len() == 0 {
        assert(p + q =~= p);
        assert(p.take(p.len() as int) =~= p);
    } else {
        let s = p + q;
        if is_ws(s.last()) {
            assert(s.drop_last() =~= p + q.drop_last());
            lemma_trim_end_keeps_prefix(p, q.drop_last());
        } else {
            assert(s.take(p.len() as int) =~= p);
        }
    }
}

/// A line written for a host is a line of that host and not a comment.
pub proof fn lemma_var_line_is_host_line(upper: Seq<char>, field: Seq<char>, x: Seq<char>)
    ensures
        is_host_line(host_prefix(upper) + field + "="@ + x, upper),
        !is_comment(host_prefix(upper) + field + "="@ + x),
{
    reveal_strlit("HOST_");
    reveal_strlit("=");
    reveal_strlit("#");
    reveal_strlit("_");
    let l = host_prefix(upper) + field + "="@ + x;
    let p = host_prefix(upper) + field + "="@;
    assert(l =~= p + x);
    assert(l[0] == 'H');
    assert(trim_start(l) == l);
    assert(p.last() == '=');
    lemma_trim_end_keeps_prefix(p, x);
    let t = trim_end(l);
    assert(t.take(p.len() as int) =~= p);
    assert(t.take(host_prefix(upper).len() as int) =~= host_prefix(upper)) by {
        assert forall|i: int| 0 <= i < host_prefix(upper).len() implies t[i] == host_prefix(
            upper,
        )[i] by {
            assert(t[i] == t.take(p.len() as int)[i]);
            assert(p[i] == host_prefix(upper)[i]);
        }
    }
    assert(t[0] == 'H');
}

/// Lines written for a host are dropped by both kinds of rewrite.
pub proof fn lemma_host_lines_dropped(upper: Seq<char>, c: HostModel)
    ensures
        kept_on_write(host_lines(upper, c), upper) == Seq::<Seq<char>>::empty(),
        kept_on_remove(host_lines(upper, c), upper) == Seq::<Seq<char>>::empty(),
{
    lemma_var_lines_dropped(upper, "IP"@, c.ip);
    lemma_var_lines_dropped(upper, "HOSTNAME"@, c.hostname);
    lemma_var_lines_dropped(upper, "TAILSCALE"@, c.tailscale);
    lemma_var_lines_dropped(upper, "BACKUP_PATH"@, c.backup_path);
    let a = var_line(upper, "IP"@, c.ip);
    let b = var_line(upper, "HOSTNAME"@, c.hostname);
    let d = var_line(upper, "TAILSCALE"@, c.tailscale);
    let e = var_line(upper, "BACKUP_PATH"@, c.backup_path);
    lemma_kept_on_remove_concat(a, b, upper);
    lemma_kept_on_remove_concat(a + b, d, upper);
    lemma_kept_on_remove_concat(a + b + d, e, upper);
    lemma_kept_on_write_concat(a, b, upper);
    lemma_kept_on_write_concat(a + b, d, upper);
    lemma_kept_on_write_concat(a + b + d, e, upper);
    let empty = Seq::<Seq<char>>::empty();
    assert(empty + empty =~= empty);
}

/// One variable line is dropped by both kinds of rewrite.
pub proof fn lemma_var_lines_dropped(upper: Seq<char>, field: Seq<char>, v: Option<Seq<char>>)
    ensures
        kept_on_write(var_line(upper, field, v), upper) == Seq::<Seq<char>>::empty(),
        kept_on_remove(var_line(upper, field, v), upper) == Seq::<Seq<char>>::empty(),
{
    let empty = Seq::<Seq<char>>::empty();
    assert(kept_on_write(empty, upper) == empty);
    assert(kept_on_remove(empty, upper) == empty);
    if let Some(x) = v {
        let l = host_prefix(upper) + field + "="@ + x;
        lemma_var_line_is_host_line(upper, field, x);
        let s = seq![l];
        assert(s.drop_last() =~= empty);
        assert(s.last() == l);
        assert(var_line(upper, field, v) == s);
        assert(kept_on_remove(s, upper) == kept_on_remove(empty, upper));
        assert(kept_on_write(s, upper) == kept_on_write(empty, upper));
    } else {
        assert(var_line(upper, field, v) == empty);
    }
}

/// Writing a host twice gives the same lines as writing it once.
pub proof fn write_host_idempotent(ls: Seq<Seq<char>>, upper: Seq<char>, c: HostModel)
    ensures
        write_lines(write_lines(ls, upper, c), upper, c) == write_lines(ls, upper, c),
{
    let k = kept_on_write(ls, upper);
    lemma_kept_on_write_concat(k, host_lines(upper, c), upper);
    lemma_kept_on_write_stable(ls, upper);
    lemma_host_lines_dropped(upper, c);
    assert(k + Seq::<Seq<char>>::empty() =~= k);
}

/// Removing a host right after writing it leaves what writing the host with
/// no field set leaves: the other lines, without comments.
pub proof fn remove_after_write(ls: Seq<Seq<char>>, upper: Seq<char>, c: HostModel)
    ensures
        kept_on_remove(write_lines(ls, upper, c), upper) == kept_on_write(ls, upper),
        kept_on_remove(write_lines(ls, upper, c), upper) == write_lines(ls, upper, crate::config::empty_host()),
{
    let k = kept_on_write(ls, upper);
    lemma_kept_on_remove_concat(k, host_lines(upper, c), upper);
    lemma_kept_on_write_stable(ls, upper);
    lemma_host_lines_dropped(upper, c);
    assert(k + Seq::<Seq<char>>::empty() =~= k);
    assert(host_lines(upper, crate::config::empty_host()) =~= Seq::<Seq<char>>::empty());
}

/// Two written lines of a host are the same only for the same field and
/// value.
proof fn lemma_field_lines_differ(upper: Seq<char>, f1: Seq<char>, x: Seq<char>, f2: Seq<char>, y: Seq<char>)
    requires
        f1 == "IP"@ || f1 == "HOSTNAME"@ || f1 == "TAILSCALE"@ || f1 == "BACKUP_PATH"@,
        f2 == "IP"@ || f2 == "HOSTNAME"@ || f2 == "TAILSCALE"@ || f2 == "BACKUP_PATH"@,
        host_prefix(upper) + f1 + "="@ + x == host_prefix(upper) + f2 + "="@ + y,
    ensures
        f1 == f2,
        x == y,
{
    reveal_strlit("IP");
    reveal_strlit("HOSTNAME");
    reveal_strlit("TAILSCALE");
    reveal_strlit("BACKUP_PATH");
    reveal_strlit("=");
    reveal_strlit("HOST_");
    reveal_strlit("_");
    let p = host_prefix(upper);
    let l1 = p + f1 + "="@ + x;
    let l2 = p + f2 + "="@ + y;
    assert(l1[p.len() as int] == f1[0]);
    assert(l2[p.len() as int] == f2[0]);
    assert(f1 == f2);
    let n = (p.len() + f1.len() + 1) as int;
    assert(l1.skip(n) =~= x);
    assert(l2.skip(n) =~= y);
}

/// Kept lines are never lines of the host.
proof fn lemma_kept_on_write_not_host(ls: Seq<Seq<char>>, upper: Seq<char>, x: Seq<char>)
    requires
        kept_on_write(ls, upper).contains(x),
    ensures
        !is_host_line(x, upper),
    decreases ls.len(),
{
    let r = kept_on_write(ls.drop_last(), upper);
    if !is_comment(ls.last()) && !is_host_line(ls.last(), upper) {
        if x != ls.last() {
            let i = choose|i: int| 0 <= i < kept_on_write(ls, upper).len() && kept_on_write(ls, upper)[i] == x;
            assert(r[i] == x);
            lemma_kept_on_write_not_host(ls.drop_last(), upper, x);
        }
    } else {
        lemma_kept_on_write_not_host(ls.drop_last(), upper, x);
    }
}

/// The line for `field` with value `v` is among the lines of a host exactly
/// when the host's value of that field is `v`.
proof fn lemma_var_line_contains(upper: Seq<char>, field: Seq<char>, o: Option<Seq<char>>, f: Seq<char>, v: Seq<char>)
    requires
        field == "IP"@ || field == "HOSTNAME"@ || field == "TAILSCALE"@ || field == "BACKUP_PATH"@,
        f == "IP"@ || f == "HOSTNAME"@ || f == "TAILSCALE"@ || f == "BACKUP_PATH"@,
    ensures
        var_line(upper, field, o).contains(host_prefix(upper) + f + "="@ + v) <==> (field == f && o == Some(v)),
{
    if let Some(x) = o {
        let l = host_prefix(upper) + field + "="@ + x;
        assert(var_line(upper, field, o)[0] == l);
        if l == host_prefix(upper) + f + "="@ + v {
            lemma_field_lines_differ(upper, field, x, f, v);
        }
    }
}

/// What a written host reads back as: the written lines hold
/// `HOST_<NAME>_IP=v`, `HOST_<NAME>_HOSTNAME=v`, `HOST_<NAME>_TAILSCALE=v`
/// and `HOST_<NAME>_BACKUP_PATH=v` exactly when the configuration's IP, host
/// name, Tailscale name and backup path are `v`: each line carries its own
/// field's value, and no other line of the host is left.
pub proof fn written_lines_carry_their_fields(ls: Seq<Seq<char>>, upper: Seq<char>, c: HostModel, v: Seq<char>)
    ensures
        write_lines(ls, upper, c).contains("HOST_"@ + upper + "_IP="@ + v) <==> c.ip == Some(v),
        write_lines(ls, upper, c).contains("HOST_"@ + upper + "_HOSTNAME="@ + v) <==> c.hostname == Some(v),
        write_lines(ls, upper, c).contains("HOST_"@ + upper + "_TAILSCALE="@ + v) <==> c.tailscale == Some(v),
        write_lines(ls, upper, c).contains("HOST_"@ + upper + "_BACKUP_PATH="@ + v) <==> c.backup_path == Some(v),
{
    reveal_strlit("HOST_");
    reveal_strlit("_");
    reveal_strlit("=");
    reveal_strlit("_IP=");
    reveal_strlit("_HOSTNAME=");
    reveal_strlit("_TAILSCALE=");
    reveal_strlit("_BACKUP_PATH=");
    reveal_strlit("IP");
    reveal_strlit("HOSTNAME");
    reveal_strlit("TAILSCALE");
    reveal_strlit("BACKUP_PATH");
    let k = kept_on_write(ls, upper);
    let a = var_line(upper, "IP"@, c.ip);
    let b = var_line(upper, "HOSTNAME"@, c.hostname);
    let d = var_line(upper, "TAILSCALE"@, c.tailscale);
    let e = var_line(upper, "BACKUP_PATH"@, c.backup_path);
    let w = write_lines(ls, upper, c);
    assert(w =~= k + a + b + d + e);
    let fields = seq!["IP"@, "HOSTNAME"@, "TAILSCALE"@, "BACKUP_PATH"@];
    assert forall|j: int| 0 <= j < 4 implies (#[trigger] w.contains(host_prefix(upper) + fields[j] + "="@ + v)) <==> (
    if j == 0 {
        c.ip == Some(v)
    } else if j == 1 {
        c.hostname == Some(v)
    } else if j == 2 {
        c.tailscale == Some(v)
    } else {
        c.backup_path == Some(v)
    }) by {
        let f = fields[j];
        let t = host_prefix(upper) + f + "="@ + v;
        lemma_var_line_contains(upper, "IP"@, c.ip, f, v);
        lemma_var_line_contains(upper, "HOSTNAME"@, c.hostname, f, v);
        lemma_var_line_contains(upper, "TAILSCALE"@, c.tailscale, f, v);
        lemma_var_line_contains(upper, "BACKUP_PATH"@, c.backup_path, f, v);
        lemma_var_line_is_host_line(upper, f, v);
        if k.contains(t) {
            lemma_kept_on_write_not_host(ls, upper, t);
        }
        if w.contains(t) {
            let i = choose|i: int| 0 <= i < w.len() && w[i] == t;
            if i < k.len() {
                assert(k[i] == t);
            } else if i < k.len() + a.len() {
                assert(a[i - k.len()] == t);
            } else if i < k.len() + a.len() + b.len() {
                assert(b[i - k.len() - a.len()] == t);
            } else if i < k.len() + a.len() + b.len() + d.len() {
                assert(d[i - k.len() - a.len() - b.len()] == t);
            } else {
                assert(e[i - k.len() - a.len() - b.len() - d.len()] == t);
            }
        }
        if a.contains(t) {
            let i = choose|i: int| 0 <= i < a.len() && a[i] == t;
            assert(w[k.len() + i] == t);
        }
        if b.contains(t) {
            let i = choose|i: int| 0 <= i < b.len() && b[i] == t;
            assert(w[k.len() + a.len() + i] == t);
        }
        if d.contains(t) {
            let i = choose|i: int| 0 <= i < d.len() && d[i] == t;
            assert(w[k.len() + a.len() + b.len() + i] == t);
        }
        if e.contains(t) {
            let i = choose|i: int| 0 <= i < e.len() && e[i] == t;
            assert(w[k.len() + a.len() + b.len() + d.len() + i] == t);
        }
    }
    assert("HOST_"@ + upper + "_IP="@ + v =~= host_prefix(upper) + fields[0] + "="@ + v);
    assert("HOST_"@ + upper + "_HOSTNAME="@ + v =~= host_prefix(upper) + fields[1] + "="@ + v);
    assert("HOST_"@ + upper + "_TAILSCALE="@ + v =~= host_prefix(upper) + fields[2] + "="@ + v);
    assert("HOST_"@ + upper + "_BACKUP_PATH="@ + v =~= host_prefix(upper) + fields[3] + "="@ + v);
}

// ---------------------------------------------------------------------------
// The same laws over the file's text
// ---------------------------------------------------------------------------

/// A line as `lines` gives it back unchanged: no line break in it and no
/// carriage return at its end.
pub open spec fn plain_line(l: Seq<char>) -> bool {
    !l.contains('\n') && !(l.len() > 0 && l.last() == '\r')
}

/// Every line of the sequence is plain.
pub open spec fn plain_lines(ls: Seq<Seq<char>>) -> bool {
    forall|i: int| 0 <= i < ls.len() ==> plain_line(#[trigger] ls[i])
}

/// Joining with a separator, taken apart at the first part.
proof fn lemma_join_first(a: Seq<char>, rest: Seq<Seq<char>>, sep: Seq<char>)
    requires
        rest.len() > 0,
    ensures
        join(seq![a] + rest, sep) == a + sep + join(rest, sep),
    decreases rest.len(),
{
    let all = seq![a] + rest;
    if rest.len() == 1 {
        assert(all.drop_last() =~= seq![a]);
        assert(all.last() == rest[0]);
        assert(join(rest, sep) == rest[0]);
        assert(join(seq![a], sep) == a);
        assert(all.len() == 2);
        assert(join(all, sep) == join(all.drop_last(), sep) + sep + all.last());
    } else {
        lemma_join_first(a, rest.drop_last(), sep);
        assert(all.drop_last() =~= seq![a] + rest.drop_last());
        assert(all.last() == rest.last());
        assert(a + sep + join(rest.drop_last(), sep) + sep + rest.last() =~= a + sep + (join(
            rest.drop_last(),
            sep,
        ) + sep + rest.last()));
    }
}

/// Reading back the text of plain lines gives the lines.
pub proof fn lemma_lines_of_file_text(ls: Seq<Seq<char>>)
    requires
        ls.len() > 0,
        plain_lines(ls),
    ensures
        lines(file_text(ls)) == ls,
    decreases ls.len(),
{
    reveal_strlit("\n");
    let a = ls[0];
    assert(plain_line(a));
    let rest = ls.drop_first();
    let t = if rest.len() == 0 { Seq::<char>::empty() } else { file_text(rest) };
    if rest.len() == 0 {
        assert(ls =~= seq![a]);
        assert(join(ls, "\n"@) == a);
    } else {
        assert(ls =~= seq![a] + rest);
        lemma_join_first(a, rest, "\n"@);
    }
    let text = file_text(ls);
    assert(text =~= a + seq!['\n'] + t);
    assert forall|j: int| 0 <= j < text.len() && j < a.len() implies text[j] != '\n' by {
        assert(text[j] == a[j]);
        if a[j] == '\n' {
            assert(a.contains('\n'));
        }
    }
    lemma_index_of_is(text, '\n', a.len() as int);
    assert(text.take(a.len() as int) =~= a);
    assert(text.skip(a.len() as int + 1) =~= t);
    assert(strip_cr(a) == a);
    if rest.len() > 0 {
        assert forall|i: int| 0 <= i < rest.len() implies plain_line(#[trigger] rest[i]) by {
            assert(rest[i] == ls[i + 1]);
        }
        lemma_lines_of_file_text(rest);
        assert(ls =~= seq![a] + rest);
    } else {
        assert(lines(t) =~= Seq::<Seq<char>>::empty());
    }
}

/// Lines kept by removal come from the lines given.
proof fn lemma_kept_on_remove_plain(ls: Seq<Seq<char>>, upper: Seq<char>)
    requires
        plain_lines(ls),
    ensures
        plain_lines(kept_on_remove(ls, upper)),
    decreases ls.len(),
{
    if ls.len() > 0 {
        assert forall|i: int| 0 <= i < ls.drop_last().len() implies plain_line(#[trigger] ls.drop_last()[i]) by {
            assert(ls.drop_last()[i] == ls[i]);
        }
        lemma_kept_on_remove_plain(ls.drop_last(), upper);
        assert(plain_line(ls[ls.len() - 1]));
    }
}

/// Lines kept by writing come from the lines given.
proof fn lemma_kept_on_write_plain(ls: Seq<Seq<char>>, upper: Seq<char>)
    requires
        plain_lines(ls),
    ensures
        plain_lines(kept_on_write(ls, upper)),
    decreases ls.len(),
{
    if ls.len() > 0 {
        assert forall|i: int| 0 <= i < ls.drop_last().len() implies plain_line(#[trigger] ls.drop_last()[i]) by {
            assert(ls.drop_last()[i] == ls[i]);
        }
        lemma_kept_on_write_plain(ls.drop_last(), upper);
        assert(plain_line(ls[ls.len() - 1]));
    }
}

/// The text of no lines is a single line break, which reads back as one
/// empty line; that line is neither a comment nor a line of any host.
proof fn lemma_empty_file_text(upper: Seq<char>)
    ensures
        file_text(Seq::<Seq<char>>::empty()) == seq!['\n'],
        lines(seq!['\n']) == seq![Seq::<char>::empty()],
        file_text(seq![Seq::<char>::empty()]) == seq!['\n'],
        !is_comment(Seq::<char>::empty()),
        !is_host_line(Seq::<char>::empty(), upper),
{
    reveal_strlit("\n");
    reveal_strlit("#");
    reveal_strlit("HOST_");
    reveal_strlit("_");
    let e = Seq::<Seq<char>>::empty();
    let nl = seq!['\n'];
    assert(file_text(e) =~= nl);
    lemma_index_of_is(nl, '\n', 0);
    let empty = Seq::<char>::empty();
    assert(nl.take(0) =~= empty);
    assert(nl.skip(1) =~= empty);
    assert(strip_cr(empty) == empty);
    assert(lines(empty) == e);
    assert(lines(nl) == seq![strip_cr(nl.take(0))] + lines(nl.skip(1)));
    assert(lines(nl) =~= seq![empty]);
    let one = seq![empty];
    assert(join(one, "\n"@) == empty);
    assert(file_text(one) =~= nl);
    assert(trim_start(empty) == empty);
    assert(trim_end(empty) == empty);
    assert(trimmed(empty) == empty);
}

/// Removing a host from a file a second time leaves the text as the first
/// removal left it, for a file none of whose lines (as `lines` reads them)
/// ends in a carriage return; on such a line a second reading would drop
/// the carriage return.
pub proof fn remove_host_text_idempotent(content: Seq<char>, upper: Seq<char>)
    requires
        forall|i: int| 0 <= i < lines(content).len() ==> plain_line(#[trigger] lines(content)[i]),
    ensures
        file_text(kept_on_remove(lines(file_text(kept_on_remove(lines(content), upper))), upper)) == file_text(
            kept_on_remove(lines(content), upper),
        ),
{
    let k = kept_on_remove(lines(content), upper);
    lemma_kept_on_remove_plain(lines(content), upper);
    if k.len() > 0 {
        lemma_lines_of_file_text(k);
        remove_host_idempotent(lines(content), upper);
    } else {
        lemma_empty_file_text(upper);
        let e = Seq::<Seq<char>>::empty();
        let one = seq![Seq::<char>::empty()];
        assert(k =~= e);
        assert(one.drop_last() =~= e);
        assert(kept_on_remove(e, upper) == e);
        assert(kept_on_remove(one, upper) =~= one);
    }
}

/// Writing a host to a file twice gives the text that writing it once
/// gives, for a file none of whose lines ends in a carriage return.
pub proof fn write_host_text_idempotent(content: Seq<char>, upper: Seq<char>, c: HostModel)
    requires
        forall|i: int| 0 <= i < lines(content).len() ==> plain_line(#[trigger] lines(content)[i]),
        forall|x: Seq<char>| #[trigger] host_lines(upper, c).contains(x) ==> plain_line(x),
    ensures
        file_text(write_lines(lines(file_text(write_lines(lines(content), upper, c))), upper, c)) == file_text(
            write_lines(lines(content), upper, c),
        ),
{
    let w = write_lines(lines(content), upper, c);
    lemma_kept_on_write_plain(lines(content), upper);
    let k = kept_on_write(lines(content), upper);
    let h = host_lines(upper, c);
    assert forall|i: int| 0 <= i < w.len() implies plain_line(#[trigger] w[i]) by {
        if i < k.len() {
            assert(w[i] == k[i]);
        } else {
            assert(w[i] == h[i - k.len()]);
            assert(h.contains(h[i - k.len()]));
        }
    }
    if w.len() > 0 {
        lemma_lines_of_file_text(w);
        write_host_idempotent(lines(content), upper, c);
    } else {
        lemma_empty_file_text(upper);
        let e = Seq::<Seq<char>>::empty();
        let one = seq![Seq::<char>::empty()];
        assert(k =~= e && h =~= e);
        assert(w =~= e);
        assert(one.drop_last() =~= e);
        assert(kept_on_write(e, upper) == e);
        assert(kept_on_write(one, upper) =~= one);
        assert(write_lines(one, upper, c) =~= one);
    }
}

// ---------------------------------------------------------------------------
// Implementation
// ---------------------------------------------------------------------------

/// Pushes `HOST_<NAME>_<FIELD>=<value>` when the value is set.
fn push_var_line(
    out: &mut Vec<String>,
    upper: &String,
    prefix: &String,
    field: &str,
    v: &Option<String>,
)
    requires
        prefix@ == host_prefix(upper@),
    ensures
        views(final(out)@) == views(old(out)@) + var_line(
            upper@,
            field@,
            crate::config::opt_view(*v),
        ),
{
    let ghost before = out@;
    match v {
        Some(x) => {
            let mut l = prefix.clone();
            push_str(&mut l, field);
            push_str(&mut l, "=");
            push_str(&mut l, x.as_str());
            out.push(l);
            assert(views(out@) =~= views(before).push(l@));
        },
        None => {
            assert(views(out@) =~= views(before) + Seq::<Seq<char>>::empty());
        },
    }
}

/// The text of a `.env` file after a host has been written to it: every
/// comment line and every line of that host (`HOST_<NAME>_...`, the name
/// upper-cased) is dropped, all other lines kept in order, then the host's
/// set fields are appended as
/// `HOST_<NAME>_IP`, `_HOSTNAME`, `_TAILSCALE`, `_BACKUP_PATH`; each line
/// ends with a newline.
pub fn write_host_to_env_text(content: &str, hostname: &str, config: &HostConfig) -> (r: String)
    ensures
        r@ == file_text(write_lines(lines(content@), uppercase(hostname@), config@)),
{
    let upper = to_uppercase(hostname);
    let mut prefix = to_string("HOST_");
    push_str(&mut prefix, upper.as_str());
    push_str(&mut prefix, "_");
    assert(prefix@ =~= host_prefix(upper@));
    let ls = lines_of(content);
    let ghost lv = lines(content@);
    let mut out: Vec<String> = Vec::new();
    let mut i: usize = 0;
    while i < ls.len()
        invariant
            ls@.len() == lv.len(),
            forall|k: int| 0 <= k < ls@.len() ==> #[trigger] ls@[k]@ == lv[k],
            prefix@ == host_prefix(upper@),
            i <= ls@.len(),
            views(out@) == kept_on_write(lv.take(i as int), upper@),
        decreases ls@.len() - i,
    {
        let t = trim(ls[i].as_str());
        let comment = starts_with(t.as_str(), "#");
        let own = starts_with(t.as_str(), prefix.as_str());
        proof {
            assert(lv.take(i + 1).drop_last() =~= lv.take(i as int));
            assert(lv.take(i + 1).last() == lv[i as int]);
        }
        if !comment && !own {
            let ghost before = out@;
            out.push(ls[i].clone());
            assert(views(out@) =~= views(before).push(lv[i as int]));
        }
        i = i + 1;
    }
    assert(lv.take(lv.len() as int) =~= lv);
    push_var_line(&mut out, &upper, &prefix, "IP", &config.ip);
    push_var_line(&mut out, &upper, &prefix, "HOSTNAME", &config.hostname);
    push_var_line(&mut out, &upper, &prefix, "TAILSCALE", &config.tailscale);
    push_var_line(&mut out, &upper, &prefix, "BACKUP_PATH", &config.backup_path);
    proof {
        let k = kept_on_write(lv, upper@);
        let a = var_line(upper@, "IP"@, config@.ip);
        let b = var_line(upper@, "HOSTNAME"@, config@.hostname);
        let d = var_line(upper@, "TAILSCALE"@, config@.tailscale);
        let e = var_line(upper@, "BACKUP_PATH"@, config@.backup_path);
        assert(views(out@) =~= k + (a + b + d + e));
    }
    let mut text = join_strings(&out, "\n");
    push_str(&mut text, "\n");
    text
}

/// The text of a `.env` file after a host has been removed from it: the
/// lines of that host are dropped, comments and everything else kept; each
/// line ends with a newline.
pub fn remove_host_from_env_text(content: &str, hostname: &str) -> (r: String)
    ensures
        r@ == file_text(kept_on_remove(lines(content@), uppercase(hostname@))),
{
    let upper = to_uppercase(hostname);
    let mut prefix = to_string("HOST_");
    push_str(&mut prefix, upper.as_str());
    push_str(&mut prefix, "_");
    assert(prefix@ =~= host_prefix(upper@));
    let ls = lines_of(content);
    let ghost lv = lines(content@);
    let mut out: Vec<String> = Vec::new();
    let mut i: usize = 0;
    while i < ls.len()
        invariant
            ls@.len() == lv.len(),
            forall|k: int| 0 <= k < ls@.len() ==> #[trigger] ls@[k]@ == lv[k],
            prefix@ == host_prefix(upper@),
            i <= ls@.len(),
            views(out@) == kept_on_remove(lv.take(i as int), upper@),
        decreases ls@.len() - i,
    {
        let t = trim(ls[i].as_str());
        let comment = starts_with(t.as_str(), "#");
        let own = starts_with(t.as_str(), prefix.as_str());
        proof {
            assert(lv.take(i + 1).drop_last() =~= lv.take(i as int));
            assert(lv.take(i + 1).last() == lv[i as int]);
        }
        if comment || !own {
            let ghost before = out@;
            out.push(ls[i].clone());
            assert(views(out@) =~= views(before).push(lv[i as int]));
        }
        i = i + 1;
    }
    assert(lv.take(lv.len() as int) =~= lv);
    let mut text = join_strings(&out, "\n");
    push_str(&mut text, "\n");
    text
}


/// The `.env` text after every database host with a configuration has been
/// written to it, in order.
pub open spec fn env_after_backup(content: Seq<char>, hosts: Seq<(Seq<char>, Option<HostModel>)>) -> Seq<char>
    decreases hosts.len(),
{
    if hosts.len() == 0 {
        content
    } else {
        let prev = env_after_backup(content, hosts.drop_last());
        match hosts.last().1 {
            Some(c) => file_text(write_lines(lines(prev), uppercase(hosts.last().0), c)),
            None => prev,
        }
    }
}

/// Plain values of database hosts with their configurations, if any.
pub open spec fn db_hosts_view(v: Seq<(String, Option<HostConfig>)>) -> Seq<(Seq<char>, Option<HostModel>)> {
    v.map_values(|h: (String, Option<HostConfig>)| (h.0@, match h.1 {
        Some(c) => Some(c@),
        None => None,
    }))
}

/// Number of hosts with a configuration.
pub open spec fn configured_count(hosts: Seq<(Seq<char>, Option<HostModel>)>) -> nat {
    hosts.filter(|h: (Seq<char>, Option<HostModel>)| h.1 is Some).len()
}

/// Writes every database host that has a configuration into the `.env`
/// text, in order, and counts them.
pub fn backup_all_to_env(content: &str, db_hosts: &Vec<(String, Option<HostConfig>)>) -> (r: (String, usize))
    ensures
        r.0@ == env_after_backup(content@, db_hosts_view(db_hosts@)),
        r.1 == configured_count(db_hosts_view(db_hosts@)),
{
    let ghost hv = db_hosts_view(db_hosts@);
    let mut text = to_string(content);
    let mut count: usize = 0;
    let mut i: usize = 0;
    while i < db_hosts.len()
        invariant
            i <= db_hosts@.len(),
            hv == db_hosts_view(db_hosts@),
            text@ == env_after_backup(content@, hv.take(i as int)),
            count == configured_count(hv.take(i as int)),
            count <= i,
        decreases db_hosts@.len() - i,
    {
        proof {
            let t = hv.take(i + 1);
            assert(t.drop_last() =~= hv.take(i as int));
            assert(t.last() == hv[i as int]);
            reveal(Seq::filter);
        }
        match &db_hosts[i].1 {
            Some(c) => {
                text = write_host_to_env_text(text.as_str(), db_hosts[i].0.as_str(), c);
                count = count + 1;
            },
            None => {},
        }
        i = i + 1;
    }
    assert(hv.take(db_hosts@.len() as int) =~= hv);
    (text, count)
}

} // verus!
