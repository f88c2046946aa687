//! Reading the outputs of the Docker diagnostics, the file lists of the
//! guided uninstall, and the names and commands of host backups.
use vstd::prelude::*;
use crate::text::{
    contains_seq, contains_str, eq_ignore_ascii_case, has_prefix, has_suffix, index_of, join,
    join_strings, lines, lines_of, lowercase, push_str, split_char, split_on, starts_with, str_eq,
    str_eq_ignore_ascii_case, to_lowercase, to_string, trim, trimmed, views,
};

verus! {

// ---------------------------------------------------------------------------
// Docker diagnostics
// ---------------------------------------------------------------------------

/// What `systemctl status docker` says of the service.
#[derive(Debug, PartialEq, Eq, Structural)]
pub enum ServiceState {
    Active,
    Failed,
    Inactive,
    Unknown,
}

/// The service state read from the status text; the first of `Active:
/// active`, `Active: failed`, `Active: inactive` found decides.
pub open spec fn service_state_of(text: Seq<char>) -> ServiceState {
    if contains_seq(text, "Active: active"@) {
        ServiceState::Active
    } else if contains_seq(text, "Active: failed"@) {
        ServiceState::Failed
    } else if contains_seq(text, "Active: inactive"@) {
        ServiceState::Inactive
    } else {
        ServiceState::Unknown
    }
}

/// The service state and whether the service starts on boot (the text
/// mentions `enabled`).
pub fn read_service_status(text: &str) -> (r: (ServiceState, bool))
    ensures
        r == (service_state_of(text@), contains_seq(text@, "enabled"@)),
{
    let state = if contains_str(text, "Active: active") {
        ServiceState::Active
    } else if contains_str(text, "Active: failed") {
        ServiceState::Failed
    } else if contains_str(text, "Active: inactive") {
        ServiceState::Inactive
    } else {
        ServiceState::Unknown
    };
    (state, contains_str(text, "enabled"))
}

/// A log line that reports a problem: lower-cased, it mentions an error or a
/// failure.
pub open spec fn is_problem_line(l: Seq<char>) -> bool {
    contains_seq(lowercase(l), "error"@) || contains_seq(lowercase(l), "failed"@)
}

/// The problem lines of a log, trimmed, in order.
pub open spec fn problem_lines(ls: Seq<Seq<char>>) -> Seq<Seq<char>>
    decreases ls.len(),
{
    if ls.len() == 0 {
        seq![]
    } else {
        let rest = problem_lines(ls.drop_last());
        if is_problem_line(ls.last()) { rest.push(trimmed(ls.last())) } else { rest }
    }
}

fn problem_line(l: &str) -> (r: bool)
    ensures
        r == is_problem_line(l@),
{
    let low = to_lowercase(l);
    contains_str(low.as_str(), "error") || contains_str(low.as_str(), "failed")
}

/// The lines of the service log that report problems, trimmed.
pub fn log_problems(logs: &str) -> (r: Vec<String>)
    ensures
        views(r@) == problem_lines(lines(logs@)),
{
    let ls = lines_of(logs);
    let ghost lv = lines(logs@);
    let mut out: Vec<String> = Vec::new();
    let mut i: usize = 0;
    while i < ls.len()
        invariant
            ls@.len() == lv.len(),
            forall|k: int| 0 <= k < ls@.len() ==> #[trigger] ls@[k]@ == lv[k],
            i <= ls@.len(),
            views(out@) == problem_lines(lv.take(i as int)),
        decreases ls@.len() - i,
    {
        proof {
            assert(lv.take(i + 1).drop_last() =~= lv.take(i as int));
            assert(lv.take(i + 1).last() == lv[i as int]);
        }
        if problem_line(ls[i].as_str()) {
            let t = trim(ls[i].as_str());
            let ghost before = out@;
            out.push(t);
            assert(views(out@) =~= views(before).push(trimmed(lv[i as int])));
        }
        i = i + 1;
    }
    assert(lv.take(ls@.len() as int) =~= lv);
    out
}

/// Whether the log shows the failure to create Docker's network controller.
pub fn network_controller_failure(logs: &str) -> (r: bool)
    ensures
        r == (contains_seq(lowercase(logs@), "network controller"@) || contains_seq(
            lowercase(logs@),
            "error creating default"@,
        )),
{
    let low = to_lowercase(logs);
    contains_str(low.as_str(), "network controller") || contains_str(low.as_str(), "error creating default")
}

/// The first line of `/etc/group` that starts with `docker:`, if any.
pub open spec fn docker_group_line(ls: Seq<Seq<char>>) -> Option<Seq<char>>
    decreases ls.len(),
{
    if ls.len() == 0 {
        None
    } else if has_prefix(ls[0], "docker:"@) {
        Some(ls[0])
    } else {
        docker_group_line(ls.drop_first())
    }
}

/// Whether the `docker` group of `/etc/group` lists the user (its line
/// mentions the name); `None` when there is no such group.
pub fn user_in_docker_group(group_content: &str, username: &str) -> (r: Option<bool>)
    ensures
        r == (match docker_group_line(lines(group_content@)) {
            Some(l) => Some(contains_seq(l, username@)),
            None => None,
        }),
{
    let ls = lines_of(group_content);
    let ghost lv = lines(group_content@);
    let mut i: usize = 0;
    assert(lv.skip(0) =~= lv);
    while i < ls.len()
        invariant
            ls@.len() == lv.len(),
            forall|k: int| 0 <= k < ls@.len() ==> #[trigger] ls@[k]@ == lv[k],
            i <= ls@.len(),
            lv == lines(group_content@),
            docker_group_line(lv) == docker_group_line(lv.skip(i as int)),
        decreases ls@.len() - i,
    {
        assert(lv.skip(i as int)[0] == lv[i as int]);
        assert(ls@[i as int]@ == lv[i as int]);
        if starts_with(ls[i].as_str(), "docker:") {
            let found = contains_str(ls[i].as_str(), username);
            assert(ls@[i as int]@ == lv[i as int]);
            assert(docker_group_line(lv.skip(i as int)) == Some(lv[i as int]));
            return Some(found);
        }
        assert(lv.skip(i as int).drop_first() =~= lv.skip(i + 1));
        i = i + 1;
    }
    None
}

// ---------------------------------------------------------------------------
// Guided uninstall
// ---------------------------------------------------------------------------

/// Where the tool's binaries may be installed.
pub open spec fn binary_locations(home: Seq<char>) -> Seq<Seq<char>> {
    seq![
        home + "/.cargo/bin/hal"@,
        home + "/.cargo/bin/halvor"@,
        home + "/.local/bin/hal"@,
        home + "/.local/bin/halvor"@,
        "/usr/local/bin/hal"@,
        "/usr/local/bin/halvor"@,
        "/usr/bin/hal"@,
        "/usr/bin/halvor"@,
    ]
}

fn home_path(home: &str, rest: &str) -> (r: String)
    ensures
        r@ == home@ + rest@,
{
    let mut s = to_string(home);
    push_str(&mut s, rest);
    s
}

/// Where the tool's binaries may be installed.
pub fn binary_paths(home: &str) -> (r: Vec<String>)
    ensures
        views(r@) == binary_locations(home@),
{
    let mut v: Vec<String> = Vec::new();
    v.push(home_path(home, "/.cargo/bin/hal"));
    v.push(home_path(home, "/.cargo/bin/halvor"));
    v.push(home_path(home, "/.local/bin/hal"));
    v.push(home_path(home, "/.local/bin/halvor"));
    v.push(to_string("/usr/local/bin/hal"));
    v.push(to_string("/usr/local/bin/halvor"));
    v.push(to_string("/usr/bin/hal"));
    v.push(to_string("/usr/bin/halvor"));
    assert(views(v@) =~= binary_locations(home@));
    v
}

/// The patterns of the backup copies left next to the binaries.
pub open spec fn backup_file_patterns(home: Seq<char>) -> Seq<Seq<char>> {
    seq![
        home + "/.cargo/bin/hal*.bak"@,
        home + "/.cargo/bin/halvor*.bak"@,
        home + "/.local/bin/hal*.bak"@,
        home + "/.local/bin/halvor*.bak"@,
        "/usr/local/bin/hal*.bak"@,
        "/usr/local/bin/halvor*.bak"@,
        "/usr/bin/hal*.bak"@,
        "/usr/bin/halvor*.bak"@,
    ]
}

/// The patterns of the backup copies left next to the binaries.
pub fn backup_patterns(home: &str) -> (r: Vec<String>)
    ensures
        views(r@) == backup_file_patterns(home@),
{
    let mut v: Vec<String> = Vec::new();
    v.push(home_path(home, "/.cargo/bin/hal*.bak"));
    v.push(home_path(home, "/.cargo/bin/halvor*.bak"));
    v.push(home_path(home, "/.local/bin/hal*.bak"));
    v.push(home_path(home, "/.local/bin/halvor*.bak"));
    v.push(to_string("/usr/local/bin/hal*.bak"));
    v.push(to_string("/usr/local/bin/halvor*.bak"));
    v.push(to_string("/usr/bin/hal*.bak"));
    v.push(to_string("/usr/bin/halvor*.bak"));
    assert(views(v@) =~= backup_file_patterns(home@));
    v
}

/// Files under `/usr` are removed with `sudo`.
pub fn needs_sudo(path: &str) -> (r: bool)
    ensures
        r == has_prefix(path@, "/usr"@),
{
    starts_with(path, "/usr")
}

/// Whether an answer to a `[y/N]` question is yes: `y` or `yes` in any
/// ASCII case, surrounding white space ignored.
pub fn confirms(answer: &str) -> (r: bool)
    ensures
        r == (eq_ignore_ascii_case(trimmed(answer@), "y"@) || eq_ignore_ascii_case(trimmed(answer@), "yes"@)),
{
    let t = trim(answer);
    str_eq_ignore_ascii_case(t.as_str(), "y") || str_eq_ignore_ascii_case(t.as_str(), "yes")
}

/// A guided uninstall of a named host other than `localhost` removes
/// services only; otherwise the tool itself is removed from this machine.
pub fn uninstall_is_remote(hostname: Option<&str>) -> (r: bool)
    ensures
        r == (match hostname {
            Some(h) => h@ != "localhost"@,
            None => false,
        }),
{
    match hostname {
        Some(h) => !str_eq(h, "localhost"),
        None => false,
    }
}

// ---------------------------------------------------------------------------
// Host backups
// ---------------------------------------------------------------------------

/// The last `/`-separated segment of a path.
pub open spec fn last_segment(p: Seq<char>) -> Seq<char> {
    split_char(p, '/').last()
}

pub(crate) fn last_segment_exec(p: &str) -> (r: String)
    ensures
        r@ == last_segment(p@),
{
    let parts = split_on(p, '/');
    proof {
        crate::text::lemma_split_char_nonempty(p@, '/');
    }
    let n = parts.len();
    to_string(parts[n - 1].as_str())
}

/// The directory of a backup: `<base>/<name>`.
pub fn backup_dir(base: &str, name: &str) -> (r: String)
    ensures
        r@ == base@ + "/"@ + name@,
{
    let mut s = to_string(base);
    push_str(&mut s, "/");
    push_str(&mut s, name);
    s
}

/// The archive name of a container's bind mount: the container, `_`, and
/// the last segment of the mounted path.
pub fn bind_mount_archive(container: &str, mount_path: &str) -> (r: String)
    ensures
        r@ == container@ + "_"@ + last_segment(mount_path@),
{
    let seg = last_segment_exec(mount_path);
    let mut s = to_string(container);
    push_str(&mut s, "_");
    push_str(&mut s, seg.as_str());
    s
}

/// The command that archives a mounted directory into the backup directory,
/// with `sudo` in front when asked.
pub open spec fn bind_mount_command(sudo: bool, mount_path: Seq<char>, dir: Seq<char>, archive: Seq<char>) -> Seq<char> {
    (if sudo { "sudo "@ } else { ""@ }) + "docker run --rm -v "@ + mount_path + ":/data:ro -v "@ + dir
        + ":/backup alpine tar czf /backup/"@ + archive + ".tar.gz -C /data ."@
}

/// The command that archives a mounted directory (see `bind_mount_command`).
pub fn bind_mount_backup_command(sudo: bool, mount_path: &str, dir: &str, archive: &str) -> (r: String)
    ensures
        r@ == bind_mount_command(sudo, mount_path@, dir@, archive@),
{
    let mut s = if sudo { to_string("sudo ") } else { String::new() };
    push_str(&mut s, "docker run --rm -v ");
    push_str(&mut s, mount_path);
    push_str(&mut s, ":/data:ro -v ");
    push_str(&mut s, dir);
    push_str(&mut s, ":/backup alpine tar czf /backup/");
    push_str(&mut s, archive);
    push_str(&mut s, ".tar.gz -C /data .");
    proof {
        reveal_strlit("");
    }
    s
}

/// The description written next to a backup.
pub open spec fn backup_info(host: Seq<char>, stamp: Seq<char>, date: Seq<char>, count: Seq<char>, volumes: Seq<Seq<char>>) -> Seq<char> {
    "Host: "@ + host + "\nTimestamp: "@ + stamp + "\nDate: "@ + date + "\nVolume Count: "@ + count
        + "\nVolumes:\n"@ + join(volumes.map_values(|v: Seq<char>| "  - "@ + v), "\n"@)
}

/// The description written next to a backup: host, time stamp, date, and
/// the volumes saved, one per line.
pub fn backup_metadata(host: &str, stamp: &str, date: &str, volumes: &Vec<String>) -> (r: String)
    ensures
        r@ == backup_info(host@, stamp@, date@, crate::text::decimal(volumes@.len() as nat), views(volumes@)),
{
    let mut items: Vec<String> = Vec::new();
    let mut i: usize = 0;
    while i < volumes.len()
        invariant
            i <= volumes@.len(),
            views(items@) == views(volumes@).take(i as int).map_values(|v: Seq<char>| "  - "@ + v),
        decreases volumes@.len() - i,
    {
        let mut l = to_string("  - ");
        push_str(&mut l, volumes[i].as_str());
        let ghost before = items@;
        items.push(l);
        assert(items@ == before.push(l));
        assert(views(items@) =~= views(before).push(l@));
        assert(views(volumes@).take(i + 1) =~= views(volumes@).take(i as int).push(volumes@[i as int]@));
        assert(views(items@) =~= views(volumes@).take(i + 1).map_values(|v: Seq<char>| "  - "@ + v));
        i = i + 1;
    }
    assert(views(volumes@).take(volumes@.len() as int) =~= views(volumes@));
    let list = join_strings(&items, "\n");
    let mut s = to_string("Host: ");
    push_str(&mut s, host);
    push_str(&mut s, "\nTimestamp: ");
    push_str(&mut s, stamp);
    push_str(&mut s, "\nDate: ");
    push_str(&mut s, date);
    push_str(&mut s, "\nVolume Count: ");
    let c = crate::text::decimal_string(volumes.len() as u64);
    push_str(&mut s, c.as_str());
    push_str(&mut s, "\nVolumes:\n");
    push_str(&mut s, list.as_str());
    s
}

/// `s` with every trailing `.tar.gz` removed.
pub open spec fn trim_archive_suffix(s: Seq<char>) -> Seq<char>
    decreases s.len(),
{
    if s.len() >= 7 && has_suffix(s, ".tar.gz"@) {
        trim_archive_suffix(s.take(s.len() - 7))
    } else {
        s
    }
}

/// The volumes a backup holds, from the listing of its archives: each
/// non-blank line ending in `.tar.gz` names the volume of its last path
/// segment without the suffix; empty names are skipped.
pub open spec fn archived_volumes(ls: Seq<Seq<char>>) -> Seq<Seq<char>>
    decreases ls.len(),
{
    if ls.len() == 0 {
        seq![]
    } else {
        let rest = archived_volumes(ls.drop_last());
        let l = ls.last();
        if trimmed(l).len() > 0 && has_suffix(l, ".tar.gz"@) {
            let v = trim_archive_suffix(last_segment(l));
            if v.len() > 0 { rest.push(v) } else { rest }
        } else {
            rest
        }
    }
}

fn trim_archive_suffix_exec(s: &str) -> (r: String)
    ensures
        r@ == trim_archive_suffix(s@),
{
    let v = crate::text::chars_of(s);
    let mut n: usize = v.len();
    assert(v@.take(n as int) =~= s@);
    loop
        invariant_except_break
            n <= v@.len(),
            v@ == s@,
            trim_archive_suffix(s@) == trim_archive_suffix(v@.take(n as int)),
        ensures
            n <= v@.len(),
            trim_archive_suffix(s@) == v@.take(n as int),
        decreases n,
    {
        proof {
            reveal_strlit(".tar.gz");
        }
        let ghost t = v@.take(n as int);
        if n >= 7 && v[n - 7] == '.' && v[n - 6] == 't' && v[n - 5] == 'a' && v[n - 4] == 'r' && v[n - 3] == '.'
            && v[n - 2] == 'g' && v[n - 1] == 'z' {
            proof {
                assert(t.skip(t.len() - 7) =~= ".tar.gz"@);
                assert(t.take(t.len() - 7) =~= v@.take(n - 7));
            }
            n = n - 7;
        } else {
            proof {
                if t.len() >= 7 && has_suffix(t, ".tar.gz"@) {
                    let u = t.skip(t.len() - 7);
                    assert(u[0] == '.' && u[1] == 't' && u[2] == 'a' && u[3] == 'r');
                    assert(u[4] == '.' && u[5] == 'g' && u[6] == 'z');
                }
            }
            break;
        }
    }
    crate::text::string_of_range(&v, 0, n)
}

/// The volumes to restore, from the listing of a backup's archives (see
/// `archived_volumes`).
pub fn volumes_to_restore(listing: &str) -> (r: Vec<String>)
    ensures
        views(r@) == archived_volumes(lines(listing@)),
{
    let ls = lines_of(listing);
    let ghost lv = lines(listing@);
    let mut out: Vec<String> = Vec::new();
    let mut i: usize = 0;
    while i < ls.len()
        invariant
            ls@.len() == lv.len(),
            forall|k: int| 0 <= k < ls@.len() ==> #[trigger] ls@[k]@ == lv[k],
            i <= ls@.len(),
            views(out@) == archived_volumes(lv.take(i as int)),
        decreases ls@.len() - i,
    {
        proof {
            assert(lv.take(i + 1).drop_last() =~= lv.take(i as int));
            assert(lv.take(i + 1).last() == lv[i as int]);
        }
        let l = ls[i].as_str();
        let t = trim(l);
        if t.unicode_len() > 0 && crate::text::ends_with(l, ".tar.gz") {
            let seg = last_segment_exec(l);
            let vol = trim_archive_suffix_exec(seg.as_str());
            if vol.unicode_len() > 0 {
                let ghost before = out@;
                out.push(vol);
                assert(views(out@) =~= views(before).push(trim_archive_suffix(last_segment(lv[i as int]))));
            }
        }
        i = i + 1;
    }
    assert(lv.take(ls@.len() as int) =~= lv);
    out
}


/// A time stamp as `%Y%m%d_%H%M%S` writes it.
pub open spec fn stamp_text(year: nat, month: nat, day: nat, hour: nat, minute: nat, second: nat) -> Seq<char> {
    crate::text::zero_pad(crate::text::decimal(year), 4) + crate::text::zero_pad(crate::text::decimal(month), 2)
        + crate::text::zero_pad(crate::text::decimal(day), 2) + "_"@ + crate::text::zero_pad(
        crate::text::decimal(hour),
        2,
    ) + crate::text::zero_pad(crate::text::decimal(minute), 2) + crate::text::zero_pad(
        crate::text::decimal(second),
        2,
    )
}

fn padded(n: u32, w: usize) -> (r: String)
    ensures
        r@ == crate::text::zero_pad(crate::text::decimal(n as nat), w as nat),
{
    let d = crate::text::decimal_string(n as u64);
    crate::migrations::zero_padded(d.as_str(), w)
}

/// The time stamp that names backups: year, month, day, `_`, hour, minute,
/// second, each zero-padded.
pub fn format_stamp(year: u32, month: u32, day: u32, hour: u32, minute: u32, second: u32) -> (r: String)
    ensures
        r@ == stamp_text(year as nat, month as nat, day as nat, hour as nat, minute as nat, second as nat),
{
    let mut s = padded(year, 4);
    let m = padded(month, 2);
    push_str(&mut s, m.as_str());
    let d = padded(day, 2);
    push_str(&mut s, d.as_str());
    push_str(&mut s, "_");
    let h = padded(hour, 2);
    push_str(&mut s, h.as_str());
    let mi = padded(minute, 2);
    push_str(&mut s, mi.as_str());
    let se = padded(second, 2);
    push_str(&mut s, se.as_str());
    s
}

/// `<prefix><stamp><suffix>`, as the backup files are named (`.env.backup_`,
/// `halvor_backup_` with `.db`, `halvor_pre_restore_` with `.db`).
pub fn stamped_name(prefix: &str, stamp: &str, suffix: &str) -> (r: String)
    ensures
        r@ == prefix@ + stamp@ + suffix@,
{
    let mut s = to_string(prefix);
    push_str(&mut s, stamp);
    push_str(&mut s, suffix);
    s
}

} // verus!
