//! Host and SMB configuration: the data model, host-name resolution and
//! the merging of partial host settings.
use vstd::prelude::*;
use crate::text::{
    chars_of, eq_ignore_ascii_case, ends_with, find_char, has_prefix, has_suffix, index_of, is_digit,
    lemma_index_of, lemma_index_of_is, starts_with, str_eq, str_eq_ignore_ascii_case, string_of,
    string_of_range, to_string, utf8_len_at_most, views,
};

verus! {

/// Connection settings of one host.
#[derive(Debug)]
pub struct HostConfig {
    pub ip: Option<String>,
    /// Primary host name.
    pub hostname: Option<String>,
    /// Tailscale host name, where it differs from the primary one.
    pub tailscale: Option<String>,
    pub backup_path: Option<String>,
}

/// Mathematical view of a [`HostConfig`].
pub struct HostModel {
    pub ip: Option<Seq<char>>,
    pub hostname: Option<Seq<char>>,
    pub tailscale: Option<Seq<char>>,
    pub backup_path: Option<Seq<char>>,
}

/// View of an optional string.
pub open spec fn opt_view(o: Option<String>) -> Option<Seq<char>> {
    match o {
        Some(s) => Some(s@),
        None => None,
    }
}

impl View for HostConfig {
    type V = HostModel;

    open spec fn view(&self) -> HostModel {
        HostModel {
            ip: opt_view(self.ip),
            hostname: opt_view(self.hostname),
            tailscale: opt_view(self.tailscale),
            backup_path: opt_view(self.backup_path),
        }
    }
}

/// The host model with no field set.
pub open spec fn empty_host() -> HostModel {
    HostModel { ip: None, hostname: None, tailscale: None, backup_path: None }
}

/// One SMB server and its shares.
#[derive(Debug)]
pub struct SmbServerConfig {
    pub host: String,
    /// Share names, in the order they were configured.
    pub shares: Vec<String>,
    pub username: Option<String>,
    pub password: Option<String>,
    pub options: Option<String>,
}

/// Mathematical view of a [`SmbServerConfig`].
pub struct SmbModel {
    pub host: Seq<char>,
    pub shares: Seq<Seq<char>>,
    pub username: Option<Seq<char>>,
    pub password: Option<Seq<char>>,
    pub options: Option<Seq<char>>,
}

impl View for SmbServerConfig {
    type V = SmbModel;

    open spec fn view(&self) -> SmbModel {
        SmbModel {
            host: self.host@,
            shares: views(self.shares@),
            username: opt_view(self.username),
            password: opt_view(self.password),
            options: opt_view(self.options),
        }
    }
}

/// The SMB server model with nothing set.
pub open spec fn empty_smb() -> SmbModel {
    SmbModel { host: seq![], shares: seq![], username: None, password: None, options: None }
}

/// A host configuration under its key (the lower-cased host name).
#[derive(Debug)]
pub struct NamedHost {
    pub name: String,
    pub config: HostConfig,
}

/// An SMB server configuration under its key.
#[derive(Debug)]
pub struct NamedSmbServer {
    pub name: String,
    pub config: SmbServerConfig,
}

/// The environment configuration: hosts and SMB servers, each key once,
/// in the order in which they were first seen.
#[derive(Debug)]
pub struct EnvConfig {
    pub tailnet_base: String,
    pub hosts: Vec<NamedHost>,
    pub smb_servers: Vec<NamedSmbServer>,
}

/// Mathematical view of an [`EnvConfig`].
pub struct EnvModel {
    pub tailnet_base: Seq<char>,
    pub hosts: Seq<(Seq<char>, HostModel)>,
    pub smb_servers: Seq<(Seq<char>, SmbModel)>,
}

/// Views of the host entries.
pub open spec fn hosts_view(v: Seq<NamedHost>) -> Seq<(Seq<char>, HostModel)> {
    v.map_values(|e: NamedHost| (e.name@, e.config@))
}

/// Views of the SMB entries.
pub open spec fn smb_view(v: Seq<NamedSmbServer>) -> Seq<(Seq<char>, SmbModel)> {
    v.map_values(|e: NamedSmbServer| (e.name@, e.config@))
}

impl View for EnvConfig {
    type V = EnvModel;

    open spec fn view(&self) -> EnvModel {
        EnvModel {
            tailnet_base: self.tailnet_base@,
            hosts: hosts_view(self.hosts@),
            smb_servers: smb_view(self.smb_servers@),
        }
    }
}

/// The keys of a list of entries.
pub open spec fn keys<T>(s: Seq<(Seq<char>, T)>) -> Seq<Seq<char>> {
    s.map_values(|e: (Seq<char>, T)| e.0)
}

/// Every key occurs once.
pub open spec fn unique_keys<T>(s: Seq<(Seq<char>, T)>) -> bool {
    forall|i: int, j: int| 0 <= i < s.len() && 0 <= j < s.len() && i != j ==> s[i].0 != s[j].0
}

/// Position of key `k`, or -1.
pub open spec fn key_index<T>(s: Seq<(Seq<char>, T)>, k: Seq<char>) -> int {
    index_of(keys(s), k)
}

/// Facts about `key_index`.
pub proof fn lemma_key_index<T>(s: Seq<(Seq<char>, T)>, k: Seq<char>)
    ensures
        -1 <= key_index(s, k) < s.len(),
        key_index(s, k) >= 0 ==> s[key_index(s, k)].0 == k,
        key_index(s, k) < 0 ==> forall|j: int| 0 <= j < s.len() ==> s[j].0 != k,
        unique_keys(s) && key_index(s, k) >= 0 ==> forall|j: int|
            0 <= j < s.len() && s[j].0 == k ==> j == key_index(s, k),
{
    lemma_index_of(keys(s), k);
    assert forall|j: int| 0 <= j < s.len() && key_index(s, k) < 0 implies s[j].0 != k by {
        assert(keys(s)[j] == s[j].0);
    }
    assert forall|j: int| 0 <= j < s.len() && unique_keys(s) && key_index(s, k) >= 0 && s[j].0 == k
        implies j == key_index(s, k) by {
        assert(keys(s)[j] == s[j].0);
        assert(keys(s)[key_index(s, k)] == s[key_index(s, k)].0);
    }
}

/// `key_index` of a position whose key is `k` and before which no key is `k`.
pub proof fn lemma_key_index_is<T>(s: Seq<(Seq<char>, T)>, k: Seq<char>, i: int)
    requires
        -1 <= i < s.len(),
        i >= 0 ==> s[i].0 == k,
        forall|j: int| 0 <= j < s.len() && (i < 0 || j < i) ==> s[j].0 != k,
    ensures
        key_index(s, k) == i,
{
    assert forall|j: int| 0 <= j < s.len() implies keys(s)[j] == s[j].0 by {}
    lemma_index_of_is(keys(s), k, i);
}

/// Position of `name` among the host entries.
pub fn find_host(hosts: &Vec<NamedHost>, name: &str) -> (r: Option<usize>)
    ensures
        match r {
            Some(i) => key_index(hosts_view(hosts@), name@) == i && i < hosts@.len()
                && hosts@[i as int].name@ == name@,
            None => key_index(hosts_view(hosts@), name@) == -1,
        },
{
    let ghost hv = hosts_view(hosts@);
    let mut i: usize = 0;
    while i < hosts.len()
        invariant
            hv == hosts_view(hosts@),
            i <= hosts@.len(),
            forall|j: int| 0 <= j < i ==> hv[j].0 != name@,
        decreases hosts@.len() - i,
    {
        if str_eq(hosts[i].name.as_str(), name) {
            proof {
                lemma_key_index_is(hv, name@, i as int);
            }
            return Some(i);
        }
        i = i + 1;
    }
    proof {
        lemma_key_index_is(hv, name@, -1);
    }
    None
}

/// Position of `name` among the SMB entries.
pub fn find_smb(servers: &Vec<NamedSmbServer>, name: &str) -> (r: Option<usize>)
    ensures
        match r {
            Some(i) => key_index(smb_view(servers@), name@) == i && i < servers@.len()
                && servers@[i as int].name@ == name@,
            None => key_index(smb_view(servers@), name@) == -1,
        },
{
    let ghost sv = smb_view(servers@);
    let mut i: usize = 0;
    while i < servers.len()
        invariant
            sv == smb_view(servers@),
            i <= servers@.len(),
            forall|j: int| 0 <= j < i ==> sv[j].0 != name@,
        decreases servers@.len() - i,
    {
        if str_eq(servers[i].name.as_str(), name) {
            proof {
                lemma_key_index_is(sv, name@, i as int);
            }
            return Some(i);
        }
        i = i + 1;
    }
    proof {
        lemma_key_index_is(sv, name@, -1);
    }
    None
}

/// A copy of an optional string.
pub fn copy_opt(o: &Option<String>) -> (r: Option<String>)
    ensures
        opt_view(r) == opt_view(*o),
{
    match o {
        Some(s) => Some(s.clone()),
        None => None,
    }
}

impl HostConfig {
    /// A host configuration with no field set.
    pub fn empty() -> (r: HostConfig)
        ensures
            r@ == empty_host(),
    {
        HostConfig { ip: None, hostname: None, tailscale: None, backup_path: None }
    }

    /// A copy of this configuration.
    pub fn copy(&self) -> (r: HostConfig)
        ensures
            r@ == self@,
    {
        HostConfig {
            ip: copy_opt(&self.ip),
            hostname: copy_opt(&self.hostname),
            tailscale: copy_opt(&self.tailscale),
            backup_path: copy_opt(&self.backup_path),
        }
    }
}

// ---------------------------------------------------------------------------
// Host-name normalisation and lookup
// ---------------------------------------------------------------------------

/// `s` with the first of the known domain suffixes that it ends with removed.
pub open spec fn strip_known_tld(s: Seq<char>) -> Seq<char> {
    if has_suffix(s, ".scottkey.me"@) {
        s.take(s.len() - ".scottkey.me"@.len())
    } else if has_suffix(s, ".ts.net"@) {
        s.take(s.len() - ".ts.net"@.len())
    } else if has_suffix(s, ".local"@) {
        s.take(s.len() - ".local"@.len())
    } else if has_suffix(s, ".lan"@) {
        s.take(s.len() - ".lan"@.len())
    } else {
        s
    }
}

/// Some character of `s` is an ASCII digit.
pub open spec fn has_ascii_digit(s: Seq<char>) -> bool {
    exists|i: int| 0 <= i < s.len() && is_digit(#[trigger] s[i])
}

/// The base host name: a known domain suffix removed, then everything from
/// the first dot when what follows it looks like a domain (at most ten bytes
/// of UTF-8, no digit), unless the name starts like a private or loopback
/// IPv4 address.
pub open spec fn normalized_hostname(h: Seq<char>) -> Seq<char> {
    let n = strip_known_tld(h);
    if index_of(n, '.') >= 0 && !has_prefix(n, "127."@) && !has_prefix(n, "192.168."@)
        && !has_prefix(n, "10."@) {
        let d = index_of(n, '.');
        let after = n.skip(d + 1);
        if vstd::utf8::encode_utf8(after).len() <= 10 && !has_ascii_digit(after) {
            n.take(d)
        } else {
            n
        }
    } else {
        n
    }
}

/// Removes `suffix` from the end of `v` if it is there.
fn strip_suffix_if(v: &Vec<char>, s: &str, suffix: &str) -> (r: Option<Vec<char>>)
    requires
        v@ == s@,
    ensures
        match r {
            Some(t) => has_suffix(s@, suffix@) && t@ == s@.take(s@.len() - suffix@.len()),
            None => !has_suffix(s@, suffix@),
        },
{
    if ends_with(s, suffix) {
        let n = suffix.unicode_len();
        let t = chars_of(string_of_range(v, 0, v.len() - n).as_str());
        Some(t)
    } else {
        None
    }
}

/// Strips known domain suffixes and a trailing domain part from a host name.
pub fn normalize_hostname(hostname: &str) -> (r: String)
    ensures
        r@ == normalized_hostname(hostname@),
{
    let v = chars_of(hostname);
    let n: Vec<char> = match strip_suffix_if(&v, hostname, ".scottkey.me") {
        Some(t) => t,
        None => match strip_suffix_if(&v, hostname, ".ts.net") {
            Some(t) => t,
            None => match strip_suffix_if(&v, hostname, ".local") {
                Some(t) => t,
                None => match strip_suffix_if(&v, hostname, ".lan") {
                    Some(t) => t,
                    None => v,
                },
            },
        },
    };
    assert(n@ == strip_known_tld(hostname@));
    let ns = string_of(&n);
    match find_char(&n, '.') {
        Some(d) => {
            proof {
                lemma_index_of(n@, '.');
            }
            if !starts_with(ns.as_str(), "127.") && !starts_with(ns.as_str(), "192.168.")
                && !starts_with(ns.as_str(), "10.") {
                let after = string_of_range(&n, d + 1, n.len());
                assert(after@ =~= n@.skip(d + 1));
                let after_chars = chars_of(after.as_str());
                let mut digit = false;
                let mut i: usize = 0;
                while i < after_chars.len()
                    invariant
                        after_chars@ == after@,
                        i <= after_chars@.len(),
                        digit == exists|j: int| 0 <= j < i && is_digit(#[trigger] after@[j]),
                    decreases after_chars@.len() - i,
                {
                    if '0' <= after_chars[i] && after_chars[i] <= '9' {
                        digit = true;
                    }
                    i = i + 1;
                }
                if utf8_len_at_most(&after_chars, 10) && !digit {
                    return string_of_range(&n, 0, d);
                }
            }
            ns
        },
        None => ns,
    }
}

/// The normalised name is a prefix of the name.
pub proof fn normalized_hostname_is_prefix(h: Seq<char>)
    ensures
        has_prefix(h, normalized_hostname(h)),
{
    let n = strip_known_tld(h);
    assert(h.take(h.len() as int) =~= h);
    assert(has_prefix(h, n));
    lemma_index_of(n, '.');
    let d = index_of(n, '.');
    if normalized_hostname(h) != n {
        assert(h.take(d) =~= n.take(d));
    }
}

/// A name ending in `p` ends in the last character of `p`.
proof fn lemma_suffix_last(s: Seq<char>, p: Seq<char>)
    requires
        has_suffix(s, p),
        p.len() > 0,
    ensures
        s.last() == p.last(),
{
    assert(s.skip(s.len() - p.len())[p.len() - 1] == s[s.len() - 1]);
}

/// A name ending in `p` has the first character of `p` where `p` starts.
proof fn lemma_suffix_first(s: Seq<char>, p: Seq<char>)
    requires
        has_suffix(s, p),
        p.len() > 0,
    ensures
        s[s.len() - p.len()] == p[0],
{
    assert(s.skip(s.len() - p.len())[0] == s[s.len() - p.len()]);
}

/// A name without a dot has no dot position.
proof fn lemma_no_dot(h: Seq<char>)
    requires
        !h.contains('.'),
    ensures
        index_of(h, '.') < 0,
{
    lemma_index_of(h, '.');
    if index_of(h, '.') >= 0 {
        assert(h[index_of(h, '.')] == '.');
    }
}

/// A name without a dot is its own normal form.
pub proof fn dot_free_hostname_unchanged(h: Seq<char>)
    requires
        !h.contains('.'),
    ensures
        normalized_hostname(h) == h,
{
    reveal_strlit(".scottkey.me");
    reveal_strlit(".ts.net");
    reveal_strlit(".local");
    reveal_strlit(".lan");
    if has_suffix(h, ".scottkey.me"@) {
        lemma_suffix_first(h, ".scottkey.me"@);
    }
    if has_suffix(h, ".ts.net"@) {
        lemma_suffix_first(h, ".ts.net"@);
    }
    if has_suffix(h, ".local"@) {
        lemma_suffix_first(h, ".local"@);
    }
    if has_suffix(h, ".lan"@) {
        lemma_suffix_first(h, ".lan"@);
    }
    assert(strip_known_tld(h) == h);
    lemma_no_dot(h);
}

/// A dot-free base name followed by one of the known domain suffixes
/// (`.scottkey.me`, `.ts.net`, `.local`, `.lan`) normalises to the base.
pub proof fn known_suffix_stripped(b: Seq<char>, t: Seq<char>)
    requires
        !b.contains('.'),
        t == ".scottkey.me"@ || t == ".ts.net"@ || t == ".local"@ || t == ".lan"@,
    ensures
        normalized_hostname(b + t) == b,
{
    reveal_strlit(".scottkey.me");
    reveal_strlit(".ts.net");
    reveal_strlit(".local");
    reveal_strlit(".lan");
    let s = b + t;
    assert(s.skip(s.len() - t.len()) =~= t);
    assert(s.take(s.len() - t.len()) =~= b);
    assert(s.last() == t.last());
    if has_suffix(s, ".scottkey.me"@) {
        lemma_suffix_last(s, ".scottkey.me"@);
    }
    if has_suffix(s, ".ts.net"@) {
        lemma_suffix_last(s, ".ts.net"@);
    }
    if has_suffix(s, ".local"@) {
        lemma_suffix_last(s, ".local"@);
    }
    assert(strip_known_tld(s) == b);
    lemma_no_dot(b);
}

/// The key under which `hostname` is configured: the name itself, else its
/// normalised form, else the first key (in entry order) equal to either
/// ignoring ASCII case.
pub open spec fn resolved_hostname(h: Seq<char>, hosts: Seq<(Seq<char>, HostModel)>) -> Option<
    Seq<char>,
> {
    let n = normalized_hostname(h);
    if key_index(hosts, h) >= 0 {
        Some(h)
    } else if n != h && key_index(hosts, n) >= 0 {
        Some(n)
    } else if exists|i: int| 0 <= i < hosts.len() && ci_match(hosts[i].0, h, n) {
        Some(hosts[first_ci_match(hosts, h, n)].0)
    } else {
        None
    }
}

/// `k` equals `h` or `n` ignoring ASCII case.
pub open spec fn ci_match(k: Seq<char>, h: Seq<char>, n: Seq<char>) -> bool {
    eq_ignore_ascii_case(k, h) || eq_ignore_ascii_case(k, n)
}

/// Index of the first entry whose key matches `h` or `n` ignoring ASCII case.
pub open spec fn first_ci_match(hosts: Seq<(Seq<char>, HostModel)>, h: Seq<char>, n: Seq<char>) -> int {
    choose|i: int|
        0 <= i < hosts.len() && ci_match(hosts[i].0, h, n) && forall|j: int|
            0 <= j < i ==> !ci_match(hosts[j].0, h, n)
}

/// A name always resolves to a key that is configured.
pub proof fn resolved_hostname_is_configured(h: Seq<char>, hosts: Seq<(Seq<char>, HostModel)>)
    ensures
        resolved_hostname(h, hosts) matches Some(k) ==> key_index(hosts, k) >= 0,
{
    let n = normalized_hostname(h);
    if key_index(hosts, h) < 0 && !(n != h && key_index(hosts, n) >= 0) && exists|i: int|
        0 <= i < hosts.len() && ci_match(hosts[i].0, h, n) {
        let w = choose|i: int| 0 <= i < hosts.len() && ci_match(hosts[i].0, h, n);
        lemma_first_ci_match_exists(hosts, h, n, w);
        let f = first_ci_match(hosts, h, n);
        lemma_key_index(hosts, hosts[f].0);
    }
}

/// A configured name resolves to itself.
pub proof fn configured_hostname_resolves_to_itself(h: Seq<char>, hosts: Seq<(Seq<char>, HostModel)>)
    requires
        key_index(hosts, h) >= 0,
    ensures
        resolved_hostname(h, hosts) == Some(h),
{
}

/// A name matches itself ignoring ASCII case.
proof fn lemma_eq_ignore_case_refl(a: Seq<char>)
    ensures
        eq_ignore_ascii_case(a, a),
{
}

/// A name resolves to nothing exactly when no key equals it or its
/// normalised form ignoring ASCII case.
pub proof fn unresolved_hostname_matches_no_key(h: Seq<char>, hosts: Seq<(Seq<char>, HostModel)>)
    ensures
        resolved_hostname(h, hosts) is None <==> !exists|i: int|
            0 <= i < hosts.len() && (eq_ignore_ascii_case(#[trigger] hosts[i].0, h) || eq_ignore_ascii_case(
                hosts[i].0,
                normalized_hostname(h),
            )),
{
    let n = normalized_hostname(h);
    lemma_key_index(hosts, h);
    lemma_key_index(hosts, n);
    lemma_eq_ignore_case_refl(h);
    lemma_eq_ignore_case_refl(n);
    if key_index(hosts, h) >= 0 {
        let i = key_index(hosts, h);
        assert(eq_ignore_ascii_case(hosts[i].0, h));
    } else if n != h && key_index(hosts, n) >= 0 {
        let i = key_index(hosts, n);
        assert(eq_ignore_ascii_case(hosts[i].0, n));
    } else {
        assert((exists|i: int| 0 <= i < hosts.len() && ci_match(hosts[i].0, h, n)) <==> exists|i: int|
            0 <= i < hosts.len() && (eq_ignore_ascii_case(#[trigger] hosts[i].0, h) || eq_ignore_ascii_case(
                hosts[i].0,
                n,
            )));
    }
}

/// When some entry matches, the first match is an entry that matches.
proof fn lemma_first_ci_match_exists(hosts: Seq<(Seq<char>, HostModel)>, h: Seq<char>, n: Seq<char>, w: int)
    requires
        0 <= w < hosts.len(),
        ci_match(hosts[w].0, h, n),
    ensures
        0 <= first_ci_match(hosts, h, n) < hosts.len(),
        ci_match(hosts[first_ci_match(hosts, h, n)].0, h, n),
    decreases w,
{
    if exists|j: int| 0 <= j < w && ci_match(hosts[j].0, h, n) {
        let j = choose|j: int| 0 <= j < w && ci_match(hosts[j].0, h, n);
        lemma_first_ci_match_exists(hosts, h, n, j);
    } else {
        assert(0 <= w < hosts.len() && ci_match(hosts[w].0, h, n) && forall|j: int|
            0 <= j < w ==> !ci_match(hosts[j].0, h, n));
    }
}

/// Finds the configured key for `hostname`, trying its normalised form and
/// case-insensitive matches when the exact name is not configured.
pub fn find_hostname_in_config(hostname: &str, config: &EnvConfig) -> (r: Option<String>)
    ensures
        opt_view(r) == resolved_hostname(hostname@, config@.hosts),
{
    let ghost hv = hosts_view(config.hosts@);
    if let Some(_) = find_host(&config.hosts, hostname) {
        return Some(to_string(hostname));
    }
    let normalized = normalize_hostname(hostname);
    if !str_eq(normalized.as_str(), hostname) {
        if let Some(_) = find_host(&config.hosts, normalized.as_str()) {
            return Some(normalized);
        }
    }
    let mut i: usize = 0;
    while i < config.hosts.len()
        invariant
            hv == hosts_view(config.hosts@),
            normalized@ == normalized_hostname(hostname@),
            key_index(hv, hostname@) < 0,
            !(normalized@ != hostname@ && key_index(hv, normalized@) >= 0),
            i <= hv.len(),
            forall|j: int| 0 <= j < i ==> !ci_match(hv[j].0, hostname@, normalized@),
        decreases hv.len() - i,
    {
        let key = &config.hosts[i].name;
        if str_eq_ignore_ascii_case(key.as_str(), hostname) || str_eq_ignore_ascii_case(
            key.as_str(),
            normalized.as_str(),
        ) {
            proof {
                assert(hv[i as int].0 == key@);
                let w = i as int;
                assert(0 <= w < hv.len() && ci_match(hv[w].0, hostname@, normalized@));
                assert(forall|j: int| 0 <= j < w ==> !ci_match(hv[j].0, hostname@, normalized@));
                let c = first_ci_match(hv, hostname@, normalized@);
                assert(0 <= c < hv.len() && ci_match(hv[c].0, hostname@, normalized@) && forall|
                    j: int,
                | 0 <= j < c ==> !ci_match(hv[j].0, hostname@, normalized@));
                if c < w {
                    assert(!ci_match(hv[c].0, hostname@, normalized@));
                } else if c > w {
                    assert(!ci_match(hv[w].0, hostname@, normalized@));
                }
                assert(c == w);
                assert(key_index(hv, hostname@) < 0);
                assert(!(normalized@ != hostname@ && key_index(hv, normalized@) >= 0));
                assert(exists|j: int| 0 <= j < hv.len() && ci_match(hv[j].0, hostname@, normalized@));
            }
            let res = key.clone();
            assert(res@ == hv[i as int].0);
            return Some(res);
        }
        i = i + 1;
    }
    None
}

// ---------------------------------------------------------------------------
// Merging host settings
// ---------------------------------------------------------------------------

/// The fields of a host configuration that can be set one at a time.
#[derive(PartialEq, Eq, Structural, Clone, Copy, Debug)]
pub enum HostField {
    Ip,
    Hostname,
    Tailscale,
    BackupPath,
}

/// `config` with one field set to `value`.
pub open spec fn with_field(config: HostModel, field: HostField, value: Seq<char>) -> HostModel {
    match field {
        HostField::Ip => HostModel { ip: Some(value), ..config },
        HostField::Hostname => HostModel { hostname: Some(value), ..config },
        HostField::Tailscale => HostModel { tailscale: Some(value), ..config },
        HostField::BackupPath => HostModel { backup_path: Some(value), ..config },
    }
}

/// The field that a field name denotes: `ip`, `hostname`, `tailscale` or `backup_path`.
pub open spec fn field_named(name: Seq<char>) -> Option<HostField> {
    if name == "ip"@ {
        Some(HostField::Ip)
    } else if name == "hostname"@ {
        Some(HostField::Hostname)
    } else if name == "tailscale"@ {
        Some(HostField::Tailscale)
    } else if name == "backup_path"@ {
        Some(HostField::BackupPath)
    } else {
        None
    }
}

/// Resolves a field name; an unknown name is an error.
pub fn parse_host_field(name: &str) -> (r: Option<HostField>)
    ensures
        r == field_named(name@),
{
    if str_eq(name, "ip") {
        Some(HostField::Ip)
    } else if str_eq(name, "hostname") {
        Some(HostField::Hostname)
    } else if str_eq(name, "tailscale") {
        Some(HostField::Tailscale)
    } else if str_eq(name, "backup_path") {
        Some(HostField::BackupPath)
    } else {
        None
    }
}

/// Sets one field of a host configuration, keeping the others.
pub fn set_field(config: &mut HostConfig, field: HostField, value: &str)
    ensures
        final(config)@ == with_field(old(config)@, field, value@),
{
    let v = to_string(value);
    match field {
        HostField::Ip => {
            config.ip = Some(v);
        },
        HostField::Hostname => {
            config.hostname = Some(v);
        },
        HostField::Tailscale => {
            config.tailscale = Some(v);
        },
        HostField::BackupPath => {
            config.backup_path = Some(v);
        },
    }
}

/// `a` if it is set, else `b`.
pub open spec fn or_else(a: Option<Seq<char>>, b: Option<Seq<char>>) -> Option<Seq<char>> {
    if a is Some {
        a
    } else {
        b
    }
}

/// Field by field, the first setting if present, else the second.
pub open spec fn prefer(first: Option<HostModel>, second: Option<HostModel>) -> HostModel {
    let f = match first {
        Some(m) => m,
        None => empty_host(),
    };
    let s = match second {
        Some(m) => m,
        None => empty_host(),
    };
    HostModel {
        ip: or_else(f.ip, s.ip),
        hostname: or_else(f.hostname, s.hostname),
        tailscale: or_else(f.tailscale, s.tailscale),
        backup_path: or_else(f.backup_path, s.backup_path),
    }
}

/// View of an optional host configuration.
pub open spec fn opt_host_view(o: Option<&HostConfig>) -> Option<HostModel> {
    match o {
        Some(h) => Some(h@),
        None => None,
    }
}

fn or_else_exec(a: &Option<String>, b: &Option<String>) -> (r: Option<String>)
    ensures
        opt_view(r) == or_else(opt_view(*a), opt_view(*b)),
{
    match a {
        Some(s) => Some(s.clone()),
        None => copy_opt(b),
    }
}

/// Merges two sources of a host's settings: each field from the first source
/// where it is set there, else from the second.
pub fn merge_host_configs(first: Option<&HostConfig>, second: Option<&HostConfig>) -> (r: HostConfig)
    ensures
        r@ == prefer(opt_host_view(first), opt_host_view(second)),
{
    let e1 = HostConfig::empty();
    let e2 = HostConfig::empty();
    let f = match first {
        Some(h) => h,
        None => &e1,
    };
    let s = match second {
        Some(h) => h,
        None => &e2,
    };
    HostConfig {
        ip: or_else_exec(&f.ip, &s.ip),
        hostname: or_else_exec(&f.hostname, &s.hostname),
        tailscale: or_else_exec(&f.tailscale, &s.tailscale),
        backup_path: or_else_exec(&f.backup_path, &s.backup_path),
    }
}

/// `config` with every field that `updates` sets replaced.
pub open spec fn updated(config: HostModel, updates: HostModel) -> HostModel {
    prefer(Some(updates), Some(config))
}

/// Applies a partial update: only the fields that `updates` sets change.
pub fn apply_host_updates(config: &HostConfig, updates: &HostConfig) -> (r: HostConfig)
    ensures
        r@ == updated(config@, updates@),
{
    merge_host_configs(Some(updates), Some(config))
}

/// Applying the same partial update twice gives what applying it once gives.
pub proof fn update_idempotent(config: HostModel, updates: HostModel)
    ensures
        updated(updated(config, updates), updates) == updated(config, updates),
{
}

/// An update that sets no field leaves the configuration as it is.
pub proof fn empty_update_keeps_config(config: HostModel)
    ensures
        updated(config, empty_host()) == config,
{
}

} // verus!
