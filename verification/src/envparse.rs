//! Reading host and SMB settings out of environment variables
//! (`HOST_<NAME>_<FIELD>` and `SMB_<SERVER>_<PROPERTY>`).
use vstd::prelude::*;
use crate::text::{
    chars_of, find_char, has_prefix, has_suffix, index_of, lemma_index_of, lowercase, split_char,
    split_on, starts_with, str_eq, string_of_range, to_lowercase, to_string, trim, trimmed, views,
    ends_with,
};
use crate::config::{
    EnvConfig, EnvModel, HostConfig, HostModel, NamedHost, NamedSmbServer, SmbModel,
    SmbServerConfig, empty_host, empty_smb, find_host, find_smb, hosts_view, key_index,
    keys, lemma_key_index, opt_view, smb_view, unique_keys,
};

verus! {

// ---------------------------------------------------------------------------
// Entry lists
// ---------------------------------------------------------------------------

/// The value under key `k`, or `d`.
pub open spec fn entry_or<T>(s: Seq<(Seq<char>, T)>, k: Seq<char>, d: T) -> T {
    if key_index(s, k) >= 0 {
        s[key_index(s, k)].1
    } else {
        d
    }
}

/// `s` with key `k` bound to `t`: replaced in place, or appended.
pub open spec fn put<T>(s: Seq<(Seq<char>, T)>, k: Seq<char>, t: T) -> Seq<(Seq<char>, T)> {
    if key_index(s, k) >= 0 {
        s.update(key_index(s, k), (k, t))
    } else {
        s.push((k, t))
    }
}

/// `put` keeps keys unique.
pub proof fn lemma_put_unique<T>(s: Seq<(Seq<char>, T)>, k: Seq<char>, t: T)
    requires
        unique_keys(s),
    ensures
        unique_keys(put(s, k, t)),
{
    lemma_key_index(s, k);
    let r = put(s, k, t);
    assert forall|i: int, j: int| 0 <= i < r.len() && 0 <= j < r.len() && i != j implies r[i].0
        != r[j].0 by {
        if key_index(s, k) >= 0 {
            let x = key_index(s, k);
            if i != x && j != x {
                assert(r[i] == s[i] && r[j] == s[j]);
            } else if i == x {
                assert(r[j] == s[j]);
            } else {
                assert(r[i] == s[i]);
            }
        } else {
            if i < s.len() && j < s.len() {
                assert(r[i] == s[i] && r[j] == s[j]);
            } else if i == s.len() {
                assert(r[j] == s[j]);
            } else {
                assert(r[i] == s[i]);
            }
        }
    }
}

// ---------------------------------------------------------------------------
// Specification of the parse
// ---------------------------------------------------------------------------

/// Which host field a `HOST_` variable sets.
#[derive(Debug)]
pub enum HostVarField {
    /// `_TAILSCALE_IP`: the address, unless one is set already.
    TailscaleIp,
    Ip,
    Hostname,
    Tailscale,
    BackupPath,
}

/// For the part of a variable name after `HOST_`: the host name and the field,
/// the suffixes tried in this order.
pub open spec fn host_var(rest: Seq<char>) -> Option<(Seq<char>, HostVarField)> {
    if has_suffix(rest, "_TAILSCALE_IP"@) {
        Some((rest.take(rest.len() - "_TAILSCALE_IP"@.len()), HostVarField::TailscaleIp))
    } else if has_suffix(rest, "_IP"@) {
        Some((rest.take(rest.len() - "_IP"@.len()), HostVarField::Ip))
    } else if has_suffix(rest, "_HOSTNAME"@) {
        Some((rest.take(rest.len() - "_HOSTNAME"@.len()), HostVarField::Hostname))
    } else if has_suffix(rest, "_TAILSCALE"@) {
        Some((rest.take(rest.len() - "_TAILSCALE"@.len()), HostVarField::Tailscale))
    } else if has_suffix(rest, "_BACKUP_PATH"@) {
        Some((rest.take(rest.len() - "_BACKUP_PATH"@.len()), HostVarField::BackupPath))
    } else {
        None
    }
}

/// A host after a variable for `field` with value `v`.
pub open spec fn host_after(h: HostModel, field: HostVarField, v: Seq<char>) -> HostModel {
    match field {
        HostVarField::TailscaleIp => if h.ip is None {
            HostModel { ip: Some(v), ..h }
        } else {
            h
        },
        HostVarField::Ip => HostModel { ip: Some(v), ..h },
        HostVarField::Hostname => HostModel { hostname: Some(v), ..h },
        HostVarField::Tailscale => HostModel { tailscale: Some(v), ..h },
        HostVarField::BackupPath => HostModel { backup_path: Some(v), ..h },
    }
}

/// Each part trimmed.
pub open spec fn trim_all(ps: Seq<Seq<char>>) -> Seq<Seq<char>> {
    ps.map_values(|p: Seq<char>| trimmed(p))
}

/// The parts that are not empty.
pub open spec fn non_empty(ps: Seq<Seq<char>>) -> Seq<Seq<char>> {
    ps.filter(|p: Seq<char>| p.len() > 0)
}

/// The shares of a comma-separated list: each trimmed, empty ones dropped.
pub open spec fn share_list(v: Seq<char>) -> Seq<Seq<char>> {
    non_empty(trim_all(split_char(v, ',')))
}

/// `non_empty` of a sequence with one more part.
pub proof fn lemma_non_empty_push(ps: Seq<Seq<char>>, p: Seq<char>)
    ensures
        non_empty(ps.push(p)) == if p.len() > 0 {
            non_empty(ps).push(p)
        } else {
            non_empty(ps)
        },
{
    reveal(Seq::filter);
    assert(ps.push(p).drop_last() =~= ps);
}

/// An SMB server after a variable for `property` with value `v`.
pub open spec fn smb_after(m: SmbModel, property: Seq<char>, v: Seq<char>) -> SmbModel {
    if property == "HOST"@ {
        SmbModel { host: v, ..m }
    } else if property == "SHARES"@ {
        SmbModel { shares: share_list(v), ..m }
    } else if property == "SHARE"@ {
        let t = trimmed(v);
        if t.len() > 0 && !m.shares.contains(t) {
            SmbModel { shares: m.shares.push(t), ..m }
        } else {
            m
        }
    } else if property == "USERNAME"@ {
        SmbModel { username: Some(v), ..m }
    } else if property == "PASSWORD"@ {
        SmbModel { password: Some(v), ..m }
    } else if property == "OPTIONS"@ {
        SmbModel { options: Some(v), ..m }
    } else {
        m
    }
}

/// Hosts and SMB servers read so far.
pub type ParseState = (Seq<(Seq<char>, HostModel)>, Seq<(Seq<char>, SmbModel)>);

/// The state after one variable. `HOST_<name>_<field>` sets a field of the host
/// whose key is `<name>` lower-cased; `SMB_<server>_<property>` (at least one `_`
/// after the prefix) sets a property of the server whose key is `<server>`
/// lower-cased, `<property>` being everything after the first `_`, and creates
/// the server even when the property is unknown. Other variables change nothing.
pub open spec fn parse_step(st: ParseState, var: (Seq<char>, Seq<char>)) -> ParseState {
    let (key, value) = var;
    if has_prefix(key, "HOST_"@) {
        match host_var(key.skip(5)) {
            Some((n, field)) => {
                let name = lowercase(n);
                (put(st.0, name, host_after(entry_or(st.0, name, empty_host()), field, value)), st.1)
            },
            None => st,
        }
    } else if has_prefix(key, "SMB_"@) {
        let rest = key.skip(4);
        let u = index_of(rest, '_');
        if u >= 0 {
            let name = lowercase(rest.take(u));
            let property = rest.skip(u + 1);
            (st.0, put(st.1, name, smb_after(entry_or(st.1, name, empty_smb()), property, value)))
        } else {
            st
        }
    } else {
        st
    }
}

/// `parse_step` as a function value.
pub open spec fn step_fn() -> spec_fn(ParseState, (Seq<char>, Seq<char>)) -> ParseState {
    |st: ParseState, var: (Seq<char>, Seq<char>)| parse_step(st, var)
}

/// The state after all variables, in order.
pub open spec fn parse_vars(vars: Seq<(Seq<char>, Seq<char>)>) -> ParseState {
    vars.fold_left((seq![], seq![]), step_fn())
}

/// The value of variable `name`, if it is set.
pub open spec fn var_value(vars: Seq<(Seq<char>, Seq<char>)>, name: Seq<char>) -> Option<Seq<char>> {
    if key_index(vars, name) >= 0 {
        Some(vars[key_index(vars, name)].1)
    } else {
        None
    }
}

/// Why an environment configuration is refused.
#[derive(Debug)]
pub enum EnvConfigError {
    /// The named SMB server has no `HOST`.
    SmbMissingHost(String),
    /// The named SMB server has no shares.
    SmbMissingShares(String),
}

/// An SMB server configuration is complete.
pub open spec fn smb_valid(m: SmbModel) -> bool {
    m.host.len() > 0 && m.shares.len() > 0
}

/// The configuration read from `vars`: `TAILNET_BASE` (default `ts.net`),
/// hosts and SMB servers.
pub open spec fn env_model(vars: Seq<(Seq<char>, Seq<char>)>) -> EnvModel {
    let st = parse_vars(vars);
    EnvModel {
        tailnet_base: match var_value(vars, "TAILNET_BASE"@) {
            Some(v) => v,
            None => "ts.net"@,
        },
        hosts: st.0,
        smb_servers: st.1,
    }
}

/// Views of the variables.
pub open spec fn vars_view(vars: Seq<(String, String)>) -> Seq<(Seq<char>, Seq<char>)> {
    vars.map_values(|v: (String, String)| (v.0@, v.1@))
}

/// Index of the first SMB server that is incomplete, or -1.
pub open spec fn first_invalid_smb(s: Seq<(Seq<char>, SmbModel)>) -> int
    decreases s.len(),
{
    if s.len() == 0 {
        -1
    } else if !smb_valid(s[0].1) {
        0
    } else {
        let r = first_invalid_smb(s.drop_first());
        if r < 0 {
            -1
        } else {
            r + 1
        }
    }
}

// ---------------------------------------------------------------------------
// Implementation
// ---------------------------------------------------------------------------

fn copy_strings(v: &Vec<String>) -> (r: Vec<String>)
    ensures
        views(r@) == views(v@),
{
    let mut r: Vec<String> = Vec::new();
    let mut i: usize = 0;
    while i < v.len()
        invariant
            i <= v@.len(),
            views(r@) == views(v@.take(i as int)),
        decreases v@.len() - i,
    {
        r.push(v[i].clone());
        proof {
            assert(views(v@.take(i + 1)) =~= views(v@.take(i as int)).push(v@[i as int]@));
            assert(views(r@) =~= views(v@.take(i as int)).push(v@[i as int]@));
        }
        i = i + 1;
    }
    assert(v@.take(v@.len() as int) =~= v@);
    r
}

impl SmbServerConfig {
    /// An SMB server configuration with nothing set.
    pub fn empty() -> (r: SmbServerConfig)
        ensures
            r@ == empty_smb(),
    {
        let r = SmbServerConfig {
            host: String::new(),
            shares: Vec::new(),
            username: None,
            password: None,
            options: None,
        };
        assert(r@.shares =~= Seq::<Seq<char>>::empty());
        r
    }

    /// A copy of this configuration.
    pub fn copy(&self) -> (r: SmbServerConfig)
        ensures
            r@ == self@,
    {
        SmbServerConfig {
            host: self.host.clone(),
            shares: copy_strings(&self.shares),
            username: crate::config::copy_opt(&self.username),
            password: crate::config::copy_opt(&self.password),
            options: crate::config::copy_opt(&self.options),
        }
    }
}

/// Binds `name` to `config` among the hosts.
fn put_host(hosts: &mut Vec<NamedHost>, name: String, config: HostConfig)
    requires
        unique_keys(hosts_view(old(hosts)@)),
    ensures
        hosts_view(final(hosts)@) == put(hosts_view(old(hosts)@), name@, config@),
        unique_keys(hosts_view(final(hosts)@)),
{
    let ghost old_v = hosts_view(hosts@);
    let ghost k = name@;
    let ghost m = config@;
    proof {
        lemma_put_unique(old_v, k, m);
    }
    match find_host(hosts, name.as_str()) {
        Some(i) => {
            hosts.set(i, NamedHost { name, config });
            assert(hosts_view(hosts@) =~= old_v.update(i as int, (k, m)));
        },
        None => {
            hosts.push(NamedHost { name, config });
            assert(hosts_view(hosts@) =~= old_v.push((k, m)));
        },
    }
}

/// Binds `name` to `config` among the SMB servers.
fn put_smb(servers: &mut Vec<NamedSmbServer>, name: String, config: SmbServerConfig)
    requires
        unique_keys(smb_view(old(servers)@)),
    ensures
        smb_view(final(servers)@) == put(smb_view(old(servers)@), name@, config@),
        unique_keys(smb_view(final(servers)@)),
{
    let ghost old_v = smb_view(servers@);
    let ghost k = name@;
    let ghost m = config@;
    proof {
        lemma_put_unique(old_v, k, m);
    }
    match find_smb(servers, name.as_str()) {
        Some(i) => {
            servers.set(i, NamedSmbServer { name, config });
            assert(smb_view(servers@) =~= old_v.update(i as int, (k, m)));
        },
        None => {
            servers.push(NamedSmbServer { name, config });
            assert(smb_view(servers@) =~= old_v.push((k, m)));
        },
    }
}

/// The host under `name`, or an empty one.
fn host_or_empty(hosts: &Vec<NamedHost>, name: &str) -> (r: HostConfig)
    ensures
        r@ == entry_or(hosts_view(hosts@), name@, empty_host()),
{
    match find_host(hosts, name) {
        Some(i) => {
            assert(hosts_view(hosts@)[i as int].1 == hosts@[i as int].config@);
            hosts[i].config.copy()
        },
        None => HostConfig::empty(),
    }
}

/// The SMB server under `name`, or an empty one.
fn smb_or_empty(servers: &Vec<NamedSmbServer>, name: &str) -> (r: SmbServerConfig)
    ensures
        r@ == entry_or(smb_view(servers@), name@, empty_smb()),
{
    match find_smb(servers, name) {
        Some(i) => {
            assert(smb_view(servers@)[i as int].1 == servers@[i as int].config@);
            servers[i].config.copy()
        },
        None => SmbServerConfig::empty(),
    }
}

/// Strips `suffix` from `rest` if present.
fn cut_suffix(rest: &str, suffix: &str) -> (r: Option<String>)
    ensures
        match r {
            Some(n) => has_suffix(rest@, suffix@) && n@ == rest@.take(rest@.len() - suffix@.len()),
            None => !has_suffix(rest@, suffix@),
        },
{
    if ends_with(rest, suffix) {
        let v = chars_of(rest);
        let n = suffix.unicode_len();
        Some(string_of_range(&v, 0, v.len() - n))
    } else {
        None
    }
}

/// Which host and field a `HOST_` variable names.
fn parse_host_var(rest: &str) -> (r: Option<(String, HostVarField)>)
    ensures
        match r {
            Some((n, f)) => host_var(rest@) == Some((n@, f)),
            None => host_var(rest@) is None,
        },
{
    if let Some(n) = cut_suffix(rest, "_TAILSCALE_IP") {
        return Some((n, HostVarField::TailscaleIp));
    }
    if let Some(n) = cut_suffix(rest, "_IP") {
        return Some((n, HostVarField::Ip));
    }
    if let Some(n) = cut_suffix(rest, "_HOSTNAME") {
        return Some((n, HostVarField::Hostname));
    }
    if let Some(n) = cut_suffix(rest, "_TAILSCALE") {
        return Some((n, HostVarField::Tailscale));
    }
    if let Some(n) = cut_suffix(rest, "_BACKUP_PATH") {
        return Some((n, HostVarField::BackupPath));
    }
    None
}

/// Applies one host variable.
fn apply_host_var(h: &mut HostConfig, field: HostVarField, value: &String)
    ensures
        final(h)@ == host_after(old(h)@, field, value@),
{
    let v = value.clone();
    match field {
        HostVarField::TailscaleIp => {
            if h.ip.is_none() {
                h.ip = Some(v);
            }
        },
        HostVarField::Ip => {
            h.ip = Some(v);
        },
        HostVarField::Hostname => {
            h.hostname = Some(v);
        },
        HostVarField::Tailscale => {
            h.tailscale = Some(v);
        },
        HostVarField::BackupPath => {
            h.backup_path = Some(v);
        },
    }
}

/// The shares of a comma-separated list.
pub fn parse_share_list(v: &str) -> (r: Vec<String>)
    ensures
        views(r@) == share_list(v@),
{
    let parts = split_on(v, ',');
    let ghost ps = split_char(v@, ',');
    let mut r: Vec<String> = Vec::new();
    let mut i: usize = 0;
    assert(views(r@) =~= non_empty(trim_all(ps.take(0)))) by {
        reveal(Seq::filter);
        assert(trim_all(ps.take(0)) =~= Seq::<Seq<char>>::empty());
    }
    while i < parts.len()
        invariant
            parts@.len() == ps.len(),
            forall|k: int| 0 <= k < parts@.len() ==> #[trigger] parts@[k]@ == ps[k],
            i <= parts@.len(),
            views(r@) == non_empty(trim_all(ps.take(i as int))),
        decreases parts@.len() - i,
    {
        let t = trim(parts[i].as_str());
        proof {
            let a = trim_all(ps.take(i as int));
            assert(trim_all(ps.take(i + 1)) =~= a.push(trimmed(ps[i as int])));
            lemma_non_empty_push(a, trimmed(ps[i as int]));
        }
        let ghost before = r@;
        if t.unicode_len() > 0 {
            r.push(t);
            assert(views(r@) =~= views(before).push(trimmed(ps[i as int])));
        }
        i = i + 1;
    }
    assert(ps.take(ps.len() as int) =~= ps);
    r
}

/// Whether `t` is among `shares`.
fn contains_share(shares: &Vec<String>, t: &str) -> (r: bool)
    ensures
        r == views(shares@).contains(t@),
{
    let mut i: usize = 0;
    while i < shares.len()
        invariant
            i <= shares@.len(),
            forall|j: int| 0 <= j < i ==> shares@[j]@ != t@,
        decreases shares@.len() - i,
    {
        if str_eq(shares[i].as_str(), t) {
            assert(views(shares@)[i as int] == t@);
            return true;
        }
        i = i + 1;
    }
    proof {
        if views(shares@).contains(t@) {
            let j = choose|j: int| 0 <= j < views(shares@).len() && views(shares@)[j] == t@;
            assert(shares@[j]@ == t@);
        }
    }
    false
}

/// Applies one SMB property.
fn apply_smb_property(m: &mut SmbServerConfig, property: &str, value: &String)
    ensures
        final(m)@ == smb_after(old(m)@, property@, value@),
{
    if str_eq(property, "HOST") {
        m.host = value.clone();
    } else if str_eq(property, "SHARES") {
        m.shares = parse_share_list(value.as_str());
    } else if str_eq(property, "SHARE") {
        let t = trim(value.as_str());
        if t.unicode_len() > 0 && !contains_share(&m.shares, t.as_str()) {
            let ghost before = m.shares@;
            m.shares.push(t);
            assert(views(m.shares@) =~= views(before).push(trimmed(value@)));
        }
    } else if str_eq(property, "USERNAME") {
        m.username = Some(value.clone());
    } else if str_eq(property, "PASSWORD") {
        m.password = Some(value.clone());
    } else if str_eq(property, "OPTIONS") {
        m.options = Some(value.clone());
    }
}

/// The value of the variable named `name`, if set.
pub(crate) fn lookup_var(vars: &Vec<(String, String)>, name: &str) -> (r: Option<String>)
    ensures
        opt_view(r) == var_value(vars_view(vars@), name@),
{
    let ghost vv = vars_view(vars@);
    let mut i: usize = 0;
    while i < vars.len()
        invariant
            vv == vars_view(vars@),
            i <= vars@.len(),
            forall|j: int| 0 <= j < i ==> vv[j].0 != name@,
        decreases vars@.len() - i,
    {
        if str_eq(vars[i].0.as_str(), name) {
            proof {
                crate::config::lemma_key_index_is(vv, name@, i as int);
            }
            return Some(vars[i].1.clone());
        }
        i = i + 1;
    }
    proof {
        crate::config::lemma_key_index_is(vv, name@, -1);
    }
    None
}

/// Reads the host and SMB settings out of the given variables, in order
/// (the environment after the `.env` file has been loaded into it).
/// An SMB server without a host or without shares is refused; the first
/// such server, in the order servers were first seen, is named.
pub fn parse_env_config(vars: &Vec<(String, String)>) -> (r: Result<EnvConfig, EnvConfigError>)
    ensures
        ({
            let m = env_model(vars_view(vars@));
            let bad = first_invalid_smb(m.smb_servers);
            match r {
                Ok(c) => bad < 0 && c@ == m && unique_keys(c@.hosts) && unique_keys(
                    c@.smb_servers,
                ),
                Err(EnvConfigError::SmbMissingHost(n)) => bad >= 0 && m.smb_servers[bad].0 == n@
                    && m.smb_servers[bad].1.host.len() == 0,
                Err(EnvConfigError::SmbMissingShares(n)) => bad >= 0 && m.smb_servers[bad].0
                    == n@ && m.smb_servers[bad].1.host.len() > 0
                    && m.smb_servers[bad].1.shares.len() == 0,
            }
        }),
{
    let ghost vv = vars_view(vars@);
    let ghost step = step_fn();
    let mut hosts: Vec<NamedHost> = Vec::new();
    let mut smbs: Vec<NamedSmbServer> = Vec::new();
    let mut i: usize = 0;
    assert(hosts_view(hosts@) =~= Seq::<(Seq<char>, HostModel)>::empty());
    assert(smb_view(smbs@) =~= Seq::<(Seq<char>, SmbModel)>::empty());
    assert(vv.take(0).fold_left((seq![], seq![]), step) == (
        Seq::<(Seq<char>, HostModel)>::empty(),
        Seq::<(Seq<char>, SmbModel)>::empty(),
    ));
    while i < vars.len()
        invariant
            vv == vars_view(vars@),
            step == step_fn(),
            i <= vars@.len(),
            (hosts_view(hosts@), smb_view(smbs@)) == vv.take(i as int).fold_left(
                (seq![], seq![]),
                step,
            ),
            unique_keys(hosts_view(hosts@)),
            unique_keys(smb_view(smbs@)),
        decreases vars@.len() - i,
    {
        let key = &vars[i].0;
        let value = &vars[i].1;
        proof {
            assert(vv.take(i + 1).drop_last() =~= vv.take(i as int));
            assert(vv.take(i + 1).last() == (key@, value@));
        }
        let ghost before = (hosts_view(hosts@), smb_view(smbs@));
        if starts_with(key.as_str(), "HOST_") {
            let kv = chars_of(key.as_str());
            proof {
                reveal_strlit("HOST_");
            }
            let rest = string_of_range(&kv, 5, kv.len());
            assert(rest@ =~= key@.skip(5));
            if let Some((n, field)) = parse_host_var(rest.as_str()) {
                let name = to_lowercase(n.as_str());
                let mut h = host_or_empty(&hosts, name.as_str());
                apply_host_var(&mut h, field, value);
                put_host(&mut hosts, name, h);
            }
        } else if starts_with(key.as_str(), "SMB_") {
            let kv = chars_of(key.as_str());
            proof {
                reveal_strlit("SMB_");
            }
            let rest_s = string_of_range(&kv, 4, kv.len());
            let rest = chars_of(rest_s.as_str());
            assert(rest@ =~= key@.skip(4));
            if let Some(u) = find_char(&rest, '_') {
                proof {
                    lemma_index_of(rest@, '_');
                }
                let server = string_of_range(&rest, 0, u);
                let property = string_of_range(&rest, u + 1, rest.len());
                assert(server@ =~= rest@.take(u as int));
                assert(property@ =~= rest@.skip(u + 1));
                let name = to_lowercase(server.as_str());
                let mut m = smb_or_empty(&smbs, name.as_str());
                apply_smb_property(&mut m, property.as_str(), value);
                put_smb(&mut smbs, name, m);
            }
        }
        assert((hosts_view(hosts@), smb_view(smbs@)) == parse_step(before, (key@, value@)));
        proof {
            let init: ParseState = (seq![], seq![]);
            assert(vv.take(i + 1).fold_left(init, step) == step(
                vv.take(i + 1).drop_last().fold_left(init, step),
                vv.take(i + 1).last(),
            ));
            assert(step(before, (key@, value@)) == parse_step(before, (key@, value@)));
        }
        i = i + 1;
    }
    assert(vv.take(vv.len() as int) =~= vv);
    let base = match lookup_var(vars, "TAILNET_BASE") {
        Some(b) => b,
        None => to_string("ts.net"),
    };
    let mut j: usize = 0;
    let ghost sv = smb_view(smbs@);
    assert(sv == env_model(vv).smb_servers);
    while j < smbs.len()
        invariant
            sv == smb_view(smbs@),
            sv == env_model(vv).smb_servers,
            vv == vars_view(vars@),
            j <= sv.len(),
            forall|k: int| 0 <= k < j ==> smb_valid(#[trigger] sv[k].1),
        decreases sv.len() - j,
    {
        let s = &smbs[j];
        assert(sv[j as int].1 == s.config@);
        assert(sv[j as int].0 == s.name@);
        if s.config.host.unicode_len() == 0 {
            proof {
                lemma_first_invalid_is(sv, j as int);
            }
            return Err(EnvConfigError::SmbMissingHost(s.name.clone()));
        }
        if s.config.shares.len() == 0 {
            proof {
                lemma_first_invalid_is(sv, j as int);
            }
            return Err(EnvConfigError::SmbMissingShares(s.name.clone()));
        }
        j = j + 1;
    }
    proof {
        lemma_first_invalid_is(sv, -1);
    }
    Ok(EnvConfig { tailnet_base: base, hosts, smb_servers: smbs })
}

/// `first_invalid_smb` is the first incomplete entry.
pub proof fn lemma_first_invalid_is(s: Seq<(Seq<char>, SmbModel)>, k: int)
    requires
        -1 <= k < s.len(),
        k >= 0 ==> !smb_valid(s[k].1),
        forall|j: int| 0 <= j < s.len() && (k < 0 || j < k) ==> smb_valid(#[trigger] s[j].1),
    ensures
        first_invalid_smb(s) == k,
    decreases s.len(),
{
    if s.len() > 0 && k != 0 {
        assert(smb_valid(s[0].1));
        let t = s.drop_first();
        assert forall|j: int| 0 <= j < t.len() && (k - 1 < 0 || j < k - 1) implies smb_valid(
            #[trigger] t[j].1,
        ) by {
            assert(t[j] == s[j + 1]);
        }
        if k > 0 {
            assert(t[k - 1] == s[k]);
            lemma_first_invalid_is(t, k - 1);
        } else {
            lemma_first_invalid_is(t, -1);
        }
    }
}


/// `env` with each host of `db` put in, in order: a database host replaces
/// the `.env` host of the same name, other hosts are appended.
pub open spec fn merged_hosts(env: Seq<(Seq<char>, HostModel)>, db: Seq<(Seq<char>, HostModel)>) -> Seq<(Seq<char>, HostModel)>
    decreases db.len(),
{
    if db.len() == 0 {
        env
    } else {
        put(merged_hosts(env, db.drop_last()), db.last().0, db.last().1)
    }
}

/// The configuration with the database's hosts merged in; the database's
/// configuration of a host takes precedence over the `.env` file's.
pub fn merge_database_hosts(config: &mut EnvConfig, db_hosts: Vec<NamedHost>)
    requires
        unique_keys(old(config)@.hosts),
    ensures
        final(config)@.hosts == merged_hosts(old(config)@.hosts, hosts_view(db_hosts@)),
        unique_keys(final(config)@.hosts),
        final(config)@.tailnet_base == old(config)@.tailnet_base,
        final(config)@.smb_servers == old(config)@.smb_servers,
{
    let ghost env = config@.hosts;
    let ghost dv = hosts_view(db_hosts@);
    let mut rest = db_hosts;
    let mut taken: usize = 0;
    let ghost all = rest@;
    let total = rest.len();
    assert(rest@ =~= all.subrange(0, all.len() as int));
    while rest.len() > 0
        invariant
            taken + rest@.len() == all.len(),
            all.len() == total,
            rest@ == all.subrange(taken as int, all.len() as int),
            dv == hosts_view(all),
            unique_keys(config@.hosts),
            config@.hosts == merged_hosts(env, dv.take(taken as int)),
            config@.tailnet_base == old(config)@.tailnet_base,
            config@.smb_servers == old(config)@.smb_servers,
        decreases rest@.len(),
    {
        let h = rest.remove(0);
        proof {
            assert(h == all[taken as int]);
            assert(dv.take(taken + 1).drop_last() =~= dv.take(taken as int));
            assert(dv.take(taken + 1).last() == (h.name@, h.config@));
            assert(rest@ =~= all.subrange(taken + 1, all.len() as int));
        }
        put_host(&mut config.hosts, h.name, h.config);
        taken = taken + 1;
    }
    assert(dv.take(all.len() as int) =~= dv);
}

/// The configuration a host has after the merge: the database's when the
/// database has the host, the `.env` file's otherwise.
pub proof fn database_overrides_env(env: Seq<(Seq<char>, HostModel)>, db: Seq<(Seq<char>, HostModel)>, k: Seq<char>)
    requires
        unique_keys(env),
        unique_keys(db),
    ensures
        key_index(db, k) >= 0 ==> entry_or(merged_hosts(env, db), k, empty_host()) == db[key_index(db, k)].1,
        key_index(db, k) < 0 ==> entry_or(merged_hosts(env, db), k, empty_host()) == entry_or(env, k, empty_host()),
        unique_keys(merged_hosts(env, db)),
    decreases db.len(),
{
    if db.len() > 0 {
        let d = db.drop_last();
        assert(unique_keys(d)) by {
            assert forall|i: int, j: int| 0 <= i < d.len() && 0 <= j < d.len() && i != j implies d[i].0 != d[j].0 by {
                assert(d[i] == db[i] && d[j] == db[j]);
            }
        }
        database_overrides_env(env, d, k);
        let m = merged_hosts(env, d);
        lemma_put_unique(m, db.last().0, db.last().1);
        lemma_key_index(m, k);
        lemma_key_index(db, k);
        lemma_key_index(d, k);
        let r = put(m, db.last().0, db.last().1);
        lemma_key_index(r, k);
        lemma_key_index(m, db.last().0);
        if k == db.last().0 {
            assert forall|j: int| 0 <= j < db.len() && (db.len() - 1 < 0 || j < db.len() - 1) implies db[j].0 != k by {
                assert(db[j].0 != db[db.len() - 1].0);
            }
            crate::config::lemma_key_index_is(db, k, db.len() - 1);
            if key_index(m, k) >= 0 {
                let x = key_index(m, k);
                assert forall|j: int| 0 <= j < r.len() && (x < 0 || j < x) implies r[j].0 != k by {
                    assert(r[j] == m[j]);
                    if m[j].0 == k {
                        assert(j == x);
                    }
                }
                crate::config::lemma_key_index_is(r, k, x);
            } else {
                assert forall|j: int| 0 <= j < r.len() && (m.len() < 0 || j < m.len()) implies r[j].0 != k by {
                    assert(r[j] == m[j]);
                }
                crate::config::lemma_key_index_is(r, k, m.len() as int);
            }
        } else {
            if key_index(db, k) >= 0 {
                let x = key_index(db, k);
                assert(x != db.len() - 1);
                assert(d[x] == db[x]);
                crate::config::lemma_key_index_is(d, k, x);
            } else {
                assert forall|j: int| 0 <= j < d.len() implies d[j].0 != k by {
                    assert(d[j] == db[j]);
                }
                crate::config::lemma_key_index_is(d, k, -1);
            }
            if key_index(m, db.last().0) >= 0 {
                let y = key_index(m, db.last().0);
                if key_index(m, k) >= 0 {
                    assert(key_index(m, k) != y);
                    crate::config::lemma_key_index_is(r, k, key_index(m, k));
                } else {
                    crate::config::lemma_key_index_is(r, k, -1);
                }
            } else {
                if key_index(m, k) >= 0 {
                    crate::config::lemma_key_index_is(r, k, key_index(m, k));
                } else {
                    assert forall|j: int| 0 <= j < r.len() implies r[j].0 != k by {
                        if j < m.len() {
                            assert(r[j] == m[j]);
                        }
                    }
                    crate::config::lemma_key_index_is(r, k, -1);
                }
            }
        }
    }
}


/// A key is present after `put` exactly when it was present before or is
/// the key put.
pub proof fn lemma_put_keys<T>(s: Seq<(Seq<char>, T)>, k: Seq<char>, t: T, x: Seq<char>)
    ensures
        key_index(put(s, k, t), x) >= 0 <==> (key_index(s, x) >= 0 || x == k),
{
    let r = put(s, k, t);
    lemma_key_index(s, k);
    lemma_key_index(s, x);
    lemma_key_index(r, x);
    let p = if key_index(s, k) >= 0 { key_index(s, k) } else { s.len() as int };
    assert(r[p].0 == k);
    if key_index(s, x) >= 0 {
        let j = key_index(s, x);
        if j != p {
            assert(r[j] == s[j]);
        }
    }
    if key_index(r, x) >= 0 && x != k {
        let j = key_index(r, x);
        assert(j != p);
        assert(r[j] == s[j]);
    }
}

/// The hosts after the merge are those of the `.env` file and those of the
/// database, nothing else.
pub proof fn merged_hosts_keys(env: Seq<(Seq<char>, HostModel)>, db: Seq<(Seq<char>, HostModel)>, k: Seq<char>)
    ensures
        key_index(merged_hosts(env, db), k) >= 0 <==> (key_index(env, k) >= 0 || key_index(db, k) >= 0),
    decreases db.len(),
{
    if db.len() > 0 {
        let d = db.drop_last();
        merged_hosts_keys(env, d, k);
        lemma_put_keys(merged_hosts(env, d), db.last().0, db.last().1, k);
        lemma_key_index(db, k);
        lemma_key_index(d, k);
        if key_index(d, k) >= 0 {
            let j = key_index(d, k);
            assert(db[j] == d[j]);
        }
        if key_index(db, k) >= 0 && key_index(d, k) < 0 {
            let j = key_index(db, k);
            if j < d.len() {
                assert(db[j] == d[j]);
            }
        }
        if db.last().0 == k {
            assert(db[db.len() - 1].0 == k);
        }
    }
}

/// A host's regular address wins over its Tailscale address, whichever of
/// the two variables comes first; the Tailscale address is used when no
/// regular address is set.
pub proof fn regular_ip_wins(h: HostModel, ip: Seq<char>, tailscale_ip: Seq<char>)
    ensures
        host_after(host_after(h, HostVarField::Ip, ip), HostVarField::TailscaleIp, tailscale_ip).ip == Some(ip),
        host_after(host_after(h, HostVarField::TailscaleIp, tailscale_ip), HostVarField::Ip, ip).ip == Some(ip),
        h.ip is None ==> host_after(h, HostVarField::TailscaleIp, tailscale_ip).ip == Some(tailscale_ip),
{
}

/// Every host read from the variables is keyed by a lower-cased name.
pub proof fn parsed_host_keys_lowercased(vars: Seq<(Seq<char>, Seq<char>)>)
    ensures
        forall|i: int| 0 <= i < parse_vars(vars).0.len() ==> exists|n: Seq<char>| (#[trigger] parse_vars(vars).0[i]).0
            == lowercase(n),
    decreases vars.len(),
{
    if vars.len() > 0 {
        let prev = vars.drop_last();
        parsed_host_keys_lowercased(prev);
        let st = parse_vars(prev);
        assert(parse_vars(vars) == parse_step(st, vars.last()));
        let (key, value) = vars.last();
        if has_prefix(key, "HOST_"@) {
            match host_var(key.skip(5)) {
                Some((n, field)) => {
                    let name = lowercase(n);
                    let h = host_after(entry_or(st.0, name, empty_host()), field, value);
                    let r = put(st.0, name, h);
                    lemma_key_index(st.0, name);
                    assert forall|i: int| 0 <= i < r.len() implies exists|m: Seq<char>| (#[trigger] r[i]).0
                        == lowercase(m) by {
                        if i < st.0.len() && r[i].0 == st.0[i].0 {
                            assert(st.0[i].0 == st.0[i].0);
                        } else {
                            assert(r[i].0 == lowercase(n));
                        }
                    }
                },
                None => {},
            }
        }
    }
}


/// The host key (lower-cased) and field that a variable sets, when it is a
/// host variable.
pub open spec fn host_var_of(key: Seq<char>) -> Option<(Seq<char>, HostVarField)> {
    if has_prefix(key, "HOST_"@) {
        match host_var(key.skip(5)) {
            Some((n, f)) => Some((lowercase(n), f)),
            None => None,
        }
    } else {
        None
    }
}

/// The variable sets a field of host `l`.
pub open spec fn sets_host(key: Seq<char>, l: Seq<char>) -> bool {
    host_var_of(key) matches Some((k, f)) && k == l
}

/// The value of the last `_IP` variable of host `l`, if any.
pub open spec fn last_ip_var(vars: Seq<(Seq<char>, Seq<char>)>, l: Seq<char>) -> Option<Seq<char>>
    decreases vars.len(),
{
    if vars.len() == 0 {
        None
    } else if host_var_of(vars.last().0) matches Some((k, HostVarField::Ip)) && k == l {
        Some(vars.last().1)
    } else {
        last_ip_var(vars.drop_last(), l)
    }
}

/// The value of the first `_TAILSCALE_IP` variable of host `l`, if any.
pub open spec fn first_tailscale_ip_var(vars: Seq<(Seq<char>, Seq<char>)>, l: Seq<char>) -> Option<Seq<char>>
    decreases vars.len(),
{
    if vars.len() == 0 {
        None
    } else {
        match first_tailscale_ip_var(vars.drop_last(), l) {
            Some(v) => Some(v),
            None => if host_var_of(vars.last().0) matches Some((k, HostVarField::TailscaleIp)) && k == l {
                Some(vars.last().1)
            } else {
                None
            },
        }
    }
}

/// The entry under `x` after `put`.
pub proof fn lemma_entry_or_put<T>(s: Seq<(Seq<char>, T)>, k: Seq<char>, t: T, x: Seq<char>, d: T)
    ensures
        entry_or(put(s, k, t), x, d) == if x == k { t } else { entry_or(s, x, d) },
{
    let r = put(s, k, t);
    lemma_key_index(s, k);
    lemma_key_index(s, x);
    lemma_key_index(r, x);
    if key_index(s, k) >= 0 {
        let p = key_index(s, k);
        assert(keys(r) =~= keys(s)) by {
            assert forall|i: int| 0 <= i < s.len() implies keys(r)[i] == keys(s)[i] by {
                if i == p {
                    assert(r[i].0 == k);
                } else {
                    assert(r[i] == s[i]);
                }
            }
        }
        assert(key_index(r, x) == key_index(s, x));
        if x == k {
            assert(key_index(s, x) == p);
        } else if key_index(s, x) >= 0 {
            assert(key_index(s, x) != p);
        }
    } else {
        if x == k {
            crate::config::lemma_key_index_is(r, x, s.len() as int);
        } else if key_index(s, x) >= 0 {
            let q = key_index(s, x);
            lemma_index_of(keys(s), x);
            assert forall|j: int| 0 <= j < r.len() && j < q implies r[j].0 != x by {
                assert(r[j] == s[j]);
                assert(keys(s)[j] == s[j].0);
            }
            crate::config::lemma_key_index_is(r, x, q);
        } else {
            assert forall|j: int| 0 <= j < r.len() implies r[j].0 != x by {
                if j < s.len() {
                    assert(r[j] == s[j]);
                }
            }
            crate::config::lemma_key_index_is(r, x, -1);
        }
    }
}

/// Every host variable creates its host; and a host's address is the value
/// of its last `_IP` variable, or, when it has none, of its first
/// `_TAILSCALE_IP` variable, whatever the order of the variables.
pub proof fn parsed_host_addresses(vars: Seq<(Seq<char>, Seq<char>)>, l: Seq<char>)
    ensures
        (exists|i: int| 0 <= i < vars.len() && #[trigger] sets_host(vars[i].0, l)) ==> key_index(
            parse_vars(vars).0,
            l,
        ) >= 0,
        entry_or(parse_vars(vars).0, l, empty_host()).ip == if last_ip_var(vars, l) is Some {
            last_ip_var(vars, l)
        } else {
            first_tailscale_ip_var(vars, l)
        },
    decreases vars.len(),
{
    if vars.len() > 0 {
        let prev = vars.drop_last();
        parsed_host_addresses(prev, l);
        let st = parse_vars(prev);
        assert(parse_vars(vars) == parse_step(st, vars.last()));
        let (key, value) = vars.last();
        if has_prefix(key, "HOST_"@) {
            match host_var(key.skip(5)) {
                Some((n, field)) => {
                    let name = lowercase(n);
                    let h = host_after(entry_or(st.0, name, empty_host()), field, value);
                    lemma_entry_or_put(st.0, name, h, l, empty_host());
                    lemma_put_keys(st.0, name, h, l);
                },
                None => {},
            }
        }
        if exists|i: int| 0 <= i < vars.len() && #[trigger] sets_host(vars[i].0, l) {
            let i = choose|i: int| 0 <= i < vars.len() && #[trigger] sets_host(vars[i].0, l);
            if i < prev.len() {
                assert(prev[i] == vars[i]);
                assert(sets_host(prev[i].0, l));
            }
        }
    }
}

/// `key` is `HOST_<n><suffix>` for a name `n` (possibly empty) whose
/// lower-case form is `l`.
pub open spec fn names_host_field(key: Seq<char>, l: Seq<char>, suffix: Seq<char>) -> bool {
    &&& has_prefix(key, "HOST_"@)
    &&& key.len() >= 5 + suffix.len()
    &&& has_suffix(key, suffix)
    &&& lowercase(key.subrange(5, key.len() - suffix.len())) == l
}

/// The value of the last `HOST_<n><suffix>` variable of host `l`, if any.
pub open spec fn last_field_var(vars: Seq<(Seq<char>, Seq<char>)>, l: Seq<char>, suffix: Seq<char>) -> Option<Seq<char>>
    decreases vars.len(),
{
    if vars.len() == 0 {
        None
    } else if names_host_field(vars.last().0, l, suffix) {
        Some(vars.last().1)
    } else {
        last_field_var(vars.drop_last(), l, suffix)
    }
}

/// The `i`-th character from the end of a string ending with `p`.
proof fn lemma_suffix_char(s: Seq<char>, p: Seq<char>, i: int)
    requires
        has_suffix(s, p),
        1 <= i <= p.len(),
    ensures
        s[s.len() - i] == p[p.len() - i],
{
    assert(s.skip(s.len() - p.len())[p.len() - i] == s[s.len() - i]);
}

/// A suffix of what follows `HOST_` is a suffix of the whole name, and the
/// part before it is the same stretch of the name.
proof fn lemma_rest_suffix(key: Seq<char>, p: Seq<char>)
    requires
        key.len() >= 5 + p.len(),
    ensures
        has_suffix(key.skip(5), p) == has_suffix(key, p),
        key.skip(5).take(key.skip(5).len() - p.len()) == key.subrange(5, key.len() - p.len()),
{
    let rest = key.skip(5);
    assert(rest.skip(rest.len() - p.len()) =~= key.skip(key.len() - p.len()));
    assert(rest.take(rest.len() - p.len()) =~= key.subrange(5, key.len() - p.len()));
}

/// Which field a host variable sets is told by its name's ending alone.
proof fn lemma_host_field_of_name(key: Seq<char>, l: Seq<char>)
    ensures
        (host_var_of(key) matches Some((k, HostVarField::Hostname)) && k == l) == names_host_field(key, l, "_HOSTNAME"@),
        (host_var_of(key) matches Some((k, HostVarField::Tailscale)) && k == l) == names_host_field(key, l, "_TAILSCALE"@),
        (host_var_of(key) matches Some((k, HostVarField::BackupPath)) && k == l) == names_host_field(key, l, "_BACKUP_PATH"@),
{
    reveal_strlit("HOST_");
    reveal_strlit("_TAILSCALE_IP");
    reveal_strlit("_IP");
    reveal_strlit("_HOSTNAME");
    reveal_strlit("_TAILSCALE");
    reveal_strlit("_BACKUP_PATH");
    if has_prefix(key, "HOST_"@) {
        let rest = key.skip(5);
        let sfx = seq!["_TAILSCALE_IP"@, "_IP"@, "_HOSTNAME"@, "_TAILSCALE"@, "_BACKUP_PATH"@];
        assert forall|j: int| 0 <= j < sfx.len() implies {
            let p = #[trigger] sfx[j];
            &&& (key.len() >= 5 + p.len() ==> has_suffix(rest, p) == has_suffix(key, p) && rest.take(
                rest.len() - p.len(),
            ) == key.subrange(5, key.len() - p.len()))
            &&& (key.len() < 5 + p.len() ==> !has_suffix(rest, p))
            &&& (has_suffix(rest, p) ==> rest[rest.len() - 1] == p[p.len() - 1] && rest[rest.len() - 2]
                == p[p.len() - 2])
        } by {
            let p = sfx[j];
            if key.len() >= 5 + p.len() {
                lemma_rest_suffix(key, p);
            }
            if has_suffix(rest, p) {
                lemma_suffix_char(rest, p, 1);
                lemma_suffix_char(rest, p, 2);
            }
        }
        assert(sfx[0] == "_TAILSCALE_IP"@);
        assert(sfx[1] == "_IP"@);
        assert(sfx[2] == "_HOSTNAME"@);
        assert(sfx[3] == "_TAILSCALE"@);
        assert(sfx[4] == "_BACKUP_PATH"@);
    }
}

/// A host's name, Tailscale name and backup path are the values of its last
/// `HOST_<name>_HOSTNAME`, `HOST_<name>_TAILSCALE` and
/// `HOST_<name>_BACKUP_PATH` variables (`<name>` matched without regard to
/// case), and unset when it has none: each such variable sets its own field
/// and no other.
pub proof fn parsed_host_fields(vars: Seq<(Seq<char>, Seq<char>)>, l: Seq<char>)
    ensures
        entry_or(parse_vars(vars).0, l, empty_host()).hostname == last_field_var(vars, l, "_HOSTNAME"@),
        entry_or(parse_vars(vars).0, l, empty_host()).tailscale == last_field_var(vars, l, "_TAILSCALE"@),
        entry_or(parse_vars(vars).0, l, empty_host()).backup_path == last_field_var(
            vars,
            l,
            "_BACKUP_PATH"@,
        ),
    decreases vars.len(),
{
    if vars.len() > 0 {
        let prev = vars.drop_last();
        parsed_host_fields(prev, l);
        let st = parse_vars(prev);
        assert(parse_vars(vars) == parse_step(st, vars.last()));
        let (key, value) = vars.last();
        lemma_host_field_of_name(key, l);
        if has_prefix(key, "HOST_"@) {
            match host_var(key.skip(5)) {
                Some((n, field)) => {
                    let name = lowercase(n);
                    let h = host_after(entry_or(st.0, name, empty_host()), field, value);
                    lemma_entry_or_put(st.0, name, h, l, empty_host());
                },
                None => {},
            }
        }
    }
}

} // verus!
