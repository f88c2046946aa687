//! The report of the current configuration: each value of the `.env` file
//! set against the database's, section by section, with the checks the
//! configuration must pass.  Passwords are shown only in verbose mode.
use vstd::prelude::*;
use crate::config::{
    EnvConfig, EnvModel, HostConfig, HostModel, NamedHost, NamedSmbServer, SmbModel, SmbServerConfig, copy_opt,
    find_host, find_smb, hosts_view, key_index, keys, lemma_key_index, opt_view, smb_view,
};
use crate::envparse::{lookup_var, var_value, vars_view};
use crate::report::{
    compare_or_unset, compare_values, compared_line, config_issues, hidden_line, hidden_status, masked_value,
    opt_str, other_env_values, pair_views, shown_value, sorted_names, sorted_others, sorted_union,
    validation_issues,
};
use crate::text::{join, join_strings, push_str, to_string, views};

verus! {

// ---------------------------------------------------------------------------
// The report
// ---------------------------------------------------------------------------

/// `a` when it is set, else `b`.
pub open spec fn either(a: Option<Seq<char>>, b: Option<Seq<char>>) -> Option<Seq<char>> {
    if a is Some {
        a
    } else {
        b
    }
}

/// The line, indented, when there is one.
pub open spec fn opt_line(indent: Seq<char>, l: Option<Seq<char>>) -> Seq<Seq<char>> {
    match l {
        Some(x) => seq![indent + x],
        None => seq![],
    }
}

/// The compared line, or `<label>: (not set)` when neither side has a value.
pub open spec fn unset_line(label: Seq<char>, env: Option<Seq<char>>, db: Option<Seq<char>>) -> Seq<char> {
    match compared_line(label, env, db) {
        Some(l) => l,
        None => label + ": (not set)"@,
    }
}

/// A password line with the value hidden.
pub open spec fn hidden_text(label: Seq<char>, env: Option<Seq<char>>, db: Option<Seq<char>>) -> Seq<char> {
    label + ": "@ + (if env is Some { "***"@ } else { "(not set)"@ }) + hidden_status(env, db)
}

/// The password line: the values in verbose mode, else hidden.
pub open spec fn password_line(verbose: bool, env: Option<Seq<char>>, db: Option<Seq<char>>) -> Seq<char> {
    if verbose {
        unset_line("Password"@, env, db)
    } else {
        hidden_text("Password"@, env, db)
    }
}

/// The Tailnet section: the base, the TLD (`TAILNET_TLD`, else `TLD`) and
/// the ACME e-mail address.
pub open spec fn tailnet_lines(
    vars: Seq<(Seq<char>, Seq<char>)>,
    base: Seq<char>,
    settings: Seq<(Seq<char>, Seq<char>)>,
) -> Seq<Seq<char>> {
    seq!["Tailnet:"@, "  Base: "@ + base] + opt_line(
        "  "@,
        compared_line(
            "TLD"@,
            either(var_value(vars, "TAILNET_TLD"@), var_value(vars, "TLD"@)),
            either(var_value(settings, "TAILNET_TLD"@), var_value(settings, "TLD"@)),
        ),
    ) + opt_line(
        "  "@,
        compared_line("ACME Email"@, var_value(vars, "ACME_EMAIL"@), var_value(settings, "ACME_EMAIL"@)),
    ) + seq![""@]
}

/// The PIA VPN section: user name and password when either side has one.
pub open spec fn pia_lines(
    vars: Seq<(Seq<char>, Seq<char>)>,
    settings: Seq<(Seq<char>, Seq<char>)>,
    verbose: bool,
) -> Seq<Seq<char>> {
    let pu = var_value(vars, "PIA_USERNAME"@);
    let pp = var_value(vars, "PIA_PASSWORD"@);
    let dpu = var_value(settings, "PIA_USERNAME"@);
    let dpp = var_value(settings, "PIA_PASSWORD"@);
    seq!["PIA VPN:"@] + (if pu is Some || pp is Some || dpu is Some || dpp is Some {
        seq!["  "@ + unset_line("Username"@, pu, dpu), "  "@ + password_line(verbose, pp, dpp)]
    } else {
        seq!["  (not configured)"@]
    }) + seq![""@]
}

/// The compared line of one media path.
pub open spec fn media_line(
    vars: Seq<(Seq<char>, Seq<char>)>,
    settings: Seq<(Seq<char>, Seq<char>)>,
    label: Seq<char>,
    key: Seq<char>,
) -> Seq<Seq<char>> {
    opt_line("  "@, compared_line(label, var_value(vars, key), var_value(settings, key)))
}

/// The lines of the media paths that either side sets.
pub open spec fn media_values(vars: Seq<(Seq<char>, Seq<char>)>, settings: Seq<(Seq<char>, Seq<char>)>) -> Seq<
    Seq<char>,
> {
    media_line(vars, settings, "Downloads"@, "DOWNLOADS_PATH"@) + media_line(
        vars,
        settings,
        "Movies"@,
        "MOVIES_PATH"@,
    ) + media_line(vars, settings, "TV"@, "TV_PATH"@) + media_line(
        vars,
        settings,
        "Movies 4K"@,
        "MOVIES_4K_PATH"@,
    ) + media_line(vars, settings, "Music"@, "MUSIC_PATH"@)
}

/// The media paths section.
pub open spec fn media_lines(vars: Seq<(Seq<char>, Seq<char>)>, settings: Seq<(Seq<char>, Seq<char>)>) -> Seq<
    Seq<char>,
> {
    let v = media_values(vars, settings);
    seq!["Media Paths:"@] + v + (if v.len() == 0 {
        seq!["  (not configured)"@]
    } else {
        seq![]
    }) + seq![""@]
}

/// The Nginx Proxy Manager section: URL, user name and password when
/// either side has any of them.
pub open spec fn npm_lines(
    vars: Seq<(Seq<char>, Seq<char>)>,
    settings: Seq<(Seq<char>, Seq<char>)>,
    verbose: bool,
) -> Seq<Seq<char>> {
    let u = var_value(vars, "NGINX_PROXY_MANAGER_URL"@);
    let n = var_value(vars, "NGINX_PROXY_MANAGER_USERNAME"@);
    let p = var_value(vars, "NGINX_PROXY_MANAGER_PASSWORD"@);
    let du = var_value(settings, "NGINX_PROXY_MANAGER_URL"@);
    let dn = var_value(settings, "NGINX_PROXY_MANAGER_USERNAME"@);
    let dp = var_value(settings, "NGINX_PROXY_MANAGER_PASSWORD"@);
    seq!["Nginx Proxy Manager:"@] + (if u is Some || n is Some || p is Some || du is Some || dn is Some
        || dp is Some {
        opt_line("  "@, compared_line("URL"@, u, du)) + opt_line("  "@, compared_line("Username"@, n, dn))
            + seq!["  "@ + password_line(verbose, p, dp)]
    } else {
        seq!["  (not configured)"@]
    }) + seq![""@]
}

/// The entry under key `k`, if any.
pub open spec fn entry_of<T>(s: Seq<(Seq<char>, T)>, k: Seq<char>) -> Option<T> {
    if key_index(s, k) >= 0 {
        Some(s[key_index(s, k)].1)
    } else {
        None
    }
}

/// `***` for a set value.
pub open spec fn masked(o: Option<Seq<char>>) -> Option<Seq<char>> {
    if o is Some {
        Some("***"@)
    } else {
        None
    }
}

/// A line for a value that only the database has.
pub open spec fn missing_line(label: Seq<char>, o: Option<Seq<char>>) -> Seq<Seq<char>> {
    match o {
        Some(v) => seq![label + ": (env missing) [db: "@ + v + "]"@],
        None => seq![],
    }
}

/// The lines of an SMB server of the `.env` file, against the database's.
pub open spec fn smb_env_lines(e: SmbModel, d: Option<SmbModel>, verbose: bool) -> Seq<Seq<char>> {
    let dh = match d {
        Some(x) => Some(x.host),
        None => None,
    };
    let ds = match d {
        Some(x) => Some(join(x.shares, ", "@)),
        None => None,
    };
    let du = match d {
        Some(x) => x.username,
        None => None,
    };
    let dp = match d {
        Some(x) => x.password,
        None => None,
    };
    let dopt = match d {
        Some(x) => x.options,
        None => None,
    };
    opt_line("    "@, compared_line("Host"@, Some(e.host), dh)) + opt_line(
        "    "@,
        compared_line("Shares"@, Some(join(e.shares, ", "@)), ds),
    ) + opt_line("    "@, compared_line("Username"@, e.username, du)) + opt_line(
        "    "@,
        if verbose {
            compared_line("Password"@, e.password, dp)
        } else {
            compared_line("Password"@, masked(e.password), masked(dp))
        },
    ) + opt_line("    "@, compared_line("Options"@, e.options, dopt))
}

/// The lines of an SMB server that only the database has.
pub open spec fn smb_db_lines(d: SmbModel, verbose: bool) -> Seq<Seq<char>> {
    seq![
        "    Host: (env missing) [db: "@ + d.host + "]"@,
        "    Shares: (env missing) [db: "@ + join(d.shares, ", "@) + "]"@,
    ] + missing_line("    Username"@, d.username) + (if verbose {
        missing_line("    Password"@, d.password)
    } else if d.password is Some {
        seq!["    Password: [db: ***]"@]
    } else {
        seq![]
    }) + missing_line("    Options"@, d.options)
}

/// The lines of one SMB server.
pub open spec fn smb_server_lines(
    name: Seq<char>,
    env_smb: Seq<(Seq<char>, SmbModel)>,
    db_smb: Seq<(Seq<char>, SmbModel)>,
    verbose: bool,
) -> Seq<Seq<char>> {
    seq!["  "@ + name + ":"@] + match entry_of(env_smb, name) {
        Some(e) => smb_env_lines(e, entry_of(db_smb, name), verbose),
        None => match entry_of(db_smb, name) {
            Some(d) => smb_db_lines(d, verbose),
            None => seq![],
        },
    }
}

/// The lines of the named SMB servers, in order.
pub open spec fn smb_servers_lines(
    names: Seq<Seq<char>>,
    env_smb: Seq<(Seq<char>, SmbModel)>,
    db_smb: Seq<(Seq<char>, SmbModel)>,
    verbose: bool,
) -> Seq<Seq<char>>
    decreases names.len(),
{
    if names.len() == 0 {
        seq![]
    } else {
        smb_servers_lines(names.drop_last(), env_smb, db_smb, verbose) + smb_server_lines(
            names.last(),
            env_smb,
            db_smb,
            verbose,
        )
    }
}

/// The SMB servers section: the servers of either side, by name.
pub open spec fn smb_lines(
    env_smb: Seq<(Seq<char>, SmbModel)>,
    db_smb: Seq<(Seq<char>, SmbModel)>,
    verbose: bool,
) -> Seq<Seq<char>> {
    let names = sorted_names(keys(env_smb), keys(db_smb));
    seq!["SMB Servers:"@] + (if names.len() == 0 {
        seq!["  (none configured)"@]
    } else {
        seq![]
    }) + smb_servers_lines(names, env_smb, db_smb, verbose) + seq![""@]
}

/// Field `i` of a host: IP, host name, Tailscale name, backup path.
pub open spec fn host_value(h: Option<HostModel>, i: int) -> Option<Seq<char>> {
    match h {
        Some(c) => if i == 0 {
            c.ip
        } else if i == 1 {
            c.hostname
        } else if i == 2 {
            c.tailscale
        } else {
            c.backup_path
        },
        None => None,
    }
}

/// The lines of one host.
pub open spec fn host_report_lines(
    name: Seq<char>,
    env_hosts: Seq<(Seq<char>, HostModel)>,
    db_hosts: Seq<(Seq<char>, HostModel)>,
) -> Seq<Seq<char>> {
    let e = entry_of(env_hosts, name);
    let d = entry_of(db_hosts, name);
    seq!["  "@ + name + ":"@] + opt_line("    "@, compared_line("IP"@, host_value(e, 0), host_value(d, 0)))
        + opt_line("    "@, compared_line("Hostname"@, host_value(e, 1), host_value(d, 1))) + opt_line(
        "    "@,
        compared_line("Tailscale"@, host_value(e, 2), host_value(d, 2)),
    ) + opt_line("    "@, compared_line("Backup Path"@, host_value(e, 3), host_value(d, 3)))
}

/// The lines of the named hosts, in order.
pub open spec fn hosts_report_lines(
    names: Seq<Seq<char>>,
    env_hosts: Seq<(Seq<char>, HostModel)>,
    db_hosts: Seq<(Seq<char>, HostModel)>,
) -> Seq<Seq<char>>
    decreases names.len(),
{
    if names.len() == 0 {
        seq![]
    } else {
        hosts_report_lines(names.drop_last(), env_hosts, db_hosts) + host_report_lines(
            names.last(),
            env_hosts,
            db_hosts,
        )
    }
}

/// The hosts section: the hosts of either side, by name.
pub open spec fn hosts_lines(env_hosts: Seq<(Seq<char>, HostModel)>, db_hosts: Seq<(Seq<char>, HostModel)>) -> Seq<
    Seq<char>,
> {
    let names = sorted_names(keys(env_hosts), keys(db_hosts));
    seq!["Hosts:"@] + (if names.len() == 0 {
        seq!["  (none configured)"@]
    } else {
        seq![]
    }) + hosts_report_lines(names, env_hosts, db_hosts) + seq![""@]
}

/// The other environment values, in verbose mode only and when there are
/// any; secret-looking values hidden.
pub open spec fn others_lines(vars: Seq<(Seq<char>, Seq<char>)>, verbose: bool) -> Seq<Seq<char>> {
    let o = sorted_others(vars);
    if verbose && o.len() > 0 {
        seq!["Other environment values:"@] + o.map_values(
            |p: (Seq<char>, Seq<char>)| "  "@ + p.0 + "="@ + shown_value(p.0, p.1),
        ) + seq![""@]
    } else {
        seq![]
    }
}

/// The validation section.
pub open spec fn validation_lines(c: EnvModel) -> Seq<Seq<char>> {
    let issues = config_issues(c);
    seq!["Validation:"@] + (if issues.len() == 0 {
        seq!["  ✓ Configuration is valid"@]
    } else {
        seq!["  ✗ Configuration has issues:"@] + issues.map_values(|i: Seq<char>| "    - "@ + i)
    }) + seq![""@]
}

/// The whole report: Tailnet, PIA VPN, media paths, Nginx Proxy Manager, SMB
/// servers, hosts, other values (verbose only), validation.
pub open spec fn config_report(
    vars: Seq<(Seq<char>, Seq<char>)>,
    env: EnvModel,
    settings: Seq<(Seq<char>, Seq<char>)>,
    db_smb: Seq<(Seq<char>, SmbModel)>,
    db_hosts: Seq<(Seq<char>, HostModel)>,
    verbose: bool,
) -> Seq<Seq<char>> {
    tailnet_lines(vars, env.tailnet_base, settings) + pia_lines(vars, settings, verbose) + media_lines(
        vars,
        settings,
    ) + npm_lines(vars, settings, verbose) + smb_lines(env.smb_servers, db_smb, verbose) + hosts_lines(
        env.hosts,
        db_hosts,
    ) + others_lines(vars, verbose) + validation_lines(env)
}


/// The SMB servers with each password replaced by `***` (and unset ones
/// left unset).
pub open spec fn mask_smb_passwords(s: Seq<(Seq<char>, SmbModel)>) -> Seq<(Seq<char>, SmbModel)> {
    s.map_values(|e: (Seq<char>, SmbModel)| (e.0, SmbModel { password: masked(e.1.password), ..e.1 }))
}

proof fn lemma_mask_entry(s: Seq<(Seq<char>, SmbModel)>, k: Seq<char>)
    ensures
        keys(mask_smb_passwords(s)) == keys(s),
        entry_of(mask_smb_passwords(s), k) == match entry_of(s, k) {
            Some(e) => Some(SmbModel { password: masked(e.password), ..e }),
            None => None,
        },
{
    assert(keys(mask_smb_passwords(s)) =~= keys(s));
    assert(key_index(mask_smb_passwords(s), k) == key_index(s, k));
    lemma_key_index(s, k);
}

proof fn lemma_masked_servers_lines(
    names: Seq<Seq<char>>,
    env_smb: Seq<(Seq<char>, SmbModel)>,
    db_smb: Seq<(Seq<char>, SmbModel)>,
)
    ensures
        smb_servers_lines(names, mask_smb_passwords(env_smb), mask_smb_passwords(db_smb), false)
            == smb_servers_lines(names, env_smb, db_smb, false),
    decreases names.len(),
{
    if names.len() > 0 {
        lemma_masked_servers_lines(names.drop_last(), env_smb, db_smb);
        lemma_mask_entry(env_smb, names.last());
        lemma_mask_entry(db_smb, names.last());
        let d = entry_of(db_smb, names.last());
        let dm = entry_of(mask_smb_passwords(db_smb), names.last());
        assert(match dm {
            Some(x) => masked(x.password),
            None => None,
        } == masked(match d {
            Some(x) => x.password,
            None => None,
        }));
    }
}

/// Without verbose mode the SMB section reads of each password only whether
/// it is set: replacing every password by `***` changes no line.
pub proof fn hidden_smb_passwords_not_shown(env_smb: Seq<(Seq<char>, SmbModel)>, db_smb: Seq<(Seq<char>, SmbModel)>)
    ensures
        smb_lines(mask_smb_passwords(env_smb), mask_smb_passwords(db_smb), false) == smb_lines(
            env_smb,
            db_smb,
            false,
        ),
{
    lemma_mask_entry(env_smb, Seq::empty());
    lemma_mask_entry(db_smb, Seq::empty());
    lemma_masked_servers_lines(sorted_names(keys(env_smb), keys(db_smb)), env_smb, db_smb);
}

/// Without verbose mode a password line tells only whether each side has a
/// password and whether the two agree.
pub proof fn hidden_password_line_shows_no_value(
    env1: Option<Seq<char>>,
    db1: Option<Seq<char>>,
    env2: Option<Seq<char>>,
    db2: Option<Seq<char>>,
)
    requires
        env1 is Some <==> env2 is Some,
        db1 is Some <==> db2 is Some,
        env1 == db1 <==> env2 == db2,
    ensures
        password_line(false, env1, db1) == password_line(false, env2, db2),
{
}

proof fn lemma_masked_smb_issues(s: Seq<(Seq<char>, SmbModel)>)
    ensures
        crate::report::smb_issues(mask_smb_passwords(s)) == crate::report::smb_issues(s),
    decreases s.len(),
{
    if s.len() > 0 {
        assert(mask_smb_passwords(s).drop_last() =~= mask_smb_passwords(s.drop_last()));
        lemma_masked_smb_issues(s.drop_last());
    }
}

/// Without verbose mode the whole report reads of each SMB password only
/// whether it is set: replacing every password by `***`, in the `.env`
/// configuration and in the database, changes no line.
pub proof fn hidden_report_ignores_smb_passwords(
    vars: Seq<(Seq<char>, Seq<char>)>,
    env: EnvModel,
    settings: Seq<(Seq<char>, Seq<char>)>,
    db_smb: Seq<(Seq<char>, SmbModel)>,
    db_hosts: Seq<(Seq<char>, HostModel)>,
)
    ensures
        config_report(
            vars,
            EnvModel { smb_servers: mask_smb_passwords(env.smb_servers), ..env },
            settings,
            mask_smb_passwords(db_smb),
            db_hosts,
            false,
        ) == config_report(vars, env, settings, db_smb, db_hosts, false),
{
    hidden_smb_passwords_not_shown(env.smb_servers, db_smb);
    lemma_masked_smb_issues(env.smb_servers);
}

/// The variables that hold passwords of their own section.
pub open spec fn is_password_var(k: Seq<char>) -> bool {
    k == "PIA_PASSWORD"@ || k == "NGINX_PROXY_MANAGER_PASSWORD"@
}

/// Two lists of variables that agree on every variable but the passwords.
pub open spec fn same_but_passwords(a: Seq<(Seq<char>, Seq<char>)>, b: Seq<(Seq<char>, Seq<char>)>) -> bool {
    forall|k: Seq<char>| !is_password_var(k) ==> #[trigger] var_value(a, k) == var_value(b, k)
}

/// Two pairs of `.env` and database values that look the same hidden: each
/// side set or not alike, and agreeing or not alike.
pub open spec fn alike_hidden(
    env1: Option<Seq<char>>,
    db1: Option<Seq<char>>,
    env2: Option<Seq<char>>,
    db2: Option<Seq<char>>,
) -> bool {
    &&& (env1 is Some <==> env2 is Some)
    &&& (db1 is Some <==> db2 is Some)
    &&& (env1 == db1 <==> env2 == db2)
}

proof fn lemma_other_names_are_no_passwords()
    ensures
        !is_password_var("TAILNET_TLD"@),
        !is_password_var("TLD"@),
        !is_password_var("ACME_EMAIL"@),
        !is_password_var("PIA_USERNAME"@),
        !is_password_var("DOWNLOADS_PATH"@),
        !is_password_var("MOVIES_PATH"@),
        !is_password_var("TV_PATH"@),
        !is_password_var("MOVIES_4K_PATH"@),
        !is_password_var("MUSIC_PATH"@),
        !is_password_var("NGINX_PROXY_MANAGER_URL"@),
        !is_password_var("NGINX_PROXY_MANAGER_USERNAME"@),
{
    reveal_strlit("PIA_PASSWORD");
    reveal_strlit("NGINX_PROXY_MANAGER_PASSWORD");
    reveal_strlit("TAILNET_TLD");
    reveal_strlit("TLD");
    reveal_strlit("ACME_EMAIL");
    reveal_strlit("PIA_USERNAME");
    reveal_strlit("DOWNLOADS_PATH");
    reveal_strlit("MOVIES_PATH");
    reveal_strlit("TV_PATH");
    reveal_strlit("MOVIES_4K_PATH");
    reveal_strlit("MUSIC_PATH");
    reveal_strlit("NGINX_PROXY_MANAGER_URL");
    reveal_strlit("NGINX_PROXY_MANAGER_USERNAME");
    assert("PIA_USERNAME"@[4] != "PIA_PASSWORD"@[4]);
    assert("NGINX_PROXY_MANAGER_USERNAME"@[20] != "NGINX_PROXY_MANAGER_PASSWORD"@[20]);
    assert("NGINX_PROXY_MANAGER_URL"@.len() != "NGINX_PROXY_MANAGER_PASSWORD"@.len());
    assert("MOVIES_4K_PATH"@.len() != "PIA_PASSWORD"@.len());
    assert("MOVIES_4K_PATH"@.len() != "NGINX_PROXY_MANAGER_PASSWORD"@.len());
    assert("DOWNLOADS_PATH"@.len() != "PIA_PASSWORD"@.len());
    assert("TAILNET_TLD"@.len() != "PIA_PASSWORD"@.len());
    assert("ACME_EMAIL"@.len() != "PIA_PASSWORD"@.len());
    assert("MOVIES_PATH"@.len() != "PIA_PASSWORD"@.len());
    assert("MUSIC_PATH"@.len() != "PIA_PASSWORD"@.len());
    assert("TV_PATH"@.len() != "PIA_PASSWORD"@.len());
    assert("TLD"@.len() != "PIA_PASSWORD"@.len());
}

/// Without verbose mode the report shows no password value: two inputs
/// that differ only in their passwords (the PIA and Nginx Proxy Manager
/// passwords of the environment and of the database, and every SMB
/// password), as long as which of them are set and which pairs agree stays
/// the same, give the same lines.
pub proof fn hidden_report_shows_no_password(
    vars1: Seq<(Seq<char>, Seq<char>)>,
    vars2: Seq<(Seq<char>, Seq<char>)>,
    env1: EnvModel,
    env2: EnvModel,
    settings1: Seq<(Seq<char>, Seq<char>)>,
    settings2: Seq<(Seq<char>, Seq<char>)>,
    db_smb1: Seq<(Seq<char>, SmbModel)>,
    db_smb2: Seq<(Seq<char>, SmbModel)>,
    db_hosts: Seq<(Seq<char>, HostModel)>,
)
    requires
        same_but_passwords(vars1, vars2),
        same_but_passwords(settings1, settings2),
        alike_hidden(
            var_value(vars1, "PIA_PASSWORD"@),
            var_value(settings1, "PIA_PASSWORD"@),
            var_value(vars2, "PIA_PASSWORD"@),
            var_value(settings2, "PIA_PASSWORD"@),
        ),
        alike_hidden(
            var_value(vars1, "NGINX_PROXY_MANAGER_PASSWORD"@),
            var_value(settings1, "NGINX_PROXY_MANAGER_PASSWORD"@),
            var_value(vars2, "NGINX_PROXY_MANAGER_PASSWORD"@),
            var_value(settings2, "NGINX_PROXY_MANAGER_PASSWORD"@),
        ),
        env1.tailnet_base == env2.tailnet_base,
        env1.hosts == env2.hosts,
        mask_smb_passwords(env1.smb_servers) == mask_smb_passwords(env2.smb_servers),
        mask_smb_passwords(db_smb1) == mask_smb_passwords(db_smb2),
    ensures
        config_report(vars1, env1, settings1, db_smb1, db_hosts, false) == config_report(
            vars2,
            env2,
            settings2,
            db_smb2,
            db_hosts,
            false,
        ),
{
    hidden_report_ignores_smb_passwords(vars1, env1, settings1, db_smb1, db_hosts);
    hidden_report_ignores_smb_passwords(vars2, env2, settings2, db_smb2, db_hosts);
    let m1 = EnvModel { smb_servers: mask_smb_passwords(env1.smb_servers), ..env1 };
    let m2 = EnvModel { smb_servers: mask_smb_passwords(env2.smb_servers), ..env2 };
    assert(m1 == m2);
    lemma_other_names_are_no_passwords();
    hidden_password_line_shows_no_value(
        var_value(vars1, "PIA_PASSWORD"@),
        var_value(settings1, "PIA_PASSWORD"@),
        var_value(vars2, "PIA_PASSWORD"@),
        var_value(settings2, "PIA_PASSWORD"@),
    );
    hidden_password_line_shows_no_value(
        var_value(vars1, "NGINX_PROXY_MANAGER_PASSWORD"@),
        var_value(settings1, "NGINX_PROXY_MANAGER_PASSWORD"@),
        var_value(vars2, "NGINX_PROXY_MANAGER_PASSWORD"@),
        var_value(settings2, "NGINX_PROXY_MANAGER_PASSWORD"@),
    );
    let keys = seq![
        "TAILNET_TLD"@, "TLD"@, "ACME_EMAIL"@, "PIA_USERNAME"@, "DOWNLOADS_PATH"@, "MOVIES_PATH"@, "TV_PATH"@,
        "MOVIES_4K_PATH"@, "MUSIC_PATH"@, "NGINX_PROXY_MANAGER_URL"@, "NGINX_PROXY_MANAGER_USERNAME"@
    ];
    assert forall|i: int| 0 <= i < keys.len() implies var_value(vars1, #[trigger] keys[i]) == var_value(vars2, keys[i])
        && var_value(settings1, keys[i]) == var_value(settings2, keys[i]) by {
        assert(!is_password_var(keys[i]));
    }
    assert(var_value(vars1, "TAILNET_TLD"@) == var_value(vars2, "TAILNET_TLD"@) && var_value(settings1, "TAILNET_TLD"@)
        == var_value(settings2, "TAILNET_TLD"@)) by {
        assert(keys[0] == "TAILNET_TLD"@);
    }
    assert(var_value(vars1, "TLD"@) == var_value(vars2, "TLD"@) && var_value(settings1, "TLD"@)
        == var_value(settings2, "TLD"@)) by {
        assert(keys[1] == "TLD"@);
    }
    assert(var_value(vars1, "ACME_EMAIL"@) == var_value(vars2, "ACME_EMAIL"@) && var_value(settings1, "ACME_EMAIL"@)
        == var_value(settings2, "ACME_EMAIL"@)) by {
        assert(keys[2] == "ACME_EMAIL"@);
    }
    assert(tailnet_lines(vars1, m1.tailnet_base, settings1) == tailnet_lines(vars2, m2.tailnet_base, settings2));
    assert(pia_lines(vars1, settings1, false) == pia_lines(vars2, settings2, false));
    assert(media_values(vars1, settings1) == media_values(vars2, settings2));
    assert(media_lines(vars1, settings1) == media_lines(vars2, settings2));
    assert(npm_lines(vars1, settings1, false) == npm_lines(vars2, settings2, false));
    assert(others_lines(vars1, false) == others_lines(vars2, false));
}

// ---------------------------------------------------------------------------
// Building the report
// ---------------------------------------------------------------------------

fn push_line(out: &mut Vec<String>, l: String)
    ensures
        views(final(out)@) == views(old(out)@).push(l@),
{
    let ghost before = out@;
    out.push(l);
    assert(views(out@) =~= views(before).push(l@));
}

fn push_lines(out: &mut Vec<String>, more: Vec<String>)
    ensures
        views(final(out)@) == views(old(out)@) + views(more@),
{
    let ghost start = views(out@);
    let ghost mv = views(more@);
    let mut i: usize = 0;
    while i < more.len()
        invariant
            i <= more@.len(),
            mv == views(more@),
            views(out@) == start + mv.take(i as int),
        decreases more@.len() - i,
    {
        push_line(out, to_string(more[i].as_str()));
        assert(mv.take(i + 1) =~= mv.take(i as int).push(more@[i as int]@));
        i = i + 1;
    }
    assert(mv.take(mv.len() as int) =~= mv);
}

fn indented(indent: &str, s: &str) -> (r: String)
    ensures
        r@ == indent@ + s@,
{
    let mut r = to_string(indent);
    push_str(&mut r, s);
    r
}

fn push_opt(out: &mut Vec<String>, indent: &str, l: Option<String>)
    ensures
        views(final(out)@) == views(old(out)@) + opt_line(indent@, opt_view(l)),
{
    match l {
        Some(x) => {
            push_line(out, indented(indent, x.as_str()));
        },
        None => {
            assert(views(out@) =~= views(out@) + Seq::<Seq<char>>::empty());
        },
    }
}

fn as_opt_str(o: &Option<String>) -> (r: Option<&str>)
    ensures
        opt_str(r) == opt_view(*o),
{
    match o {
        Some(s) => Some(s.as_str()),
        None => None,
    }
}

fn either_exec(a: Option<String>, b: Option<String>) -> (r: Option<String>)
    ensures
        opt_view(r) == either(opt_view(a), opt_view(b)),
{
    match a {
        Some(x) => Some(x),
        None => b,
    }
}

fn compared(label: &str, env: &Option<String>, db: &Option<String>) -> (r: Option<String>)
    ensures
        opt_view(r) == compared_line(label@, opt_view(*env), opt_view(*db)),
{
    compare_values(label, as_opt_str(env), as_opt_str(db))
}

fn password_text(verbose: bool, env: &Option<String>, db: &Option<String>) -> (r: String)
    ensures
        r@ == password_line(verbose, opt_view(*env), opt_view(*db)),
{
    if verbose {
        compare_or_unset("Password", as_opt_str(env), as_opt_str(db))
    } else {
        hidden_line("Password", as_opt_str(env), as_opt_str(db))
    }
}

fn empty_line() -> (r: String)
    ensures
        r@ == ""@,
{
    proof {
        reveal_strlit("");
    }
    String::new()
}

fn tailnet_section(vars: &Vec<(String, String)>, base: &str, settings: &Vec<(String, String)>) -> (r: Vec<String>)
    ensures
        views(r@) == tailnet_lines(vars_view(vars@), base@, vars_view(settings@)),
{
    let mut out: Vec<String> = Vec::new();
    push_line(&mut out, to_string("Tailnet:"));
    push_line(&mut out, indented("  Base: ", base));
    let tld = either_exec(lookup_var(vars, "TAILNET_TLD"), lookup_var(vars, "TLD"));
    let db_tld = either_exec(lookup_var(settings, "TAILNET_TLD"), lookup_var(settings, "TLD"));
    push_opt(&mut out, "  ", compared("TLD", &tld, &db_tld));
    let acme = lookup_var(vars, "ACME_EMAIL");
    let db_acme = lookup_var(settings, "ACME_EMAIL");
    push_opt(&mut out, "  ", compared("ACME Email", &acme, &db_acme));
    push_line(&mut out, empty_line());
    assert(views(out@) =~= tailnet_lines(vars_view(vars@), base@, vars_view(settings@)));
    out
}

fn pia_section(vars: &Vec<(String, String)>, settings: &Vec<(String, String)>, verbose: bool) -> (r: Vec<String>)
    ensures
        views(r@) == pia_lines(vars_view(vars@), vars_view(settings@), verbose),
{
    let mut out: Vec<String> = Vec::new();
    push_line(&mut out, to_string("PIA VPN:"));
    let pu = lookup_var(vars, "PIA_USERNAME");
    let pp = lookup_var(vars, "PIA_PASSWORD");
    let dpu = lookup_var(settings, "PIA_USERNAME");
    let dpp = lookup_var(settings, "PIA_PASSWORD");
    if pu.is_some() || pp.is_some() || dpu.is_some() || dpp.is_some() {
        let u = compare_or_unset("Username", as_opt_str(&pu), as_opt_str(&dpu));
        push_line(&mut out, indented("  ", u.as_str()));
        let p = password_text(verbose, &pp, &dpp);
        push_line(&mut out, indented("  ", p.as_str()));
    } else {
        push_line(&mut out, to_string("  (not configured)"));
    }
    push_line(&mut out, empty_line());
    assert(views(out@) =~= pia_lines(vars_view(vars@), vars_view(settings@), verbose));
    out
}

fn media_section(vars: &Vec<(String, String)>, settings: &Vec<(String, String)>) -> (r: Vec<String>)
    ensures
        views(r@) == media_lines(vars_view(vars@), vars_view(settings@)),
{
    let ghost vv = vars_view(vars@);
    let ghost sv = vars_view(settings@);
    let mut v: Vec<String> = Vec::new();
    push_opt(&mut v, "  ", compared("Downloads", &lookup_var(vars, "DOWNLOADS_PATH"), &lookup_var(settings, "DOWNLOADS_PATH")));
    push_opt(&mut v, "  ", compared("Movies", &lookup_var(vars, "MOVIES_PATH"), &lookup_var(settings, "MOVIES_PATH")));
    push_opt(&mut v, "  ", compared("TV", &lookup_var(vars, "TV_PATH"), &lookup_var(settings, "TV_PATH")));
    push_opt(&mut v, "  ", compared("Movies 4K", &lookup_var(vars, "MOVIES_4K_PATH"), &lookup_var(settings, "MOVIES_4K_PATH")));
    push_opt(&mut v, "  ", compared("Music", &lookup_var(vars, "MUSIC_PATH"), &lookup_var(settings, "MUSIC_PATH")));
    assert(views(v@) =~= media_values(vv, sv));
    let none = v.len() == 0;
    let mut out: Vec<String> = Vec::new();
    push_line(&mut out, to_string("Media Paths:"));
    push_lines(&mut out, v);
    if none {
        push_line(&mut out, to_string("  (not configured)"));
    }
    push_line(&mut out, empty_line());
    assert(views(out@) =~= media_lines(vv, sv));
    out
}

fn npm_section(vars: &Vec<(String, String)>, settings: &Vec<(String, String)>, verbose: bool) -> (r: Vec<String>)
    ensures
        views(r@) == npm_lines(vars_view(vars@), vars_view(settings@), verbose),
{
    let mut out: Vec<String> = Vec::new();
    push_line(&mut out, to_string("Nginx Proxy Manager:"));
    let u = lookup_var(vars, "NGINX_PROXY_MANAGER_URL");
    let n = lookup_var(vars, "NGINX_PROXY_MANAGER_USERNAME");
    let p = lookup_var(vars, "NGINX_PROXY_MANAGER_PASSWORD");
    let du = lookup_var(settings, "NGINX_PROXY_MANAGER_URL");
    let dn = lookup_var(settings, "NGINX_PROXY_MANAGER_USERNAME");
    let dp = lookup_var(settings, "NGINX_PROXY_MANAGER_PASSWORD");
    if u.is_some() || n.is_some() || p.is_some() || du.is_some() || dn.is_some() || dp.is_some() {
        push_opt(&mut out, "  ", compared("URL", &u, &du));
        push_opt(&mut out, "  ", compared("Username", &n, &dn));
        let pw = password_text(verbose, &p, &dp);
        push_line(&mut out, indented("  ", pw.as_str()));
    } else {
        push_line(&mut out, to_string("  (not configured)"));
    }
    push_line(&mut out, empty_line());
    assert(views(out@) =~= npm_lines(vars_view(vars@), vars_view(settings@), verbose));
    out
}


/// An optional SMB server as plain values.
pub open spec fn opt_smb(d: Option<&SmbServerConfig>) -> Option<SmbModel> {
    match d {
        Some(c) => Some(c@),
        None => None,
    }
}

fn entry_smb<'a>(servers: &'a Vec<NamedSmbServer>, name: &str) -> (r: Option<&'a SmbServerConfig>)
    ensures
        opt_smb(r) == entry_of(smb_view(servers@), name@),
{
    match find_smb(servers, name) {
        Some(i) => Some(&servers[i].config),
        None => None,
    }
}

fn smb_names(servers: &Vec<NamedSmbServer>) -> (r: Vec<String>)
    ensures
        views(r@) == keys(smb_view(servers@)),
{
    let mut out: Vec<String> = Vec::new();
    let mut i: usize = 0;
    while i < servers.len()
        invariant
            i <= servers@.len(),
            views(out@) == keys(smb_view(servers@)).take(i as int),
        decreases servers@.len() - i,
    {
        push_line(&mut out, to_string(servers[i].name.as_str()));
        assert(keys(smb_view(servers@)).take(i + 1) =~= keys(smb_view(servers@)).take(i as int).push(
            servers@[i as int].name@,
        ));
        i = i + 1;
    }
    assert(keys(smb_view(servers@)).take(i as int) =~= keys(smb_view(servers@)));
    out
}

fn masked_exec(o: &Option<String>) -> (r: Option<String>)
    ensures
        opt_view(r) == masked(opt_view(*o)),
{
    if o.is_some() {
        Some(to_string("***"))
    } else {
        None
    }
}

fn smb_env_section(e: &SmbServerConfig, d: Option<&SmbServerConfig>, verbose: bool) -> (r: Vec<String>)
    ensures
        views(r@) == smb_env_lines(e@, opt_smb(d), verbose),
{
    let (dh, ds, du, dp, dopt) = match d {
        Some(x) => (
            Some(to_string(x.host.as_str())),
            Some(join_strings(&x.shares, ", ")),
            copy_opt(&x.username),
            copy_opt(&x.password),
            copy_opt(&x.options),
        ),
        None => (None, None, None, None, None),
    };
    let mut out: Vec<String> = Vec::new();
    push_opt(&mut out, "    ", compared("Host", &Some(to_string(e.host.as_str())), &dh));
    push_opt(&mut out, "    ", compared("Shares", &Some(join_strings(&e.shares, ", ")), &ds));
    push_opt(&mut out, "    ", compared("Username", &e.username, &du));
    if verbose {
        push_opt(&mut out, "    ", compared("Password", &e.password, &dp));
    } else {
        push_opt(&mut out, "    ", compared("Password", &masked_exec(&e.password), &masked_exec(&dp)));
    }
    push_opt(&mut out, "    ", compared("Options", &e.options, &dopt));
    assert(views(out@) =~= smb_env_lines(e@, opt_smb(d), verbose));
    out
}

fn push_missing(out: &mut Vec<String>, label: &str, o: &Option<String>)
    ensures
        views(final(out)@) == views(old(out)@) + missing_line(label@, opt_view(*o)),
{
    match o {
        Some(v) => {
            let mut l = to_string(label);
            push_str(&mut l, ": (env missing) [db: ");
            push_str(&mut l, v.as_str());
            push_str(&mut l, "]");
            push_line(out, l);
        },
        None => {
            assert(views(out@) =~= views(out@) + Seq::<Seq<char>>::empty());
        },
    }
}

fn smb_db_section(d: &SmbServerConfig, verbose: bool) -> (r: Vec<String>)
    ensures
        views(r@) == smb_db_lines(d@, verbose),
{
    let mut out: Vec<String> = Vec::new();
    let mut h = to_string("    Host: (env missing) [db: ");
    push_str(&mut h, d.host.as_str());
    push_str(&mut h, "]");
    push_line(&mut out, h);
    let mut sh = to_string("    Shares: (env missing) [db: ");
    let joined = join_strings(&d.shares, ", ");
    push_str(&mut sh, joined.as_str());
    push_str(&mut sh, "]");
    push_line(&mut out, sh);
    push_missing(&mut out, "    Username", &d.username);
    let ghost mid = views(out@);
    if verbose {
        push_missing(&mut out, "    Password", &d.password);
    } else if d.password.is_some() {
        push_line(&mut out, to_string("    Password: [db: ***]"));
    }
    push_missing(&mut out, "    Options", &d.options);
    assert(views(out@) =~= smb_db_lines(d@, verbose));
    out
}

fn smb_section(env_smb: &Vec<NamedSmbServer>, db_smb: &Vec<NamedSmbServer>, verbose: bool) -> (r: Vec<String>)
    ensures
        views(r@) == smb_lines(smb_view(env_smb@), smb_view(db_smb@), verbose),
{
    let ghost ev = smb_view(env_smb@);
    let ghost dv = smb_view(db_smb@);
    let names = sorted_union(&smb_names(env_smb), &smb_names(db_smb));
    let ghost nv = views(names@);
    assert(nv == sorted_names(keys(ev), keys(dv)));
    let mut out: Vec<String> = Vec::new();
    push_line(&mut out, to_string("SMB Servers:"));
    if names.len() == 0 {
        push_line(&mut out, to_string("  (none configured)"));
    }
    let ghost head = views(out@);
    let mut i: usize = 0;
    assert(nv.take(0) =~= Seq::<Seq<char>>::empty());
    assert(head + smb_servers_lines(nv.take(0), ev, dv, verbose) =~= head);
    while i < names.len()
        invariant
            i <= names@.len(),
            nv == views(names@),
            ev == smb_view(env_smb@),
            dv == smb_view(db_smb@),
            views(out@) == head + smb_servers_lines(nv.take(i as int), ev, dv, verbose),
        decreases names@.len() - i,
    {
        let name = names[i].as_str();
        let mut title = to_string("  ");
        push_str(&mut title, name);
        push_str(&mut title, ":");
        let mut lines: Vec<String> = Vec::new();
        push_line(&mut lines, title);
        match entry_smb(env_smb, name) {
            Some(e) => {
                push_lines(&mut lines, smb_env_section(e, entry_smb(db_smb, name), verbose));
            },
            None => match entry_smb(db_smb, name) {
                Some(d) => {
                    push_lines(&mut lines, smb_db_section(d, verbose));
                },
                None => {},
            },
        }
        assert(views(lines@) =~= smb_server_lines(nv[i as int], ev, dv, verbose));
        push_lines(&mut out, lines);
        proof {
            assert(nv.take(i + 1).drop_last() =~= nv.take(i as int));
            assert(nv.take(i + 1).last() == nv[i as int]);
            assert(views(out@) =~= head + smb_servers_lines(nv.take(i + 1), ev, dv, verbose));
        }
        i = i + 1;
    }
    assert(nv.take(i as int) =~= nv);
    push_line(&mut out, empty_line());
    assert(views(out@) =~= smb_lines(ev, dv, verbose));
    out
}


/// An optional host as plain values.
pub open spec fn opt_host(h: Option<&HostConfig>) -> Option<HostModel> {
    match h {
        Some(c) => Some(c@),
        None => None,
    }
}

fn entry_host<'a>(hosts: &'a Vec<NamedHost>, name: &str) -> (r: Option<&'a HostConfig>)
    ensures
        opt_host(r) == entry_of(hosts_view(hosts@), name@),
{
    match find_host(hosts, name) {
        Some(i) => Some(&hosts[i].config),
        None => None,
    }
}

fn host_names(hosts: &Vec<NamedHost>) -> (r: Vec<String>)
    ensures
        views(r@) == keys(hosts_view(hosts@)),
{
    let mut out: Vec<String> = Vec::new();
    let mut i: usize = 0;
    while i < hosts.len()
        invariant
            i <= hosts@.len(),
            views(out@) == keys(hosts_view(hosts@)).take(i as int),
        decreases hosts@.len() - i,
    {
        push_line(&mut out, to_string(hosts[i].name.as_str()));
        assert(keys(hosts_view(hosts@)).take(i + 1) =~= keys(hosts_view(hosts@)).take(i as int).push(
            hosts@[i as int].name@,
        ));
        i = i + 1;
    }
    assert(keys(hosts_view(hosts@)).take(i as int) =~= keys(hosts_view(hosts@)));
    out
}

fn host_field(h: Option<&HostConfig>, i: usize) -> (r: Option<String>)
    ensures
        opt_view(r) == host_value(opt_host(h), i as int),
{
    match h {
        Some(c) => if i == 0 {
            copy_opt(&c.ip)
        } else if i == 1 {
            copy_opt(&c.hostname)
        } else if i == 2 {
            copy_opt(&c.tailscale)
        } else {
            copy_opt(&c.backup_path)
        },
        None => None,
    }
}

fn host_section(name: &str, env_hosts: &Vec<NamedHost>, db_hosts: &Vec<NamedHost>) -> (r: Vec<String>)
    ensures
        views(r@) == host_report_lines(name@, hosts_view(env_hosts@), hosts_view(db_hosts@)),
{
    let e = entry_host(env_hosts, name);
    let d = entry_host(db_hosts, name);
    let mut out: Vec<String> = Vec::new();
    let mut title = to_string("  ");
    push_str(&mut title, name);
    push_str(&mut title, ":");
    push_line(&mut out, title);
    push_opt(&mut out, "    ", compared("IP", &host_field(e, 0), &host_field(d, 0)));
    push_opt(&mut out, "    ", compared("Hostname", &host_field(e, 1), &host_field(d, 1)));
    push_opt(&mut out, "    ", compared("Tailscale", &host_field(e, 2), &host_field(d, 2)));
    push_opt(&mut out, "    ", compared("Backup Path", &host_field(e, 3), &host_field(d, 3)));
    assert(views(out@) =~= host_report_lines(name@, hosts_view(env_hosts@), hosts_view(db_hosts@)));
    out
}

fn hosts_section(env_hosts: &Vec<NamedHost>, db_hosts: &Vec<NamedHost>) -> (r: Vec<String>)
    ensures
        views(r@) == hosts_lines(hosts_view(env_hosts@), hosts_view(db_hosts@)),
{
    let ghost ev = hosts_view(env_hosts@);
    let ghost dv = hosts_view(db_hosts@);
    let names = sorted_union(&host_names(env_hosts), &host_names(db_hosts));
    let ghost nv = views(names@);
    let mut out: Vec<String> = Vec::new();
    push_line(&mut out, to_string("Hosts:"));
    if names.len() == 0 {
        push_line(&mut out, to_string("  (none configured)"));
    }
    let ghost head = views(out@);
    let mut i: usize = 0;
    assert(nv.take(0) =~= Seq::<Seq<char>>::empty());
    assert(head + hosts_report_lines(nv.take(0), ev, dv) =~= head);
    while i < names.len()
        invariant
            i <= names@.len(),
            nv == views(names@),
            ev == hosts_view(env_hosts@),
            dv == hosts_view(db_hosts@),
            views(out@) == head + hosts_report_lines(nv.take(i as int), ev, dv),
        decreases names@.len() - i,
    {
        push_lines(&mut out, host_section(names[i].as_str(), env_hosts, db_hosts));
        proof {
            assert(nv.take(i + 1).drop_last() =~= nv.take(i as int));
            assert(nv.take(i + 1).last() == nv[i as int]);
            assert(views(out@) =~= head + hosts_report_lines(nv.take(i + 1), ev, dv));
        }
        i = i + 1;
    }
    assert(nv.take(i as int) =~= nv);
    push_line(&mut out, empty_line());
    assert(views(out@) =~= hosts_lines(ev, dv));
    out
}

fn others_section(vars: &Vec<(String, String)>, verbose: bool) -> (r: Vec<String>)
    requires
        forall|i: int, j: int| 0 <= i < j < vars@.len() ==> vars@[i].0@ != vars@[j].0@,
    ensures
        views(r@) == others_lines(vars_view(vars@), verbose),
{
    let mut out: Vec<String> = Vec::new();
    if !verbose {
        return out;
    }
    let others = other_env_values(vars);
    assert(pair_views(vars@) =~= vars_view(vars@));
    let ghost ov = pair_views(others@);
    if others.len() == 0 {
        return out;
    }
    push_line(&mut out, to_string("Other environment values:"));
    let ghost head = views(out@);
    let mut i: usize = 0;
    while i < others.len()
        invariant
            i <= others@.len(),
            ov == pair_views(others@),
            views(out@) == head + ov.take(i as int).map_values(
                |p: (Seq<char>, Seq<char>)| "  "@ + p.0 + "="@ + shown_value(p.0, p.1),
            ),
        decreases others@.len() - i,
    {
        let mut l = to_string("  ");
        push_str(&mut l, others[i].0.as_str());
        push_str(&mut l, "=");
        let shown = masked_value(others[i].0.as_str(), others[i].1.as_str());
        push_str(&mut l, shown.as_str());
        push_line(&mut out, l);
        proof {
            assert(ov[i as int] == (others@[i as int].0@, others@[i as int].1@));
            assert(ov.take(i + 1).map_values(|p: (Seq<char>, Seq<char>)| "  "@ + p.0 + "="@ + shown_value(p.0, p.1))
                =~= ov.take(i as int).map_values(
                |p: (Seq<char>, Seq<char>)| "  "@ + p.0 + "="@ + shown_value(p.0, p.1),
            ).push(l@));
        }
        i = i + 1;
    }
    assert(ov.take(i as int) =~= ov);
    push_line(&mut out, empty_line());
    assert(views(out@) =~= others_lines(vars_view(vars@), verbose));
    out
}

fn validation_section(config: &EnvConfig) -> (r: Vec<String>)
    ensures
        views(r@) == validation_lines(config@),
{
    let issues = validation_issues(config);
    let ghost iv = views(issues@);
    let mut out: Vec<String> = Vec::new();
    push_line(&mut out, to_string("Validation:"));
    if issues.len() == 0 {
        push_line(&mut out, to_string("  ✓ Configuration is valid"));
    } else {
        push_line(&mut out, to_string("  ✗ Configuration has issues:"));
        let ghost head = views(out@);
        let mut i: usize = 0;
        while i < issues.len()
            invariant
                i <= issues@.len(),
                iv == views(issues@),
                views(out@) == head + iv.take(i as int).map_values(|x: Seq<char>| "    - "@ + x),
            decreases issues@.len() - i,
        {
            push_line(&mut out, indented("    - ", issues[i].as_str()));
            proof {
                assert(iv.take(i + 1).map_values(|x: Seq<char>| "    - "@ + x) =~= iv.take(i as int).map_values(
                    |x: Seq<char>| "    - "@ + x,
                ).push("    - "@ + issues@[i as int]@));
            }
            i = i + 1;
        }
        assert(iv.take(i as int) =~= iv);
    }
    push_line(&mut out, empty_line());
    assert(views(out@) =~= validation_lines(config@));
    out
}

/// The report of the current configuration (see `config_report`): the
/// environment `vars` (each name once), the configuration read from them,
/// and what the database holds: its settings, SMB servers and hosts.
pub fn current_config_lines(
    vars: &Vec<(String, String)>,
    env: &EnvConfig,
    settings: &Vec<(String, String)>,
    db_smb: &Vec<NamedSmbServer>,
    db_hosts: &Vec<NamedHost>,
    verbose: bool,
) -> (r: Vec<String>)
    requires
        forall|i: int, j: int| 0 <= i < j < vars@.len() ==> vars@[i].0@ != vars@[j].0@,
    ensures
        views(r@) == config_report(
            vars_view(vars@),
            env@,
            vars_view(settings@),
            smb_view(db_smb@),
            hosts_view(db_hosts@),
            verbose,
        ),
{
    let mut out = tailnet_section(vars, env.tailnet_base.as_str(), settings);
    push_lines(&mut out, pia_section(vars, settings, verbose));
    push_lines(&mut out, media_section(vars, settings));
    push_lines(&mut out, npm_section(vars, settings, verbose));
    push_lines(&mut out, smb_section(&env.smb_servers, db_smb, verbose));
    push_lines(&mut out, hosts_section(&env.hosts, db_hosts));
    push_lines(&mut out, others_section(vars, verbose));
    push_lines(&mut out, validation_section(env));
    out
}

} // verus!
