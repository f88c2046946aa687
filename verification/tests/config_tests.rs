use halvor::config::{
    apply_host_updates, find_hostname_in_config, merge_host_configs, normalize_hostname,
    parse_host_field, set_field, EnvConfig, HostConfig, HostField, NamedHost,
};
use halvor::envparse::{merge_database_hosts, parse_env_config, parse_share_list, EnvConfigError};

fn s(x: &str) -> String {
    x.to_string()
}

fn host(ip: Option<&str>, hostname: Option<&str>, tailscale: Option<&str>, backup: Option<&str>) -> HostConfig {
    HostConfig {
        ip: ip.map(s),
        hostname: hostname.map(s),
        tailscale: tailscale.map(s),
        backup_path: backup.map(s),
    }
}

fn env_with(names: &[&str]) -> EnvConfig {
    EnvConfig {
        tailnet_base: s("ts.net"),
        hosts: names
            .iter()
            .map(|n| NamedHost { name: s(n), config: host(Some("10.0.0.1"), None, None, None) })
            .collect(),
        smb_servers: Vec::new(),
    }
}

fn vars(pairs: &[(&str, &str)]) -> Vec<(String, String)> {
    pairs.iter().map(|(k, v)| (s(k), s(v))).collect()
}

#[test]
fn normalize_strips_known_suffixes_and_short_domains() {
    assert_eq!(normalize_hostname("frigg.ts.net"), "frigg");
    assert_eq!(normalize_hostname("frigg.local"), "frigg");
    assert_eq!(normalize_hostname("frigg.lan"), "frigg");
    assert_eq!(normalize_hostname("frigg.scottkey.me"), "frigg");
    assert_eq!(normalize_hostname("frigg.home"), "frigg");
    assert_eq!(normalize_hostname("frigg.example.com"), "frigg.example.com");
    assert_eq!(normalize_hostname("frigg.abc1"), "frigg.abc1");
    assert_eq!(normalize_hostname("192.168.1.5"), "192.168.1.5");
    assert_eq!(normalize_hostname("10.0.0.2"), "10.0.0.2");
    assert_eq!(normalize_hostname("frigg"), "frigg");
}

#[test]
fn find_hostname_tries_exact_then_normalized_then_case() {
    let cfg = env_with(&["frigg", "Baulder"]);
    assert_eq!(find_hostname_in_config("frigg", &cfg), Some(s("frigg")));
    assert_eq!(find_hostname_in_config("frigg.ts.net", &cfg), Some(s("frigg")));
    assert_eq!(find_hostname_in_config("FRIGG", &cfg), Some(s("frigg")));
    assert_eq!(find_hostname_in_config("baulder.local", &cfg), Some(s("Baulder")));
    assert_eq!(find_hostname_in_config("odin", &cfg), None);
}

#[test]
fn host_field_names() {
    assert_eq!(parse_host_field("ip"), Some(HostField::Ip));
    assert_eq!(parse_host_field("hostname"), Some(HostField::Hostname));
    assert_eq!(parse_host_field("tailscale"), Some(HostField::Tailscale));
    assert_eq!(parse_host_field("backup_path"), Some(HostField::BackupPath));
    assert_eq!(parse_host_field("IP"), None);
}

#[test]
fn set_field_then_the_field_holds_the_value() {
    let mut c = host(None, None, None, None);
    set_field(&mut c, HostField::BackupPath, "/mnt/b");
    assert_eq!(c.backup_path, Some(s("/mnt/b")));
    set_field(&mut c, HostField::Ip, "1.2.3.4");
    assert_eq!(c.ip, Some(s("1.2.3.4")));
    assert_eq!(c.backup_path, Some(s("/mnt/b")));
}

#[test]
fn updates_only_touch_given_fields() {
    let base = host(Some("1.1.1.1"), Some("a"), None, Some("/b"));
    let upd = host(None, Some("z"), Some("ts"), None);
    let r = apply_host_updates(&base, &upd);
    assert_eq!(r.ip, Some(s("1.1.1.1")));
    assert_eq!(r.hostname, Some(s("z")));
    assert_eq!(r.tailscale, Some(s("ts")));
    assert_eq!(r.backup_path, Some(s("/b")));
    let empty = host(None, None, None, None);
    let same = apply_host_updates(&base, &empty);
    assert_eq!(same.ip, base.ip);
    assert_eq!(same.hostname, base.hostname);
    assert_eq!(same.backup_path, base.backup_path);
    let twice = apply_host_updates(&r, &upd);
    assert_eq!(twice.hostname, r.hostname);
    assert_eq!(twice.tailscale, r.tailscale);
}

#[test]
fn merge_prefers_first_field_by_field() {
    let a = host(Some("1"), None, None, None);
    let b = host(Some("2"), Some("h"), None, None);
    let m = merge_host_configs(Some(&a), Some(&b));
    assert_eq!(m.ip, Some(s("1")));
    assert_eq!(m.hostname, Some(s("h")));
    let only = merge_host_configs(None, Some(&b));
    assert_eq!(only.ip, Some(s("2")));
    let none = merge_host_configs(None, None);
    assert_eq!(none.ip, None);
}

#[test]
fn env_config_reads_hosts_and_smb_servers() {
    let v = vars(&[
        ("TAILNET_BASE", "example.ts.net"),
        ("HOST_FRIGG_IP", "10.0.0.5"),
        ("HOST_FRIGG_TAILSCALE", "frigg-ts"),
        ("HOST_ODIN_TAILSCALE_IP", "100.1.1.1"),
        ("SMB_NAS_HOST", "10.0.0.9"),
        ("SMB_NAS_SHARES", " media, backups ,,"),
        ("PATH", "/usr/bin"),
    ]);
    let cfg = parse_env_config(&v).unwrap();
    assert_eq!(cfg.tailnet_base, "example.ts.net");
    assert_eq!(cfg.hosts.len(), 2);
    assert_eq!(cfg.hosts[0].name, "frigg");
    assert_eq!(cfg.hosts[0].config.ip, Some(s("10.0.0.5")));
    assert_eq!(cfg.hosts[0].config.tailscale, Some(s("frigg-ts")));
    assert_eq!(cfg.hosts[1].name, "odin");
    assert_eq!(cfg.hosts[1].config.ip, Some(s("100.1.1.1")));
    assert_eq!(cfg.smb_servers.len(), 1);
    assert_eq!(cfg.smb_servers[0].name, "nas");
    assert_eq!(cfg.smb_servers[0].config.shares, vec![s("media"), s("backups")]);
}

#[test]
fn explicit_ip_wins_over_tailscale_ip() {
    let v = vars(&[("HOST_A_IP", "1.1.1.1"), ("HOST_A_TAILSCALE_IP", "100.0.0.1")]);
    let cfg = parse_env_config(&v).unwrap();
    assert_eq!(cfg.hosts[0].config.ip, Some(s("1.1.1.1")));
    assert_eq!(cfg.tailnet_base, "ts.net");
}

#[test]
fn incomplete_smb_servers_are_refused() {
    let v = vars(&[("SMB_NAS_SHARES", "media")]);
    assert!(matches!(parse_env_config(&v), Err(EnvConfigError::SmbMissingHost(n)) if n == "nas"));
    let v = vars(&[("SMB_NAS_HOST", "10.0.0.9")]);
    assert!(matches!(parse_env_config(&v), Err(EnvConfigError::SmbMissingShares(n)) if n == "nas"));
}

#[test]
fn share_lists_are_trimmed() {
    assert_eq!(parse_share_list("a, b ,, c"), vec![s("a"), s("b"), s("c")]);
    assert!(parse_share_list("").is_empty());
}

#[test]
fn database_hosts_override_env_hosts() {
    let mut cfg = env_with(&["frigg", "odin"]);
    let db = vec![
        NamedHost { name: s("odin"), config: host(Some("9.9.9.9"), None, None, None) },
        NamedHost { name: s("loki"), config: host(Some("8.8.8.8"), None, None, None) },
    ];
    merge_database_hosts(&mut cfg, db);
    assert_eq!(cfg.hosts.len(), 3);
    assert_eq!(cfg.hosts[0].config.ip, Some(s("10.0.0.1")));
    assert_eq!(cfg.hosts[1].name, "odin");
    assert_eq!(cfg.hosts[1].config.ip, Some(s("9.9.9.9")));
    assert_eq!(cfg.hosts[2].name, "loki");
}

#[test]
fn explicit_ip_wins_in_either_order_and_keys_are_lower_case() {
    let v = vars(&[("HOST_Frigg_TAILSCALE_IP", "100.0.0.1"), ("HOST_FRIGG_IP", "1.1.1.1"), ("HOST_ODIN_TAILSCALE_IP", "100.0.0.2")]);
    let cfg = parse_env_config(&v).unwrap();
    assert_eq!(cfg.hosts.len(), 2);
    assert_eq!(cfg.hosts[0].name, "frigg");
    assert_eq!(cfg.hosts[0].config.ip, Some(s("1.1.1.1")));
    assert_eq!(cfg.hosts[1].name, "odin");
    assert_eq!(cfg.hosts[1].config.ip, Some(s("100.0.0.2")));
}

#[test]
fn normal_forms_are_prefixes_and_dot_free_names_stay() {
    for h in ["odin", "odin.lan", "odin.local", "odin.ts.net", "odin.scottkey.me", "odin.example.com", "10.0.0.1"] {
        assert!(h.starts_with(normalize_hostname(h).as_str()));
    }
    assert_eq!(normalize_hostname("Odin-2"), "Odin-2");
    assert_eq!(normalize_hostname("odin.scottkey.me"), "odin");
}

#[test]
fn unknown_names_resolve_to_nothing() {
    let cfg = env_with(&["frigg", "odin"]);
    assert_eq!(find_hostname_in_config("frigg", &cfg), Some(s("frigg")));
    assert_eq!(find_hostname_in_config("ODIN.lan", &cfg), Some(s("odin")));
    assert_eq!(find_hostname_in_config("thor", &cfg), None);
    assert_eq!(find_hostname_in_config("thor.lan", &cfg), None);
}

#[test]
fn last_ip_wins_and_first_tailscale_ip_is_the_fallback() {
    let v = vars(&[
        ("HOST_A_TAILSCALE_IP", "100.0.0.1"),
        ("HOST_a_TAILSCALE_IP", "100.0.0.2"),
        ("HOST_B_IP", "10.0.0.1"),
        ("HOST_b_IP", "10.0.0.2"),
        ("HOST_B_TAILSCALE_IP", "100.0.0.3"),
        ("HOST_C_HOSTNAME", "c.lan"),
    ]);
    let cfg = parse_env_config(&v).unwrap();
    assert_eq!(cfg.hosts.len(), 3);
    assert_eq!(cfg.hosts[0].config.ip, Some(s("100.0.0.1")));
    assert_eq!(cfg.hosts[1].config.ip, Some(s("10.0.0.2")));
    assert_eq!(cfg.hosts[2].name, "c");
    assert_eq!(cfg.hosts[2].config.ip, None);
}
