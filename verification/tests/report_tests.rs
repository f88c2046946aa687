use halvor::config::{EnvConfig, HostConfig, NamedHost, NamedSmbServer, SmbServerConfig};
use halvor::report::{
    compare_or_unset, compare_values, hidden_line, host_diff_lines, host_summary, mask_password, masked_value,
    other_env_values, other_var, sorted_intersection, sorted_union, validation_issues,
};

fn s(x: &str) -> String {
    x.to_string()
}

#[test]
fn compared_values() {
    assert_eq!(compare_values("  TLD", Some("ts.net"), Some("ts.net")), Some(s("  TLD: ts.net [db: match]")));
    assert_eq!(compare_values("  TLD", Some("ts.net"), Some("x")), Some(s("  TLD: ts.net [db: mismatch]")));
    assert_eq!(compare_values("  TLD", Some("ts.net"), None), Some(s("  TLD: ts.net [db: missing]")));
    assert_eq!(compare_values("    IP", None, Some("1.1.1.1")), Some(s("    IP: (env missing) [db: 1.1.1.1]")));
    assert_eq!(compare_values("    IP", None, None), None);
    assert_eq!(compare_or_unset("  Username", None, None), "  Username: (not set)");
}

#[test]
fn hidden_passwords() {
    assert_eq!(hidden_line("  Password", Some("a"), Some("a")), "  Password: *** [db: match]");
    assert_eq!(hidden_line("  Password", Some("a"), Some("b")), "  Password: *** [db: mismatch]");
    assert_eq!(hidden_line("  Password", None, Some("b")), "  Password: (not set) [env missing]");
    assert_eq!(hidden_line("  Password", None, None), "  Password: (not set)");
    assert_eq!(mask_password("abc"), "***");
    assert_eq!(mask_password("0123456789"), "********");
    assert_eq!(mask_password("é"), "**");
}

fn host(ip: Option<&str>, bp: Option<&str>) -> HostConfig {
    HostConfig { ip: ip.map(s), hostname: None, tailscale: None, backup_path: bp.map(s) }
}

#[test]
fn host_differences() {
    let a = host(Some("1.1.1.1"), None);
    let b = host(Some("2.2.2.2"), Some("/b"));
    assert_eq!(
        host_diff_lines("frigg", Some(&a), Some(&b)),
        vec![
            s("  frigg - IP differs:"),
            s("    .env: 1.1.1.1"),
            s("    db:   2.2.2.2"),
            s("  frigg - Backup path differs:"),
            s("    .env: (not set)"),
            s("    db:   /b"),
        ]
    );
    assert_eq!(host_diff_lines("frigg", Some(&a), Some(&a)), vec![s("  frigg - No differences")]);
    assert_eq!(host_diff_lines("frigg", Some(&a), None), vec![s("  frigg - Only in .env (not in database)")]);
    assert_eq!(host_diff_lines("frigg", None, Some(&a)), vec![s("  frigg - Only in database (not in .env)")]);
    assert!(host_diff_lines("frigg", None, None).is_empty());
}

#[test]
fn names_of_both_sources_once_in_order() {
    let env = vec![s("odin"), s("frigg")];
    let db = vec![s("loki"), s("frigg"), s("loki")];
    assert_eq!(sorted_union(&env, &db), vec![s("frigg"), s("loki"), s("odin")]);
    assert!(sorted_union(&vec![], &vec![]).is_empty());
}

#[test]
fn other_environment_values() {
    assert!(!other_var("HOST_A_IP"));
    assert!(!other_var("SMB_NAS_HOST"));
    assert!(!other_var("ACME_EMAIL"));
    assert!(other_var("EDITOR"));
    let vars = vec![(s("ZED"), s("1")), (s("HOST_X_IP"), s("2")), (s("API_SECRET"), s("3")), (s("EDITOR"), s("vi"))];
    let r = other_env_values(&vars);
    assert_eq!(r, vec![(s("API_SECRET"), s("3")), (s("EDITOR"), s("vi")), (s("ZED"), s("1"))]);
    assert_eq!(masked_value("API_SECRET", "3"), "***");
    assert_eq!(masked_value("Db_Password", "pw"), "***");
    assert_eq!(masked_value("EDITOR", "vi"), "vi");
}

#[test]
fn configuration_problems() {
    let empty = EnvConfig { tailnet_base: s("ts.net"), hosts: vec![], smb_servers: vec![] };
    assert_eq!(validation_issues(&empty), vec![s("No hosts configured")]);
    let cfg = EnvConfig {
        tailnet_base: s("ts.net"),
        hosts: vec![NamedHost { name: s("a"), config: host(Some("1"), None) }],
        smb_servers: vec![NamedSmbServer {
            name: s("nas"),
            config: SmbServerConfig { host: s(""), shares: vec![], username: None, password: None, options: None },
        }],
    };
    assert_eq!(
        validation_issues(&cfg),
        vec![s("SMB server 'nas' missing host"), s("SMB server 'nas' missing shares")]
    );
}

#[test]
fn passwords_are_masked_by_byte_count_up_to_eight() {
    assert_eq!(mask_password("secret"), "******");
    assert_eq!(mask_password("averylongpassword"), "********");
    assert_eq!(mask_password("é"), "**");
    assert_eq!(mask_password(""), "");
}

#[test]
fn summary_names_what_is_set() {
    let full = HostConfig {
        ip: Some("1.1.1.1".to_string()),
        hostname: Some("a".to_string()),
        tailscale: Some("a-ts".to_string()),
        backup_path: Some("/b".to_string()),
    };
    assert_eq!(host_summary(&full), "IP, Tailscale, Backup");
    let some = HostConfig { ip: None, hostname: Some("a".to_string()), tailscale: None, backup_path: Some("/b".to_string()) };
    assert_eq!(host_summary(&some), "Backup");
    let none = HostConfig { ip: None, hostname: None, tailscale: None, backup_path: None };
    assert_eq!(host_summary(&none), "");
}

#[test]
fn intersection_is_sorted_and_unique() {
    let a = vec!["odin".to_string(), "frigg".to_string(), "loki".to_string(), "frigg".to_string()];
    let b = vec!["thor".to_string(), "frigg".to_string(), "odin".to_string()];
    assert_eq!(sorted_intersection(&a, &b), vec!["frigg".to_string(), "odin".to_string()]);
    assert!(sorted_intersection(&a, &Vec::new()).is_empty());
}
