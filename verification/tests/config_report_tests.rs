use halvor::config::{EnvConfig, HostConfig, NamedHost, NamedSmbServer, SmbServerConfig};
use halvor::config_report::current_config_lines;

fn s(x: &str) -> String {
    x.to_string()
}

fn host(name: &str, ip: Option<&str>, hostname: Option<&str>) -> NamedHost {
    NamedHost {
        name: s(name),
        config: HostConfig { ip: ip.map(s), hostname: hostname.map(s), tailscale: None, backup_path: None },
    }
}

fn smb(name: &str, h: &str, shares: &[&str], password: Option<&str>) -> NamedSmbServer {
    NamedSmbServer {
        name: s(name),
        config: SmbServerConfig {
            host: s(h),
            shares: shares.iter().map(|x| s(x)).collect(),
            username: None,
            password: password.map(s),
            options: None,
        },
    }
}

fn inputs() -> (Vec<(String, String)>, EnvConfig, Vec<(String, String)>, Vec<NamedSmbServer>, Vec<NamedHost>) {
    let vars = vec![
        (s("TAILNET_BASE"), s("ts.net")),
        (s("TLD"), s("lan")),
        (s("PIA_USERNAME"), s("u")),
        (s("PIA_PASSWORD"), s("pw")),
        (s("MOVIES_PATH"), s("/m")),
        (s("EDITOR"), s("vi")),
        (s("API_SECRET"), s("hush")),
    ];
    let env = EnvConfig {
        tailnet_base: s("ts.net"),
        hosts: vec![host("frigg", Some("1.1.1.1"), None)],
        smb_servers: vec![smb("nas", "h", &["a", "b"], Some("p"))],
    };
    let settings = vec![(s("TLD"), s("lan")), (s("PIA_PASSWORD"), s("other"))];
    let db_smb = vec![smb("nas", "h2", &["a"], None)];
    let db_hosts = vec![host("odin", Some("2.2.2.2"), None), host("frigg", Some("1.1.1.1"), Some("f"))];
    (vars, env, settings, db_smb, db_hosts)
}

#[test]
fn report_sets_env_values_against_the_database() {
    let (vars, env, settings, db_smb, db_hosts) = inputs();
    let lines = current_config_lines(&vars, &env, &settings, &db_smb, &db_hosts, false);
    let expected = vec![
        "Tailnet:",
        "  Base: ts.net",
        "  TLD: lan [db: match]",
        "",
        "PIA VPN:",
        "  Username: u [db: missing]",
        "  Password: *** [db: mismatch]",
        "",
        "Media Paths:",
        "  Movies: /m [db: missing]",
        "",
        "Nginx Proxy Manager:",
        "  (not configured)",
        "",
        "SMB Servers:",
        "  nas:",
        "    Host: h [db: mismatch]",
        "    Shares: a, b [db: mismatch]",
        "    Password: *** [db: missing]",
        "",
        "Hosts:",
        "  frigg:",
        "    IP: 1.1.1.1 [db: match]",
        "    Hostname: (env missing) [db: f]",
        "  odin:",
        "    IP: (env missing) [db: 2.2.2.2]",
        "",
        "Validation:",
        "  ✓ Configuration is valid",
        "",
    ];
    assert_eq!(lines, expected);
}

#[test]
fn verbose_report_shows_passwords_and_other_values() {
    let (vars, env, settings, db_smb, db_hosts) = inputs();
    let lines = current_config_lines(&vars, &env, &settings, &db_smb, &db_hosts, true);
    assert!(lines.contains(&s("  Password: pw [db: mismatch]")));
    assert!(lines.contains(&s("    Password: p [db: missing]")));
    let at = lines.iter().position(|l| l == "Other environment values:").unwrap();
    assert_eq!(lines[at + 1], "  API_SECRET=***");
    assert_eq!(lines[at + 2], "  EDITOR=vi");
    assert_eq!(lines[at + 3], "");
    assert_eq!(lines[at + 4], "Validation:");
}

#[test]
fn empty_report_lists_nothing_configured_and_the_issues() {
    let env = EnvConfig { tailnet_base: s("ts.net"), hosts: vec![], smb_servers: vec![smb("nas", "", &[], None)] };
    let lines = current_config_lines(&vec![], &env, &vec![], &vec![], &vec![], false);
    assert!(lines.contains(&s("  (not configured)")));
    assert!(lines.contains(&s("  (none configured)")));
    let at = lines.iter().position(|l| l == "Validation:").unwrap();
    assert_eq!(lines[at + 1], "  ✗ Configuration has issues:");
    assert_eq!(lines[at + 2], "    - No hosts configured");
    assert_eq!(lines[at + 3], "    - SMB server 'nas' missing host");
    assert_eq!(lines[at + 4], "    - SMB server 'nas' missing shares");
    let db_only = vec![smb("vault", "h9", &["x"], Some("secret"))];
    let lines = current_config_lines(&vec![], &env, &vec![], &db_only, &vec![], false);
    assert!(lines.contains(&s("    Host: (env missing) [db: h9]")));
    assert!(lines.contains(&s("    Password: [db: ***]")));
    assert!(!lines.iter().any(|l| l.contains("secret")));
}
