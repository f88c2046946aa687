use halvor::config::{EnvConfig, HostConfig, NamedHost};
use halvor::node_setup::{
    entered_hostname, ip_choice, is_yes, machine_configured, node_config, optional_entry, resolve_requested_host,
    restore_selection, select_listed, select_optional, IpChoice, SelectionError,
};

fn s(x: &str) -> String {
    x.to_string()
}

fn cfg() -> EnvConfig {
    EnvConfig {
        tailnet_base: s("ts.net"),
        hosts: vec![NamedHost { name: s("frigg"), config: HostConfig { ip: None, hostname: None, tailscale: None, backup_path: None } }],
        smb_servers: vec![],
    }
}

#[test]
fn requested_hosts() {
    assert_eq!(resolve_requested_host("frigg.ts.net", &cfg()).unwrap(), "frigg");
    let e = resolve_requested_host("odin", &cfg()).unwrap_err();
    assert_eq!(e.upper, "ODIN");
    assert!(machine_configured("frigg", &cfg()));
    assert!(!machine_configured("FRIGG", &cfg()));
}

#[test]
fn address_choice() {
    assert!(matches!(ip_choice(&vec![]), IpChoice::Ask));
    assert!(matches!(ip_choice(&vec![s("127.0.0.1")]), IpChoice::Use(ip) if ip == "127.0.0.1"));
    assert!(matches!(ip_choice(&vec![s("127.0.0.1"), s("192.168.1.4")]), IpChoice::Use(ip) if ip == "192.168.1.4"));
    match ip_choice(&vec![s("10.0.0.1"), s("fe80::1"), s("192.168.1.4")]) {
        IpChoice::Pick { options, preferred } => {
            assert!(preferred);
            assert_eq!(options, vec![s("10.0.0.1"), s("192.168.1.4")]);
        }
        _ => panic!("expected a pick"),
    }
    match ip_choice(&vec![s("127.0.0.1"), s("169.254.0.1")]) {
        IpChoice::Pick { options, preferred } => {
            assert!(!preferred);
            assert_eq!(options.len(), 2);
        }
        _ => panic!("expected a pick"),
    }
}

#[test]
fn selections() {
    let opts = vec![s("a"), s("b")];
    assert_eq!(select_listed("", &opts), Ok(s("a")));
    assert_eq!(select_listed(" 2 ", &opts), Ok(s("b")));
    assert_eq!(select_listed("3", &opts), Err(SelectionError::Invalid));
    assert_eq!(select_listed("x", &opts), Err(SelectionError::Invalid));
    assert_eq!(select_optional("", &opts), Ok(None));
    assert_eq!(select_optional("9", &opts), Ok(None));
    assert_eq!(select_optional("1", &opts), Ok(Some(s("a"))));
    assert_eq!(select_optional("one", &opts), Err(SelectionError::Invalid));
    assert_eq!(restore_selection("", 3), Ok(0));
    assert_eq!(restore_selection("  ", 1), Ok(0));
    assert_eq!(restore_selection("", 0), Err(SelectionError::Invalid));
    assert_eq!(restore_selection("x", 3), Err(SelectionError::Invalid));
    assert_eq!(restore_selection("3", 3), Ok(2));
    assert_eq!(restore_selection("4", 3), Err(SelectionError::Invalid));
}

#[test]
fn entries_and_answers() {
    assert!(is_yes(" YES "));
    assert!(!is_yes(""));
    assert_eq!(optional_entry("  "), None);
    assert_eq!(optional_entry(" ts-name "), Some(s("ts-name")));
    assert_eq!(entered_hostname("\n", "box"), "box");
    assert_eq!(entered_hostname(" other ", "box"), "other");
    let c = node_config("box", "10.0.0.2", Some(s("box-ts")), Some(s("100.0.0.9")));
    assert_eq!(c.ip, Some(s("100.0.0.9")));
    assert_eq!(c.hostname, Some(s("box")));
    assert_eq!(c.tailscale, Some(s("box-ts")));
    assert_eq!(c.backup_path, None);
    assert_eq!(node_config("box", "10.0.0.2", None, None).ip, Some(s("10.0.0.2")));
}
