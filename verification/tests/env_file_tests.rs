use halvor::config::HostConfig;
use halvor::env_file::{backup_all_to_env, remove_host_from_env_text, write_host_to_env_text};

fn cfg(ip: &str) -> HostConfig {
    HostConfig { ip: Some(ip.to_string()), hostname: None, tailscale: Some("ts".to_string()), backup_path: None }
}

#[test]
fn writing_a_host_replaces_its_lines() {
    let content = "# comment\nHOST_FRIGG_IP=1.1.1.1\nOTHER=x\n";
    let out = write_host_to_env_text(content, "frigg", &cfg("2.2.2.2"));
    assert_eq!(out, "OTHER=x\nHOST_FRIGG_IP=2.2.2.2\nHOST_FRIGG_TAILSCALE=ts\n");
}

#[test]
fn writing_twice_is_writing_once() {
    let content = "A=1\nHOST_X_IP=0\n";
    let once = write_host_to_env_text(content, "x", &cfg("3.3.3.3"));
    let twice = write_host_to_env_text(&once, "x", &cfg("3.3.3.3"));
    assert_eq!(once, twice);
}

#[test]
fn removing_after_writing_drops_the_host() {
    let content = "# keep\nA=1\n";
    let written = write_host_to_env_text(content, "x", &cfg("3.3.3.3"));
    let removed = remove_host_from_env_text(&written, "x");
    assert_eq!(removed, "A=1\n");
    let kept = remove_host_from_env_text("# keep\nHOST_X_IP=1\nB=2\n", "x");
    assert_eq!(kept, "# keep\nB=2\n");
}

#[test]
fn backup_writes_configured_hosts_in_order() {
    let hosts = vec![
        ("a".to_string(), Some(cfg("1.1.1.1"))),
        ("b".to_string(), None),
        ("c".to_string(), Some(cfg("3.3.3.3"))),
    ];
    let (text, count) = backup_all_to_env("X=1\n", &hosts);
    assert_eq!(count, 2);
    assert_eq!(
        text,
        "X=1\nHOST_A_IP=1.1.1.1\nHOST_A_TAILSCALE=ts\nHOST_C_IP=3.3.3.3\nHOST_C_TAILSCALE=ts\n"
    );
}

#[test]
fn removing_a_host_twice_is_removing_it_once() {
    let content = "# HOST_X_IP=old\nHOST_X_IP=1\n  HOST_X_TAILSCALE=t\nHOST_XY_IP=2\n";
    let once = remove_host_from_env_text(content, "x");
    assert_eq!(once, "# HOST_X_IP=old\nHOST_XY_IP=2\n");
    assert_eq!(remove_host_from_env_text(&once, "x"), once);
}
