use halvor::agent::{
    daemon_args, immediate_response, joins_data_sync, reported_hostname, setting_needs_update, AgentRequest,
    AgentResponse, AgentServer, ConfigSync, HalvorClient, HostInfo, SyncError,
};
use halvor::config::HostConfig;
use halvor::discovery::{dedup_by_address, local_scan_targets, DiscoveredHost, HostDiscovery, TailscaleDevice};

fn s(x: &str) -> String {
    x.to_string()
}

fn host(name: &str, local: Option<&str>, ts: Option<&str>) -> DiscoveredHost {
    DiscoveredHost {
        hostname: s(name),
        local_ip: local.map(s),
        tailscale_ip: ts.map(s),
        tailscale_hostname: None,
        agent_port: 13001,
        reachable: true,
    }
}

#[test]
fn default_discovery_port() {
    assert_eq!(HostDiscovery::default().port(), 13001);
    assert_eq!(HostDiscovery::new(4000).port(), 4000);
    assert_eq!(HalvorClient::new(None).port(), 13001);
    assert_eq!(HalvorClient::new(Some(9)).port(), 9);
}

#[test]
fn tailscale_devices_with_answering_agents_are_found() {
    let d = HostDiscovery::default();
    let devices = vec![
        TailscaleDevice { name: s("a"), ip: Some(s("100.0.0.1")) },
        TailscaleDevice { name: s("b"), ip: None },
        TailscaleDevice { name: s("c"), ip: Some(s("100.0.0.3")) },
    ];
    let found = d.discover_via_tailscale(&devices, &vec![true, true, false]);
    assert_eq!(found.len(), 1);
    assert_eq!(found[0].hostname, "a");
    assert_eq!(found[0].tailscale_ip, Some(s("100.0.0.1")));
    assert_eq!(found[0].tailscale_hostname, Some(s("a")));
    assert_eq!(found[0].local_ip, None);
    assert!(found[0].reachable);
}

#[test]
fn local_scan_probes_the_slash_24_network() {
    let ips = vec![s("127.0.0.1"), s("192.168.1.5"), s("::1"), s("nodots")];
    let targets = local_scan_targets(&ips);
    assert_eq!(targets.len(), 254);
    assert_eq!(targets[0].address, "192.168.1.1");
    assert_eq!(targets[0].number, 1);
    assert_eq!(targets[253].address, "192.168.1.254");
    assert_eq!(targets[253].number, 254);
    let mut reach = vec![false; 254];
    reach[41] = true;
    let found = HostDiscovery::default().discover_via_local_network(&ips, &reach);
    assert_eq!(found.len(), 1);
    assert_eq!(found[0].hostname, "host-42");
    assert_eq!(found[0].local_ip, Some(s("192.168.1.42")));
    assert_eq!(found[0].tailscale_ip, None);
    assert!(found[0].reachable);
}

#[test]
fn merged_hosts_are_ordered_and_unique_by_address() {
    let ts = vec![host("t1", None, Some("100.0.0.2")), host("t2", Some("10.0.0.1"), Some("100.0.0.1"))];
    let local = vec![host("l1", Some("100.0.0.2"), None), host("l2", Some("10.0.0.9"), None), host("l3", None, None)];
    let all = HostDiscovery::default().discover_all(&ts, &local);
    let names: Vec<&str> = all.iter().map(|h| h.hostname.as_str()).collect();
    assert_eq!(names, vec!["l3", "l2", "t2", "t1"]);
    let again = dedup_by_address(&all);
    let names2: Vec<&str> = again.iter().map(|h| h.hostname.as_str()).collect();
    assert_eq!(names, names2);
}

#[test]
fn sync_asks_reachable_agents_until_one_lacks_an_address() {
    let sync = ConfigSync::new(s("me"));
    let mut down = host("down", Some("10.0.0.7"), None);
    down.reachable = false;
    let hosts = vec![host("a", Some("10.0.0.1"), Some("100.0.0.1")), down, host("b", Some("10.0.0.2"), None)];
    let (targets, err) = sync.sync_host_info(&hosts);
    assert!(err.is_none());
    assert_eq!(targets.len(), 2);
    assert_eq!(targets[0].address, "100.0.0.1");
    assert_eq!(targets[1].address, "10.0.0.2");
    let hosts = vec![host("a", Some("10.0.0.1"), None), host("lost", None, None), host("c", Some("1.1.1.1"), None)];
    let (targets, err) = sync.sync_host_info(&hosts);
    assert_eq!(targets.len(), 1);
    assert!(matches!(err, Some(SyncError::NoAddress { hostname }) if hostname == "lost"));
}

#[test]
fn reported_information_fills_missing_fields_only() {
    let sync = ConfigSync::new(s("me"));
    let info = HostInfo {
        hostname: s("a"),
        local_ip: Some(s("10.0.0.1")),
        tailscale_ip: None,
        tailscale_hostname: Some(s("a-ts")),
        docker_version: None,
        tailscale_installed: true,
        portainer_installed: false,
    };
    let c = HostConfig { ip: None, hostname: Some(s("a")), tailscale: Some(s("keep")), backup_path: None };
    let m = sync.merge_reported(&c, &info);
    assert_eq!(m.ip, Some(s("10.0.0.1")));
    assert_eq!(m.tailscale, Some(s("keep")));
    assert_eq!(m.hostname, Some(s("a")));
}

#[test]
fn agent_answers() {
    let server = AgentServer::new(23500, None);
    assert!(matches!(server.command_response(true, "out", "err"), AgentResponse::Success { output } if output == "out"));
    assert!(matches!(server.command_response(false, "out", "boom"), AgentResponse::Error { message } if message == "Command failed: boom"));
    assert!(matches!(immediate_response(&AgentRequest::Ping), Some(AgentResponse::Pong)));
    assert!(immediate_response(&AgentRequest::GetHostInfo).is_none());
    assert!(matches!(server.sync_config(vec![1, 2]), AgentResponse::Success { output } if output == "Config synced"));
    assert_eq!(AgentServer::default().port, 23500);
    assert_eq!(reported_hostname(Some(" box \n"), Some("other")), "box");
    assert_eq!(reported_hostname(None, Some("file-host\n")), "file-host");
    assert_eq!(reported_hostname(None, None), "unknown");
    assert_eq!(daemon_args(13001), vec![s("agent"), s("start"), s("--port"), s("13001")]);
}

#[test]
fn data_sync_choices() {
    let sync = ConfigSync::new(s("me"));
    assert!(!joins_data_sync(&sync, &host("me", Some("1.1.1.1"), None)));
    assert!(joins_data_sync(&sync, &host("you", Some("1.1.1.1"), None)));
    assert!(setting_needs_update(Ok(Some("a")), "b"));
    assert!(!setting_needs_update(Ok(Some("a")), "a"));
    assert!(setting_needs_update(Ok(None), "a"));
    assert!(!setting_needs_update(Err(()), "a"));
}

#[test]
fn local_scan_skips_addresses_that_are_not_dotted_quads() {
    let ips = vec![s("10.1.2"), s("10.1.2.3.4"), s("fe80::1")];
    assert_eq!(local_scan_targets(&ips).len(), 0);
    let ips = vec![s("10.0.0.7"), s("172.16.5.9")];
    let targets = local_scan_targets(&ips);
    assert_eq!(targets.len(), 508);
    assert_eq!(targets[0].address, "10.0.0.1");
    assert_eq!(targets[254].address, "172.16.5.1");
}
