//! The halvor agent: the requests it answers, how it answers them, and how
//! the information agents report is merged into local host configurations.
use vstd::prelude::*;
use crate::config::{HostConfig, HostModel, copy_opt, opt_view};
use crate::discovery::{
    DiscoveredHost, HostDiscovery, HostSighting, ScanTarget, TailscaleDevice, address_of,
    deduplicated, devices_view, network_found, scan_targets, sightings, tailscale_found,
    DEFAULT_AGENT_PORT,
};
use crate::text::{push_str, to_string, trim, trimmed, views};

verus! {

/// What an agent reports about its host.
#[derive(Debug)]
pub struct HostInfo {
    pub hostname: String,
    pub local_ip: Option<String>,
    pub tailscale_ip: Option<String>,
    pub tailscale_hostname: Option<String>,
    pub docker_version: Option<String>,
    pub tailscale_installed: bool,
    pub portainer_installed: bool,
}

/// A request to an agent.
#[derive(Debug)]
pub enum AgentRequest {
    ExecuteCommand { command: String, args: Vec<String>, token: String },
    GetHostInfo,
    SyncConfig { data: Vec<u8> },
    Ping,
}

/// An agent's answer.
#[derive(Debug)]
pub enum AgentResponse {
    Success { output: String },
    Error { message: String },
    HostInfo { info: HostInfo },
    Pong,
}

/// The port an agent server listens on when none is given.
pub const DEFAULT_SERVER_PORT: u16 = 23500;

/// The agent's server.
#[derive(Debug)]
pub struct AgentServer {
    pub port: u16,
    pub secret: Option<String>,
}

impl Default for AgentServer {
    /// A server on the default port without a secret.
    fn default() -> (r: AgentServer)
        ensures
            r.port == DEFAULT_SERVER_PORT,
            r.secret is None,
    {
        AgentServer { port: DEFAULT_SERVER_PORT, secret: None }
    }
}

impl AgentServer {
    /// A server on `port`, optionally protected by `secret`.
    pub fn new(port: u16, secret: Option<String>) -> (r: AgentServer)
        ensures
            r.port == port,
            r.secret == secret,
    {
        AgentServer { port, secret }
    }


    /// The answer to a configuration sync; the data is accepted as it is.
    pub fn sync_config(&self, data: Vec<u8>) -> (r: AgentResponse)
        ensures
            r matches AgentResponse::Success { output } && output@ == "Config synced"@,
    {
        AgentResponse::Success { output: to_string("Config synced") }
    }

    /// The answer to a command that ran: its standard output when it
    /// succeeded, else a failure carrying its standard error.
    pub fn command_response(&self, success: bool, stdout: &str, stderr: &str) -> (r: AgentResponse)
        ensures
            success ==> (r matches AgentResponse::Success { output } && output@ == stdout@),
            !success ==> (r matches AgentResponse::Error { message } && message@ == "Command failed: "@ + stderr@),
    {
        if success {
            AgentResponse::Success { output: to_string(stdout) }
        } else {
            let mut m = to_string("Command failed: ");
            push_str(&mut m, stderr);
            AgentResponse::Error { message: m }
        }
    }
}

/// How an agent answers a request that needs no outside work; `None` for the
/// requests that gather host information or run a command.
pub fn immediate_response(request: &AgentRequest) -> (r: Option<AgentResponse>)
    ensures
        match request {
            AgentRequest::Ping => r matches Some(AgentResponse::Pong),
            AgentRequest::SyncConfig { .. } => r matches Some(AgentResponse::Success { output })
                && output@ == "Config synced"@,
            _ => r is None,
        },
{
    match request {
        AgentRequest::Ping => Some(AgentResponse::Pong),
        AgentRequest::SyncConfig { .. } => Some(AgentResponse::Success { output: to_string("Config synced") }),
        _ => None,
    }
}

/// The name an agent reports: the `HOSTNAME` variable, else the contents of
/// `/etc/hostname`, else `unknown`; trimmed.
pub fn reported_hostname(env_hostname: Option<&str>, hostname_file: Option<&str>) -> (r: String)
    ensures
        r@ == trimmed(
            match env_hostname {
                Some(h) => h@,
                None => match hostname_file {
                    Some(f) => f@,
                    None => "unknown"@,
                },
            },
        ),
{
    match env_hostname {
        Some(h) => trim(h),
        None => match hostname_file {
            Some(f) => trim(f),
            None => trim("unknown"),
        },
    }
}

/// Synchronises host information between agents.
#[derive(Debug)]
pub struct ConfigSync {
    pub local_hostname: String,
}

/// Why a sync stopped.
#[derive(Debug)]
pub enum SyncError {
    /// A reachable host has neither a Tailscale nor a local address.
    NoAddress { hostname: String },
}

/// An agent to ask for its host information.
#[derive(Debug)]
pub struct AgentTarget {
    pub address: String,
    pub port: u16,
}

/// The agents asked during a sync, in order, and the host without an
/// address that stopped it, if any.  Unreachable hosts are skipped.
pub open spec fn sync_targets(hosts: Seq<HostSighting>) -> (Seq<(Seq<char>, u16)>, Option<Seq<char>>)
    decreases hosts.len(),
{
    if hosts.len() == 0 {
        (seq![], None)
    } else {
        let (t, e) = sync_targets(hosts.drop_last());
        if e is Some {
            (t, e)
        } else {
            let h = hosts.last();
            if !h.reachable {
                (t, None)
            } else {
                match address_of(h) {
                    Some(a) => (t.push((a, h.agent_port)), None),
                    None => (t, Some(h.hostname)),
                }
            }
        }
    }
}

/// Plain values of agent targets.
pub open spec fn agent_targets_view(v: Seq<AgentTarget>) -> Seq<(Seq<char>, u16)> {
    v.map_values(|t: AgentTarget| (t.address@, t.port))
}

/// A host configuration completed with what an agent reported: a missing
/// address is taken from the agent's local address, a missing Tailscale name
/// from its Tailscale host name; what was set stays.
pub open spec fn completed_config(c: HostModel, local_ip: Option<Seq<char>>, tailscale_hostname: Option<Seq<char>>) -> HostModel {
    HostModel {
        ip: if local_ip is Some && c.ip is None { local_ip } else { c.ip },
        tailscale: if tailscale_hostname is Some && c.tailscale is None { tailscale_hostname } else { c.tailscale },
        ..c
    }
}

/// What the agent reports only fills gaps in the stored configuration:
/// a set address or Tailscale name is never replaced, the host name and
/// backup path are never touched, and filling twice changes nothing more.
pub proof fn reported_values_never_overwrite(
    c: HostModel,
    local_ip: Option<Seq<char>>,
    tailscale_hostname: Option<Seq<char>>,
)
    ensures
        completed_config(c, local_ip, tailscale_hostname).ip == (if c.ip is Some { c.ip } else { local_ip }),
        completed_config(c, local_ip, tailscale_hostname).tailscale == (if c.tailscale is Some {
            c.tailscale
        } else {
            tailscale_hostname
        }),
        completed_config(c, local_ip, tailscale_hostname).hostname == c.hostname,
        completed_config(c, local_ip, tailscale_hostname).backup_path == c.backup_path,
        completed_config(completed_config(c, local_ip, tailscale_hostname), local_ip, tailscale_hostname)
            == completed_config(c, local_ip, tailscale_hostname),
{
}

impl ConfigSync {
    /// Sync for the machine named `local_hostname`.
    pub fn new(local_hostname: String) -> (r: ConfigSync)
        ensures
            r.local_hostname == local_hostname,
    {
        ConfigSync { local_hostname }
    }

    /// The agents to ask for host information: every reachable host, at its
    /// Tailscale address or else its local one.  A reachable host with
    /// neither stops the sync with an error; the agents before it are still
    /// asked.
    pub fn sync_host_info(&self, hosts: &Vec<DiscoveredHost>) -> (r: (Vec<AgentTarget>, Option<SyncError>))
        ensures
            agent_targets_view(r.0@) == sync_targets(sightings(hosts@)).0,
            match r.1 {
                Some(SyncError::NoAddress { hostname }) => sync_targets(sightings(hosts@)).1 == Some(hostname@),
                None => sync_targets(sightings(hosts@)).1 is None,
            },
    {
        let ghost hs = sightings(hosts@);
        let mut out: Vec<AgentTarget> = Vec::new();
        let mut i: usize = 0;
        while i < hosts.len()
            invariant
                i <= hosts@.len(),
                hs == sightings(hosts@),
                sync_targets(hs.take(i as int)) == (agent_targets_view(out@), None::<Seq<char>>),
            decreases hosts@.len() - i,
        {
            let h = &hosts[i];
            proof {
                assert(hs.take(i + 1).drop_last() =~= hs.take(i as int));
                assert(hs.take(i + 1).last() == h@);
            }
            if h.reachable {
                match h.address() {
                    Some(a) => {
                        let t = AgentTarget { address: to_string(a.as_str()), port: h.agent_port };
                        let ghost before = out@;
                        out.push(t);
                        assert(agent_targets_view(out@) =~= agent_targets_view(before).push((t.address@, t.port)));
                    },
                    None => {
                        proof {
                            lemma_sync_stops(hs, i as int);
                        }
                        return (out, Some(SyncError::NoAddress { hostname: to_string(h.hostname.as_str()) }));
                    },
                }
            }
            i = i + 1;
        }
        assert(hs.take(hosts@.len() as int) =~= hs);
        (out, None)
    }

    /// A stored host configuration completed with what the agent reported.
    pub fn merge_reported(&self, config: &HostConfig, info: &HostInfo) -> (r: HostConfig)
        ensures
            r@ == completed_config(config@, opt_view(info.local_ip), opt_view(info.tailscale_hostname)),
    {
        let mut c = config.copy();
        if info.local_ip.is_some() && c.ip.is_none() {
            c.ip = copy_opt(&info.local_ip);
        }
        if info.tailscale_hostname.is_some() && c.tailscale.is_none() {
            c.tailscale = copy_opt(&info.tailscale_hostname);
        }
        c
    }
}

/// Once a sync stops at a host, hosts after it change nothing.
proof fn lemma_sync_stops(hs: Seq<HostSighting>, i: int)
    requires
        0 <= i < hs.len(),
        sync_targets(hs.take(i)).1 is None,
        hs[i].reachable,
        address_of(hs[i]) is None,
    ensures
        sync_targets(hs) == (sync_targets(hs.take(i)).0, Some(hs[i].hostname)),
    decreases hs.len() - i,
{
    if i + 1 == hs.len() {
        assert(hs.drop_last() =~= hs.take(i));
    } else {
        assert(hs.drop_last().take(i) =~= hs.take(i));
        lemma_sync_stops(hs.drop_last(), i);
    }
}

/// What to do with a setting received from another agent, given the local
/// lookup: update it when it is missing or different; leave it when the
/// lookup failed.
pub fn setting_needs_update(lookup: Result<Option<&str>, ()>, value: &str) -> (r: bool)
    ensures
        r == (match lookup {
            Ok(Some(existing)) => existing@ != value@,
            Ok(None) => true,
            Err(_) => false,
        }),
{
    match lookup {
        Ok(Some(existing)) => !crate::text::str_eq(existing, value),
        Ok(None) => true,
        Err(_) => false,
    }
}

/// Whether a discovered host takes part in the sync of encrypted data: it
/// answers and is not this machine.
pub fn joins_data_sync(sync: &ConfigSync, host: &DiscoveredHost) -> (r: bool)
    ensures
        r == (host.reachable && host.hostname@ != sync.local_hostname@),
{
    host.reachable && !crate::text::str_eq(host.hostname.as_str(), sync.local_hostname.as_str())
}

/// The command-line arguments that start the agent in the background.
pub fn daemon_args(port: u16) -> (r: Vec<String>)
    ensures
        views(r@) == seq!["agent"@, "start"@, "--port"@, crate::text::decimal(port as nat)],
{
    let mut v: Vec<String> = Vec::new();
    v.push(to_string("agent"));
    v.push(to_string("start"));
    v.push(to_string("--port"));
    v.push(crate::text::decimal_string(port as u64));
    assert(views(v@) =~= seq!["agent"@, "start"@, "--port"@, crate::text::decimal(port as nat)]);
    v
}

/// A client that discovers and talks to agents.
#[derive(Debug)]
pub struct HalvorClient {
    discovery: HostDiscovery,
}

impl HalvorClient {
    /// A client looking for agents on `agent_port`, by default 13001.
    pub fn new(agent_port: Option<u16>) -> (r: HalvorClient)
        ensures
            r.agent_port() == (match agent_port {
                Some(p) => p,
                None => DEFAULT_AGENT_PORT,
            }),
    {
        let discovery = match agent_port {
            Some(p) => HostDiscovery::new(p),
            None => HostDiscovery::default(),
        };
        HalvorClient { discovery }
    }

    /// The port agents are looked for on.
    pub closed spec fn agent_port(&self) -> u16 {
        self.discovery.agent_port()
    }

    /// The port agents are looked for on.
    pub fn port(&self) -> (r: u16)
        ensures
            r == self.agent_port(),
    {
        self.discovery.port()
    }

    /// All agents found (see `HostDiscovery::discover_all`).
    pub fn discover_agents(&self, tailscale_hosts: &Vec<DiscoveredHost>, local_hosts: &Vec<DiscoveredHost>) -> (r: Vec<DiscoveredHost>)
        ensures
            deduplicated(sightings(tailscale_hosts@) + sightings(local_hosts@), sightings(r@)),
    {
        self.discovery.discover_all(tailscale_hosts, local_hosts)
    }

    /// The agents among the tailnet's devices (see
    /// `HostDiscovery::discover_via_tailscale`).
    pub fn discover_via_tailscale(&self, devices: &Vec<TailscaleDevice>, reachable: &Vec<bool>) -> (r: Vec<DiscoveredHost>)
        requires
            reachable@.len() == devices@.len(),
        ensures
            sightings(r@) == tailscale_found(devices_view(devices@), reachable@, self.agent_port()),
    {
        self.discovery.discover_via_tailscale(devices, reachable)
    }

    /// The agents on the local network (see
    /// `HostDiscovery::discover_via_local_network`).
    pub fn discover_via_local_network(&self, local_ips: &Vec<String>, reachable: &Vec<bool>) -> (r: Vec<DiscoveredHost>)
        requires
            reachable@.len() == scan_targets(views(local_ips@)).len(),
        ensures
            sightings(r@) == network_found(scan_targets(views(local_ips@)), reachable@, self.agent_port()),
    {
        self.discovery.discover_via_local_network(local_ips, reachable)
    }
}

} // verus!
