//! Discovery of halvor agents: the hosts found through Tailscale and on the
//! local network, merged into one list ordered and deduplicated by address.
//!
//! Probing a host is network I/O done by the caller; the functions here take
//! the outcome of each probe and decide what was discovered.
use vstd::prelude::*;
use crate::config::{opt_view, or_else, copy_opt};
use crate::text::{
    decimal, decimal_string, index_of, lemma_index_of, lemma_index_of_is, push_str, split_char,
    split_on, str_eq, to_string,
};

verus! {

/// An agent found on the network.
#[derive(Debug)]
pub struct DiscoveredHost {
    pub hostname: String,
    pub local_ip: Option<String>,
    pub tailscale_ip: Option<String>,
    pub tailscale_hostname: Option<String>,
    pub agent_port: u16,
    pub reachable: bool,
}

/// What a discovered host is, as plain values.
pub struct HostSighting {
    pub hostname: Seq<char>,
    pub local_ip: Option<Seq<char>>,
    pub tailscale_ip: Option<Seq<char>>,
    pub tailscale_hostname: Option<Seq<char>>,
    pub agent_port: u16,
    pub reachable: bool,
}

impl View for DiscoveredHost {
    type V = HostSighting;

    open spec fn view(&self) -> HostSighting {
        HostSighting {
            hostname: self.hostname@,
            local_ip: opt_view(self.local_ip),
            tailscale_ip: opt_view(self.tailscale_ip),
            tailscale_hostname: opt_view(self.tailscale_hostname),
            agent_port: self.agent_port,
            reachable: self.reachable,
        }
    }
}

/// The views of a list of discovered hosts.
pub open spec fn sightings(v: Seq<DiscoveredHost>) -> Seq<HostSighting> {
    v.map_values(|h: DiscoveredHost| h@)
}

/// The address a host is known by: its Tailscale address, else its local one.
pub open spec fn address_of(h: HostSighting) -> Option<Seq<char>> {
    or_else(h.tailscale_ip, h.local_ip)
}

/// The addresses of a list of hosts.
pub open spec fn addresses(s: Seq<HostSighting>) -> Seq<Option<Seq<char>>> {
    s.map_values(|h: HostSighting| address_of(h))
}

impl DiscoveredHost {
    /// A copy of this host.
    pub fn copy(&self) -> (r: DiscoveredHost)
        ensures
            r@ == self@,
    {
        DiscoveredHost {
            hostname: to_string(self.hostname.as_str()),
            local_ip: copy_opt(&self.local_ip),
            tailscale_ip: copy_opt(&self.tailscale_ip),
            tailscale_hostname: copy_opt(&self.tailscale_hostname),
            agent_port: self.agent_port,
            reachable: self.reachable,
        }
    }

    /// The address the host is known by, if any.
    pub fn address(&self) -> (r: Option<&String>)
        ensures
            match r {
                Some(a) => address_of(self@) == Some(a@),
                None => address_of(self@) is None,
            },
    {
        match &self.tailscale_ip {
            Some(a) => Some(a),
            None => match &self.local_ip {
                Some(a) => Some(a),
                None => None,
            },
        }
    }
}

// ---------------------------------------------------------------------------
// Ordering of addresses
// ---------------------------------------------------------------------------

/// Lexicographic order of texts by character, which is the byte order of
/// their UTF-8 encodings (the order of `String`).
pub open spec fn text_lt(x: Seq<char>, y: Seq<char>) -> bool
    decreases x.len(),
{
    if x.len() == 0 {
        y.len() > 0
    } else if y.len() == 0 {
        false
    } else if x[0] != y[0] {
        (x[0] as u32) < (y[0] as u32)
    } else {
        text_lt(x.drop_first(), y.drop_first())
    }
}

/// Order of optional addresses: none first, then by text.
pub open spec fn address_lt(a: Option<Seq<char>>, b: Option<Seq<char>>) -> bool {
    match (a, b) {
        (None, Some(_)) => true,
        (Some(x), Some(y)) => text_lt(x, y),
        _ => false,
    }
}

/// No text is below itself.
pub proof fn lemma_text_lt_irreflexive(x: Seq<char>)
    ensures
        !text_lt(x, x),
    decreases x.len(),
{
    if x.len() > 0 {
        lemma_text_lt_irreflexive(x.drop_first());
    }
}

/// The order of texts is transitive.
pub proof fn lemma_text_lt_transitive(x: Seq<char>, y: Seq<char>, z: Seq<char>)
    requires
        text_lt(x, y),
        text_lt(y, z),
    ensures
        text_lt(x, z),
    decreases x.len(),
{
    if x.len() > 0 && y.len() > 0 && z.len() > 0 && x[0] == y[0] && y[0] == z[0] {
        lemma_text_lt_transitive(x.drop_first(), y.drop_first(), z.drop_first());
    }
}

/// Two different texts are ordered one way or the other.
pub proof fn lemma_text_lt_total(x: Seq<char>, y: Seq<char>)
    requires
        x != y,
    ensures
        text_lt(x, y) || text_lt(y, x),
    decreases x.len(),
{
    if x.len() > 0 && y.len() > 0 && x[0] == y[0] {
        if x.drop_first() == y.drop_first() {
            assert(x =~= seq![x[0]] + x.drop_first());
            assert(y =~= seq![y[0]] + y.drop_first());
        }
        lemma_text_lt_total(x.drop_first(), y.drop_first());
    } else if x.len() > 0 && y.len() > 0 {
        vstd::utf8::char_u32_cast(x[0], x[0] as u32);
        vstd::utf8::char_u32_cast(y[0], y[0] as u32);
        assert((x[0] as u32) != (y[0] as u32));
    } else if x.len() == 0 && y.len() == 0 {
        assert(x =~= y);
    }
}

/// Address order is a strict total order.
pub proof fn lemma_address_order(a: Option<Seq<char>>, b: Option<Seq<char>>, c: Option<Seq<char>>)
    ensures
        !address_lt(a, a),
        address_lt(a, b) && address_lt(b, c) ==> address_lt(a, c),
        a != b ==> address_lt(a, b) || address_lt(b, a),
        address_lt(a, b) ==> !address_lt(b, a),
{
    if let Some(x) = a {
        lemma_text_lt_irreflexive(x);
        if let Some(y) = b {
            if x != y {
                lemma_text_lt_total(x, y);
            }
            if text_lt(x, y) && text_lt(y, x) {
                lemma_text_lt_transitive(x, y, x);
            }
            if let Some(z) = c {
                if text_lt(x, y) && text_lt(y, z) {
                    lemma_text_lt_transitive(x, y, z);
                }
            }
        }
    }
}

pub(crate) fn chars_lt(x: &Vec<char>, y: &Vec<char>) -> (r: bool)
    ensures
        r == text_lt(x@, y@),
{
    let mut i: usize = 0;
    assert(x@.skip(0) =~= x@);
    assert(y@.skip(0) =~= y@);
    while i < x.len() && i < y.len()
        invariant
            i <= x@.len(),
            i <= y@.len(),
            text_lt(x@, y@) == text_lt(x@.skip(i as int), y@.skip(i as int)),
        decreases x@.len() - i,
    {
        if x[i] != y[i] {
            assert(x@.skip(i as int)[0] == x@[i as int]);
            assert(y@.skip(i as int)[0] == y@[i as int]);
            return (x[i] as u32) < (y[i] as u32);
        }
        assert(x@.skip(i as int).drop_first() =~= x@.skip(i + 1));
        assert(y@.skip(i as int).drop_first() =~= y@.skip(i + 1));
        i = i + 1;
    }
    i < y.len()
}

/// Whether `a` comes before `b` in the order of texts.
pub fn str_lt(a: &str, b: &str) -> (r: bool)
    ensures
        r == text_lt(a@, b@),
{
    let x = crate::text::chars_of(a);
    let y = crate::text::chars_of(b);
    chars_lt(&x, &y)
}

fn address_lt_exec(a: Option<&String>, b: Option<&String>) -> (r: bool)
    ensures
        r == address_lt(
            match a {
                Some(s) => Some(s@),
                None => None,
            },
            match b {
                Some(s) => Some(s@),
                None => None,
            },
        ),
{
    match (a, b) {
        (None, Some(_)) => true,
        (Some(x), Some(y)) => {
            let xv = crate::text::chars_of(x.as_str());
            let yv = crate::text::chars_of(y.as_str());
            chars_lt(&xv, &yv)
        },
        _ => false,
    }
}

fn address_eq_exec(a: Option<&String>, b: Option<&String>) -> (r: bool)
    ensures
        r == (match a {
            Some(s) => Some(s@),
            None => None,
        } == match b {
            Some(s) => Some(s@),
            None => None,
        }),
{
    match (a, b) {
        (None, None) => true,
        (Some(x), Some(y)) => str_eq(x.as_str(), y.as_str()),
        _ => false,
    }
}

/// The hosts ordered by address, keeping only the first host of each address.
pub open spec fn deduplicated(hosts: Seq<HostSighting>, out: Seq<HostSighting>) -> bool {
    &&& forall|a: int, b: int|
        0 <= a < b < out.len() ==> address_lt(#[trigger] address_of(out[a]), #[trigger] address_of(out[b]))
    &&& forall|a: int|
        0 <= a < out.len() ==> {
            let i = index_of(addresses(hosts), address_of(#[trigger] out[a]));
            0 <= i && out[a] == hosts[i]
        }
    &&& forall|c: int| 0 <= c < hosts.len() ==> addresses(out).contains(address_of(#[trigger] hosts[c]))
}

proof fn lemma_index_of_push<A>(s: Seq<A>, x: A, c: A)
    ensures
        index_of(s, c) >= 0 ==> index_of(s.push(x), c) == index_of(s, c),
        index_of(s, c) < 0 && x == c ==> index_of(s.push(x), c) == s.len(),
{
    lemma_index_of(s, c);
    let t = s.push(x);
    if index_of(s, c) >= 0 {
        lemma_index_of_is(t, c, index_of(s, c));
    } else if x == c {
        lemma_index_of_is(t, c, s.len() as int);
    }
}

/// Orders hosts by address and keeps the first host of each address, as
/// sorting by address and removing consecutive duplicates does.
pub fn dedup_by_address(hosts: &Vec<DiscoveredHost>) -> (r: Vec<DiscoveredHost>)
    ensures
        deduplicated(sightings(hosts@), sightings(r@)),
{
    let ghost hs = sightings(hosts@);
    let mut out: Vec<DiscoveredHost> = Vec::new();
    let mut i: usize = 0;
    while i < hosts.len()
        invariant
            i <= hosts@.len(),
            hs == sightings(hosts@),
            deduplicated(hs.take(i as int), sightings(out@)),
        decreases hosts@.len() - i,
    {
        let h = &hosts[i];
        let k = h.address();
        let ghost kv = address_of(h@);
        let ghost os = sightings(out@);
        // First position whose address is not below `k`.
        let mut p: usize = 0;
        while p < out.len() && address_lt_exec(out[p].address(), k)
            invariant
                p <= out@.len(),
                os == sightings(out@),
                match k {
                    Some(a) => kv == Some(a@),
                    None => kv is None,
                },
                forall|a: int| 0 <= a < p ==> address_lt(address_of(#[trigger] os[a]), kv),
            decreases out@.len() - p,
        {
            assert(os[p as int] == out@[p as int]@);
            p = p + 1;
        }
        proof {
            if p < out@.len() {
                assert(os[p as int] == out@[p as int]@);
            }
        }
        let ghost pre = hs.take(i as int);
        let ghost post = hs.take(i + 1);
        proof {
            assert(post =~= pre.push(hs[i as int]));
            assert(hs[i as int] == h@);
            assert(addresses(post) =~= addresses(pre).push(kv));
        }
        if p < out.len() && address_eq_exec(out[p].address(), k) {
            proof {
                assert(address_of(os[p as int]) == kv);
                assert forall|a: int| 0 <= a < os.len() implies {
                    let j = index_of(addresses(post), address_of(#[trigger] os[a]));
                    0 <= j && os[a] == post[j]
                } by {
                    let ka = address_of(os[a]);
                    let j0 = index_of(addresses(pre), ka);
                    assert(0 <= j0 && os[a] == pre[j0]);
                    lemma_index_of(addresses(pre), ka);
                    lemma_index_of_push(addresses(pre), kv, ka);
                    assert(post[j0] == pre[j0]);
                }
                assert forall|c: int| 0 <= c < post.len() implies addresses(os).contains(
                    address_of(#[trigger] post[c]),
                ) by {
                    if c == i {
                        assert(addresses(os)[p as int] == kv);
                    } else {
                        assert(post[c] == pre[c]);
                    }
                }
            }
        } else {
            proof {
                // No host kept so far has address `k`.
                assert forall|a: int| 0 <= a < os.len() implies address_of(#[trigger] os[a]) != kv by {
                    if a < p {
                        lemma_address_order(address_of(os[a]), kv, kv);
                    } else if a == p {
                    } else {
                        lemma_address_order(address_of(os[p as int]), kv, address_of(os[a]));
                        lemma_address_order(kv, address_of(os[p as int]), address_of(os[a]));
                    }
                }
                assert(!addresses(pre).contains(kv)) by {
                    if addresses(pre).contains(kv) {
                        let c = choose|c: int| 0 <= c < addresses(pre).len() && addresses(pre)[c] == kv;
                        assert(address_of(pre[c]) == kv);
                        let a = choose|a: int| 0 <= a < addresses(os).len() && addresses(os)[a] == address_of(
                            pre[c],
                        );
                        assert(address_of(os[a]) == kv);
                    }
                }
                lemma_index_of(addresses(pre), kv);
                if index_of(addresses(pre), kv) >= 0 {
                    assert(addresses(pre)[index_of(addresses(pre), kv)] == kv);
                }
                lemma_index_of_push(addresses(pre), kv, kv);
            }
            let c = h.copy();
            out.insert(p, c);
            proof {
                let ns = sightings(out@);
                assert(ns =~= os.insert(p as int, h@));
                if p < os.len() {
                    lemma_address_order(address_of(os[p as int]), kv, kv);
                }
                assert forall|a: int, b: int| 0 <= a < b < ns.len() implies address_lt(
                    #[trigger] address_of(ns[a]),
                    #[trigger] address_of(ns[b]),
                ) by {
                    if b < p {
                        assert(ns[a] == os[a] && ns[b] == os[b]);
                    } else if b == p {
                        assert(ns[a] == os[a]);
                    } else if a < p {
                        assert(ns[a] == os[a] && ns[b] == os[b - 1]);
                        if b - 1 > p {
                            assert(address_lt(address_of(os[p as int]), address_of(os[b - 1])));
                        }
                        lemma_address_order(address_of(os[a]), kv, address_of(os[p as int]));
                        lemma_address_order(kv, address_of(os[p as int]), address_of(os[b - 1]));
                        lemma_address_order(address_of(os[a]), kv, address_of(os[b - 1]));
                    } else if a == p {
                        assert(ns[b] == os[b - 1]);
                        if b - 1 > p {
                            assert(address_lt(address_of(os[p as int]), address_of(os[b - 1])));
                            lemma_address_order(kv, address_of(os[p as int]), address_of(os[b - 1]));
                        }
                    } else {
                        assert(ns[a] == os[a - 1] && ns[b] == os[b - 1]);
                    }
                }
                assert forall|a: int| 0 <= a < ns.len() implies {
                    let j = index_of(addresses(post), address_of(#[trigger] ns[a]));
                    0 <= j && ns[a] == post[j]
                } by {
                    if a == p {
                        assert(post[i as int] == h@);
                    } else {
                        let o = if a < p { a } else { a - 1 };
                        assert(ns[a] == os[o]);
                        let ka = address_of(os[o]);
                        let j0 = index_of(addresses(pre), ka);
                        assert(0 <= j0 && os[o] == pre[j0]);
                        lemma_index_of(addresses(pre), ka);
                        lemma_index_of_push(addresses(pre), kv, ka);
                        assert(post[j0] == pre[j0]);
                    }
                }
                assert forall|cc: int| 0 <= cc < post.len() implies addresses(ns).contains(
                    address_of(#[trigger] post[cc]),
                ) by {
                    if cc == i {
                        assert(addresses(ns)[p as int] == kv);
                    } else {
                        assert(post[cc] == pre[cc]);
                        assert(addresses(os).contains(address_of(pre[cc])));
                        let a = choose|a: int| 0 <= a < addresses(os).len() && addresses(os)[a] == address_of(
                            pre[cc],
                        );
                        if a < p {
                            assert(addresses(ns)[a] == addresses(os)[a]);
                        } else {
                            assert(addresses(ns)[a + 1] == addresses(os)[a]);
                        }
                    }
                }
            }
        }
        i = i + 1;
    }
    assert(hs.take(hosts@.len() as int) =~= hs);
    out
}


// ---------------------------------------------------------------------------
// Discovery
// ---------------------------------------------------------------------------

/// The agent port used when none is given.
pub const DEFAULT_AGENT_PORT: u16 = 13001;

/// Finds halvor agents listening on a port.
#[derive(Debug)]
pub struct HostDiscovery {
    agent_port: u16,
}

/// A device of the tailnet, as `tailscale status` lists it.
#[derive(Debug)]
pub struct TailscaleDevice {
    pub name: String,
    pub ip: Option<String>,
}

/// The devices as plain values.
pub open spec fn devices_view(v: Seq<TailscaleDevice>) -> Seq<(Seq<char>, Option<Seq<char>>)> {
    v.map_values(|d: TailscaleDevice| (d.name@, opt_view(d.ip)))
}

/// The agents found among tailnet devices: each device with an address whose
/// probe (`reachable`, one entry per device) succeeded, in device order.
pub open spec fn tailscale_found(
    devices: Seq<(Seq<char>, Option<Seq<char>>)>,
    reachable: Seq<bool>,
    port: u16,
) -> Seq<HostSighting>
    decreases devices.len(),
{
    if devices.len() == 0 {
        seq![]
    } else {
        let rest = tailscale_found(devices.drop_last(), reachable, port);
        let d = devices.last();
        match d.1 {
            Some(ip) => if reachable[devices.len() - 1] {
                rest.push(
                    HostSighting {
                        hostname: d.0,
                        local_ip: None,
                        tailscale_ip: Some(ip),
                        tailscale_hostname: Some(d.0),
                        agent_port: port,
                        reachable: true,
                    },
                )
            } else {
                rest
            },
            None => rest,
        }
    }
}

/// One address to probe on the local network, with its host number.
#[derive(Debug)]
pub struct ScanTarget {
    pub address: String,
    pub number: u8,
}

/// The targets as plain values.
pub open spec fn targets_view(v: Seq<ScanTarget>) -> Seq<(Seq<char>, nat)> {
    v.map_values(|t: ScanTarget| (t.address@, t.number as nat))
}

/// The /24 network of a dotted IPv4 address: its first three octets,
/// `a.b.c` for `a.b.c.d`. An address with another number of dotted fields
/// has none.
pub open spec fn network_prefix(ip: Seq<char>) -> Option<Seq<char>> {
    let parts = split_char(ip, '.');
    if parts.len() == 4 {
        Some(parts[0] + "."@ + parts[1] + "."@ + parts[2])
    } else {
        None
    }
}

/// `<prefix>.<n>`.
pub open spec fn probe_address(prefix: Seq<char>, n: nat) -> Seq<char> {
    prefix + "."@ + decimal(n)
}

/// The addresses probed for one local address: none for a loopback address
/// or one that is not a dotted IPv4 address, else host numbers 1 to 254 of
/// its /24 network.
pub open spec fn ip_targets(ip: Seq<char>) -> Seq<(Seq<char>, nat)> {
    if ip == "127.0.0.1"@ || ip == "::1"@ {
        seq![]
    } else {
        match network_prefix(ip) {
            Some(p) => Seq::new(254, |k: int| (probe_address(p, (k + 1) as nat), (k + 1) as nat)),
            None => seq![],
        }
    }
}

/// The addresses probed for all local addresses, in order.
pub open spec fn scan_targets(ips: Seq<Seq<char>>) -> Seq<(Seq<char>, nat)>
    decreases ips.len(),
{
    if ips.len() == 0 {
        seq![]
    } else {
        scan_targets(ips.drop_last()) + ip_targets(ips.last())
    }
}

/// The agents found on the local network: each probed address whose probe
/// (`reachable`, one entry per target) succeeded, named `host-<n>`.
pub open spec fn network_found(targets: Seq<(Seq<char>, nat)>, reachable: Seq<bool>, port: u16) -> Seq<HostSighting>
    decreases targets.len(),
{
    if targets.len() == 0 {
        seq![]
    } else {
        let rest = network_found(targets.drop_last(), reachable, port);
        let t = targets.last();
        if reachable[targets.len() - 1] {
            rest.push(
                HostSighting {
                    hostname: "host-"@ + decimal(t.1),
                    local_ip: Some(t.0),
                    tailscale_ip: None,
                    tailscale_hostname: None,
                    agent_port: port,
                    reachable: true,
                },
            )
        } else {
            rest
        }
    }
}

/// Every agent found on the tailnet is a device whose probe succeeded: it
/// is named after the device, known by its Tailscale address and name only,
/// and marked reachable on the agent port; there are at most as many as
/// devices.
pub proof fn tailscale_found_shape(
    devices: Seq<(Seq<char>, Option<Seq<char>>)>,
    reachable: Seq<bool>,
    port: u16,
)
    ensures
        tailscale_found(devices, reachable, port).len() <= devices.len(),
        forall|k: int| 0 <= k < tailscale_found(devices, reachable, port).len() ==> {
            let h = #[trigger] tailscale_found(devices, reachable, port)[k];
            &&& h.local_ip is None
            &&& h.tailscale_ip is Some
            &&& h.tailscale_hostname == Some(h.hostname)
            &&& h.reachable
            &&& h.agent_port == port
            &&& exists|j: int| 0 <= j < devices.len() && reachable[j] && #[trigger] devices[j] == (
                h.hostname,
                h.tailscale_ip,
            )
        },
    decreases devices.len(),
{
    if devices.len() > 0 {
        let prev = devices.drop_last();
        tailscale_found_shape(prev, reachable, port);
        let rest = tailscale_found(prev, reachable, port);
        let f = tailscale_found(devices, reachable, port);
        assert forall|k: int| 0 <= k < f.len() implies {
            let h = #[trigger] f[k];
            &&& h.local_ip is None
            &&& h.tailscale_ip is Some
            &&& h.tailscale_hostname == Some(h.hostname)
            &&& h.reachable
            &&& h.agent_port == port
            &&& exists|j: int| 0 <= j < devices.len() && reachable[j] && #[trigger] devices[j] == (
                h.hostname,
                h.tailscale_ip,
            )
        } by {
            if k < rest.len() {
                assert(f[k] == rest[k]);
                let h = rest[k];
                let j = choose|j: int| 0 <= j < prev.len() && reachable[j] && #[trigger] prev[j] == (
                    h.hostname,
                    h.tailscale_ip,
                );
                assert(devices[j] == prev[j]);
            } else {
                let j = devices.len() - 1;
                assert(devices[j] == devices.last());
            }
        }
    }
}

/// Every agent found on the local network is a probed address whose probe
/// succeeded: it is named `host-<n>` after its host number, known by that
/// local address only, and marked reachable on the agent port; there are at
/// most as many as targets.
pub proof fn network_found_shape(targets: Seq<(Seq<char>, nat)>, reachable: Seq<bool>, port: u16)
    ensures
        network_found(targets, reachable, port).len() <= targets.len(),
        forall|k: int| 0 <= k < network_found(targets, reachable, port).len() ==> {
            let h = #[trigger] network_found(targets, reachable, port)[k];
            &&& h.tailscale_ip is None
            &&& h.tailscale_hostname is None
            &&& h.reachable
            &&& h.agent_port == port
            &&& exists|j: int| 0 <= j < targets.len() && reachable[j] && h.local_ip == Some(
                (#[trigger] targets[j]).0,
            ) && h.hostname == "host-"@ + decimal(targets[j].1)
        },
    decreases targets.len(),
{
    if targets.len() > 0 {
        let prev = targets.drop_last();
        network_found_shape(prev, reachable, port);
        let rest = network_found(prev, reachable, port);
        let f = network_found(targets, reachable, port);
        assert forall|k: int| 0 <= k < f.len() implies {
            let h = #[trigger] f[k];
            &&& h.tailscale_ip is None
            &&& h.tailscale_hostname is None
            &&& h.reachable
            &&& h.agent_port == port
            &&& exists|j: int| 0 <= j < targets.len() && reachable[j] && h.local_ip == Some(
                (#[trigger] targets[j]).0,
            ) && h.hostname == "host-"@ + decimal(targets[j].1)
        } by {
            if k < rest.len() {
                assert(f[k] == rest[k]);
                let h = rest[k];
                let j = choose|j: int| 0 <= j < prev.len() && reachable[j] && h.local_ip == Some(
                    (#[trigger] prev[j]).0,
                ) && h.hostname == "host-"@ + decimal(prev[j].1);
                assert(targets[j] == prev[j]);
            } else {
                let j = targets.len() - 1;
                assert(targets[j] == targets.last());
            }
        }
    }
}

fn targets_of_ip(ip: &str, out: &mut Vec<ScanTarget>)
    ensures
        targets_view(final(out)@) == targets_view(old(out)@) + ip_targets(ip@),
{
    let ghost before = targets_view(out@);
    if str_eq(ip, "127.0.0.1") || str_eq(ip, "::1") {
        assert(targets_view(out@) =~= before + ip_targets(ip@));
        return;
    }
    let parts = split_on(ip, '.');
    if parts.len() != 4 {
        assert(targets_view(out@) =~= before + ip_targets(ip@));
        return;
    }
    let mut prefix = to_string(parts[0].as_str());
    push_str(&mut prefix, ".");
    push_str(&mut prefix, parts[1].as_str());
    push_str(&mut prefix, ".");
    push_str(&mut prefix, parts[2].as_str());
    let ghost sp = split_char(ip@, '.');
    let ghost p = sp[0] + "."@ + sp[1] + "."@ + sp[2];
    assert(prefix@ == p);
    let mut n: u8 = 1;
    while n < 255
        invariant
            1 <= n <= 255,
            prefix@ == p,
            network_prefix(ip@) == Some(p),
            ip@ != "127.0.0.1"@ && ip@ != "::1"@,
            targets_view(out@) == before + Seq::new(
                (n - 1) as nat,
                |k: int| (probe_address(p, (k + 1) as nat), (k + 1) as nat),
            ),
        decreases 255 - n,
    {
        let mut a = to_string(prefix.as_str());
        push_str(&mut a, ".");
        let d = decimal_string(n as u64);
        push_str(&mut a, d.as_str());
        let ghost mid = out@;
        out.push(ScanTarget { address: a, number: n });
        proof {
            assert(targets_view(out@) =~= targets_view(mid).push((probe_address(p, n as nat), n as nat)));
            assert(Seq::new(n as nat, |k: int| (probe_address(p, (k + 1) as nat), (k + 1) as nat)) =~= Seq::new(
                (n - 1) as nat,
                |k: int| (probe_address(p, (k + 1) as nat), (k + 1) as nat),
            ).push((probe_address(p, n as nat), n as nat)));
        }
        n = n + 1;
    }
    assert(ip_targets(ip@) == Seq::new(254, |k: int| (probe_address(p, (k + 1) as nat), (k + 1) as nat)));
}

/// The addresses to probe for the machine's local addresses.
pub fn local_scan_targets(local_ips: &Vec<String>) -> (r: Vec<ScanTarget>)
    ensures
        targets_view(r@) == scan_targets(crate::text::views(local_ips@)),
{
    let ghost ips = crate::text::views(local_ips@);
    let mut out: Vec<ScanTarget> = Vec::new();
    let mut i: usize = 0;
    while i < local_ips.len()
        invariant
            i <= local_ips@.len(),
            ips == crate::text::views(local_ips@),
            targets_view(out@) == scan_targets(ips.take(i as int)),
        decreases local_ips@.len() - i,
    {
        targets_of_ip(local_ips[i].as_str(), &mut out);
        proof {
            assert(ips.take(i + 1).drop_last() =~= ips.take(i as int));
            assert(ips.take(i + 1).last() == local_ips@[i as int]@);
        }
        i = i + 1;
    }
    assert(ips.take(local_ips@.len() as int) =~= ips);
    out
}

fn sighting_of_target(t: &ScanTarget, port: u16) -> (r: DiscoveredHost)
    ensures
        r@ == (HostSighting {
            hostname: "host-"@ + decimal(t.number as nat),
            local_ip: Some(t.address@),
            tailscale_ip: None,
            tailscale_hostname: None,
            agent_port: port,
            reachable: true,
        }),
{
    let mut name = to_string("host-");
    let d = decimal_string(t.number as u64);
    push_str(&mut name, d.as_str());
    DiscoveredHost {
        hostname: name,
        local_ip: Some(to_string(t.address.as_str())),
        tailscale_ip: None,
        tailscale_hostname: None,
        agent_port: port,
        reachable: true,
    }
}

impl HostDiscovery {
    /// Discovery of agents on `agent_port`.
    pub fn new(agent_port: u16) -> (r: HostDiscovery)
        ensures
            r.agent_port() == agent_port,
    {
        HostDiscovery { agent_port }
    }

    /// Discovery of agents on the default port, 13001.
    pub fn default() -> (r: HostDiscovery)
        ensures
            r.agent_port() == DEFAULT_AGENT_PORT,
    {
        HostDiscovery { agent_port: DEFAULT_AGENT_PORT }
    }

    /// The port agents are looked for on.
    pub closed spec fn agent_port(&self) -> u16 {
        self.agent_port
    }

    /// The port agents are looked for on.
    pub fn port(&self) -> (r: u16)
        ensures
            r == self.agent_port(),
    {
        self.agent_port
    }

    /// The agents among the tailnet's devices, given whether the agent of each
    /// device answered (`reachable`, one entry per device; devices without an
    /// address are not probed).
    pub fn discover_via_tailscale(&self, devices: &Vec<TailscaleDevice>, reachable: &Vec<bool>) -> (r: Vec<DiscoveredHost>)
        requires
            reachable@.len() == devices@.len(),
        ensures
            sightings(r@) == tailscale_found(devices_view(devices@), reachable@, self.agent_port()),
            r@.len() <= devices@.len(),
            forall|k: int| 0 <= k < r@.len() ==> {
                let h = #[trigger] sightings(r@)[k];
                &&& h.reachable
                &&& h.local_ip is None
                &&& h.tailscale_ip is Some
                &&& h.tailscale_hostname == Some(h.hostname)
                &&& h.agent_port == self.agent_port()
                &&& exists|j: int| 0 <= j < devices@.len() && reachable@[j] && #[trigger] devices_view(devices@)[j] == (
                    h.hostname,
                    h.tailscale_ip,
                )
            },
    {
        let ghost dv = devices_view(devices@);
        let mut out: Vec<DiscoveredHost> = Vec::new();
        let mut i: usize = 0;
        while i < devices.len()
            invariant
                i <= devices@.len(),
                reachable@.len() == devices@.len(),
                dv == devices_view(devices@),
                sightings(out@) == tailscale_found(dv.take(i as int), reachable@, self.agent_port()),
            decreases devices@.len() - i,
        {
            let d = &devices[i];
            proof {
                assert(dv.take(i + 1).drop_last() =~= dv.take(i as int));
                assert(dv.take(i + 1).last() == dv[i as int]);
            }
            match &d.ip {
                Some(ip) => {
                    if reachable[i] {
                        let h = DiscoveredHost {
                            hostname: to_string(d.name.as_str()),
                            local_ip: None,
                            tailscale_ip: Some(to_string(ip.as_str())),
                            tailscale_hostname: Some(to_string(d.name.as_str())),
                            agent_port: self.agent_port,
                            reachable: true,
                        };
                        let ghost before = out@;
                        out.push(h);
                        assert(sightings(out@) =~= sightings(before).push(h@));
                    }
                },
                None => {},
            }
            i = i + 1;
        }
        assert(dv.take(devices@.len() as int) =~= dv);
        proof {
            tailscale_found_shape(dv, reachable@, self.agent_port());
        }
        out
    }

    /// The agents on the local network, given whether each address of
    /// `local_scan_targets(local_ips)` answered (`reachable`, one entry per
    /// target).
    pub fn discover_via_local_network(&self, local_ips: &Vec<String>, reachable: &Vec<bool>) -> (r: Vec<DiscoveredHost>)
        requires
            reachable@.len() == scan_targets(crate::text::views(local_ips@)).len(),
        ensures
            sightings(r@) == network_found(
                scan_targets(crate::text::views(local_ips@)),
                reachable@,
                self.agent_port(),
            ),
            forall|k: int| 0 <= k < r@.len() ==> {
                let h = #[trigger] sightings(r@)[k];
                &&& h.reachable
                &&& h.tailscale_ip is None
                &&& h.tailscale_hostname is None
                &&& h.local_ip is Some
                &&& h.agent_port == self.agent_port()
            },
    {
        let targets = local_scan_targets(local_ips);
        let ghost tv = targets_view(targets@);
        let mut out: Vec<DiscoveredHost> = Vec::new();
        let mut i: usize = 0;
        while i < targets.len()
            invariant
                i <= targets@.len(),
                tv == targets_view(targets@),
                reachable@.len() == tv.len(),
                sightings(out@) == network_found(tv.take(i as int), reachable@, self.agent_port()),
            decreases targets@.len() - i,
        {
            proof {
                assert(tv.take(i + 1).drop_last() =~= tv.take(i as int));
                assert(tv.take(i + 1).last() == tv[i as int]);
            }
            if reachable[i] {
                let h = sighting_of_target(&targets[i], self.agent_port);
                let ghost before = out@;
                out.push(h);
                assert(sightings(out@) =~= sightings(before).push(h@));
            }
            i = i + 1;
        }
        assert(tv.take(targets@.len() as int) =~= tv);
        proof {
            network_found_shape(tv, reachable@, self.agent_port());
        }
        out
    }

    /// All agents found, Tailscale first then the local network, ordered by
    /// address with one host kept per address (the first found).
    pub fn discover_all(&self, tailscale_hosts: &Vec<DiscoveredHost>, local_hosts: &Vec<DiscoveredHost>) -> (r: Vec<DiscoveredHost>)
        ensures
            deduplicated(sightings(tailscale_hosts@) + sightings(local_hosts@), sightings(r@)),
    {
        let mut all: Vec<DiscoveredHost> = Vec::new();
        let mut i: usize = 0;
        while i < tailscale_hosts.len()
            invariant
                i <= tailscale_hosts@.len(),
                sightings(all@) == sightings(tailscale_hosts@).take(i as int),
            decreases tailscale_hosts@.len() - i,
        {
            let ghost before = all@;
            let c = tailscale_hosts[i].copy();
            all.push(c);
            assert(all@ == before.push(c));
            assert(sightings(all@) =~= sightings(before).push(c@));
            assert(sightings(all@) =~= sightings(tailscale_hosts@).take(i + 1));
            i = i + 1;
        }
        let mut j: usize = 0;
        while j < local_hosts.len()
            invariant
                j <= local_hosts@.len(),
                sightings(all@) == sightings(tailscale_hosts@) + sightings(local_hosts@).take(j as int),
            decreases local_hosts@.len() - j,
        {
            let ghost before = all@;
            let c = local_hosts[j].copy();
            all.push(c);
            assert(all@ == before.push(c));
            assert(sightings(all@) =~= sightings(before).push(c@));
            assert(sightings(all@) =~= sightings(tailscale_hosts@) + sightings(local_hosts@).take(j + 1));
            j = j + 1;
        }
        assert(sightings(tailscale_hosts@).take(tailscale_hosts@.len() as int) =~= sightings(tailscale_hosts@));
        assert(sightings(local_hosts@).take(local_hosts@.len() as int) =~= sightings(local_hosts@));
        dedup_by_address(&all)
    }
}

} // verus!
