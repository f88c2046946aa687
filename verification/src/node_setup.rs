//! Choosing the host a command acts on, and the answers of the interactive
//! setup of this machine as a node: which address, which Tailscale name,
//! which entry of a numbered list.
use vstd::prelude::*;
use crate::config::{
    EnvConfig, HostConfig, HostModel, find_host, find_hostname_in_config, hosts_view, key_index,
    opt_view, resolved_hostname,
};
use crate::text::{
    has_prefix, lowercase, parse_usize, parse_usize_str, starts_with, str_eq, to_lowercase,
    to_string, to_uppercase, trim, trimmed, uppercase, views,
};

verus! {

/// A requested host that is not configured; `upper` is its name upper-cased,
/// as the variables to add are named.
#[derive(Debug)]
pub struct HostNotFound {
    pub host: String,
    pub upper: String,
}

/// The configured key for a host the user named: as
/// `find_hostname_in_config` resolves it, else an error naming the
/// variables to add.
pub fn resolve_requested_host(host: &str, config: &EnvConfig) -> (r: Result<String, HostNotFound>)
    ensures
        match r {
            Ok(k) => resolved_hostname(host@, config@.hosts) == Some(k@),
            Err(e) => resolved_hostname(host@, config@.hosts) is None && e.host@ == host@
                && e.upper@ == uppercase(host@),
        },
{
    match find_hostname_in_config(host, config) {
        Some(k) => Ok(k),
        None => Err(HostNotFound { host: to_string(host), upper: to_uppercase(host) }),
    }
}

/// Whether the detected name of this machine is configured as it is.
pub fn machine_configured(detected: &str, config: &EnvConfig) -> (r: bool)
    ensures
        r == (key_index(config@.hosts, detected@) >= 0),
{
    match find_host(&config.hosts, detected) {
        Some(_) => true,
        None => false,
    }
}

/// Whether an answer is yes: `y` or `yes`, ignoring case and surrounding
/// white space.
pub fn is_yes(answer: &str) -> (r: bool)
    ensures
        r == (lowercase(trimmed(answer@)) == "y"@ || lowercase(trimmed(answer@)) == "yes"@),
{
    let t = trim(answer);
    let l = to_lowercase(t.as_str());
    str_eq(l.as_str(), "y") || str_eq(l.as_str(), "yes")
}

/// The typed text, unless nothing but white space was typed.
pub fn optional_entry(input: &str) -> (r: Option<String>)
    ensures
        opt_view(r) == (if trimmed(input@).len() == 0 { None } else { Some(trimmed(input@)) }),
{
    let t = trim(input);
    if t.unicode_len() == 0 {
        None
    } else {
        Some(t)
    }
}

/// The node's name: the typed one, or the detected one when nothing was typed.
pub fn entered_hostname(input: &str, detected: &str) -> (r: String)
    ensures
        r@ == (if trimmed(input@).len() == 0 { detected@ } else { trimmed(input@) }),
{
    match optional_entry(input) {
        Some(t) => t,
        None => to_string(detected),
    }
}

/// An address that is neither loopback nor link-local.
pub open spec fn preferred_ip(ip: Seq<char>) -> bool {
    !(has_prefix(ip, "127."@) || has_prefix(ip, "169.254."@) || has_prefix(ip, "fe80:"@) || has_prefix(
        ip,
        "::1"@,
    ))
}

/// How the node's address is chosen from the machine's addresses.
#[derive(Debug)]
pub enum IpChoice {
    /// No address was found: ask for one.
    Ask,
    /// Exactly one candidate: take it.
    Use(String),
    /// Several candidates: let the user pick; `preferred` tells whether they
    /// are the preferred addresses or, lacking any, all of them.
    Pick { options: Vec<String>, preferred: bool },
}

fn preferred_ips(ips: &Vec<String>) -> (r: Vec<String>)
    ensures
        views(r@) == views(ips@).filter(|ip: Seq<char>| preferred_ip(ip)),
{
    let ghost iv = views(ips@);
    let mut out: Vec<String> = Vec::new();
    let mut i: usize = 0;
    while i < ips.len()
        invariant
            i <= ips@.len(),
            iv == views(ips@),
            views(out@) == iv.take(i as int).filter(|ip: Seq<char>| preferred_ip(ip)),
        decreases ips@.len() - i,
    {
        proof {
            assert(iv.take(i + 1).drop_last() =~= iv.take(i as int));
            assert(iv.take(i + 1).last() == ips@[i as int]@);
            reveal(Seq::filter);
        }
        let ip = ips[i].as_str();
        if !(starts_with(ip, "127.") || starts_with(ip, "169.254.") || starts_with(ip, "fe80:") || starts_with(
            ip,
            "::1",
        )) {
            let ghost before = out@;
            out.push(to_string(ip));
            assert(views(out@) =~= views(before).push(ips@[i as int]@));
        }
        i = i + 1;
    }
    assert(iv.take(ips@.len() as int) =~= iv);
    out
}

/// Chooses how to settle the node's address: ask when none was found, take
/// the only one, else take the only preferred one, else offer the preferred
/// ones, else offer all.
pub fn ip_choice(local_ips: &Vec<String>) -> (r: IpChoice)
    ensures
        ({
            let all = views(local_ips@);
            let pref = all.filter(|ip: Seq<char>| preferred_ip(ip));
            if all.len() == 0 {
                r is Ask
            } else if all.len() == 1 {
                r matches IpChoice::Use(ip) && ip@ == all[0]
            } else if pref.len() == 1 {
                r matches IpChoice::Use(ip) && ip@ == pref[0]
            } else if pref.len() > 1 {
                r matches IpChoice::Pick { options, preferred } && preferred && views(options@) == pref
            } else {
                r matches IpChoice::Pick { options, preferred } && !preferred && views(options@) == all
            }
        }),
{
    if local_ips.len() == 0 {
        return IpChoice::Ask;
    }
    if local_ips.len() == 1 {
        return IpChoice::Use(to_string(local_ips[0].as_str()));
    }
    let pref = preferred_ips(local_ips);
    if pref.len() == 1 {
        IpChoice::Use(to_string(pref[0].as_str()))
    } else if pref.len() > 1 {
        IpChoice::Pick { options: pref, preferred: true }
    } else {
        let mut all: Vec<String> = Vec::new();
        let mut i: usize = 0;
        while i < local_ips.len()
            invariant
                i <= local_ips@.len(),
                views(all@) == views(local_ips@).take(i as int),
            decreases local_ips@.len() - i,
        {
            let ghost before = all@;
            let c = to_string(local_ips[i].as_str());
            all.push(c);
            assert(all@ == before.push(c));
            assert(views(all@) =~= views(before).push(c@));
            assert(views(all@) =~= views(local_ips@).take(i + 1));
            i = i + 1;
        }
        assert(views(local_ips@).take(local_ips@.len() as int) =~= views(local_ips@));
        IpChoice::Pick { options: all, preferred: false }
    }
}

/// A selection from a numbered list that is not a listed number.
#[derive(Debug, PartialEq, Eq, Structural)]
pub enum SelectionError {
    Invalid,
}

/// The entry picked from a numbered list (numbered from 1): nothing typed
/// picks the first; a number outside the list, or anything else, is refused.
pub fn select_listed(input: &str, options: &Vec<String>) -> (r: Result<String, SelectionError>)
    requires
        options@.len() > 0,
    ensures
        ({
            let t = trimmed(input@);
            if t.len() == 0 {
                r matches Ok(s) && s@ == options@[0]@
            } else {
                match parse_usize(t) {
                    Some(n) => if 1 <= n <= options@.len() {
                        r matches Ok(s) && s@ == options@[n - 1]@
                    } else {
                        r == Err::<String, SelectionError>(SelectionError::Invalid)
                    },
                    None => r == Err::<String, SelectionError>(SelectionError::Invalid),
                }
            }
        }),
{
    let t = trim(input);
    if t.unicode_len() == 0 {
        return Ok(to_string(options[0].as_str()));
    }
    match parse_usize_str(t.as_str()) {
        Some(n) => if 1 <= n && n <= options.len() {
            Ok(to_string(options[n - 1].as_str()))
        } else {
            Err(SelectionError::Invalid)
        },
        None => Err(SelectionError::Invalid),
    }
}

/// The entry optionally picked from a numbered list: nothing typed, or a
/// number outside the list, picks none; anything but a number is refused.
pub fn select_optional(input: &str, options: &Vec<String>) -> (r: Result<Option<String>, SelectionError>)
    ensures
        ({
            let t = trimmed(input@);
            if t.len() == 0 {
                r matches Ok(None)
            } else {
                match parse_usize(t) {
                    Some(n) => if 1 <= n <= options@.len() {
                        r matches Ok(Some(s)) && s@ == options@[n - 1]@
                    } else {
                        r matches Ok(None)
                    },
                    None => r == Err::<Option<String>, SelectionError>(SelectionError::Invalid),
                }
            }
        }),
{
    let t = trim(input);
    if t.unicode_len() == 0 {
        return Ok(None);
    }
    match parse_usize_str(t.as_str()) {
        Some(n) => if 1 <= n && n <= options.len() {
            Ok(Some(to_string(options[n - 1].as_str())))
        } else {
            Ok(None)
        },
        None => Err(SelectionError::Invalid),
    }
}

/// The backup picked for a database restore (numbered from 1).  Nothing
/// typed picks the default shown at the prompt, the first (newest) backup;
/// a number outside the list, or anything that is not a number, is refused.
pub fn restore_selection(input: &str, count: usize) -> (r: Result<usize, SelectionError>)
    ensures
        ({
            let t = trimmed(input@);
            let n: Option<usize> = if t.len() == 0 { Some(1usize) } else { parse_usize(t) };
            match n {
                Some(i) => if 1 <= i <= count {
                    r == Ok::<usize, SelectionError>((i - 1) as usize)
                } else {
                    r == Err::<usize, SelectionError>(SelectionError::Invalid)
                },
                None => r == Err::<usize, SelectionError>(SelectionError::Invalid),
            }
        }),
{
    let t = trim(input);
    let n = if t.unicode_len() == 0 { Some(1usize) } else { parse_usize_str(t.as_str()) };
    match n {
        Some(i) => if 1 <= i && i <= count {
            Ok(i - 1)
        } else {
            Err(SelectionError::Invalid)
        },
        None => Err(SelectionError::Invalid),
    }
}

/// The configuration stored for a new node: its address (the Tailscale
/// address when one was chosen as primary), its name and Tailscale name,
/// no backup path.
pub fn node_config(hostname: &str, ip: &str, tailscale: Option<String>, tailscale_ip: Option<String>) -> (r: HostConfig)
    ensures
        r@ == (HostModel {
            ip: Some(
                match opt_view(tailscale_ip) {
                    Some(t) => t,
                    None => ip@,
                },
            ),
            hostname: Some(hostname@),
            tailscale: opt_view(tailscale),
            backup_path: None,
        }),
{
    let final_ip = match tailscale_ip {
        Some(t) => t,
        None => to_string(ip),
    };
    HostConfig { ip: Some(final_ip), hostname: Some(to_string(hostname)), tailscale, backup_path: None }
}

} // verus!
