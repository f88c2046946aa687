//! Portainer editions and the provisioning plan that depends on them.
use vstd::prelude::*;
use crate::text::{lowercase, str_eq, to_lowercase};

verus! {

/// Portainer edition selected for an installation.
#[derive(PartialEq, Eq, Structural, Clone, Copy, Debug)]
pub enum PortainerEdition {
    Ce,
    Be,
}

/// The edition a lower-cased edition name selects.
pub open spec fn edition_named(lowered: Seq<char>) -> Option<PortainerEdition> {
    if lowered == "ce"@ {
        Some(PortainerEdition::Ce)
    } else if lowered == "be"@ || lowered == "business"@ || lowered == "business-edition"@ {
        Some(PortainerEdition::Be)
    } else {
        None
    }
}

/// An edition name that is neither `ce` nor `be` (nor a long form of `be`).
#[derive(Debug)]
pub struct InvalidEdition {
    pub name: String,
}

impl PortainerEdition {
    /// The edition for an already lower-cased name: `ce`, or `be`,
    /// `business`, `business-edition`.
    pub fn from_lowered(lowered: &str, s: &str) -> (r: Result<PortainerEdition, InvalidEdition>)
        ensures
            match r {
                Ok(e) => edition_named(lowered@) == Some(e),
                Err(err) => edition_named(lowered@) is None && err.name@ == s@,
            },
    {
        if str_eq(lowered, "ce") {
            Ok(PortainerEdition::Ce)
        } else if str_eq(lowered, "be") || str_eq(lowered, "business") || str_eq(lowered, "business-edition") {
            Ok(PortainerEdition::Be)
        } else {
            Err(InvalidEdition { name: s.to_string() })
        }
    }

    /// Parses an edition name, ignoring case.
    pub fn from_str(s: &str) -> (r: Result<PortainerEdition, InvalidEdition>)
        ensures
            match r {
                Ok(e) => edition_named(lowercase(s@)) == Some(e),
                Err(err) => edition_named(lowercase(s@)) is None && err.name@ == s@,
            },
    {
        let lowered = to_lowercase(s);
        PortainerEdition::from_lowered(lowered.as_str(), s)
    }

    /// Name of the compose file shipped for this edition.
    pub fn compose_file(&self) -> (r: &'static str)
        ensures
            r@ == (match self {
                PortainerEdition::Ce => "portainer.docker-compose.yml"@,
                PortainerEdition::Be => "portainer-be.docker-compose.yml"@,
            }),
    {
        match self {
            PortainerEdition::Ce => "portainer.docker-compose.yml",
            PortainerEdition::Be => "portainer-be.docker-compose.yml",
        }
    }

    /// Name of the edition for display.
    pub fn display_name(&self) -> (r: &'static str)
        ensures
            r@ == (match self {
                PortainerEdition::Ce => "Community Edition"@,
                PortainerEdition::Be => "Business Edition"@,
            }),
    {
        match self {
            PortainerEdition::Ce => "Community Edition",
            PortainerEdition::Be => "Business Edition",
        }
    }
}

/// Compose file of the Portainer agent.
pub open spec fn agent_compose_file() -> Seq<char> {
    "portainer-agent.docker-compose.yml"@
}

/// What provisioning a host installs.
#[derive(Debug)]
pub struct ProvisionPlan {
    /// Edition of the Portainer host, or `None` for the agent.
    pub portainer_host: Option<PortainerEdition>,
    /// Compose file copied to a remote host first; nothing for a local host.
    pub compose_file: Option<String>,
}

/// Decides what provisioning installs: the edition is read only when a
/// Portainer host (rather than an agent) is wanted; a remote host first gets
/// the compose file of what it will run.
pub fn provision_plan(portainer_host: bool, portainer_edition: &str, is_local: bool) -> (r: Result<ProvisionPlan, InvalidEdition>)
    ensures
        match r {
            Ok(p) => {
                &&& (portainer_host ==> (edition_named(lowercase(portainer_edition@)) matches Some(e)
                    && p.portainer_host == Some(e)))
                &&& (!portainer_host ==> p.portainer_host is None)
                &&& (is_local ==> p.compose_file is None)
                &&& (!is_local ==> (p.compose_file matches Some(f) && f@ == (match p.portainer_host {
                    Some(PortainerEdition::Ce) => "portainer.docker-compose.yml"@,
                    Some(PortainerEdition::Be) => "portainer-be.docker-compose.yml"@,
                    None => agent_compose_file(),
                })))
            },
            Err(err) => portainer_host && edition_named(lowercase(portainer_edition@)) is None
                && err.name@ == portainer_edition@,
        },
{
    let edition = if portainer_host {
        match PortainerEdition::from_str(portainer_edition) {
            Ok(e) => Some(e),
            Err(err) => return Err(err),
        }
    } else {
        None
    };
    let compose_file = if is_local {
        None
    } else {
        match edition {
            Some(e) => Some(e.compose_file().to_string()),
            None => Some("portainer-agent.docker-compose.yml".to_string()),
        }
    };
    Ok(ProvisionPlan { portainer_host: edition, compose_file })
}

} // verus!
