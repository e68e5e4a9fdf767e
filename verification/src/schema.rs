//! The registry of capabilities: which adapter answers which name.

use vstd::prelude::*;
use crate::disk::Disk;
use crate::docker::Docker;
use crate::hostname::Hostname;
use crate::ip::{Address, Ip, Link, Route};
use crate::text::text_eq;

verus! {

/// The root of the registry.
#[derive(Clone, Copy, Debug, PartialEq, Eq)]
pub struct Query;

/// The adapter of one capability.
#[derive(Clone, Copy, Debug, PartialEq, Eq)]
pub enum Adapter {
    Hostname(Hostname),
    Disk(Disk),
    Docker(Docker),
    Route(Route),
    Address(Address),
    Link(Link),
}

/// The adapter that is registered under `name`; none where the registry
/// holds no such name.
pub open spec fn registered(name: Seq<char>) -> Option<Adapter> {
    if name == "hostname"@ {
        Some(Adapter::Hostname(Hostname))
    } else if name == "disk"@ {
        Some(Adapter::Disk(Disk))
    } else if name == "docker"@ {
        Some(Adapter::Docker(Docker))
    } else if name == "ip.route"@ {
        Some(Adapter::Route(Route))
    } else if name == "ip.address"@ {
        Some(Adapter::Address(Address))
    } else if name == "ip.link"@ {
        Some(Adapter::Link(Link))
    } else {
        None
    }
}

impl Query {
    /// The adapter of `hostname`.
    pub fn hostname(&self) -> Hostname {
        Hostname
    }

    /// The adapter of the `ip` capabilities.
    pub fn ip(&self) -> Ip {
        Ip
    }

    /// The adapter of `docker`.
    pub fn docker(&self) -> Docker {
        Docker
    }

    /// The adapter of `disk`.
    pub fn disk(&self) -> Disk {
        Disk
    }

    /// Looks `name` up in the registry.
    pub fn adapter(&self, name: &str) -> (adapter: Option<Adapter>)
        ensures
            adapter == registered(name@),
    {
        if text_eq(name, "hostname") {
            Some(Adapter::Hostname(self.hostname()))
        } else if text_eq(name, "disk") {
            Some(Adapter::Disk(self.disk()))
        } else if text_eq(name, "docker") {
            Some(Adapter::Docker(self.docker()))
        } else if text_eq(name, "ip.route") {
            Some(Adapter::Route(self.ip().route()))
        } else if text_eq(name, "ip.address") {
            Some(Adapter::Address(self.ip().address()))
        } else if text_eq(name, "ip.link") {
            Some(Adapter::Link(self.ip().link()))
        } else {
            None
        }
    }
}

} // verus!
