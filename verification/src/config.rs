//! Node configuration: its sections, their defaults, and the discovery modes.

use crate::envelope::RoutingPolicyKind;
use crate::mode::{NodeMode, NodeRole};
use crate::text::{chars_eq_str, chars_of, lower, lower_chars, owned, trim, trim_chars};
use vstd::prelude::*;

verus! {

pub struct Config {
    pub node: NodeSection,
    pub storage: StorageSection,
    pub routing: RoutingSection,
    pub discovery: DiscoverySection,
    pub transport: TransportSection,
    pub bootstrap: Vec<Bootstrap>,
}

pub struct NodeSection {
    pub mode: NodeMode,
    pub role: NodeRole,
}

pub struct StorageSection {
    pub maximum: String,
    pub reserved_local: String,
    pub relay_budget: String,
    pub temporary: String,
}

pub struct RoutingSection {
    pub strategy: String,
    pub replication_budget: u32,
}

pub struct DiscoverySection {
    pub lan: bool,
    pub lan_port: u16,
    /// public | contacts | space-members | invite-only | hidden
    pub mode: DiscoveryMode,
    /// Rotate LAN beacon identifiers daily. Handshake still uses the real PeerId.
    pub ephemeral_ids: bool,
}

#[derive(Debug, Clone, Copy, PartialEq, Eq, Structural)]
pub enum DiscoveryMode {
    Public,
    Contacts,
    SpaceMembers,
    InviteOnly,
    Hidden,
}

impl Default for DiscoveryMode {
    fn default() -> (m: Self)
        ensures
            m == DiscoveryMode::Public,
    {
        DiscoveryMode::Public
    }
}

/// The discovery mode a command-line word names (trimmed, any ASCII case; `_` or `-`).
pub open spec fn discovery_mode_of(s: Seq<char>) -> Option<DiscoveryMode> {
    let t = lower(trim(s));
    if t == "public"@ {
        Some(DiscoveryMode::Public)
    } else if t == "contacts"@ {
        Some(DiscoveryMode::Contacts)
    } else if t == "space-members"@ || t == "space_members"@ {
        Some(DiscoveryMode::SpaceMembers)
    } else if t == "invite-only"@ || t == "invite_only"@ {
        Some(DiscoveryMode::InviteOnly)
    } else if t == "hidden"@ {
        Some(DiscoveryMode::Hidden)
    } else {
        None
    }
}

impl DiscoveryMode {
    /// The node advertises itself on the LAN unless hidden.
    pub fn advertise_lan(self) -> (b: bool)
        ensures
            b == (self != DiscoveryMode::Hidden),
    {
        self != DiscoveryMode::Hidden
    }

    /// Reads a discovery mode from the command line.
    pub fn parse_cli(s: &str) -> (r: Option<Self>)
        ensures
            r == discovery_mode_of(s@),
    {
        let raw = chars_of(s);
        let trimmed = trim_chars(&raw);
        let t = lower_chars(&trimmed);
        if chars_eq_str(&t, "public") {
            Some(DiscoveryMode::Public)
        } else if chars_eq_str(&t, "contacts") {
            Some(DiscoveryMode::Contacts)
        } else if chars_eq_str(&t, "space-members") || chars_eq_str(&t, "space_members") {
            Some(DiscoveryMode::SpaceMembers)
        } else if chars_eq_str(&t, "invite-only") || chars_eq_str(&t, "invite_only") {
            Some(DiscoveryMode::InviteOnly)
        } else if chars_eq_str(&t, "hidden") {
            Some(DiscoveryMode::Hidden)
        } else {
            None
        }
    }
}

pub struct TransportSection {
    pub quic: bool,
    pub listen: String,
}

pub struct Bootstrap {
    pub endpoint: String,
}

/// The routing strategy a configured name stands for; anything unknown is spray-and-wait.
pub open spec fn strategy_of(s: Seq<char>) -> RoutingPolicyKind {
    if s == "direct"@ {
        RoutingPolicyKind::Direct
    } else if s == "epidemic"@ {
        RoutingPolicyKind::Epidemic
    } else if s == "encounter"@ {
        RoutingPolicyKind::Encounter
    } else if s == "utility"@ {
        RoutingPolicyKind::Utility
    } else if s == "adaptive"@ {
        RoutingPolicyKind::Adaptive
    } else {
        RoutingPolicyKind::SprayAndWait
    }
}

impl Config {
    /// The configured routing strategy.
    pub fn strategy(&self) -> (k: RoutingPolicyKind)
        ensures
            k == strategy_of(self.routing.strategy@),
    {
        let s = chars_of(self.routing.strategy.as_str());
        if chars_eq_str(&s, "direct") {
            RoutingPolicyKind::Direct
        } else if chars_eq_str(&s, "epidemic") {
            RoutingPolicyKind::Epidemic
        } else if chars_eq_str(&s, "encounter") {
            RoutingPolicyKind::Encounter
        } else if chars_eq_str(&s, "utility") {
            RoutingPolicyKind::Utility
        } else if chars_eq_str(&s, "adaptive") {
            RoutingPolicyKind::Adaptive
        } else {
            RoutingPolicyKind::SprayAndWait
        }
    }
}

impl Default for Config {
    fn default() -> (c: Self)
        ensures
            c.node.mode == NodeMode::Balanced,
            c.node.role == NodeRole::Personal,
            c.storage.maximum@ == "20GB"@,
            c.storage.reserved_local@ == "5GB"@,
            c.storage.relay_budget@ == "10GB"@,
            c.storage.temporary@ == "5GB"@,
            c.routing.strategy@ == "adaptive"@,
            c.routing.replication_budget == 8,
            c.discovery.lan,
            c.discovery.lan_port == 7946,
            c.discovery.mode == DiscoveryMode::Public,
            !c.discovery.ephemeral_ids,
            c.transport.quic,
            c.transport.listen@ == "0.0.0.0:7947"@,
            c.bootstrap@.len() == 0,
    {
        Config {
            node: NodeSection { mode: NodeMode::Balanced, role: NodeRole::Personal },
            storage: StorageSection {
                maximum: owned("20GB"),
                reserved_local: owned("5GB"),
                relay_budget: owned("10GB"),
                temporary: owned("5GB"),
            },
            routing: RoutingSection { strategy: owned("adaptive"), replication_budget: 8 },
            discovery: DiscoverySection {
                lan: true,
                lan_port: 7946,
                mode: DiscoveryMode::Public,
                ephemeral_ids: false,
            },
            transport: TransportSection { quic: true, listen: owned("0.0.0.0:7947") },
            bootstrap: Vec::new(),
        }
    }
}

} // verus!
