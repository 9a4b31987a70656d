//! How a node behaves (its mode) and what it is for (its role).

use crate::text::{chars_eq_str, chars_of};
use vstd::prelude::*;

verus! {

#[derive(Debug, Clone, Copy, PartialEq, Eq, Hash, Structural)]
pub enum NodeMode {
    Performance,
    Balanced,
    Battery,
    Offline,
    RelayOnly,
    Private,
}

impl Default for NodeMode {
    fn default() -> (m: Self)
        ensures
            m == NodeMode::Balanced,
    {
        NodeMode::Balanced
    }
}

impl NodeMode {
    /// Discovery runs in every mode but `Offline` and `Private`.
    pub fn discovery_enabled(self) -> (b: bool)
        ensures
            b == !(self == NodeMode::Offline || self == NodeMode::Private),
    {
        !(self == NodeMode::Offline || self == NodeMode::Private)
    }

    /// The node carries Drops for others unasked in `Performance`, `Balanced` and `RelayOnly`.
    pub fn unsolicited_relay(self) -> (b: bool)
        ensures
            b == (self == NodeMode::Performance || self == NodeMode::Balanced || self
                == NodeMode::RelayOnly),
    {
        self == NodeMode::Performance || self == NodeMode::Balanced || self == NodeMode::RelayOnly
    }

    /// Encounters are remembered in every mode but `Private` and `Offline`.
    pub fn retain_encounters(self) -> (b: bool)
        ensures
            b == !(self == NodeMode::Private || self == NodeMode::Offline),
    {
        !(self == NodeMode::Private || self == NodeMode::Offline)
    }
}

#[derive(Debug, Clone, Copy, PartialEq, Eq, Hash, Structural)]
pub enum NodeRole {
    Personal,
    Mobile,
    Relay,
    Gateway,
    Archive,
    Edge,
    Bridge,
}

impl Default for NodeRole {
    fn default() -> (r: Self)
        ensures
            r == NodeRole::Personal,
    {
        NodeRole::Personal
    }
}

/// The role a name stands for.
pub open spec fn role_of(s: Seq<char>) -> Option<NodeRole> {
    if s == "personal"@ {
        Some(NodeRole::Personal)
    } else if s == "mobile"@ {
        Some(NodeRole::Mobile)
    } else if s == "relay"@ {
        Some(NodeRole::Relay)
    } else if s == "gateway"@ {
        Some(NodeRole::Gateway)
    } else if s == "archive"@ {
        Some(NodeRole::Archive)
    } else if s == "edge"@ {
        Some(NodeRole::Edge)
    } else if s == "bridge"@ {
        Some(NodeRole::Bridge)
    } else {
        None
    }
}

impl NodeRole {
    /// The role named by `s`, if any.
    pub fn from_str_role(s: &str) -> (r: Option<Self>)
        ensures
            r == role_of(s@),
    {
        let cs = chars_of(s);
        if chars_eq_str(&cs, "personal") {
            Some(NodeRole::Personal)
        } else if chars_eq_str(&cs, "mobile") {
            Some(NodeRole::Mobile)
        } else if chars_eq_str(&cs, "relay") {
            Some(NodeRole::Relay)
        } else if chars_eq_str(&cs, "gateway") {
            Some(NodeRole::Gateway)
        } else if chars_eq_str(&cs, "archive") {
            Some(NodeRole::Archive)
        } else if chars_eq_str(&cs, "edge") {
            Some(NodeRole::Edge)
        } else if chars_eq_str(&cs, "bridge") {
            Some(NodeRole::Bridge)
        } else {
            None
        }
    }
}

} // verus!
