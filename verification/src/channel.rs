//! Channel subscriptions. Nodes MUST NOT store every public channel by default.

use vstd::prelude::*;

verus! {

#[derive(Debug, Clone, Copy, PartialEq, Eq, Structural)]
pub enum ChannelFilter {
    Subscribe,
    Ignore,
    RelayOnly,
    MetadataOnly,
}

#[derive(Debug, Clone, Copy, PartialEq, Eq, Structural)]
pub enum ChannelPolicy {
    Public,
    SignedPublic,
    Private,
    GroupEncrypted,
}

#[derive(Debug, Clone)]
pub struct ChannelSub {
    pub name: String,
    pub filter: ChannelFilter,
    pub policy: ChannelPolicy,
}

} // verus!
