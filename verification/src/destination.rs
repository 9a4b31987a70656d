//! Who a Drop is for.

use crate::ids::PeerId;
use vstd::prelude::*;

verus! {

#[derive(Debug, Clone)]
pub enum Destination {
    One { peer: PeerId },
    Many { peers: Vec<PeerId> },
    Group { id: String },
    Public,
}

/// `peer` is one the Drop is addressed to. Groups are resolved elsewhere.
pub open spec fn dest_includes(d: Destination, peer: PeerId) -> bool {
    match d {
        Destination::One { peer: p } => p == peer,
        Destination::Many { peers } => peers@.contains(peer),
        Destination::Group { .. } => false,
        Destination::Public => true,
    }
}

/// `peer` is in the list.
pub fn peers_contain(peers: &Vec<PeerId>, peer: &PeerId) -> (b: bool)
    ensures
        b == peers@.contains(*peer),
{
    let mut i: usize = 0;
    while i < peers.len()
        invariant
            i <= peers@.len(),
            forall|k: int| 0 <= k < i ==> peers@[k] != *peer,
        decreases peers@.len() - i,
    {
        if peers[i].same(peer) {
            assert(peers@[i as int] == *peer);
            return true;
        }
        i += 1;
    }
    false
}

impl Destination {
    pub fn includes(&self, peer: &PeerId) -> (b: bool)
        ensures
            b == dest_includes(*self, *peer),
    {
        match self {
            Self::One { peer: p } => p.same(peer),
            Self::Many { peers } => peers_contain(peers, peer),
            Self::Group { .. } => false,
            Self::Public => true,
        }
    }

    pub fn is_public(&self) -> (b: bool)
        ensures
            b == (*self is Public),
    {
        match self {
            Self::Public => true,
            _ => false,
        }
    }
}

} // verus!
