//! Routing decisions: whether a Drop is handed to a peer met now, and why.
//!
//! The direct, epidemic and spray-and-wait strategies decide on plain facts; the adaptive
//! strategy picks one of them (or encounter-based scoring) from the local encounter history.

use crate::caps::RelayCapacity;
use crate::destination::{dest_includes, Destination};
use crate::envelope::DropEnvelope;
use crate::ids::PeerId;
use crate::mode::NodeMode;
use crate::trust::TrustState;
use vstd::prelude::*;

verus! {

/// Why a Drop is or is not forwarded.
#[derive(Debug, Clone, Copy, PartialEq, Eq, Structural)]
pub enum RouteReason {
    /// The node's mode carries nothing for others, and the peer is not a destination.
    PrivateMode,
    /// The peer relays nothing, and is not a destination.
    PeerRelayNone,
    /// Direct routing: whether the peer is a destination.
    DirectMatch,
    /// The peer may not receive the Drop at all (see `route_blocked`).
    Ineligible,
    /// Epidemic routing forwards to every eligible peer.
    Epidemic,
    /// The peer is a destination.
    Destination,
    /// Copies are left to spray.
    SprayBudget,
    /// One copy left and the peer is not a destination: wait.
    Wait,
    /// The Drop travels only through known or verified contacts, and the peer is neither.
    TrustedOnly,
}

/// A routing decision.
#[derive(Debug, Clone, Copy, PartialEq, Eq, Structural)]
pub struct Verdict {
    pub forward: bool,
    pub reason: RouteReason,
}

/// The mode carries Drops for others unasked.
pub open spec fn relays_unasked(mode: NodeMode) -> bool {
    mode == NodeMode::Performance || mode == NodeMode::Balanced || mode == NodeMode::RelayOnly
}

/// The peer may not receive the Drop: it is the source or this node, the Drop has expired
/// or has no hops left, or the peer is no destination while this node's mode relays nothing
/// unasked or the peer relays nothing.
pub open spec fn route_blocked(env: DropEnvelope, peer: PeerId, local: PeerId, now: u64, mode: NodeMode, relay: RelayCapacity) -> bool {
    ||| env.source == peer
    ||| now >= env.expiration
    ||| env.hop_limit <= env.hop_count
    ||| peer == local
    ||| (!relays_unasked(mode) && !dest_includes(env.destination, peer))
    ||| (relay == RelayCapacity::NoRelay && !dest_includes(env.destination, peer))
}

/// Whether the peer may not receive the Drop (see `route_blocked`).
pub fn blocked(env: &DropEnvelope, peer: PeerId, local: PeerId, now: u64, mode: NodeMode, peer_relay: RelayCapacity) -> (b: bool)
    ensures
        b == route_blocked(*env, peer, local, now, mode, peer_relay),
{
    if env.source.same(&peer) {
        return true;
    }
    if env.is_expired(now) {
        return true;
    }
    if env.remaining_hops() == 0 {
        return true;
    }
    if peer.same(&local) {
        return true;
    }
    let hit = env.destination.includes(&peer);
    if !mode.unsolicited_relay() && !hit {
        return true;
    }
    peer_relay == RelayCapacity::NoRelay && !hit
}

/// Direct routing: forward only to a destination.
pub open spec fn direct_spec(env: DropEnvelope, peer: PeerId, mode: NodeMode, relay: RelayCapacity) -> Verdict {
    let hit = dest_includes(env.destination, peer);
    if !relays_unasked(mode) && !hit {
        Verdict { forward: false, reason: RouteReason::PrivateMode }
    } else if relay == RelayCapacity::NoRelay && !hit {
        Verdict { forward: false, reason: RouteReason::PeerRelayNone }
    } else {
        Verdict { forward: hit, reason: RouteReason::DirectMatch }
    }
}

pub fn direct_verdict(env: &DropEnvelope, peer: PeerId, mode: NodeMode, peer_relay: RelayCapacity) -> (v: Verdict)
    ensures
        v == direct_spec(*env, peer, mode, peer_relay),
{
    let hit = env.destination.includes(&peer);
    if !mode.unsolicited_relay() && !hit {
        return Verdict { forward: false, reason: RouteReason::PrivateMode };
    }
    if peer_relay == RelayCapacity::NoRelay && !hit {
        return Verdict { forward: false, reason: RouteReason::PeerRelayNone };
    }
    Verdict { forward: hit, reason: RouteReason::DirectMatch }
}

/// Epidemic routing: forward to every eligible peer.
pub open spec fn epidemic_spec(env: DropEnvelope, peer: PeerId, local: PeerId, now: u64, mode: NodeMode, relay: RelayCapacity) -> Verdict {
    if route_blocked(env, peer, local, now, mode, relay) {
        Verdict { forward: false, reason: RouteReason::Ineligible }
    } else {
        Verdict { forward: true, reason: RouteReason::Epidemic }
    }
}

pub fn epidemic_verdict(env: &DropEnvelope, peer: PeerId, local: PeerId, now: u64, mode: NodeMode, peer_relay: RelayCapacity) -> (v: Verdict)
    ensures
        v == epidemic_spec(*env, peer, local, now, mode, peer_relay),
{
    if blocked(env, peer, local, now, mode, peer_relay) {
        return Verdict { forward: false, reason: RouteReason::Ineligible };
    }
    Verdict { forward: true, reason: RouteReason::Epidemic }
}

/// Spray-and-wait: forward to a destination, or to anyone while more than one copy is left.
pub open spec fn spray_spec(env: DropEnvelope, peer: PeerId, local: PeerId, now: u64, mode: NodeMode, relay: RelayCapacity, copies: u32) -> Verdict {
    if route_blocked(env, peer, local, now, mode, relay) {
        Verdict { forward: false, reason: RouteReason::Ineligible }
    } else if dest_includes(env.destination, peer) {
        Verdict { forward: true, reason: RouteReason::Destination }
    } else if copies > 1 {
        Verdict { forward: true, reason: RouteReason::SprayBudget }
    } else {
        Verdict { forward: false, reason: RouteReason::Wait }
    }
}

pub fn spray_verdict(
    env: &DropEnvelope,
    peer: PeerId,
    local: PeerId,
    now: u64,
    mode: NodeMode,
    peer_relay: RelayCapacity,
    remaining_copies: u32,
) -> (v: Verdict)
    ensures
        v == spray_spec(*env, peer, local, now, mode, peer_relay, remaining_copies),
{
    if blocked(env, peer, local, now, mode, peer_relay) {
        return Verdict { forward: false, reason: RouteReason::Ineligible };
    }
    if env.destination.includes(&peer) {
        return Verdict { forward: true, reason: RouteReason::Destination };
    }
    if remaining_copies > 1 {
        Verdict { forward: true, reason: RouteReason::SprayBudget }
    } else {
        Verdict { forward: false, reason: RouteReason::Wait }
    }
}

/// Spray-and-wait with an eligible peer that is no destination: the Drop is sprayed
/// whenever two or more copies are left, and held (waiting for a destination) only when
/// one copy or none is left.
pub proof fn lemma_spray_budget(env: DropEnvelope, peer: PeerId, local: PeerId, now: u64, mode: NodeMode, relay: RelayCapacity, copies: u32)
    requires
        !route_blocked(env, peer, local, now, mode, relay),
        !dest_includes(env.destination, peer),
    ensures
        copies >= 2 ==> spray_spec(env, peer, local, now, mode, relay, copies).forward,
        copies >= 2 ==> spray_spec(env, peer, local, now, mode, relay, copies).reason == RouteReason::SprayBudget,
        copies <= 1 ==> !spray_spec(env, peer, local, now, mode, relay, copies).forward,
        copies <= 1 ==> spray_spec(env, peer, local, now, mode, relay, copies).reason == RouteReason::Wait,
{
}

/// Spray-and-wait never refuses a peer that it would forward to with fewer copies: more
/// copies left can only turn a refusal into a forward.
pub proof fn lemma_spray_monotone(env: DropEnvelope, peer: PeerId, local: PeerId, now: u64, mode: NodeMode, relay: RelayCapacity, fewer: u32, more: u32)
    requires
        fewer <= more,
        spray_spec(env, peer, local, now, mode, relay, fewer).forward,
    ensures
        spray_spec(env, peer, local, now, mode, relay, more).forward,
{
}

/// Spray-and-wait always forwards to an eligible destination, whatever the copies left.
pub proof fn lemma_spray_destination(env: DropEnvelope, peer: PeerId, local: PeerId, now: u64, mode: NodeMode, relay: RelayCapacity, copies: u32)
    requires
        !route_blocked(env, peer, local, now, mode, relay),
        dest_includes(env.destination, peer),
    ensures
        spray_spec(env, peer, local, now, mode, relay, copies) == (Verdict { forward: true, reason: RouteReason::Destination }),
{
}

/// What utility scoring decides before any score: ineligible peers are refused and
/// destinations accepted; every other peer is scored.
pub open spec fn utility_gate_spec(env: DropEnvelope, peer: PeerId, local: PeerId, now: u64, mode: NodeMode, relay: RelayCapacity) -> Option<Verdict> {
    if route_blocked(env, peer, local, now, mode, relay) {
        Some(Verdict { forward: false, reason: RouteReason::Ineligible })
    } else if dest_includes(env.destination, peer) {
        Some(Verdict { forward: true, reason: RouteReason::Destination })
    } else {
        None
    }
}

pub fn utility_gate(env: &DropEnvelope, peer: PeerId, local: PeerId, now: u64, mode: NodeMode, peer_relay: RelayCapacity) -> (v: Option<Verdict>)
    ensures
        v == utility_gate_spec(*env, peer, local, now, mode, peer_relay),
{
    if blocked(env, peer, local, now, mode, peer_relay) {
        return Some(Verdict { forward: false, reason: RouteReason::Ineligible });
    }
    if env.destination.includes(&peer) {
        return Some(Verdict { forward: true, reason: RouteReason::Destination });
    }
    None
}

/// Which strategy the adaptive router hands a decision to.
#[derive(Debug, Clone, Copy, PartialEq, Eq, Structural)]
pub enum AdaptiveStep {
    /// Refuse: the Drop is for trusted contacts only and the peer is not one.
    Deny,
    /// The peer is a destination: decide as direct routing.
    Direct,
    /// The single destination has been met at least three times: score by encounters.
    Encounter,
    /// Few peers are known: spread epidemically.
    Epidemic,
    /// Otherwise spray and wait.
    Spray,
}

/// The adaptive router's choice. `trust` is the peer's trust when the Drop travels only
/// through trusted contacts and the contact list could be read (an unknown peer counts as
/// `Unknown`), and `None` otherwise; `dest_encounters` is how often the single destination
/// was met, when it is a single peer with a record; `known_peers` counts encounter records.
pub open spec fn adaptive_spec(trust: Option<TrustState>, is_destination: bool, dest_encounters: Option<u64>, known_peers: nat) -> AdaptiveStep {
    if trust matches Some(t) && !(t == TrustState::Known || t == TrustState::Verified) {
        AdaptiveStep::Deny
    } else if is_destination {
        AdaptiveStep::Direct
    } else if dest_encounters matches Some(c) && c >= 3 {
        AdaptiveStep::Encounter
    } else if known_peers <= 3 {
        AdaptiveStep::Epidemic
    } else {
        AdaptiveStep::Spray
    }
}

/// Local adaptive policy. No central reputation service.
pub fn adaptive_step(trust: Option<TrustState>, is_destination: bool, dest_encounters: Option<u64>, known_peers: usize) -> (s: AdaptiveStep)
    ensures
        s == adaptive_spec(trust, is_destination, dest_encounters, known_peers as nat),
{
    match trust {
        Some(t) => {
            if !(t == TrustState::Known || t == TrustState::Verified) {
                return AdaptiveStep::Deny;
            }
        },
        None => {},
    }
    if is_destination {
        return AdaptiveStep::Direct;
    }
    match dest_encounters {
        Some(c) => {
            if c >= 3 {
                return AdaptiveStep::Encounter;
            }
        },
        None => {},
    }
    if known_peers <= 3 {
        AdaptiveStep::Epidemic
    } else {
        AdaptiveStep::Spray
    }
}

/// The single peer a Drop is addressed to, if it is addressed to exactly one.
pub fn single_destination(d: &Destination) -> (p: Option<PeerId>)
    ensures
        match *d {
            Destination::One { peer } => p == Some(peer),
            _ => p is None,
        },
{
    match d {
        Destination::One { peer } => Some(*peer),
        _ => None,
    }
}

/// Direct routing: hand a Drop only to its destination.
#[derive(Debug, Clone, Copy)]
pub struct Direct;

/// Epidemic routing: hand a Drop to every eligible peer.
#[derive(Debug, Clone, Copy)]
pub struct Epidemic;

/// Spray-and-wait routing: spread copies while the budget lasts, then wait for the
/// destination.
#[derive(Debug, Clone, Copy)]
pub struct SprayAndWait;

/// The adaptive router: picks a strategy per Drop and peer from local history.
#[derive(Debug, Clone, Copy)]
pub struct AdaptiveRouter;

impl Direct {
    pub fn name(&self) -> (s: &'static str)
        ensures
            s@ == "direct"@,
    {
        "direct"
    }

    /// See `direct_spec`.
    pub fn decide(&self, env: &DropEnvelope, peer: PeerId, mode: NodeMode, peer_relay: RelayCapacity) -> (v: Verdict)
        ensures
            v == direct_spec(*env, peer, mode, peer_relay),
    {
        direct_verdict(env, peer, mode, peer_relay)
    }
}

impl Epidemic {
    pub fn name(&self) -> (s: &'static str)
        ensures
            s@ == "epidemic"@,
    {
        "epidemic"
    }

    /// See `epidemic_spec`.
    pub fn decide(&self, env: &DropEnvelope, peer: PeerId, local: PeerId, now: u64, mode: NodeMode, peer_relay: RelayCapacity) -> (v: Verdict)
        ensures
            v == epidemic_spec(*env, peer, local, now, mode, peer_relay),
    {
        epidemic_verdict(env, peer, local, now, mode, peer_relay)
    }
}

impl SprayAndWait {
    pub fn name(&self) -> (s: &'static str)
        ensures
            s@ == "spray"@,
    {
        "spray"
    }

    /// See `spray_spec`.
    pub fn decide(
        &self,
        env: &DropEnvelope,
        peer: PeerId,
        local: PeerId,
        now: u64,
        mode: NodeMode,
        peer_relay: RelayCapacity,
        remaining_copies: u32,
    ) -> (v: Verdict)
        ensures
            v == spray_spec(*env, peer, local, now, mode, peer_relay, remaining_copies),
    {
        spray_verdict(env, peer, local, now, mode, peer_relay, remaining_copies)
    }
}

impl AdaptiveRouter {
    pub fn name(&self) -> (s: &'static str)
        ensures
            s@ == "adaptive"@,
    {
        "adaptive"
    }

    /// Which strategy decides; see `adaptive_spec`.
    pub fn step(&self, trust: Option<TrustState>, is_destination: bool, dest_encounters: Option<u64>, known_peers: usize) -> (s: AdaptiveStep)
        ensures
            s == adaptive_spec(trust, is_destination, dest_encounters, known_peers as nat),
    {
        adaptive_step(trust, is_destination, dest_encounters, known_peers)
    }
}

} // verus!
