//! The decisions of a sync session between two nodes: which inventory to send, what to ask
//! for, when to say done, and what to do with each message that arrives. The session itself
//! (the stream, the store) drives these.

use crate::chunk::missing_below;
use crate::destination::dest_includes;
use crate::error::{coded, fails_with, DdError, DdResult, ErrorCode};
use crate::ids::{ObjectId, PeerId};
use crate::lifecycle::Ownership;
use crate::protocol::envelope::{envelope_check, verify_envelope};
use crate::protocol::inventory::{not_held, want_from_bloom, want_from_sorted, wanted, BloomFilter, InventoryAlgo};
use crate::protocol::messages::{message_name, Message};
use crate::text::{chars_eq_str, chars_of, push_str, string_of};
use vstd::prelude::*;

verus! {

/// The inventory form to send: a Bloom filter when the negotiated preference is `bloom-v1`
/// and more than 64 identifiers are held, a sorted list otherwise.
pub fn inventory_form(prefer: &str, local_count: usize) -> (a: InventoryAlgo)
    ensures
        a == (if prefer@ == "bloom-v1"@ && local_count > 64 {
            InventoryAlgo::Bloom
        } else {
            InventoryAlgo::Sorted
        }),
{
    let p = chars_of(prefer);
    if chars_eq_str(&p, "bloom-v1") && local_count > 64 {
        InventoryAlgo::Bloom
    } else {
        InventoryAlgo::Sorted
    }
}

/// What to ask for after the peer's inventory: from a sorted list, the identifiers it has
/// and we lack; from a Bloom filter, our identifiers it may lack. Any other message fails
/// with `Ddp1001InvalidFrame`; a filter too large to index with `Ddp1006LimitExceeded`.
pub open spec fn wants_outcome(m: Message, local: Seq<ObjectId>) -> Result<Seq<ObjectId>, ErrorCode> {
    match m {
        Message::InventorySorted { object_ids } => Ok(wanted(object_ids@, local)),
        Message::InventoryBloom { n, k, bits } => if bits@.len() * 8 > usize::MAX {
            Err(ErrorCode::Ddp1006LimitExceeded)
        } else {
            Ok(not_held(local, BloomFilter { n: 0, k, bits }))
        },
        _ => Err(ErrorCode::Ddp1001InvalidFrame),
    }
}

pub fn wants_after_inventory(inv: &Message, local: &[ObjectId]) -> (r: DdResult<Vec<ObjectId>>)
    ensures
        match wants_outcome(*inv, local@) {
            Ok(w) => r is Ok && r->Ok_0@ == w,
            Err(c) => fails_with(r, c),
        },
{
    match inv {
        Message::InventorySorted { object_ids } => Ok(want_from_sorted(object_ids.as_slice(), local)),
        Message::InventoryBloom { n, k, bits } => {
            if bits.len() > usize::MAX / 8 {
                return Err(coded(ErrorCode::Ddp1006LimitExceeded, "inventory filter too large"));
            }
            let copy = crate::chunk::copy_range(bits.as_slice(), 0, bits.len());
            assert(copy@ =~= bits@);
            let bloom = BloomFilter { n: 0, k: *k, bits: copy };
            let r = want_from_bloom(local, &bloom);
            assert(not_held(local@, bloom) == not_held(local@, BloomFilter { n: 0, k: *k, bits: *bits })) by {
                lemma_not_held_bits(local@, bloom, BloomFilter { n: 0, k: *k, bits: *bits });
            }
            Ok(r)
        },
        _ => {
            let mut text: Vec<char> = Vec::new();
            push_str(&mut text, "expected inventory, got ");
            push_str(&mut text, inv.name());
            Err(DdError::invalid_frame(string_of(&text)))
        },
    }
}

proof fn lemma_not_held_bits(local: Seq<ObjectId>, a: BloomFilter, b: BloomFilter)
    requires
        a.k == b.k,
        a.bits@ == b.bits@,
    ensures
        not_held(local, a) == not_held(local, b),
    decreases local.len(),
{
    if local.len() > 0 {
        lemma_not_held_bits(local.drop_last(), a, b);
    }
}

/// Indices below `n` that a presence mask marks present.
pub open spec fn present_below(n: nat, mask: Seq<bool>) -> Seq<u32>
    decreases n,
{
    if n == 0 {
        Seq::empty()
    } else {
        let i = (n - 1) as nat;
        present_below(i, mask) + if i < mask.len() && mask[i as int] {
            seq![i as u32]
        } else {
            Seq::empty()
        }
    }
}

/// Chunk indices a presence mask marks missing, to ask the peer for.
pub fn missing_chunks(mask: &[bool]) -> (r: Vec<u32>)
    ensures
        r@ == missing_below(mask@.len(), mask@),
{
    let mut out: Vec<u32> = Vec::new();
    let mut i: usize = 0;
    while i < mask.len()
        invariant
            i <= mask@.len(),
            out@ == missing_below(i as nat, mask@),
        decreases mask@.len() - i,
    {
        if !mask[i] {
            out.push(i as u32);
        }
        i += 1;
        assert(out@ =~= missing_below(i as nat, mask@));
    }
    out
}

/// Chunk indices a presence mask marks present, to send the peer.
pub fn present_chunks(mask: &[bool]) -> (r: Vec<u32>)
    ensures
        r@ == present_below(mask@.len(), mask@),
{
    let mut out: Vec<u32> = Vec::new();
    let mut i: usize = 0;
    while i < mask.len()
        invariant
            i <= mask@.len(),
            out@ == present_below(i as nat, mask@),
        decreases mask@.len() - i,
    {
        if mask[i] {
            out.push(i as u32);
        }
        i += 1;
        assert(out@ =~= present_below(i as nat, mask@));
    }
    out
}

/// What a session moved: the peer it was with, envelopes and chunks sent or stored.
#[derive(Debug, Clone, Copy)]
pub struct SyncStats {
    pub peer: Option<PeerId>,
    pub envelopes: u32,
    pub chunks: u32,
}

impl Default for SyncStats {
    fn default() -> (s: Self)
        ensures
            s.peer is None,
            s.envelopes == 0,
            s.chunks == 0,
    {
        SyncStats { peer: None, envelopes: 0, chunks: 0 }
    }
}

/// Where a session stands: whether each side has said it is done.
#[derive(Debug, Clone, Copy, PartialEq, Eq, Structural)]
pub struct SyncState {
    pub we_done: bool,
    pub they_done: bool,
}

/// Say done once nothing is left to send and it has not been said.
pub fn send_done_now(st: SyncState, queues_empty: bool) -> (b: bool)
    ensures
        b == (queues_empty && !st.we_done),
{
    queues_empty && !st.we_done
}

/// The session ends once both sides have said done.
pub fn sync_finished(st: SyncState) -> (b: bool)
    ensures
        b == (st.we_done && st.they_done),
{
    st.we_done && st.they_done
}

/// What to do with a message that arrives during a session.
#[derive(Debug, Clone, Copy, PartialEq, Eq, Structural)]
pub enum Reaction {
    /// Store the envelope and its manifest, held as this ownership.
    StoreEnvelope(Ownership),
    /// Store the chunk.
    StoreChunk,
    /// The peer is done.
    PeerDone,
    /// The peer reported an error: end the session with it.
    Fail,
    /// Nothing to do.
    Ignore,
}

/// How the session answers the messages that end or fill it, at any time and on any node: a
/// peer's `done` always marks the peer done, a peer's `error` always ends the session, a chunk
/// is always stored, and only an envelope is ever stored as an envelope.
pub proof fn lemma_reaction_kinds(m: Message, now: u64, local: PeerId)
    ensures
        m is Done ==> reaction_spec(m, now, local) == Reaction::PeerDone,
        m is Error ==> reaction_spec(m, now, local) == Reaction::Fail,
        m is ChunkData ==> reaction_spec(m, now, local) == Reaction::StoreChunk,
        reaction_spec(m, now, local) is StoreEnvelope ==> m is Envelope,
        reaction_spec(m, now, local) == Reaction::PeerDone ==> m is Done,
{
}

/// The reaction to a message at `now` on node `local`: a sound, properly signed envelope is
/// stored (as incoming when addressed to this node, as relay otherwise) and any other
/// envelope ignored; chunks are stored; `done` and `error` end the peer's part.
pub open spec fn reaction_spec(m: Message, now: u64, local: PeerId) -> Reaction {
    match m {
        Message::Envelope { envelope, .. } => if envelope_check(envelope, now) is Ok {
            Reaction::StoreEnvelope(
                if dest_includes(envelope.destination, local) {
                    Ownership::Incoming
                } else {
                    Ownership::Relay
                },
            )
        } else {
            Reaction::Ignore
        },
        Message::ChunkData { .. } => Reaction::StoreChunk,
        Message::Done => Reaction::PeerDone,
        Message::Error { .. } => Reaction::Fail,
        _ => Reaction::Ignore,
    }
}

pub fn react(m: &Message, now: u64, local: &PeerId) -> (r: Reaction)
    ensures
        r == reaction_spec(*m, now, *local),
{
    match m {
        Message::Envelope { envelope, .. } => {
            if verify_envelope(envelope, now).is_ok() {
                if envelope.destination.includes(local) {
                    Reaction::StoreEnvelope(Ownership::Incoming)
                } else {
                    Reaction::StoreEnvelope(Ownership::Relay)
                }
            } else {
                Reaction::Ignore
            }
        },
        Message::ChunkData { .. } => Reaction::StoreChunk,
        Message::Done => Reaction::PeerDone,
        Message::Error { .. } => Reaction::Fail,
        _ => Reaction::Ignore,
    }
}

} // verus!
