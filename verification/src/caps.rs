//! Capabilities a node announces, and what two nodes agree on.

use crate::error::{coded, fails_with, DdResult, ErrorCode};
use crate::limits::{MAX_DROP_SIZE, MAX_FRAME_SIZE};
use crate::text::owned;
use crate::PROTOCOL_VERSION;
use vstd::prelude::*;

verus! {

#[derive(Debug, Clone)]
pub struct CapabilityDoc {
    pub protocol: u16,
    pub max_frame: u32,
    pub max_drop: u64,
    pub chunking: Vec<String>,
    pub compression: Vec<String>,
    pub inventory: Vec<String>,
    pub routing: Vec<String>,
    pub receipts: bool,
    pub extensions: Vec<String>,
    pub relay_capacity: RelayCapacity,
}

#[derive(Debug, Clone, Copy, PartialEq, Eq, Structural)]
pub enum RelayCapacity {
    Full,
    Low,
    /// Relays nothing (called `none` on the wire).
    NoRelay,
}

impl Default for RelayCapacity {
    fn default() -> (r: Self)
        ensures
            r == RelayCapacity::Full,
    {
        RelayCapacity::Full
    }
}

#[derive(Debug, Clone)]
pub struct NegotiatedCaps {
    pub protocol: u16,
    pub max_frame: u32,
    pub max_drop: u64,
    pub chunking: Vec<String>,
    pub compression: Vec<String>,
    pub inventory: Vec<String>,
    pub routing: Vec<String>,
    pub receipts: bool,
    pub peer_relay: RelayCapacity,
}

/// The texts of a list of strings.
pub open spec fn texts(v: Seq<String>) -> Seq<Seq<char>> {
    v.map_values(|s: String| s@)
}

/// The entries of `a` that also occur in `b`, in the order of `a`.
pub open spec fn common(a: Seq<Seq<char>>, b: Seq<Seq<char>>) -> Seq<Seq<char>>
    decreases a.len(),
{
    if a.len() == 0 {
        Seq::empty()
    } else {
        common(a.drop_last(), b) + if b.contains(a.last()) {
            seq![a.last()]
        } else {
            Seq::empty()
        }
    }
}

/// The texts of a list of literals.
pub open spec fn lit_texts(l: Seq<&str>) -> Seq<Seq<char>> {
    l.map_values(|s: &str| s@)
}

fn strings_of(lits: &[&str]) -> (v: Vec<String>)
    ensures
        texts(v@) == lit_texts(lits@),
{
    let mut v: Vec<String> = Vec::new();
    let mut i: usize = 0;
    while i < lits.len()
        invariant
            i <= lits@.len(),
            v@.len() == i,
            texts(v@) == lit_texts(lits@.take(i as int)),
        decreases lits@.len() - i,
    {
        let l = lits[i];
        let o = owned(l);
        let ghost before = v@;
        v.push(o);
        proof {
            assert(l == lits@[i as int]);
            assert forall|j: int| 0 <= j < i + 1 implies #[trigger] texts(v@)[j] == lit_texts(
                lits@.take(i + 1),
            )[j] by {
                if j < i {
                    assert(v@[j] == before[j]);
                    assert(texts(before)[j] == lit_texts(lits@.take(i as int))[j]);
                }
            }
            assert(texts(v@) =~= lit_texts(lits@.take(i + 1)));
        }
        i += 1;
    }
    assert(lits@.take(lits@.len() as int) =~= lits@);
    v
}

/// Whether `s` is one of the strings of `v`.
pub fn contains_string(v: &[String], s: &String) -> (b: bool)
    ensures
        b == texts(v@).contains(s@),
{
    let mut i: usize = 0;
    while i < v.len()
        invariant
            i <= v@.len(),
            forall|j: int| 0 <= j < i ==> v@[j]@ != s@,
        decreases v@.len() - i,
    {
        if v[i] == *s {
            assert(texts(v@)[i as int] == s@);
            return true;
        }
        i += 1;
    }
    assert forall|j: int| 0 <= j < texts(v@).len() implies texts(v@)[j] != s@ by {
        assert(texts(v@)[j] == v@[j]@);
    }
    false
}

/// The strings of `a` that `b` also lists, in the order of `a`.
pub fn intersect(a: &[String], b: &[String]) -> (r: Vec<String>)
    ensures
        texts(r@) == common(texts(a@), texts(b@)),
{
    let mut r: Vec<String> = Vec::new();
    let mut i: usize = 0;
    while i < a.len()
        invariant
            i <= a@.len(),
            texts(r@) == common(texts(a@).take(i as int), texts(b@)),
        decreases a@.len() - i,
    {
        let keep = contains_string(b, &a[i]);
        let ghost before = texts(r@);
        if keep {
            r.push(a[i].clone());
        }
        proof {
            let t = texts(a@).take(i + 1);
            assert(t.drop_last() =~= texts(a@).take(i as int));
            assert(t.last() == a@[i as int]@);
            if keep {
                assert(texts(r@) =~= before + seq![a@[i as int]@]);
            } else {
                assert(texts(r@) =~= before + Seq::<Seq<char>>::empty());
            }
        }
        i += 1;
    }
    assert(texts(a@).take(a@.len() as int) =~= texts(a@));
    r
}

/// `n` is what `a` and `b` agree on: the smaller limits, the capabilities both list (in the
/// order of `a`), receipts when both want them, and the peer's relay capacity.
pub open spec fn negotiated(a: CapabilityDoc, b: CapabilityDoc, n: NegotiatedCaps) -> bool {
    &&& n.protocol == a.protocol
    &&& n.max_frame == (if a.max_frame <= b.max_frame { a.max_frame } else { b.max_frame })
    &&& n.max_drop == (if a.max_drop <= b.max_drop { a.max_drop } else { b.max_drop })
    &&& texts(n.chunking@) == common(texts(a.chunking@), texts(b.chunking@))
    &&& texts(n.compression@) == common(texts(a.compression@), texts(b.compression@))
    &&& texts(n.inventory@) == common(texts(a.inventory@), texts(b.inventory@))
    &&& texts(n.routing@) == common(texts(a.routing@), texts(b.routing@))
    &&& n.receipts == (a.receipts && b.receipts)
    &&& n.peer_relay == b.relay_capacity
}

/// Negotiation never exceeds either side: the agreed frame and Drop limits are each at most
/// what both sides announced, and equal to one of the two.
pub proof fn lemma_negotiated_limits(a: CapabilityDoc, b: CapabilityDoc, n: NegotiatedCaps)
    requires
        negotiated(a, b, n),
    ensures
        n.max_frame <= a.max_frame,
        n.max_frame <= b.max_frame,
        n.max_frame == a.max_frame || n.max_frame == b.max_frame,
        n.max_drop <= a.max_drop,
        n.max_drop <= b.max_drop,
        n.max_drop == a.max_drop || n.max_drop == b.max_drop,
{
}

/// A capability is agreed exactly when both sides list it.
pub proof fn lemma_common_contains(a: Seq<Seq<char>>, b: Seq<Seq<char>>, x: Seq<char>)
    ensures
        common(a, b).contains(x) <==> (a.contains(x) && b.contains(x)),
    decreases a.len(),
{
    if a.len() > 0 {
        lemma_common_contains(a.drop_last(), b, x);
        let tail: Seq<Seq<char>> = if b.contains(a.last()) { seq![a.last()] } else { Seq::empty() };
        let c = common(a.drop_last(), b);
        assert(common(a, b) == c + tail);
        if common(a, b).contains(x) {
            let k = choose|k: int| 0 <= k < common(a, b).len() && common(a, b)[k] == x;
            if k < c.len() {
                assert(c[k] == x);
                let j = choose|j: int| 0 <= j < a.drop_last().len() && a.drop_last()[j] == x;
                assert(a[j] == x);
            } else {
                assert(tail[k - c.len()] == x);
                assert(a[a.len() - 1] == x);
            }
        }
        if a.contains(x) && b.contains(x) {
            let j = choose|j: int| 0 <= j < a.len() && a[j] == x;
            if j < a.len() - 1 {
                assert(a.drop_last()[j] == x);
                let k = choose|k: int| 0 <= k < c.len() && c[k] == x;
                assert((c + tail)[k] == x);
            } else {
                assert((c + tail)[c.len() as int] == x);
            }
        }
    }
}

/// What negotiation agrees on is what both sides offer: a chunking, compression, inventory
/// or routing name is agreed exactly when both sides list it, and receipts are on only when
/// both sides want them.
pub proof fn lemma_negotiated_shared(a: CapabilityDoc, b: CapabilityDoc, n: NegotiatedCaps, x: Seq<char>)
    requires
        negotiated(a, b, n),
    ensures
        texts(n.chunking@).contains(x) <==> (texts(a.chunking@).contains(x) && texts(b.chunking@).contains(x)),
        texts(n.compression@).contains(x) <==> (texts(a.compression@).contains(x) && texts(b.compression@).contains(x)),
        texts(n.inventory@).contains(x) <==> (texts(a.inventory@).contains(x) && texts(b.inventory@).contains(x)),
        texts(n.routing@).contains(x) <==> (texts(a.routing@).contains(x) && texts(b.routing@).contains(x)),
        n.receipts ==> a.receipts && b.receipts,
        !a.receipts || !b.receipts ==> !n.receipts,
{
    lemma_common_contains(texts(a.chunking@), texts(b.chunking@), x);
    lemma_common_contains(texts(a.compression@), texts(b.compression@), x);
    lemma_common_contains(texts(a.inventory@), texts(b.inventory@), x);
    lemma_common_contains(texts(a.routing@), texts(b.routing@), x);
}

/// The capabilities this implementation announces.
pub open spec fn is_local_caps(c: CapabilityDoc) -> bool {
    &&& c.protocol == PROTOCOL_VERSION
    &&& c.max_frame == MAX_FRAME_SIZE
    &&& c.max_drop == MAX_DROP_SIZE
    &&& texts(c.chunking@) == seq!["fixed"@, "cdc-v1"@, "erasure-xor-v1"@]
    &&& texts(c.compression@) == seq!["none"@, "zstd"@]
    &&& texts(c.inventory@) == seq!["sorted-v1"@, "bloom-v1"@]
    &&& texts(c.routing@) == seq!["direct"@, "epidemic"@, "spray"@, "encounter"@, "adaptive"@]
    &&& c.receipts
    &&& texts(c.extensions@) == seq![
        "dd.group/1"@,
        "sealed-drop-v1"@,
        "erasure-v1"@,
        "receipt-v2"@,
        "spaces-v1"@,
        "quic-v1"@,
        "lan-v1"@,
    ]
    &&& c.relay_capacity == RelayCapacity::Full
}

impl CapabilityDoc {
    /// What this implementation supports.
    pub fn local_v2() -> (c: Self)
        ensures
            c.protocol == PROTOCOL_VERSION,
            c.max_frame == MAX_FRAME_SIZE,
            c.max_drop == MAX_DROP_SIZE,
            texts(c.chunking@) == seq!["fixed"@, "cdc-v1"@, "erasure-xor-v1"@],
            texts(c.compression@) == seq!["none"@, "zstd"@],
            texts(c.inventory@) == seq!["sorted-v1"@, "bloom-v1"@],
            texts(c.routing@) == seq!["direct"@, "epidemic"@, "spray"@, "encounter"@, "adaptive"@],
            c.receipts,
            texts(c.extensions@) == seq![
                "dd.group/1"@,
                "sealed-drop-v1"@,
                "erasure-v1"@,
                "receipt-v2"@,
                "spaces-v1"@,
                "quic-v1"@,
                "lan-v1"@,
            ],
            c.relay_capacity == RelayCapacity::Full,
            is_local_caps(c),
    {
        let chunking = strings_of(&["fixed", "cdc-v1", "erasure-xor-v1"]);
        let compression = strings_of(&["none", "zstd"]);
        let inventory = strings_of(&["sorted-v1", "bloom-v1"]);
        let routing = strings_of(&["direct", "epidemic", "spray", "encounter", "adaptive"]);
        let extensions = strings_of(
            &[
                "dd.group/1",
                "sealed-drop-v1",
                "erasure-v1",
                "receipt-v2",
                "spaces-v1",
                "quic-v1",
                "lan-v1",
            ],
        );
        let c = Self {
            protocol: PROTOCOL_VERSION,
            max_frame: MAX_FRAME_SIZE,
            max_drop: MAX_DROP_SIZE,
            chunking,
            compression,
            inventory,
            routing,
            receipts: true,
            extensions,
            relay_capacity: RelayCapacity::Full,
        };
        assert(texts(c.chunking@) =~= seq!["fixed"@, "cdc-v1"@, "erasure-xor-v1"@]);
        assert(texts(c.compression@) =~= seq!["none"@, "zstd"@]);
        assert(texts(c.inventory@) =~= seq!["sorted-v1"@, "bloom-v1"@]);
        assert(texts(c.routing@) =~= seq!["direct"@, "epidemic"@, "spray"@, "encounter"@, "adaptive"@]);
        assert(texts(c.extensions@) =~= seq![
            "dd.group/1"@,
            "sealed-drop-v1"@,
            "erasure-v1"@,
            "receipt-v2"@,
            "spaces-v1"@,
            "quic-v1"@,
            "lan-v1"@,
        ]);
        c
    }

    /// Negotiates the intersection; unknown optional capabilities are ignored. Fails with
    /// `Ddp1002UnsupportedVersion` when the peer speaks another protocol version.
    pub fn negotiate(&self, other: &Self) -> (r: DdResult<NegotiatedCaps>)
        ensures
            other.protocol != self.protocol ==> fails_with(r, ErrorCode::Ddp1002UnsupportedVersion),
            other.protocol == self.protocol ==> r is Ok && negotiated(*self, *other, r->Ok_0),
    {
        if other.protocol != self.protocol {
            return Err(coded(ErrorCode::Ddp1002UnsupportedVersion, "peer speaks another protocol version"));
        }
        Ok(
            NegotiatedCaps {
                protocol: self.protocol,
                max_frame: if self.max_frame <= other.max_frame {
                    self.max_frame
                } else {
                    other.max_frame
                },
                max_drop: if self.max_drop <= other.max_drop {
                    self.max_drop
                } else {
                    other.max_drop
                },
                chunking: intersect(&self.chunking, &other.chunking),
                compression: intersect(&self.compression, &other.compression),
                inventory: intersect(&self.inventory, &other.inventory),
                routing: intersect(&self.routing, &other.routing),
                receipts: self.receipts && other.receipts,
                peer_relay: other.relay_capacity,
            },
        )
    }
}

impl NegotiatedCaps {
    /// The inventory form to send: bloom filters when both sides support them, sorted lists
    /// otherwise.
    pub fn prefer_inventory(&self) -> (s: &'static str)
        ensures
            s@ == (if texts(self.inventory@).contains("bloom-v1"@) {
                "bloom-v1"@
            } else {
                "sorted-v1"@
            }),
    {
        let bloom = owned("bloom-v1");
        if contains_string(&self.inventory, &bloom) {
            "bloom-v1"
        } else {
            "sorted-v1"
        }
    }
}

} // verus!
