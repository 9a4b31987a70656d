//! What the command-line front end decides from its arguments and what it found: the node
//! mode a name stands for, which object a short identifier names, which address to sync
//! with, and whether a connection error means nobody was listening.

use crate::chunk::erasure::ErasureSpec;
use crate::discovery::Endpoint;
use crate::hexutil::{hex_encode_chars, hex_of};
use crate::ids::{id_text, ObjectId, PeerId};
use crate::mode::NodeMode;
use crate::text::{
    chars_eq_str, chars_of, find_char, find_char_in, has_substring, has_substring_chars, lower,
    lower_chars, parse_u32, parse_u64_chars, split_char, split_chars, starts_with, starts_with_chars,
    string_of, sub_chars, trim, trim_chars,
};
use vstd::prelude::*;

verus! {

/// The node mode a command-line name stands for.
pub open spec fn mode_named(s: Seq<char>) -> Option<NodeMode> {
    if s == "performance"@ {
        Some(NodeMode::Performance)
    } else if s == "balanced"@ {
        Some(NodeMode::Balanced)
    } else if s == "battery"@ {
        Some(NodeMode::Battery)
    } else if s == "offline"@ {
        Some(NodeMode::Offline)
    } else if s == "relay"@ || s == "relay-only"@ {
        Some(NodeMode::RelayOnly)
    } else if s == "private"@ {
        Some(NodeMode::Private)
    } else {
        None
    }
}

/// Reads a node mode name; `None` for an unknown one.
pub fn parse_mode(s: &str) -> (m: Option<NodeMode>)
    ensures
        m == mode_named(s@),
{
    let c = chars_of(s);
    if chars_eq_str(&c, "performance") {
        Some(NodeMode::Performance)
    } else if chars_eq_str(&c, "balanced") {
        Some(NodeMode::Balanced)
    } else if chars_eq_str(&c, "battery") {
        Some(NodeMode::Battery)
    } else if chars_eq_str(&c, "offline") {
        Some(NodeMode::Offline)
    } else if chars_eq_str(&c, "relay") || chars_eq_str(&c, "relay-only") {
        Some(NodeMode::RelayOnly)
    } else if chars_eq_str(&c, "private") {
        Some(NodeMode::Private)
    } else {
        None
    }
}

/// A connection error text, in any case, says the other side refused the connection.
pub open spec fn refused_text(msg: Seq<char>) -> bool {
    let m = lower(msg);
    ||| has_substring(m, "connection refused"@)
    ||| has_substring(m, "10061"@)
    ||| has_substring(m, "actively refused"@)
    ||| has_substring(m, "os error 111"@)
}

/// Whether a connection error means nobody was listening.
pub fn looks_like_refused(msg: &str) -> (b: bool)
    ensures
        b == refused_text(msg@),
{
    let raw = chars_of(msg);
    let m = lower_chars(&raw);
    has_substring_chars(&m, &chars_of("connection refused")) || has_substring_chars(&m, &chars_of("10061"))
        || has_substring_chars(&m, &chars_of("actively refused")) || has_substring_chars(
        &m,
        &chars_of("os error 111"),
    )
}

/// The part after the last `:` (all of it when there is none).
pub open spec fn last_segment(s: Seq<char>) -> Seq<char>
    decreases s.len(),
{
    if s.len() == 0 {
        s
    } else if s.last() == ':' {
        Seq::empty()
    } else {
        last_segment(s.drop_last()).push(s.last())
    }
}

/// The hexadecimal prefix an object text stands for: its last `:`-separated part, in lower
/// case.
pub fn object_prefix(spec: &str) -> (p: String)
    ensures
        p@ == lower(last_segment(spec@)),
{
    let s = chars_of(spec);
    let mut start: usize = s.len();
    assert(s@.take(start as int) =~= s@);
    assert(s@.skip(start as int) =~= Seq::<char>::empty());
    assert(last_segment(s@) =~= last_segment(s@.take(start as int)) + s@.skip(start as int));
    while start > 0 && s[start - 1] != ':'
        invariant
            start <= s@.len(),
            last_segment(s@) == last_segment(s@.take(start as int)) + s@.skip(start as int),
        decreases start,
    {
        proof {
            let t = s@.take(start as int);
            assert(t.drop_last() =~= s@.take(start - 1));
            assert(t.last() == s@[start - 1]);
            assert(last_segment(t) == last_segment(t.drop_last()).push(t.last()));
            assert(last_segment(s@.take(start - 1)) + s@.skip(start - 1) =~= last_segment(
                s@.take(start - 1),
            ).push(s@[start - 1]) + s@.skip(start as int));
        }
        start -= 1;
    }
    proof {
        let t = s@.take(start as int);
        assert(last_segment(t) =~= Seq::<char>::empty());
    }
    let tail = sub_chars(&s, start, s.len());
    assert(tail@ =~= s@.skip(start as int));
    assert(last_segment(s@) =~= tail@);
    let low = lower_chars(&tail);
    string_of(&low)
}

/// The erasure parameters a `data,parity` argument asks for: each of the first two parts
/// trimmed and read as a number; 10 data shards and 1 parity shard where a part is missing or
/// does not read. Parts after the second are ignored.
pub open spec fn erasure_arg_spec(s: Seq<char>) -> ErasureSpec {
    let parts = split_char(s, ',');
    let d = if parts.len() > 0 {
        match parse_u32(trim(parts[0])) {
            Some(v) => v,
            None => 10u32,
        }
    } else {
        10u32
    };
    let p = if parts.len() > 1 {
        match parse_u32(trim(parts[1])) {
            Some(v) => v,
            None => 1u32,
        }
    } else {
        1u32
    };
    ErasureSpec { data_shards: d, parity_shards: p }
}

fn parse_u32_chars(s: &[char]) -> (r: Option<u32>)
    ensures
        r == parse_u32(s@),
{
    match parse_u64_chars(s) {
        Some(v) => {
            if v <= u32::MAX as u64 {
                Some(v as u32)
            } else {
                None
            }
        },
        None => None,
    }
}

fn u32_part_or(parts: &Vec<Vec<char>>, k: usize, fallback: u32) -> (v: u32)
    ensures
        v == (if k < parts@.len() {
            match parse_u32(trim(parts@[k as int]@)) {
                Some(x) => x,
                None => fallback,
            }
        } else {
            fallback
        }),
{
    if k < parts.len() {
        let t = trim_chars(&parts[k]);
        match parse_u32_chars(&t) {
            Some(x) => x,
            None => fallback,
        }
    } else {
        fallback
    }
}

/// Reads an `--erasure data,parity` argument (see `erasure_arg_spec`).
pub fn erasure_arg(s: &str) -> (e: ErasureSpec)
    ensures
        e == erasure_arg_spec(s@),
{
    let cs = chars_of(s);
    let parts = split_chars(&cs, ',');
    let d = u32_part_or(&parts, 0, 10);
    let p = u32_part_or(&parts, 1, 1);
    ErasureSpec { data_shards: d, parity_shards: p }
}

/// When a seal asked for on the command line ends: a text holding a `T` is a calendar time,
/// taken as read; any other is a duration counted from `now`, saturating at `u64::MAX`.
pub open spec fn seal_time_spec(text: Seq<char>, read: Option<u64>, now: u64) -> Option<u64> {
    if find_char(text, 'T') is Some {
        read
    } else {
        match read {
            Some(d) => Some(if now + d > u64::MAX { u64::MAX } else { (now + d) as u64 }),
            None => None,
        }
    }
}

/// When a seal asked for on the command line ends (see `seal_time_spec`), given what its text
/// reads as.
pub fn seal_time(text: &str, read: Option<u64>, now: u64) -> (r: Option<u64>)
    ensures
        r == seal_time_spec(text@, read, now),
{
    let cs = chars_of(text);
    match find_char_in(&cs, 'T') {
        Some(_) => read,
        None => match read {
            Some(d) => Some(now.saturating_add(d)),
            None => None,
        },
    }
}

/// The hex digits of an object identifier start with `prefix`.
pub fn hex_prefixed(id: &ObjectId, prefix: &str) -> (b: bool)
    ensures
        b == starts_with(hex_of(id.digest.0@), prefix@),
{
    let h = hex_encode_chars(&id.digest.0);
    let p = chars_of(prefix);
    starts_with_chars(&h, &p)
}

/// An object identifier answers to a query when its text contains the query or its hex
/// digits start with it.
pub open spec fn object_answers(id: ObjectId, query: Seq<char>) -> bool {
    has_substring(id_text("ddo"@, id.algorithm, id.digest.0@), query) || starts_with(
        hex_of(id.digest.0@),
        query,
    )
}

/// Whether an object identifier answers to a query (see `object_answers`).
pub fn object_matches(id: &ObjectId, query: &str) -> (b: bool)
    ensures
        b == object_answers(*id, query@),
{
    let t = id.to_string();
    let tc = chars_of(t.as_str());
    let q = chars_of(query);
    if has_substring_chars(&tc, &q) {
        return true;
    }
    hex_prefixed(id, query)
}

/// The beacons of other nodes: those not carrying this node's identifier.
pub open spec fn others_of(scan: Seq<Endpoint>, local: PeerId) -> Seq<Endpoint>
    decreases scan.len(),
{
    if scan.len() == 0 {
        Seq::empty()
    } else {
        let rest = others_of(scan.drop_last(), local);
        if scan.last().peer == Some(local) {
            rest
        } else {
            rest.push(scan.last())
        }
    }
}

/// Where a sync goes when no address was given.
#[derive(Debug, Clone)]
pub enum SyncTarget {
    /// Connect to this locator.
    Locator(String),
    /// The named contact advertises no address here and none is remembered.
    NoAddressFor,
    /// No other node advertises, and no address was used before.
    NoBeacons,
    /// Several distinct addresses advertise; the user must pick.
    Several(Vec<Endpoint>),
}

/// The first beacon of `peer`, if any.
pub open spec fn first_of(others: Seq<Endpoint>, peer: PeerId) -> Option<int>
    decreases others.len(),
{
    if others.len() == 0 {
        None
    } else {
        match first_of(others.drop_last(), peer) {
            Some(i) => Some(i),
            None => if others.last().peer == Some(peer) {
                Some(others.len() - 1)
            } else {
                None
            },
        }
    }
}

/// All beacons share one address.
pub open spec fn one_address(others: Seq<Endpoint>) -> bool {
    others.len() > 0 && forall|i: int| 0 <= i < others.len() ==> (#[trigger] others[i]).locator@ == others[0].locator@
}

/// The sync target: for a named contact, its advertised address, else the one remembered for
/// it; otherwise the single address the other nodes advertise, else the last one used.
pub open spec fn target_spec(
    others: Seq<Endpoint>,
    named: Option<PeerId>,
    remembered: Option<Seq<char>>,
    last: Option<Seq<char>>,
    t: SyncTarget,
) -> bool {
    match named {
        Some(pid) => match first_of(others, pid) {
            Some(i) => t matches SyncTarget::Locator(l) && l@ == others[i].locator@,
            None => match remembered {
                Some(r) => t matches SyncTarget::Locator(l) && l@ == r,
                None => t is NoAddressFor,
            },
        },
        None => if others.len() == 0 {
            match last {
                Some(r) => t matches SyncTarget::Locator(l) && l@ == r,
                None => t is NoBeacons,
            }
        } else if one_address(others) {
            t matches SyncTarget::Locator(l) && l@ == others[0].locator@
        } else {
            t matches SyncTarget::Several(v) && v@.len() == others.len()
        },
    }
}

proof fn lemma_first_of(others: Seq<Endpoint>, peer: PeerId)
    ensures
        first_of(others, peer) matches Some(i) ==> 0 <= i < others.len() && others[i].peer == Some(peer),
        first_of(others, peer) is None ==> forall|j: int| 0 <= j < others.len() ==> (#[trigger] others[j]).peer != Some(peer),
    decreases others.len(),
{
    if others.len() > 0 {
        lemma_first_of(others.drop_last(), peer);
        assert forall|j: int| 0 <= j < others.len() - 1 implies others[j] == others.drop_last()[j] by {}
    }
}

proof fn lemma_first_of_none(others: Seq<Endpoint>, peer: PeerId)
    requires
        forall|j: int| 0 <= j < others.len() ==> (#[trigger] others[j]).peer != Some(peer),
    ensures
        first_of(others, peer) is None,
    decreases others.len(),
{
    if others.len() > 0 {
        assert forall|j: int| 0 <= j < others.len() - 1 implies (#[trigger] others.drop_last()[j]).peer != Some(peer) by {
            assert(others.drop_last()[j] == others[j]);
        }
        lemma_first_of_none(others.drop_last(), peer);
        assert(others.last() == others[others.len() - 1]);
    }
}

proof fn lemma_first_of_min(others: Seq<Endpoint>, peer: PeerId, j: int)
    requires
        0 <= j < others.len(),
        others[j].peer == Some(peer),
        forall|q: int| 0 <= q < j ==> (#[trigger] others[q]).peer != Some(peer),
    ensures
        first_of(others, peer) == Some(j),
    decreases others.len(),
{
    let d = others.drop_last();
    if j < others.len() - 1 {
        assert(d[j] == others[j]);
        assert forall|q: int| 0 <= q < j implies (#[trigger] d[q]).peer != Some(peer) by {
            assert(d[q] == others[q]);
        }
        lemma_first_of_min(d, peer, j);
    } else {
        assert forall|q: int| 0 <= q < d.len() implies (#[trigger] d[q]).peer != Some(peer) by {
            assert(d[q] == others[q]);
        }
        lemma_first_of_none(d, peer);
        assert(others.last() == others[j]);
    }
}

fn copy_endpoint(e: &Endpoint) -> (r: Endpoint)
    ensures
        r.peer == e.peer,
        r.locator@ == e.locator@,
{
    Endpoint { peer: e.peer, locator: crate::text::owned(e.locator.as_str()) }
}

/// Picks the sync target from a LAN scan (see `target_spec`), ignoring this node's own
/// beacons. `named` is the contact asked for, `remembered` the address last seen for it,
/// `last` the address last used.
pub fn sync_target(scan: &[Endpoint], local: &PeerId, named: Option<PeerId>, remembered: Option<String>, last: Option<String>) -> (t: SyncTarget)
    ensures
        target_spec(
            others_of(scan@, *local),
            named,
            match remembered {
                Some(r) => Some(r@),
                None => None,
            },
            match last {
                Some(r) => Some(r@),
                None => None,
            },
            t,
        ),
{
    let mut others: Vec<Endpoint> = Vec::new();
    let mut i: usize = 0;
    while i < scan.len()
        invariant
            i <= scan@.len(),
            others@.len() == others_of(scan@.take(i as int), *local).len(),
            forall|k: int|
                0 <= k < others@.len() ==> (#[trigger] others@[k]).peer == others_of(scan@.take(i as int), *local)[k].peer
                    && others@[k].locator@ == others_of(scan@.take(i as int), *local)[k].locator@,
        decreases scan@.len() - i,
    {
        assert(scan@.take(i + 1).drop_last() =~= scan@.take(i as int));
        let mine = match scan[i].peer {
            Some(p) => p.same(local),
            None => false,
        };
        if !mine {
            others.push(copy_endpoint(&scan[i]));
        }
        i += 1;
    }
    assert(scan@.take(scan@.len() as int) =~= scan@);
    let ghost o = others_of(scan@, *local);
    match named {
        Some(pid) => {
            proof {
                lemma_first_of(o, pid);
            }
            let mut j: usize = 0;
            while j < others.len()
                invariant
                    j <= others@.len() == o.len(),
                    o == others_of(scan@, *local),
                    named == Some(pid),
                    forall|k: int|
                        0 <= k < others@.len() ==> (#[trigger] others@[k]).peer == o[k].peer && others@[k].locator@
                            == o[k].locator@,
                    first_of(o, pid) is None || j as int <= first_of(o, pid)->0,
                    first_of(o, pid) matches Some(f) ==> 0 <= f < o.len() && o[f].peer == Some(pid),
                    first_of(o, pid) is None ==> forall|q: int| 0 <= q < o.len() ==> (#[trigger] o[q]).peer != Some(pid),
                    forall|q: int| 0 <= q < j ==> (#[trigger] o[q]).peer != Some(pid),
                decreases others@.len() - j,
            {
                let hit = match others[j].peer {
                    Some(p) => p.same(&pid),
                    None => false,
                };
                if hit {
                    assert(o[j as int].peer == Some(pid));
                    proof {
                        lemma_first_of_min(o, pid, j as int);
                    }
                    return SyncTarget::Locator(crate::text::owned(others[j].locator.as_str()));
                }
                j += 1;
            }
            assert(first_of(o, pid) is None) by {
                if let Some(f) = first_of(o, pid) {
                    assert(o[f].peer != Some(pid));
                }
            }
            match remembered {
                Some(r) => SyncTarget::Locator(r),
                None => SyncTarget::NoAddressFor,
            }
        },
        None => {
            if others.len() == 0 {
                return match last {
                    Some(r) => SyncTarget::Locator(r),
                    None => SyncTarget::NoBeacons,
                };
            }
            let first = chars_of(others[0].locator.as_str());
            let mut same = true;
            let mut j: usize = 0;
            while j < others.len()
                invariant
                    j <= others@.len() == o.len(),
                    o == others_of(scan@, *local),
                    named is None,
                    others@.len() > 0,
                    first@ == others@[0].locator@,
                    forall|k: int|
                        0 <= k < others@.len() ==> (#[trigger] others@[k]).peer == o[k].peer && others@[k].locator@
                            == o[k].locator@,
                    same <==> forall|q: int| 0 <= q < j ==> (#[trigger] o[q]).locator@ == o[0].locator@,
                decreases others@.len() - j,
            {
                let c = chars_of(others[j].locator.as_str());
                if !crate::text::chars_eq(&c, &first) {
                    same = false;
                }
                j += 1;
            }
            if same {
                SyncTarget::Locator(crate::text::owned(others[0].locator.as_str()))
            } else {
                SyncTarget::Several(others)
            }
        },
    }
}

} // verus!
