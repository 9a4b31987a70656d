//! Peer discovery: LAN beacons, the endpoints they reveal, and where locators are remembered.
//! Discovery MUST NOT imply trust. A beacon is a reachability claim only.

use crate::crypto::{be16, u16_be};
use crate::error::{coded, fails_with, DdError, DdResult, ErrorCode};
use crate::hexutil::{hex_encode_chars, hex_of};
use crate::ids::PeerId;
use crate::text::{chars_of, push_chars, push_str, string_of};
use crate::PROTOCOL_VERSION;
use vstd::prelude::*;

verus! {

/// The first four bytes of a beacon: `DDP2`.
pub const BEACON_MAGIC: [u8; 4] = [68u8, 68u8, 80u8, 50u8];

/// Key under which the last LAN locator is remembered.
pub const LAST_LOCATOR_KEY: &'static str = "lan-locator:last";

#[derive(Debug, Clone, PartialEq, Eq)]
pub struct Endpoint {
    pub peer: Option<PeerId>,
    pub locator: String,
}

/// Key under which a peer's LAN locator is remembered.
pub open spec fn locator_key_of(peer: PeerId) -> Seq<char> {
    "lan-locator:"@ + hex_of(peer.0@)
}

/// Key under which a peer's LAN locator is remembered: `lan-locator:` and its hex.
pub fn locator_key(peer: PeerId) -> (s: String)
    ensures
        s@ == locator_key_of(peer),
{
    let mut out: Vec<char> = Vec::new();
    push_str(&mut out, "lan-locator:");
    let h = hex_encode_chars(&peer.0);
    push_chars(&mut out, &h);
    string_of(&out)
}

#[derive(Debug, Clone, Copy)]
pub struct Beacon {
    pub version: u16,
    pub stream_port: u16,
    pub node_id: PeerId,
}

/// The forty bytes of a beacon: magic, version, stream port, node identifier.
pub open spec fn beacon_bytes(b: Beacon) -> Seq<u8> {
    seq![68u8, 68u8, 80u8, 50u8] + be16(b.version) + be16(b.stream_port) + b.node_id.0@
}

/// What decoding bytes as a beacon gives.
pub open spec fn beacon_outcome(bytes: Seq<u8>) -> Result<Beacon, ErrorCode> {
    if bytes.len() < 40 || bytes.take(4) != seq![68u8, 68u8, 80u8, 50u8] {
        Err(ErrorCode::Ddp1001InvalidFrame)
    } else if bytes[4] as u16 * 256 + bytes[5] as u16 != PROTOCOL_VERSION {
        Err(ErrorCode::Ddp1002UnsupportedVersion)
    } else {
        Ok(
            Beacon {
                version: PROTOCOL_VERSION,
                stream_port: (bytes[6] as u16 * 256 + bytes[7] as u16) as u16,
                node_id: PeerId(choose|a: [u8; 32]| a@ == bytes.subrange(8, 40)),
            },
        )
    }
}

impl Beacon {
    /// The beacon's forty bytes.
    pub fn encode(self) -> (b: [u8; 40])
        ensures
            b@ == beacon_bytes(self),
    {
        let mut buf = [0u8; 40];
        let v = u16_be(self.version);
        let p = u16_be(self.stream_port);
        let mut i: usize = 0;
        while i < 40
            invariant
                i <= 40,
                v@ == be16(self.version),
                p@ == be16(self.stream_port),
                forall|k: int| 0 <= k < i ==> buf@[k] == beacon_bytes(self)[k],
            decreases 40 - i,
        {
            let byte = if i < 4 {
                BEACON_MAGIC[i]
            } else if i < 6 {
                v[i - 4]
            } else if i < 8 {
                p[i - 6]
            } else {
                self.node_id.0[i - 8]
            };
            buf[i] = byte;
            i += 1;
        }
        assert(buf@ =~= beacon_bytes(self));
        buf
    }

    /// Reads a beacon: fewer than forty bytes or the wrong magic fails with
    /// `Ddp1001InvalidFrame`, another protocol version with `Ddp1002UnsupportedVersion`.
    pub fn decode(bytes: &[u8]) -> (r: DdResult<Self>)
        ensures
            match beacon_outcome(bytes@) {
                Ok(b) => r matches Ok(x) && x.version == b.version && x.stream_port == b.stream_port
                    && x.node_id.0@ == bytes@.subrange(8, 40),
                Err(c) => fails_with(r, c),
            },
    {
        if bytes.len() < 40 || bytes[0] != 68u8 || bytes[1] != 68u8 || bytes[2] != 80u8 || bytes[3]
            != 50u8 {
            proof {
                if bytes@.len() >= 40 {
                    let m = seq![68u8, 68u8, 80u8, 50u8];
                    if bytes@.take(4) == m {
                        assert(bytes@.take(4)[0] == m[0]);
                        assert(bytes@.take(4)[1] == m[1]);
                        assert(bytes@.take(4)[2] == m[2]);
                        assert(bytes@.take(4)[3] == m[3]);
                    }
                }
            }
            return Err(DdError::invalid_frame(crate::text::owned("beacon")));
        }
        assert(bytes@.take(4) =~= seq![68u8, 68u8, 80u8, 50u8]);
        let version = bytes[4] as u16 * 256 + bytes[5] as u16;
        if version != PROTOCOL_VERSION {
            return Err(coded(ErrorCode::Ddp1002UnsupportedVersion, "beacon"));
        }
        let stream_port = bytes[6] as u16 * 256 + bytes[7] as u16;
        let mut id = [0u8; 32];
        let mut i: usize = 0;
        while i < 32
            invariant
                i <= 32,
                bytes@.len() >= 40,
                forall|k: int| 0 <= k < i ==> id@[k] == bytes@[k + 8],
            decreases 32 - i,
        {
            id[i] = bytes[i + 8];
            i += 1;
        }
        assert(id@ =~= bytes@.subrange(8, 40));
        Ok(Beacon { version, stream_port, node_id: PeerId::from_digest(id) })
    }
}

/// A beacon of this protocol version reads back as itself.
pub proof fn lemma_beacon_roundtrip(b: Beacon)
    requires
        b.version == PROTOCOL_VERSION,
    ensures
        beacon_outcome(beacon_bytes(b)) is Ok,
        beacon_outcome(beacon_bytes(b))->Ok_0.version == b.version,
        beacon_outcome(beacon_bytes(b))->Ok_0.stream_port == b.stream_port,
        beacon_bytes(b).subrange(8, 40) == b.node_id.0@,
{
    let bs = beacon_bytes(b);
    assert(bs.take(4) =~= seq![68u8, 68u8, 80u8, 50u8]);
    assert(bs.subrange(8, 40) =~= b.node_id.0@);
    let v = b.version;
    let p = b.stream_port;
    assert(bs[4] == be16(v)[0] && bs[5] == be16(v)[1]);
    assert(bs[6] == be16(p)[0] && bs[7] == be16(p)[1]);
    assert((((v >> 8u16) as u8) as u16) * 256 + (v as u8) as u16 == v) by (bit_vector);
    assert((((p >> 8u16) as u8) as u16) * 256 + (p as u8) as u16 == p) by (bit_vector);
}

/// The two endpoints name the same peer (or both none) at the same locator.
pub open spec fn same_endpoint(a: Endpoint, b: Endpoint) -> bool {
    a.peer == b.peer && a.locator@ == b.locator@
}

/// `s` holds an endpoint the same as `e`.
pub open spec fn holds_endpoint(s: Seq<Endpoint>, e: Endpoint) -> bool {
    exists|i: int| 0 <= i < s.len() && same_endpoint(#[trigger] s[i], e)
}

/// The endpoints of `s` without repeats, each at its first occurrence.
pub open spec fn deduped(s: Seq<Endpoint>) -> Seq<Endpoint>
    decreases s.len(),
{
    if s.len() == 0 {
        Seq::empty()
    } else {
        let d = deduped(s.drop_last());
        if holds_endpoint(d, s.last()) {
            d
        } else {
            d.push(s.last())
        }
    }
}

fn peer_opt_eq(a: &Option<PeerId>, b: &Option<PeerId>) -> (r: bool)
    ensures
        r == (*a == *b),
{
    match (a, b) {
        (Some(x), Some(y)) => x.same(y),
        (None, None) => true,
        _ => false,
    }
}

/// Keeps one endpoint per peer and locator, the first of each, in order.
pub fn dedupe_endpoints(eps: Vec<Endpoint>) -> (r: Vec<Endpoint>)
    ensures
        r@ == deduped(eps@),
{
    let ghost all = eps@;
    let n = eps.len();
    let mut rest = eps;
    let mut out: Vec<Endpoint> = Vec::new();
    let mut k: usize = 0;
    while rest.len() > 0
        invariant
            k <= all.len(),
            all.len() == n,
            rest@ == all.skip(k as int),
            out@ == deduped(all.take(k as int)),
        decreases rest@.len(),
    {
        let e = rest.remove(0);
        let el = chars_of(e.locator.as_str());
        let mut seen = false;
        let mut j: usize = 0;
        while j < out.len()
            invariant
                j <= out@.len(),
                el@ == e.locator@,
                seen == (exists|i: int| 0 <= i < j && same_endpoint(#[trigger] out@[i], e)),
            decreases out@.len() - j,
        {
            let ol = chars_of(out[j].locator.as_str());
            if peer_opt_eq(&out[j].peer, &e.peer) && crate::text::chars_eq(&ol, &el) {
                seen = true;
                assert(same_endpoint(out@[j as int], e));
            }
            j += 1;
        }
        proof {
            let t = all.take(k + 1);
            assert(t.drop_last() =~= all.take(k as int));
            assert(e == all[k as int]);
            assert(t.last() == e);
            assert(seen == holds_endpoint(out@, e));
        }
        if !seen {
            out.push(e);
        }
        k += 1;
        assert(rest@ =~= all.skip(k as int));
    }
    assert(all.take(all.len() as int) =~= all);
    out
}

/// LAN discovery over UDP broadcast on `port`. Sockets are the application's.
#[derive(Debug, Clone, Copy)]
pub struct LanDiscovery {
    pub port: u16,
}

impl LanDiscovery {
    pub fn name(&self) -> (s: &'static str)
        ensures
            s@ == "lan"@,
    {
        "lan"
    }
}

/// Where a beacon's sender takes sync sessions: its address and the port it announced.
pub fn beacon_locator(ip: &str, stream_port: u16) -> (s: String)
    ensures
        s@ == ip@ + ":"@ + crate::report::dec(stream_port as nat),
{
    let mut v: Vec<char> = Vec::new();
    crate::text::push_str(&mut v, ip);
    crate::text::push_str(&mut v, ":");
    let d = crate::report::decimal(stream_port as u64);
    crate::text::push_chars(&mut v, &d);
    crate::text::string_of(&v)
}

} // verus!
