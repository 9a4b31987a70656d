//! What the object store records, apart from the database itself: quotas, statistics,
//! encounter rows, the text forms of ownership and trust, and the clock.

use crate::envelope::DropEnvelope;
use crate::error::{coded, fails_with, DdResult, ErrorCode};
use crate::lifecycle::Ownership;
use crate::protocol::envelope::{envelope_check, verify_envelope};
use crate::limits::DEFAULT_STORE_QUOTA;
use crate::hexutil::{hex_encode_chars, hex_of};
use crate::ids::PeerId;
use crate::text::{chars_eq_str, chars_of, push_chars, push_str, string_of};
use crate::trust::TrustState;
use vstd::prelude::*;

verus! {

#[derive(Debug, Clone, Copy)]
pub struct StorageQuotas {
    pub maximum: u64,
    pub reserved_local: u64,
    pub relay_budget: u64,
    pub temporary: u64,
}

impl Default for StorageQuotas {
    fn default() -> (q: Self)
        ensures
            q.maximum == DEFAULT_STORE_QUOTA,
            q.reserved_local == 5 * 1024 * 1024 * 1024,
            q.relay_budget == 10 * 1024 * 1024 * 1024,
            q.temporary == 5 * 1024 * 1024 * 1024,
    {
        Self {
            maximum: DEFAULT_STORE_QUOTA,
            reserved_local: 5 * 1024 * 1024 * 1024,
            relay_budget: 10 * 1024 * 1024 * 1024,
            temporary: 5 * 1024 * 1024 * 1024,
        }
    }
}

#[derive(Debug, Clone, Copy)]
pub struct StoreStats {
    pub objects: u64,
    pub payloads: u64,
    pub chunks: u64,
    pub logical_size: u64,
    pub physical_size: u64,
}

#[derive(Debug, Clone, Copy)]
pub struct EncounterRow {
    pub first_seen: u64,
    pub last_seen: u64,
    pub encounter_count: u64,
    pub bytes_sent: u64,
    pub bytes_received: u64,
    pub successful_forwards: u64,
    pub failed_forwards: u64,
}

/// Text form of an ownership.
pub open spec fn ownership_name(o: Ownership) -> Seq<char> {
    match o {
        Ownership::Local => "local"@,
        Ownership::Incoming => "incoming"@,
        Ownership::Relay => "relay"@,
        Ownership::Temporary => "temporary"@,
    }
}

/// Text form of an ownership, as the store writes it.
pub fn ownership_str(o: Ownership) -> (s: &'static str)
    ensures
        s@ == ownership_name(o),
{
    match o {
        Ownership::Local => "local",
        Ownership::Incoming => "incoming",
        Ownership::Relay => "relay",
        Ownership::Temporary => "temporary",
    }
}

/// The ownership a stored text stands for; anything unknown is a relay copy.
pub open spec fn ownership_of(s: Seq<char>) -> Ownership {
    if s == "local"@ {
        Ownership::Local
    } else if s == "incoming"@ {
        Ownership::Incoming
    } else if s == "temporary"@ {
        Ownership::Temporary
    } else {
        Ownership::Relay
    }
}

/// Reads the text form of an ownership back.
pub fn parse_own(s: &str) -> (o: Ownership)
    ensures
        o == ownership_of(s@),
{
    let cs = chars_of(s);
    if chars_eq_str(&cs, "local") {
        Ownership::Local
    } else if chars_eq_str(&cs, "incoming") {
        Ownership::Incoming
    } else if chars_eq_str(&cs, "temporary") {
        Ownership::Temporary
    } else {
        Ownership::Relay
    }
}

/// The trust a stored text stands for; anything unknown is `Unknown`.
pub open spec fn trust_of(s: Seq<char>) -> TrustState {
    if s == "verified"@ {
        TrustState::Verified
    } else if s == "known"@ {
        TrustState::Known
    } else if s == "blocked"@ {
        TrustState::Blocked
    } else if s == "observed"@ {
        TrustState::Observed
    } else {
        TrustState::Unknown
    }
}

/// Reads the text form of a trust state back.
pub fn parse_trust(s: &str) -> (t: TrustState)
    ensures
        t == trust_of(s@),
{
    let cs = chars_of(s);
    if chars_eq_str(&cs, "verified") {
        TrustState::Verified
    } else if chars_eq_str(&cs, "known") {
        TrustState::Known
    } else if chars_eq_str(&cs, "blocked") {
        TrustState::Blocked
    } else if chars_eq_str(&cs, "observed") {
        TrustState::Observed
    } else {
        TrustState::Unknown
    }
}

/// Seconds since the Unix epoch by the system clock (`SystemTime::now`), or 0 when the clock
/// reads earlier than the epoch. Nothing is stated of the value.
#[verifier::external_body]
pub fn unix_now() -> (t: u64)
{
    match std::time::SystemTime::now().duration_since(std::time::UNIX_EPOCH) {
        Ok(d) => d.as_secs(),
        Err(_) => 0,
    }
}


/// Key under which a peer's encounters by hour of day are kept.
pub open spec fn hist_key_of(peer: PeerId) -> Seq<char> {
    "eh:"@ + hex_of(peer.0@)
}

/// Key under which a peer's encounters by hour of day are kept: `eh:` and the hex of its
/// identifier.
pub fn hist_key(peer: &PeerId) -> (s: String)
    ensures
        s@ == hist_key_of(*peer),
{
    let mut v: Vec<char> = Vec::new();
    push_str(&mut v, "eh:");
    let h = hex_encode_chars(&peer.0);
    push_chars(&mut v, &h);
    string_of(&v)
}

/// The hour of the (UTC) day of a time in seconds.
pub open spec fn hour_of(now: u64) -> int {
    ((now % 86_400) / 3600) as int
}

pub fn hour_of_day(now: u64) -> (h: usize)
    ensures
        h == hour_of(now),
        h < 24,
{
    ((now % 86_400) / 3600) as usize
}

/// The hourly counts held in stored values: the first 24 of them, zero for those missing.
pub fn hist_from(values: &[u32]) -> (h: [u32; 24])
    ensures
        forall|i: int| 0 <= i < 24 ==> h@[i] == (if i < values@.len() { values@[i] } else { 0u32 }),
{
    let mut h = [0u32; 24];
    let mut i: usize = 0;
    while i < 24 && i < values.len()
        invariant
            i <= 24,
            i <= values@.len(),
            forall|k: int| 0 <= k < i ==> h@[k] == values@[k],
            forall|k: int| i <= k < 24 ==> h@[k] == 0u32,
        decreases 24 - i,
    {
        h[i] = values[i];
        i += 1;
    }
    h
}

/// One more encounter counted in the hour of `now`, saturating at `u32::MAX`.
pub fn hist_touch(hist: [u32; 24], now: u64) -> (h: [u32; 24])
    ensures
        h@ == hist@.update(
            hour_of(now),
            if hist@[hour_of(now)] == u32::MAX { u32::MAX } else { (hist@[hour_of(now)] + 1) as u32 },
        ),
{
    let mut h = hist;
    let k = hour_of_day(now);
    h[k] = h[k].saturating_add(1);
    h
}

/// Whether a store with `used` bytes admits an object that brings `incoming` more: the
/// envelope must verify at `now` (failing with its error otherwise), then the total, counted
/// without overflow, must stay within `maximum` (`Dds2001StoreFull` otherwise).
pub fn admit_object(env: &DropEnvelope, used: u64, incoming: u64, maximum: u64, now: u64) -> (r: DdResult<()>)
    ensures
        match envelope_check(*env, now) {
            Err(c) => fails_with(r, c),
            Ok(_) => if used + incoming > maximum {
                fails_with(r, ErrorCode::Dds2001StoreFull)
            } else {
                r is Ok
            },
        },
{
    match verify_envelope(env, now) {
        Err(e) => {
            return Err(e);
        },
        Ok(_) => {},
    }
    if incoming > maximum || used > maximum - incoming {
        return Err(coded(ErrorCode::Dds2001StoreFull, "quota"));
    }
    Ok(())
}

} // verus!
