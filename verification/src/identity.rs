//! Contacts, their cards and fingerprints, identity rotation, and identity files.

use crate::chunk::copy_range;
use crate::crypto::{be64, identity_outcome, u64_be, verify_identity, DefaultProvider, PrivateIdentity};
use crate::envelope::PublicIdentity;
use crate::error::{coded, err_code, fails_with, DdError, DdResult, ErrorCode};
use crate::hexutil::{hex_bytes, hex_decode, hex_encode, hex_of, lemma_hex_of_len, lemma_hex_roundtrip};
use crate::ids::{bytes32, peer_text, HashAlgorithm, PeerId};
use crate::primitives::{blake3_digest, ed25519_accepts, ed25519_public, ed25519_signature};
use crate::text::{
    ascii_bytes, ascii_bytes_of, chars_eq, chars_eq_str, chars_of, lower, lower_chars, push_all,
    push_chars, push_str, starts_with, starts_with_chars, string_of, strip_prefix,
    strip_prefix_chars, sub_chars, trim, trim_chars, upper, upper_chars,
};
use crate::trust::TrustState;
use vstd::prelude::*;

verus! {

#[derive(Debug, Clone)]
pub struct ContactCard {
    pub name: Option<String>,
    pub identity: String,
    pub fingerprint: String,
    pub capabilities: Vec<String>,
    pub public: PublicIdentity,
}

/// Short fingerprint of a public identity: hex of the first eight bytes of BLAKE3 over its
/// two keys.
pub open spec fn fingerprint_of(p: PublicIdentity) -> Seq<char> {
    hex_of(blake3_digest(ascii_bytes("ddp-fp-v2"@) + p.ed25519_pk@ + p.x25519_pk@).take(8))
}

/// Human-comparable form `DD-7F91-22BA` of a fingerprint.
pub open spec fn display_of(p: PublicIdentity) -> Seq<char> {
    let h = upper(fingerprint_of(p));
    if h.len() >= 8 {
        "DD-"@ + h.take(4) + "-"@ + h.subrange(4, 8)
    } else {
        "DD-"@ + h
    }
}

/// The fingerprint of a public identity, as lower-case hex.
pub fn fingerprint(public: &PublicIdentity) -> (s: String)
    ensures
        s@ == fingerprint_of(*public),
        s@.len() == 16,
{
    let mut buf = ascii_bytes_of("ddp-fp-v2");
    push_all(&mut buf, &public.ed25519_pk);
    push_all(&mut buf, &public.x25519_pk);
    let d = DefaultProvider.hash(HashAlgorithm::Blake3, &buf);
    let head = copy_range(&d.0, 0, 8);
    assert(head@ =~= d.0@.take(8));
    proof {
        crate::hexutil::lemma_hex_of_len(head@);
    }
    hex_encode(&head)
}

/// Human-comparable form `DD-7F91-22BA`. The cryptographic identity remains `dd:`.
pub fn display_fingerprint(public: &PublicIdentity) -> (s: String)
    ensures
        s@ == display_of(*public),
        s@ == "DD-"@ + upper(fingerprint_of(*public)).take(4) + "-"@ + upper(fingerprint_of(*public)).subrange(
            4,
            8,
        ),
        s@.len() == 12,
{
    let f = fingerprint(public);
    let raw = chars_of(f.as_str());
    let h = upper_chars(&raw);
    let mut out: Vec<char> = Vec::new();
    push_str(&mut out, "DD-");
    if h.len() >= 8 {
        let a = sub_chars(&h, 0, 4);
        let b = sub_chars(&h, 4, 8);
        push_chars(&mut out, &a);
        push_str(&mut out, "-");
        push_chars(&mut out, &b);
        assert(h@.take(4) =~= h@.subrange(0, 4));
    } else {
        push_chars(&mut out, &h);
    }
    proof {
        reveal_strlit("DD-");
        reveal_strlit("-");
    }
    string_of(&out)
}

/// The parts joined with `sep` between each two.
pub open spec fn joined(parts: Seq<Seq<char>>, sep: char) -> Seq<char>
    decreases parts.len(),
{
    if parts.len() == 0 {
        Seq::empty()
    } else if parts.len() == 1 {
        parts[0]
    } else {
        joined(parts.drop_last(), sep) + seq![sep] + parts.last()
    }
}

/// The text form of a contact card.
pub open spec fn card_text(c: ContactCard) -> Seq<char> {
    "DD Contact\nName: "@ + match c.name {
        Some(n) => n@,
        None => Seq::empty(),
    } + "\nIdentity: "@ + c.identity@ + "\nFingerprint: "@ + c.fingerprint@ + "\nCapabilities: "@
        + joined(crate::caps::texts(c.capabilities@), ',') + "\n"@
}

impl ContactCard {
    /// A card for a public identity whose self-signature checks, under an optional name.
    pub fn from_public(name: Option<String>, public: PublicIdentity) -> (r: DdResult<Self>)
        ensures
            match identity_outcome(public) {
                Err(c) => fails_with(r, c),
                Ok(pid) => r matches Ok(card) && card.name == name && card.identity@ == peer_text(pid)
                    && card.fingerprint@ == fingerprint_of(public) && card.capabilities@.len() == 0
                    && card.public == public,
            },
    {
        let peer = match verify_identity(&public) {
            Err(e) => {
                return Err(e);
            },
            Ok(p) => p,
        };
        let fp = fingerprint(&public);
        Ok(
            ContactCard {
                name,
                identity: peer.to_string(),
                fingerprint: fp,
                capabilities: Vec::new(),
                public,
            },
        )
    }

    /// The card as text: name, identity, fingerprint and capabilities, one per line.
    pub fn to_text(&self) -> (s: String)
        ensures
            s@ == card_text(*self),
    {
        let mut out: Vec<char> = Vec::new();
        push_str(&mut out, "DD Contact\nName: ");
        match &self.name {
            Some(n) => {
                let cs = chars_of(n.as_str());
                push_chars(&mut out, &cs);
            },
            None => {},
        }
        push_str(&mut out, "\nIdentity: ");
        let id = chars_of(self.identity.as_str());
        push_chars(&mut out, &id);
        push_str(&mut out, "\nFingerprint: ");
        let fp = chars_of(self.fingerprint.as_str());
        push_chars(&mut out, &fp);
        push_str(&mut out, "\nCapabilities: ");
        let ghost head = out@;
        let mut k: usize = 0;
        while k < self.capabilities.len()
            invariant
                k <= self.capabilities@.len(),
                out@ == head + joined(crate::caps::texts(self.capabilities@).take(k as int), ','),
            decreases self.capabilities@.len() - k,
        {
            let ghost parts = crate::caps::texts(self.capabilities@).take(k + 1);
            assert(parts.drop_last() =~= crate::caps::texts(self.capabilities@).take(k as int));
            assert(parts.last() == self.capabilities@[k as int]@);
            if k > 0 {
                let mut sep: Vec<char> = Vec::new();
                sep.push(',');
                push_chars(&mut out, &sep);
            } else {
                assert(parts =~= seq![parts.last()]);
            }
            let cs = chars_of(self.capabilities[k].as_str());
            push_chars(&mut out, &cs);
            k += 1;
        }
        assert(crate::caps::texts(self.capabilities@).take(self.capabilities@.len() as int)
            =~= crate::caps::texts(self.capabilities@));
        push_str(&mut out, "\n");
        string_of(&out)
    }

    /// The node identifier of the card's public identity, when its self-signature checks.
    pub fn peer_id(&self) -> (r: DdResult<PeerId>)
        ensures
            match identity_outcome(self.public) {
                Err(c) => fails_with(r, c),
                Ok(pid) => r matches Ok(p) && p.0@ == pid,
            },
    {
        verify_identity(&self.public)
    }
}

/// Text contact cards carry no public keys, so they are refused with `Ddp1001InvalidFrame`.
pub fn parse_text_card(s: &str) -> (r: DdResult<ContactCard>)
    ensures
        fails_with(r, ErrorCode::Ddp1001InvalidFrame),
{
    Err(coded(ErrorCode::Ddp1001InvalidFrame, "text contacts require JSON public keys"))
}

#[derive(Debug, Clone)]
pub struct Contact {
    pub card: ContactCard,
    pub trust: TrustState,
}

/// Contacts keyed by node identifier, each identifier at most once.
pub struct ContactBook {
    inner: Vec<(PeerId, Contact)>,
}

/// Position of the first entry for `id` from position `i` on.
pub open spec fn first_index(es: Seq<(PeerId, Contact)>, id: PeerId, i: nat) -> Option<int>
    decreases es.len() - i,
{
    if i >= es.len() {
        None
    } else if es[i as int].0 == id {
        Some(i as int)
    } else {
        first_index(es, id, i + 1)
    }
}

/// Position of the entry for `id`, if there is one.
pub open spec fn index_of(es: Seq<(PeerId, Contact)>, id: PeerId) -> Option<int> {
    first_index(es, id, 0)
}

proof fn lemma_first_index(es: Seq<(PeerId, Contact)>, id: PeerId, i: nat)
    ensures
        first_index(es, id, i) matches Some(k) ==> i <= k < es.len() && es[k].0 == id,
        first_index(es, id, i) is None ==> forall|j: int| i <= j < es.len() ==> (#[trigger] es[j]).0 != id,
    decreases es.len() - i,
{
    if i < es.len() && es[i as int].0 != id {
        lemma_first_index(es, id, i + 1);
    }
}

/// `es` with the entry for `id` set to `c`: replaced where it is, appended otherwise.
pub open spec fn put(es: Seq<(PeerId, Contact)>, id: PeerId, c: Contact) -> Seq<(PeerId, Contact)> {
    match index_of(es, id) {
        Some(i) => es.update(i, (id, c)),
        None => es.push((id, c)),
    }
}

/// No identifier occurs twice.
/// The contact stored under `id`, if any.
pub open spec fn lookup(es: Seq<(PeerId, Contact)>, id: PeerId) -> Option<Contact> {
    match index_of(es, id) {
        Some(i) => Some(es[i].1),
        None => None,
    }
}

proof fn lemma_first_index_push(es: Seq<(PeerId, Contact)>, e: (PeerId, Contact), id: PeerId, i: nat)
    requires
        i <= es.len(),
    ensures
        first_index(es.push(e), id, i) == (match first_index(es, id, i) {
            Some(k) => Some(k),
            None => if e.0 == id { Some(es.len() as int) } else { None },
        }),
    decreases es.len() - i,
{
    if i < es.len() {
        assert(es.push(e)[i as int] == es[i as int]);
        lemma_first_index_push(es, e, id, i + 1);
    } else {
        assert(es.push(e)[i as int] == e);
        assert(first_index(es.push(e), id, i + 1) is None);
    }
}

proof fn lemma_first_index_update(es: Seq<(PeerId, Contact)>, k: int, c: Contact, id: PeerId, i: nat)
    requires
        0 <= k < es.len(),
        i <= es.len(),
    ensures
        first_index(es.update(k, (es[k].0, c)), id, i) == first_index(es, id, i),
    decreases es.len() - i,
{
    if i < es.len() {
        lemma_first_index_update(es, k, c, id, i + 1);
    }
}

/// Storing a contact under `id` is read back under `id`, and leaves every other identifier's
/// contact as it was.
pub proof fn lemma_put_then_lookup(es: Seq<(PeerId, Contact)>, id: PeerId, c: Contact, other: PeerId)
    ensures
        lookup(put(es, id, c), id) == Some(c),
        other != id ==> lookup(put(es, id, c), other) == lookup(es, other),
{
    lemma_first_index(es, id, 0);
    match index_of(es, id) {
        Some(k) => {
            assert(es[k].0 == id);
            lemma_first_index_update(es, k, c, id, 0);
            lemma_first_index_update(es, k, c, other, 0);
            lemma_first_index(es, other, 0);
            assert(put(es, id, c) == es.update(k, (es[k].0, c)));
            match index_of(es, other) {
                Some(j) => {
                    if other != id {
                        assert(j != k);
                    }
                },
                None => {},
            }
        },
        None => {
            lemma_first_index_push(es, (id, c), id, 0);
            lemma_first_index_push(es, (id, c), other, 0);
            lemma_first_index(es, other, 0);
        },
    }
}

pub open spec fn keys_unique(es: Seq<(PeerId, Contact)>) -> bool {
    forall|i: int, j: int| 0 <= i < es.len() && 0 <= j < es.len() && i != j ==> es[i].0 != es[j].0
}

impl ContactBook {
    /// The entries, in the order they were added.
    pub closed spec fn entries(&self) -> Seq<(PeerId, Contact)> {
        self.inner@
    }

    /// Each identifier has at most one entry.
    pub open spec fn wf(&self) -> bool {
        keys_unique(self.entries())
    }

    fn find(&self, id: &PeerId) -> (r: Option<usize>)
        ensures
            r matches Some(i) ==> index_of(self.entries(), *id) == Some(i as int),
            r is None ==> index_of(self.entries(), *id) is None,
            r matches Some(i) ==> i < self.entries().len() && self.entries()[i as int].0 == *id,
            r is None ==> forall|j: int| 0 <= j < self.entries().len() ==> (#[trigger] self.entries()[j]).0 != *id,
    {
        proof {
            lemma_first_index(self.inner@, *id, 0);
        }
        let mut i: usize = 0;
        while i < self.inner.len()
            invariant
                i <= self.inner@.len(),
                forall|j: int| 0 <= j < i ==> (#[trigger] self.inner@[j]).0 != *id,
                first_index(self.inner@, *id, 0) == first_index(self.inner@, *id, i as nat),
            decreases self.inner@.len() - i,
        {
            if self.inner[i].0.same(id) {
                assert(self.inner@[i as int].0 == *id);
                return Some(i);
            }
            i += 1;
        }
        None
    }

    /// Adds or replaces a contact under the identifier of its card, which must check; an
    /// `Unknown` trust becomes `Known`.
    pub fn insert(&mut self, contact: Contact) -> (r: DdResult<PeerId>)
        ensures
            old(self).wf() ==> final(self).wf(),
            match identity_outcome(contact.card.public) {
                Err(c) => fails_with(r, c) && final(self).entries() == old(self).entries(),
                Ok(pid) => r matches Ok(id) && id.0@ == pid && final(self).entries() == put(
                    old(self).entries(),
                    id,
                    Contact {
                        card: contact.card,
                        trust: if contact.trust == TrustState::Unknown {
                            TrustState::Known
                        } else {
                            contact.trust
                        },
                    },
                ),
            },
    {
        let id = match contact.card.peer_id() {
            Err(e) => {
                return Err(e);
            },
            Ok(p) => p,
        };
        let mut contact = contact;
        if contact.trust == TrustState::Unknown {
            contact.trust = TrustState::Known;
        }
        match self.find(&id) {
            Some(i) => {
                self.inner.set(i, (id, contact));
            },
            None => {
                self.inner.push((id, contact));
            },
        }
        proof {
            if old(self).wf() {
                assert forall|a: int, b: int|
                    0 <= a < self.inner@.len() && 0 <= b < self.inner@.len() && a != b implies self.inner@[a].0
                    != self.inner@[b].0 by {
                    if a < old(self).inner@.len() && b < old(self).inner@.len() {
                        if self.inner@[a].0 == id {
                            assert(old(self).inner@[a].0 == id || self.inner@[a] == (id, contact));
                        }
                    }
                }
            }
        }
        Ok(id)
    }

    /// Records a public identity seen on the wire: its self-signature must check; an unknown
    /// identifier is added as `Observed`, a known one is left as it is.
    pub fn observe(&mut self, public: PublicIdentity) -> (r: DdResult<PeerId>)
        ensures
            old(self).wf() ==> final(self).wf(),
            match identity_outcome(public) {
                Err(c) => fails_with(r, c) && final(self).entries() == old(self).entries(),
                Ok(pid) => r matches Ok(id) && id.0@ == pid && (index_of(old(self).entries(), id) is Some
                    ==> final(self).entries() == old(self).entries()) && (index_of(old(self).entries(), id) is None
                    ==> final(self).entries().len() == old(self).entries().len() + 1
                    && final(self).entries().take(old(self).entries().len() as int) == old(self).entries()
                    && final(self).entries().last().0 == id
                    && final(self).entries().last().1.trust == TrustState::Observed
                    && final(self).entries().last().1.card.public == public
                    && final(self).entries().last().1.card.name is None),
            },
    {
        let id = match verify_identity(&public) {
            Err(e) => {
                return Err(e);
            },
            Ok(p) => p,
        };
        match self.find(&id) {
            Some(_) => {},
            None => {
                let card = match ContactCard::from_public(None, public) {
                    Ok(c) => c,
                    Err(e) => {
                        return Err(e);
                    },
                };
                self.inner.push((id, Contact { card, trust: TrustState::Observed }));
                assert(self.inner@.take(old(self).inner@.len() as int) =~= old(self).inner@);
                proof {
                    if old(self).wf() {
                        assert forall|a: int, b: int|
                            0 <= a < self.inner@.len() && 0 <= b < self.inner@.len() && a != b implies self.inner@[a].0
                            != self.inner@[b].0 by {
                            if a < old(self).inner@.len() && b < old(self).inner@.len() {
                                assert(self.inner@[a] == old(self).inner@[a]);
                                assert(self.inner@[b] == old(self).inner@[b]);
                            }
                        }
                    }
                }
            },
        }
        Ok(id)
    }

    /// The contact for an identifier.
    pub fn get(&self, id: &PeerId) -> (r: Option<&Contact>)
        ensures
            match index_of(self.entries(), *id) {
                Some(i) => r == Some(&self.entries()[i].1),
                None => r is None,
            },
    {
        match self.find(id) {
            Some(i) => Some(&self.inner[i].1),
            None => None,
        }
    }

    /// The contact for an identifier, to change in place. Its identifier cannot change, so
    /// the book keeps one entry per identifier.
    pub fn get_mut(&mut self, id: &PeerId) -> (r: Option<&mut Contact>)
        ensures
            old(self).wf() ==> final(self).wf(),
            match index_of(old(self).entries(), *id) {
                Some(i) => r is Some && *r->0 == old(self).entries()[i].1 && final(self).entries()
                    == old(self).entries().update(i, (*id, *final(r->0))),
                None => r is None && final(self).entries() == old(self).entries(),
            },
    {
        match self.find(id) {
            Some(i) => {
                proof {
                    lemma_first_index(self.inner@, *id, 0);
                }
                let entry = &mut self.inner[i];
                Some(&mut entry.1)
            },
            None => None,
        }
    }

    /// Sets the trust of the contact for an identifier, when there is one.
    pub fn set_trust(&mut self, id: &PeerId, trust: TrustState)
        ensures
            old(self).wf() ==> final(self).wf(),
            match index_of(old(self).entries(), *id) {
                Some(i) => final(self).entries() == old(self).entries().update(
                    i,
                    (*id, Contact { card: old(self).entries()[i].1.card, trust }),
                ),
                None => final(self).entries() == old(self).entries(),
            },
    {
        match self.find(id) {
            Some(i) => {
                let (key, c) = self.inner.remove(i);
                let updated = Contact { card: c.card, trust };
                self.inner.insert(i, (key, updated));
                assert(self.inner@ =~= old(self).inner@.update(
                    i as int,
                    (*id, Contact { card: old(self).inner@[i as int].1.card, trust }),
                ));
            },
            None => {},
        }
    }

    /// All entries, in the order they were added.
    pub fn all(&self) -> (r: &[(PeerId, Contact)])
        ensures
            r@ == self.entries(),
    {
        self.inner.as_slice()
    }
}

impl Default for ContactBook {
    fn default() -> (b: Self)
        ensures
            b.entries() == Seq::<(PeerId, Contact)>::empty(),
            b.wf(),
    {
        ContactBook { inner: Vec::new() }
    }
}


/// The entry is not blocked and its card's name equals `raw` up to ASCII case.
pub open spec fn name_hit(e: (PeerId, Contact), raw: Seq<char>) -> bool {
    e.1.trust != TrustState::Blocked && (e.1.card.name matches Some(n) && lower(n@) == lower(raw))
}

/// The entry is not blocked and the hex of its identifier starts with `rest`.
pub open spec fn prefix_hit(e: (PeerId, Contact), rest: Seq<char>) -> bool {
    e.1.trust != TrustState::Blocked && starts_with(hex_of(e.0.0@), rest)
}

/// How many entries are named `raw`.
pub open spec fn count_named(es: Seq<(PeerId, Contact)>, raw: Seq<char>) -> nat
    decreases es.len(),
{
    if es.len() == 0 {
        0
    } else {
        count_named(es.drop_last(), raw) + if name_hit(es.last(), raw) { 1nat } else { 0nat }
    }
}

/// Position of the last entry named `raw` (-1 when there is none).
pub open spec fn last_named(es: Seq<(PeerId, Contact)>, raw: Seq<char>) -> int
    decreases es.len(),
{
    if es.len() == 0 {
        -1
    } else if name_hit(es.last(), raw) {
        es.len() - 1
    } else {
        last_named(es.drop_last(), raw)
    }
}

/// How many entries have an identifier starting with `rest`.
pub open spec fn count_prefixed(es: Seq<(PeerId, Contact)>, rest: Seq<char>) -> nat
    decreases es.len(),
{
    if es.len() == 0 {
        0
    } else {
        count_prefixed(es.drop_last(), rest) + if prefix_hit(es.last(), rest) { 1nat } else { 0nat }
    }
}

/// Position of the last entry whose identifier starts with `rest` (-1 when there is none).
pub open spec fn last_prefixed(es: Seq<(PeerId, Contact)>, rest: Seq<char>) -> int
    decreases es.len(),
{
    if es.len() == 0 {
        -1
    } else if prefix_hit(es.last(), rest) {
        es.len() - 1
    } else {
        last_prefixed(es.drop_last(), rest)
    }
}

/// The hex prefix a peer text stands for: without `dd:`, in lower case.
pub open spec fn prefix_text(raw: Seq<char>) -> Seq<char> {
    lower(
        match strip_prefix(raw, "dd:"@) {
            Some(r) => r,
            None => raw,
        },
    )
}

/// What resolving a peer text against the entries gives: a unique unblocked contact of that
/// name (ignoring ASCII case), else a unique unblocked contact whose identifier's hex starts
/// with the text (at least 8 hex digits, `dd:` optional).
pub open spec fn resolve_outcome(es: Seq<(PeerId, Contact)>, spec: Seq<char>) -> Result<
    (PeerId, PublicIdentity),
    ErrorCode,
> {
    let raw = trim(spec);
    if raw.len() == 0 {
        Err(ErrorCode::Ddi5001UnknownContact)
    } else if count_named(es, raw) == 1 {
        let i = last_named(es, raw);
        Ok((es[i].0, es[i].1.card.public))
    } else if count_named(es, raw) > 1 {
        Err(ErrorCode::Ddp1005BadIdentifier)
    } else if prefix_text(raw).len() < 8 {
        Err(ErrorCode::Ddi5001UnknownContact)
    } else if count_prefixed(es, prefix_text(raw)) == 1 {
        let i = last_prefixed(es, prefix_text(raw));
        Ok((es[i].0, es[i].1.card.public))
    } else if count_prefixed(es, prefix_text(raw)) == 0 {
        Err(ErrorCode::Ddi5001UnknownContact)
    } else {
        Err(ErrorCode::Ddp1005BadIdentifier)
    }
}

proof fn lemma_last_named(es: Seq<(PeerId, Contact)>, raw: Seq<char>)
    ensures
        count_named(es, raw) > 0 ==> 0 <= last_named(es, raw) < es.len(),
        count_named(es, raw) > 0 ==> name_hit(es[last_named(es, raw)], raw),
    decreases es.len(),
{
    if es.len() > 0 {
        lemma_last_named(es.drop_last(), raw);
    }
}

proof fn lemma_last_prefixed(es: Seq<(PeerId, Contact)>, rest: Seq<char>)
    ensures
        count_prefixed(es, rest) > 0 ==> 0 <= last_prefixed(es, rest) < es.len(),
        count_prefixed(es, rest) > 0 ==> prefix_hit(es[last_prefixed(es, rest)], rest),
    decreases es.len(),
{
    if es.len() > 0 {
        lemma_last_prefixed(es.drop_last(), rest);
    }
}

/// Resolving never yields a blocked contact: whenever a peer text resolves to a peer and a
/// public identity, by name or by identifier prefix, the contact book holds an entry for that
/// peer whose trust is not `Blocked` and whose card carries that public identity.
pub proof fn lemma_resolved_not_blocked(es: Seq<(PeerId, Contact)>, spec: Seq<char>)
    ensures
        resolve_outcome(es, spec) is Ok ==> exists|i: int|
            0 <= i < es.len() && es[i].0 == resolve_outcome(es, spec)->Ok_0.0
                && es[i].1.trust != TrustState::Blocked
                && es[i].1.card.public == resolve_outcome(es, spec)->Ok_0.1,
{
    let raw = trim(spec);
    lemma_last_named(es, raw);
    lemma_last_prefixed(es, prefix_text(raw));
    if resolve_outcome(es, spec) is Ok {
        if count_named(es, raw) == 1 {
            let i = last_named(es, raw);
            assert(es[i].1.trust != TrustState::Blocked);
        } else {
            let i = last_prefixed(es, prefix_text(raw));
            assert(es[i].1.trust != TrustState::Blocked);
        }
    }
}

/// In a contact book whose identifiers are unique, the contact looked up under a resolved
/// peer is not blocked and carries the resolved public identity.
pub proof fn lemma_resolved_lookup(es: Seq<(PeerId, Contact)>, spec: Seq<char>)
    requires
        keys_unique(es),
    ensures
        resolve_outcome(es, spec) is Ok ==> (lookup(es, resolve_outcome(es, spec)->Ok_0.0) matches Some(c)
            && c.trust != TrustState::Blocked && c.card.public == resolve_outcome(es, spec)->Ok_0.1),
{
    lemma_resolved_not_blocked(es, spec);
    if resolve_outcome(es, spec) is Ok {
        let p = resolve_outcome(es, spec)->Ok_0.0;
        let i = choose|i: int|
            0 <= i < es.len() && es[i].0 == p
                && es[i].1.trust != TrustState::Blocked
                && es[i].1.card.public == resolve_outcome(es, spec)->Ok_0.1;
        lemma_first_index(es, p, 0);
        assert(index_of(es, p) == Some(i));
    }
}

impl ContactBook {
    /// Resolves a peer by contact name or by identifier prefix. An empty text, a short prefix
    /// or no match fails with `Ddi5001UnknownContact`; more than one match with
    /// `Ddp1005BadIdentifier`. Blocked contacts never match.
    pub fn resolve(&self, spec: &str) -> (r: DdResult<(PeerId, PublicIdentity)>)
        ensures
            match resolve_outcome(self.entries(), spec@) {
                Ok(v) => r == Ok::<(PeerId, PublicIdentity), DdError>(v),
                Err(c) => fails_with(r, c),
            },
    {
        let es = &self.inner;
        let ghost ev = es@;
        let text = chars_of(spec);
        let raw = trim_chars(&text);
        if raw.len() == 0 {
            return Err(coded(ErrorCode::Ddi5001UnknownContact, "empty peer"));
        }
        let raw_low = lower_chars(&raw);
        let mut count: usize = 0;
        let mut hit: usize = 0;
        let mut i: usize = 0;
        while i < es.len()
            invariant
                ev == es@,
                raw_low@ == lower(raw@),
                i <= ev.len(),
                count <= i,
                count == count_named(ev.take(i as int), raw@),
                count > 0 ==> hit < i && hit as int == last_named(ev.take(i as int), raw@),
            decreases ev.len() - i,
        {
            let e = &es[i];
            let mut named = false;
            if e.1.trust != TrustState::Blocked {
                match &e.1.card.name {
                    Some(n) => {
                        let ncs = chars_of(n.as_str());
                        let nl = lower_chars(&ncs);
                        named = chars_eq(&nl, &raw_low);
                    },
                    None => {},
                }
            }
            proof {
                let t = ev.take(i + 1);
                assert(t.drop_last() =~= ev.take(i as int));
                assert(t.last() == ev[i as int]);
                assert(named == name_hit(ev[i as int], raw@));
            }
            if named {
                count += 1;
                hit = i;
            }
            i += 1;
        }
        assert(ev.take(ev.len() as int) =~= ev);
        if count == 1 {
            return Ok((es[hit].0, es[hit].1.card.public));
        }
        if count > 1 {
            return Err(coded(ErrorCode::Ddp1005BadIdentifier, "ambiguous contact name"));
        }
        let mut dd: Vec<char> = Vec::new();
        dd.push('d');
        dd.push('d');
        dd.push(':');
        assert(dd@ =~= "dd:"@) by {
            reveal_strlit("dd:");
        }
        let stripped = match strip_prefix_chars(&raw, &dd) {
            Some(r) => r,
            None => raw,
        };
        let rest = lower_chars(&stripped);
        assert(rest@ == prefix_text(raw@));
        if rest.len() < 8 {
            return Err(coded(ErrorCode::Ddi5001UnknownContact, "unknown name (import a .ddcontact, or use dd: plus at least 8 hex chars)"));
        }
        let mut count: usize = 0;
        let mut hit: usize = 0;
        let mut i: usize = 0;
        while i < es.len()
            invariant
                ev == es@,
                i <= ev.len(),
                count <= i,
                count == count_prefixed(ev.take(i as int), rest@),
                count > 0 ==> hit < i && hit as int == last_prefixed(ev.take(i as int), rest@),
            decreases ev.len() - i,
        {
            let e = &es[i];
            let mut found = false;
            if e.1.trust != TrustState::Blocked {
                let h = crate::hexutil::hex_encode_chars(&e.0.0);
                found = starts_with_chars(&h, &rest);
            }
            proof {
                let t = ev.take(i + 1);
                assert(t.drop_last() =~= ev.take(i as int));
                assert(t.last() == ev[i as int]);
                assert(found == prefix_hit(ev[i as int], rest@));
            }
            if found {
                count += 1;
                hit = i;
            }
            i += 1;
        }
        if count == 1 {
            Ok((es[hit].0, es[hit].1.card.public))
        } else if count == 0 {
            Err(coded(ErrorCode::Ddi5001UnknownContact, "no matching contact"))
        } else {
            Err(coded(ErrorCode::Ddp1005BadIdentifier, "ambiguous prefix"))
        }
    }
}

/// Old identity attests a replacement. Reachability is not silently destroyed.
#[derive(Debug, Clone)]
pub struct IdentityTransition {
    pub old_peer: PeerId,
    pub new_public: PublicIdentity,
    pub created_at: u64,
    pub signature: [u8; 64],
}

/// What a rotation signature covers: both node identifiers and the time.
pub open spec fn rotate_msg(old: Seq<u8>, new: Seq<u8>, t: u64) -> Seq<u8> {
    ascii_bytes("ddp-rotate-v2"@) + old + new + be64(t)
}

/// What checking a transition against the old public identity gives: the new node
/// identifier, or the failure's code.
pub open spec fn transition_outcome(t: IdentityTransition, old_public: PublicIdentity) -> Result<Seq<u8>, ErrorCode> {
    match identity_outcome(old_public) {
        Err(c) => Err(c),
        Ok(oid) => if oid != t.old_peer.0@ {
            Err(ErrorCode::Ddc6001Crypto)
        } else {
            match identity_outcome(t.new_public) {
                Err(c) => Err(c),
                Ok(nid) => if !ed25519_accepts(
                    old_public.ed25519_pk@,
                    rotate_msg(oid, nid, t.created_at),
                    t.signature@,
                ) {
                    Err(ErrorCode::Ddc6001Crypto)
                } else {
                    Ok(nid)
                },
            }
        },
    }
}

fn rotate_bytes(old: &PeerId, new: &PeerId, t: u64) -> (b: Vec<u8>)
    ensures
        b@ == rotate_msg(old.0@, new.0@, t),
{
    let mut msg = ascii_bytes_of("ddp-rotate-v2");
    push_all(&mut msg, old.as_bytes());
    push_all(&mut msg, new.as_bytes());
    push_all(&mut msg, &u64_be(t));
    msg
}

impl IdentityTransition {
    /// The old identity signs over its node identifier, the new one's and the time. The new
    /// public identity must check.
    pub fn issue(old: &PrivateIdentity, new_public: PublicIdentity, now: u64) -> (r: DdResult<Self>)
        ensures
            match identity_outcome(new_public) {
                Err(c) => fails_with(r, c),
                Ok(nid) => r matches Ok(t) && t.old_peer == old.peer_id && t.new_public == new_public
                    && t.created_at == now && t.signature@ == ed25519_signature(
                    old.ed_secret(),
                    rotate_msg(old.peer_id.0@, nid, now),
                ),
            },
    {
        let new_id = match verify_identity(&new_public) {
            Err(e) => {
                return Err(e);
            },
            Ok(p) => p,
        };
        let msg = rotate_bytes(&old.peer_id, &new_id, now);
        let sig = old.sign(&msg);
        Ok(IdentityTransition { old_peer: old.peer_id, new_public, created_at: now, signature: sig })
    }

    /// Checks a transition against the old public identity and returns the new node
    /// identifier. A transition issued by a consistent old identity for a new public identity
    /// that checks verifies, giving the new identifier.
    pub fn verify(&self, old_public: &PublicIdentity) -> (r: DdResult<PeerId>)
        ensures
            match transition_outcome(*self, *old_public) {
                Ok(nid) => r matches Ok(p) && p.0@ == nid,
                Err(c) => fails_with(r, c),
            },
            forall|old: PrivateIdentity|
                old.consistent() && old.public == *old_public && self.old_peer == old.peer_id
                    && identity_outcome(self.new_public) is Ok && self.signature@ == ed25519_signature(
                    old.ed_secret(),
                    rotate_msg(old.peer_id.0@, identity_outcome(self.new_public)->Ok_0, self.created_at),
                ) ==> (r is Ok && r->Ok_0.0@ == identity_outcome(self.new_public)->Ok_0),
    {
        let old_id = match verify_identity(old_public) {
            Err(e) => {
                return Err(e);
            },
            Ok(p) => p,
        };
        if !old_id.same(&self.old_peer) {
            proof {
                if old_id.0@ == self.old_peer.0@ {
                    assert(old_id.0 =~= self.old_peer.0);
                }
            }
            return Err(DdError::crypto(crate::text::owned("transition old peer mismatch")));
        }
        let new_id = match verify_identity(&self.new_public) {
            Err(e) => {
                return Err(e);
            },
            Ok(p) => p,
        };
        let msg = rotate_bytes(&old_id, &new_id, self.created_at);
        let checked = DefaultProvider.verify(&old_public.ed25519_pk, &msg, &self.signature);
        proof {
            assert forall|old: PrivateIdentity|
                old.consistent() && old.public == *old_public && self.old_peer == old.peer_id
                    && identity_outcome(self.new_public) is Ok && self.signature@ == ed25519_signature(
                    old.ed_secret(),
                    rotate_msg(old.peer_id.0@, identity_outcome(self.new_public)->Ok_0, self.created_at),
                ) implies checked is Ok by {
                old.lemma_secret_lens();
                old.lemma_consistent();
                assert(old_id == old.peer_id);
            }
        }
        match checked {
            Err(e) => {
                return Err(e);
            },
            Ok(()) => {},
        }
        Ok(new_id)
    }
}

pub struct IdentityFile {
    pub version: u8,
    pub ed25519_secret_hex: String,
    pub x25519_secret_hex: String,
}

/// What decoding a 32-byte hex secret gives.
pub open spec fn decode32_outcome(s: Seq<char>) -> Result<Seq<u8>, ErrorCode> {
    match hex_bytes(s) {
        None => Err(ErrorCode::Ddp1005BadIdentifier),
        Some(b) => if b.len() != 32 {
            Err(ErrorCode::Ddc6001Crypto)
        } else {
            Ok(b)
        },
    }
}

/// Decodes a 32-byte secret from hex; bad hex fails with `Ddp1005BadIdentifier`, another
/// length with `Ddc6001Crypto`.
pub fn decode32(h: &str) -> (r: DdResult<[u8; 32]>)
    ensures
        match decode32_outcome(h@) {
            Ok(b) => r matches Ok(a) && a@ == b,
            Err(c) => fails_with(r, c),
        },
{
    let v = match hex_decode(h) {
        Err(e) => {
            return Err(e);
        },
        Ok(v) => v,
    };
    if v.len() != 32 {
        return Err(DdError::crypto(crate::text::owned("expected 32 bytes")));
    }
    Ok(bytes32(&v))
}

impl IdentityFile {
    /// The identity's two secrets as hex, file version 2.
    pub fn from_private(id: &PrivateIdentity) -> (f: Self)
        ensures
            f.version == 2,
            f.ed25519_secret_hex@ == hex_of(id.ed_secret()),
            f.x25519_secret_hex@ == hex_of(id.x_secret()),
    {
        IdentityFile {
            version: 2,
            ed25519_secret_hex: hex_encode(&id.ed25519_bytes()),
            x25519_secret_hex: hex_encode(&id.x25519_bytes()),
        }
    }

    /// The identity the file's secrets make.
    pub fn into_private(self) -> (r: DdResult<PrivateIdentity>)
        ensures
            decode32_outcome(self.ed25519_secret_hex@) is Err ==> fails_with(
                r,
                decode32_outcome(self.ed25519_secret_hex@)->Err_0,
            ),
            decode32_outcome(self.ed25519_secret_hex@) is Ok && decode32_outcome(self.x25519_secret_hex@) is Err
                ==> fails_with(r, decode32_outcome(self.x25519_secret_hex@)->Err_0),
            r matches Ok(id) ==> id.consistent() && decode32_outcome(self.ed25519_secret_hex@) == Ok::<
                _,
                ErrorCode,
            >(id.ed_secret()) && decode32_outcome(self.x25519_secret_hex@) == Ok::<_, ErrorCode>(id.x_secret()),
            decode32_outcome(self.ed25519_secret_hex@) is Ok && decode32_outcome(self.x25519_secret_hex@) is Ok
                ==> r is Ok,
    {
        let ed = match decode32(self.ed25519_secret_hex.as_str()) {
            Err(e) => {
                return Err(e);
            },
            Ok(a) => a,
        };
        let x = match decode32(self.x25519_secret_hex.as_str()) {
            Err(e) => {
                return Err(e);
            },
            Ok(a) => a,
        };
        Ok(PrivateIdentity::from_secrets(ed, x))
    }
}

/// Two consistent identities with the same secrets are the same identity.
pub proof fn lemma_consistent_unique(a: PrivateIdentity, b: PrivateIdentity)
    requires
        a.consistent(),
        b.consistent(),
        a.ed_secret() == b.ed_secret(),
        a.x_secret() == b.x_secret(),
    ensures
        a == b,
{
    assert(a.public.ed25519_pk =~= b.public.ed25519_pk);
    assert(a.public.x25519_pk =~= b.public.x25519_pk);
    assert(a.public.signature =~= b.public.signature);
    assert(a.peer_id.0 =~= b.peer_id.0);
    assert(a.ed25519 =~= b.ed25519);
    assert(a.x25519 =~= b.x25519);
}

/// Writing an identity to a file and reading it back gives the same identity: the file's
/// secrets decode, and the identity they make is the one written.
pub proof fn lemma_identity_file_roundtrip(id: PrivateIdentity, f: IdentityFile, back: PrivateIdentity)
    requires
        id.consistent(),
        f.ed25519_secret_hex@ == hex_of(id.ed_secret()),
        f.x25519_secret_hex@ == hex_of(id.x_secret()),
        back.consistent(),
        decode32_outcome(f.ed25519_secret_hex@) == Ok::<_, ErrorCode>(back.ed_secret()),
        decode32_outcome(f.x25519_secret_hex@) == Ok::<_, ErrorCode>(back.x_secret()),
    ensures
        decode32_outcome(f.ed25519_secret_hex@) is Ok,
        decode32_outcome(f.x25519_secret_hex@) is Ok,
        back == id,
{
    id.lemma_secret_lens();
    lemma_hex_roundtrip(id.ed_secret());
    lemma_hex_roundtrip(id.x_secret());
    lemma_consistent_unique(back, id);
}

} // verus!
