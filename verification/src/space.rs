//! Signed Space membership records. Payload-agnostic shared namespaces.

use crate::crypto::{be64, u64_be, DefaultProvider, PrivateIdentity};
use crate::error::{fails_with, DdResult, ErrorCode};
use crate::ids::PeerId;
use crate::primitives::{ed25519_accepts, ed25519_public, ed25519_signature};
use crate::text::{ascii_bytes, ascii_bytes_of, push_all};
use vstd::prelude::*;
use vstd::utf8::encode_utf8;

verus! {

#[derive(Debug, Clone, Copy, PartialEq, Eq, Structural)]
pub enum SpaceKind {
    Private,
    InviteOnly,
    Public,
    Ephemeral,
}

pub struct SpaceRecord {
    pub name: String,
    pub kind: SpaceKind,
    pub members: Vec<PeerId>,
    pub retention: String,
    pub created_at: u64,
    pub founder: PeerId,
    pub signature: [u8; 64],
}

/// What a Space record's signature covers: its name, founder and creation time.
pub open spec fn space_bytes(name: Seq<char>, founder: PeerId, created_at: u64) -> Seq<u8> {
    ascii_bytes("ddp-space-v2"@) + encode_utf8(name) + founder.0@ + be64(created_at)
}

/// What a Space invite's signature covers: the Space's name and the inviter.
pub open spec fn invite_bytes(space: Seq<char>, issued_by: PeerId) -> Seq<u8> {
    ascii_bytes("ddp-space-invite-v2"@) + encode_utf8(space) + issued_by.0@
}

impl SpaceRecord {
    /// A record of a new Space, founded and signed by `author` now.
    pub fn issue(author: &PrivateIdentity, name: String, kind: SpaceKind, members: Vec<PeerId>, retention: String, now: u64) -> (r: Self)
        ensures
            r.name == name,
            r.kind == kind,
            r.members == members,
            r.retention == retention,
            r.created_at == now,
            r.founder == author.peer_id,
            r.signature@ == ed25519_signature(author.ed_secret(), space_bytes(name@, author.peer_id, now)),
    {
        let mut rec = SpaceRecord {
            name,
            kind,
            members,
            retention,
            created_at: now,
            founder: author.peer_id,
            signature: [0u8; 64],
        };
        let pre = rec.preimage();
        rec.signature = author.sign(&pre);
        rec
    }

    /// Bytes the record's signature covers.
    pub fn preimage(&self) -> (b: Vec<u8>)
        ensures
            b@ == space_bytes(self.name@, self.founder, self.created_at),
    {
        let mut b = ascii_bytes_of("ddp-space-v2");
        push_all(&mut b, self.name.as_str().as_bytes());
        push_all(&mut b, self.founder.as_bytes());
        push_all(&mut b, &u64_be(self.created_at));
        b
    }

    /// Fails with `Ddc6001Crypto` unless the signature verifies under `founder_pk`. A record
    /// signed by the holder of the key's seed verifies.
    pub fn verify(&self, founder_pk: &[u8; 32]) -> (r: DdResult<()>)
        ensures
            r is Ok <==> ed25519_accepts(founder_pk@, space_bytes(self.name@, self.founder, self.created_at), self.signature@),
            r is Err ==> fails_with(r, ErrorCode::Ddc6001Crypto),
            forall|seed: Seq<u8>|
                seed.len() == 32 && founder_pk@ == ed25519_public(seed) && self.signature@ == ed25519_signature(
                    seed,
                    space_bytes(self.name@, self.founder, self.created_at),
                ) ==> r is Ok,
    {
        let pre = self.preimage();
        DefaultProvider.verify(founder_pk, &pre, &self.signature)
    }
}

pub struct SpaceInvite {
    pub space: String,
    pub invitee: Option<PeerId>,
    pub issued_by: PeerId,
    pub created_at: u64,
    pub signature: [u8; 64],
}

impl SpaceInvite {
    /// An invitation to a Space, signed by `author` now.
    pub fn issue(author: &PrivateIdentity, space: String, invitee: Option<PeerId>, now: u64) -> (r: Self)
        ensures
            r.space == space,
            r.invitee == invitee,
            r.issued_by == author.peer_id,
            r.created_at == now,
            r.signature@ == ed25519_signature(author.ed_secret(), invite_bytes(space@, author.peer_id)),
    {
        let mut msg = ascii_bytes_of("ddp-space-invite-v2");
        push_all(&mut msg, space.as_str().as_bytes());
        push_all(&mut msg, author.peer_id.as_bytes());
        let signature = author.sign(&msg);
        SpaceInvite { space, invitee, issued_by: author.peer_id, created_at: now, signature }
    }
}

} // verus!
