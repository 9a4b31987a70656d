//! Signed receipts: what a node attests about a Drop.

use crate::crypto::{be64, u64_be, DefaultProvider, PrivateIdentity};
use crate::error::{fails_with, DdResult, ErrorCode};
use crate::ids::{ObjectId, PeerId};
use crate::lifecycle::{receipt_kind_code, ReceiptKind};
use crate::primitives::{ed25519_accepts, ed25519_public, ed25519_signature};
use crate::text::{ascii_bytes, ascii_bytes_of, push_all};
use vstd::prelude::*;

verus! {

pub struct Receipt {
    pub kind: ReceiptKind,
    pub object_id: ObjectId,
    pub issuer: PeerId,
    pub created_at: u64,
    /// Optional peer this receipt attests a forward toward. Absent on older receipts.
    pub witness_peer: Option<PeerId>,
    pub signature: [u8; 64],
}

/// What a receipt's signature covers.
pub open spec fn receipt_bytes(kind: ReceiptKind, object_id: ObjectId, issuer: PeerId, ts: u64, witness: Option<PeerId>) -> Seq<u8> {
    ascii_bytes("ddp-receipt-v2"@) + seq![receipt_kind_code(kind)] + object_id.digest.0@ + issuer.0@
        + be64(ts) + match witness {
        Some(p) => ascii_bytes("ddp-witness-v2"@) + p.0@,
        None => Seq::empty(),
    }
}

/// Bytes a receipt's signature covers.
pub fn preimage(kind: ReceiptKind, object_id: &ObjectId, issuer: PeerId, ts: u64, witness: Option<PeerId>) -> (m: Vec<u8>)
    ensures
        m@ == receipt_bytes(kind, *object_id, issuer, ts, witness),
{
    let mut m = ascii_bytes_of("ddp-receipt-v2");
    m.push(kind.code());
    push_all(&mut m, object_id.as_bytes());
    push_all(&mut m, issuer.as_bytes());
    push_all(&mut m, &u64_be(ts));
    match witness {
        Some(p) => {
            let tag = ascii_bytes_of("ddp-witness-v2");
            push_all(&mut m, &tag);
            push_all(&mut m, p.as_bytes());
        },
        None => {
            assert(m@ + Seq::<u8>::empty() =~= m@);
        },
    }
    m
}

/// `r` is signed by the holder of `seed` over its own fields.
pub open spec fn receipt_signed(r: Receipt, seed: Seq<u8>) -> bool {
    r.signature@ == ed25519_signature(
        seed,
        receipt_bytes(r.kind, r.object_id, r.issuer, r.created_at, r.witness_peer),
    )
}

impl Receipt {
    /// A receipt of `kind` for an object, signed by the issuer now.
    pub fn issue(kind: ReceiptKind, object_id: ObjectId, issuer: &PrivateIdentity, now: u64) -> (r: Self)
        ensures
            r.kind == kind,
            r.object_id == object_id,
            r.issuer == issuer.peer_id,
            r.created_at == now,
            r.witness_peer is None,
            receipt_signed(r, issuer.ed_secret()),
    {
        let msg = preimage(kind, &object_id, issuer.peer_id, now, None);
        let signature = issuer.sign(&msg);
        Receipt { kind, object_id, issuer: issuer.peer_id, created_at: now, witness_peer: None, signature }
    }

    /// Compact signed statement: the issuer possessed `object_id` and forwarded it toward `to`.
    pub fn issue_forwarded(object_id: ObjectId, issuer: &PrivateIdentity, to: PeerId, now: u64) -> (r: Self)
        ensures
            r.kind == ReceiptKind::Forwarded,
            r.object_id == object_id,
            r.issuer == issuer.peer_id,
            r.created_at == now,
            r.witness_peer == Some(to),
            receipt_signed(r, issuer.ed_secret()),
    {
        let msg = preimage(ReceiptKind::Forwarded, &object_id, issuer.peer_id, now, Some(to));
        let signature = issuer.sign(&msg);
        Receipt {
            kind: ReceiptKind::Forwarded,
            object_id,
            issuer: issuer.peer_id,
            created_at: now,
            witness_peer: Some(to),
            signature,
        }
    }

    /// Fails with `Ddc6001Crypto` unless the signature verifies under `issuer_pk`. A receipt
    /// signed by the holder of the key's seed verifies.
    pub fn verify(&self, issuer_pk: &[u8; 32]) -> (r: DdResult<()>)
        ensures
            r is Ok <==> ed25519_accepts(
                issuer_pk@,
                receipt_bytes(self.kind, self.object_id, self.issuer, self.created_at, self.witness_peer),
                self.signature@,
            ),
            r is Err ==> fails_with(r, ErrorCode::Ddc6001Crypto),
            forall|seed: Seq<u8>|
                seed.len() == 32 && issuer_pk@ == ed25519_public(seed) && receipt_signed(*self, seed)
                    ==> r is Ok,
    {
        let msg = preimage(self.kind, &self.object_id, self.issuer, self.created_at, self.witness_peer);
        DefaultProvider.verify(issuer_pk, &msg, &self.signature)
    }
}

} // verus!
