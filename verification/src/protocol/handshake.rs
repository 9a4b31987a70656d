//! The authenticated key exchange that opens a session: what each hello carries, what is
//! checked, and the keys both ends derive.

use crate::caps::{is_local_caps, CapabilityDoc, NegotiatedCaps, negotiated};
use crate::crypto::{
    be64, identity_outcome, session_keys, session_okm, u64_be, verify_identity, DefaultProvider,
    PrivateIdentity,
};
use crate::envelope::PublicIdentity;
use crate::error::{coded, err_code, fails_with, DdResult, ErrorCode};
use crate::ids::PeerId;
use crate::primitives::{ed25519_accepts, ed25519_public, ed25519_signature, x25519_public, x25519_public_key, x25519_shared};
use crate::text::{ascii_bytes, ascii_bytes_of, push_all};
use crate::PROTOCOL_VERSION;
use vstd::prelude::*;

verus! {

pub struct Session {
    pub peer: PeerId,
    pub peer_identity: PublicIdentity,
    pub caps: NegotiatedCaps,
    pub send_key: [u8; 32],
    pub recv_key: [u8; 32],
    pub send_nonce: u64,
    pub recv_nonce: u64,
}

/// What the client's identity proof signs: its ephemeral key and nonce.
pub open spec fn client_proof_msg(eph_pk: Seq<u8>, nonce: u64) -> Seq<u8> {
    ascii_bytes("ddp-ch-v2"@) + eph_pk + be64(nonce)
}

/// The bytes both ends sign and derive keys over.
pub open spec fn transcript_of(
    client: PublicIdentity,
    server: PublicIdentity,
    client_eph: Seq<u8>,
    server_eph: Seq<u8>,
    cnonce: u64,
    snonce: u64,
) -> Seq<u8> {
    ascii_bytes("ddp-hs-v2"@) + client.ed25519_pk@ + client.x25519_pk@ + server.ed25519_pk@
        + server.x25519_pk@ + client_eph + server_eph + be64(cnonce) + be64(snonce)
}

/// Bytes of the client's identity proof.
pub fn client_proof_bytes(eph_pk: &[u8; 32], nonce: u64) -> (b: Vec<u8>)
    ensures
        b@ == client_proof_msg(eph_pk@, nonce),
{
    let mut m = ascii_bytes_of("ddp-ch-v2");
    push_all(&mut m, eph_pk);
    push_all(&mut m, &u64_be(nonce));
    m
}

/// The client's identity proof: its signature over its ephemeral key and nonce.
pub fn client_identity_proof(identity: &PrivateIdentity, eph_pk: &[u8; 32], nonce: u64) -> (sig: [u8; 64])
    ensures
        sig@ == ed25519_signature(identity.ed_secret(), client_proof_msg(eph_pk@, nonce)),
{
    let m = client_proof_bytes(eph_pk, nonce);
    identity.sign(&m)
}

/// The server's check of a client's identity proof; fails with `Dda3001AuthFailed` unless it
/// verifies under the client's key. A proof made by the holder of that key verifies.
pub fn check_client_proof(peer: &PublicIdentity, eph_pk: &[u8; 32], nonce: u64, proof: &[u8; 64]) -> (r:
    DdResult<()>)
    ensures
        r is Ok <==> ed25519_accepts(peer.ed25519_pk@, client_proof_msg(eph_pk@, nonce), proof@),
        r is Err ==> fails_with(r, ErrorCode::Dda3001AuthFailed),
        forall|seed: Seq<u8>|
            seed.len() == 32 && peer.ed25519_pk@ == ed25519_public(seed) && proof@ == ed25519_signature(
                seed,
                client_proof_msg(eph_pk@, nonce),
            ) ==> r is Ok,
{
    let m = client_proof_bytes(eph_pk, nonce);
    match DefaultProvider.verify(&peer.ed25519_pk, &m, proof) {
        Ok(()) => Ok(()),
        Err(_) => Err(coded(ErrorCode::Dda3001AuthFailed, "client proof")),
    }
}

/// Bytes of the handshake transcript.
pub fn transcript_bytes(
    client: &PublicIdentity,
    server: &PublicIdentity,
    client_eph: &[u8; 32],
    server_eph: &[u8; 32],
    cnonce: u64,
    snonce: u64,
) -> (t: Vec<u8>)
    ensures
        t@ == transcript_of(*client, *server, client_eph@, server_eph@, cnonce, snonce),
{
    let mut t = ascii_bytes_of("ddp-hs-v2");
    push_all(&mut t, &client.ed25519_pk);
    push_all(&mut t, &client.x25519_pk);
    push_all(&mut t, &server.ed25519_pk);
    push_all(&mut t, &server.x25519_pk);
    push_all(&mut t, client_eph);
    push_all(&mut t, server_eph);
    push_all(&mut t, &u64_be(cnonce));
    push_all(&mut t, &u64_be(snonce));
    t
}

/// The transcript as one end sees it: the initiator is the client.
pub open spec fn session_transcript(
    initiator: bool,
    local: PublicIdentity,
    peer: PublicIdentity,
    local_eph_pk: Seq<u8>,
    remote_eph: Seq<u8>,
    cnonce: u64,
    snonce: u64,
) -> Seq<u8> {
    if initiator {
        transcript_of(local, peer, local_eph_pk, remote_eph, cnonce, snonce)
    } else {
        transcript_of(peer, local, remote_eph, local_eph_pk, cnonce, snonce)
    }
}

/// `s` holds the keys derived from the shared secret of the local ephemeral secret and the
/// remote ephemeral key over the transcript: the initiator sends with the first half of the
/// key material, the responder with the second.
pub open spec fn keys_derived(initiator: bool, local_eph_sk: Seq<u8>, remote_eph: Seq<u8>, transcript: Seq<u8>, s: Session) -> bool {
    let okm = session_okm(x25519_shared(local_eph_sk, remote_eph), transcript);
    &&& initiator ==> s.send_key@ == okm.take(32) && s.recv_key@ == okm.skip(32)
    &&& !initiator ==> s.send_key@ == okm.skip(32) && s.recv_key@ == okm.take(32)
}

/// Completes a handshake once the peer's hello is in: checks the protocol version and the
/// peer's identity, builds the transcript, checks the server's signature over it on the
/// initiator's side, derives the session keys and negotiates capabilities. It succeeds exactly
/// when all of those checks pass, and then the capabilities are those this implementation
/// announces negotiated with the peer's.
pub fn finish(
    initiator: bool,
    protocol: u16,
    peer_ident: PublicIdentity,
    local_eph: &[u8; 32],
    remote_eph: &[u8; 32],
    cnonce: u64,
    snonce: u64,
    peer_caps: CapabilityDoc,
    transcript_sig: &[u8; 64],
    local_public: Option<&PublicIdentity>,
) -> (r: DdResult<Session>)
    requires
        local_public is Some,
    ensures
        protocol != PROTOCOL_VERSION ==> fails_with(r, ErrorCode::Ddp1002UnsupportedVersion),
        protocol == PROTOCOL_VERSION && identity_outcome(peer_ident) is Err ==> fails_with(
            r,
            identity_outcome(peer_ident)->Err_0,
        ),
        r matches Ok(s) ==> protocol == PROTOCOL_VERSION && identity_outcome(peer_ident) == Ok::<
            _,
            ErrorCode,
        >(s.peer.0@) && s.peer_identity == peer_ident && s.send_nonce == 0 && s.recv_nonce == 0
            && peer_caps.protocol == PROTOCOL_VERSION && (initiator ==> ed25519_accepts(
            peer_ident.ed25519_pk@,
            session_transcript(
                initiator,
                *local_public->0,
                peer_ident,
                x25519_public(local_eph@),
                remote_eph@,
                cnonce,
                snonce,
            ),
            transcript_sig@,
        )) && keys_derived(
            initiator,
            local_eph@,
            remote_eph@,
            session_transcript(
                initiator,
                *local_public->0,
                peer_ident,
                x25519_public(local_eph@),
                remote_eph@,
                cnonce,
                snonce,
            ),
            s,
        ),
        r is Err ==> (fails_with(r, ErrorCode::Ddp1002UnsupportedVersion) || fails_with(
            r,
            ErrorCode::Ddc6001Crypto,
        )),
        protocol == PROTOCOL_VERSION && identity_outcome(peer_ident) is Ok && initiator
            && !ed25519_accepts(
            peer_ident.ed25519_pk@,
            session_transcript(
                initiator,
                *local_public->0,
                peer_ident,
                x25519_public(local_eph@),
                remote_eph@,
                cnonce,
                snonce,
            ),
            transcript_sig@,
        ) ==> fails_with(r, ErrorCode::Ddc6001Crypto),
        protocol == PROTOCOL_VERSION && identity_outcome(peer_ident) is Ok && (initiator
            ==> ed25519_accepts(
            peer_ident.ed25519_pk@,
            session_transcript(
                initiator,
                *local_public->0,
                peer_ident,
                x25519_public(local_eph@),
                remote_eph@,
                cnonce,
                snonce,
            ),
            transcript_sig@,
        )) ==> (peer_caps.protocol == PROTOCOL_VERSION <==> r is Ok) && (peer_caps.protocol
            != PROTOCOL_VERSION ==> fails_with(r, ErrorCode::Ddp1002UnsupportedVersion)),
        r matches Ok(s) ==> exists|local: CapabilityDoc|
            #[trigger] is_local_caps(local) && negotiated(local, peer_caps, s.caps),
        forall|other: Seq<u8>|
            other.len() == 32 && remote_eph@ == x25519_public(other) ==> r is Err || x25519_shared(
                local_eph@,
                remote_eph@,
            ) == x25519_shared(other, x25519_public(local_eph@)),
{
    if protocol != PROTOCOL_VERSION {
        return Err(coded(ErrorCode::Ddp1002UnsupportedVersion, "unsupported protocol version"));
    }
    let peer = match verify_identity(&peer_ident) {
        Err(e) => {
            return Err(e);
        },
        Ok(p) => p,
    };
    let local = match local_public {
        Some(l) => l,
        None => {
            return Err(coded(ErrorCode::Ddc6001Crypto, "no local identity"));
        },
    };
    let local_eph_pk = x25519_public_key(local_eph);
    let transcript = if initiator {
        transcript_bytes(local, &peer_ident, &local_eph_pk, remote_eph, cnonce, snonce)
    } else {
        transcript_bytes(&peer_ident, local, remote_eph, &local_eph_pk, cnonce, snonce)
    };
    if initiator {
        match DefaultProvider.verify(&peer_ident.ed25519_pk, &transcript, transcript_sig) {
            Err(e) => {
                return Err(e);
            },
            Ok(()) => {},
        }
    }
    let keys = match session_keys(initiator, local_eph, remote_eph, &transcript) {
        Err(e) => {
            return Err(e);
        },
        Ok(k) => k,
    };
    let local_caps = CapabilityDoc::local_v2();
    let caps = match local_caps.negotiate(&peer_caps) {
        Err(e) => {
            return Err(e);
        },
        Ok(c) => c,
    };
    Ok(
        Session {
            peer,
            peer_identity: peer_ident,
            caps,
            send_key: keys.send,
            recv_key: keys.recv,
            send_nonce: 0,
            recv_nonce: 0,
        },
    )
}

/// The two ends of one handshake derive matching keys: when the initiator's remote key is
/// the responder's ephemeral public key and the other way round, and both ends finished over
/// the same transcript, what one end sends with the other receives with.
pub proof fn lemma_session_keys_match(
    a_sk: Seq<u8>,
    b_sk: Seq<u8>,
    transcript: Seq<u8>,
    initiator_side: Session,
    responder_side: Session,
)
    requires
        a_sk.len() == 32,
        b_sk.len() == 32,
        keys_derived(true, a_sk, x25519_public(b_sk), transcript, initiator_side),
        keys_derived(false, b_sk, x25519_public(a_sk), transcript, responder_side),
        x25519_shared(a_sk, x25519_public(b_sk)) == x25519_shared(b_sk, x25519_public(a_sk)),
    ensures
        initiator_side.send_key@ == responder_side.recv_key@,
        initiator_side.recv_key@ == responder_side.send_key@,
{
}

} // verus!
