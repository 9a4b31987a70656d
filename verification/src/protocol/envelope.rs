//! Building, signing, verifying and opening Drops.

use crate::chunk::erasure::{apply_erasure, empty_group_from, erasure_applied, spec_valid, ErasureSpec};
use crate::chunk::{
    chunk_payload, chunked_from, manifest_preimage, pieces, reassemble, reassemble_outcome,
    ChunkedPayload, ChunkingAlg, Manifest,
};
use crate::crypto::{
    be16, be32, be64, encrypt_payload, generate_cek, lp_str, push_lp_str, random_bytes, u16_be,
    u32_be, u64_be, unwrap_cek, unwrap_outcome, wrap_aad, wrap_cek_with, wrap_key_of, wrap_seals,
    DefaultProvider, PrivateIdentity, ENC_SCHEME,
};
use crate::destination::Destination;
use crate::envelope::{
    DropEnvelope, Extension, PayloadDescriptor, PublicIdentity, RecipientWrap, RoutingPolicy,
    SecurityDescriptor,
};
use crate::error::{coded, err_code, fails_with, DdError, DdResult, ErrorCode};
use crate::ids::{eq_bytes32, HashAlgorithm, ManifestId, ObjectId, PeerId};
use crate::limits::{
    DEFAULT_TTL_SECS, MAX_CHUNKS_PER_MANIFEST, MAX_EXTENSIONS, MAX_HOP_LIMIT, MAX_RECIPIENTS,
    MAX_TTL_SECS, MIN_TTL_SECS, NONCE_LEN,
};
use crate::primitives::{
    aead_len_ok, aead_open, aead_seal, blake3_digest, ed25519_accepts, ed25519_public,
    ed25519_signature, views, x25519_public, x25519_shared, zstd_decode, zstd_encode, zstd_frame,
    zstd_unframe,
};
use crate::priority::{priority_value, Priority};
use crate::sealed::{enforce, still_sealed, SEAL_QUORUM_EXT, SEAL_UNTIL_EXT};
use crate::store::unix_now;
use crate::text::{ascii_bytes, ascii_bytes_of, chars_eq_str, chars_of, owned, push_all};
use crate::PROTOCOL_VERSION;
use vstd::prelude::*;
use vstd::utf8::encode_utf8;

verus! {

/// What a Drop is made from.
pub struct CreateDrop<'a> {
    pub author: &'a PrivateIdentity,
    pub recipients: Vec<(PeerId, PublicIdentity)>,
    pub destination: Destination,
    pub plaintext: Vec<u8>,
    pub now: u64,
    pub ttl_secs: Option<u64>,
    pub priority: Priority,
    pub routing: RoutingPolicy,
    pub application: String,
    pub topic: Option<String>,
    pub chunking: ChunkingAlg,
    pub compress: bool,
    pub hop_limit: u8,
    pub public: bool,
    pub seal_until: Option<u64>,
    pub seal_quorum: Option<u32>,
    pub erasure: Option<ErasureSpec>,
}

/// A signed envelope with its manifest and chunks.
pub struct BuiltDrop {
    pub envelope: DropEnvelope,
    pub manifest: Manifest,
    pub chunks: Vec<Vec<u8>>,
}

/// Identifier bytes of a list of objects.
pub open spec fn ids_bytes(ms: Seq<ObjectId>) -> Seq<u8>
    decreases ms.len(),
{
    if ms.len() == 0 {
        Seq::empty()
    } else {
        ids_bytes(ms.drop_last()) + ms.last().digest.0@
    }
}

/// What a payload descriptor contributes to the signed bytes.
pub open spec fn payload_bytes(pd: PayloadDescriptor) -> Seq<u8> {
    match pd {
        PayloadDescriptor::Chunked { length, manifest_id, content_id } => be64(length)
            + manifest_id.digest.0@ + content_id.digest.0@,
        PayloadDescriptor::Inline { length, content_id } => be64(length) + content_id.digest.0@,
        PayloadDescriptor::Blob { length, content_id } => be64(length) + content_id.digest.0@,
        PayloadDescriptor::Manifest { manifest_id } => manifest_id.digest.0@,
        PayloadDescriptor::StreamManifest { manifest_id } => manifest_id.digest.0@,
        PayloadDescriptor::Collection { members } => be32(members@.len() as u32) + ids_bytes(
            members@,
        ),
    }
}

/// What the extensions contribute to the signed bytes.
pub open spec fn ext_bytes(es: Seq<Extension>) -> Seq<u8>
    decreases es.len(),
{
    if es.len() == 0 {
        Seq::empty()
    } else {
        let e = es.last();
        ext_bytes(es.drop_last()) + lp_str(encode_utf8(e.name@)) + seq![
            if e.critical { 1u8 } else { 0u8 },
        ] + be32(e.data@.len() as u32) + e.data@
    }
}

/// The bytes an envelope's signature covers.
pub open spec fn envelope_bytes(env: DropEnvelope) -> Seq<u8> {
    ascii_bytes("ddp-env-v2"@) + be16(env.protocol_version) + env.source.0@ + be64(env.creation_time)
        + be64(env.expiration) + seq![priority_value(env.priority), env.hop_limit] + lp_str(
        encode_utf8(env.application@),
    ) + payload_bytes(env.payload_descriptor) + env.author_pk@ + if env.extensions@.len() == 0 {
        Seq::empty()
    } else {
        ascii_bytes("ddp-ext-v2"@) + ext_bytes(env.extensions@)
    }
}

/// The digest an envelope's object identifier must carry: BLAKE3 of the signed bytes and the
/// signature.
pub open spec fn object_digest(env: DropEnvelope) -> Seq<u8> {
    blake3_digest(envelope_bytes(env) + env.signature@)
}

/// Bytes covered by an envelope's signature.
pub fn envelope_preimage(env: &DropEnvelope) -> (b: Vec<u8>)
    ensures
        b@ == envelope_bytes(*env),
{
    let mut buf = ascii_bytes_of("ddp-env-v2");
    push_all(&mut buf, &u16_be(env.protocol_version));
    push_all(&mut buf, env.source.as_bytes());
    push_all(&mut buf, &u64_be(env.creation_time));
    push_all(&mut buf, &u64_be(env.expiration));
    buf.push(env.priority.as_u8());
    buf.push(env.hop_limit);
    push_lp_str(&mut buf, env.application.as_str());
    let ghost head = buf@;
    match &env.payload_descriptor {
        PayloadDescriptor::Chunked { length, manifest_id, content_id } => {
            push_all(&mut buf, &u64_be(*length));
            push_all(&mut buf, manifest_id.as_bytes());
            push_all(&mut buf, content_id.as_bytes());
        },
        PayloadDescriptor::Inline { length, content_id } => {
            push_all(&mut buf, &u64_be(*length));
            push_all(&mut buf, content_id.as_bytes());
        },
        PayloadDescriptor::Blob { length, content_id } => {
            push_all(&mut buf, &u64_be(*length));
            push_all(&mut buf, content_id.as_bytes());
        },
        PayloadDescriptor::Manifest { manifest_id } => {
            push_all(&mut buf, manifest_id.as_bytes());
        },
        PayloadDescriptor::StreamManifest { manifest_id } => {
            push_all(&mut buf, manifest_id.as_bytes());
        },
        PayloadDescriptor::Collection { members } => {
            push_all(&mut buf, &u32_be(members.len() as u32));
            let mut k: usize = 0;
            while k < members.len()
                invariant
                    k <= members@.len(),
                    buf@ == head + be32(members@.len() as u32) + ids_bytes(members@.take(k as int)),
                decreases members@.len() - k,
            {
                push_all(&mut buf, members[k].as_bytes());
                proof {
                    let t = members@.take(k + 1);
                    assert(t.drop_last() =~= members@.take(k as int));
                }
                k += 1;
            }
            assert(members@.take(members@.len() as int) =~= members@);
        },
    }
    assert(buf@ =~= head + payload_bytes(env.payload_descriptor));
    push_all(&mut buf, &env.author_pk);
    let ghost body = buf@;
    if env.extensions.len() > 0 {
        let tag = ascii_bytes_of("ddp-ext-v2");
        push_all(&mut buf, &tag);
        let mut k: usize = 0;
        while k < env.extensions.len()
            invariant
                k <= env.extensions@.len(),
                buf@ == body + ascii_bytes("ddp-ext-v2"@) + ext_bytes(env.extensions@.take(k as int)),
            decreases env.extensions@.len() - k,
        {
            let e = &env.extensions[k];
            push_lp_str(&mut buf, e.name.as_str());
            buf.push(if e.critical { 1u8 } else { 0u8 });
            push_all(&mut buf, &u32_be(e.data.len() as u32));
            push_all(&mut buf, e.data.as_slice());
            proof {
                let t = env.extensions@.take(k + 1);
                assert(t.drop_last() =~= env.extensions@.take(k as int));
            }
            k += 1;
        }
        assert(env.extensions@.take(env.extensions@.len() as int) =~= env.extensions@);
    } else {
        assert(buf@ + Seq::<u8>::empty() =~= buf@);
    }
    assert(buf@ =~= envelope_bytes(*env));
    buf
}

/// An extension of `es` is critical and is neither of the seal extensions.
pub open spec fn unknown_critical(es: Seq<Extension>) -> bool {
    exists|i: int|
        0 <= i < es.len() && (#[trigger] es[i]).critical && es[i].name@ != SEAL_UNTIL_EXT@
            && es[i].name@ != SEAL_QUORUM_EXT@
}

/// Every check on an envelope but its signature passes at `now`: the protocol version, the
/// extensions, a lifetime that has not ended, the hop count, and the object identifier.
pub open spec fn envelope_sound(env: DropEnvelope, now: u64) -> bool {
    &&& env.protocol_version == PROTOCOL_VERSION
    &&& env.extensions@.len() <= MAX_EXTENSIONS
    &&& !unknown_critical(env.extensions@)
    &&& env.expiration > env.creation_time
    &&& now < env.expiration
    &&& env.hop_count <= env.hop_limit
    &&& env.object_id.algorithm == HashAlgorithm::Blake3
    &&& env.object_id.digest.0@ == object_digest(env)
}

/// What checking an envelope at `now` gives, in the order the checks are made.
pub open spec fn envelope_check(env: DropEnvelope, now: u64) -> Result<(), ErrorCode> {
    if env.protocol_version != PROTOCOL_VERSION {
        Err(ErrorCode::Ddp1002UnsupportedVersion)
    } else if env.extensions@.len() > MAX_EXTENSIONS {
        Err(ErrorCode::Ddp1006LimitExceeded)
    } else if unknown_critical(env.extensions@) {
        Err(ErrorCode::Ddp1003UnknownCriticalExtension)
    } else if env.expiration <= env.creation_time {
        Err(ErrorCode::Ddp1001InvalidFrame)
    } else if now >= env.expiration {
        Err(ErrorCode::Ddp1007Expired)
    } else if env.hop_count > env.hop_limit {
        Err(ErrorCode::Ddp1001InvalidFrame)
    } else if !ed25519_accepts(env.author_pk@, envelope_bytes(env), env.signature@) {
        Err(ErrorCode::Ddc6001Crypto)
    } else if !(env.object_id.algorithm == HashAlgorithm::Blake3 && env.object_id.digest.0@
        == object_digest(env)) {
        Err(ErrorCode::Ddp1001InvalidFrame)
    } else {
        Ok(())
    }
}

/// Checks an envelope at `now`. A sound envelope signed with the seed of its author key
/// verifies.
pub fn verify_envelope(env: &DropEnvelope, now: u64) -> (r: DdResult<()>)
    ensures
        match envelope_check(*env, now) {
            Ok(_) => r is Ok,
            Err(c) => fails_with(r, c),
        },
        forall|seed: Seq<u8>|
            seed.len() == 32 && env.author_pk@ == ed25519_public(seed) && env.signature@
                == ed25519_signature(seed, envelope_bytes(*env)) && envelope_sound(*env, now)
                ==> r is Ok,
{
    if env.protocol_version != PROTOCOL_VERSION {
        return Err(coded(ErrorCode::Ddp1002UnsupportedVersion, "unsupported protocol version"));
    }
    match env.validate_extension_count() {
        Err(e) => {
            return Err(e);
        },
        Ok(()) => {},
    }
    let mut k: usize = 0;
    while k < env.extensions.len()
        invariant
            env.protocol_version == PROTOCOL_VERSION,
            env.extensions@.len() <= MAX_EXTENSIONS,
            k <= env.extensions@.len(),
            forall|i: int|
                0 <= i < k ==> !((#[trigger] env.extensions@[i]).critical && env.extensions@[i].name@
                    != SEAL_UNTIL_EXT@ && env.extensions@[i].name@ != SEAL_QUORUM_EXT@),
        decreases env.extensions@.len() - k,
    {
        let ext = &env.extensions[k];
        let name = chars_of(ext.name.as_str());
        if ext.critical && !chars_eq_str(&name, SEAL_UNTIL_EXT) && !chars_eq_str(&name, SEAL_QUORUM_EXT) {
            assert(env.extensions@[k as int].critical && env.extensions@[k as int].name@ != SEAL_UNTIL_EXT@
                && env.extensions@[k as int].name@ != SEAL_QUORUM_EXT@);
            assert(unknown_critical(env.extensions@));
            return Err(DdError::protocol(ErrorCode::Ddp1003UnknownCriticalExtension, ext.name.clone()));
        }
        k += 1;
    }
    if env.expiration <= env.creation_time {
        return Err(coded(ErrorCode::Ddp1001InvalidFrame, "expiration"));
    }
    if now >= env.expiration {
        return Err(coded(ErrorCode::Ddp1007Expired, "expired"));
    }
    if env.hop_count > env.hop_limit {
        return Err(coded(ErrorCode::Ddp1001InvalidFrame, "hops"));
    }
    let pre = envelope_preimage(env);
    let checked = DefaultProvider.verify(&env.author_pk, &pre, &env.signature);
    match checked {
        Err(e) => {
            return Err(e);
        },
        Ok(()) => {},
    }
    let mut signed = pre;
    push_all(&mut signed, &env.signature);
    let d = DefaultProvider.hash(HashAlgorithm::Blake3, &signed);
    if !(env.object_id.algorithm == HashAlgorithm::Blake3 && eq_bytes32(&env.object_id.digest.0, &d.0)) {
        return Err(DdError::invalid_frame(owned("object_id mismatch")));
    }
    Ok(())
}

/// Associated data that binds a payload's ciphertext to its author.
pub open spec fn payload_aad(source: Seq<u8>) -> Seq<u8> {
    ascii_bytes("ddp-payload-aad-v2"@) + source
}

/// Position of the first wrap addressed to `peer`, searching from `i`.
pub open spec fn first_wrap(ws: Seq<RecipientWrap>, peer: PeerId, i: nat) -> Option<nat>
    decreases ws.len() - i,
{
    if i >= ws.len() {
        None
    } else if ws[i as int].peer == peer {
        Some(i)
    } else {
        first_wrap(ws, peer, i + 1)
    }
}

proof fn lemma_first_wrap(ws: Seq<RecipientWrap>, peer: PeerId, i: nat)
    ensures
        first_wrap(ws, peer, i) matches Some(k) ==> i <= k < ws.len() && ws[k as int].peer == peer
            && forall|j: int| i <= j < k ==> (#[trigger] ws[j]).peer != peer,
        first_wrap(ws, peer, i) is None ==> forall|j: int| i <= j < ws.len() ==> (#[trigger] ws[j]).peer != peer,
    decreases ws.len() - i,
{
    if i < ws.len() && ws[i as int].peer != peer {
        lemma_first_wrap(ws, peer, i + 1);
    }
}

/// What decrypting a Drop's payload for `id` gives.
pub open spec fn decrypt_outcome(id: PrivateIdentity, env: DropEnvelope, ct: Seq<u8>) -> Result<
    Seq<u8>,
    ErrorCode,
> {
    let sec = env.security_descriptor;
    if sec.public {
        Ok(ct)
    } else {
        match first_wrap(sec.wraps@, id.peer_id, 0) {
            None => Err(ErrorCode::Ddp1008NotRecipient),
            Some(i) => match unwrap_outcome(id, sec.wraps@[i as int]) {
                Err(c) => Err(c),
                Ok(k) => match aead_open(k, sec.content_nonce@, payload_aad(env.source.0@), ct) {
                    None => Err(ErrorCode::Ddc6001Crypto),
                    Some(p) => Ok(p),
                },
            },
        }
    }
}

/// `ct` carries `pt` for `id`: as is in a public Drop; otherwise sealed under a content key
/// that the first wrap for `id` seals for `id`'s X25519 key.
pub open spec fn sealed_for(id: PrivateIdentity, env: DropEnvelope, ct: Seq<u8>, pt: Seq<u8>) -> bool {
    let sec = env.security_descriptor;
    if sec.public {
        ct == pt
    } else {
        exists|cek: Seq<u8>|
            cek.len() == 32 && aead_len_ok(pt.len()) && ct == aead_seal(
                cek,
                sec.content_nonce@,
                payload_aad(env.source.0@),
                pt,
            ) && (first_wrap(sec.wraps@, id.peer_id, 0) matches Some(i) && wrap_seals(
                sec.wraps@[i as int],
                id.public.x25519_pk@,
                cek,
            ))
    }
}

/// Decrypts a Drop's payload for `identity`: a public payload is returned as is; otherwise
/// the first wrap for the identity gives the content key. Fails with `Ddp1008NotRecipient`
/// when no wrap is for it. What was sealed for the identity opens to what was sealed.
pub fn decrypt_payload_for(identity: &PrivateIdentity, env: &DropEnvelope, ciphertext: &[u8]) -> (r:
    DdResult<Vec<u8>>)
    ensures
        match decrypt_outcome(*identity, *env, ciphertext@) {
            Ok(p) => r is Ok && r->Ok_0@ == p,
            Err(c) => fails_with(r, c),
        },
        forall|pt: Seq<u8>|
            identity.consistent() && sealed_for(*identity, *env, ciphertext@, pt) ==> r is Ok
                && r->Ok_0@ == pt,
{
    let sec = &env.security_descriptor;
    if sec.public {
        let out = crate::chunk::copy_range(ciphertext, 0, ciphertext.len());
        assert(out@ =~= ciphertext@);
        return Ok(out);
    }
    proof {
        lemma_first_wrap(sec.wraps@, identity.peer_id, 0);
    }
    let mut i: usize = 0;
    while i < sec.wraps.len()
        invariant
            i <= sec.wraps@.len(),
            forall|j: int| 0 <= j < i ==> (#[trigger] sec.wraps@[j]).peer != identity.peer_id,
            first_wrap(sec.wraps@, identity.peer_id, 0) == first_wrap(sec.wraps@, identity.peer_id, i as nat),
        ensures
            i <= sec.wraps@.len(),
            i < sec.wraps@.len() ==> sec.wraps@[i as int].peer == identity.peer_id,
            first_wrap(sec.wraps@, identity.peer_id, 0) == first_wrap(sec.wraps@, identity.peer_id, i as nat),
        decreases sec.wraps@.len() - i,
    {
        if sec.wraps[i].peer.same(&identity.peer_id) {
            break;
        }
        i += 1;
    }
    if i >= sec.wraps.len() {
        return Err(coded(ErrorCode::Ddp1008NotRecipient, "no wrap"));
    }
    let wrap = &sec.wraps[i];
    assert(first_wrap(sec.wraps@, identity.peer_id, 0) == Some(i as nat));
    let cek = unwrap_cek(identity, wrap);
    let ghost aadv = payload_aad(env.source.0@);
    match cek {
        Err(e) => {
            proof {
                assert forall|pt: Seq<u8>|
                    identity.consistent() && sealed_for(*identity, *env, ciphertext@, pt) implies false by {
                    let c0 = choose|c: Seq<u8>|
                        c.len() == 32 && aead_len_ok(pt.len()) && ciphertext@ == aead_seal(
                            c,
                            sec.content_nonce@,
                            aadv,
                            pt,
                        ) && (first_wrap(sec.wraps@, identity.peer_id, 0) matches Some(k) && wrap_seals(
                            sec.wraps@[k as int],
                            identity.public.x25519_pk@,
                            c,
                        ));
                    assert(wrap_seals(*wrap, identity.public.x25519_pk@, c0));
                }
            }
            return Err(e);
        },
        Ok(key) => {
            let mut aad = ascii_bytes_of("ddp-payload-aad-v2");
            push_all(&mut aad, env.source.as_bytes());
            let out = DefaultProvider.aead_decrypt(&key, &sec.content_nonce, &aad, ciphertext);
            proof {
                assert forall|pt: Seq<u8>|
                    identity.consistent() && sealed_for(*identity, *env, ciphertext@, pt) implies out is Ok
                    && out->Ok_0@ == pt by {
                    let c0 = choose|c: Seq<u8>|
                        c.len() == 32 && aead_len_ok(pt.len()) && ciphertext@ == aead_seal(
                            c,
                            sec.content_nonce@,
                            aadv,
                            pt,
                        ) && (first_wrap(sec.wraps@, identity.peer_id, 0) matches Some(k) && wrap_seals(
                            sec.wraps@[k as int],
                            identity.public.x25519_pk@,
                            c,
                        ));
                    assert(wrap_seals(*wrap, identity.public.x25519_pk@, c0));
                    assert(key@ == c0);
                }
            }
            out
        },
    }
}

/// The chunks reassemble to a ciphertext that carries `pt` for `id`.
pub open spec fn opens_to(id: PrivateIdentity, env: DropEnvelope, m: Manifest, chunks: Seq<Seq<u8>>, pt: Seq<u8>) -> bool {
    reassemble_outcome(m, chunks) matches Ok(ct) && sealed_for(id, env, ct, pt)
}

/// What opening a Drop for `id` at `now` gives, with `receipt_issuers` distinct receipts.
pub open spec fn open_outcome(
    id: PrivateIdentity,
    env: DropEnvelope,
    m: Manifest,
    chunks: Seq<Seq<u8>>,
    now: u64,
    receipt_issuers: u32,
) -> Result<Seq<u8>, ErrorCode> {
    if still_sealed(env, now, receipt_issuers) {
        Err(ErrorCode::Ddp1009Sealed)
    } else {
        match reassemble_outcome(m, chunks) {
            Err(c) => Err(c),
            Ok(ct) => decrypt_outcome(id, env, ct),
        }
    }
}

/// Opens a Drop for `identity` at `now`: refuses while its seal holds, reassembles and checks
/// its chunks, then decrypts. `receipt_issuers` is the count of distinct stored witness or
/// delivery receipts; quorum seals are local policy, not a cryptographic time-lock. Chunks that
/// reassemble to what was sealed for the identity open to what was sealed.
pub fn open_drop_at(
    identity: &PrivateIdentity,
    env: &DropEnvelope,
    manifest: &Manifest,
    chunks: &[Vec<u8>],
    now: u64,
    receipt_issuers: u32,
) -> (r: DdResult<Vec<u8>>)
    ensures
        match open_outcome(*identity, *env, *manifest, views(chunks@), now, receipt_issuers) {
            Ok(p) => r is Ok && r->Ok_0@ == p,
            Err(c) => fails_with(r, c),
        },
        forall|pt: Seq<u8>|
            identity.consistent() && !still_sealed(*env, now, receipt_issuers) && #[trigger] opens_to(
                *identity,
                *env,
                *manifest,
                views(chunks@),
                pt,
            ) ==> r is Ok && r->Ok_0@ == pt,
{
    match enforce(env, now, receipt_issuers) {
        Err(e) => {
            return Err(e);
        },
        Ok(()) => {},
    }
    let ct = match reassemble(manifest, chunks) {
        Err(e) => {
            return Err(e);
        },
        Ok(ct) => ct,
    };
    decrypt_payload_for(identity, env, &ct)
}

/// zstd compression at level 3; a failure is reported as `Ddc6001Crypto`.
fn zstd_compress(data: &[u8]) -> (r: DdResult<Vec<u8>>)
    ensures
        r matches Ok(v) ==> v@ == zstd_frame(data@, 3),
        r is Err ==> fails_with(r, ErrorCode::Ddc6001Crypto),
{
    match zstd_encode(data, 3) {
        Ok(v) => Ok(v),
        Err(msg) => Err(DdError::crypto(msg)),
    }
}

/// zstd decompression; data that is no zstd frame fails with `Ddc6001Crypto`. A frame made
/// from some data decompresses to that data.
pub fn zstd_decompress(data: &[u8]) -> (r: DdResult<Vec<u8>>)
    ensures
        r is Err ==> fails_with(r, ErrorCode::Ddc6001Crypto),
        match r {
            Ok(v) => zstd_unframe(data@) == Some(v@),
            Err(_) => zstd_unframe(data@) is None,
        },
        forall|d: Seq<u8>, level: int| data@ == zstd_frame(d, level) ==> (r is Ok && r->Ok_0@ == d),
{
    match zstd_decode(data) {
        Ok(v) => Ok(v),
        Err(msg) => Err(DdError::crypto(msg)),
    }
}


/// Time to live actually used: the default when none is asked, kept between the limits.
pub open spec fn ttl_of(t: Option<u64>) -> u64 {
    let v = match t {
        Some(x) => x,
        None => DEFAULT_TTL_SECS,
    };
    if v < MIN_TTL_SECS {
        MIN_TTL_SECS
    } else if v > MAX_TTL_SECS {
        MAX_TTL_SECS
    } else {
        v
    }
}

/// `a + b`, or the largest `u64` when that overflows.
pub open spec fn sat_add(a: u64, b: u64) -> u64 {
    if a + b > u64::MAX { u64::MAX } else { (a + b) as u64 }
}

/// Hop limit actually used: between 1 and `MAX_HOP_LIMIT`.
pub open spec fn hop_clamp(h: u8) -> u8 {
    if h < 1 {
        1
    } else if h > MAX_HOP_LIMIT {
        MAX_HOP_LIMIT
    } else {
        h
    }
}

/// `e` is the non-critical extension `name` carrying `data`.
pub open spec fn ext_is(e: Extension, name: Seq<char>, data: Seq<u8>) -> bool {
    e.name@ == name && !e.critical && e.data@ == data
}

/// The extensions that record a seal time and a seal quorum, in that order, each only when
/// asked for.
pub open spec fn seal_extensions_of(es: Seq<Extension>, until: Option<u64>, quorum: Option<u32>) -> bool {
    match (until, quorum) {
        (None, None) => es.len() == 0,
        (Some(t), None) => es.len() == 1 && ext_is(es[0], SEAL_UNTIL_EXT@, be64(t)),
        (None, Some(n)) => es.len() == 1 && ext_is(es[0], SEAL_QUORUM_EXT@, be32(n)),
        (Some(t), Some(n)) => es.len() == 2 && ext_is(es[0], SEAL_UNTIL_EXT@, be64(t)) && ext_is(
            es[1],
            SEAL_QUORUM_EXT@,
            be32(n),
        ),
    }
}

fn seal_extensions(until: Option<u64>, quorum: Option<u32>) -> (es: Vec<Extension>)
    ensures
        seal_extensions_of(es@, until, quorum),
{
    let mut out: Vec<Extension> = Vec::new();
    match until {
        Some(ts) => {
            let be = u64_be(ts);
            let mut data: Vec<u8> = Vec::new();
            push_all(&mut data, &be);
            out.push(Extension { name: owned(SEAL_UNTIL_EXT), critical: false, data });
        },
        None => {},
    }
    match quorum {
        Some(n) => {
            let be = u32_be(n);
            let mut data: Vec<u8> = Vec::new();
            push_all(&mut data, &be);
            out.push(Extension { name: owned(SEAL_QUORUM_EXT), critical: false, data });
        },
        None => {},
    }
    out
}

/// The chunks of `b` hold `ct` cut with `alg`, with the parity of `erasure` appended when asked.
pub open spec fn payload_chunked(b: BuiltDrop, ct: Seq<u8>, alg: ChunkingAlg, erasure: Option<ErasureSpec>) -> bool {
    let cp = ChunkedPayload { manifest: b.manifest, chunks: b.chunks };
    match erasure {
        None => chunked_from(cp, ct, alg),
        Some(s) => exists|raw: ChunkedPayload|
            chunked_from(raw, ct, alg) && if (raw.chunks@.len() as u32) == 0 {
                cp == raw
            } else {
                erasure_applied(cp, raw, s)
            },
    }
}

/// `b` is the Drop `req` describes around the payload bytes `ct` protected as `sec` says: the
/// envelope's fields come from `req`, its payload descriptor names the manifest, it is signed
/// with the author's key and named by the digest of what it signs.
pub open spec fn drop_assembled(req: CreateDrop, ct: Seq<u8>, sec: SecurityDescriptor, b: BuiltDrop) -> bool {
    let env = b.envelope;
    &&& payload_chunked(b, ct, req.chunking, req.erasure)
    &&& env.protocol_version == PROTOCOL_VERSION
    &&& env.source == req.author.peer_id
    &&& env.destination == req.destination
    &&& env.creation_time == req.now
    &&& env.expiration == sat_add(req.now, ttl_of(req.ttl_secs))
    &&& env.priority == req.priority
    &&& env.hop_limit == hop_clamp(req.hop_limit)
    &&& env.hop_count == 0
    &&& env.payload_descriptor matches PayloadDescriptor::Chunked { length, manifest_id, content_id }
        && length == b.manifest.total_length && manifest_id.algorithm == HashAlgorithm::Blake3
        && manifest_id.digest.0@ == blake3_digest(manifest_preimage(b.manifest)) && content_id
        == b.manifest.payload_hash
    &&& env.routing_policy == req.routing
    &&& env.security_descriptor == sec
    &&& env.application == req.application
    &&& env.topic == req.topic
    &&& seal_extensions_of(env.extensions@, req.seal_until, req.seal_quorum)
    &&& env.author_pk == req.author.public.ed25519_pk
    &&& env.signature@ == ed25519_signature(req.author.ed_secret(), envelope_bytes(env))
    &&& env.object_id.algorithm == HashAlgorithm::Blake3
    &&& env.object_id.digest.0@ == object_digest(env)
}

/// Cutting `ct` fails: too many chunks, erasure parameters out of range, or Reed–Solomon asked
/// to code a group of empty chunks.
pub open spec fn chunking_fails(ct: Seq<u8>, alg: ChunkingAlg, erasure: Option<ErasureSpec>) -> Option<ErrorCode> {
    if (pieces(ct, alg).len() as u32) > MAX_CHUNKS_PER_MANIFEST {
        Some(ErrorCode::Ddp1006LimitExceeded)
    } else {
        match erasure {
            None => None,
            Some(s) => if !spec_valid(s) {
                Some(ErrorCode::Ddp1006LimitExceeded)
            } else if s.parity_shards > 1 && (pieces(ct, alg).len() as u32) != 0 && empty_group_from(
                pieces(ct, alg),
                0,
                s.data_shards as nat,
            ) {
                Some(ErrorCode::Dds2002CorruptChunk)
            } else {
                None
            },
        }
    }
}

/// Chunks the payload bytes, names the manifest, fills in and signs the envelope, and names
/// the Drop by the digest of what was signed. Fails only as `chunking_fails` says.
pub fn assemble_drop(req: CreateDrop<'_>, ciphertext: Vec<u8>, security: SecurityDescriptor) -> (r:
    DdResult<BuiltDrop>)
    ensures
        match chunking_fails(ciphertext@, req.chunking, req.erasure) {
            Some(c) => fails_with(r, c),
            None => r is Ok && drop_assembled(req, ciphertext@, security, r->Ok_0),
        },
{
    let raw = match chunk_payload(&ciphertext, req.chunking) {
        Err(e) => {
            return Err(e);
        },
        Ok(c) => c,
    };
    let ghost raw0 = raw;
    let chunked = match req.erasure {
        None => raw,
        Some(spec) => {
            assert(views(raw.chunks@) == pieces(ciphertext@, req.chunking));
            proof {
                crate::chunk::lemma_pieces_concat(ciphertext@, req.chunking);
            }
            match apply_erasure(raw, spec) {
                Err(e) => {
                    return Err(e);
                },
                Ok(c) => c,
            }
        },
    };
    let manifest_id = chunked.manifest.id();
    let ttl = match req.ttl_secs {
        Some(t) => t,
        None => DEFAULT_TTL_SECS,
    };
    let ttl = if ttl < MIN_TTL_SECS {
        MIN_TTL_SECS
    } else if ttl > MAX_TTL_SECS {
        MAX_TTL_SECS
    } else {
        ttl
    };
    let expires = req.now.saturating_add(ttl);
    let hop_limit = if req.hop_limit < 1 {
        1
    } else if req.hop_limit > MAX_HOP_LIMIT {
        MAX_HOP_LIMIT
    } else {
        req.hop_limit
    };
    let descriptor = PayloadDescriptor::Chunked {
        length: chunked.manifest.total_length,
        manifest_id,
        content_id: chunked.manifest.payload_hash,
    };
    let mut env = DropEnvelope {
        protocol_version: PROTOCOL_VERSION,
        object_id: ObjectId::blake3([0u8; 32]),
        source: req.author.peer_id,
        destination: req.destination,
        creation_time: req.now,
        expiration: expires,
        priority: req.priority,
        hop_limit,
        hop_count: 0,
        payload_descriptor: descriptor,
        routing_policy: req.routing,
        security_descriptor: security,
        application: req.application,
        topic: req.topic,
        extensions: seal_extensions(req.seal_until, req.seal_quorum),
        author_pk: req.author.public.ed25519_pk,
        signature: [0u8; 64],
    };
    let pre = envelope_preimage(&env);
    env.signature = req.author.sign(&pre);
    assert(envelope_bytes(env) == pre@);
    let mut signed = pre;
    push_all(&mut signed, &env.signature);
    let d = DefaultProvider.hash(HashAlgorithm::Blake3, &signed);
    env.object_id = ObjectId::blake3(d.0);
    assert(envelope_bytes(env) == pre@);
    let built = BuiltDrop { envelope: env, manifest: chunked.manifest, chunks: chunked.chunks };
    proof {
        match req.erasure {
            None => {},
            Some(spec) => {
                assert(chunked_from(raw0, ciphertext@, req.chunking));
                assert(ChunkedPayload { manifest: built.manifest, chunks: built.chunks } == chunked);
                if (raw0.chunks@.len() as u32) == 0 {
                } else {
                    assert(erasure_applied(chunked, raw0, spec));
                }
            },
        }
    }
    Ok(built)
}


/// The bytes a Drop carries before protection: the plaintext, zstd-compressed at level 3
/// when asked.
pub open spec fn drop_body(req: CreateDrop) -> Seq<u8> {
    if req.compress {
        zstd_frame(req.plaintext@, 3)
    } else {
        req.plaintext@
    }
}

/// The Drop is public: asked to be, or addressed to everyone.
pub open spec fn is_public_drop(req: CreateDrop) -> bool {
    req.public || req.destination is Public
}

/// `ct` is `body` sealed under `cek` for the author, and every wrap seals `cek` for its
/// recipient, in the order the recipients were given.
pub open spec fn sealed_with(req: CreateDrop, body: Seq<u8>, ct: Seq<u8>, sec: SecurityDescriptor, cek: Seq<u8>) -> bool {
    &&& cek.len() == 32
    &&& aead_len_ok(body.len())
    &&& ct == aead_seal(cek, sec.content_nonce@, payload_aad(req.author.peer_id.0@), body)
    &&& forall|i: int|
        0 <= i < req.recipients@.len() ==> (#[trigger] sec.wraps@[i]).peer == req.recipients@[i].0
            && wrap_seals(sec.wraps@[i], req.recipients@[i].1.x25519_pk@, cek)
}

/// `ct` and `sec` protect `body` as `req` asks: a public Drop carries it as is and is only
/// signed; any other is encrypted under a fresh content key wrapped for each recipient.
pub open spec fn protected(req: CreateDrop, body: Seq<u8>, ct: Seq<u8>, sec: SecurityDescriptor) -> bool {
    if is_public_drop(req) {
        &&& ct == body
        &&& sec.public
        &&& sec.wraps@.len() == 0
        &&& sec.scheme@ == "signed-only-v2"@
        &&& forall|k: int| 0 <= k < NONCE_LEN ==> sec.content_nonce@[k] == 0
    } else {
        &&& !sec.public
        &&& sec.scheme@ == ENC_SCHEME@
        &&& sec.wraps@.len() == req.recipients@.len()
        &&& exists|cek: Seq<u8>| #[trigger] sealed_with(req, body, ct, sec, cek)
    }
}

/// The payload sealed under a content key and nonce, with the author as associated data.
pub open spec fn sealed_body(req: CreateDrop, body: Seq<u8>, cek: Seq<u8>, nonce: Seq<u8>) -> Seq<u8> {
    aead_seal(cek, nonce, payload_aad(req.author.peer_id.0@), body)
}

/// `w` wraps `cek` for the recipient `to` under the ephemeral secret and nonce `eph`, as
/// `wrap_cek_with` makes it.
pub open spec fn wrap_made(
    w: RecipientWrap,
    to: (PeerId, PublicIdentity),
    cek: Seq<u8>,
    eph: ([u8; 32], [u8; NONCE_LEN]),
) -> bool {
    &&& w.peer == to.0
    &&& w.eph_pk@ == x25519_public(eph.0@)
    &&& w.nonce@ == eph.1@
    &&& w.wrapped_key@ == aead_seal(
        wrap_key_of(x25519_shared(eph.0@, to.1.x25519_pk@), x25519_public(eph.0@)),
        eph.1@,
        wrap_aad(to.0.0@),
        cek,
    )
}

/// Builds an encrypted Drop from its (possibly compressed) body with the content key, payload
/// nonce and per-recipient ephemeral secrets and nonces given: seals the body, wraps the key
/// for each recipient in order, then assembles and signs. It fails with `Ddc6001Crypto` when
/// the body is too long for the cipher, otherwise exactly as chunking the ciphertext fails.
pub fn seal_drop(
    req: CreateDrop<'_>,
    body: Vec<u8>,
    cek: [u8; 32],
    nonce: [u8; NONCE_LEN],
    ephemerals: &[([u8; 32], [u8; NONCE_LEN])],
) -> (r: DdResult<BuiltDrop>)
    requires
        ephemerals@.len() == req.recipients@.len(),
    ensures
        !aead_len_ok(body@.len()) ==> fails_with(r, ErrorCode::Ddc6001Crypto),
        aead_len_ok(body@.len()) ==> match chunking_fails(
            sealed_body(req, body@, cek@, nonce@),
            req.chunking,
            req.erasure,
        ) {
            Some(c) => fails_with(r, c),
            None => r is Ok,
        },
        aead_len_ok(body@.len()) ==> exists|sec: SecurityDescriptor|
            #[trigger] sealed_with(req, body@, sealed_body(req, body@, cek@, nonce@), sec, cek@)
                && !sec.public && sec.scheme@ == ENC_SCHEME@ && sec.wraps@.len() == req.recipients@.len(),
        r matches Ok(b) ==> {
            let sec = b.envelope.security_descriptor;
            &&& drop_assembled(req, sealed_body(req, body@, cek@, nonce@), sec, b)
            &&& sealed_with(req, body@, sealed_body(req, body@, cek@, nonce@), sec, cek@)
            &&& !sec.public
            &&& sec.scheme@ == ENC_SCHEME@
            &&& sec.content_nonce@ == nonce@
            &&& sec.wraps@.len() == req.recipients@.len()
            &&& forall|i: int|
                0 <= i < req.recipients@.len() ==> wrap_made(
                    #[trigger] sec.wraps@[i],
                    req.recipients@[i],
                    cek@,
                    ephemerals@[i],
                )
        },
{
    let ghost req0 = req;
    let mut aad = ascii_bytes_of("ddp-payload-aad-v2");
    push_all(&mut aad, req.author.peer_id.as_bytes());
    let sealed = match encrypt_payload(&cek, &nonce, &aad, &body) {
        Err(e) => {
            return Err(e);
        },
        Ok(c) => c,
    };
    let mut wraps: Vec<RecipientWrap> = Vec::new();
    let mut i: usize = 0;
    while i < req.recipients.len()
        invariant
            req == req0,
            ephemerals@.len() == req.recipients@.len(),
            i <= req.recipients@.len(),
            wraps@.len() == i,
            forall|j: int|
                0 <= j < i ==> wrap_made(#[trigger] wraps@[j], req.recipients@[j], cek@, ephemerals@[j])
                    && wrap_seals(wraps@[j], req.recipients@[j].1.x25519_pk@, cek@),
        decreases req.recipients@.len() - i,
    {
        let w = match wrap_cek_with(
            &req.recipients[i].1.x25519_pk,
            req.recipients[i].0,
            &cek,
            &ephemerals[i].0,
            &ephemerals[i].1,
        ) {
            Err(e) => {
                return Err(e);
            },
            Ok(w) => w,
        };
        wraps.push(w);
        i += 1;
    }
    let sec = SecurityDescriptor { scheme: owned(ENC_SCHEME), public: false, wraps, content_nonce: nonce };
    assert(sealed_with(req0, body@, sealed@, sec, cek@));
    let ghost ctv = sealed@;
    let ghost secv = sec;
    let out = assemble_drop(req, sealed, sec);
    proof {
        if out is Ok {
            assert(drop_assembled(req0, ctv, secv, out->Ok_0));
        }
    }
    out
}

/// Builds a signed Drop: checks the recipient count (`Ddp1006LimitExceeded` over
/// `MAX_RECIPIENTS`), compresses when asked, and unless the Drop is public draws a content
/// key, a nonce and an ephemeral key and nonce per recipient and hands them to `seal_drop`,
/// which encrypts, wraps, assembles and signs; a public Drop is assembled and signed as is. Other failures come
/// from compression, the random generator and the cipher (`Ddc6001Crypto`) and from chunking
/// (`chunking_fails`): a public Drop fails exactly as chunking its body does, and an encrypted
/// one, short of a cipher or generator failure, only as chunking its ciphertext does.
pub fn build_drop(req: CreateDrop<'_>) -> (r: DdResult<BuiltDrop>)
    ensures
        req.recipients@.len() > MAX_RECIPIENTS ==> fails_with(r, ErrorCode::Ddp1006LimitExceeded),
        r matches Ok(b) ==> exists|ct: Seq<u8>|
            protected(req, drop_body(req), ct, b.envelope.security_descriptor) && #[trigger] drop_assembled(
                req,
                ct,
                b.envelope.security_descriptor,
                b,
            ),
        r is Err ==> fails_with(r, ErrorCode::Ddp1006LimitExceeded) || fails_with(
            r,
            ErrorCode::Ddc6001Crypto,
        ) || fails_with(r, ErrorCode::Dds2002CorruptChunk),
        req.recipients@.len() <= MAX_RECIPIENTS && is_public_drop(req) && !(req.compress && fails_with(
            r,
            ErrorCode::Ddc6001Crypto,
        )) ==> match chunking_fails(drop_body(req), req.chunking, req.erasure) {
            Some(c) => fails_with(r, c),
            None => r is Ok,
        },
        req.recipients@.len() <= MAX_RECIPIENTS && !is_public_drop(req) && r is Err && !fails_with(
            r,
            ErrorCode::Ddc6001Crypto,
        ) ==> exists|ct: Seq<u8>, sec: SecurityDescriptor|
            #[trigger] protected(req, drop_body(req), ct, sec) && chunking_fails(ct, req.chunking, req.erasure)
                == Some(err_code(r->Err_0)),
{
    if req.recipients.len() > MAX_RECIPIENTS {
        return Err(coded(ErrorCode::Ddp1006LimitExceeded, "too many recipients"));
    }
    let ghost req0 = req;
    let CreateDrop {
        author,
        recipients,
        destination,
        plaintext,
        now,
        ttl_secs,
        priority,
        routing,
        application,
        topic,
        chunking,
        compress,
        hop_limit,
        public,
        seal_until,
        seal_quorum,
        erasure,
    } = req;
    let body = if compress {
        match zstd_compress(&plaintext) {
            Err(e) => {
                return Err(e);
            },
            Ok(b) => b,
        }
    } else {
        plaintext
    };
    assert(body@ == drop_body(req0));
    let ct: Vec<u8>;
    let sec: SecurityDescriptor;
    if public || destination.is_public() {
        ct = body;
        sec = SecurityDescriptor {
            scheme: owned("signed-only-v2"),
            public: true,
            wraps: Vec::new(),
            content_nonce: [0u8; NONCE_LEN],
        };
        assert(protected(req0, drop_body(req0), ct@, sec));
    } else {
        let cek = match generate_cek() {
            Err(e) => {
                return Err(e);
            },
            Ok(k) => k,
        };
        let nonce = match random_bytes::<NONCE_LEN>() {
            Err(e) => {
                return Err(e);
            },
            Ok(n) => n,
        };
        let mut ephemerals: Vec<([u8; 32], [u8; NONCE_LEN])> = Vec::new();
        let mut i: usize = 0;
        while i < recipients.len()
            invariant
                recipients@.len() <= MAX_RECIPIENTS,
                recipients == req0.recipients,
                req0 == req,
                !is_public_drop(req0),
                i <= recipients@.len(),
                ephemerals@.len() == i,
            decreases recipients@.len() - i,
        {
            let esk = match random_bytes::<32>() {
                Err(e) => {
                    return Err(e);
                },
                Ok(k) => k,
            };
            let en = match random_bytes::<NONCE_LEN>() {
                Err(e) => {
                    return Err(e);
                },
                Ok(n) => n,
            };
            ephemerals.push((esk, en));
            i += 1;
        }
        let sreq = CreateDrop {
            author,
            recipients,
            destination,
            plaintext: Vec::new(),
            now,
            ttl_secs,
            priority,
            routing,
            application,
            topic,
            chunking,
            compress,
            hop_limit,
            public,
            seal_until,
            seal_quorum,
            erasure,
        };
        let ghost bodyv = body@;
        let out = seal_drop(sreq, body, cek, nonce, &ephemerals);
        proof {
            let ctv = sealed_body(sreq, bodyv, cek@, nonce@);
            assert(ctv == sealed_body(req0, bodyv, cek@, nonce@));
            if aead_len_ok(bodyv.len()) {
                let sec = choose|sec: SecurityDescriptor|
                    #[trigger] sealed_with(sreq, bodyv, ctv, sec, cek@) && !sec.public && sec.scheme@
                        == ENC_SCHEME@ && sec.wraps@.len() == sreq.recipients@.len();
                assert(sealed_with(req0, bodyv, ctv, sec, cek@));
                assert(protected(req0, drop_body(req0), ctv, sec));
            }
            if out is Ok {
                let b = out->Ok_0;
                assert(drop_assembled(req0, ctv, b.envelope.security_descriptor, b));
                assert(sealed_with(req0, bodyv, ctv, b.envelope.security_descriptor, cek@));
                assert(protected(req0, drop_body(req0), ctv, b.envelope.security_descriptor));
            }
        }
        return out;
    }
    let rest = CreateDrop {
        author,
        recipients,
        destination,
        plaintext: Vec::new(),
        now,
        ttl_secs,
        priority,
        routing,
        application,
        topic,
        chunking,
        compress,
        hop_limit,
        public,
        seal_until,
        seal_quorum,
        erasure,
    };
    let ghost ctv = ct@;
    let ghost secv = sec;
    let out = assemble_drop(rest, ct, sec);
    proof {
        if out is Ok {
            assert(drop_assembled(req0, ctv, secv, out->Ok_0));
        }
    }
    out
}

/// A Drop built by `build_drop` at a time before the last representable second is sound at
/// every time before it expires, and carries a signature made with its author's key; so
/// `verify_envelope` accepts it until it expires.
pub proof fn lemma_built_drop_verifies(req: CreateDrop, ct: Seq<u8>, b: BuiltDrop, t: u64)
    requires
        drop_assembled(req, ct, b.envelope.security_descriptor, b),
        req.author.consistent(),
        req.now < u64::MAX,
        t < b.envelope.expiration,
    ensures
        envelope_sound(b.envelope, t),
        req.author.ed_secret().len() == 32,
        b.envelope.author_pk@ == ed25519_public(req.author.ed_secret()),
        b.envelope.signature@ == ed25519_signature(req.author.ed_secret(), envelope_bytes(b.envelope)),
{
    let env = b.envelope;
    assert(env.extensions@.len() <= 2);
    assert forall|i: int| 0 <= i < env.extensions@.len() implies !(#[trigger] env.extensions@[i]).critical by {}
}

/// The recipients of `req` name `id`, and every entry for it carries its X25519 key.
pub open spec fn recipient_of(req: CreateDrop, id: PrivateIdentity) -> bool {
    &&& exists|i: int| 0 <= i < req.recipients@.len() && (#[trigger] req.recipients@[i]).0 == id.peer_id
    &&& forall|j: int|
        0 <= j < req.recipients@.len() && (#[trigger] req.recipients@[j]).0 == id.peer_id
            ==> req.recipients@[j].1.x25519_pk == id.public.x25519_pk
}

/// The chunks of a Drop built by `build_drop` (without erasure coding) reassemble and carry
/// its body for every recipient, and for anyone when it is public; so `open_drop_at` opens it
/// to that body once its seal is lifted. A Drop asked for without seals is never sealed.
pub proof fn lemma_built_drop_opens(req: CreateDrop, ct: Seq<u8>, b: BuiltDrop, id: PrivateIdentity)
    requires
        drop_assembled(req, ct, b.envelope.security_descriptor, b),
        protected(req, drop_body(req), ct, b.envelope.security_descriptor),
        req.erasure is None,
        is_public_drop(req) || recipient_of(req, id),
    ensures
        opens_to(id, b.envelope, b.manifest, views(b.chunks@), drop_body(req)),
        req.seal_until is None && req.seal_quorum is None ==> forall|now: u64, n: u32|
            !#[trigger] still_sealed(b.envelope, now, n),
{
    let cp = ChunkedPayload { manifest: b.manifest, chunks: b.chunks };
    crate::chunk::lemma_chunk_then_reassemble(ct, req.chunking, cp);
    let sec = b.envelope.security_descriptor;
    if !is_public_drop(req) {
        let cek = choose|cek: Seq<u8>| #[trigger] sealed_with(req, drop_body(req), ct, sec, cek);
        let i = choose|i: int| 0 <= i < req.recipients@.len() && (#[trigger] req.recipients@[i]).0 == id.peer_id;
        lemma_first_wrap(sec.wraps@, id.peer_id, 0);
        assert(sec.wraps@[i].peer == id.peer_id);
        let k = first_wrap(sec.wraps@, id.peer_id, 0)->0;
        assert(sec.wraps@[k as int].peer == req.recipients@[k as int].0);
        assert(req.recipients@[k as int].1.x25519_pk == id.public.x25519_pk);
        assert(sealed_for(id, b.envelope, ct, drop_body(req)));
    }
}


/// Opens a Drop for `identity` at the present time by the system clock, with no receipts
/// counted.
pub fn open_drop(identity: &PrivateIdentity, env: &DropEnvelope, manifest: &Manifest, chunks: &[Vec<u8>]) -> (r:
    DdResult<Vec<u8>>)
    ensures
        exists|now: u64|
            match #[trigger] open_outcome(*identity, *env, *manifest, views(chunks@), now, 0) {
                Ok(p) => r is Ok && r->Ok_0@ == p,
                Err(c) => fails_with(r, c),
            },
        forall|pt: Seq<u8>|
            identity.consistent() && (forall|t: u64| !#[trigger] still_sealed(*env, t, 0))
                && #[trigger] opens_to(*identity, *env, *manifest, views(chunks@), pt) ==> r is Ok
                && r->Ok_0@ == pt,
{
    let now = unix_now();
    let r = open_drop_at(identity, env, manifest, chunks, now, 0);
    assert(!still_sealed(*env, now, 0) || still_sealed(*env, now, 0));
    r
}

} // verus!
