//! Cryptographic policy: the hash provider, identities, key wrapping and payload
//! encryption. Constructions: Ed25519, X25519, HKDF-SHA256, ChaCha20-Poly1305, BLAKE3,
//! HMAC-SHA256. No custom primitives.

use crate::envelope::{PublicIdentity, RecipientWrap};
use crate::error::{coded, DdError, DdResult, ErrorCode, err_code, fails_with};
use crate::ids::{Digest, HashAlgorithm, PeerId};
use crate::limits::NONCE_LEN;
use crate::primitives::{
    aead_decrypt, aead_encrypt, aead_len_ok, aead_open, aead_seal, blake3_digest, blake3_hash,
    ed25519_accepts, ed25519_public, ed25519_public_key, ed25519_sign, ed25519_signature,
    ed25519_verify, hkdf_sha256, hkdf_sha256_okm, hmac_sha256, hmac_sha256_tag, os_random,
    sha256_digest, sha256_hash, x25519_agree, x25519_public, x25519_public_key, x25519_shared,
};
use crate::text::{ascii_bytes, ascii_bytes_of, push_all};
use vstd::string::StringSliceAdditionalSpecFns;
use vstd::prelude::*;

verus! {

/// Big-endian bytes of a `u64`.
pub open spec fn be64(n: u64) -> Seq<u8> {
    seq![
        (n >> 56) as u8,
        (n >> 48) as u8,
        (n >> 40) as u8,
        (n >> 32) as u8,
        (n >> 24) as u8,
        (n >> 16) as u8,
        (n >> 8) as u8,
        n as u8,
    ]
}

/// Big-endian bytes of a `u32`.
pub open spec fn be32(n: u32) -> Seq<u8> {
    seq![(n >> 24) as u8, (n >> 16) as u8, (n >> 8) as u8, n as u8]
}

/// Big-endian bytes of a `u16`.
pub open spec fn be16(n: u16) -> Seq<u8> {
    seq![(n >> 8) as u8, n as u8]
}

pub fn u64_be(n: u64) -> (b: [u8; 8])
    ensures
        b@ == be64(n),
{
    #[verifier::truncate]
    let b = [
        (n >> 56) as u8,
        (n >> 48) as u8,
        (n >> 40) as u8,
        (n >> 32) as u8,
        (n >> 24) as u8,
        (n >> 16) as u8,
        (n >> 8) as u8,
        n as u8,
    ];
    assert(b@ =~= be64(n));
    b
}

pub fn u32_be(n: u32) -> (b: [u8; 4])
    ensures
        b@ == be32(n),
{
    #[verifier::truncate]
    let b = [(n >> 24) as u8, (n >> 16) as u8, (n >> 8) as u8, n as u8];
    assert(b@ =~= be32(n));
    b
}

pub fn u16_be(n: u16) -> (b: [u8; 2])
    ensures
        b@ == be16(n),
{
    #[verifier::truncate]
    let b = [(n >> 8) as u8, n as u8];
    assert(b@ =~= be16(n));
    b
}

/// Two big-endian bytes read back as the `u16` they came from.
pub proof fn lemma_u16_bytes(n: u16, x0: u8, x1: u8)
    by (bit_vector)
    requires
        x0 == (n >> 8) as u8,
        x1 == n as u8,
    ensures
        ((x0 as u16) << 8u16) | (x1 as u16) == n,
{
}

/// Four big-endian bytes read back as the `u32` they came from.
pub proof fn lemma_u32_bytes(n: u32, x0: u8, x1: u8, x2: u8, x3: u8)
    by (bit_vector)
    requires
        x0 == (n >> 24) as u8,
        x1 == (n >> 16) as u8,
        x2 == (n >> 8) as u8,
        x3 == n as u8,
    ensures
        ((x0 as u32) << 24u32) | ((x1 as u32) << 16u32) | ((x2 as u32) << 8u32) | (x3 as u32) == n,
{
}

/// Eight big-endian bytes read back as the `u64` they came from.
pub proof fn lemma_u64_bytes(n: u64, x0: u8, x1: u8, x2: u8, x3: u8, x4: u8, x5: u8, x6: u8, x7: u8)
    by (bit_vector)
    requires
        x0 == (n >> 56) as u8,
        x1 == (n >> 48) as u8,
        x2 == (n >> 40) as u8,
        x3 == (n >> 32) as u8,
        x4 == (n >> 24) as u8,
        x5 == (n >> 16) as u8,
        x6 == (n >> 8) as u8,
        x7 == n as u8,
    ensures
        ((x0 as u64) << 56u64) | ((x1 as u64) << 48u64) | ((x2 as u64) << 40u64) | ((x3 as u64)
            << 32u64) | ((x4 as u64) << 24u64) | ((x5 as u64) << 16u64) | ((x6 as u64) << 8u64) | (
        x7 as u64) == n,
{
}

pub const ENC_SCHEME: &'static str = "x25519-hkdf-chacha20poly1305-v2";

pub const SESSION_SCHEME: &'static str = "x25519-hkdf-chacha20poly1305-session-v2";

/// The digest a hash algorithm gives for `data`.
pub open spec fn hash_of(alg: HashAlgorithm, data: Seq<u8>) -> Seq<u8> {
    match alg {
        HashAlgorithm::Blake3 => blake3_digest(data),
        HashAlgorithm::Sha256 => sha256_digest(data),
    }
}

/// Node identifier of a pair of public keys.
pub open spec fn peer_id_of(ed: Seq<u8>, x: Seq<u8>) -> Seq<u8> {
    blake3_digest(ascii_bytes("ddp-nid-v2"@) + ed + x)
}

/// What an identity's self-signature covers.
pub open spec fn identity_preimage(ed: Seq<u8>, x: Seq<u8>) -> Seq<u8> {
    ascii_bytes("ddp-id-v2"@) + ed + x
}

/// The crypto provider every part of the library goes through.
#[derive(Debug, Default, Clone, Copy)]
pub struct DefaultProvider;

impl DefaultProvider {
    pub fn hash(&self, alg: HashAlgorithm, data: &[u8]) -> (d: Digest)
        ensures
            d.0@ == hash_of(alg, data@),
    {
        match alg {
            HashAlgorithm::Blake3 => Digest(blake3_hash(data)),
            HashAlgorithm::Sha256 => Digest(sha256_hash(data)),
        }
    }

    /// Signs with the Ed25519 secret seed.
    pub fn sign(&self, seed: &[u8; 32], msg: &[u8]) -> (sig: [u8; 64])
        ensures
            sig@ == ed25519_signature(seed@, msg@),
    {
        ed25519_sign(seed, msg)
    }

    /// Fails with `Ddc6001Crypto` unless the signature verifies. A signature made with a
    /// seed verifies under that seed's public key.
    pub fn verify(&self, pk: &[u8; 32], msg: &[u8], sig: &[u8; 64]) -> (r: DdResult<()>)
        ensures
            r is Ok <==> ed25519_accepts(pk@, msg@, sig@),
            r is Err ==> fails_with(r, ErrorCode::Ddc6001Crypto),
            forall|seed: Seq<u8>|
                seed.len() == 32 && pk@ == ed25519_public(seed) && sig@ == ed25519_signature(
                    seed,
                    msg@,
                ) ==> r is Ok,
    {
        if ed25519_verify(pk, msg, sig) {
            Ok(())
        } else {
            Err(coded(ErrorCode::Ddc6001Crypto, "signature invalid"))
        }
    }

    /// ChaCha20-Poly1305 encryption; fails with `Ddc6001Crypto` only on oversized input.
    pub fn aead_encrypt(&self, key: &[u8; 32], nonce: &[u8; NONCE_LEN], aad: &[u8], pt: &[u8]) -> (r:
        DdResult<Vec<u8>>)
        ensures
            r is Ok <==> aead_len_ok(pt@.len()),
            r matches Ok(ct) ==> ct@ == aead_seal(key@, nonce@, aad@, pt@),
            r is Err ==> fails_with(r, ErrorCode::Ddc6001Crypto),
    {
        match aead_encrypt(key, nonce, aad, pt) {
            Some(ct) => Ok(ct),
            None => Err(coded(ErrorCode::Ddc6001Crypto, "encrypt failed")),
        }
    }

    /// ChaCha20-Poly1305 decryption; fails with `Ddc6001Crypto` on a forged or damaged
    /// ciphertext. What was sealed opens to what was sealed.
    pub fn aead_decrypt(&self, key: &[u8; 32], nonce: &[u8; NONCE_LEN], aad: &[u8], ct: &[u8]) -> (r:
        DdResult<Vec<u8>>)
        ensures
            match r {
                Ok(pt) => aead_open(key@, nonce@, aad@, ct@) == Some(pt@),
                Err(_) => aead_open(key@, nonce@, aad@, ct@) is None && fails_with(
                    r,
                    ErrorCode::Ddc6001Crypto,
                ),
            },
            forall|pt: Seq<u8>|
                aead_len_ok(pt.len()) && ct@ == aead_seal(key@, nonce@, aad@, pt) ==> (r is Ok
                    && r->Ok_0@ == pt),
    {
        match aead_decrypt(key, nonce, aad, ct) {
            Some(pt) => Ok(pt),
            None => Err(coded(ErrorCode::Ddc6001Crypto, "decrypt failed")),
        }
    }

    pub fn peer_id(&self, ed: &[u8; 32], x: &[u8; 32]) -> (p: PeerId)
        ensures
            p.0@ == peer_id_of(ed@, x@),
    {
        let mut buf = ascii_bytes_of("ddp-nid-v2");
        push_all(&mut buf, ed);
        push_all(&mut buf, x);
        PeerId::from_digest(self.hash(HashAlgorithm::Blake3, &buf).0)
    }
}

/// A node's secret keys, with its public identity and node identifier.
#[derive(Debug)]
pub struct PrivateIdentity {
    pub public: PublicIdentity,
    pub peer_id: PeerId,
    pub ed25519: [u8; 32],
    pub x25519: [u8; 32],
}

impl PrivateIdentity {
    /// The Ed25519 secret seed.
    pub open spec fn ed_secret(&self) -> Seq<u8> {
        self.ed25519@
    }

    /// The X25519 secret.
    pub open spec fn x_secret(&self) -> Seq<u8> {
        self.x25519@
    }

    pub proof fn lemma_secret_lens(&self)
        ensures
            self.ed_secret().len() == 32,
            self.x_secret().len() == 32,
    {
    }

    /// The public half, the node identifier and the self-signature all follow from the
    /// secrets.
    pub open spec fn consistent(&self) -> bool {
        &&& self.public.version == 2
        &&& self.public.ed25519_pk@ == ed25519_public(self.ed_secret())
        &&& self.public.x25519_pk@ == x25519_public(self.x_secret())
        &&& self.public.signature@ == ed25519_signature(
            self.ed_secret(),
            identity_preimage(self.public.ed25519_pk@, self.public.x25519_pk@),
        )
        &&& self.peer_id.0@ == peer_id_of(self.public.ed25519_pk@, self.public.x25519_pk@)
    }

    /// What consistency says, spelled out.
    pub proof fn lemma_consistent(&self)
        requires
            self.consistent(),
        ensures
            self.public.version == 2,
            self.public.ed25519_pk@ == ed25519_public(self.ed_secret()),
            self.public.x25519_pk@ == x25519_public(self.x_secret()),
            self.public.signature@ == ed25519_signature(
                self.ed_secret(),
                identity_preimage(self.public.ed25519_pk@, self.public.x25519_pk@),
            ),
            self.peer_id.0@ == peer_id_of(self.public.ed25519_pk@, self.public.x25519_pk@),
    {
    }

    /// A fresh identity from the operating system's random generator; fails with
    /// `Ddc6001Crypto` when that generator fails.
    pub fn generate() -> (r: DdResult<Self>)
        ensures
            r matches Ok(id) ==> id.consistent(),
            r is Err ==> fails_with(r, ErrorCode::Ddc6001Crypto),
    {
        let ed = random_bytes::<32>()?;
        let x = random_bytes::<32>()?;
        Ok(Self::from_secrets(ed, x))
    }

    pub fn from_secrets(ed25519: [u8; 32], x25519: [u8; 32]) -> (id: Self)
        ensures
            id.consistent(),
            id.ed_secret() == ed25519@,
            id.x_secret() == x25519@,
    {
        let p = DefaultProvider;
        let ed_pk = ed25519_public_key(&ed25519);
        let x_pk = x25519_public_key(&x25519);
        let mut pre = ascii_bytes_of("ddp-id-v2");
        push_all(&mut pre, &ed_pk);
        push_all(&mut pre, &x_pk);
        let signature = p.sign(&ed25519, &pre);
        let public = PublicIdentity { version: 2, ed25519_pk: ed_pk, x25519_pk: x_pk, signature };
        let peer_id = p.peer_id(&ed_pk, &x_pk);
        Self { public, peer_id, ed25519, x25519 }
    }

    pub fn ed25519_bytes(&self) -> (b: [u8; 32])
        ensures
            b@ == self.ed_secret(),
    {
        self.ed25519
    }

    pub fn x25519_bytes(&self) -> (b: [u8; 32])
        ensures
            b@ == self.x_secret(),
    {
        self.x25519
    }

    /// Signs with this identity's Ed25519 key.
    pub fn sign(&self, msg: &[u8]) -> (sig: [u8; 64])
        ensures
            sig@ == ed25519_signature(self.ed_secret(), msg@),
    {
        ed25519_sign(&self.ed25519, msg)
    }

    /// X25519 agreement between this identity's secret and a public key.
    pub fn agree(&self, pk: &[u8; 32]) -> (ss: [u8; 32])
        ensures
            ss@ == x25519_shared(self.x_secret(), pk@),
            forall|other: Seq<u8>|
                other.len() == 32 && pk@ == x25519_public(other) ==> ss@ == x25519_shared(
                    other,
                    x25519_public(self.x_secret()),
                ),
    {
        x25519_agree(&self.x25519, pk)
    }
}

/// What checking a public identity gives: its node identifier, or the failure's code.
pub open spec fn identity_outcome(id: PublicIdentity) -> Result<Seq<u8>, ErrorCode> {
    if id.version != 2 {
        Err(ErrorCode::Ddp1002UnsupportedVersion)
    } else if !ed25519_accepts(
        id.ed25519_pk@,
        identity_preimage(id.ed25519_pk@, id.x25519_pk@),
        id.signature@,
    ) {
        Err(ErrorCode::Ddc6001Crypto)
    } else {
        Ok(peer_id_of(id.ed25519_pk@, id.x25519_pk@))
    }
}

/// Checks a public identity's version and self-signature and derives its node identifier.
/// The public identity of a consistent private identity always passes, with its identifier.
pub fn verify_identity(id: &PublicIdentity) -> (r: DdResult<PeerId>)
    ensures
        match r {
            Ok(p) => identity_outcome(*id) == Ok::<_, ErrorCode>(p.0@),
            Err(e) => identity_outcome(*id) == Err::<Seq<u8>, _>(err_code(e)),
        },
        forall|priv_id: PrivateIdentity|
            priv_id.consistent() && priv_id.public == *id ==> (r matches Ok(p) && p == priv_id.peer_id),
{
    if id.version != 2 {
        return Err(coded(ErrorCode::Ddp1002UnsupportedVersion, "identity version"));
    }
    let p = DefaultProvider;
    let mut pre = ascii_bytes_of("ddp-id-v2");
    push_all(&mut pre, &id.ed25519_pk);
    push_all(&mut pre, &id.x25519_pk);
    let r = p.verify(&id.ed25519_pk, &pre, &id.signature);
    proof {
        assert forall|priv_id: PrivateIdentity|
            priv_id.consistent() && priv_id.public == *id implies r is Ok by {
            priv_id.lemma_secret_lens();
            priv_id.lemma_consistent();
        }
    }
    r?;
    let pid = p.peer_id(&id.ed25519_pk, &id.x25519_pk);
    proof {
        assert forall|priv_id: PrivateIdentity|
            priv_id.consistent() && priv_id.public == *id implies pid == priv_id.peer_id by {
            priv_id.lemma_consistent();
            assert(pid.0 =~= priv_id.peer_id.0);
        }
    }
    Ok(pid)
}

/// `N` bytes from the operating system's random generator; fails with `Ddc6001Crypto`
/// when that generator fails. The bytes are random, so nothing is stated of them.
pub fn random_bytes<const N: usize>() -> (r: DdResult<[u8; N]>)
    ensures
        r is Err ==> fails_with(r, ErrorCode::Ddc6001Crypto),
{
    match os_random::<N>() {
        Some(b) => Ok(b),
        None => Err(coded(ErrorCode::Ddc6001Crypto, "operating system random generator failed")),
    }
}

/// A fresh content-encryption key: 32 random bytes (nothing is stated of them), or
/// `Ddc6001Crypto` when the generator fails.
pub fn generate_cek() -> (r: DdResult<[u8; 32]>)
    ensures
        r is Err ==> fails_with(r, ErrorCode::Ddc6001Crypto),
{
    random_bytes::<32>()
}

/// Key that wraps a content key for one recipient.
pub open spec fn wrap_key_of(shared: Seq<u8>, eph_pk: Seq<u8>) -> Seq<u8> {
    hkdf_sha256_okm(eph_pk, shared, ascii_bytes("ddp-wrap-v2"@), 32)
}

/// Associated data of a wrap for a recipient.
pub open spec fn wrap_aad(recipient: Seq<u8>) -> Seq<u8> {
    ascii_bytes("ddp-wrap-aad-v2"@) + recipient
}

/// `w` seals `cek` for the holder of the X25519 secret whose public key is `rx`.
pub open spec fn wrap_seals(w: RecipientWrap, rx: Seq<u8>, cek: Seq<u8>) -> bool {
    exists|esk: Seq<u8>|
        esk.len() == 32 && w.eph_pk@ == x25519_public(esk) && w.wrapped_key@ == aead_seal(
            wrap_key_of(x25519_shared(esk, rx), w.eph_pk@),
            w.nonce@,
            wrap_aad(w.peer.0@),
            cek,
        )
}

fn wrap_derive(shared: &[u8; 32], eph_pk: &[u8; 32]) -> (k: [u8; 32])
    ensures
        k@ == wrap_key_of(shared@, eph_pk@),
{
    let info = ascii_bytes_of("ddp-wrap-v2");
    let okm = hkdf_sha256(eph_pk, shared, &info, 32);
    crate::ids::bytes32(&okm)
}

fn wrap_aad_bytes(recipient: &PeerId) -> (aad: Vec<u8>)
    ensures
        aad@ == wrap_aad(recipient.0@),
{
    let mut aad = ascii_bytes_of("ddp-wrap-aad-v2");
    push_all(&mut aad, &recipient.0);
    aad
}

/// Wraps a content key for a recipient under the ephemeral X25519 secret `eph_sk` and the
/// nonce given: the wrapping key is derived from their shared secret and the ephemeral public
/// key, and the content key is sealed under it with the recipient as associated data.
pub fn wrap_cek_with(
    recipient_x25519: &[u8; 32],
    recipient: PeerId,
    cek: &[u8; 32],
    eph_sk: &[u8; 32],
    nonce: &[u8; NONCE_LEN],
) -> (r: DdResult<RecipientWrap>)
    ensures
        r is Ok,
        r matches Ok(w) ==> {
            &&& w.peer == recipient
            &&& w.eph_pk@ == x25519_public(eph_sk@)
            &&& w.nonce@ == nonce@
            &&& w.wrapped_key@ == aead_seal(
                wrap_key_of(x25519_shared(eph_sk@, recipient_x25519@), x25519_public(eph_sk@)),
                nonce@,
                wrap_aad(recipient.0@),
                cek@,
            )
        },
        r matches Ok(w) ==> wrap_seals(w, recipient_x25519@, cek@),
{
    let eph_pk = x25519_public_key(eph_sk);
    let shared = x25519_agree(eph_sk, recipient_x25519);
    let key = wrap_derive(&shared, &eph_pk);
    let aad = wrap_aad_bytes(&recipient);
    let wrapped = DefaultProvider.aead_encrypt(&key, nonce, &aad, cek)?;
    let w = RecipientWrap { peer: recipient, eph_pk, nonce: *nonce, wrapped_key: wrapped };
    assert(wrap_seals(w, recipient_x25519@, cek@)) by {
        assert(eph_sk@.len() == 32);
    }
    Ok(w)
}

/// Wraps a content key for a recipient under a fresh ephemeral X25519 key and nonce (see
/// `wrap_cek_with`); fails with `Ddc6001Crypto` only when the random generator fails.
pub fn wrap_cek(recipient_x25519: &[u8; 32], recipient: PeerId, cek: &[u8; 32]) -> (r: DdResult<
    RecipientWrap,
>)
    ensures
        r matches Ok(w) ==> w.peer == recipient && wrap_seals(w, recipient_x25519@, cek@),
        r is Err ==> fails_with(r, ErrorCode::Ddc6001Crypto),
{
    let eph_sk = random_bytes::<32>()?;
    let nonce = random_bytes::<NONCE_LEN>()?;
    wrap_cek_with(recipient_x25519, recipient, cek, &eph_sk, &nonce)
}

/// What unwrapping gives when the wrap is for this identity and opens.
pub open spec fn unwrap_outcome(id: PrivateIdentity, w: RecipientWrap) -> Result<Seq<u8>, ErrorCode> {
    if w.peer != id.peer_id {
        Err(ErrorCode::Ddp1008NotRecipient)
    } else {
        match aead_open(
            wrap_key_of(x25519_shared(id.x_secret(), w.eph_pk@), w.eph_pk@),
            w.nonce@,
            wrap_aad(id.peer_id.0@),
            w.wrapped_key@,
        ) {
            None => Err(ErrorCode::Ddc6001Crypto),
            Some(k) => if k.len() != 32 {
                Err(ErrorCode::Ddc6001Crypto)
            } else {
                Ok(k)
            },
        }
    }
}

/// Recovers a content key from a wrap for this identity. A wrap that seals a key for this
/// identity's X25519 public key opens to that key.
pub fn unwrap_cek(identity: &PrivateIdentity, wrap: &RecipientWrap) -> (r: DdResult<[u8; 32]>)
    ensures
        match r {
            Ok(k) => unwrap_outcome(*identity, *wrap) == Ok::<_, ErrorCode>(k@),
            Err(e) => unwrap_outcome(*identity, *wrap) == Err::<Seq<u8>, _>(err_code(e)),
        },
        forall|cek: Seq<u8>|
            cek.len() == 32 && identity.public.x25519_pk@ == x25519_public(identity.x_secret())
                && wrap.peer == identity.peer_id && wrap_seals(*wrap, identity.public.x25519_pk@, cek)
                ==> (r is Ok && r->Ok_0@ == cek),
{
    if !wrap.peer.same(&identity.peer_id) {
        return Err(coded(ErrorCode::Ddp1008NotRecipient, "wrap is for another peer"));
    }
    let shared = identity.agree(&wrap.eph_pk);
    let key = wrap_derive(&shared, &wrap.eph_pk);
    let aad = wrap_aad_bytes(&identity.peer_id);
    let cek = DefaultProvider.aead_decrypt(&key, &wrap.nonce, &aad, &wrap.wrapped_key);
    proof {
        assert forall|c: Seq<u8>|
            c.len() == 32 && identity.public.x25519_pk@ == x25519_public(identity.x_secret())
                && wrap.peer == identity.peer_id && wrap_seals(*wrap, identity.public.x25519_pk@, c)
                implies (cek is Ok && cek->Ok_0@ == c) by {
            let esk = choose|esk: Seq<u8>|
                esk.len() == 32 && wrap.eph_pk@ == x25519_public(esk) && wrap.wrapped_key@
                    == aead_seal(
                    wrap_key_of(x25519_shared(esk, identity.public.x25519_pk@), wrap.eph_pk@),
                    wrap.nonce@,
                    wrap_aad(wrap.peer.0@),
                    c,
                );
            assert(shared@ == x25519_shared(esk, x25519_public(identity.x_secret())));
            assert(aead_len_ok(c.len()));
        }
    }
    let cek = cek?;
    if cek.len() != 32 {
        return Err(coded(ErrorCode::Ddc6001Crypto, "wrapped key length"));
    }
    Ok(crate::ids::bytes32(&cek))
}

/// Encrypts a payload under its content key.
pub fn encrypt_payload(cek: &[u8; 32], nonce: &[u8; NONCE_LEN], aad: &[u8], pt: &[u8]) -> (r:
    DdResult<Vec<u8>>)
    ensures
        r is Ok <==> aead_len_ok(pt@.len()),
        r matches Ok(ct) ==> ct@ == aead_seal(cek@, nonce@, aad@, pt@),
        r is Err ==> fails_with(r, ErrorCode::Ddc6001Crypto),
{
    DefaultProvider.aead_encrypt(cek, nonce, aad, pt)
}

/// Decrypts a payload under its content key; what was encrypted decrypts to itself.
pub fn decrypt_payload(cek: &[u8; 32], nonce: &[u8; NONCE_LEN], aad: &[u8], ct: &[u8]) -> (r:
    DdResult<Vec<u8>>)
    ensures
        match r {
            Ok(pt) => aead_open(cek@, nonce@, aad@, ct@) == Some(pt@),
            Err(_) => aead_open(cek@, nonce@, aad@, ct@) is None && fails_with(
                r,
                ErrorCode::Ddc6001Crypto,
            ),
        },
        forall|pt: Seq<u8>|
            aead_len_ok(pt.len()) && ct@ == aead_seal(cek@, nonce@, aad@, pt) ==> (r is Ok
                && r->Ok_0@ == pt),
{
    DefaultProvider.aead_decrypt(cek, nonce, aad, ct)
}

/// Session keys from ephemeral X25519 (forward secrecy), bound to the handshake transcript.
pub struct SessionKeys {
    pub send: [u8; 32],
    pub recv: [u8; 32],
    pub transcript: [u8; 32],
}

/// Key material of a session.
pub open spec fn session_okm(shared: Seq<u8>, transcript: Seq<u8>) -> Seq<u8> {
    hkdf_sha256_okm(transcript, shared, ascii_bytes("ddp-session-v2"@), 64)
}

/// Derives the session keys: the initiator sends with the first half of the key material
/// and receives with the second; the responder the other way round. Both ends of one
/// exchange compute the same shared secret.
pub fn session_keys(initiator: bool, local_eph_sk: &[u8; 32], remote_eph_pk: &[u8; 32], transcript: &[u8]) -> (r: DdResult<SessionKeys>)
    ensures
        r matches Ok(k) && ({
            let okm = session_okm(x25519_shared(local_eph_sk@, remote_eph_pk@), transcript@);
            &&& k.transcript@ == blake3_digest(transcript@)
            &&& initiator ==> k.send@ == okm.take(32) && k.recv@ == okm.skip(32)
            &&& !initiator ==> k.send@ == okm.skip(32) && k.recv@ == okm.take(32)
        }),
        forall|other: Seq<u8>|
            other.len() == 32 && remote_eph_pk@ == x25519_public(other) ==> x25519_shared(
                local_eph_sk@,
                remote_eph_pk@,
            ) == x25519_shared(other, x25519_public(local_eph_sk@)) || r is Err,
{
    let shared = x25519_agree(local_eph_sk, remote_eph_pk);
    let info = ascii_bytes_of("ddp-session-v2");
    let okm = hkdf_sha256(transcript, &shared, &info, 64);
    let mut a = [0u8; 32];
    let mut b = [0u8; 32];
    let mut i: usize = 0;
    while i < 32
        invariant
            i <= 32,
            okm@.len() == 64,
            a@.len() == 32,
            b@.len() == 32,
            forall|k: int| 0 <= k < i ==> a@[k] == okm@[k] && b@[k] == okm@[k + 32],
        decreases 32 - i,
    {
        a[i] = okm[i];
        b[i] = okm[i + 32];
        i += 1;
    }
    assert(a@ =~= okm@.take(32));
    assert(b@ =~= okm@.skip(32));
    let transcript_d = DefaultProvider.hash(HashAlgorithm::Blake3, transcript).0;
    Ok(if initiator {
        SessionKeys { send: a, recv: b, transcript: transcript_d }
    } else {
        SessionKeys { send: b, recv: a, transcript: transcript_d }
    })
}

/// The first 16 bytes of HMAC-SHA256.
pub fn hmac_tag(key: &[u8], data: &[u8]) -> (tag: [u8; 16])
    ensures
        tag@ == hmac_sha256_tag(key@, data@).take(16),
{
    let full = hmac_sha256(key, data);
    let mut tag = [0u8; 16];
    let mut i: usize = 0;
    while i < 16
        invariant
            i <= 16,
            full@.len() == 32,
            tag@.len() == 16,
            forall|k: int| 0 <= k < i ==> tag@[k] == full@[k],
        decreases 16 - i,
    {
        tag[i] = full[i];
        i += 1;
    }
    assert(tag@ =~= full@.take(16));
    tag
}

/// Length-prefixed UTF-8 string: two big-endian length bytes (the length truncated to 16
/// bits), then the bytes.
pub open spec fn lp_str(s: Seq<u8>) -> Seq<u8> {
    be16((s.len() % 65536) as u16) + s
}

pub fn push_lp_str(buf: &mut Vec<u8>, s: &str)
    ensures
        final(buf)@ == old(buf)@ + lp_str(s.spec_bytes()),
{
    let bytes = s.as_bytes();
    let len = bytes.len();
    #[verifier::truncate]
    let n = len as u16;
    assert(n == (len % 65536) as u16) by (bit_vector)
        requires
            n == len as u16,
    ;
    let be = u16_be(n);
    push_all(buf, &be);
    push_all(buf, bytes);
    assert(final(buf)@ =~= old(buf)@ + lp_str(s.spec_bytes()));
}

/// A fresh ephemeral X25519 key pair (secret, public).
pub fn x25519_ephemeral() -> (r: DdResult<([u8; 32], [u8; 32])>)
    ensures
        r matches Ok((sk, pk)) ==> pk@ == x25519_public(sk@),
        r is Err ==> fails_with(r, ErrorCode::Ddc6001Crypto),
{
    let sk = random_bytes::<32>()?;
    let pk = x25519_public_key(&sk);
    Ok((sk, pk))
}

} // verus!
