//! The cryptographic, compression and erasure-coding primitives the protocol uses,
//! each behind one trusted item. Everything the rest of the library proves about
//! hashes, signatures, key agreement, authenticated encryption, key derivation,
//! compression and Reed–Solomon coding rests on the contracts stated here.

use chacha20poly1305::aead::{Aead, KeyInit, Payload};
use ed25519_dalek::{Signer, Verifier};
use hmac::Mac;
use rand::RngCore;
use sha2::Digest as Sha2Digest;
use vstd::prelude::*;

verus! {

/// BLAKE3 digest (32 bytes) of a byte string.
pub uninterp spec fn blake3_digest(data: Seq<u8>) -> Seq<u8>;

/// SHA-256 digest (32 bytes) of a byte string.
pub uninterp spec fn sha256_digest(data: Seq<u8>) -> Seq<u8>;

/// Ed25519 public key of a 32-byte secret seed.
pub uninterp spec fn ed25519_public(seed: Seq<u8>) -> Seq<u8>;

/// Ed25519 signature (deterministic, RFC 8032) of `msg` under the secret seed.
pub uninterp spec fn ed25519_signature(seed: Seq<u8>, msg: Seq<u8>) -> Seq<u8>;

/// Ed25519 verification outcome.
pub uninterp spec fn ed25519_accepts(pk: Seq<u8>, msg: Seq<u8>, sig: Seq<u8>) -> bool;

/// X25519 public key of a secret.
pub uninterp spec fn x25519_public(sk: Seq<u8>) -> Seq<u8>;

/// X25519 shared secret of a local secret and a remote public key.
pub uninterp spec fn x25519_shared(sk: Seq<u8>, pk: Seq<u8>) -> Seq<u8>;

/// ChaCha20-Poly1305 ciphertext (with tag) of `pt`.
pub uninterp spec fn aead_seal(key: Seq<u8>, nonce: Seq<u8>, aad: Seq<u8>, pt: Seq<u8>) -> Seq<u8>;

/// ChaCha20-Poly1305 decryption outcome of `ct`.
pub uninterp spec fn aead_open(key: Seq<u8>, nonce: Seq<u8>, aad: Seq<u8>, ct: Seq<u8>) -> Option<Seq<u8>>;

/// HKDF-SHA256 output of `len` bytes.
pub uninterp spec fn hkdf_sha256_okm(salt: Seq<u8>, ikm: Seq<u8>, info: Seq<u8>, len: nat) -> Seq<u8>;

/// HMAC-SHA256 tag (32 bytes).
pub uninterp spec fn hmac_sha256_tag(key: Seq<u8>, data: Seq<u8>) -> Seq<u8>;

/// zstd frame of `data` at a compression level.
pub uninterp spec fn zstd_frame(data: Seq<u8>, level: int) -> Seq<u8>;

/// zstd decompression outcome of `data`.
pub uninterp spec fn zstd_unframe(data: Seq<u8>) -> Option<Seq<u8>>;

/// Reed–Solomon (GF(2^8)) parity shards of equally long data shards.
pub uninterp spec fn rs_parity(data: Seq<Seq<u8>>, parity_n: nat) -> Seq<Seq<u8>>;

/// Plaintext lengths ChaCha20-Poly1305 accepts: fewer than 2^32 - 1 blocks of 64 bytes.
pub open spec fn aead_len_ok(n: nat) -> bool {
    n / 64 < 0xffff_ffff
}

/// Byte views of a sequence of byte vectors.
pub open spec fn views(v: Seq<Vec<u8>>) -> Seq<Seq<u8>> {
    v.map_values(|x: Vec<u8>| x@)
}

/// `blake3::hash`.
#[verifier::external_body]
pub(crate) fn blake3_hash(data: &[u8]) -> (d: [u8; 32])
    ensures
        d@ == blake3_digest(data@),
{
    *blake3::hash(data).as_bytes()
}

/// `sha2::Sha256::digest`.
#[verifier::external_body]
pub(crate) fn sha256_hash(data: &[u8]) -> (d: [u8; 32])
    ensures
        d@ == sha256_digest(data@),
{
    sha2::Sha256::digest(data).into()
}

/// `ed25519_dalek::SigningKey::verifying_key`: the public key of a secret seed.
#[verifier::external_body]
pub(crate) fn ed25519_public_key(seed: &[u8; 32]) -> (pk: [u8; 32])
    ensures
        pk@ == ed25519_public(seed@),
{
    ed25519_dalek::SigningKey::from_bytes(seed).verifying_key().to_bytes()
}

/// `ed25519_dalek::SigningKey::sign`: a deterministic signature.
#[verifier::external_body]
pub(crate) fn ed25519_sign(seed: &[u8; 32], msg: &[u8]) -> (sig: [u8; 64])
    ensures
        sig@ == ed25519_signature(seed@, msg@),
{
    ed25519_dalek::SigningKey::from_bytes(seed).sign(msg).to_bytes()
}

/// `ed25519_dalek::VerifyingKey::verify` (after `VerifyingKey::from_bytes`, whose failure
/// counts as rejection). A signature made with a seed verifies under that seed's public key.
#[verifier::external_body]
pub(crate) fn ed25519_verify(pk: &[u8; 32], msg: &[u8], sig: &[u8; 64]) -> (ok: bool)
    ensures
        ok == ed25519_accepts(pk@, msg@, sig@),
        forall|seed: Seq<u8>|
            seed.len() == 32 && pk@ == ed25519_public(seed) && sig@ == ed25519_signature(seed, msg@)
                ==> ok,
{
    match ed25519_dalek::VerifyingKey::from_bytes(pk) {
        Ok(vk) => vk.verify(msg, &ed25519_dalek::Signature::from_bytes(sig)).is_ok(),
        Err(_) => false,
    }
}

/// `x25519_dalek::PublicKey::from(&StaticSecret)`.
#[verifier::external_body]
pub(crate) fn x25519_public_key(sk: &[u8; 32]) -> (pk: [u8; 32])
    ensures
        pk@ == x25519_public(sk@),
{
    x25519_dalek::PublicKey::from(&x25519_dalek::StaticSecret::from(*sk)).to_bytes()
}

/// `x25519_dalek::StaticSecret::diffie_hellman`. Both sides of an exchange agree.
#[verifier::external_body]
pub(crate) fn x25519_agree(sk: &[u8; 32], pk: &[u8; 32]) -> (ss: [u8; 32])
    ensures
        ss@ == x25519_shared(sk@, pk@),
        forall|other: Seq<u8>|
            other.len() == 32 && pk@ == x25519_public(other) ==> ss@ == x25519_shared(
                other,
                x25519_public(sk@),
            ),
{
    *x25519_dalek::StaticSecret::from(*sk).diffie_hellman(&x25519_dalek::PublicKey::from(*pk)).as_bytes()
}

/// `ChaCha20Poly1305::encrypt`. It fails only on plaintexts of 2^32 - 1 blocks or more.
#[verifier::external_body]
pub(crate) fn aead_encrypt(key: &[u8; 32], nonce: &[u8; 12], aad: &[u8], pt: &[u8]) -> (r: Option<Vec<u8>>)
    ensures
        r is Some <==> aead_len_ok(pt@.len()),
        r matches Some(ct) ==> ct@ == aead_seal(key@, nonce@, aad@, pt@),
{
    let aead = chacha20poly1305::ChaCha20Poly1305::new(key.into());
    match aead.encrypt(nonce.into(), Payload { msg: pt, aad }) {
        Ok(ct) => Some(ct),
        Err(_) => None,
    }
}

/// `ChaCha20Poly1305::decrypt`. What was sealed under a key, nonce and associated data
/// opens under the same three to the same plaintext.
#[verifier::external_body]
pub(crate) fn aead_decrypt(key: &[u8; 32], nonce: &[u8; 12], aad: &[u8], ct: &[u8]) -> (r: Option<Vec<u8>>)
    ensures
        match r {
            Some(pt) => aead_open(key@, nonce@, aad@, ct@) == Some(pt@),
            None => aead_open(key@, nonce@, aad@, ct@) is None,
        },
        forall|pt: Seq<u8>|
            aead_len_ok(pt.len()) && ct@ == aead_seal(key@, nonce@, aad@, pt) ==> (r is Some
                && r->0@ == pt),
{
    let aead = chacha20poly1305::ChaCha20Poly1305::new(key.into());
    match aead.decrypt(nonce.into(), Payload { msg: ct, aad }) {
        Ok(pt) => Some(pt),
        Err(_) => None,
    }
}

/// `hkdf::Hkdf::<Sha256>::expand` after `Hkdf::new(Some(salt), ikm)`; lengths up to
/// 255 blocks of 32 bytes never fail.
#[verifier::external_body]
pub(crate) fn hkdf_sha256(salt: &[u8], ikm: &[u8], info: &[u8], len: usize) -> (okm: Vec<u8>)
    requires
        len <= 8160,
    ensures
        okm@.len() == len,
        okm@ == hkdf_sha256_okm(salt@, ikm@, info@, len as nat),
{
    let mut okm = vec![0u8; len];
    let _ = hkdf::Hkdf::<sha2::Sha256>::new(Some(salt), ikm).expand(info, &mut okm);
    okm
}

/// `hmac::Hmac::<Sha256>` over `data`; any key length is accepted.
#[verifier::external_body]
pub(crate) fn hmac_sha256(key: &[u8], data: &[u8]) -> (tag: [u8; 32])
    ensures
        tag@ == hmac_sha256_tag(key@, data@),
{
    let mut mac = <hmac::Hmac<sha2::Sha256> as Mac>::new_from_slice(key).expect("hmac accepts keys of any length");
    mac.update(data);
    mac.finalize().into_bytes().into()
}

/// `rand::rngs::OsRng::try_fill_bytes`: fresh bytes from the operating system, or
/// `None` when its generator fails. Nothing is stated of the bytes.
#[verifier::external_body]
pub(crate) fn os_random<const N: usize>() -> (r: Option<[u8; N]>)
{
    let mut b = [0u8; N];
    match rand::rngs::OsRng.try_fill_bytes(&mut b) {
        Ok(()) => Some(b),
        Err(_) => None,
    }
}

/// `zstd::encode_all` at a level. The error is the I/O error's text.
#[verifier::external_body]
pub(crate) fn zstd_encode(data: &[u8], level: i32) -> (r: Result<Vec<u8>, String>)
    ensures
        r matches Ok(v) ==> v@ == zstd_frame(data@, level as int),
{
    match zstd::encode_all(data, level) {
        Ok(v) => Ok(v),
        Err(e) => Err(e.to_string()),
    }
}

/// `zstd::decode_all`. A frame made from some data decodes to that data.
#[verifier::external_body]
pub(crate) fn zstd_decode(data: &[u8]) -> (r: Result<Vec<u8>, String>)
    ensures
        match r {
            Ok(v) => zstd_unframe(data@) == Some(v@),
            Err(_) => zstd_unframe(data@) is None,
        },
        forall|d: Seq<u8>, level: int|
            data@ == zstd_frame(d, level) ==> (r is Ok && r->Ok_0@ == d),
{
    match zstd::decode_all(data) {
        Ok(v) => Ok(v),
        Err(e) => Err(e.to_string()),
    }
}

/// Why a Reed–Solomon call failed: the codec could not be built, or the shards were refused.
#[derive(Debug, Clone, Copy, PartialEq, Eq, Structural)]
pub enum RsFailure {
    Codec,
    Shards,
}

/// The shard counts `ReedSolomon::new` accepts for the `galois_8` field: at least one data and
/// one parity shard, at most 256 in all.
pub open spec fn rs_codec_ok(data_n: nat, parity_n: nat) -> bool {
    data_n > 0 && parity_n > 0 && data_n + parity_n <= 256
}

/// `ReedSolomon::new` then `ReedSolomon::encode` for the `galois_8` field, for shard counts
/// whose sum fits a `usize` (`new` adds them unchecked). The codec is
/// refused exactly when `rs_codec_ok` fails; the shards exactly when they are not as many as
/// the codec has or not all of one non-zero length. On success the data shards are kept and
/// the parity shards overwritten; on failure nothing changes.
#[verifier::external_body]
pub(crate) fn rs_encode(data_n: usize, parity_n: usize, shards: &mut Vec<Vec<u8>>) -> (r: Result<(), RsFailure>)
    requires
        data_n + parity_n <= usize::MAX,
    ensures
        (r == Err::<(), RsFailure>(RsFailure::Codec)) <==> !rs_codec_ok(data_n as nat, parity_n as nat),
        r is Ok <==> (rs_codec_ok(data_n as nat, parity_n as nat) && old(shards)@.len() == data_n
            + parity_n && uniform_shards(views(old(shards)@))),
        final(shards)@.len() == old(shards)@.len(),
        r is Ok ==> forall|i: int|
            0 <= i < final(shards)@.len() ==> (#[trigger] final(shards)@[i])@.len() == old(
                shards,
            )@[i]@.len(),
        r is Ok ==> views(final(shards)@) == views(old(shards)@).take(data_n as int) + rs_parity(
            views(old(shards)@).take(data_n as int),
            parity_n as nat,
        ),
        r is Err ==> final(shards)@ == old(shards)@,
{
    match reed_solomon_erasure::galois_8::ReedSolomon::new(data_n, parity_n) {
        Ok(rs) => rs.encode(shards).map_err(|_| RsFailure::Shards),
        Err(_) => Err(RsFailure::Codec),
    }
}

/// The shards in `s` that are present.
pub open spec fn present_count(s: Seq<Option<Vec<u8>>>) -> nat
    decreases s.len(),
{
    if s.len() == 0 {
        0
    } else {
        present_count(s.drop_last()) + if s.last() is Some { 1nat } else { 0nat }
    }
}

/// The present slots of `slots` hold the shards of `word` at their positions.
pub open spec fn slots_agree(slots: Seq<Option<Vec<u8>>>, word: Seq<Seq<u8>>) -> bool {
    slots.len() == word.len() && forall|i: int|
        0 <= i < slots.len() && (#[trigger] slots[i]) is Some ==> slots[i].unwrap()@ == word[i]
}

/// Every slot of `slots` is present and holds the shard of `word` at its position.
pub open spec fn slots_filled(slots: Seq<Option<Vec<u8>>>, word: Seq<Seq<u8>>) -> bool {
    slots.len() == word.len() && forall|i: int|
        0 <= i < slots.len() ==> (#[trigger] slots[i]) is Some && slots[i].unwrap()@ == word[i]
}

/// All shards of `data` have one non-zero length.
pub open spec fn uniform_shards(data: Seq<Seq<u8>>) -> bool {
    data.len() > 0 && data[0].len() > 0 && forall|i: int|
        0 <= i < data.len() ==> (#[trigger] data[i]).len() == data[0].len()
}

/// `ReedSolomon::new` then `ReedSolomon::reconstruct` for the `galois_8` field, for shard
/// counts whose sum fits a `usize` (`new` adds them unchecked). The codec is
/// refused exactly when `rs_codec_ok` fails. On success every slot is filled, the present
/// shards are kept, and all shards have one non-zero length (the source refuses present
/// shards of differing or zero length, and fills the missing ones with that length). When the
/// present shards agree with a codeword (data shards followed by their parity) and at least
/// `data_n` of them are present, it succeeds and fills in that codeword. What it fills in for
/// shards that agree with no codeword is not stated. On failure nothing changes.
#[verifier::external_body]
pub(crate) fn rs_reconstruct(data_n: usize, parity_n: usize, shards: &mut Vec<Option<Vec<u8>>>) -> (r: Result<(), RsFailure>)
    requires
        data_n + parity_n <= usize::MAX,
    ensures
        (r == Err::<(), RsFailure>(RsFailure::Codec)) <==> !rs_codec_ok(data_n as nat, parity_n as nat),
        final(shards)@.len() == old(shards)@.len(),
        r is Ok ==> final(shards)@.len() == data_n + parity_n,
        r is Ok ==> forall|i: int|
            0 <= i < final(shards)@.len() ==> (#[trigger] final(shards)@[i]) is Some
                && final(shards)@[i]->0@.len() == final(shards)@[0]->0@.len()
                && final(shards)@[i]->0@.len() > 0,
        r is Ok ==> forall|i: int|
            0 <= i < old(shards)@.len() && (#[trigger] old(shards)@[i]) is Some ==> final(shards)@[i]
                == old(shards)@[i],
        r is Err ==> final(shards)@ == old(shards)@,
        forall|data: Seq<Seq<u8>>|
            rs_codec_ok(data_n as nat, parity_n as nat) && data.len() == data_n
                && uniform_shards(data) && present_count(old(shards)@) >= data_n && slots_agree(
                old(shards)@,
                data + rs_parity(data, parity_n as nat),
            ) ==> r is Ok && slots_filled(final(shards)@, data + rs_parity(data, parity_n as nat)),
{
    match reed_solomon_erasure::galois_8::ReedSolomon::new(data_n, parity_n) {
        Ok(rs) => rs.reconstruct(shards.as_mut_slice()).map_err(|_| RsFailure::Shards),
        Err(_) => Err(RsFailure::Codec),
    }
}

} // verus!
