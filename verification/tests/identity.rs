use deaddrop::crypto::{
    generate_cek, hmac_tag, session_keys, unwrap_cek, verify_identity, wrap_cek, x25519_ephemeral,
    DefaultProvider, PrivateIdentity,
};
use deaddrop::hexutil::{hex_decode, hex_encode};
use deaddrop::identity::{Contact, ContactBook, ContactCard, IdentityFile, IdentityTransition};
use deaddrop::ids::{ContentId, HashAlgorithm, PeerId};
use deaddrop::trust::TrustState;
use deaddrop::ErrorCode;

#[test]
fn identity_and_wrap() {
    let a = PrivateIdentity::generate().unwrap();
    let b = PrivateIdentity::generate().unwrap();
    assert_eq!(verify_identity(&a.public).unwrap(), a.peer_id);
    let cek = generate_cek().unwrap();
    let wrap = wrap_cek(&b.public.x25519_pk, b.peer_id, &cek).unwrap();
    assert_eq!(unwrap_cek(&b, &wrap).unwrap(), cek);
    assert!(unwrap_cek(&a, &wrap).is_err());
}

#[test]
fn decode_encode_hash() {
    let p = DefaultProvider;
    let d = p.hash(HashAlgorithm::Blake3, b"abc");
    assert_eq!(d.0.len(), 32);
}

#[test]
fn hashes_match_published_vectors() {
    let p = DefaultProvider;
    let b3 = p.hash(HashAlgorithm::Blake3, b"abc");
    assert_eq!(
        hex_encode(&b3.0),
        "6437b3ac38465133ffb63b75273a8db548c558465d79db03fd359c6cd5bd9d85"
    );
    let s2 = p.hash(HashAlgorithm::Sha256, b"abc");
    assert_eq!(
        hex_encode(&s2.0),
        "ba7816bf8f01cfea414140de5dae2223b00361a396177a9cb410ff61f20015ad"
    );
}

#[test]
fn hmac_tag_is_truncated_hmac_sha256() {
    let t = hmac_tag(b"Jefe", b"what do ya want for nothing?");
    assert_eq!(hex_encode(&t), "5bdcc146bf60754e6a042426089575c7");
}

#[test]
fn signatures_verify_only_for_their_message() {
    let a = PrivateIdentity::generate().unwrap();
    let sig = a.sign(b"hello");
    let p = DefaultProvider;
    assert!(p.verify(&a.public.ed25519_pk, b"hello", &sig).is_ok());
    let e = p.verify(&a.public.ed25519_pk, b"hellO", &sig).unwrap_err();
    assert_eq!(e.code(), ErrorCode::Ddc6001Crypto);
}

#[test]
fn aead_roundtrip_and_wrong_key() {
    let p = DefaultProvider;
    let key = [7u8; 32];
    let nonce = [1u8; 12];
    let ct = p.aead_encrypt(&key, &nonce, b"aad", b"payload").unwrap();
    assert_ne!(ct, b"payload".to_vec());
    assert_eq!(p.aead_decrypt(&key, &nonce, b"aad", &ct).unwrap(), b"payload".to_vec());
    assert!(p.aead_decrypt(&[8u8; 32], &nonce, b"aad", &ct).is_err());
    assert!(p.aead_decrypt(&key, &nonce, b"other", &ct).is_err());
}

#[test]
fn session_keys_pair_up() {
    let (ska, pka) = x25519_ephemeral().unwrap();
    let (skb, pkb) = x25519_ephemeral().unwrap();
    let a = session_keys(true, &ska, &pkb, b"transcript").unwrap();
    let b = session_keys(false, &skb, &pka, b"transcript").unwrap();
    assert_eq!(a.send, b.recv);
    assert_eq!(a.recv, b.send);
    assert_ne!(a.send, a.recv);
}

#[test]
fn rotate_attests() {
    let old = PrivateIdentity::generate().unwrap();
    let new = PrivateIdentity::generate().unwrap();
    let t = IdentityTransition::issue(&old, new.public.clone(), 10).unwrap();
    assert_eq!(t.verify(&old.public).unwrap(), new.peer_id);
}

#[test]
fn transition_refuses_another_old_key() {
    let old = PrivateIdentity::generate().unwrap();
    let other = PrivateIdentity::generate().unwrap();
    let new = PrivateIdentity::generate().unwrap();
    let t = IdentityTransition::issue(&old, new.public.clone(), 10).unwrap();
    assert!(t.verify(&other.public).is_err());
}

#[test]
fn resolve_short_name() {
    let a = PrivateIdentity::generate().unwrap();
    let mut book = ContactBook::default();
    book.insert(Contact {
        card: ContactCard::from_public(Some("laptop".into()), a.public.clone()).unwrap(),
        trust: TrustState::Known,
    })
    .unwrap();
    let (id, _) = book.resolve("laptop").unwrap();
    assert_eq!(id, a.peer_id);
    assert!(book.resolve("nope").is_err());
}

#[test]
fn resolve_by_prefix_case_and_blocked() {
    let a = PrivateIdentity::generate().unwrap();
    let mut book = ContactBook::default();
    book.insert(Contact {
        card: ContactCard::from_public(Some("Phone".into()), a.public.clone()).unwrap(),
        trust: TrustState::Known,
    })
    .unwrap();
    assert_eq!(book.resolve("  PHONE ").unwrap().0, a.peer_id);
    let hex = hex_encode(&a.peer_id.0);
    assert_eq!(book.resolve(&format!("dd:{}", &hex[..10])).unwrap().0, a.peer_id);
    assert_eq!(book.resolve(&hex[..7]).unwrap_err().code(), ErrorCode::Ddi5001UnknownContact);
    assert_eq!(book.resolve("").unwrap_err().code(), ErrorCode::Ddi5001UnknownContact);
    book.set_trust(&a.peer_id, TrustState::Blocked);
    assert!(book.resolve("phone").is_err());
}

#[test]
fn resolve_ambiguous_name() {
    let a = PrivateIdentity::generate().unwrap();
    let b = PrivateIdentity::generate().unwrap();
    let mut book = ContactBook::default();
    for id in [&a, &b] {
        book.insert(Contact {
            card: ContactCard::from_public(Some("twin".into()), id.public.clone()).unwrap(),
            trust: TrustState::Known,
        })
        .unwrap();
    }
    assert_eq!(book.resolve("twin").unwrap_err().code(), ErrorCode::Ddp1005BadIdentifier);
}

#[test]
fn identity_file_roundtrip() {
    let a = PrivateIdentity::generate().unwrap();
    let f = IdentityFile::from_private(&a);
    let back = f.into_private().unwrap();
    assert_eq!(back.peer_id, a.peer_id);
    assert_eq!(back.ed25519, a.ed25519);
    assert_eq!(back.x25519, a.x25519);
}

#[test]
fn typed_ids_roundtrip() {
    let raw = [0xab; 32];
    let c = ContentId::blake3(raw);
    let s = c.to_string();
    assert!(s.starts_with("ddc:b3:"));
    assert_eq!(s.parse::<ContentId>().unwrap(), c);
    let p = PeerId::from_digest(raw);
    assert_eq!(p.to_string().parse::<PeerId>().unwrap(), p);
}

#[test]
fn malformed_ids_are_refused() {
    assert!("ddc:b3:zz".parse::<ContentId>().is_err());
    assert!("nope".parse::<PeerId>().is_err());
}

#[test]
fn hex_roundtrip_and_errors() {
    assert_eq!(hex_encode(&[0x00, 0xff, 0x1a]), "00ff1a");
    assert_eq!(hex_decode("00FF1a").unwrap(), vec![0x00, 0xff, 0x1a]);
    assert!(hex_decode("abc").is_err());
    assert!(hex_decode("zz").is_err());
}

#[test]
fn insert_then_get_reads_back() {
    let a = PrivateIdentity::generate().unwrap();
    let b = PrivateIdentity::generate().unwrap();
    let mut book = ContactBook::default();
    book.insert(Contact {
        card: ContactCard::from_public(Some("a".into()), a.public.clone()).unwrap(),
        trust: TrustState::Unknown,
    })
    .unwrap();
    let got = book.get(&a.peer_id).unwrap();
    assert_eq!(got.trust, TrustState::Known);
    assert_eq!(got.card.name.as_deref(), Some("a"));
    assert!(book.get(&b.peer_id).is_none());
    book.insert(Contact {
        card: ContactCard::from_public(Some("a2".into()), a.public.clone()).unwrap(),
        trust: TrustState::Verified,
    })
    .unwrap();
    assert_eq!(book.all().len(), 1);
    assert_eq!(book.get(&a.peer_id).unwrap().card.name.as_deref(), Some("a2"));
}

#[test]
fn get_mut_changes_in_place() {
    let a = PrivateIdentity::generate().unwrap();
    let mut book = ContactBook::default();
    book.insert(Contact {
        card: ContactCard::from_public(None, a.public.clone()).unwrap(),
        trust: TrustState::Known,
    })
    .unwrap();
    if let Some(c) = book.get_mut(&a.peer_id) {
        c.card.name = Some("alias".to_string());
    }
    assert_eq!(book.resolve("alias").unwrap().0, a.peer_id);
    assert!(book.get_mut(&PeerId::from_digest([0u8; 32])).is_none());
}
