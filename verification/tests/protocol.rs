use deaddrop::carrier::{carrier_manifest, pack_ddrop_bytes, unpack_ddrop_bytes, was_forwarded, ExportFilter};
use deaddrop::chunk::default_fixed;
use deaddrop::chunk::erasure::ErasureSpec;
use deaddrop::crypto::{verify_identity, PrivateIdentity};
use deaddrop::discovery::{dedupe_endpoints, Beacon, Endpoint};
use deaddrop::envelope::{Extension, RoutingPolicy};
use deaddrop::ids::{ObjectId, PeerId};
use deaddrop::lifecycle::ReceiptKind;
use deaddrop::protocol::frame::{announced_len, check_frame_size, frame_prefix};
use deaddrop::protocol::inventory::{want_from_bloom, want_from_sorted, BloomFilter};
use deaddrop::protocol::{build_drop, open_drop, open_drop_at, verify_envelope, zstd_decompress, CreateDrop};
use deaddrop::receipt::Receipt;
use deaddrop::rules::parse_rules;
use deaddrop::sealed::{enforce, seal_quorum, seal_until};
use deaddrop::{Destination, ErrorCode, Priority, PROTOCOL_VERSION};

fn request<'a>(author: &'a PrivateIdentity, to: &PrivateIdentity, pt: &[u8]) -> CreateDrop<'a> {
    let cid = verify_identity(&to.public).unwrap();
    CreateDrop {
        author,
        recipients: vec![(cid, to.public.clone())],
        destination: Destination::One { peer: cid },
        plaintext: pt.to_vec(),
        now: 1_700_000_000,
        ttl_secs: Some(3600),
        priority: Priority::Normal,
        routing: RoutingPolicy::default(),
        application: "dd.file".into(),
        topic: None,
        chunking: default_fixed(),
        compress: false,
        hop_limit: 8,
        public: false,
        seal_until: None,
        seal_quorum: None,
        erasure: None,
    }
}

#[test]
fn build_verify_open() {
    let alice = PrivateIdentity::generate().unwrap();
    let charlie = PrivateIdentity::generate().unwrap();
    let built = build_drop(request(&alice, &charlie, b"secret")).unwrap();
    verify_envelope(&built.envelope, 1_700_000_100).unwrap();
    let pt = open_drop(&charlie, &built.envelope, &built.manifest, &built.chunks).unwrap();
    assert_eq!(pt, b"secret");
    assert!(open_drop(&alice, &built.envelope, &built.manifest, &built.chunks).is_err());
}

#[test]
fn expired_and_tampered_envelopes_fail() {
    let alice = PrivateIdentity::generate().unwrap();
    let bob = PrivateIdentity::generate().unwrap();
    let built = build_drop(request(&alice, &bob, b"x")).unwrap();
    let e = verify_envelope(&built.envelope, 1_700_000_000 + 3600).unwrap_err();
    assert_eq!(e.code(), ErrorCode::Ddp1007Expired);
    let mut env = built.envelope.clone();
    env.creation_time += 1;
    let e = verify_envelope(&env, 1_700_000_100).unwrap_err();
    assert_eq!(e.code(), ErrorCode::Ddc6001Crypto);
    let mut env = built.envelope.clone();
    env.protocol_version = PROTOCOL_VERSION + 1;
    assert_eq!(verify_envelope(&env, 1_700_000_100).unwrap_err().code(), ErrorCode::Ddp1002UnsupportedVersion);
}

#[test]
fn compressed_public_and_erasure_drops_open() {
    let alice = PrivateIdentity::generate().unwrap();
    let bob = PrivateIdentity::generate().unwrap();
    let body: Vec<u8> = (0..300_000u32).map(|i| (i % 7) as u8).collect();
    let mut req = request(&alice, &bob, &body);
    req.compress = true;
    req.erasure = Some(ErasureSpec { data_shards: 2, parity_shards: 1 });
    let built = build_drop(req).unwrap();
    let data_count = built.manifest.erasure.unwrap().data_count as usize;
    assert!(built.chunks.len() > data_count);
    assert!(open_drop(&bob, &built.envelope, &built.manifest, &built.chunks).is_err());
    let opened = open_drop(&bob, &built.envelope, &built.manifest, &built.chunks[..data_count]).unwrap();
    assert!(opened.len() < body.len());
    assert_eq!(zstd_decompress(&opened).unwrap(), body);

    let mut req = request(&alice, &bob, b"hello all");
    req.public = true;
    req.recipients = vec![];
    req.destination = Destination::Public;
    let built = build_drop(req).unwrap();
    let carol = PrivateIdentity::generate().unwrap();
    assert_eq!(open_drop(&carol, &built.envelope, &built.manifest, &built.chunks).unwrap(), b"hello all");
}

#[test]
fn too_many_recipients_is_refused() {
    let alice = PrivateIdentity::generate().unwrap();
    let bob = PrivateIdentity::generate().unwrap();
    let mut req = request(&alice, &bob, b"x");
    let one = req.recipients[0];
    req.recipients = vec![one; 65];
    assert_eq!(build_drop(req).err().unwrap().code(), ErrorCode::Ddp1006LimitExceeded);
}

#[test]
fn sealed_drop_waits_for_time_and_quorum() {
    let alice = PrivateIdentity::generate().unwrap();
    let bob = PrivateIdentity::generate().unwrap();
    let mut req = request(&alice, &bob, b"later");
    req.seal_until = Some(1_700_000_500);
    req.seal_quorum = Some(2);
    let built = build_drop(req).unwrap();
    assert_eq!(seal_until(&built.envelope), Some(1_700_000_500));
    assert_eq!(seal_quorum(&built.envelope), Some(2));
    assert!(enforce(&built.envelope, 1_700_000_100, 5).is_err());
    assert!(enforce(&built.envelope, 1_700_000_600, 1).is_err());
    assert!(enforce(&built.envelope, 1_700_000_600, 2).is_ok());
    assert!(open_drop_at(&bob, &built.envelope, &built.manifest, &built.chunks, 1_700_000_100, 5).is_err());
    assert_eq!(
        open_drop_at(&bob, &built.envelope, &built.manifest, &built.chunks, 1_700_000_600, 2).unwrap(),
        b"later"
    );
}

#[test]
fn unknown_critical_extension_is_refused() {
    let alice = PrivateIdentity::generate().unwrap();
    let bob = PrivateIdentity::generate().unwrap();
    let built = build_drop(request(&alice, &bob, b"x")).unwrap();
    let mut env = built.envelope.clone();
    env.extensions.push(Extension { name: "x.unknown".into(), critical: true, data: vec![] });
    assert!(verify_envelope(&env, 1_700_000_100).is_err());
}

#[test]
fn bloom_no_false_negative() {
    let ids: Vec<_> = (0u8..40)
        .map(|i| {
            let mut d = [0u8; 32];
            d[0] = i;
            ObjectId::blake3(d)
        })
        .collect();
    let b = BloomFilter::from_ids(&ids, 10);
    for id in &ids {
        assert!(b.may_contain(id));
    }
}

#[test]
fn wants_are_what_the_peer_lacks() {
    let ids: Vec<ObjectId> = (0u8..6).map(|i| ObjectId::blake3([i; 32])).collect();
    let want = want_from_sorted(&ids[..3], &ids[2..]);
    assert_eq!(want, vec![ids[0], ids[1]]);
    let bloom = BloomFilter::from_ids(&ids[..4], 16);
    let offer = want_from_bloom(&ids, &bloom);
    for id in &ids[..4] {
        assert!(!offer.contains(id));
    }
    assert!(offer.iter().all(|o| ids.contains(o)));
}

#[test]
fn parse_pin_rule() {
    let src = r#"
rule auto-pin-releases {
    when drop.received
    if drop.channel == "software/releases"
    if drop.publisher.trust == "verified"
    then drop.pin
}
"#;
    let r = parse_rules(src).unwrap();
    assert_eq!(r.len(), 1);
    assert_eq!(r[0].name, "auto-pin-releases");
    assert_eq!(r[0].action, "drop.pin");
    assert_eq!(r[0].filters.len(), 2);
}

#[test]
fn dedupe_keeps_one_locator() {
    let p = PeerId::from_digest([1u8; 32]);
    let a = Endpoint { peer: Some(p), locator: "10.0.0.2:7947".into() };
    let out = dedupe_endpoints(vec![a.clone(), a]);
    assert_eq!(out.len(), 1);
}

#[test]
fn beacon_roundtrip_and_errors() {
    let b = Beacon { version: PROTOCOL_VERSION, stream_port: 7947, node_id: PeerId::from_digest([3u8; 32]) };
    let bytes = b.encode();
    assert_eq!(&bytes[..4], b"DDP2");
    let back = Beacon::decode(&bytes).unwrap();
    assert_eq!(back.stream_port, 7947);
    assert_eq!(back.node_id, b.node_id);
    assert_eq!(Beacon::decode(&bytes[..39]).unwrap_err().code(), ErrorCode::Ddp1001InvalidFrame);
    let mut other = bytes;
    other[5] = 9;
    assert_eq!(Beacon::decode(&other).unwrap_err().code(), ErrorCode::Ddp1002UnsupportedVersion);
}

#[test]
fn receipt_sign_verify() {
    let n = PrivateIdentity::generate().unwrap();
    let oid = ObjectId::blake3([9u8; 32]);
    let r = Receipt::issue(ReceiptKind::Delivered, oid, &n, 42);
    r.verify(&n.public.ed25519_pk).unwrap();
    let f = Receipt::issue_forwarded(oid, &n, n.peer_id, 43);
    f.verify(&n.public.ed25519_pk).unwrap();
    assert!(f.witness_peer.is_some());
}

#[test]
fn receipt_from_someone_else_fails() {
    let n = PrivateIdentity::generate().unwrap();
    let m = PrivateIdentity::generate().unwrap();
    let r = Receipt::issue(ReceiptKind::Delivered, ObjectId::blake3([1u8; 32]), &n, 42);
    assert!(r.verify(&m.public.ed25519_pk).is_err());
}

#[test]
fn frames_announce_their_length() {
    let p = frame_prefix(300).unwrap();
    assert_eq!(p, [0, 0, 1, 44]);
    assert_eq!(announced_len(p).unwrap(), 300);
    assert_eq!(announced_len([1, 0, 0, 1]).unwrap_err().code(), ErrorCode::Ddp1006LimitExceeded);
    assert!(check_frame_size(16 * 1024 * 1024).is_ok());
    assert_eq!(check_frame_size(16 * 1024 * 1024 + 1).unwrap_err().code(), ErrorCode::Ddp1006LimitExceeded);
}

#[test]
fn ddrop_archive_roundtrip() {
    let files = vec![
        ("objects/a.cbor".to_string(), vec![1u8, 2, 3]),
        ("chunks/ff".to_string(), vec![]),
        ("carrier.json".to_string(), b"{}".to_vec()),
    ];
    let bytes = pack_ddrop_bytes(&files);
    assert_eq!(&bytes[..7], b"DDROP1\n");
    assert_eq!(&bytes[7..11], &[0, 0, 0, 3]);
    assert_eq!(&bytes[11..13], &[0, 14]);
    assert_eq!(unpack_ddrop_bytes(&bytes).unwrap(), files);
}

#[test]
fn ddrop_archive_errors() {
    assert_eq!(unpack_ddrop_bytes(b"DDROP2\n\0\0\0\0").unwrap_err().code(), ErrorCode::Ddp1001InvalidFrame);
    let good = pack_ddrop_bytes(&[("a".to_string(), vec![9u8; 4])]);
    assert!(unpack_ddrop_bytes(&good[..good.len() - 1]).is_err());
    let evil = pack_ddrop_bytes(&[("../etc/passwd".to_string(), vec![1u8])]);
    assert!(unpack_ddrop_bytes(&evil).is_err());
    let mut bad_name = pack_ddrop_bytes(&[("ab".to_string(), vec![])]);
    bad_name[13] = 0xff;
    assert!(unpack_ddrop_bytes(&bad_name).is_err());
    let mut extra = good.clone();
    extra.extend_from_slice(b"trailing");
    assert_eq!(unpack_ddrop_bytes(&extra).unwrap().len(), 1);
}

#[test]
fn export_filter_choices() {
    let p = PeerId::from_digest([4u8; 32]);
    let q = PeerId::from_digest([5u8; 32]);
    let f = ExportFilter { destination: Some(p), pending_only: true };
    assert!(f.admits(&Destination::One { peer: p }, false));
    assert!(f.admits(&Destination::Public, false));
    assert!(!f.admits(&Destination::One { peer: q }, false));
    assert!(!f.admits(&Destination::One { peer: p }, true));
    assert!(ExportFilter::default().admits(&Destination::One { peer: q }, true));
    assert!(was_forwarded(&[(1, "created locally".to_string()), (2, "forwarded to x".to_string())]));
    assert!(!was_forwarded(&[(1, "created locally".to_string())]));
    let m = carrier_manifest(3);
    assert_eq!(m.protocol, "DDP/2");
    assert_eq!(m.objects, 3);
}

#[test]
fn public_drop_fails_exactly_as_its_chunking() {
    let a = PrivateIdentity::generate().unwrap();
    let b = PrivateIdentity::generate().unwrap();
    let mut req = request(&a, &b, b"hello everyone");
    req.public = true;
    req.erasure = Some(ErasureSpec { data_shards: 0, parity_shards: 1 });
    let e = build_drop(req).err().unwrap();
    assert_eq!(e.code(), ErrorCode::Ddp1006LimitExceeded);
    let mut req = request(&a, &b, b"");
    req.public = true;
    req.erasure = Some(ErasureSpec { data_shards: 2, parity_shards: 2 });
    let e = build_drop(req).err().unwrap();
    assert_eq!(e.code(), ErrorCode::Dds2002CorruptChunk);
    let mut req = request(&a, &b, b"hello everyone");
    req.public = true;
    req.erasure = Some(ErasureSpec { data_shards: 2, parity_shards: 1 });
    assert!(build_drop(req).is_ok());
}

#[test]
fn bloom_holds_members_at_any_bit_count() {
    let ids: Vec<ObjectId> = (0u8..13).map(|i| ObjectId::blake3([i; 32])).collect();
    let b = BloomFilter::from_ids(&ids, 5);
    assert_eq!(b.bits.len(), 9);
    for id in &ids {
        assert!(b.may_contain(id));
    }
    let empty = BloomFilter::from_ids(&[], 10);
    assert!(ids.iter().all(|id| !empty.may_contain(id)));
}

#[test]
fn error_code_texts_are_distinct_and_name_their_category() {
    let all = [
        ErrorCode::Ddp1001InvalidFrame, ErrorCode::Ddp1002UnsupportedVersion, ErrorCode::Ddp1003UnknownCriticalExtension, ErrorCode::Ddp1004UnsupportedHash,
        ErrorCode::Ddp1005BadIdentifier, ErrorCode::Ddp1006LimitExceeded, ErrorCode::Ddp1007Expired, ErrorCode::Ddp1008NotRecipient, ErrorCode::Ddp1009Sealed,
        ErrorCode::Dds2001StoreFull, ErrorCode::Dds2002CorruptChunk, ErrorCode::Dds2003MissingChunk, ErrorCode::Dds2004CorruptMetadata, ErrorCode::Dda3001AuthFailed,
        ErrorCode::Dda3002Replay, ErrorCode::Ddr4001RouteUnavailable, ErrorCode::Ddr4002ReplicationExhausted, ErrorCode::Ddi5001UnknownContact, ErrorCode::Ddc6001Crypto,
        ErrorCode::Ddi7001Io, ErrorCode::Ddx0000Internal,
    ];
    for (i, a) in all.iter().enumerate() {
        for b in &all[i + 1..] {
            assert_ne!(a.as_str(), b.as_str());
        }
        let t = a.as_str();
        let want = match &t[..3] {
            "DDP" => "protocol",
            "DDS" => "store",
            "DDA" => "auth",
            "DDR" => "routing",
            "DDC" => "crypto",
            "DDX" => "internal",
            _ => if &t[3..4] == "5" { "identity" } else { "io" },
        };
        assert_eq!(a.category(), want);
        assert_eq!(&t[7..8], "_");
    }
    assert_eq!(ErrorCode::Ddp1006LimitExceeded.as_str(), "DDP1006_LIMIT_EXCEEDED");
}

#[test]
fn priority_wire_value_reads_back() {
    for p in [Priority::Bulk, Priority::Normal, Priority::Important, Priority::Urgent] {
        assert_eq!(Priority::from_u8(p.as_u8()), p);
    }
    assert_eq!(Priority::from_u8(9), Priority::Normal);
}

#[test]
fn sealing_with_fixed_keys_opens_for_the_recipient() {
    let a = PrivateIdentity::generate().unwrap();
    let b = PrivateIdentity::generate().unwrap();
    let req = request(&a, &b, b"sealed body");
    let eph = vec![([7u8; 32], [9u8; 12])];
    let built = deaddrop::protocol::envelope::seal_drop(req, b"sealed body".to_vec(), [3u8; 32], [5u8; 12], &eph).unwrap();
    let sec = &built.envelope.security_descriptor;
    assert_eq!(sec.content_nonce, [5u8; 12]);
    assert_eq!(sec.wraps.len(), 1);
    assert_eq!(sec.wraps[0].nonce, [9u8; 12]);
    let pt = open_drop_at(&b, &built.envelope, &built.manifest, &built.chunks, 1_700_000_100, 0).unwrap();
    assert_eq!(pt, b"sealed body".to_vec());
    assert!(open_drop_at(&a, &built.envelope, &built.manifest, &built.chunks, 1_700_000_100, 0).is_err());
}

#[test]
fn wrap_with_fixed_ephemeral_unwraps() {
    let b = PrivateIdentity::generate().unwrap();
    let w = deaddrop::crypto::wrap_cek_with(&b.public.x25519_pk, b.peer_id, &[4u8; 32], &[8u8; 32], &[1u8; 12]).unwrap();
    assert_eq!(w.peer, b.peer_id);
    assert_eq!(w.nonce, [1u8; 12]);
    assert_eq!(deaddrop::crypto::unwrap_cek(&b, &w).unwrap(), [4u8; 32]);
}
