use deaddrop::chunk::erasure::{apply_erasure, can_recover, reconstruct, ErasureSpec};
use deaddrop::chunk::{chunk_payload, default_fixed, reassemble, verify_chunk, ChunkingAlg, Manifest};
use deaddrop::chunk::adaptive_chunk_size;
use deaddrop::ErrorCode;

#[test]
fn fixed_roundtrip() {
    let data = vec![7u8; 200_000];
    let c = chunk_payload(&data, default_fixed()).unwrap();
    let out = reassemble(&c.manifest, &c.chunks).unwrap();
    assert_eq!(out, data);
    let mut bad = c.chunks[0].clone();
    bad[0] ^= 1;
    assert!(verify_chunk(&c.manifest.chunks[0].id, &bad).is_err());
}

#[test]
fn cdc_reuse_prefix() {
    let a = vec![1u8; 80_000];
    let mut b = a.clone();
    b.extend_from_slice(&[2u8; 1000]);
    let ca = chunk_payload(&a, ChunkingAlg::CdcV1 { min: 2048, avg: 8192, max: 32768 }).unwrap();
    let cb = chunk_payload(&b, ChunkingAlg::CdcV1 { min: 2048, avg: 8192, max: 32768 }).unwrap();
    let shared = ca
        .manifest
        .chunks
        .iter()
        .filter(|x| cb.manifest.chunks.iter().any(|y| y.id == x.id))
        .count();
    assert!(shared >= 1);
}

#[test]
fn xor_recovers_one_missing() {
    let data = vec![9u8; 90_000];
    let raw = chunk_payload(&data, default_fixed()).unwrap();
    let body = apply_erasure(raw, ErasureSpec { data_shards: 2, parity_shards: 1 }).unwrap();
    let mut slots: Vec<Option<Vec<u8>>> = body.chunks.iter().cloned().map(Some).collect();
    slots[0] = None;
    let got = reconstruct(&body.manifest, &slots).unwrap();
    let out = reassemble(
        &Manifest {
            erasure: None,
            chunks: body.manifest.chunks[..body.manifest.erasure.as_ref().unwrap().data_count as usize]
                .to_vec(),
            ..body.manifest.clone()
        },
        &got,
    )
    .unwrap();
    assert_eq!(out, data);
}

#[test]
fn rs_recovers_two_missing() {
    let data = vec![3u8; 200_000];
    let raw = chunk_payload(&data, default_fixed()).unwrap();
    let body = apply_erasure(raw, ErasureSpec { data_shards: 3, parity_shards: 2 }).unwrap();
    let mut slots: Vec<Option<Vec<u8>>> = body.chunks.iter().cloned().map(Some).collect();
    slots[0] = None;
    slots[1] = None;
    let got = reconstruct(&body.manifest, &slots).unwrap();
    assert_eq!(got.iter().map(|c| c.len()).sum::<usize>(), data.len());
    let mut cat = Vec::new();
    for c in got {
        cat.extend_from_slice(&c);
    }
    assert_eq!(cat, data);
}

#[test]
fn fixed_chunks_have_the_configured_size() {
    let data: Vec<u8> = (0..1_200_000u32).map(|i| (i % 251) as u8).collect();
    let c = chunk_payload(&data, ChunkingAlg::Fixed { size: 500_000 }).unwrap();
    assert_eq!(c.chunks.len(), 3);
    assert_eq!(c.chunks[0].len(), 500_000);
    assert_eq!(c.chunks[2].len(), 200_000);
    assert_eq!(c.manifest.total_length, 1_200_000);
    assert_eq!(reassemble(&c.manifest, &c.chunks).unwrap(), data);
}

#[test]
fn empty_payload_chunks_and_reassembles() {
    let c = chunk_payload(&[], default_fixed()).unwrap();
    assert_eq!(reassemble(&c.manifest, &c.chunks).unwrap(), Vec::<u8>::new());
}

#[test]
fn reassemble_refuses_a_tampered_chunk() {
    let data = vec![5u8; 10_000];
    let c = chunk_payload(&data, default_fixed()).unwrap();
    let mut chunks = c.chunks.clone();
    chunks[0][10] ^= 0xff;
    let e = reassemble(&c.manifest, &chunks).unwrap_err();
    assert_eq!(e.code(), ErrorCode::Dds2002CorruptChunk);
}

#[test]
fn erasure_spec_out_of_range_is_refused() {
    let raw = chunk_payload(&[1u8; 100], default_fixed()).unwrap();
    let e = apply_erasure(raw, ErasureSpec { data_shards: 0, parity_shards: 1 }).err().unwrap();
    assert_eq!(e.code(), ErrorCode::Ddp1006LimitExceeded);
}

#[test]
fn recovery_needs_enough_shards() {
    let data = vec![4u8; 200_000];
    let raw = chunk_payload(&data, default_fixed()).unwrap();
    let body = apply_erasure(raw, ErasureSpec { data_shards: 3, parity_shards: 2 }).unwrap();
    let n = body.manifest.chunks.len();
    let mut mask = vec![true; n];
    assert!(can_recover(&body.manifest, &mask));
    mask[0] = false;
    mask[1] = false;
    assert!(can_recover(&body.manifest, &mask));
    mask[2] = false;
    assert!(!can_recover(&body.manifest, &mask));
}

#[test]
fn adaptive_chunk_sizes() {
    assert_eq!(adaptive_chunk_size(10_000_000, 30, "ble"), 65536);
    assert_eq!(adaptive_chunk_size(10_000, 30, "tcp"), 524288);
    assert_eq!(adaptive_chunk_size(60 * 1024 * 1024, 30, "TCP"), 1048576);
    assert_eq!(adaptive_chunk_size(10 * 1024 * 1024, 10, "tcp"), 262144);
}
