//! Splitting a Drop body into content-addressed chunks, and putting it back together.

pub mod erasure;

pub use erasure::{ErasureInfo, ErasureSpec};

use crate::crypto::{be32, be64, hash_of, DefaultProvider, u32_be, u64_be};
use crate::error::{coded, DdResult, ErrorCode, err_code, fails_with};
use crate::ids::{eq_bytes32, ChunkId, ContentId, HashAlgorithm, ManifestId};
use crate::limits::{FIXED_CHUNK_SIZE, MAX_CHUNKS_PER_MANIFEST};
use crate::primitives::{blake3_digest, views};
use crate::text::{
    ascii_bytes, ascii_bytes_of, chars_eq_str, chars_of, has_substring, has_substring_chars, lower,
    lower_chars, push_all,
};
use vstd::prelude::*;

verus! {

#[derive(Debug, Clone, Copy, PartialEq, Eq, Structural)]
pub enum ChunkingAlg {
    Fixed { size: u32 },
    CdcV1 { min: u32, avg: u32, max: u32 },
}

#[derive(Debug, Clone, Copy, PartialEq, Eq)]
pub struct ChunkRef {
    pub id: ChunkId,
    pub length: u32,
}

#[derive(Debug, Clone)]
pub struct Manifest {
    pub payload_id: ContentId,
    pub total_length: u64,
    pub algorithm: ChunkingAlg,
    pub chunks: Vec<ChunkRef>,
    pub payload_hash: ContentId,
    pub erasure: Option<ErasureInfo>,
}

pub struct ChunkedPayload {
    pub manifest: Manifest,
    pub chunks: Vec<Vec<u8>>,
}

/// All byte strings of `s`, one after another.
pub open spec fn concat(s: Seq<Seq<u8>>) -> Seq<u8>
    decreases s.len(),
{
    if s.len() == 0 {
        Seq::empty()
    } else {
        concat(s.drop_last()) + s.last()
    }
}

/// `id` is the BLAKE3 identifier of a chunk with these bytes.
pub open spec fn chunk_matches(id: ChunkId, data: Seq<u8>) -> bool {
    id.algorithm == HashAlgorithm::Blake3 && id.digest.0@ == blake3_digest(data)
}

/// `id` is the BLAKE3 content identifier of these bytes.
pub open spec fn content_matches(id: ContentId, data: Seq<u8>) -> bool {
    id.algorithm == HashAlgorithm::Blake3 && id.digest.0@ == blake3_digest(data)
}

/// Fixed-size pieces: `size` bytes each, the last one shorter; one empty piece for no data.
pub open spec fn fixed_pieces(data: Seq<u8>, size: nat) -> Seq<Seq<u8>>
    recommends
        size > 0,
    decreases data.len(),
{
    if data.len() <= size || size == 0 {
        seq![data]
    } else {
        seq![data.take(size as int)] + fixed_pieces(data.skip(size as int), size)
    }
}

/// The state of the linear congruential generator that fills the gear table.
pub open spec fn lcg(n: nat) -> u32
    decreases n,
{
    if n == 0 {
        0x9e37_79b9u32
    } else {
        vstd::wrapping::u32_specs::wrapping_add(
            vstd::wrapping::u32_specs::wrapping_mul(lcg((n - 1) as nat), 1664525),
            1013904223,
        )
    }
}

/// Gear table entry for a byte value.
pub open spec fn gear_entry(b: u8) -> u32 {
    lcg(b as nat + 1)
}

/// Gear rolling hash of a piece.
pub open spec fn gear(p: Seq<u8>) -> u32
    decreases p.len(),
{
    if p.len() == 0 {
        0
    } else {
        vstd::wrapping::u32_specs::wrapping_add(gear(p.drop_last()) << 1u32, gear_entry(p.last()))
    }
}

/// A piece ends at the end of `p`: long enough and the masked hash is zero, or too long.
pub open spec fn cuts(p: Seq<u8>, min: nat, mask: u64, max: nat) -> bool {
    (p.len() >= min && ((gear(p) as u64) & mask) == 0) || p.len() >= max
}

/// Length of the first piece of `d`, searching from length `l`.
pub open spec fn cut_scan(d: Seq<u8>, l: nat, min: nat, mask: u64, max: nat) -> nat
    decreases d.len() - l,
{
    if l >= d.len() {
        d.len()
    } else if cuts(d.take(l as int), min, mask, max) {
        l
    } else {
        cut_scan(d, l + 1, min, mask, max)
    }
}

/// Content-defined pieces of `d`.
pub open spec fn cdc_pieces(d: Seq<u8>, min: nat, mask: u64, max: nat) -> Seq<Seq<u8>>
    decreases d.len(),
{
    if d.len() == 0 {
        Seq::empty()
    } else {
        let l = cut_scan(d, 1, min, mask, max);
        if 0 < l <= d.len() {
            seq![d.take(l as int)] + cdc_pieces(d.skip(l as int), min, mask, max)
        } else {
            seq![d]
        }
    }
}

/// Smallest power of two, starting from `p`, that is at least `n`.
pub open spec fn pow2_from(p: nat, n: nat) -> nat
    decreases (if p < n { n - p } else { 0 }),
{
    if p >= n || p == 0 {
        p
    } else {
        pow2_from(2 * p, n)
    }
}

/// The CDC parameters as applied: minimum at least 64, maximum above the minimum, and the
/// mask one less than the smallest power of two not below the average (at least 1).
pub open spec fn cdc_min(min: u32) -> nat {
    if min < 64 { 64 } else { min as nat }
}

pub open spec fn cdc_max(min: u32, max: u32) -> nat {
    if (max as nat) < cdc_min(min) + 1 { cdc_min(min) + 1 } else { max as nat }
}

pub open spec fn cdc_mask(avg: u32) -> u64 {
    let p = pow2_from(1, avg as nat);
    if p <= 1 { 1 } else { (p - 1) as u64 }
}

/// The pieces a chunking algorithm cuts `data` into.
pub open spec fn pieces(data: Seq<u8>, alg: ChunkingAlg) -> Seq<Seq<u8>> {
    match alg {
        ChunkingAlg::Fixed { size } => fixed_pieces(data, if size == 0 { 1 } else { size as nat }),
        ChunkingAlg::CdcV1 { min, avg, max } => {
            let c = cdc_pieces(data, cdc_min(min), cdc_mask(avg), cdc_max(min, max));
            if c.len() == 0 { seq![data] } else { c }
        },
    }
}

pub proof fn lemma_concat_prepend(a: Seq<u8>, rest: Seq<Seq<u8>>)
    ensures
        concat(seq![a] + rest) == a + concat(rest),
    decreases rest.len(),
{
    let s = seq![a] + rest;
    if rest.len() == 0 {
        assert(s =~= seq![a]);
        assert(s.drop_last() =~= Seq::<Seq<u8>>::empty());
        assert(concat(s) == concat(s.drop_last()) + s.last());
        assert(concat(Seq::<Seq<u8>>::empty()) == Seq::<u8>::empty());
        assert(Seq::<u8>::empty() + a =~= a);
        assert(a + Seq::<u8>::empty() =~= a);
    } else {
        lemma_concat_prepend(a, rest.drop_last());
        assert(s.drop_last() =~= seq![a] + rest.drop_last());
        assert(s.last() == rest.last());
        assert(concat(s) == concat(s.drop_last()) + s.last());
        assert(concat(rest) == concat(rest.drop_last()) + rest.last());
        assert(a + concat(rest.drop_last()) + rest.last() =~= a + (concat(rest.drop_last())
            + rest.last()));
    }
}

/// Fixed-size pieces put back together give the data.
pub proof fn lemma_fixed_concat(d: Seq<u8>, size: nat)
    requires
        size > 0,
    ensures
        concat(fixed_pieces(d, size)) == d,
        fixed_pieces(d, size).len() >= 1,
    decreases d.len(),
{
    if d.len() <= size {
        let s = seq![d];
        assert(fixed_pieces(d, size) == s);
        assert(s.drop_last() =~= Seq::<Seq<u8>>::empty());
        assert(concat(s) == concat(s.drop_last()) + s.last());
        assert(concat(Seq::<Seq<u8>>::empty()) == Seq::<u8>::empty());
        assert(Seq::<u8>::empty() + d =~= d);
    } else {
        assert(fixed_pieces(d, size) == seq![d.take(size as int)] + fixed_pieces(d.skip(size as int), size));
        lemma_fixed_concat(d.skip(size as int), size);
        lemma_concat_prepend(d.take(size as int), fixed_pieces(d.skip(size as int), size));
        assert(d.take(size as int) + d.skip(size as int) =~= d);
    }
}

proof fn lemma_cut_scan_bounds(d: Seq<u8>, l: nat, min: nat, mask: u64, max: nat)
    requires
        1 <= l,
        d.len() >= 1,
    ensures
        1 <= cut_scan(d, l, min, mask, max) <= d.len(),
        l <= d.len() ==> l <= cut_scan(d, l, min, mask, max),
    decreases d.len() - l,
{
    if l < d.len() && !cuts(d.take(l as int), min, mask, max) {
        lemma_cut_scan_bounds(d, l + 1, min, mask, max);
    }
}

/// Content-defined pieces put back together give the data.
pub proof fn lemma_cdc_concat(d: Seq<u8>, min: nat, mask: u64, max: nat)
    ensures
        concat(cdc_pieces(d, min, mask, max)) == d,
    decreases d.len(),
{
    if d.len() > 0 {
        let l = cut_scan(d, 1, min, mask, max);
        lemma_cut_scan_bounds(d, 1, min, mask, max);
        lemma_cdc_concat(d.skip(l as int), min, mask, max);
        lemma_concat_prepend(d.take(l as int), cdc_pieces(d.skip(l as int), min, mask, max));
        assert(d.take(l as int) + d.skip(l as int) =~= d);
    }
}

/// The pieces of any chunking put back together give the data.
pub proof fn lemma_pieces_concat(data: Seq<u8>, alg: ChunkingAlg)
    ensures
        concat(pieces(data, alg)) == data,
        pieces(data, alg).len() >= 1,
{
    match alg {
        ChunkingAlg::Fixed { size } => {
            lemma_fixed_concat(data, if size == 0 { 1 } else { size as nat });
        },
        ChunkingAlg::CdcV1 { min, avg, max } => {
            let c = cdc_pieces(data, cdc_min(min), cdc_mask(avg), cdc_max(min, max));
            lemma_cdc_concat(data, cdc_min(min), cdc_mask(avg), cdc_max(min, max));
            if c.len() == 0 {
                assert(seq![data].drop_last() =~= Seq::<Seq<u8>>::empty());
                assert(Seq::<u8>::empty() + data =~= data);
            }
        },
    }
}

/// A copy of `data[start..end]`.
pub fn copy_range(data: &[u8], start: usize, end: usize) -> (r: Vec<u8>)
    requires
        start <= end <= data@.len(),
    ensures
        r@ == data@.subrange(start as int, end as int),
{
    let mut r: Vec<u8> = Vec::new();
    let mut k = start;
    while k < end
        invariant
            start <= k <= end <= data@.len(),
            r@ == data@.subrange(start as int, k as int),
        decreases end - k,
    {
        r.push(data[k]);
        k += 1;
        assert(r@ =~= data@.subrange(start as int, k as int));
    }
    r
}

fn split_fixed(data: &[u8], size: usize) -> (r: Vec<Vec<u8>>)
    ensures
        views(r@) == fixed_pieces(data@, if size == 0 { 1 } else { size as nat }),
{
    let size = if size == 0 { 1 } else { size };
    let ghost sz = size as nat;
    let mut out: Vec<Vec<u8>> = Vec::new();
    let mut pos: usize = 0;
    assert(data@.skip(0) =~= data@);
    while data.len() - pos > size
        invariant
            pos <= data@.len(),
            size > 0,
            sz == size as nat,
            views(out@) + fixed_pieces(data@.skip(pos as int), sz) == fixed_pieces(data@, sz),
        decreases data@.len() - pos,
    {
        let piece = copy_range(data, pos, pos + size);
        let ghost rest = data@.skip(pos as int);
        assert(rest.take(size as int) =~= piece@);
        assert(rest.skip(size as int) =~= data@.skip(pos + size));
        let ghost before = views(out@);
        out.push(piece);
        assert(views(out@) =~= before.push(piece@));
        pos += size;
        assert(views(out@) + fixed_pieces(data@.skip(pos as int), sz) =~= before + (seq![
            piece@,
        ] + fixed_pieces(data@.skip(pos as int), sz)));
    }
    let last = copy_range(data, pos, data.len());
    assert(last@ =~= data@.skip(pos as int));
    let ghost before = views(out@);
    out.push(last);
    assert(views(out@) =~= before.push(last@));
    assert(views(out@) =~= before + seq![last@]);
    out
}

/// The gear table: 256 states of the generator.
fn gear_table() -> (t: Vec<u32>)
    ensures
        t@.len() == 256,
        forall|b: int| 0 <= b < 256 ==> #[trigger] t@[b] == gear_entry(b as u8),
{
    let mut t: Vec<u32> = Vec::new();
    let mut x: u32 = 0x9e37_79b9;
    let mut k: usize = 0;
    while k < 256
        invariant
            k <= 256,
            t@.len() == k,
            x == lcg(k as nat),
            forall|b: int| 0 <= b < k ==> #[trigger] t@[b] == gear_entry(b as u8),
        decreases 256 - k,
    {
        x = x.wrapping_mul(1664525).wrapping_add(1013904223);
        t.push(x);
        k += 1;
    }
    t
}

fn mask_for(avg: u32) -> (m: u64)
    ensures
        m == cdc_mask(avg),
{
    let mut p: u64 = 1;
    let ghost n = avg as nat;
    assert(pow2_from(1, n) == pow2_from(1, n));
    while p < avg as u64
        invariant
            1 <= p,
            p == 1 || p < 2 * (avg as int),
            pow2_from(p as nat, n) == pow2_from(1, n),
            n == avg as nat,
        decreases 0x2_0000_0000 - p,
    {
        p = p * 2;
    }
    if p <= 1 { 1 } else { p - 1 }
}

fn split_cdc(data: &[u8], min: u32, avg: u32, max: u32) -> (r: Vec<Vec<u8>>)
    ensures
        views(r@) == pieces(data@, ChunkingAlg::CdcV1 { min, avg, max }),
{
    let mn: u64 = if min < 64 { 64 } else { min as u64 };
    let mx: u64 = if (max as u64) < mn + 1 { mn + 1 } else { max as u64 };
    let mask = mask_for(avg);
    let table = gear_table();
    let ghost gmin = cdc_min(min);
    let ghost gmax = cdc_max(min, max);
    let mut out: Vec<Vec<u8>> = Vec::new();
    let mut start: usize = 0;
    let mut hash: u32 = 0;
    let mut i: usize = 0;
    assert(data@.skip(0) =~= data@);
    while i < data.len()
        invariant
            start <= i <= data@.len(),
            mn == gmin,
            mx == gmax,
            mask == cdc_mask(avg),
            table@.len() == 256,
            forall|b: int| 0 <= b < 256 ==> #[trigger] table@[b] == gear_entry(b as u8),
            hash == gear(data@.subrange(start as int, i as int)),
            i > start ==> cut_scan(data@.skip(start as int), 1, gmin, mask, gmax) == cut_scan(
                data@.skip(start as int),
                (i - start + 1) as nat,
                gmin,
                mask,
                gmax,
            ),
            views(out@) + cdc_pieces(data@.skip(start as int), gmin, mask, gmax) == cdc_pieces(
                data@,
                gmin,
                mask,
                gmax,
            ),
        decreases data@.len() - i,
    {
        let b = data[i];
        let ghost cur = data@.skip(start as int);
        let ghost len = (i + 1 - start) as nat;
        assert(data@.subrange(start as int, i + 1).drop_last() =~= data@.subrange(start as int, i as int));
        assert(cur.take(len as int) =~= data@.subrange(start as int, i + 1));
        hash = (hash << 1u32).wrapping_add(table[b as usize]);
        let l = i + 1 - start;
        let cut = (l as u64 >= mn && ((hash as u64) & mask) == 0) || l as u64 >= mx;
        assert(cut == cuts(cur.take(len as int), gmin, mask, gmax));
        if cut {
            let piece = copy_range(data, start, i + 1);
            proof {
                assert(cut_scan(cur, len, gmin, mask, gmax) == len);
                assert(cut_scan(cur, 1, gmin, mask, gmax) == len) by {
                    if i > start {
                    } else {
                        assert(len == 1);
                    }
                }
                assert(cur.take(len as int) =~= piece@);
                assert(cur.skip(len as int) =~= data@.skip(i + 1));
            }
            let ghost before = views(out@);
            out.push(piece);
            assert(views(out@) =~= before.push(piece@));
            start = i + 1;
            hash = 0;
            assert(data@.subrange(start as int, start as int) =~= Seq::<u8>::empty());
            assert(views(out@) + cdc_pieces(data@.skip(start as int), gmin, mask, gmax) =~= before + (seq![
                piece@,
            ] + cdc_pieces(data@.skip(start as int), gmin, mask, gmax)));
        } else {
            proof {
                if len < cur.len() {
                    assert(cut_scan(cur, len, gmin, mask, gmax) == cut_scan(cur, len + 1, gmin, mask, gmax));
                }
            }
        }
        i += 1;
    }
    if start < data.len() {
        let piece = copy_range(data, start, data.len());
        proof {
            let cur = data@.skip(start as int);
            assert(piece@ =~= cur);
            assert(cut_scan(cur, (i - start + 1) as nat, gmin, mask, gmax) == cur.len());
            assert(cur.take(cur.len() as int) =~= cur);
            assert(cur.skip(cur.len() as int) =~= Seq::<u8>::empty());
            assert(cut_scan(cur, 1, gmin, mask, gmax) == cur.len());
            assert(cdc_pieces(Seq::<u8>::empty(), gmin, mask, gmax) == Seq::<Seq<u8>>::empty());
            assert(cdc_pieces(cur, gmin, mask, gmax) =~= seq![cur]);
        }
        let ghost before = views(out@);
        out.push(piece);
        assert(views(out@) =~= before.push(piece@));
        assert(views(out@) =~= before + seq![piece@]);
        assert(views(out@) == cdc_pieces(data@, gmin, mask, gmax));
    } else {
        assert(data@.skip(start as int) =~= Seq::<u8>::empty());
        assert(cdc_pieces(Seq::<u8>::empty(), gmin, mask, gmax) == Seq::<Seq<u8>>::empty());
        assert(views(out@) + Seq::<Seq<u8>>::empty() =~= views(out@));
        assert(views(out@) == cdc_pieces(data@, gmin, mask, gmax));
    }
    if out.len() == 0 {
        assert(cdc_pieces(data@, gmin, mask, gmax).len() == 0);
        let whole = copy_range(data, 0, data.len());
        assert(whole@ =~= data@);
        out.push(whole);
        assert(views(out@) =~= seq![data@]);
    } else {
        assert(cdc_pieces(data@, gmin, mask, gmax).len() > 0);
    }
    out
}


/// Each reference names the piece at its position: its BLAKE3 identifier and its length.
pub open spec fn refs_match(refs: Seq<ChunkRef>, p: Seq<Seq<u8>>) -> bool {
    refs.len() == p.len() && forall|i: int|
        0 <= i < p.len() ==> chunk_matches(#[trigger] refs[i].id, p[i]) && refs[i].length == p[i].len() as u32
}

/// `cp` is what cutting `data` with `alg` gives: the pieces as chunks, each listed in the
/// manifest under its identifier and length, and the whole payload named by its digest.
pub open spec fn chunked_from(cp: ChunkedPayload, data: Seq<u8>, alg: ChunkingAlg) -> bool {
    let p = pieces(data, alg);
    &&& views(cp.chunks@) == p
    &&& refs_match(cp.manifest.chunks@, p)
    &&& content_matches(cp.manifest.payload_id, data)
    &&& cp.manifest.payload_hash == cp.manifest.payload_id
    &&& cp.manifest.total_length == data.len() as u64
    &&& cp.manifest.algorithm == alg
    &&& cp.manifest.erasure is None
}

/// Number of data chunks a manifest describes: all of them, or the count before the parity.
pub open spec fn data_chunk_count(m: Manifest) -> nat {
    match m.erasure {
        Some(e) => e.data_count as nat,
        None => m.chunks@.len(),
    }
}

/// What reassembling `chunks` against `m` gives: the count must be the data count; each
/// chunk listed must match its identifier and length; the joined bytes must match the
/// payload hash.
pub open spec fn reassemble_outcome(m: Manifest, chunks: Seq<Seq<u8>>) -> Result<Seq<u8>, ErrorCode> {
    let n = data_chunk_count(m);
    let k = if n <= m.chunks@.len() { n } else { m.chunks@.len() };
    if chunks.len() != n {
        Err(ErrorCode::Dds2003MissingChunk)
    } else if !refs_match(m.chunks@.take(k as int), chunks.take(k as int)) {
        Err(ErrorCode::Dds2002CorruptChunk)
    } else if !content_matches(m.payload_hash, concat(chunks.take(k as int))) {
        Err(ErrorCode::Dds2002CorruptChunk)
    } else {
        Ok(concat(chunks.take(k as int)))
    }
}

/// The bytes the chunk list contributes to a manifest's identifier.
pub open spec fn refs_bytes(refs: Seq<ChunkRef>) -> Seq<u8>
    decreases refs.len(),
{
    if refs.len() == 0 {
        Seq::empty()
    } else {
        refs_bytes(refs.drop_last()) + refs.last().id.digest.0@ + be32(refs.last().length)
    }
}

/// What a manifest's identifier is the BLAKE3 digest of.
pub open spec fn manifest_preimage(m: Manifest) -> Seq<u8> {
    ascii_bytes("ddp-manifest-v2"@) + m.payload_id.digest.0@ + be64(m.total_length) + refs_bytes(
        m.chunks@,
    ) + match m.erasure {
        Some(e) => ascii_bytes("erasure-v1"@) + be32(e.data_count) + be32(e.spec.data_shards)
            + be32(e.spec.parity_shards),
        None => Seq::empty(),
    }
}

/// Indices below `n` whose chunk `present` does not mark as present.
pub open spec fn missing_below(n: nat, present: Seq<bool>) -> Seq<u32>
    decreases n,
{
    if n == 0 {
        Seq::empty()
    } else {
        let i = (n - 1) as nat;
        missing_below(i, present) + if i < present.len() && present[i as int] {
            Seq::empty()
        } else {
            seq![i as u32]
        }
    }
}

impl Manifest {
    /// BLAKE3 over the manifest's canonical bytes.
    pub fn id(&self) -> (r: ManifestId)
        ensures
            r.algorithm == HashAlgorithm::Blake3,
            r.digest.0@ == blake3_digest(manifest_preimage(*self)),
    {
        let mut buf = ascii_bytes_of("ddp-manifest-v2");
        push_all(&mut buf, self.payload_id.as_bytes());
        push_all(&mut buf, &u64_be(self.total_length));
        let mut k: usize = 0;
        while k < self.chunks.len()
            invariant
                k <= self.chunks@.len(),
                buf@ == ascii_bytes("ddp-manifest-v2"@) + self.payload_id.digest.0@ + be64(
                    self.total_length,
                ) + refs_bytes(self.chunks@.take(k as int)),
            decreases self.chunks@.len() - k,
        {
            let c = &self.chunks[k];
            push_all(&mut buf, c.id.as_bytes());
            push_all(&mut buf, &u32_be(c.length));
            proof {
                let t = self.chunks@.take(k + 1);
                assert(t.drop_last() =~= self.chunks@.take(k as int));
            }
            k += 1;
        }
        assert(self.chunks@.take(self.chunks@.len() as int) =~= self.chunks@);
        match &self.erasure {
            Some(e) => {
                let tag = ascii_bytes_of("erasure-v1");
                push_all(&mut buf, &tag);
                push_all(&mut buf, &u32_be(e.data_count));
                push_all(&mut buf, &u32_be(e.spec.data_shards));
                push_all(&mut buf, &u32_be(e.spec.parity_shards));
            },
            None => {
                assert(buf@ + Seq::<u8>::empty() =~= buf@);
            },
        }
        proof {
            assert(buf@ =~= manifest_preimage(*self));
        }
        let d = DefaultProvider.hash(HashAlgorithm::Blake3, &buf);
        ManifestId::blake3(d.0)
    }

    /// Indices of the listed chunks that `present` does not mark as present.
    pub fn missing_indices(&self, present: &[bool]) -> (r: Vec<u32>)
        ensures
            r@ == missing_below(self.chunks@.len(), present@),
    {
        let mut out: Vec<u32> = Vec::new();
        let mut i: usize = 0;
        while i < self.chunks.len()
            invariant
                i <= self.chunks@.len(),
                out@ == missing_below(i as nat, present@),
            decreases self.chunks@.len() - i,
        {
            let here = i < present.len() && present[i];
            if !here {
                out.push(i as u32);
            }
            i += 1;
            assert(out@ =~= missing_below(i as nat, present@));
        }
        out
    }
}

/// Cuts `data` with `alg`, names each piece by its BLAKE3 digest and lists it in a manifest.
/// Fails with `Ddp1006LimitExceeded` when the piece count, taken as a `u32`, is over the limit.
pub fn chunk_payload(data: &[u8], alg: ChunkingAlg) -> (r: DdResult<ChunkedPayload>)
    ensures
        (pieces(data@, alg).len() as u32) > MAX_CHUNKS_PER_MANIFEST ==> fails_with(
            r,
            ErrorCode::Ddp1006LimitExceeded,
        ),
        (pieces(data@, alg).len() as u32) <= MAX_CHUNKS_PER_MANIFEST ==> r is Ok && chunked_from(
            r->Ok_0,
            data@,
            alg,
        ),
{
    let slices = match alg {
        ChunkingAlg::Fixed { size } => split_fixed(data, size as usize),
        ChunkingAlg::CdcV1 { min, avg, max } => split_cdc(data, min, avg, max),
    };
    let ghost p = pieces(data@, alg);
    assert(views(slices@) == p);
    if slices.len() as u32 > MAX_CHUNKS_PER_MANIFEST {
        return Err(coded(ErrorCode::Ddp1006LimitExceeded, "too many chunks"));
    }
    let provider = DefaultProvider;
    let mut refs: Vec<ChunkRef> = Vec::new();
    let mut k: usize = 0;
    while k < slices.len()
        invariant
            k <= slices@.len(),
            views(slices@) == p,
            refs_match(refs@, p.take(k as int)),
        decreases slices@.len() - k,
    {
        let d = provider.hash(HashAlgorithm::Blake3, slices[k].as_slice());
        let r = ChunkRef { id: ChunkId::blake3(d.0), length: slices[k].len() as u32 };
        refs.push(r);
        proof {
            assert(p[k as int] == slices@[k as int]@);
            assert forall|i: int| 0 <= i < k + 1 implies chunk_matches(
                #[trigger] refs@[i].id,
                p.take(k + 1)[i],
            ) && refs@[i].length == p.take(k + 1)[i].len() as u32 by {
                if i < k {
                    assert(p.take(k + 1)[i] == p.take(k as int)[i]);
                }
            }
        }
        k += 1;
    }
    assert(p.take(p.len() as int) =~= p);
    let whole = provider.hash(HashAlgorithm::Blake3, data);
    let payload_id = ContentId::blake3(whole.0);
    Ok(
        ChunkedPayload {
            manifest: Manifest {
                payload_id,
                total_length: data.len() as u64,
                algorithm: alg,
                chunks: refs,
                payload_hash: payload_id,
                erasure: None,
            },
            chunks: slices,
        },
    )
}

/// Fails with `Dds2002CorruptChunk` unless `data` hashes to `id`.
pub fn verify_chunk(id: &ChunkId, data: &[u8]) -> (r: DdResult<()>)
    ensures
        r is Ok <==> chunk_matches(*id, data@),
        !chunk_matches(*id, data@) ==> fails_with(r, ErrorCode::Dds2002CorruptChunk),
{
    let d = DefaultProvider.hash(HashAlgorithm::Blake3, data);
    if id.algorithm == HashAlgorithm::Blake3 && eq_bytes32(&id.digest.0, &d.0) {
        Ok(())
    } else {
        Err(coded(ErrorCode::Dds2002CorruptChunk, "chunk content id mismatch"))
    }
}

/// Joins the data chunks of a manifest after checking each against its reference and the
/// result against the payload hash.
pub fn reassemble(manifest: &Manifest, chunks: &[Vec<u8>]) -> (r: DdResult<Vec<u8>>)
    ensures
        match reassemble_outcome(*manifest, views(chunks@)) {
            Ok(d) => r is Ok && r->Ok_0@ == d,
            Err(c) => fails_with(r, c),
        },
{
    let data_n: usize = match &manifest.erasure {
        Some(e) => e.data_count as usize,
        None => manifest.chunks.len(),
    };
    let ghost cv = views(chunks@);
    assert(data_n as nat == data_chunk_count(*manifest));
    if chunks.len() != data_n {
        return Err(coded(ErrorCode::Dds2003MissingChunk, "chunk count"));
    }
    let k: usize = if data_n <= manifest.chunks.len() { data_n } else { manifest.chunks.len() };
    assert(cv.len() == data_chunk_count(*manifest));
    let mut out: Vec<u8> = Vec::new();
    let mut i: usize = 0;
    while i < k
        invariant
            i <= k,
            k <= chunks@.len(),
            k <= manifest.chunks@.len(),
            cv == views(chunks@),
            cv.len() == data_chunk_count(*manifest),
            k == (if data_chunk_count(*manifest) <= manifest.chunks@.len() {
                data_chunk_count(*manifest)
            } else {
                manifest.chunks@.len()
            }),
            out@ == concat(cv.take(i as int)),
            refs_match(manifest.chunks@.take(i as int), cv.take(i as int)),
        decreases k - i,
    {
        let refer = &manifest.chunks[i];
        let piece = chunks[i].as_slice();
        assert(cv[i as int] == piece@);
        let ghost rk = manifest.chunks@.take(k as int);
        let ghost ck = cv.take(k as int);
        assert(rk[i as int] == *refer);
        assert(ck[i as int] == piece@);
        match verify_chunk(&refer.id, piece) {
            Err(e) => {
                assert(!(chunk_matches(rk[i as int].id, ck[i as int]) && rk[i as int].length
                    == ck[i as int].len() as u32));
                assert(!refs_match(rk, ck));
                return Err(e);
            },
            Ok(()) => {},
        }
        if piece.len() as u32 != refer.length {
            assert(!(chunk_matches(rk[i as int].id, ck[i as int]) && rk[i as int].length
                == ck[i as int].len() as u32));
            assert(!refs_match(rk, ck));
            return Err(coded(ErrorCode::Dds2002CorruptChunk, "chunk length"));
        }
        push_all(&mut out, piece);
        proof {
            let t = cv.take(i + 1);
            assert(t.drop_last() =~= cv.take(i as int));
            assert(t.last() == piece@);
            assert forall|j: int| 0 <= j < i + 1 implies chunk_matches(
                #[trigger] manifest.chunks@.take(i + 1)[j].id,
                cv.take(i + 1)[j],
            ) && manifest.chunks@.take(i + 1)[j].length == cv.take(i + 1)[j].len() as u32 by {
                if j < i {
                    assert(manifest.chunks@.take(i + 1)[j] == manifest.chunks@.take(i as int)[j]);
                    assert(cv.take(i + 1)[j] == cv.take(i as int)[j]);
                }
            }
            assert(manifest.chunks@.take(i + 1).len() == i + 1);
        }
        i += 1;
    }
    let d = DefaultProvider.hash(HashAlgorithm::Blake3, &out);
    if !(manifest.payload_hash.algorithm == HashAlgorithm::Blake3 && eq_bytes32(
        &manifest.payload_hash.digest.0,
        &d.0,
    )) {
        return Err(coded(ErrorCode::Dds2002CorruptChunk, "payload hash mismatch"));
    }
    Ok(out)
}

/// Chunking and then reassembling gives the data back.
pub proof fn lemma_chunk_then_reassemble(data: Seq<u8>, alg: ChunkingAlg, cp: ChunkedPayload)
    requires
        chunked_from(cp, data, alg),
    ensures
        reassemble_outcome(cp.manifest, views(cp.chunks@)) == Ok::<Seq<u8>, ErrorCode>(data),
{
    lemma_pieces_concat(data, alg);
    let p = pieces(data, alg);
    assert(p.take(p.len() as int) =~= p);
    assert(cp.manifest.chunks@.take(p.len() as int) =~= cp.manifest.chunks@);
}

/// A content-defined cut of `a` found before its end is found at the same place in `a + b`:
/// it depends only on the bytes before it.
proof fn lemma_cut_scan_prefix(a: Seq<u8>, b: Seq<u8>, l: nat, min: nat, mask: u64, max: nat)
    requires
        cut_scan(a, l, min, mask, max) < a.len(),
    ensures
        cut_scan(a + b, l, min, mask, max) == cut_scan(a, l, min, mask, max),
    decreases a.len() - l,
{
    assert((a + b).take(l as int) =~= a.take(l as int));
    if !cuts(a.take(l as int), min, mask, max) {
        lemma_cut_scan_prefix(a, b, l + 1, min, mask, max);
    }
}

/// Appending bytes keeps content-defined chunks: every piece of `a` but the last is also the
/// piece at the same place of `a + b`.
pub proof fn lemma_cdc_prefix_stable(a: Seq<u8>, b: Seq<u8>, min: nat, mask: u64, max: nat)
    ensures
        cdc_pieces(a + b, min, mask, max).len() + 1 >= cdc_pieces(a, min, mask, max).len(),
        forall|k: int|
            0 <= k < cdc_pieces(a, min, mask, max).len() - 1 ==> #[trigger] cdc_pieces(
                a + b,
                min,
                mask,
                max,
            )[k] == cdc_pieces(a, min, mask, max)[k],
    decreases a.len(),
{
    if a.len() > 0 {
        let l = cut_scan(a, 1, min, mask, max);
        if l < a.len() {
            lemma_cut_scan_prefix(a, b, 1, min, mask, max);
            lemma_cut_scan_from(a, 1, min, mask, max);
            let rest = a.skip(l as int);
            lemma_cdc_prefix_stable(rest, b, min, mask, max);
            assert((a + b).take(l as int) =~= a.take(l as int));
            assert((a + b).skip(l as int) =~= rest + b);
            let pa = cdc_pieces(a, min, mask, max);
            let pb = cdc_pieces(a + b, min, mask, max);
            assert(pa == seq![a.take(l as int)] + cdc_pieces(rest, min, mask, max));
            assert(pb == seq![a.take(l as int)] + cdc_pieces(rest + b, min, mask, max));
            assert forall|k: int| 0 <= k < pa.len() - 1 implies #[trigger] pb[k] == pa[k] by {
                if k > 0 {
                    assert(pa[k] == cdc_pieces(rest, min, mask, max)[k - 1]);
                    assert(pb[k] == cdc_pieces(rest + b, min, mask, max)[k - 1]);
                }
            }
        } else {
            lemma_cut_scan_from(a, 1, min, mask, max);
            assert(a.skip(l as int) =~= Seq::<u8>::empty());
            assert(cdc_pieces(a.skip(l as int), min, mask, max) == Seq::<Seq<u8>>::empty());
        }
    }
}

proof fn lemma_cut_scan_from(d: Seq<u8>, l: nat, min: nat, mask: u64, max: nat)
    ensures
        l <= d.len() ==> l <= cut_scan(d, l, min, mask, max) <= d.len(),
    decreases d.len() - l,
{
    if l < d.len() && !cuts(d.take(l as int), min, mask, max) {
        lemma_cut_scan_from(d, l + 1, min, mask, max);
    }
}

/// Content-defined chunking shares chunks between a payload and the same payload with bytes
/// appended: all chunks of `a` but the last are, in order, the first chunks of `a + b`, listed
/// in both manifests under identifiers that match the same bytes.
pub proof fn lemma_cdc_append_shares(a: Seq<u8>, b: Seq<u8>, alg: ChunkingAlg, ca: ChunkedPayload, cb: ChunkedPayload)
    requires
        alg is CdcV1,
        chunked_from(ca, a, alg),
        chunked_from(cb, a + b, alg),
    ensures
        cb.manifest.chunks@.len() + 1 >= ca.manifest.chunks@.len(),
        forall|k: int|
            0 <= k < ca.manifest.chunks@.len() - 1 ==> views(cb.chunks@)[k] == views(ca.chunks@)[k]
                && #[trigger] cb.manifest.chunks@[k] == ca.manifest.chunks@[k]
                && chunk_matches(ca.manifest.chunks@[k].id, views(ca.chunks@)[k]),
{
    match alg {
        ChunkingAlg::CdcV1 { min, avg, max } => {
            let (mn, mk, mx) = (cdc_min(min), cdc_mask(avg), cdc_max(min, max));
            lemma_cdc_prefix_stable(a, b, mn, mk, mx);
            if a.len() > 0 {
                lemma_cut_scan_from(a, 1, mn, mk, mx);
                lemma_cut_scan_from(a + b, 1, mn, mk, mx);
                assert(cdc_pieces(a, mn, mk, mx).len() > 0);
                assert(cdc_pieces(a + b, mn, mk, mx).len() > 0);
            }
            assert forall|k: int| 0 <= k < ca.manifest.chunks@.len() - 1 implies #[trigger] cb.manifest.chunks@[k]
                == ca.manifest.chunks@[k] by {
                let x = cb.manifest.chunks@[k].id.digest.0;
                let y = ca.manifest.chunks@[k].id.digest.0;
                assert(x@ == y@);
                assert forall|i: int| 0 <= i < 32 implies x[i] == y[i] by {
                    vstd::array::lemma_array_index(x, i);
                    vstd::array::lemma_array_index(y, i);
                }
                assert(x =~= y);
            }
        },
        _ => {},
    }
}

/// Fixed-size chunking with the default chunk size.
pub fn default_fixed() -> (a: ChunkingAlg)
    ensures
        a == (ChunkingAlg::Fixed { size: FIXED_CHUNK_SIZE }),
{
    ChunkingAlg::Fixed { size: FIXED_CHUNK_SIZE }
}

/// The chunk size picked for an object length, a contact window and a transport name.
pub open spec fn adaptive_size(object_len: u64, window_secs: u32, transport: Seq<char>) -> u32 {
    let t = lower(transport);
    if has_substring(t, "blue"@) || t == "ble"@ {
        65536
    } else if window_secs > 0 && window_secs < 20 && object_len > 8 * 1024 * 1024 {
        262144
    } else if (has_substring(t, "lan"@) || has_substring(t, "quic"@) || has_substring(t, "tcp"@))
        && object_len >= 50 * 1024 * 1024 {
        1048576
    } else {
        FIXED_CHUNK_SIZE
    }
}

/// Picks a chunk size from object length, estimated contact window, and transport name:
/// small chunks for Bluetooth, quarter-size ones for short windows on large objects, large
/// ones for fast links carrying very large objects, the default otherwise.
pub fn adaptive_chunk_size(object_len: u64, window_secs: u32, transport: &str) -> (n: u32)
    ensures
        n == adaptive_size(object_len, window_secs, transport@),
{
    let raw = chars_of(transport);
    let t = lower_chars(&raw);
    let blue = chars_of("blue");
    if has_substring_chars(&t, &blue) || chars_eq_str(&t, "ble") {
        return 65536;
    }
    if window_secs > 0 && window_secs < 20 && object_len > 8 * 1024 * 1024 {
        return 262144;
    }
    let lan = chars_of("lan");
    let quic = chars_of("quic");
    let tcp = chars_of("tcp");
    if (has_substring_chars(&t, &lan) || has_substring_chars(&t, &quic) || has_substring_chars(
        &t,
        &tcp,
    )) && object_len >= 50 * 1024 * 1024 {
        return 1048576;
    }
    FIXED_CHUNK_SIZE
}

} // verus!
