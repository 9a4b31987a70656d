//! Optional forward error correction for Drop chunks.
//!
//! With one parity shard per group the parity is the XOR of the group's data shards; with more
//! it is Reed–Solomon over GF(2^8). Data shards are the group's chunks padded with zeros to the
//! longest of them. Recovered chunks are still checked against their identifiers.

use super::{chunk_matches, copy_range, refs_match, verify_chunk, ChunkRef, ChunkedPayload, Manifest};
use crate::crypto::DefaultProvider;
use crate::error::{coded, err_code, fails_with, DdResult, ErrorCode};
use crate::ids::{ChunkId, HashAlgorithm};
use crate::primitives::{present_count, rs_encode, rs_parity, rs_reconstruct, slots_agree, slots_filled, uniform_shards, views, RsFailure};
use vstd::prelude::*;

verus! {

#[derive(Debug, Clone, Copy, PartialEq, Eq, Structural)]
pub struct ErasureSpec {
    pub data_shards: u32,
    pub parity_shards: u32,
}

#[derive(Debug, Clone, Copy, PartialEq, Eq, Structural)]
pub struct ErasureInfo {
    pub spec: ErasureSpec,
    /// Number of original payload chunks (prefix of `manifest.chunks`).
    pub data_count: u32,
}

/// Shard counts the protocol accepts: 1 to 64 data shards and 1 to 16 parity shards.
pub open spec fn spec_valid(s: ErasureSpec) -> bool {
    1 <= s.data_shards <= 64 && 1 <= s.parity_shards <= 16
}

impl ErasureSpec {
    /// Fails with `Ddp1006LimitExceeded` unless the shard counts are in range.
    pub fn validate(self) -> (r: DdResult<()>)
        ensures
            r is Ok <==> spec_valid(self),
            !spec_valid(self) ==> fails_with(r, ErrorCode::Ddp1006LimitExceeded),
    {
        if self.data_shards == 0 || self.data_shards > 64 {
            return Err(coded(ErrorCode::Ddp1006LimitExceeded, "erasure data_shards must be 1..=64"));
        }
        if self.parity_shards == 0 || self.parity_shards > 16 {
            return Err(
                coded(ErrorCode::Ddp1006LimitExceeded, "erasure parity_shards must be 1..=16"),
            );
        }
        Ok(())
    }
}

/// `w` zero bytes.
pub open spec fn zeros(w: nat) -> Seq<u8> {
    Seq::new(w, |k: int| 0u8)
}

/// `x` followed by zeros up to length `w`.
pub open spec fn pad(x: Seq<u8>, w: nat) -> Seq<u8> {
    x + zeros((w - x.len()) as nat)
}

/// Length of the longest byte string of `s`.
pub open spec fn max_len(s: Seq<Seq<u8>>) -> nat
    decreases s.len(),
{
    if s.len() == 0 {
        0
    } else {
        let m = max_len(s.drop_last());
        if s.last().len() > m { s.last().len() } else { m }
    }
}

/// The chunks of the group that starts at `i`: at most `d` of them.
pub open spec fn group_at(c: Seq<Seq<u8>>, i: nat, d: nat) -> Seq<Seq<u8>> {
    c.subrange(i as int, if i + d <= c.len() { (i + d) as int } else { c.len() as int })
}

/// The `d` data shards of a group: its chunks padded to the longest, then all-zero shards.
pub open spec fn padded_group(g: Seq<Seq<u8>>, d: nat) -> Seq<Seq<u8>> {
    Seq::new(d, |j: int| if j < g.len() { pad(g[j], max_len(g)) } else { zeros(max_len(g)) })
}

/// XOR of byte `k` of those shards of `s` that are long enough to have one.
pub open spec fn xor_col(s: Seq<Seq<u8>>, k: int) -> u8
    decreases s.len(),
{
    if s.len() == 0 {
        0
    } else if k < s.last().len() {
        xor_col(s.drop_last(), k) ^ s.last()[k]
    } else {
        xor_col(s.drop_last(), k)
    }
}

/// Byte-wise XOR of `s`, `w` bytes long.
pub open spec fn xor_all(s: Seq<Seq<u8>>, w: nat) -> Seq<u8> {
    Seq::new(w, |k: int| xor_col(s, k))
}

/// The parity shards of one group.
pub open spec fn group_parity(g: Seq<Seq<u8>>, d: nat, q: nat) -> Seq<Seq<u8>> {
    if q == 1 {
        seq![xor_all(padded_group(g, d), max_len(g))]
    } else {
        rs_parity(padded_group(g, d), q)
    }
}

/// The parity shards of the groups from the one starting at `i` onwards.
pub open spec fn parity_from(c: Seq<Seq<u8>>, i: nat, d: nat, q: nat) -> Seq<Seq<u8>>
    decreases (if i < c.len() { c.len() - i } else { 0 }),
{
    if i >= c.len() || d == 0 {
        Seq::empty()
    } else {
        group_parity(group_at(c, i, d), d, q) + parity_from(c, i + d, d, q)
    }
}

/// Some group from the one starting at `i` onwards holds only empty chunks.
pub open spec fn empty_group_from(c: Seq<Seq<u8>>, i: nat, d: nat) -> bool
    decreases (if i < c.len() { c.len() - i } else { 0 }),
{
    if i >= c.len() || d == 0 {
        false
    } else {
        max_len(group_at(c, i, d)) == 0 || empty_group_from(c, i + d, d)
    }
}

/// `out` is `body` with the parity shards of `spec` appended as chunks and listed in the
/// manifest, and the erasure parameters recorded.
pub open spec fn erasure_applied(out: ChunkedPayload, body: ChunkedPayload, spec: ErasureSpec) -> bool {
    let c = views(body.chunks@);
    let p = parity_from(c, 0, spec.data_shards as nat, spec.parity_shards as nat);
    let old_refs = body.manifest.chunks@;
    &&& views(out.chunks@) == c + p
    &&& out.manifest.chunks@.len() == old_refs.len() + p.len()
    &&& out.manifest.chunks@.take(old_refs.len() as int) == old_refs
    &&& refs_match(out.manifest.chunks@.skip(old_refs.len() as int), p)
    &&& out.manifest.payload_id == body.manifest.payload_id
    &&& out.manifest.total_length == body.manifest.total_length
    &&& out.manifest.algorithm == body.manifest.algorithm
    &&& out.manifest.payload_hash == body.manifest.payload_hash
    &&& out.manifest.erasure == Some(ErasureInfo { spec, data_count: c.len() as u32 })
    &&& parity_shaped(c, 0, spec.data_shards as nat, spec.parity_shards as nat)
    &&& (spec.parity_shards > 1 ==> !empty_group_from(c, 0, spec.data_shards as nat))
}

/// From the group starting at `i` on, each group's parity is `q` shards, each as long as the
/// group's longest chunk.
pub open spec fn parity_shaped(c: Seq<Seq<u8>>, i: nat, d: nat, q: nat) -> bool
    decreases (if i < c.len() { c.len() - i } else { 0 }),
{
    if i >= c.len() || d == 0 {
        true
    } else {
        let g = group_at(c, i, d);
        let gp = group_parity(g, d, q);
        &&& gp.len() == q
        &&& forall|k: int| 0 <= k < q ==> (#[trigger] gp[k]).len() == max_len(g)
        &&& parity_shaped(c, i + d, d, q)
    }
}

/// Longest chunk among `chunks[lo..hi]`.
fn longest(chunks: &Vec<Vec<u8>>, lo: usize, hi: usize) -> (w: usize)
    requires
        lo <= hi <= chunks@.len(),
    ensures
        w == max_len(views(chunks@).subrange(lo as int, hi as int)),
{
    let mut w: usize = 0;
    let mut k = lo;
    while k < hi
        invariant
            lo <= k <= hi <= chunks@.len(),
            w == max_len(views(chunks@).subrange(lo as int, k as int)),
        decreases hi - k,
    {
        proof {
            let s = views(chunks@).subrange(lo as int, k + 1);
            assert(s.drop_last() =~= views(chunks@).subrange(lo as int, k as int));
            assert(s.last() == chunks@[k as int]@);
        }
        if chunks[k].len() > w {
            w = chunks[k].len();
        }
        k += 1;
    }
    w
}

/// `w` zero bytes.
fn zero_vec(w: usize) -> (v: Vec<u8>)
    ensures
        v@ == zeros(w as nat),
{
    let mut v: Vec<u8> = Vec::new();
    while v.len() < w
        invariant
            v@.len() <= w,
            v@ == zeros(v@.len()),
        decreases w - v@.len(),
    {
        v.push(0u8);
        assert(v@ =~= zeros(v@.len()));
    }
    v
}

/// `x` padded with zeros to `w` bytes.
fn padded(x: &[u8], w: usize) -> (v: Vec<u8>)
    requires
        x@.len() <= w,
    ensures
        v@ == pad(x@, w as nat),
{
    let mut v = copy_range(x, 0, x.len());
    assert(x@.subrange(0, x@.len() as int) =~= x@);
    let mut z = zero_vec(w - x.len());
    v.append(&mut z);
    v
}

/// The data shards of the group `chunks[lo..hi]` followed by `q` zero shards, all as long as
/// the group's longest chunk.
fn group_shards(chunks: &Vec<Vec<u8>>, lo: usize, hi: usize, d: usize, q: usize) -> (s: Vec<Vec<u8>>)
    requires
        lo <= hi <= chunks@.len(),
        hi - lo <= d,
        d + q <= usize::MAX,
    ensures
        views(s@).take(d as int) == padded_group(views(chunks@).subrange(lo as int, hi as int), d as nat),
        views(s@).len() == d + q,
        forall|j: int|
            0 <= j < d + q ==> (#[trigger] s@[j])@.len() == max_len(
                views(chunks@).subrange(lo as int, hi as int),
            ),
        forall|j: int| d <= j < d + q ==> (#[trigger] s@[j])@ == zeros(
            max_len(views(chunks@).subrange(lo as int, hi as int)),
        ),
{
    let ghost g = views(chunks@).subrange(lo as int, hi as int);
    let w = longest(chunks, lo, hi);
    proof {
        lemma_max_len_bound(g);
    }
    let mut s: Vec<Vec<u8>> = Vec::new();
    let mut j: usize = 0;
    while j < d + q
        invariant
            lo <= hi <= chunks@.len(),
            hi - lo <= d,
            d + q <= usize::MAX,
            g == views(chunks@).subrange(lo as int, hi as int),
            w == max_len(g),
            forall|k: int| 0 <= k < g.len() ==> (#[trigger] g[k]).len() <= w,
            j <= d + q,
            s@.len() == j,
            forall|k: int| 0 <= k < j ==> (#[trigger] s@[k])@.len() == w,
            forall|k: int|
                0 <= k < j && k < d ==> (#[trigger] s@[k])@ == padded_group(g, d as nat)[k],
            forall|k: int| d <= k < j ==> (#[trigger] s@[k])@ == zeros(w as nat),
        decreases d + q - j,
    {
        if j < hi - lo {
            assert(g[j as int] == chunks@[lo + j]@);
            let v = padded(chunks[lo + j].as_slice(), w);
            s.push(v);
        } else {
            let v = zero_vec(w);
            s.push(v);
        }
        j += 1;
    }
    assert(views(s@).take(d as int) =~= padded_group(g, d as nat));
    s
}

/// The longest string is at least as long as each.
pub proof fn lemma_max_len_bound(s: Seq<Seq<u8>>)
    ensures
        forall|k: int| 0 <= k < s.len() ==> (#[trigger] s[k]).len() <= max_len(s),
        s.len() > 0 ==> exists|k: int| 0 <= k < s.len() && (#[trigger] s[k]).len() == max_len(s),
    decreases s.len(),
{
    if s.len() > 0 {
        lemma_max_len_bound(s.drop_last());
        assert forall|k: int| 0 <= k < s.len() implies (#[trigger] s[k]).len() <= max_len(s) by {
            if k < s.len() - 1 {
                assert(s[k] == s.drop_last()[k]);
            }
        }
        if s.last().len() > max_len(s.drop_last()) || s.len() == 1 {
            assert(s[s.len() - 1].len() == max_len(s));
        } else {
            let k = choose|k: int| 0 <= k < s.drop_last().len() && (#[trigger] s.drop_last()[k]).len()
                == max_len(s.drop_last());
            assert(s[k] == s.drop_last()[k]);
        }
    }
}

/// Sets shard `data_n` to the XOR of the first `data_n` shards, as long as the first shard.
fn xor_parity(shards: &mut Vec<Vec<u8>>, data_n: usize)
    requires
        0 < data_n < old(shards)@.len(),
    ensures
        final(shards)@.len() == old(shards)@.len(),
        views(final(shards)@) == views(old(shards)@).update(
            data_n as int,
            xor_all(views(old(shards)@).take(data_n as int), old(shards)@[0]@.len()),
        ),
{
    let ghost s = views(shards@).take(data_n as int);
    let width = shards[0].len();
    let mut parity = zero_vec(width);
    let mut i: usize = 0;
    while i < data_n
        invariant
            0 < data_n < shards@.len(),
            i <= data_n,
            s == views(shards@).take(data_n as int),
            parity@.len() == width,
            forall|k: int| 0 <= k < width ==> #[trigger] parity@[k] == xor_col(s.take(i as int), k),
        decreases data_n - i,
    {
        let shard = &shards[i];
        let ghost before = parity@;
        let mut k: usize = 0;
        let lim = if shard.len() < width { shard.len() } else { width };
        while k < lim
            invariant
                lim <= width,
                lim <= shard@.len(),
                lim == (if shard@.len() < width { shard@.len() } else { width as nat }),
                k <= lim,
                parity@.len() == width,
                forall|m: int| 0 <= m < k ==> #[trigger] parity@[m] == before[m] ^ shard@[m],
                forall|m: int| k <= m < width ==> #[trigger] parity@[m] == before[m],
            decreases lim - k,
        {
            let b = parity[k] ^ shard[k];
            parity.set(k, b);
            k += 1;
        }
        proof {
            let t = s.take(i + 1);
            assert(t.drop_last() =~= s.take(i as int));
            assert(t.last() == shard@);
            assert forall|m: int| 0 <= m < width implies #[trigger] parity@[m] == xor_col(
                s.take(i + 1),
                m,
            ) by {
                assert(xor_col(t, m) == if m < t.last().len() {
                    xor_col(t.drop_last(), m) ^ t.last()[m]
                } else {
                    xor_col(t.drop_last(), m)
                });
            }
        }
        i += 1;
    }
    assert(s.take(data_n as int) =~= s);
    assert(parity@ =~= xor_all(s, width as nat));
    let ghost before = views(shards@);
    shards.set(data_n, parity);
    assert(views(shards@) =~= before.update(data_n as int, xor_all(s, width as nat)));
}


/// Appends parity chunks, group by group, to a chunked payload and records the parameters in
/// its manifest. Data chunks stay content-addressed and independently verifiable. Fails with
/// `Ddp1006LimitExceeded` when the shard counts are out of range; with `Dds2002CorruptChunk`
/// when Reed–Solomon is asked to code a group whose chunks are all empty. A payload with no
/// chunks comes back unchanged.
pub fn apply_erasure(body: ChunkedPayload, spec: ErasureSpec) -> (r: DdResult<ChunkedPayload>)
    ensures
        !spec_valid(spec) ==> fails_with(r, ErrorCode::Ddp1006LimitExceeded),
        spec_valid(spec) && (body.chunks@.len() as u32) == 0 ==> r is Ok && r->Ok_0 == body,
        spec_valid(spec) && (body.chunks@.len() as u32) != 0 && spec.parity_shards > 1
            && empty_group_from(views(body.chunks@), 0, spec.data_shards as nat) ==> fails_with(
            r,
            ErrorCode::Dds2002CorruptChunk,
        ),
        spec_valid(spec) && (body.chunks@.len() as u32) != 0 && !(spec.parity_shards > 1
            && empty_group_from(views(body.chunks@), 0, spec.data_shards as nat)) ==> r is Ok
            && erasure_applied(r->Ok_0, body, spec),
{
    match spec.validate() {
        Err(e) => {
            return Err(e);
        },
        Ok(()) => {},
    }
    let data_count = body.chunks.len() as u32;
    if data_count == 0 {
        return Ok(body);
    }
    let d = spec.data_shards as usize;
    let q = spec.parity_shards as usize;
    let n = body.chunks.len();
    let ghost c = views(body.chunks@);
    let ghost dn = d as nat;
    let ghost qn = q as nat;
    let mut new_refs: Vec<ChunkRef> = Vec::new();
    let mut new_chunks: Vec<Vec<u8>> = Vec::new();
    let mut i: usize = 0;
    while i < n
        invariant
            n == body.chunks@.len(),
            c == views(body.chunks@),
            1 <= d <= 64,
            1 <= q <= 16,
            dn == d,
            qn == q,
            d == spec.data_shards,
            q == spec.parity_shards,
            data_count == n as u32,
            data_count != 0,
            i <= n,
            views(new_chunks@) + parity_from(c, i as nat, dn, qn) == parity_from(c, 0, dn, qn),
            refs_match(new_refs@, views(new_chunks@)),
            q > 1 ==> (empty_group_from(c, 0, dn) == empty_group_from(c, i as nat, dn)),
            parity_shaped(c, i as nat, dn, qn) ==> parity_shaped(c, 0, dn, qn),
        decreases n - i,
    {
        let end = if n - i < d { n } else { i + d };
        let ghost g = group_at(c, i as nat, dn);
        assert(g == c.subrange(i as int, end as int));
        let mut shards = group_shards(&body.chunks, i, end, d, q);
        let ghost w = max_len(g);
        assert(views(shards@).take(d as int) == padded_group(g, dn));
        if q == 1 {
            assert(shards@[0]@.len() == w);
            let ghost before = views(shards@);
            xor_parity(&mut shards, d);
            proof {
                assert(views(shards@)[d as int] == xor_all(before.take(d as int), w));
                assert(views(shards@).skip(d as int) =~= seq![xor_all(padded_group(g, dn), w)]);
                assert forall|k: int| 0 <= k < d + q implies (#[trigger] shards@[k])@.len() == w by {
                    assert(views(shards@)[k] == shards@[k]@);
                }
            }
        } else {
            assert(uniform_shards_or_empty(views(shards@), w));
            match rs_encode(d, q, &mut shards) {
                Ok(()) => {
                    assert(views(shards@).skip(d as int) =~= rs_parity(padded_group(g, dn), qn));
                },
                Err(RsFailure::Codec) => {
                    return Err(coded(ErrorCode::Ddp1006LimitExceeded, "reed-solomon: codec"));
                },
                Err(RsFailure::Shards) => {
                    proof {
                        if w > 0 {
                            assert(views(shards@)[0].len() == w);
                            assert(crate::primitives::uniform_shards(views(shards@)));
                        }
                        assert(empty_group_from(c, i as nat, dn));
                    }
                    return Err(coded(ErrorCode::Dds2002CorruptChunk, "reed-solomon: shards"));
                },
            }
        }
        let ghost gp = group_parity(g, dn, qn);
        assert(views(shards@).skip(d as int) == gp);
        proof {
            assert forall|k: int| 0 <= k < qn implies (#[trigger] gp[k]).len() == max_len(g) by {
                assert(gp[k] == views(shards@)[d + k]);
                assert(views(shards@)[d + k] == shards@[d + k]@);
            }
        }
        let ghost base = views(new_chunks@);
        let mut j = d;
        while j < d + q
            invariant
                1 <= d <= 64,
                1 <= q <= 16,
                d <= j <= d + q,
                shards@.len() == d + q,
                views(shards@).skip(d as int) == gp,
                views(new_chunks@) == base + gp.take(j - d),
                refs_match(new_refs@, views(new_chunks@)),
            decreases d + q - j,
        {
            let digest = DefaultProvider.hash(HashAlgorithm::Blake3, shards[j].as_slice());
            new_refs.push(ChunkRef { id: ChunkId::blake3(digest.0), length: shards[j].len() as u32 });
            let piece = copy_range(shards[j].as_slice(), 0, shards[j].len());
            assert(piece@ =~= shards@[j as int]@);
            assert(gp[j - d] == shards@[j as int]@);
            let ghost prev = views(new_chunks@);
            new_chunks.push(piece);
            proof {
                assert(views(new_chunks@) =~= prev.push(piece@));
                assert(gp.take(j + 1 - d) =~= gp.take(j - d).push(gp[j - d]));
                assert forall|k: int| 0 <= k < views(new_chunks@).len() implies chunk_matches(
                    #[trigger] new_refs@[k].id,
                    views(new_chunks@)[k],
                ) && new_refs@[k].length == views(new_chunks@)[k].len() as u32 by {
                    if k < prev.len() {
                        assert(views(new_chunks@)[k] == prev[k]);
                    }
                }
            }
            j += 1;
        }
        proof {
            assert(gp.take(q as int) =~= gp);
            assert(parity_from(c, i as nat, dn, qn) == gp + parity_from(c, (i + d) as nat, dn, qn));
            assert(parity_from(c, (i + d) as nat, dn, qn) == parity_from(c, end as nat, dn, qn));
            assert(empty_group_from(c, (i + d) as nat, dn) == empty_group_from(c, end as nat, dn));
            assert(parity_shaped(c, (i + d) as nat, dn, qn) == parity_shaped(c, end as nat, dn, qn));
            assert(parity_shaped(c, i as nat, dn, qn) == parity_shaped(c, (i + d) as nat, dn, qn));
            assert(views(new_chunks@) + parity_from(c, end as nat, dn, qn) =~= base + (gp
                + parity_from(c, end as nat, dn, qn)));
        }
        i = end;
    }
    assert(views(new_chunks@) + Seq::<Seq<u8>>::empty() =~= views(new_chunks@));
    let ghost old_refs = body.manifest.chunks@;
    let ghost added = new_refs@;
    let mut out = body;
    out.manifest.chunks.append(&mut new_refs);
    let ghost before_chunks = out.chunks@;
    let ghost added_chunks = new_chunks@;
    out.chunks.append(&mut new_chunks);
    out.manifest.erasure = Some(ErasureInfo { spec, data_count });
    proof {
        assert(views(out.chunks@) =~= views(before_chunks) + views(added_chunks));
        assert(out.manifest.chunks@.take(old_refs.len() as int) =~= old_refs);
        assert(out.manifest.chunks@.skip(old_refs.len() as int) =~= added);
    }
    Ok(out)
}

/// All shards of `s` are `w` bytes long, and there is at least one.
pub open spec fn uniform_shards_or_empty(s: Seq<Seq<u8>>, w: nat) -> bool {
    s.len() > 0 && forall|k: int| 0 <= k < s.len() ==> (#[trigger] s[k]).len() == w
}


/// Chunk `i` is marked present.
pub open spec fn present_at(p: Seq<bool>, i: int) -> bool {
    0 <= i < p.len() && p[i]
}

/// How many of the chunks `lo..hi` are marked present.
pub open spec fn count_present(p: Seq<bool>, lo: int, hi: int) -> nat
    decreases hi - lo,
{
    if hi <= lo {
        0
    } else {
        count_present(p, lo, hi - 1) + if present_at(p, hi - 1) { 1nat } else { 0nat }
    }
}

/// End of the group that starts at `i`.
pub open spec fn group_end(i: nat, d: nat, n: nat) -> nat {
    if i + d <= n { i + d } else { n }
}

/// Each group from the one starting at data index `i` (its parity at `ps`) has, counting the
/// zero shards that pad a short last group, at least `d` shards present.
pub open spec fn groups_recoverable(p: Seq<bool>, n: nat, d: nat, q: nat, i: nat, ps: nat) -> bool
    decreases (if i < n { n - i } else { 0 }),
{
    if i >= n || d == 0 {
        true
    } else {
        let e = group_end(i, d, n);
        count_present(p, i as int, e as int) + (d - (e - i)) + count_present(p, ps as int, (ps + q) as int)
            >= d && groups_recoverable(p, n, d, q, i + d, ps + q)
    }
}

/// The parity positions of the groups from the one starting at `i` (its parity at `ps`) fit
/// in a `usize`.
pub open spec fn parity_fits(n: nat, i: nat, ps: nat, d: nat, q: nat) -> bool
    decreases (if i < n { n - i } else { 0 }),
{
    i >= n || d == 0 || (ps + q <= usize::MAX && parity_fits(n, i + d, ps + q, d, q))
}

/// The erasure parameters of a manifest can be worked with: at least one data shard per group
/// and parity positions that fit in a `usize`.
pub open spec fn erasure_usable(m: Manifest) -> bool {
    match m.erasure {
        Some(e) => e.spec.data_shards > 0 && parity_fits(
            e.data_count as nat,
            0,
            e.data_count as nat,
            e.spec.data_shards as nat,
            e.spec.parity_shards as nat,
        ),
        None => true,
    }
}

/// Whether the chunks marked in `p` are enough to rebuild the data: all of them without
/// erasure coding, enough shards in every group with it.
pub open spec fn mask_recoverable(m: Manifest, p: Seq<bool>) -> bool {
    match m.erasure {
        None => p.len() > 0 && forall|i: int| 0 <= i < p.len() ==> #[trigger] p[i],
        Some(e) => groups_recoverable(
            p,
            e.data_count as nat,
            e.spec.data_shards as nat,
            e.spec.parity_shards as nat,
            0,
            e.data_count as nat,
        ),
    }
}

/// Whether the erasure parameters of a manifest can be worked with (see `erasure_usable`):
/// the test callers make before `reconstruct` and `can_recover`.
pub fn is_erasure_usable(m: &Manifest) -> (b: bool)
    ensures
        b == erasure_usable(*m),
{
    match &m.erasure {
        None => true,
        Some(e) => {
            if e.spec.data_shards == 0 {
                return false;
            }
            let d = e.spec.data_shards as usize;
            let q = e.spec.parity_shards as usize;
            let n = e.data_count as usize;
            let ghost all = parity_fits(n as nat, 0, n as nat, d as nat, q as nat);
            let mut i: usize = 0;
            let mut ps: usize = n;
            while i < n
                invariant
                    d > 0,
                    all == parity_fits(n as nat, i as nat, ps as nat, d as nat, q as nat),
                    all == erasure_usable(*m),
                decreases n - i,
            {
                if ps > usize::MAX - q {
                    return false;
                }
                let end = if n - i < d { n } else { i + d };
                proof {
                    assert(parity_fits(n as nat, (i + d) as nat, (ps + q) as nat, d as nat, q as nat)
                        == parity_fits(n as nat, end as nat, (ps + q) as nat, d as nat, q as nat));
                }
                i = end;
                ps = ps + q;
            }
            true
        },
    }
}

fn count_marked(present: &[bool], lo: usize, hi: usize) -> (c: usize)
    requires
        lo <= hi,
    ensures
        c == count_present(present@, lo as int, hi as int),
        c <= hi - lo,
{
    let mut c: usize = 0;
    let mut k = lo;
    while k < hi
        invariant
            lo <= k <= hi,
            c == count_present(present@, lo as int, k as int),
            c <= k - lo,
        decreases hi - k,
    {
        if k < present.len() && present[k] {
            c += 1;
        }
        k += 1;
    }
    c
}

/// Whether the chunks marked present are enough to rebuild the data chunks.
pub fn can_recover(manifest: &Manifest, present: &[bool]) -> (b: bool)
    requires
        erasure_usable(*manifest),
    ensures
        b == mask_recoverable(*manifest, present@),
{
    match &manifest.erasure {
        None => {
            if present.len() == 0 {
                return false;
            }
            let mut k: usize = 0;
            while k < present.len()
                invariant
                    manifest.erasure is None,
                    present@.len() > 0,
                    k <= present@.len(),
                    forall|j: int| 0 <= j < k ==> #[trigger] present@[j],
                decreases present@.len() - k,
            {
                if !present[k] {
                    assert(!present@[k as int]);
                    return false;
                }
                k += 1;
            }
            true
        },
        Some(info) => {
            let d = info.spec.data_shards as usize;
            let q = info.spec.parity_shards as usize;
            let n = info.data_count as usize;
            let ghost all = groups_recoverable(present@, n as nat, d as nat, q as nat, 0, n as nat);
            let mut i: usize = 0;
            let mut ps: usize = n;
            while i < n
                invariant
                    d > 0,
                    d <= u32::MAX,
                    q <= u32::MAX,
                    parity_fits(n as nat, i as nat, ps as nat, d as nat, q as nat),
                    all == groups_recoverable(present@, n as nat, d as nat, q as nat, i as nat, ps as nat),
                    all == mask_recoverable(*manifest, present@),
                decreases n - i,
            {
                let end = if n - i < d { n } else { i + d };
                let have_data = count_marked(present, i, end);
                let have_parity = count_marked(present, ps, ps + q);
                let have = have_data as u64 + (d - (end - i)) as u64 + have_parity as u64;
                if have < d as u64 {
                    return false;
                }
                proof {
                    assert(groups_recoverable(present@, n as nat, d as nat, q as nat, (i + d) as nat, (ps + q) as nat)
                        == groups_recoverable(present@, n as nat, d as nat, q as nat, end as nat, (ps + q) as nat));
                    assert(parity_fits(n as nat, (i + d) as nat, (ps + q) as nat, d as nat, q as nat)
                        == parity_fits(n as nat, end as nat, (ps + q) as nat, d as nat, q as nat));
                }
                i = end;
                ps = ps + q;
            }
            true
        },
    }
}


/// How many slots of `s` are empty.
pub open spec fn none_count(s: Seq<Option<Vec<u8>>>) -> nat
    decreases s.len(),
{
    if s.len() == 0 {
        0
    } else {
        none_count(s.drop_last()) + if s.last() is None { 1nat } else { 0nat }
    }
}

/// The bytes held in each slot; an empty slot holds none.
pub open spec fn present_views(s: Seq<Option<Vec<u8>>>) -> Seq<Seq<u8>> {
    s.map_values(|o: Option<Vec<u8>>| match o {
        Some(v) => v@,
        None => Seq::<u8>::empty(),
    })
}

proof fn lemma_none_count_zero(s: Seq<Option<Vec<u8>>>)
    ensures
        none_count(s) == 0 <==> forall|j: int| 0 <= j < s.len() ==> (#[trigger] s[j]) is Some,
    decreases s.len(),
{
    if s.len() > 0 {
        lemma_none_count_zero(s.drop_last());
        if none_count(s) == 0 {
            assert forall|j: int| 0 <= j < s.len() implies (#[trigger] s[j]) is Some by {
                if j < s.len() - 1 {
                    assert(s[j] == s.drop_last()[j]);
                }
            }
        }
        if forall|j: int| 0 <= j < s.len() ==> (#[trigger] s[j]) is Some {
            assert forall|j: int| 0 <= j < s.drop_last().len() implies (#[trigger] s.drop_last()[j]) is Some by {
                assert(s.drop_last()[j] == s[j]);
            }
            assert(s[s.len() - 1] is Some);
        }
    }
}

/// Fills the one empty slot of an XOR group with the XOR of the others, `width` bytes long.
/// Fails with `Dds2003MissingChunk` when more than one slot is empty.
fn recover_xor(shards: &mut Vec<Option<Vec<u8>>>, data_n: usize, width: usize) -> (r: DdResult<()>)
    ensures
        final(shards)@.len() == old(shards)@.len(),
        none_count(old(shards)@) == 0 ==> r is Ok && final(shards)@ == old(shards)@,
        none_count(old(shards)@) > 1 ==> fails_with(r, ErrorCode::Dds2003MissingChunk)
            && final(shards)@ == old(shards)@,
        none_count(old(shards)@) == 1 ==> r is Ok && forall|j: int|
            0 <= j < old(shards)@.len() ==> (old(shards)@[j] is Some ==> #[trigger] final(shards)@[j]
                == old(shards)@[j]) && (old(shards)@[j] is None ==> final(shards)@[j] is Some
                && final(shards)@[j]->0@ == xor_all(present_views(old(shards)@), width as nat)),
{
    let ghost s0 = shards@;
    let mut missing: usize = 0;
    let mut at: usize = 0;
    let mut k: usize = 0;
    while k < shards.len()
        invariant
            shards@ == s0,
            k <= s0.len(),
            missing <= k,
            missing == none_count(s0.take(k as int)),
            missing >= 1 ==> at < k && s0[at as int] is None,
            missing == 1 ==> forall|j: int| 0 <= j < k && j != at ==> (#[trigger] s0[j]) is Some,
        decreases s0.len() - k,
    {
        proof {
            let t = s0.take(k + 1);
            assert(t.drop_last() =~= s0.take(k as int));
            assert(t.last() == s0[k as int]);
            if missing == 0 {
                lemma_none_count_zero(s0.take(k as int));
                assert forall|j: int| 0 <= j < k implies (#[trigger] s0[j]) is Some by {
                    assert(s0.take(k as int)[j] == s0[j]);
                }
            }
        }
        if shards[k].is_none() {
            if missing == 0 {
                at = k;
            }
            missing += 1;
        }
        k += 1;
    }
    assert(s0.take(s0.len() as int) =~= s0);
    if missing == 0 {
        return Ok(());
    }
    if missing > 1 {
        return Err(coded(ErrorCode::Dds2003MissingChunk, "xor erasure recovers at most one shard per group"));
    }
    let ghost pv = present_views(s0);
    let mut acc = zero_vec(width);
    let mut i: usize = 0;
    while i < shards.len()
        invariant
            shards@ == s0,
            pv == present_views(s0),
            i <= s0.len(),
            acc@.len() == width,
            forall|m: int| 0 <= m < width ==> #[trigger] acc@[m] == xor_col(pv.take(i as int), m),
        decreases s0.len() - i,
    {
        let ghost before = acc@;
        match &shards[i] {
            Some(sh) => {
                assert(pv[i as int] == sh@);
                let lim = if sh.len() < width { sh.len() } else { width };
                let mut m: usize = 0;
                while m < lim
                    invariant
                        lim <= width,
                        lim <= sh@.len(),
                        lim == (if sh@.len() < width { sh@.len() } else { width as nat }),
                        m <= lim,
                        acc@.len() == width,
                        forall|x: int| 0 <= x < m ==> #[trigger] acc@[x] == before[x] ^ sh@[x],
                        forall|x: int| m <= x < width ==> #[trigger] acc@[x] == before[x],
                    decreases lim - m,
                {
                    let b = acc[m] ^ sh[m];
                    acc.set(m, b);
                    m += 1;
                }
            },
            None => {
                assert(pv[i as int] == Seq::<u8>::empty());
            },
        }
        proof {
            let t = pv.take(i + 1);
            assert(t.drop_last() =~= pv.take(i as int));
            assert(t.last() == pv[i as int]);
            assert forall|m: int| 0 <= m < width implies #[trigger] acc@[m] == xor_col(pv.take(i + 1), m) by {
                assert(xor_col(t, m) == if m < t.last().len() {
                    xor_col(t.drop_last(), m) ^ t.last()[m]
                } else {
                    xor_col(t.drop_last(), m)
                });
            }
        }
        i += 1;
    }
    assert(pv.take(s0.len() as int) =~= pv);
    assert(acc@ =~= xor_all(pv, width as nat));
    shards.set(at, Some(acc));
    Ok(())
}

/// With XOR parity, the XOR of all shards but one gives back the one left out: a group whose
/// last shard is the XOR of the others, with any one slot emptied, is filled in again by
/// `recover_xor` with exactly the shard that was lost.
pub proof fn lemma_xor_recovers(word: Seq<Seq<u8>>, w: nat, slots: Seq<Option<Vec<u8>>>, j: int)
    requires
        word.len() >= 1,
        forall|i: int| 0 <= i < word.len() ==> (#[trigger] word[i]).len() == w,
        word.last() == xor_all(word.drop_last(), w),
        slots.len() == word.len(),
        0 <= j < slots.len(),
        slots[j] is None,
        forall|i: int| 0 <= i < slots.len() && i != j ==> (#[trigger] slots[i]) is Some && slots[i]->0@ == word[i],
    ensures
        xor_all(present_views(slots), w) == word[j],
{
    let v = present_views(slots);
    assert forall|k: int| 0 <= k < w implies #[trigger] xor_all(v, w)[k] == word[j][k] by {
        lemma_xor_prefix(word, w, slots, j, k, word.len());
        assert(v.take(v.len() as int) =~= v);
        assert(word.take(word.len() as int) =~= word);
        let last = word.last();
        assert(last[k] == xor_col(word.drop_last(), k));
        assert(xor_col(word, k) == xor_col(word.drop_last(), k) ^ last[k]);
        let a = xor_col(v, k);
        let b = word[j][k];
        let c = xor_col(word.drop_last(), k);
        assert(a ^ b == c ^ c);
        assert((c ^ c) == 0u8) by (bit_vector);
        assert(a ^ b == 0u8 ==> a == b) by (bit_vector);
    }
    assert(xor_all(v, w) =~= word[j]);
}

proof fn lemma_xor_prefix(word: Seq<Seq<u8>>, w: nat, slots: Seq<Option<Vec<u8>>>, j: int, k: int, n: nat)
    requires
        forall|i: int| 0 <= i < word.len() ==> (#[trigger] word[i]).len() == w,
        slots.len() == word.len(),
        0 <= j < slots.len(),
        slots[j] is None,
        forall|i: int| 0 <= i < slots.len() && i != j ==> (#[trigger] slots[i]) is Some && slots[i]->0@ == word[i],
        0 <= k < w,
        n <= word.len(),
    ensures
        xor_col(present_views(slots).take(n as int), k) ^ (if j < n { word[j][k] } else { 0u8 })
            == xor_col(word.take(n as int), k),
    decreases n,
{
    let v = present_views(slots);
    if n == 0 {
        assert(v.take(0) =~= Seq::<Seq<u8>>::empty());
        assert(word.take(0) =~= Seq::<Seq<u8>>::empty());
        assert(0u8 ^ 0u8 == 0u8) by (bit_vector);
    } else {
        let m = (n - 1) as nat;
        lemma_xor_prefix(word, w, slots, j, k, m);
        let tv = v.take(n as int);
        let tw = word.take(n as int);
        assert(tv.drop_last() =~= v.take(m as int));
        assert(tw.drop_last() =~= word.take(m as int));
        assert(tv.last() == v[m as int]);
        assert(tw.last() == word[m as int]);
        let a = xor_col(v.take(m as int), k);
        let b = word[j][k];
        if m == j {
            assert(v[m as int] == Seq::<u8>::empty());
            assert(xor_col(tv, k) == a);
            assert(xor_col(tw, k) == xor_col(word.take(m as int), k) ^ word[m as int][k]);
            assert(a ^ 0u8 == a) by (bit_vector);
        } else {
            assert(v[m as int] == word[m as int]);
            let c = word[m as int][k];
            let t: u8 = if j < m { b } else { 0u8 };
            assert(xor_col(tv, k) == a ^ c);
            assert(xor_col(tw, k) == (a ^ t) ^ c);
            assert((a ^ c) ^ t == (a ^ t) ^ c) by (bit_vector);
        }
    }
}


/// What checking the first `n` slots against their references in order gives, for a
/// manifest without erasure coding: the first empty slot fails with `Dds2003MissingChunk`,
/// the first slot that does not match its identifier with `Dds2002CorruptChunk`.
pub open spec fn plain_outcome(refs: Seq<ChunkRef>, slots: Seq<Option<Vec<u8>>>, n: nat) -> Result<
    Seq<Seq<u8>>,
    ErrorCode,
>
    decreases n,
{
    if n == 0 {
        Ok(Seq::empty())
    } else {
        let i = n - 1;
        match plain_outcome(refs, slots, (n - 1) as nat) {
            Err(c) => Err(c),
            Ok(v) => if !(i < slots.len() && slots[i] is Some) {
                Err(ErrorCode::Dds2003MissingChunk)
            } else if !chunk_matches(refs[i].id, slots[i]->0@) {
                Err(ErrorCode::Dds2002CorruptChunk)
            } else {
                Ok(v.push(slots[i]->0@))
            },
        }
    }
}

/// Length of the bytes in slot `i`, zero when it is empty or out of range.
pub open spec fn slot_len(s: Seq<Option<Vec<u8>>>, i: int) -> nat {
    if 0 <= i < s.len() && s[i] is Some {
        s[i]->0@.len()
    } else {
        0
    }
}

/// Longest slot among `lo..hi`.
pub open spec fn max_slot_len(s: Seq<Option<Vec<u8>>>, lo: int, hi: int) -> nat
    decreases hi - lo,
{
    if hi <= lo {
        0
    } else {
        let m = max_slot_len(s, lo, hi - 1);
        if slot_len(s, hi - 1) > m { slot_len(s, hi - 1) } else { m }
    }
}

fn slot_width(slots: &[Option<Vec<u8>>], lo: usize, hi: usize, w0: usize) -> (w: usize)
    requires
        lo <= hi,
    ensures
        w == (if max_slot_len(slots@, lo as int, hi as int) > w0 {
            max_slot_len(slots@, lo as int, hi as int)
        } else {
            w0 as nat
        }),
        w >= w0,
        forall|k: int| lo <= k < hi ==> slot_len(slots@, k) <= w,
{
    let mut w: usize = w0;
    let mut k = lo;
    while k < hi
        invariant
            lo <= k <= hi,
            w == (if max_slot_len(slots@, lo as int, k as int) > w0 {
                max_slot_len(slots@, lo as int, k as int)
            } else {
                w0 as nat
            }),
            w >= w0,
            forall|x: int| lo <= x < k ==> slot_len(slots@, x) <= w,
        decreases hi - k,
    {
        if k < slots.len() {
            match &slots[k] {
                Some(v) => {
                    if v.len() > w {
                        w = v.len();
                    }
                },
                None => {},
            }
        }
        k += 1;
    }
    w
}

/// Which slots arrived.
pub open spec fn arrived(slots: Seq<Option<Vec<u8>>>) -> Seq<bool> {
    Seq::new(slots.len(), |k: int| slots[k] is Some)
}

/// Every slot that arrived, at a position that `word` has, holds the shard of `word` there.
pub open spec fn slots_intact(slots: Seq<Option<Vec<u8>>>, word: Seq<Seq<u8>>) -> bool {
    forall|k: int|
        0 <= k < slots.len() && k < word.len() && (#[trigger] slots[k]) is Some ==> slots[k]->0@
            == word[k]
}

/// The chunks that erasure coding with `m`'s parameters makes of the data chunks `c`: `c`,
/// then the parity of each group in turn.
pub open spec fn erasure_word(m: Manifest, c: Seq<Seq<u8>>) -> Seq<Seq<u8>> {
    let e = m.erasure->0;
    c + parity_from(c, 0, e.spec.data_shards as nat, e.spec.parity_shards as nat)
}

/// `m` describes an erasure code over the data chunks `c`: valid parameters, `c` listed first
/// under their identifiers and exact lengths, each group's parity `q` shards as long as its
/// longest chunk, and, with Reed–Solomon, no group whose chunks are all empty.
pub open spec fn codes_data(m: Manifest, c: Seq<Seq<u8>>) -> bool {
    match m.erasure {
        None => false,
        Some(e) => {
            let d = e.spec.data_shards as nat;
            let q = e.spec.parity_shards as nat;
            &&& spec_valid(e.spec)
            &&& c.len() == e.data_count
            &&& m.chunks@.len() >= c.len()
            &&& forall|k: int|
                0 <= k < c.len() ==> chunk_matches(m.chunks@[k].id, #[trigger] c[k])
                    && m.chunks@[k].length == c[k].len()
            &&& parity_shaped(c, 0, d, q)
            &&& (q > 1 ==> !empty_group_from(c, 0, d))
        },
    }
}

/// The data chunks `c` can be rebuilt from `slots` under `m`: `m` codes `c`, every slot that
/// arrived holds its chunk of the code, and no group misses more shards than it has parity.
pub open spec fn rebuildable(m: Manifest, slots: Seq<Option<Vec<u8>>>, c: Seq<Seq<u8>>) -> bool {
    &&& codes_data(m, c)
    &&& slots_intact(slots, erasure_word(m, c))
    &&& mask_recoverable(m, arrived(slots))
}

/// The `d + q` shards of a group: its padded data shards, then its parity.
pub open spec fn group_word(g: Seq<Seq<u8>>, d: nat, q: nat) -> Seq<Seq<u8>> {
    padded_group(g, d) + group_parity(g, d, q)
}

/// One group, data chunks `g` at `i..end` and parity slots at `ps..ps + q`, can be rebuilt:
/// its parity is `q` shards as long as its longest chunk (not empty with Reed–Solomon), the
/// manifest lists its chunks under their identifiers and exact lengths, every slot of it that
/// arrived is intact, and it misses no more shards than it has parity.
pub open spec fn group_good(
    m: Manifest,
    slots: Seq<Option<Vec<u8>>>,
    g: Seq<Seq<u8>>,
    i: nat,
    end: nat,
    ps: nat,
    d: nat,
    q: nat,
) -> bool {
    let gp = group_parity(g, d, q);
    let mask = arrived(slots);
    &&& i <= end
    &&& g.len() == end - i
    &&& end - i <= d
    &&& 1 <= d <= 64
    &&& 1 <= q <= 16
    &&& gp.len() == q
    &&& forall|p: int| 0 <= p < q ==> (#[trigger] gp[p]).len() == max_len(g)
    &&& (q > 1 ==> max_len(g) > 0)
    &&& m.chunks@.len() >= end
    &&& forall|k: int|
        0 <= k < g.len() ==> chunk_matches(m.chunks@[i + k].id, #[trigger] g[k])
            && m.chunks@[i + k].length == g[k].len()
    &&& forall|k: int|
        0 <= k < g.len() && i + k < slots.len() && slots[i + k] is Some ==> slots[i + k]->0@
            == #[trigger] g[k]
    &&& forall|p: int|
        0 <= p < q && ps + p < slots.len() && slots[ps + p] is Some ==> slots[ps + p]->0@
            == #[trigger] gp[p]
    &&& count_present(mask, i as int, end as int) + (d - (end - i)) + count_present(
        mask,
        ps as int,
        (ps + q) as int,
    ) >= d
}

/// Slot `s` of a group being rebuilt holds data slot `k` padded to `w` bytes, and is empty
/// exactly when that did not arrive.
pub open spec fn holds_padded(s: Option<Vec<u8>>, slots: Seq<Option<Vec<u8>>>, k: int, w: nat) -> bool {
    &&& (s is Some <==> present_at(arrived(slots), k))
    &&& (s is Some ==> s->0@ == pad(slots[k]->0@, w))
}

/// Slot `s` of a group being rebuilt holds parity slot `k` as it arrived, and is empty exactly
/// when that did not.
pub open spec fn holds_copy(s: Option<Vec<u8>>, slots: Seq<Option<Vec<u8>>>, k: int) -> bool {
    &&& (s is Some <==> present_at(arrived(slots), k))
    &&& (s is Some ==> s->0@ == slots[k]->0@)
}

proof fn lemma_count_present_bounds(p: Seq<bool>, lo: int, hi: int)
    requires
        lo <= hi,
    ensures
        count_present(p, lo, hi) <= hi - lo,
        count_present(p, lo, hi) >= hi - lo ==> forall|k: int| lo <= k < hi ==> present_at(p, k),
        count_present(p, lo, hi) > 0 ==> exists|k: int| lo <= k < hi && present_at(p, k),
    decreases hi - lo,
{
    if lo < hi {
        lemma_count_present_bounds(p, lo, hi - 1);
    }
}

proof fn lemma_max_slot_len_le(s: Seq<Option<Vec<u8>>>, lo: int, hi: int, b: nat)
    requires
        forall|k: int| lo <= k < hi ==> slot_len(s, k) <= b,
    ensures
        max_slot_len(s, lo, hi) <= b,
    decreases hi - lo,
{
    if lo < hi {
        lemma_max_slot_len_le(s, lo, hi - 1, b);
    }
}

proof fn lemma_present_none(s: Seq<Option<Vec<u8>>>)
    ensures
        present_count(s) + none_count(s) == s.len(),
    decreases s.len(),
{
    if s.len() > 0 {
        lemma_present_none(s.drop_last());
    }
}

proof fn lemma_two_none(s: Seq<Option<Vec<u8>>>, a: int, b: int)
    requires
        0 <= a < s.len(),
        0 <= b < s.len(),
        a != b,
        s[a] is None,
        s[b] is None,
    ensures
        none_count(s) >= 2,
    decreases s.len(),
{
    let t = s.drop_last();
    if a == s.len() - 1 {
        assert(t[b] == s[b]);
        lemma_one_none(t, b);
    } else if b == s.len() - 1 {
        assert(t[a] == s[a]);
        lemma_one_none(t, a);
    } else {
        assert(t[a] == s[a]);
        assert(t[b] == s[b]);
        lemma_two_none(t, a, b);
    }
}

proof fn lemma_one_none(s: Seq<Option<Vec<u8>>>, a: int)
    requires
        0 <= a < s.len(),
        s[a] is None,
    ensures
        none_count(s) >= 1,
    decreases s.len(),
{
    if a < s.len() - 1 {
        assert(s.drop_last()[a] == s[a]);
        lemma_one_none(s.drop_last(), a);
    }
}

/// The shards assembled for a group that can be rebuilt are as wide as its longest chunk,
/// enough of them are present, and those present agree with the group's codeword.
proof fn lemma_group_shards(
    m: Manifest,
    slots: Seq<Option<Vec<u8>>>,
    g: Seq<Seq<u8>>,
    i: nat,
    end: nat,
    ps: nat,
    d: nat,
    q: nat,
    wd: nat,
    w: nat,
    shards: Seq<Option<Vec<u8>>>,
)
    requires
        group_good(m, slots, g, i, end, ps, d, q),
        wd == max_slot_len(slots, i as int, end as int),
        w == (if max_slot_len(slots, ps as int, (ps + q) as int) > wd {
            max_slot_len(slots, ps as int, (ps + q) as int)
        } else {
            wd
        }),
        forall|k: int| i <= k < end ==> slot_len(slots, k) <= w,
        forall|k: int| ps <= k < ps + q ==> slot_len(slots, k) <= w,
        shards.len() == d + q,
        present_count(shards) == count_present(arrived(slots), i as int, end as int) + (d - (end
            - i)) + count_present(arrived(slots), ps as int, (ps + q) as int),
        forall|j: int| 0 <= j < end - i ==> holds_padded(#[trigger] shards[j], slots, i + j, w),
        forall|j: int| end - i <= j < d ==> (#[trigger] shards[j]) is Some && shards[j]->0@ == zeros(w),
        forall|j: int| d <= j < d + q ==> holds_copy(#[trigger] shards[j], slots, ps + (j - d)),
    ensures
        w == max_len(g),
        present_count(shards) >= d,
        slots_agree(shards, group_word(g, d, q)),
        forall|j: int| 0 <= j < d + q ==> (#[trigger] group_word(g, d, q)[j]).len() == w,
{
    let mask = arrived(slots);
    let mx = max_len(g);
    let gp = group_parity(g, d, q);
    let word = group_word(g, d, q);
    lemma_max_len_bound(g);
    assert forall|k: int| i <= k < end implies slot_len(slots, k) <= mx by {
        if 0 <= k < slots.len() && slots[k] is Some {
            assert(slots[i + (k - i)]->0@ == g[k - i]);
        }
    }
    lemma_max_slot_len_le(slots, i as int, end as int, mx);
    assert forall|k: int| ps <= k < ps + q implies slot_len(slots, k) <= mx by {
        if 0 <= k < slots.len() && slots[k] is Some {
            assert(slots[ps + (k - ps)]->0@ == gp[k - ps]);
        }
    }
    lemma_max_slot_len_le(slots, ps as int, (ps + q) as int, mx);
    lemma_count_present_bounds(mask, i as int, end as int);
    lemma_count_present_bounds(mask, ps as int, (ps + q) as int);
    if count_present(mask, ps as int, (ps + q) as int) > 0 {
        let k = choose|k: int| ps <= k < ps + q && present_at(mask, k);
        assert(slots[ps + (k - ps)]->0@ == gp[k - ps]);
        assert(slot_len(slots, k) == mx);
    } else if g.len() > 0 {
        let k = choose|k: int| 0 <= k < g.len() && (#[trigger] g[k]).len() == max_len(g);
        assert(present_at(mask, i + k));
        assert(slots[i + k]->0@ == g[k]);
        assert(slot_len(slots, i + k) == mx);
    }
    assert(w == mx);
    assert forall|j: int| 0 <= j < d + q implies (#[trigger] word[j]).len() == w by {
        if j < d {
            assert(word[j] == padded_group(g, d)[j]);
        } else {
            assert(word[j] == gp[j - d]);
        }
    }
    assert forall|j: int| 0 <= j < shards.len() && (#[trigger] shards[j]) is Some implies shards[j].unwrap()@
        == word[j] by {
        if j < end - i {
            assert(holds_padded(shards[j], slots, i + j, w));
            assert(slots[i + j]->0@ == g[j]);
            assert(word[j] == padded_group(g, d)[j]);
        } else if j < d {
            assert(word[j] == padded_group(g, d)[j]);
        } else {
            assert(holds_copy(shards[j], slots, ps + (j - d)));
            assert(slots[ps + (j - d)]->0@ == gp[j - d]);
            assert(word[j] == gp[j - d]);
        }
    }
}

/// Filling the one empty slot of an XOR group with the XOR of the others completes the
/// group's codeword.
proof fn lemma_xor_fill(
    before: Seq<Option<Vec<u8>>>,
    after: Seq<Option<Vec<u8>>>,
    word: Seq<Seq<u8>>,
    w: nat,
)
    requires
        word.len() >= 1,
        forall|j: int| 0 <= j < word.len() ==> (#[trigger] word[j]).len() == w,
        word.last() == xor_all(word.drop_last(), w),
        slots_agree(before, word),
        present_count(before) + 1 >= before.len(),
        after.len() == before.len(),
        none_count(before) == 0 ==> after == before,
        none_count(before) == 1 ==> forall|j: int|
            0 <= j < before.len() ==> (before[j] is Some ==> #[trigger] after[j] == before[j])
                && (before[j] is None ==> after[j] is Some && after[j]->0@ == xor_all(
                present_views(before),
                w,
            )),
    ensures
        slots_filled(after, word),
{
    lemma_present_none(before);
    lemma_none_count_zero(before);
    if none_count(before) == 1 {
        let j = choose|j: int| 0 <= j < before.len() && !(before[j] is Some);
        assert forall|k: int| 0 <= k < before.len() && k != j implies (#[trigger] before[k]) is Some
            && before[k]->0@ == word[k] by {
            if before[k] is None {
                lemma_two_none(before, j, k);
            }
        }
        lemma_xor_recovers(word, w, before, j);
    }
}

/// What the rebuilding loop knows of data chunks `c` that can be rebuilt, at the group that
/// starts at data index `i`, whose parity starts at `ps`.
pub open spec fn rebuild_at(m: Manifest, slots: Seq<Option<Vec<u8>>>, c: Seq<Seq<u8>>, i: nat, ps: nat) -> bool {
    let e = m.erasure->0;
    let d = e.spec.data_shards as nat;
    let q = e.spec.parity_shards as nat;
    &&& ps >= c.len()
    &&& ps + parity_from(c, i, d, q).len() == erasure_word(m, c).len()
    &&& erasure_word(m, c).skip(ps as int) == parity_from(c, i, d, q)
    &&& parity_shaped(c, i, d, q)
    &&& (q > 1 ==> !empty_group_from(c, i, d))
    &&& groups_recoverable(arrived(slots), c.len(), d, q, i, ps)
}

/// Data chunks that can be rebuilt make each of their groups one that can be rebuilt, and
/// the loop's knowledge carries over to the next group.
proof fn lemma_next_group(m: Manifest, slots: Seq<Option<Vec<u8>>>, c: Seq<Seq<u8>>, i: nat, end: nat, ps: nat)
    requires
        rebuildable(m, slots, c),
        rebuild_at(m, slots, c, i, ps),
        i < c.len(),
        end == group_end(i, m.erasure->0.spec.data_shards as nat, c.len()),
    ensures
        group_good(
            m,
            slots,
            c.subrange(i as int, end as int),
            i,
            end,
            ps,
            m.erasure->0.spec.data_shards as nat,
            m.erasure->0.spec.parity_shards as nat,
        ),
        rebuild_at(m, slots, c, end, ps + m.erasure->0.spec.parity_shards as nat),
{
    let e = m.erasure->0;
    let d = e.spec.data_shards as nat;
    let q = e.spec.parity_shards as nat;
    let n = c.len();
    let g = c.subrange(i as int, end as int);
    let gp = group_parity(g, d, q);
    let word = erasure_word(m, c);
    let mask = arrived(slots);
    assert(g == group_at(c, i, d));
    assert(parity_from(c, i, d, q) == gp + parity_from(c, i + d, d, q));
    assert(parity_from(c, i + d, d, q) == parity_from(c, end, d, q));
    assert(parity_shaped(c, i + d, d, q) == parity_shaped(c, end, d, q));
    assert(empty_group_from(c, i + d, d) == empty_group_from(c, end, d));
    assert(groups_recoverable(mask, n, d, q, i + d, ps + q) == groups_recoverable(
        mask,
        n,
        d,
        q,
        end,
        ps + q,
    ));
    assert(word.skip((ps + q) as int) =~= parity_from(c, end, d, q)) by {
        assert(word.skip(ps as int).skip(q as int) =~= word.skip((ps + q) as int));
        assert((gp + parity_from(c, end, d, q)).skip(q as int) =~= parity_from(c, end, d, q));
    }
    assert forall|k: int| 0 <= k < g.len() implies chunk_matches(m.chunks@[i + k].id, #[trigger] g[k])
        && m.chunks@[i + k].length == g[k].len() by {
        assert(g[k] == c[i + k]);
    }
    assert forall|k: int| 0 <= k < g.len() && i + k < slots.len() && slots[i + k] is Some implies slots[i
        + k]->0@ == #[trigger] g[k] by {
        assert(g[k] == c[i + k]);
        assert(word[i + k] == c[i + k]);
    }
    assert forall|p: int| 0 <= p < q && ps + p < slots.len() && slots[ps + p] is Some implies slots[ps
        + p]->0@ == #[trigger] gp[p] by {
        assert(word.skip(ps as int)[p] == gp[p]);
        assert(word[ps + p] == gp[p]);
    }
}

/// A group padded to a non-zero width has shards all of that width.
proof fn lemma_padded_uniform(g: Seq<Seq<u8>>, d: nat)
    requires
        d > 0,
        max_len(g) > 0,
    ensures
        uniform_shards(padded_group(g, d)),
{
    lemma_max_len_bound(g);
    let data = padded_group(g, d);
    assert forall|k: int| 0 <= k < data.len() implies (#[trigger] data[k]).len() == max_len(g) by {}
}

/// Rebuilds the data chunks `i..end` of one group, whose parity slots start at `ps`: the
/// arrived data slots padded to the group's width, zero shards for a short group, the arrived
/// parity slots, filled in by XOR (one parity shard) or Reed–Solomon, then each data shard
/// cut to its listed length and checked against its identifier.
fn recover_group(
    manifest: &Manifest,
    slots: &[Option<Vec<u8>>],
    i: usize,
    end: usize,
    ps: usize,
    d: usize,
    q: usize,
) -> (r: DdResult<Vec<Vec<u8>>>)
    requires
        i <= end,
        end - i <= d,
        ps + q <= usize::MAX,
    ensures
        r is Ok ==> r->Ok_0@.len() == end - i && forall|k: int|
            0 <= k < end - i ==> chunk_matches(manifest.chunks@[i + k].id, #[trigger] r->Ok_0@[k]@)
                && r->Ok_0@[k]@.len() == manifest.chunks@[i + k].length,
        r is Err ==> fails_with(r, ErrorCode::Dds2002CorruptChunk) || fails_with(
            r,
            ErrorCode::Dds2003MissingChunk,
        ),
        forall|g: Seq<Seq<u8>>|
            #[trigger] group_good(*manifest, slots@, g, i as nat, end as nat, ps as nat, d as nat, q as nat)
                ==> r is Ok && views(r->Ok_0@) == g,
{
    let ghost mask = arrived(slots@);
    let wd = slot_width(slots, i, end, 0);
    let w = slot_width(slots, ps, ps + q, wd);
    let mut shards: Vec<Option<Vec<u8>>> = Vec::new();
    let mut off: usize = 0;
    while off < end - i
        invariant
            i <= end,
            end - i <= d,
            mask == arrived(slots@),
            forall|k: int| i <= k < end ==> slot_len(slots@, k) <= w,
            off <= end - i,
            shards@.len() == off,
            present_count(shards@) == count_present(mask, i as int, (i + off) as int),
            forall|j: int| 0 <= j < off ==> holds_padded(#[trigger] shards@[j], slots@, i + j, w as nat),
        decreases end - i - off,
    {
        let k = i + off;
        let ghost before = shards@;
        if k < slots.len() {
            match &slots[k] {
                Some(v) => {
                    assert(slot_len(slots@, k as int) == v@.len());
                    let pv = padded(v.as_slice(), w);
                    shards.push(Some(pv));
                },
                None => {
                    shards.push(None);
                },
            }
        } else {
            shards.push(None);
        }
        proof {
            assert(shards@.drop_last() =~= before);
            assert forall|j: int| 0 <= j < off + 1 implies holds_padded(#[trigger] shards@[j], slots@, i + j, w as nat) by {
                if j < off {
                    assert(shards@[j] == before[j]);
                }
            }
        }
        off += 1;
    }
    while off < d
        invariant
            i <= end,
            end - i <= d,
            mask == arrived(slots@),
            end - i <= off <= d,
            shards@.len() == off,
            present_count(shards@) == count_present(mask, i as int, end as int) + (off - (end - i)),
            forall|j: int| 0 <= j < end - i ==> holds_padded(#[trigger] shards@[j], slots@, i + j, w as nat),
            forall|j: int| end - i <= j < off ==> (#[trigger] shards@[j]) is Some && shards@[j]->0@ == zeros(w as nat),
        decreases d - off,
    {
        let ghost before = shards@;
        let z = zero_vec(w);
        shards.push(Some(z));
        proof {
            assert(shards@.drop_last() =~= before);
            assert forall|j: int| 0 <= j < off implies #[trigger] shards@[j] == before[j] by {}
        }
        off += 1;
    }
    let mut p: usize = 0;
    while p < q
        invariant
            i <= end,
            end - i <= d,
            mask == arrived(slots@),
            ps + q <= usize::MAX,
            p <= q,
            shards@.len() == d + p,
            present_count(shards@) == count_present(mask, i as int, end as int) + (d - (end - i))
                + count_present(mask, ps as int, (ps + p) as int),
            forall|j: int| 0 <= j < end - i ==> holds_padded(#[trigger] shards@[j], slots@, i + j, w as nat),
            forall|j: int| end - i <= j < d ==> (#[trigger] shards@[j]) is Some && shards@[j]->0@ == zeros(w as nat),
            forall|j: int| d <= j < d + p ==> holds_copy(#[trigger] shards@[j], slots@, ps + (j - d)),
        decreases q - p,
    {
        let ghost before = shards@;
        if ps + p < slots.len() {
            match &slots[ps + p] {
                Some(v) => {
                    let c = copy_range(v.as_slice(), 0, v.len());
                    assert(c@ =~= v@);
                    shards.push(Some(c));
                },
                None => {
                    shards.push(None);
                },
            }
        } else {
            shards.push(None);
        }
        proof {
            assert(shards@.drop_last() =~= before);
            assert forall|j: int| 0 <= j < d + p implies #[trigger] shards@[j] == before[j] by {}
        }
        p += 1;
    }
    proof {
        assert forall|g: Seq<Seq<u8>>|
            #[trigger] group_good(*manifest, slots@, g, i as nat, end as nat, ps as nat, d as nat, q as nat)
            implies w == max_len(g) && present_count(shards@) >= d && slots_agree(
            shards@,
            group_word(g, d as nat, q as nat),
        ) && (forall|j: int| 0 <= j < d + q ==> (#[trigger] group_word(g, d as nat, q as nat)[j]).len() == w) by {
            lemma_group_shards(*manifest, slots@, g, i as nat, end as nat, ps as nat, d as nat, q as nat, wd as nat, w as nat, shards@);
        }
    }
    let ghost before = shards@;
    if q == 1 {
        match recover_xor(&mut shards, d, w) {
            Err(e) => {
                proof {
                    lemma_present_none(before);
                }
                return Err(e);
            },
            Ok(()) => {},
        }
        proof {
            assert forall|g: Seq<Seq<u8>>|
                #[trigger] group_good(*manifest, slots@, g, i as nat, end as nat, ps as nat, d as nat, q as nat)
                implies slots_filled(shards@, group_word(g, d as nat, q as nat)) by {
                let word = group_word(g, d as nat, q as nat);
                assert(word.drop_last() =~= padded_group(g, d as nat));
                lemma_xor_fill(before, shards@, word, w as nat);
            }
        }
    } else {
        if d > 256 || q > 256 {
            proof {
                assert forall|g: Seq<Seq<u8>>|
                    #[trigger] group_good(*manifest, slots@, g, i as nat, end as nat, ps as nat, d as nat, q as nat)
                    implies false by {}
            }
            return Err(coded(ErrorCode::Dds2002CorruptChunk, "reed-solomon: codec"));
        }
        match rs_reconstruct(d, q, &mut shards) {
            Ok(()) => {},
            Err(RsFailure::Codec) => {
                return Err(coded(ErrorCode::Dds2002CorruptChunk, "reed-solomon: codec"));
            },
            Err(RsFailure::Shards) => {
                proof {
                    assert forall|g: Seq<Seq<u8>>|
                        #[trigger] group_good(*manifest, slots@, g, i as nat, end as nat, ps as nat, d as nat, q as nat)
                        implies false by {
                        let data = padded_group(g, d as nat);
                        lemma_padded_uniform(g, d as nat);
                        assert(group_word(g, d as nat, q as nat) == data + rs_parity(data, q as nat));
                    }
                }
                return Err(coded(ErrorCode::Dds2003MissingChunk, "erasure reconstruct"));
            },
        }
        proof {
            assert forall|g: Seq<Seq<u8>>|
                #[trigger] group_good(*manifest, slots@, g, i as nat, end as nat, ps as nat, d as nat, q as nat)
                implies slots_filled(shards@, group_word(g, d as nat, q as nat)) by {
                let data = padded_group(g, d as nat);
                lemma_padded_uniform(g, d as nat);
                assert(group_word(g, d as nat, q as nat) == data + rs_parity(data, q as nat));
            }
        }
    }
    let mut out: Vec<Vec<u8>> = Vec::new();
    let mut off: usize = 0;
    while off < end - i
        invariant
            i <= end,
            end - i <= d,
            shards@.len() == before.len(),
            before.len() == d + q,
            off <= end - i,
            out@.len() == off,
            forall|k: int|
                0 <= k < off ==> chunk_matches(manifest.chunks@[i + k].id, #[trigger] out@[k]@)
                    && out@[k]@.len() == manifest.chunks@[i + k].length,
            forall|g: Seq<Seq<u8>>|
                #[trigger] group_good(*manifest, slots@, g, i as nat, end as nat, ps as nat, d as nat, q as nat)
                    ==> w == max_len(g) && slots_filled(shards@, group_word(g, d as nat, q as nat))
                    && views(out@) == g.take(off as int),
        decreases end - i - off,
    {
        let k = i + off;
        let shard = match &shards[off] {
            Some(v) => v,
            None => {
                return Err(coded(ErrorCode::Dds2003MissingChunk, "shard"));
            },
        };
        if k >= manifest.chunks.len() {
            return Err(coded(ErrorCode::Dds2003MissingChunk, "chunk reference"));
        }
        let want = manifest.chunks[k].length as usize;
        proof {
            assert forall|g: Seq<Seq<u8>>|
                #[trigger] group_good(*manifest, slots@, g, i as nat, end as nat, ps as nat, d as nat, q as nat)
                implies want == g[off as int].len() && want <= shard@.len() && shard@.subrange(0, want as int) == g[off as int]
                by {
                lemma_max_len_bound(g);
                let word = group_word(g, d as nat, q as nat);
                assert(word[off as int] == padded_group(g, d as nat)[off as int]);
                assert(shard@ == word[off as int]);
                assert(shard@.subrange(0, want as int) =~= g[off as int]);
            }
        }
        if want > shard.len() {
            return Err(coded(ErrorCode::Dds2002CorruptChunk, "chunk length"));
        }
        let piece = copy_range(shard.as_slice(), 0, want);
        match verify_chunk(&manifest.chunks[k].id, piece.as_slice()) {
            Err(e) => {
                return Err(e);
            },
            Ok(()) => {},
        }
        let ghost prev = views(out@);
        let ghost prev_out = out@;
        out.push(piece);
        proof {
            assert(views(out@) =~= prev.push(piece@));
            assert forall|g: Seq<Seq<u8>>|
                #[trigger] group_good(*manifest, slots@, g, i as nat, end as nat, ps as nat, d as nat, q as nat)
                implies views(out@) == g.take(off + 1) by {
                assert(g.take(off + 1) =~= g.take(off as int).push(g[off as int]));
            }
            assert forall|j: int| 0 <= j < off + 1 implies chunk_matches(manifest.chunks@[i + j].id, #[trigger] out@[j]@)
                && out@[j]@.len() == manifest.chunks@[i + j].length by {
                if j < off {
                    assert(out@[j] == prev_out[j]);
                }
            }
        }
        off += 1;
    }
    proof {
        assert forall|g: Seq<Seq<u8>>|
            #[trigger] group_good(*manifest, slots@, g, i as nat, end as nat, ps as nat, d as nat, q as nat)
            implies views(out@) == g by {
            assert(g.take(g.len() as int) =~= g);
        }
    }
    Ok(out)
}

/// Rebuilds the data chunks from the slots that arrived (`None` where one is missing).
/// Without erasure coding every chunk must be there and match. With it, each group is filled
/// in from its parity (XOR for one parity shard, Reed–Solomon for more) and each rebuilt chunk,
/// cut to its listed length, must match its identifier. A group left with too few shards fails
/// with `Dds2003MissingChunk`; a rebuilt chunk that does not match, a listed length longer
/// than its group's shards, or parameters the Reed–Solomon codec refuses fail with
/// `Dds2002CorruptChunk`; a manifest listing fewer chunks than its data count fails with
/// `Dds2003MissingChunk`. Whenever the manifest codes data chunks that are `rebuildable` from
/// the slots (every slot that arrived intact, no group missing more than it has parity), those
/// chunks are exactly what comes back.
pub fn reconstruct(manifest: &Manifest, slots: &[Option<Vec<u8>>]) -> (r: DdResult<Vec<Vec<u8>>>)
    requires
        erasure_usable(*manifest),
    ensures
        manifest.erasure is None ==> match plain_outcome(
            manifest.chunks@,
            slots@,
            manifest.chunks@.len(),
        ) {
            Ok(v) => r is Ok && views(r->Ok_0@) == v,
            Err(c) => fails_with(r, c),
        },
        manifest.erasure is Some && r is Ok ==> r->Ok_0@.len() == manifest.erasure->0.data_count
            && forall|i: int|
            0 <= i < r->Ok_0@.len() ==> chunk_matches(manifest.chunks@[i].id, #[trigger] r->Ok_0@[i]@)
                && r->Ok_0@[i]@.len() == manifest.chunks@[i].length,
        r is Err ==> fails_with(r, ErrorCode::Dds2002CorruptChunk) || fails_with(
            r,
            ErrorCode::Dds2003MissingChunk,
        ),
        forall|c: Seq<Seq<u8>>| #[trigger] rebuildable(*manifest, slots@, c) ==> r is Ok && views(r->Ok_0@) == c,
{
    let info = match &manifest.erasure {
        None => {
            let mut out: Vec<Vec<u8>> = Vec::new();
            let mut i: usize = 0;
            assert(views(out@) =~= Seq::<Seq<u8>>::empty());
            while i < manifest.chunks.len()
                invariant
                    manifest.erasure is None,
                    i <= manifest.chunks@.len(),
                    plain_outcome(manifest.chunks@, slots@, i as nat) == Ok::<Seq<Seq<u8>>, ErrorCode>(views(out@)),
                decreases manifest.chunks@.len() - i,
            {
                if i >= slots.len() || slots[i].is_none() {
                    proof {
                            lemma_plain_err_sticks(manifest.chunks@, slots@, (i + 1) as nat, manifest.chunks@.len());
                        }
                    return Err(coded(ErrorCode::Dds2003MissingChunk, "missing chunk"));
                }
                let data = match &slots[i] {
                    Some(v) => v,
                    None => {
                        return Err(coded(ErrorCode::Dds2003MissingChunk, "missing chunk"));
                    },
                };
                match verify_chunk(&manifest.chunks[i].id, data.as_slice()) {
                    Err(e) => {
                        proof {
                            lemma_plain_err_sticks(manifest.chunks@, slots@, (i + 1) as nat, manifest.chunks@.len());
                        }
                        return Err(e);
                    },
                    Ok(()) => {},
                }
                let copy = copy_range(data.as_slice(), 0, data.len());
                assert(copy@ =~= data@);
                let ghost before = views(out@);
                out.push(copy);
                assert(views(out@) =~= before.push(data@));
                i += 1;
            }
            return Ok(out);
        },
        Some(e) => *e,
    };
    let d = info.spec.data_shards as usize;
    let q = info.spec.parity_shards as usize;
    let n = info.data_count as usize;
    let mut recovered: Vec<Vec<u8>> = Vec::new();
    let mut i: usize = 0;
    let mut ps: usize = n;
    proof {
        assert forall|c: Seq<Seq<u8>>| #[trigger] rebuildable(*manifest, slots@, c) implies rebuild_at(
            *manifest,
            slots@,
            c,
            0,
            n as nat,
        ) by {
            let word = erasure_word(*manifest, c);
            assert(word.skip(n as int) =~= parity_from(c, 0, d as nat, q as nat));
        }
    }
    while i < n
        invariant
            manifest.erasure == Some(info),
            d == info.spec.data_shards,
            q == info.spec.parity_shards,
            n == info.data_count,
            d > 0,
            i <= n,
            parity_fits(n as nat, i as nat, ps as nat, d as nat, q as nat),
            recovered@.len() == i,
            forall|k: int|
                0 <= k < i ==> chunk_matches(manifest.chunks@[k].id, #[trigger] recovered@[k]@)
                    && recovered@[k]@.len() == manifest.chunks@[k].length,
            forall|c: Seq<Seq<u8>>|
                #[trigger] rebuildable(*manifest, slots@, c) ==> c.len() == n && views(recovered@)
                    == c.take(i as int) && rebuild_at(*manifest, slots@, c, i as nat, ps as nat),
        decreases n - i,
    {
        let end = if n - i < d { n } else { i + d };
        assert(ps + q <= usize::MAX);
        proof {
            assert forall|c: Seq<Seq<u8>>| #[trigger] rebuildable(*manifest, slots@, c) implies group_good(
                *manifest,
                slots@,
                c.subrange(i as int, end as int),
                i as nat,
                end as nat,
                ps as nat,
                d as nat,
                q as nat,
            ) && rebuild_at(*manifest, slots@, c, end as nat, (ps + q) as nat) by {
                lemma_next_group(*manifest, slots@, c, i as nat, end as nat, ps as nat);
            }
        }
        let part = match recover_group(manifest, slots, i, end, ps, d, q) {
            Err(e) => {
                return Err(e);
            },
            Ok(v) => v,
        };
        let ghost prev = recovered@;
        let mut part = part;
        let ghost part_v = part@;
        recovered.append(&mut part);
        proof {
            assert(recovered@ =~= prev + part_v);
            assert forall|k: int|
                0 <= k < end implies chunk_matches(manifest.chunks@[k].id, #[trigger] recovered@[k]@)
                && recovered@[k]@.len() == manifest.chunks@[k].length by {
                if k < i {
                    assert(recovered@[k] == prev[k]);
                } else {
                    assert(recovered@[k] == part_v[k - i]);
                    assert(manifest.chunks@[i + (k - i)] == manifest.chunks@[k]);
                }
            }
            assert forall|c: Seq<Seq<u8>>| #[trigger] rebuildable(*manifest, slots@, c) implies views(recovered@)
                == c.take(end as int) by {
                assert(views(part_v) == c.subrange(i as int, end as int));
                assert(views(recovered@) =~= views(prev) + views(part_v));
                assert(c.take(end as int) =~= c.take(i as int) + c.subrange(i as int, end as int));
            }
            assert(parity_fits(n as nat, (i + d) as nat, (ps + q) as nat, d as nat, q as nat)
                == parity_fits(n as nat, end as nat, (ps + q) as nat, d as nat, q as nat));
        }
        i = end;
        ps = ps + q;
    }
    proof {
        assert forall|c: Seq<Seq<u8>>| #[trigger] rebuildable(*manifest, slots@, c) implies views(recovered@) == c by {
            assert(c.take(n as int) =~= c);
        }
    }
    Ok(recovered)
}


/// Parity positions fit in a `usize` when the whole code does.
proof fn lemma_parity_fits(c: Seq<Seq<u8>>, i: nat, ps: nat, d: nat, q: nat)
    requires
        d > 0,
        parity_shaped(c, i, d, q),
        ps + parity_from(c, i, d, q).len() <= usize::MAX,
    ensures
        parity_fits(c.len(), i, ps, d, q),
    decreases (if i < c.len() { c.len() - i } else { 0 }),
{
    if i < c.len() {
        lemma_parity_fits(c, i + d, ps + q, d, q);
    }
}

/// Erasure coding is undone: when the output of `apply_erasure` arrives with every received
/// chunk intact and no group missing more chunks than it has parity, its manifest is one
/// `reconstruct` accepts and the original data chunks are `rebuildable` from what arrived, so
/// `reconstruct` gives back exactly those chunks. (Chunk counts and lengths are those the
/// manifest's `u32` fields can hold.)
pub proof fn lemma_erasure_roundtrip(
    body: ChunkedPayload,
    spec: ErasureSpec,
    out: ChunkedPayload,
    slots: Seq<Option<Vec<u8>>>,
)
    requires
        refs_match(body.manifest.chunks@, views(body.chunks@)),
        body.chunks@.len() <= u32::MAX,
        forall|k: int| 0 <= k < body.chunks@.len() ==> (#[trigger] body.chunks@[k])@.len() <= u32::MAX,
        out.chunks@.len() <= usize::MAX,
        spec_valid(spec),
        erasure_applied(out, body, spec),
        slots_intact(slots, views(out.chunks@)),
        mask_recoverable(out.manifest, arrived(slots)),
    ensures
        erasure_usable(out.manifest),
        rebuildable(out.manifest, slots, views(body.chunks@)),
{
    let c = views(body.chunks@);
    let d = spec.data_shards as nat;
    let q = spec.parity_shards as nat;
    let old_refs = body.manifest.chunks@;
    assert forall|k: int| 0 <= k < c.len() implies chunk_matches(out.manifest.chunks@[k].id, #[trigger] c[k])
        && out.manifest.chunks@[k].length == c[k].len() by {
        assert(out.manifest.chunks@[k] == out.manifest.chunks@.take(old_refs.len() as int)[k]);
        assert(c[k] == body.chunks@[k]@);
    }
    assert(codes_data(out.manifest, c));
    assert(erasure_word(out.manifest, c) == views(out.chunks@));
    lemma_parity_fits(c, 0, c.len(), d, q);
}


proof fn lemma_plain_err_sticks(refs: Seq<ChunkRef>, slots: Seq<Option<Vec<u8>>>, m: nat, n: nat)
    requires
        m <= n,
        plain_outcome(refs, slots, m) is Err,
    ensures
        plain_outcome(refs, slots, n) == plain_outcome(refs, slots, m),
    decreases n - m,
{
    if m < n {
        lemma_plain_err_sticks(refs, slots, m, (n - 1) as nat);
    }
}

} // verus!
