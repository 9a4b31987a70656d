//! Inventory exchange: sorted identifier lists, or Bloom filters of them, and what to ask for.

use crate::crypto::DefaultProvider;
use crate::error::DdResult;
use crate::ids::{eq_bytes32, HashAlgorithm, ObjectId};
use crate::primitives::blake3_digest;
use crate::sealed::{byte_pow, lemma_byte_pow_mono};
use crate::text::push_all;
use vstd::prelude::*;

verus! {

pub struct BloomFilter {
    pub n: u32,
    pub k: u8,
    pub bits: Vec<u8>,
}

/// The number whose little-endian bytes are `s`.
pub open spec fn le_value(s: Seq<u8>) -> nat
    decreases s.len(),
{
    if s.len() == 0 {
        0
    } else {
        s[0] as nat + 256 * le_value(s.subrange(1, s.len() as int))
    }
}

/// Bit position of hash function `i` for an object digest in a filter of `m` bits: the first
/// eight bytes of BLAKE3 over the digest and `i`, read little-endian, modulo `m`.
pub open spec fn bloom_index(d: Seq<u8>, i: u8, m: usize) -> usize {
    ((le_value(blake3_digest(d.push(i)).subrange(0, 8)) as u64 as usize) % m) as usize
}

/// Bit `p` of `bits` is set (bit `p % 8` of byte `p / 8`).
pub open spec fn bit_at(bits: Seq<u8>, p: int) -> bool {
    bits[p / 8] & (1u8 << ((p % 8) as u8)) != 0
}

/// Bits a filter for `n` identifiers at `bits_per` bits each uses: at least 64.
pub open spec fn filter_bits(n: nat, bits_per: nat) -> nat {
    let m = (if n > 1 { n } else { 1 }) * bits_per;
    if m > 64 { m } else { 64 }
}

/// Some hash function of some identifier among the first `j` (and of identifier `j` among
/// its first `i`) selects bit `p`.
pub open spec fn marked_upto(ids: Seq<ObjectId>, m: usize, j: int, i: int, p: int) -> bool {
    exists|a: int, c: int|
        0 <= a < ids.len() && 0 <= c < 4 && (a < j || (a == j && c < i)) && #[trigger] bloom_index(
            ids[a].digest.0@,
            c as u8,
            m,
        ) == p
}

/// The filter holds an identifier: every hash function selects a set bit.
pub open spec fn filter_holds(b: BloomFilter, d: Seq<u8>) -> bool {
    let m = (b.bits@.len() * 8) as usize;
    m > 0 && forall|i: int| 0 <= i < b.k ==> #[trigger] bit_at(b.bits@, bloom_index(d, i as u8, m) as int)
}

proof fn lemma_set_bit(x: u8, r: u8, s: u8)
    requires
        r < 8,
        s < 8,
    ensures
        ((x | (1u8 << r)) & (1u8 << s) != 0) == ((x & (1u8 << s) != 0) || r == s),
{
    assert(((x | (1u8 << r)) & (1u8 << s) != 0) == ((x & (1u8 << s) != 0) || r == s)) by (bit_vector)
        requires
            r < 8,
            s < 8,
    ;
}

proof fn lemma_byte_bit(before: Seq<u8>, after: Seq<u8>, idx: int, p: int)
    requires
        0 <= idx < before.len() * 8,
        0 <= p < before.len() * 8,
        after == before.update(idx / 8, before[idx / 8] | (1u8 << ((idx % 8) as u8))),
    ensures
        bit_at(after, p) == (bit_at(before, p) || p == idx),
{
    lemma_set_bit(before[p / 8], (idx % 8) as u8, (p % 8) as u8);
    if p / 8 == idx / 8 {
        assert(after[p / 8] == before[p / 8] | (1u8 << ((idx % 8) as u8)));
        assert((idx % 8) as u8 == (p % 8) as u8 <==> p == idx);
    } else {
        assert(after[p / 8] == before[p / 8]);
        assert(p != idx);
    }
}

proof fn lemma_marked_step(ids: Seq<ObjectId>, m: usize, j: int, i: int, p: int, idx: int)
    requires
        0 <= j < ids.len(),
        0 <= i < 4,
        idx == bloom_index(ids[j].digest.0@, i as u8, m),
    ensures
        marked_upto(ids, m, j, i + 1, p) == (marked_upto(ids, m, j, i, p) || p == idx),
{
    if marked_upto(ids, m, j, i + 1, p) {
        let (a, c) = choose|a: int, c: int|
            0 <= a < ids.len() && 0 <= c < 4 && (a < j || (a == j && c < i + 1))
                && #[trigger] bloom_index(ids[a].digest.0@, c as u8, m) == p;
        if !(a == j && c == i) {
            assert(marked_upto(ids, m, j, i, p));
        }
    }
    if marked_upto(ids, m, j, i, p) {
        let (a, c) = choose|a: int, c: int|
            0 <= a < ids.len() && 0 <= c < 4 && (a < j || (a == j && c < i))
                && #[trigger] bloom_index(ids[a].digest.0@, c as u8, m) == p;
        assert(marked_upto(ids, m, j, i + 1, p));
    }
    if p == idx {
        assert(bloom_index(ids[j].digest.0@, i as u8, m) == p);
        assert(marked_upto(ids, m, j, i + 1, p));
    }
}

/// Little-endian value of the first eight bytes of a digest.
fn le_u64(h: &[u8; 32]) -> (v: u64)
    ensures
        v == le_value(h@.subrange(0, 8)),
{
    let mut v: u64 = 0;
    let mut t: usize = 0;
    while t < 8
        invariant
            t <= 8,
            h@.len() == 32,
            v == le_value(h@.subrange(8 - t, 8)),
            v < byte_pow(t as nat),
        decreases 8 - t,
    {
        let b = h[7 - t];
        proof {
            lemma_byte_pow_mono(t as nat, 7);
            reveal_with_fuel(byte_pow, 8);
            let s = h@.subrange(7 - t, 8);
            assert(s.subrange(1, s.len() as int) =~= h@.subrange(8 - t, 8));
            assert(s[0] == b);
            let p = byte_pow(t as nat);
            assert(v * 256 + b < p * 256) by (nonlinear_arith)
                requires
                    v < p,
                    b < 256,
            ;
            assert(b + 256 * v == v * 256 + b);
        }
        v = v * 256 + b as u64;
        t += 1;
    }
    v
}

fn bit_index(id: &ObjectId, i: u8, m_bits: usize) -> (r: usize)
    requires
        m_bits > 0,
    ensures
        r == bloom_index(id.digest.0@, i, m_bits),
        r < m_bits,
{
    let mut buf: Vec<u8> = Vec::new();
    push_all(&mut buf, id.as_bytes());
    buf.push(i);
    let h = DefaultProvider.hash(HashAlgorithm::Blake3, &buf);
    let v = le_u64(&h.0);
    (v as usize) % m_bits
}

impl BloomFilter {
    /// A filter of the identifiers with `bits_per` bits each (at least 64 bits, rounded up to
    /// whole bytes) and four hash functions, each selecting a bit modulo the filter's whole
    /// bit count, as `may_contain` does. A bit is set exactly when some hash function of some
    /// identifier selects it.
    pub fn from_ids(ids: &[ObjectId], bits_per: usize) -> (b: Self)
        requires
            (if ids@.len() > 1 { ids@.len() as int } else { 1 }) * bits_per + 8 <= usize::MAX,
        ensures
            b.k == 4,
            b.n == ids@.len() as u32,
            b.bits@.len() * 8 >= filter_bits(ids@.len(), bits_per as nat),
            b.bits@.len() * 8 < filter_bits(ids@.len(), bits_per as nat) + 8,
            b.bits@.len() * 8 <= usize::MAX,
            forall|p: int|
                0 <= p < b.bits@.len() * 8 ==> (bit_at(b.bits@, p) <==> marked_upto(
                    ids@,
                    (b.bits@.len() * 8) as usize,
                    ids@.len() as int,
                    0,
                    p,
                )),
    {
        let n = if ids.len() > 1 { ids.len() } else { 1 };
        let raw = n * bits_per;
        let m_bits: usize = if raw > 64 { raw } else { 64 };
        let bytes = m_bits / 8 + if m_bits % 8 != 0 { 1 } else { 0 };
        let width = bytes * 8;
        let k: u8 = 4;
        let mut bits: Vec<u8> = Vec::new();
        while bits.len() < bytes
            invariant
                bits@.len() <= bytes,
                forall|q: int| 0 <= q < bits@.len() ==> bits@[q] == 0u8,
            decreases bytes - bits@.len(),
        {
            bits.push(0u8);
        }
        assert forall|p: int| 0 <= p < bits@.len() * 8 implies !bit_at(bits@, p) by {
            assert(bits@[p / 8] == 0u8);
            let s = (p % 8) as u8;
            assert(0u8 & (1u8 << s) == 0u8) by (bit_vector);
        }
        let mut j: usize = 0;
        while j < ids.len()
            invariant
                k == 4,
                m_bits == filter_bits(ids@.len(), bits_per as nat),
                m_bits >= 64,
                bits@.len() == bytes,
                width == bytes * 8,
                bytes * 8 >= m_bits,
                bytes * 8 < m_bits + 8,
                j <= ids@.len(),
                forall|p: int|
                    0 <= p < bytes * 8 ==> (bit_at(bits@, p) <==> marked_upto(ids@, width, j as int, 0, p)),
            decreases ids@.len() - j,
        {
            let mut i: u8 = 0;
            while i < k
                invariant
                    k == 4,
                    m_bits >= 64,
                    bits@.len() == bytes,
                    width == bytes * 8,
                    bytes * 8 >= m_bits,
                    j < ids@.len(),
                    i <= 4,
                    forall|p: int|
                        0 <= p < bytes * 8 ==> (bit_at(bits@, p) <==> marked_upto(ids@, width, j as int, i as int, p)),
                decreases 4 - i,
            {
                let idx = bit_index(&ids[j], i, width);
                let ghost before = bits@;
                let byte = bits[idx / 8] | (1u8 << ((idx % 8) as u8));
                bits.set(idx / 8, byte);
                proof {
                    assert(bloom_index(ids@[j as int].digest.0@, i, width) == idx);
                    assert(bits@ == before.update((idx / 8) as int, before[(idx / 8) as int] | (1u8 << ((idx % 8) as u8))));
                    assert forall|p: int| 0 <= p < bytes * 8 implies (bit_at(bits@, p) <==> marked_upto(
                        ids@,
                        width,
                        j as int,
                        i + 1,
                        p,
                    )) by {
                        lemma_byte_bit(before, bits@, idx as int, p);
                        lemma_marked_step(ids@, width, j as int, i as int, p, idx as int);
                    }
                }
                i += 1;
            }
            proof {
                assert forall|p: int| 0 <= p < bytes * 8 implies (bit_at(bits@, p) <==> marked_upto(
                    ids@,
                    width,
                    j + 1,
                    0,
                    p,
                )) by {
                    if marked_upto(ids@, width, j as int, 4, p) {
                        let (a, c) = choose|a: int, c: int|
                            0 <= a < ids@.len() && 0 <= c < 4 && (a < j || (a == j && c < 4))
                                && #[trigger] bloom_index(ids@[a].digest.0@, c as u8, width) == p;
                        assert(marked_upto(ids@, width, j + 1, 0, p));
                    }
                    if marked_upto(ids@, width, j + 1, 0, p) {
                        let (a, c) = choose|a: int, c: int|
                            0 <= a < ids@.len() && 0 <= c < 4 && (a < j + 1 || (a == j + 1 && c < 0))
                                && #[trigger] bloom_index(ids@[a].digest.0@, c as u8, width) == p;
                        assert(marked_upto(ids@, width, j as int, 4, p));
                    }
                }
            }
            j += 1;
        }
        BloomFilter { n: ids.len() as u32, k, bits }
    }

    /// Whether the filter may hold an identifier: every hash function selects a set bit. An
    /// empty filter holds nothing.
    pub fn may_contain(&self, id: &ObjectId) -> (b: bool)
        requires
            self.bits@.len() * 8 <= usize::MAX,
        ensures
            b == filter_holds(*self, id.digest.0@),
    {
        let m_bits = self.bits.len() * 8;
        if m_bits == 0 {
            return false;
        }
        let mut i: u8 = 0;
        while i < self.k
            invariant
                m_bits == self.bits@.len() * 8,
                m_bits > 0,
                i <= self.k,
                forall|c: int| 0 <= c < i ==> #[trigger] bit_at(self.bits@, bloom_index(id.digest.0@, c as u8, m_bits) as int),
            decreases self.k - i,
        {
            let idx = bit_index(id, i, m_bits);
            if self.bits[idx / 8] & (1u8 << ((idx % 8) as u8)) == 0 {
                assert(!bit_at(self.bits@, bloom_index(id.digest.0@, i as int as u8, m_bits) as int));
                return false;
            }
            i += 1;
        }
        true
    }
}

/// A filter built from identifiers holds every one of them, whatever its size: there are no
/// false negatives.
pub proof fn lemma_bloom_no_false_negative(ids: Seq<ObjectId>, b: BloomFilter, j: int)
    requires
        b.k == 4,
        0 < b.bits@.len() * 8 <= usize::MAX,
        forall|p: int|
            0 <= p < b.bits@.len() * 8 ==> (bit_at(b.bits@, p) <==> marked_upto(
                ids,
                (b.bits@.len() * 8) as usize,
                ids.len() as int,
                0,
                p,
            )),
        0 <= j < ids.len(),
    ensures
        filter_holds(b, ids[j].digest.0@),
{
    let m = (b.bits@.len() * 8) as usize;
    assert forall|i: int| 0 <= i < b.k implies #[trigger] bit_at(
        b.bits@,
        bloom_index(ids[j].digest.0@, i as u8, m) as int,
    ) by {
        let p = bloom_index(ids[j].digest.0@, i as u8, m) as int;
        assert(0 <= p < m);
        assert(bloom_index(ids[j].digest.0@, i as u8, m) == p);
        assert(marked_upto(ids, m, ids.len() as int, 0, p));
    }
}

/// A filter built from no identifiers holds nothing.
pub proof fn lemma_bloom_empty(b: BloomFilter, d: Seq<u8>)
    requires
        b.k == 4,
        b.bits@.len() * 8 <= usize::MAX,
        forall|p: int|
            0 <= p < b.bits@.len() * 8 ==> (bit_at(b.bits@, p) <==> marked_upto(
                Seq::<ObjectId>::empty(),
                (b.bits@.len() * 8) as usize,
                0,
                0,
                p,
            )),
    ensures
        !filter_holds(b, d),
{
    let m = (b.bits@.len() * 8) as usize;
    if m > 0 {
        let p = bloom_index(d, 0u8, m) as int;
        assert(0 <= p < m);
        assert(!marked_upto(Seq::<ObjectId>::empty(), m, 0, 0, p));
        assert(!bit_at(b.bits@, bloom_index(d, 0 as u8, m) as int));
    }
}

/// How to send an inventory.
#[derive(Debug, Clone, Copy, PartialEq, Eq, Structural)]
pub enum InventoryAlgo {
    Sorted,
    Bloom,
}

/// A Bloom filter when the peer supports them and there are more than 64 identifiers; a
/// sorted list otherwise.
pub fn choose_inventory(local_count: usize, peer_supports_bloom: bool) -> (a: InventoryAlgo)
    ensures
        a == (if peer_supports_bloom && local_count > 64 {
            InventoryAlgo::Bloom
        } else {
            InventoryAlgo::Sorted
        }),
{
    if peer_supports_bloom && local_count > 64 {
        InventoryAlgo::Bloom
    } else {
        InventoryAlgo::Sorted
    }
}

/// Two object identifiers are the same.
pub fn same_object(a: &ObjectId, b: &ObjectId) -> (r: bool)
    ensures
        r == (*a == *b),
{
    let r = a.algorithm == b.algorithm && eq_bytes32(&a.digest.0, &b.digest.0);
    proof {
        if a.algorithm == b.algorithm && a.digest.0@ == b.digest.0@ {
            assert(a.digest.0 =~= b.digest.0);
        }
    }
    r
}

fn holds_object(v: &[ObjectId], id: &ObjectId) -> (r: bool)
    ensures
        r == v@.contains(*id),
{
    let mut i: usize = 0;
    while i < v.len()
        invariant
            i <= v@.len(),
            forall|j: int| 0 <= j < i ==> v@[j] != *id,
        decreases v@.len() - i,
    {
        if same_object(&v[i], id) {
            assert(v@[i as int] == *id);
            return true;
        }
        i += 1;
    }
    false
}

/// The identifiers of `peer` that are not in `local`, in the order of `peer`.
pub open spec fn wanted(peer: Seq<ObjectId>, local: Seq<ObjectId>) -> Seq<ObjectId>
    decreases peer.len(),
{
    if peer.len() == 0 {
        Seq::empty()
    } else {
        wanted(peer.drop_last(), local) + if local.contains(peer.last()) {
            Seq::empty()
        } else {
            seq![peer.last()]
        }
    }
}

/// The identifiers in `local` that the filter does not hold, in order.
pub open spec fn not_held(local: Seq<ObjectId>, b: BloomFilter) -> Seq<ObjectId>
    decreases local.len(),
{
    if local.len() == 0 {
        Seq::empty()
    } else {
        not_held(local.drop_last(), b) + if filter_holds(b, local.last().digest.0@) {
            Seq::empty()
        } else {
            seq![local.last()]
        }
    }
}

/// What to ask a peer for after its sorted inventory: the identifiers it has and we lack.
pub fn want_from_sorted(peer_ids: &[ObjectId], local: &[ObjectId]) -> (r: Vec<ObjectId>)
    ensures
        r@ == wanted(peer_ids@, local@),
{
    let mut out: Vec<ObjectId> = Vec::new();
    let mut i: usize = 0;
    while i < peer_ids.len()
        invariant
            i <= peer_ids@.len(),
            out@ == wanted(peer_ids@.take(i as int), local@),
        decreases peer_ids@.len() - i,
    {
        let id = peer_ids[i];
        let have = holds_object(local, &id);
        let ghost before = out@;
        if !have {
            out.push(id);
        }
        proof {
            let t = peer_ids@.take(i + 1);
            assert(t.drop_last() =~= peer_ids@.take(i as int));
            assert(t.last() == id);
            if have {
                assert(out@ =~= before + Seq::<ObjectId>::empty());
            } else {
                assert(out@ =~= before + seq![id]);
            }
        }
        i += 1;
    }
    assert(peer_ids@.take(peer_ids@.len() as int) =~= peer_ids@);
    out
}

/// After a peer's Bloom filter: the local identifiers the peer may lack (the receiver of a
/// filter cannot list the peer's identifiers).
pub fn want_from_bloom(local: &[ObjectId], bloom: &BloomFilter) -> (r: Vec<ObjectId>)
    requires
        bloom.bits@.len() * 8 <= usize::MAX,
    ensures
        r@ == not_held(local@, *bloom),
{
    let mut out: Vec<ObjectId> = Vec::new();
    let mut i: usize = 0;
    while i < local.len()
        invariant
            i <= local@.len(),
            bloom.bits@.len() * 8 <= usize::MAX,
            out@ == not_held(local@.take(i as int), *bloom),
        decreases local@.len() - i,
    {
        let id = local[i];
        let held = bloom.may_contain(&id);
        let ghost before = out@;
        if !held {
            out.push(id);
        }
        proof {
            let t = local@.take(i + 1);
            assert(t.drop_last() =~= local@.take(i as int));
            assert(t.last() == id);
            if held {
                assert(out@ =~= before + Seq::<ObjectId>::empty());
            } else {
                assert(out@ =~= before + seq![id]);
            }
        }
        i += 1;
    }
    assert(local@.take(local@.len() as int) =~= local@);
    out
}

/// Always succeeds.
pub fn _ok() -> (r: DdResult<()>)
    ensures
        r is Ok,
{
    Ok(())
}

} // verus!
