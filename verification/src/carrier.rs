//! Removable-media carriers: which Drops a carrier takes, and the single-file `.ddrop`
//! archive that packs a carrier directory. A carrier never holds private identity keys.
//!
//! A `.ddrop` archive is the seven bytes `DDROP1\n`, the number of files as a big-endian
//! `u32`, then for each file its UTF-8 name's length as a big-endian `u16`, the name, the
//! data's length as a big-endian `u64` and the data.

use crate::chunk::copy_range;
use crate::destination::{dest_includes, Destination};
use crate::error::{fails_with, DdError, DdResult, ErrorCode};
use crate::ids::PeerId;
use crate::text::{chars_of, has_substring, has_substring_chars, owned, push_all, utf8_text};
use crate::crypto::{
    be16, be32, be64, lemma_u16_bytes, lemma_u32_bytes, lemma_u64_bytes, u16_be, u32_be, u64_be,
};
use crate::PROTOCOL_LABEL;
use vstd::prelude::*;
use vstd::string::StringSliceAdditionalSpecFns;
use vstd::utf8::{decode_utf8, encode_utf8, valid_utf8};

verus! {

/// What an exported carrier holds.
#[derive(Debug, Clone)]
pub struct CarrierManifest {
    pub protocol: String,
    pub objects: u32,
    pub note: String,
}

/// Which Drops an export takes.
#[derive(Debug, Clone)]
pub struct ExportFilter {
    /// Only Drops for this peer (or public ones).
    pub destination: Option<PeerId>,
    /// Only Drops not yet forwarded to anyone.
    pub pending_only: bool,
}

impl Default for ExportFilter {
    fn default() -> (f: Self)
        ensures
            f.destination is None,
            !f.pending_only,
    {
        ExportFilter { destination: None, pending_only: false }
    }
}

/// An export with filter `f` takes a Drop addressed to `dest` that was (or was not)
/// forwarded already: the Drop is for the filter's peer or public, and it is still pending
/// when only pending Drops are asked for.
pub open spec fn export_takes(f: ExportFilter, dest: Destination, forwarded: bool) -> bool {
    (match f.destination {
        Some(p) => dest_includes(dest, p) || dest is Public,
        None => true,
    }) && (f.pending_only ==> !forwarded)
}

impl ExportFilter {
    /// Whether an export with this filter takes a Drop addressed to `dest`.
    pub fn admits(&self, dest: &Destination, forwarded: bool) -> (b: bool)
        ensures
            b == export_takes(*self, *dest, forwarded),
    {
        match self.destination {
            Some(p) => {
                if !dest.includes(&p) && !dest.is_public() {
                    return false;
                }
            },
            None => {},
        }
        !(self.pending_only && forwarded)
    }
}

/// Some trace line of a Drop mentions a forward.
pub open spec fn traces_forwarded(traces: Seq<(u64, String)>) -> bool {
    exists|k: int| 0 <= k < traces.len() && #[trigger] has_substring(traces[k].1@, "forward"@)
}

/// Whether a Drop's trace shows it was forwarded.
pub fn was_forwarded(traces: &[(u64, String)]) -> (b: bool)
    ensures
        b == traces_forwarded(traces@),
{
    let pat = chars_of("forward");
    let mut i: usize = 0;
    while i < traces.len()
        invariant
            i <= traces@.len(),
            pat@ == "forward"@,
            forall|k: int| 0 <= k < i ==> !#[trigger] has_substring(traces@[k].1@, "forward"@),
        decreases traces@.len() - i,
    {
        let line = chars_of(traces[i].1.as_str());
        if has_substring_chars(&line, &pat) {
            return true;
        }
        i += 1;
    }
    false
}

/// The manifest written next to an exported carrier of `objects` Drops.
pub fn carrier_manifest(objects: u32) -> (m: CarrierManifest)
    ensures
        m.protocol@ == PROTOCOL_LABEL@,
        m.objects == objects,
        m.note@ == "no private keys; physical sneakernet carrier"@,
{
    CarrierManifest {
        protocol: owned(PROTOCOL_LABEL),
        objects,
        note: owned("no private keys; physical sneakernet carrier"),
    }
}

/// The first bytes of every `.ddrop` archive.
pub const DDROP_MAGIC: [u8; 7] = [68u8, 68u8, 82u8, 79u8, 80u8, 49u8, 10u8];

/// The magic as a sequence.
pub open spec fn ddrop_magic() -> Seq<u8> {
    seq![68u8, 68u8, 82u8, 79u8, 80u8, 49u8, 10u8]
}

/// A file of an archive: its name and its bytes.
pub open spec fn file_view(f: (String, Vec<u8>)) -> (Seq<char>, Seq<u8>) {
    (f.0@, f.1@)
}

/// The files of an archive, as names and bytes.
pub open spec fn files_view(fs: Seq<(String, Vec<u8>)>) -> Seq<(Seq<char>, Seq<u8>)> {
    fs.map_values(|f: (String, Vec<u8>)| file_view(f))
}

/// How one file is laid out in an archive.
pub open spec fn entry_bytes(e: (Seq<char>, Seq<u8>)) -> Seq<u8> {
    let nb = encode_utf8(e.0);
    be16(nb.len() as u16) + nb + be64(e.1.len() as u64) + e.1
}

/// How a run of files is laid out in an archive.
pub open spec fn entries_bytes(es: Seq<(Seq<char>, Seq<u8>)>) -> Seq<u8>
    decreases es.len(),
{
    if es.len() == 0 {
        Seq::empty()
    } else {
        entry_bytes(es[0]) + entries_bytes(es.drop_first())
    }
}

/// The bytes of an archive of these files.
pub open spec fn archive_bytes(es: Seq<(Seq<char>, Seq<u8>)>) -> Seq<u8> {
    ddrop_magic() + be32(es.len() as u32) + entries_bytes(es)
}

proof fn lemma_entries_bytes_push(es: Seq<(Seq<char>, Seq<u8>)>, e: (Seq<char>, Seq<u8>))
    ensures
        entries_bytes(es.push(e)) == entries_bytes(es) + entry_bytes(e),
    decreases es.len(),
{
    if es.len() == 0 {
        let t = es.push(e);
        assert(t.drop_first() =~= Seq::<(Seq<char>, Seq<u8>)>::empty());
        assert(entries_bytes(t.drop_first()) == Seq::<u8>::empty());
        assert(t[0] == e);
        assert(entries_bytes(es) == Seq::<u8>::empty());
        assert(entries_bytes(t) =~= entry_bytes(e));
    } else {
        assert(es.push(e).drop_first() =~= es.drop_first().push(e));
        lemma_entries_bytes_push(es.drop_first(), e);
        assert(es.push(e)[0] == es[0]);
        assert(entries_bytes(es.push(e)) =~= entries_bytes(es) + entry_bytes(e));
    }
}

/// Packs files into a `.ddrop` archive. Lengths are written truncated to their fields, as
/// the format stores them.
pub fn pack_ddrop_bytes(files: &[(String, Vec<u8>)]) -> (v: Vec<u8>)
    ensures
        v@ == archive_bytes(files_view(files@)),
{
    let ghost fv = files_view(files@);
    let mut out: Vec<u8> = Vec::new();
    push_all(&mut out, &DDROP_MAGIC);
    #[verifier::truncate]
    let count = files.len() as u32;
    push_all(&mut out, &u32_be(count));
    assert(DDROP_MAGIC@ =~= ddrop_magic());
    let mut i: usize = 0;
    while i < files.len()
        invariant
            i <= files@.len(),
            fv == files_view(files@),
            count == fv.len() as u32,
            out@ == ddrop_magic() + be32(count) + entries_bytes(fv.take(i as int)),
        decreases files@.len() - i,
    {
        let nb = files[i].0.as_str().as_bytes();
        #[verifier::truncate]
        let nlen = nb.len() as u16;
        push_all(&mut out, &u16_be(nlen));
        push_all(&mut out, nb);
        #[verifier::truncate]
        let dlen = files[i].1.len() as u64;
        push_all(&mut out, &u64_be(dlen));
        push_all(&mut out, files[i].1.as_slice());
        proof {
            assert(fv[i as int] == file_view(files@[i as int]));
            assert(fv.take(i + 1) =~= fv.take(i as int).push(fv[i as int]));
            lemma_entries_bytes_push(fv.take(i as int), fv[i as int]);
        }
        i += 1;
    }
    assert(fv.take(fv.len() as int) =~= fv);
    out
}

/// The big-endian `u16` at `i`.
pub open spec fn u16_at(b: Seq<u8>, i: int) -> u16 {
    ((b[i] as u16) << 8u16) | (b[i + 1] as u16)
}

/// The big-endian `u32` at `i`.
pub open spec fn u32_at(b: Seq<u8>, i: int) -> u32 {
    ((b[i] as u32) << 24u32) | ((b[i + 1] as u32) << 16u32) | ((b[i + 2] as u32) << 8u32) | (b[i
        + 3] as u32)
}

/// The big-endian `u64` at `i`.
pub open spec fn u64_at(b: Seq<u8>, i: int) -> u64 {
    ((b[i] as u64) << 56u64) | ((b[i + 1] as u64) << 48u64) | ((b[i + 2] as u64) << 40u64) | ((b[i
        + 3] as u64) << 32u64) | ((b[i + 4] as u64) << 24u64) | ((b[i + 5] as u64) << 16u64) | ((b[i
        + 6] as u64) << 8u64) | (b[i + 7] as u64)
}

/// The files of an archive from position `i` on, `count` of them; `None` when the bytes run
/// short, a name is not UTF-8, or a name holds `..`.
pub open spec fn entries_from(b: Seq<u8>, i: nat, count: nat) -> Option<Seq<(Seq<char>, Seq<u8>)>>
    decreases count,
{
    if count == 0 {
        Some(Seq::empty())
    } else if i + 2 > b.len() {
        None
    } else {
        let nlen = u16_at(b, i as int) as nat;
        let j = i + 2;
        if j + nlen + 8 > b.len() {
            None
        } else if !valid_utf8(b.subrange(j as int, (j + nlen) as int)) {
            None
        } else {
            let name = decode_utf8(b.subrange(j as int, (j + nlen) as int));
            let k = j + nlen;
            let dlen = u64_at(b, k as int) as nat;
            let m = k + 8;
            if m + dlen > b.len() {
                None
            } else if has_substring(name, ".."@) {
                None
            } else {
                match entries_from(b, m + dlen, (count - 1) as nat) {
                    Some(rest) => Some(seq![(name, b.subrange(m as int, (m + dlen) as int))] + rest),
                    None => None,
                }
            }
        }
    }
}

/// The files an archive holds; `None` when it is not a well-formed archive.
pub open spec fn archive_files(b: Seq<u8>) -> Option<Seq<(Seq<char>, Seq<u8>)>> {
    if b.len() < 11 || b.take(7) != ddrop_magic() {
        None
    } else {
        entries_from(b, 11, u32_at(b, 7) as nat)
    }
}

/// `rest` after the files already read.
pub open spec fn after(done: Seq<(Seq<char>, Seq<u8>)>, rest: Option<Seq<(Seq<char>, Seq<u8>)>>) -> Option<Seq<(Seq<char>, Seq<u8>)>> {
    match rest {
        Some(r) => Some(done + r),
        None => None,
    }
}

fn read_u16(b: &[u8], i: usize) -> (v: u16)
    requires
        i + 2 <= b@.len(),
    ensures
        v == u16_at(b@, i as int),
{
    ((b[i] as u16) << 8u16) | (b[i + 1] as u16)
}

fn read_u32(b: &[u8], i: usize) -> (v: u32)
    requires
        i + 4 <= b@.len(),
    ensures
        v == u32_at(b@, i as int),
{
    ((b[i] as u32) << 24u32) | ((b[i + 1] as u32) << 16u32) | ((b[i + 2] as u32) << 8u32) | (b[i
        + 3] as u32)
}

fn read_u64(b: &[u8], i: usize) -> (v: u64)
    requires
        i + 8 <= b@.len(),
    ensures
        v == u64_at(b@, i as int),
{
    ((b[i] as u64) << 56u64) | ((b[i + 1] as u64) << 48u64) | ((b[i + 2] as u64) << 40u64) | ((b[i
        + 3] as u64) << 32u64) | ((b[i + 4] as u64) << 24u64) | ((b[i + 5] as u64) << 16u64) | ((b[i
        + 6] as u64) << 8u64) | (b[i + 7] as u64)
}

/// Reads the files of a `.ddrop` archive. Anything but a well-formed archive fails with
/// `Ddp1001InvalidFrame`: a missing magic, bytes that run short, a name that is not UTF-8 or
/// that holds `..`. Bytes after the last file are ignored.
pub fn unpack_ddrop_bytes(bytes: &[u8]) -> (r: DdResult<Vec<(String, Vec<u8>)>>)
    ensures
        match archive_files(bytes@) {
            Some(fs) => r matches Ok(v) && files_view(v@) == fs,
            None => fails_with(r, ErrorCode::Ddp1001InvalidFrame),
        },
{
    let b = bytes;
    if b.len() < 11 || b[0] != 68u8 || b[1] != 68u8 || b[2] != 82u8 || b[3] != 79u8 || b[4] != 80u8
        || b[5] != 49u8 || b[6] != 10u8 {
        proof {
            if b@.len() >= 11 && b@.take(7) == ddrop_magic() {
                assert(b@.take(7)[0] == ddrop_magic()[0]);
                assert(b@.take(7)[1] == ddrop_magic()[1]);
                assert(b@.take(7)[2] == ddrop_magic()[2]);
                assert(b@.take(7)[3] == ddrop_magic()[3]);
                assert(b@.take(7)[4] == ddrop_magic()[4]);
                assert(b@.take(7)[5] == ddrop_magic()[5]);
                assert(b@.take(7)[6] == ddrop_magic()[6]);
            }
        }
        return Err(DdError::invalid_frame(owned("not a .ddrop archive")));
    }
    assert(b@.take(7) =~= ddrop_magic());
    let count = read_u32(b, 7);
    let mut i: usize = 11;
    let mut out: Vec<(String, Vec<u8>)> = Vec::new();
    let mut done: u32 = 0;
    let dots = chars_of("..");
    while done < count
        invariant
            11 <= i <= b@.len(),
            b@ == bytes@,
            done <= count,
            count == u32_at(b@, 7),
            dots@ == ".."@,
            archive_files(b@) == after(files_view(out@), entries_from(b@, i as nat, (count - done) as nat)),
        decreases count - done,
    {
        let ghost n: nat = (count - done) as nat;
        let ghost fo = files_view(out@);
        if b.len() - i < 2 {
            assert(entries_from(b@, i as nat, n) is None);
            return Err(DdError::invalid_frame(owned("truncated ddrop")));
        }
        let nlen = read_u16(b, i) as usize;
        let j = i + 2;
        if nlen + 8 > b.len() - j {
            assert(entries_from(b@, i as nat, n) is None);
            return Err(DdError::invalid_frame(owned("truncated ddrop name")));
        }
        let name_bytes = copy_range(b, j, j + nlen);
        let name = match utf8_text(&name_bytes) {
            Some(s) => s,
            None => {
                assert(entries_from(b@, i as nat, n) is None);
            return Err(DdError::invalid_frame(owned("ddrop name")));
            },
        };
        let k = j + nlen;
        let dlen = read_u64(b, k);
        let m = k + 8;
        if dlen > (b.len() - m) as u64 {
            assert(entries_from(b@, i as nat, n) is None);
            return Err(DdError::invalid_frame(owned("truncated ddrop data")));
        }
        let end = m + dlen as usize;
        let data = copy_range(b, m, end);
        let name_chars = chars_of(name.as_str());
        if has_substring_chars(&name_chars, &dots) {
            assert(entries_from(b@, i as nat, n) is None);
            return Err(DdError::invalid_frame(owned("ddrop path")));
        }
        let ghost e = (name@, data@);
        out.push((name, data));
        proof {
            assert(files_view(out@) =~= fo.push(e));
            let rest = entries_from(b@, end as nat, (n - 1) as nat);
            assert(entries_from(b@, i as nat, n) == after(seq![e], rest));
            match rest {
                Some(r) => {
                    assert(fo + (seq![e] + r) =~= fo.push(e) + r);
                },
                None => {},
            }
        }
        i = end;
        done += 1;
    }
    assert(files_view(out@) + Seq::<(Seq<char>, Seq<u8>)>::empty() =~= files_view(out@));
    Ok(out)
}

/// The files can be packed without losing anything: fewer than 2^32 of them, each name
/// shorter than 2^16 bytes of UTF-8 and free of `..`, each file shorter than 2^64 bytes.
pub open spec fn packable(es: Seq<(Seq<char>, Seq<u8>)>) -> bool {
    &&& es.len() < 0x1_0000_0000
    &&& forall|k: int| 0 <= k < es.len() ==> #[trigger] entry_fits(es[k])
}

/// One file fits its fields and has an acceptable name.
pub open spec fn entry_fits(e: (Seq<char>, Seq<u8>)) -> bool {
    &&& encode_utf8(e.0).len() < 0x1_0000
    &&& e.1.len() < 0x1_0000_0000_0000_0000
    &&& !has_substring(e.0, ".."@)
}

/// Where the fields of one packed file sit, when the file starts at `p.len()`.
proof fn lemma_entry_fields(p: Seq<u8>, e: (Seq<char>, Seq<u8>), r: Seq<u8>)
    requires
        entry_fits(e),
    ensures
        ({
            let b = p + entry_bytes(e) + r;
            let nb = encode_utf8(e.0);
            let i = p.len() as int;
            let k = i + 2 + nb.len();
            &&& u16_at(b, i) as nat == nb.len()
            &&& b.subrange(i + 2, k) == nb
            &&& u64_at(b, k) as nat == e.1.len()
            &&& b.subrange(k + 8, k + 8 + e.1.len()) == e.1
            &&& p + entry_bytes(e) == b.take(k + 8 + e.1.len())
            &&& b.len() == k + 8 + e.1.len() + r.len()
        }),
{
    let b = p + entry_bytes(e) + r;
    let nb = encode_utf8(e.0);
    let i: int = p.len() as int;
    let nl = nb.len() as u16;
    let dl = e.1.len() as u64;
    assert(entry_bytes(e) =~= be16(nl) + nb + be64(dl) + e.1);
    let k: int = i + 2 + nb.len();
    assert(b[i] == be16(nl)[0]);
    assert(b[i + 1] == be16(nl)[1]);
    lemma_u16_bytes(nl, b[i], b[i + 1]);
    assert(b.subrange(i + 2, k) =~= nb);
    assert(b[k] == be64(dl)[0]);
    assert(b[k + 1] == be64(dl)[1]);
    assert(b[k + 2] == be64(dl)[2]);
    assert(b[k + 3] == be64(dl)[3]);
    assert(b[k + 4] == be64(dl)[4]);
    assert(b[k + 5] == be64(dl)[5]);
    assert(b[k + 6] == be64(dl)[6]);
    assert(b[k + 7] == be64(dl)[7]);
    lemma_u64_bytes(dl, b[k], b[k + 1], b[k + 2], b[k + 3], b[k + 4], b[k + 5], b[k + 6], b[k + 7]);
    assert(b.subrange(k + 8, k + 8 + e.1.len()) =~= e.1);
    assert(p + entry_bytes(e) =~= b.take(k + 8 + e.1.len()));
}

#[verifier::spinoff_prover]
#[verifier::rlimit(40)]
proof fn lemma_entries_read_back(p: Seq<u8>, es: Seq<(Seq<char>, Seq<u8>)>, t: Seq<u8>)
    requires
        forall|k: int| 0 <= k < es.len() ==> #[trigger] entry_fits(es[k]),
    ensures
        entries_from(p + entries_bytes(es) + t, p.len(), es.len()) == Some(es),
    decreases es.len(),
{
    if es.len() > 0 {
        let e = es[0];
        assert(entry_fits(e));
        let rest = es.drop_first();
        let r = entries_bytes(rest) + t;
        let b = p + entries_bytes(es) + t;
        assert(b =~= p + entry_bytes(e) + r);
        lemma_entry_fields(p, e, r);
        vstd::utf8::encode_utf8_valid_utf8(e.0);
        vstd::utf8::encode_utf8_decode_utf8(e.0);
        let p2 = p + entry_bytes(e);
        assert forall|q: int| 0 <= q < rest.len() implies #[trigger] entry_fits(rest[q]) by {
            assert(rest[q] == es[q + 1]);
        }
        lemma_entries_read_back(p2, rest, t);
        assert(p2 + entries_bytes(rest) + t =~= b);
        assert(seq![(e.0, e.1)] + rest =~= es);
    }
}

/// An archive reads back as the files it was packed from.
pub proof fn lemma_archive_roundtrip(es: Seq<(Seq<char>, Seq<u8>)>)
    requires
        packable(es),
    ensures
        archive_files(archive_bytes(es)) == Some(es),
{
    let b = archive_bytes(es);
    let n = es.len() as u32;
    let p = ddrop_magic() + be32(n);
    assert(b =~= p + entries_bytes(es) + Seq::<u8>::empty());
    assert(b.take(7) =~= ddrop_magic());
    assert(b[7] == be32(n)[0]);
    assert(b[8] == be32(n)[1]);
    assert(b[9] == be32(n)[2]);
    assert(b[10] == be32(n)[3]);
    lemma_u32_bytes(n, b[7], b[8], b[9], b[10]);
    assert(u32_at(b, 7) == n);
    assert(n as nat == es.len());
    lemma_entries_read_back(p, es, Seq::<u8>::empty());
}

} // verus!
