//! Content-addressed identifiers and peer identifiers, with their text forms.

use crate::error::{coded, DdError, DdResult, ErrorCode, err_code, fails_with};
use crate::hexutil::{hex_bytes, hex_encode_chars, hex_decode_chars, hex_of};
use crate::primitives::{blake3_digest, blake3_hash};
use crate::text::{
    chars_eq_str, chars_of, find_char, find_char_in, lower, lower_chars, push_chars, push_str,
    starts_with, starts_with_chars, string_of, sub_chars,
};
use vstd::prelude::*;

verus! {

pub const DIGEST_LEN: usize = 32;

#[derive(Debug, Clone, Copy, PartialEq, Eq, Structural, Hash)]
pub enum HashAlgorithm {
    Blake3,
    Sha256,
}

impl Default for HashAlgorithm {
    fn default() -> (a: Self)
        ensures
            a == HashAlgorithm::Blake3,
    {
        HashAlgorithm::Blake3
    }
}

/// The text code of a hash algorithm.
pub open spec fn alg_code(a: HashAlgorithm) -> Seq<char> {
    match a {
        HashAlgorithm::Blake3 => "b3"@,
        HashAlgorithm::Sha256 => "sha256"@,
    }
}

/// The algorithm a text code names.
pub open spec fn alg_of_code(s: Seq<char>) -> Option<HashAlgorithm> {
    if s == "b3"@ || s == "blake3"@ {
        Some(HashAlgorithm::Blake3)
    } else if s == "sha256"@ {
        Some(HashAlgorithm::Sha256)
    } else {
        None
    }
}

impl HashAlgorithm {
    pub fn code(self) -> (s: &'static str)
        ensures
            s@ == alg_code(self),
    {
        match self {
            Self::Blake3 => "b3",
            Self::Sha256 => "sha256",
        }
    }

    /// `b3` or `blake3` name BLAKE3, `sha256` names SHA-256; anything else fails with
    /// `Ddp1004UnsupportedHash`.
    pub fn parse_code(s: &str) -> (r: DdResult<Self>)
        ensures
            match r {
                Ok(a) => alg_of_code(s@) == Some(a),
                Err(e) => alg_of_code(s@) is None && err_code(e) == ErrorCode::Ddp1004UnsupportedHash,
            },
    {
        let v = chars_of(s);
        parse_code_chars(&v)
    }
}

fn parse_code_chars(s: &[char]) -> (r: DdResult<HashAlgorithm>)
    ensures
        match r {
            Ok(a) => alg_of_code(s@) == Some(a),
            Err(e) => alg_of_code(s@) is None && err_code(e) == ErrorCode::Ddp1004UnsupportedHash,
        },
{
    if chars_eq_str(s, "b3") || chars_eq_str(s, "blake3") {
        Ok(HashAlgorithm::Blake3)
    } else if chars_eq_str(s, "sha256") {
        Ok(HashAlgorithm::Sha256)
    } else {
        Err(coded(ErrorCode::Ddp1004UnsupportedHash, "unknown hash algorithm"))
    }
}

#[derive(Debug, Clone, Copy, PartialEq, Eq, Hash)]
pub struct Digest(pub [u8; 32]);

impl Digest {
    pub fn as_bytes(&self) -> (b: &[u8; 32])
        ensures
            *b == self.0,
    {
        &self.0
    }
}

/// Two 32-byte strings are equal.
pub fn eq_bytes32(a: &[u8; 32], b: &[u8; 32]) -> (r: bool)
    ensures
        r == (a@ == b@),
{
    let mut i: usize = 0;
    while i < 32
        invariant
            i <= 32,
            a@.len() == 32,
            b@.len() == 32,
            forall|k: int| 0 <= k < i ==> a@[k] == b@[k],
        decreases 32 - i,
    {
        if a[i] != b[i] {
            return false;
        }
        i += 1;
    }
    assert(a@ =~= b@);
    true
}

/// A 32-byte array holding the bytes of `v`.
pub fn bytes32(v: &[u8]) -> (a: [u8; 32])
    requires
        v@.len() == 32,
    ensures
        a@ == v@,
{
    let mut a = [0u8; 32];
    let mut i: usize = 0;
    while i < 32
        invariant
            i <= 32,
            v@.len() == 32,
            a@.len() == 32,
            forall|k: int| 0 <= k < i ==> a@[k] == v@[k],
        decreases 32 - i,
    {
        a[i] = v[i];
        i += 1;
    }
    assert(a@ =~= v@);
    a
}

/// `s` split at its first two occurrences of `c` (as `splitn(3, c)`, missing parts empty).
pub open spec fn splitn3(s: Seq<char>, c: char) -> (Seq<char>, Seq<char>, Seq<char>) {
    match find_char(s, c) {
        None => (s, Seq::empty(), Seq::empty()),
        Some(i) => {
            let r = s.skip(i + 1);
            match find_char(r, c) {
                None => (s.take(i), r, Seq::empty()),
                Some(j) => (s.take(i), r.take(j), r.skip(j + 1)),
            }
        },
    }
}

/// Text form `prefix:alg:hex` of a content-addressed identifier.
pub open spec fn id_text(prefix: Seq<char>, alg: HashAlgorithm, d: Seq<u8>) -> Seq<char> {
    prefix + ":"@ + alg_code(alg) + ":"@ + hex_of(d)
}

/// What parsing `prefix:alg:hex` text gives: the algorithm and digest, or the code of the
/// first check that fails (prefix, algorithm, hex, digest length).
pub open spec fn prefixed_outcome(s: Seq<char>, expected: Seq<char>) -> Result<
    (HashAlgorithm, Seq<u8>),
    ErrorCode,
> {
    let (p, a, h) = splitn3(s, ':');
    if p != expected {
        Err(ErrorCode::Ddp1005BadIdentifier)
    } else {
        match alg_of_code(a) {
            None => Err(ErrorCode::Ddp1004UnsupportedHash),
            Some(alg) => match hex_bytes(h) {
                None => Err(ErrorCode::Ddp1005BadIdentifier),
                Some(b) => if b.len() != 32 {
                    Err(ErrorCode::Ddp1005BadIdentifier)
                } else {
                    Ok((alg, b))
                },
            },
        }
    }
}

fn splitn3_chars(s: &[char], c: char) -> (r: (Vec<char>, Vec<char>, Vec<char>))
    ensures
        (r.0@, r.1@, r.2@) == splitn3(s@, c),
{
    match find_char_in(s, c) {
        None => {
            let a = sub_chars(s, 0, s.len());
            assert(a@ =~= s@);
            (a, Vec::new(), Vec::new())
        },
        Some(i) => {
            let n = s.len();
            assert(i < n);
            let first = sub_chars(s, 0, i);
            let rest = sub_chars(s, i + 1, n);
            assert(first@ =~= s@.take(i as int));
            assert(rest@ =~= s@.skip(i + 1));
            match find_char_in(&rest, c) {
                None => (first, rest, Vec::new()),
                Some(j) => {
                    let m = rest.len();
                    assert(j < m);
                    let second = sub_chars(&rest, 0, j);
                    let third = sub_chars(&rest, j + 1, m);
                    assert(second@ =~= rest@.take(j as int));
                    assert(third@ =~= rest@.skip(j + 1));
                    (first, second, third)
                },
            }
        },
    }
}

fn parse_prefixed(s: &str, expected: &str) -> (r: DdResult<(HashAlgorithm, Digest)>)
    ensures
        match r {
            Ok((a, d)) => prefixed_outcome(s@, expected@) == Ok::<_, ErrorCode>((a, d.0@)),
            Err(e) => prefixed_outcome(s@, expected@) == Err::<(HashAlgorithm, Seq<u8>), _>(err_code(e)),
        },
{
    let cs = chars_of(s);
    let (p, a, h) = splitn3_chars(&cs, ':');
    if !chars_eq_str(&p, expected) {
        return Err(coded(ErrorCode::Ddp1005BadIdentifier, "unexpected identifier prefix"));
    }
    let algorithm = parse_code_chars(&a)?;
    let bytes = hex_decode_chars(&h)?;
    if bytes.len() != DIGEST_LEN {
        return Err(coded(ErrorCode::Ddp1005BadIdentifier, "digest must be 32 bytes"));
    }
    Ok((algorithm, Digest(bytes32(&bytes))))
}

fn format_prefixed(prefix: &str, alg: HashAlgorithm, digest: &Digest) -> (s: String)
    ensures
        s@ == id_text(prefix@, alg, digest.0@),
{
    let mut v: Vec<char> = Vec::new();
    push_str(&mut v, prefix);
    push_str(&mut v, ":");
    push_str(&mut v, alg.code());
    push_str(&mut v, ":");
    let h = hex_encode_chars(&digest.0);
    push_chars(&mut v, &h);
    string_of(&v)
}

/// Parsing the text of an identifier gives back its algorithm and digest.
pub proof fn lemma_prefixed_roundtrip(prefix: Seq<char>, alg: HashAlgorithm, d: Seq<u8>)
    requires
        d.len() == 32,
        forall|i: int| 0 <= i < prefix.len() ==> prefix[i] != ':',
    ensures
        prefixed_outcome(id_text(prefix, alg, d), prefix) == Ok::<_, ErrorCode>((alg, d)),
{
    reveal_strlit(":");
    reveal_strlit("b3");
    reveal_strlit("blake3");
    reveal_strlit("sha256");
    let code = alg_code(alg);
    let h = hex_of(d);
    let s = id_text(prefix, alg, d);
    assert(forall|i: int| 0 <= i < code.len() ==> code[i] != ':');
    crate::text::lemma_find_char_concat(prefix, code + ":"@ + h, ':');
    assert(s =~= prefix + seq![':'] + (code + ":"@ + h));
    let r = s.skip(prefix.len() as int + 1);
    assert(r =~= code + seq![':'] + h);
    crate::text::lemma_find_char_concat(code, h, ':');
    assert(s.take(prefix.len() as int) =~= prefix);
    assert(r.take(code.len() as int) =~= code);
    assert(r.skip(code.len() as int + 1) =~= h);
    crate::hexutil::lemma_hex_roundtrip(d);
}

#[derive(Debug, Clone, Copy, PartialEq, Eq, Hash)]
pub struct ContentId {
    pub algorithm: HashAlgorithm,
    pub digest: Digest,
}

impl ContentId {
    pub fn new(algorithm: HashAlgorithm, digest: Digest) -> (r: Self)
        ensures
            r == (ContentId { algorithm, digest }),
    {
        Self { algorithm, digest }
    }

    pub fn blake3(raw: [u8; 32]) -> (r: Self)
        ensures
            r == (ContentId { algorithm: HashAlgorithm::Blake3, digest: Digest(raw) }),
    {
        Self { algorithm: HashAlgorithm::Blake3, digest: Digest(raw) }
    }

    pub fn as_bytes(&self) -> (b: &[u8; 32])
        ensures
            *b == self.digest.0,
    {
        self.digest.as_bytes()
    }

    /// Text form `ddc:<alg>:<64 hex digits>`.
    pub fn to_string(&self) -> (s: String)
        ensures
            s@ == id_text("ddc"@, self.algorithm, self.digest.0@),
    {
        format_prefixed("ddc", self.algorithm, &self.digest)
    }

    /// Parses the text form; errors as `prefixed_outcome` says.
    pub fn parse_str(s: &str) -> (r: DdResult<Self>)
        ensures
            match r {
                Ok(x) => prefixed_outcome(s@, "ddc"@) == Ok::<_, ErrorCode>((x.algorithm, x.digest.0@)),
                Err(e) => prefixed_outcome(s@, "ddc"@) == Err::<(HashAlgorithm, Seq<u8>), _>(err_code(e)),
            },
    {
        let (algorithm, digest) = parse_prefixed(s, "ddc")?;
        Ok(Self { algorithm, digest })
    }
}

impl core::str::FromStr for ContentId {
    type Err = DdError;

    /// Parses the text form, as `parse_str` does.
    fn from_str(s: &str) -> (r: DdResult<Self>)
        ensures
            match r {
                Ok(x) => prefixed_outcome(s@, "ddc"@) == Ok::<_, ErrorCode>((x.algorithm, x.digest.0@)),
                Err(e) => prefixed_outcome(s@, "ddc"@) == Err::<(HashAlgorithm, Seq<u8>), _>(err_code(e)),
            },
    {
        Self::parse_str(s)
    }
}

/// Parsing the text form of a `ContentId` gives back the same identifier.
pub proof fn lemma_content_id_text_roundtrip(x: ContentId)
    ensures
        prefixed_outcome(id_text("ddc"@, x.algorithm, x.digest.0@), "ddc"@) == Ok::<_, ErrorCode>(
            (x.algorithm, x.digest.0@),
        ),
{
    reveal_strlit("ddc");
    lemma_prefixed_roundtrip("ddc"@, x.algorithm, x.digest.0@);
}

#[derive(Debug, Clone, Copy, PartialEq, Eq, Hash)]
pub struct ObjectId {
    pub algorithm: HashAlgorithm,
    pub digest: Digest,
}

impl ObjectId {
    pub fn new(algorithm: HashAlgorithm, digest: Digest) -> (r: Self)
        ensures
            r == (ObjectId { algorithm, digest }),
    {
        Self { algorithm, digest }
    }

    pub fn blake3(raw: [u8; 32]) -> (r: Self)
        ensures
            r == (ObjectId { algorithm: HashAlgorithm::Blake3, digest: Digest(raw) }),
    {
        Self { algorithm: HashAlgorithm::Blake3, digest: Digest(raw) }
    }

    pub fn as_bytes(&self) -> (b: &[u8; 32])
        ensures
            *b == self.digest.0,
    {
        self.digest.as_bytes()
    }

    /// Text form `ddo:<alg>:<64 hex digits>`.
    pub fn to_string(&self) -> (s: String)
        ensures
            s@ == id_text("ddo"@, self.algorithm, self.digest.0@),
    {
        format_prefixed("ddo", self.algorithm, &self.digest)
    }

    /// Parses the text form; errors as `prefixed_outcome` says.
    pub fn parse_str(s: &str) -> (r: DdResult<Self>)
        ensures
            match r {
                Ok(x) => prefixed_outcome(s@, "ddo"@) == Ok::<_, ErrorCode>((x.algorithm, x.digest.0@)),
                Err(e) => prefixed_outcome(s@, "ddo"@) == Err::<(HashAlgorithm, Seq<u8>), _>(err_code(e)),
            },
    {
        let (algorithm, digest) = parse_prefixed(s, "ddo")?;
        Ok(Self { algorithm, digest })
    }
}

impl core::str::FromStr for ObjectId {
    type Err = DdError;

    /// Parses the text form, as `parse_str` does.
    fn from_str(s: &str) -> (r: DdResult<Self>)
        ensures
            match r {
                Ok(x) => prefixed_outcome(s@, "ddo"@) == Ok::<_, ErrorCode>((x.algorithm, x.digest.0@)),
                Err(e) => prefixed_outcome(s@, "ddo"@) == Err::<(HashAlgorithm, Seq<u8>), _>(err_code(e)),
            },
    {
        Self::parse_str(s)
    }
}

/// Parsing the text form of a `ObjectId` gives back the same identifier.
pub proof fn lemma_object_id_text_roundtrip(x: ObjectId)
    ensures
        prefixed_outcome(id_text("ddo"@, x.algorithm, x.digest.0@), "ddo"@) == Ok::<_, ErrorCode>(
            (x.algorithm, x.digest.0@),
        ),
{
    reveal_strlit("ddo");
    lemma_prefixed_roundtrip("ddo"@, x.algorithm, x.digest.0@);
}

#[derive(Debug, Clone, Copy, PartialEq, Eq, Hash)]
pub struct ChunkId {
    pub algorithm: HashAlgorithm,
    pub digest: Digest,
}

impl ChunkId {
    pub fn new(algorithm: HashAlgorithm, digest: Digest) -> (r: Self)
        ensures
            r == (ChunkId { algorithm, digest }),
    {
        Self { algorithm, digest }
    }

    pub fn blake3(raw: [u8; 32]) -> (r: Self)
        ensures
            r == (ChunkId { algorithm: HashAlgorithm::Blake3, digest: Digest(raw) }),
    {
        Self { algorithm: HashAlgorithm::Blake3, digest: Digest(raw) }
    }

    pub fn as_bytes(&self) -> (b: &[u8; 32])
        ensures
            *b == self.digest.0,
    {
        self.digest.as_bytes()
    }

    /// Text form `ddk:<alg>:<64 hex digits>`.
    pub fn to_string(&self) -> (s: String)
        ensures
            s@ == id_text("ddk"@, self.algorithm, self.digest.0@),
    {
        format_prefixed("ddk", self.algorithm, &self.digest)
    }

    /// Parses the text form; errors as `prefixed_outcome` says.
    pub fn parse_str(s: &str) -> (r: DdResult<Self>)
        ensures
            match r {
                Ok(x) => prefixed_outcome(s@, "ddk"@) == Ok::<_, ErrorCode>((x.algorithm, x.digest.0@)),
                Err(e) => prefixed_outcome(s@, "ddk"@) == Err::<(HashAlgorithm, Seq<u8>), _>(err_code(e)),
            },
    {
        let (algorithm, digest) = parse_prefixed(s, "ddk")?;
        Ok(Self { algorithm, digest })
    }
}

impl core::str::FromStr for ChunkId {
    type Err = DdError;

    /// Parses the text form, as `parse_str` does.
    fn from_str(s: &str) -> (r: DdResult<Self>)
        ensures
            match r {
                Ok(x) => prefixed_outcome(s@, "ddk"@) == Ok::<_, ErrorCode>((x.algorithm, x.digest.0@)),
                Err(e) => prefixed_outcome(s@, "ddk"@) == Err::<(HashAlgorithm, Seq<u8>), _>(err_code(e)),
            },
    {
        Self::parse_str(s)
    }
}

/// Parsing the text form of a `ChunkId` gives back the same identifier.
pub proof fn lemma_chunk_id_text_roundtrip(x: ChunkId)
    ensures
        prefixed_outcome(id_text("ddk"@, x.algorithm, x.digest.0@), "ddk"@) == Ok::<_, ErrorCode>(
            (x.algorithm, x.digest.0@),
        ),
{
    reveal_strlit("ddk");
    lemma_prefixed_roundtrip("ddk"@, x.algorithm, x.digest.0@);
}

#[derive(Debug, Clone, Copy, PartialEq, Eq, Hash)]
pub struct ManifestId {
    pub algorithm: HashAlgorithm,
    pub digest: Digest,
}

impl ManifestId {
    pub fn new(algorithm: HashAlgorithm, digest: Digest) -> (r: Self)
        ensures
            r == (ManifestId { algorithm, digest }),
    {
        Self { algorithm, digest }
    }

    pub fn blake3(raw: [u8; 32]) -> (r: Self)
        ensures
            r == (ManifestId { algorithm: HashAlgorithm::Blake3, digest: Digest(raw) }),
    {
        Self { algorithm: HashAlgorithm::Blake3, digest: Digest(raw) }
    }

    pub fn as_bytes(&self) -> (b: &[u8; 32])
        ensures
            *b == self.digest.0,
    {
        self.digest.as_bytes()
    }

    /// Text form `ddm:<alg>:<64 hex digits>`.
    pub fn to_string(&self) -> (s: String)
        ensures
            s@ == id_text("ddm"@, self.algorithm, self.digest.0@),
    {
        format_prefixed("ddm", self.algorithm, &self.digest)
    }

    /// Parses the text form; errors as `prefixed_outcome` says.
    pub fn parse_str(s: &str) -> (r: DdResult<Self>)
        ensures
            match r {
                Ok(x) => prefixed_outcome(s@, "ddm"@) == Ok::<_, ErrorCode>((x.algorithm, x.digest.0@)),
                Err(e) => prefixed_outcome(s@, "ddm"@) == Err::<(HashAlgorithm, Seq<u8>), _>(err_code(e)),
            },
    {
        let (algorithm, digest) = parse_prefixed(s, "ddm")?;
        Ok(Self { algorithm, digest })
    }
}

impl core::str::FromStr for ManifestId {
    type Err = DdError;

    /// Parses the text form, as `parse_str` does.
    fn from_str(s: &str) -> (r: DdResult<Self>)
        ensures
            match r {
                Ok(x) => prefixed_outcome(s@, "ddm"@) == Ok::<_, ErrorCode>((x.algorithm, x.digest.0@)),
                Err(e) => prefixed_outcome(s@, "ddm"@) == Err::<(HashAlgorithm, Seq<u8>), _>(err_code(e)),
            },
    {
        Self::parse_str(s)
    }
}

/// Parsing the text form of a `ManifestId` gives back the same identifier.
pub proof fn lemma_manifest_id_text_roundtrip(x: ManifestId)
    ensures
        prefixed_outcome(id_text("ddm"@, x.algorithm, x.digest.0@), "ddm"@) == Ok::<_, ErrorCode>(
            (x.algorithm, x.digest.0@),
        ),
{
    reveal_strlit("ddm");
    lemma_prefixed_roundtrip("ddm"@, x.algorithm, x.digest.0@);
}

/// Cryptographic node identifier. Text form: `dd:` and the 64 hex digits of the digest.
#[derive(Debug, Clone, Copy, PartialEq, Eq, Hash)]
pub struct PeerId(pub [u8; 32]);

/// Text form of a peer identifier.
pub open spec fn peer_text(d: Seq<u8>) -> Seq<char> {
    "dd:"@ + hex_of(d)
}

/// What parsing a peer identifier's text gives: its digest, or the failure's code.
pub open spec fn peer_outcome(s: Seq<char>) -> Result<Seq<u8>, ErrorCode> {
    if !starts_with(s, "dd:"@) {
        Err(ErrorCode::Ddp1005BadIdentifier)
    } else {
        let rest = s.skip(3);
        if rest.len() != 64 {
            Err(ErrorCode::Ddp1005BadIdentifier)
        } else {
            match hex_bytes(rest) {
                None => Err(ErrorCode::Ddp1005BadIdentifier),
                Some(b) => Ok(b),
            }
        }
    }
}

impl PeerId {
    pub fn from_digest(d: [u8; 32]) -> (p: Self)
        ensures
            p.0 == d,
    {
        Self(d)
    }

    pub fn as_bytes(&self) -> (b: &[u8; 32])
        ensures
            *b == self.0,
    {
        &self.0
    }

    /// The two identifiers are the same.
    pub fn same(&self, other: &PeerId) -> (r: bool)
        ensures
            r == (*self == *other),
    {
        let r = eq_bytes32(&self.0, &other.0);
        proof {
            if r {
                assert(self.0 =~= other.0);
            }
        }
        r
    }

    /// `dd:`, the hex of the first four bytes, and an ellipsis.
    pub fn short(&self) -> (s: String)
        ensures
            s@ == "dd:"@ + hex_of(self.0@.take(4)) + "\u{2026}"@,
    {
        let mut v: Vec<char> = Vec::new();
        push_str(&mut v, "dd:");
        let head = [self.0[0], self.0[1], self.0[2], self.0[3]];
        assert(head@ =~= self.0@.take(4));
        let h = hex_encode_chars(&head);
        push_chars(&mut v, &h);
        push_str(&mut v, "\u{2026}");
        string_of(&v)
    }

    pub fn to_string(&self) -> (s: String)
        ensures
            s@ == peer_text(self.0@),
    {
        let mut v: Vec<char> = Vec::new();
        push_str(&mut v, "dd:");
        let h = hex_encode_chars(&self.0);
        push_chars(&mut v, &h);
        string_of(&v)
    }

    /// Parses `dd:` and 64 hex digits; everything else fails with `Ddp1005BadIdentifier`.
    pub fn parse_str(s: &str) -> (r: DdResult<Self>)
        ensures
            match r {
                Ok(p) => peer_outcome(s@) == Ok::<_, ErrorCode>(p.0@),
                Err(e) => peer_outcome(s@) == Err::<Seq<u8>, _>(err_code(e)),
            },
    {
        let cs = chars_of(s);
        let pre = chars_of("dd:");
        if !starts_with_chars(&cs, &pre) {
            return Err(coded(ErrorCode::Ddp1005BadIdentifier, "peer id must start with dd:"));
        }
        proof {
            reveal_strlit("dd:");
        }
        let rest = sub_chars(&cs, 3, cs.len());
        assert(rest@ =~= s@.skip(3));
        if rest.len() != 64 {
            return Err(
                coded(
                    ErrorCode::Ddp1005BadIdentifier,
                    "peer id must be dd: plus 64 hex characters",
                ),
            );
        }
        let bytes = hex_decode_chars(&rest)?;
        proof {
            crate::hexutil::lemma_hex_bytes_len(rest@);
        }
        Ok(Self(bytes32(&bytes)))
    }
}

impl core::str::FromStr for PeerId {
    type Err = DdError;

    /// Parses `dd:` and 64 hex digits, as `parse_str` does.
    fn from_str(s: &str) -> (r: DdResult<Self>)
        ensures
            match r {
                Ok(p) => peer_outcome(s@) == Ok::<_, ErrorCode>(p.0@),
                Err(e) => peer_outcome(s@) == Err::<Seq<u8>, _>(err_code(e)),
            },
    {
        Self::parse_str(s)
    }
}

/// Parsing the text form of a peer identifier gives back the same identifier.
pub proof fn lemma_peer_id_text_roundtrip(p: PeerId)
    ensures
        peer_outcome(peer_text(p.0@)) == Ok::<_, ErrorCode>(p.0@),
{
    reveal_strlit("dd:");
    let s = peer_text(p.0@);
    assert(s.take(3) =~= "dd:"@);
    assert(s.skip(3) =~= hex_of(p.0@));
    crate::hexutil::lemma_hex_of_len(p.0@);
    crate::hexutil::lemma_hex_roundtrip(p.0@);
}

/// The daily rotating discovery identifier: BLAKE3 of a tag, the peer and the day number.
pub open spec fn ephemeral_id_of(peer: Seq<u8>, now: u64) -> Seq<u8> {
    blake3_digest(crate::text::ascii_bytes("ddp-eph-v1"@) + peer + crate::crypto::be64((now / 86400) as u64))
}

/// Daily rotating discovery identifier. Does not replace the cryptographic PeerId.
pub fn ephemeral_discovery_id(peer: PeerId, now: u64) -> (r: PeerId)
    ensures
        r.0@ == ephemeral_id_of(peer.0@, now),
{
    let day = now / 86400;
    let mut buf = crate::text::ascii_bytes_of("ddp-eph-v1");
    crate::text::push_all(&mut buf, &peer.0);
    let be = crate::crypto::u64_be(day);
    crate::text::push_all(&mut buf, &be);
    PeerId::from_digest(blake3_hash(&buf))
}

/// The peer's hex digits start with the given prefix, compared in lower case.
pub fn peer_id_matches_prefix(id: &PeerId, prefix_hex: &str) -> (b: bool)
    ensures
        b == starts_with(hex_of(id.0@), lower(prefix_hex@)),
{
    let full = hex_encode_chars(&id.0);
    let pre = chars_of(prefix_hex);
    let low = lower_chars(&pre);
    starts_with_chars(&full, &low)
}

} // verus!
