//! Lower-case hexadecimal text of byte strings.

use crate::error::{coded, DdResult, ErrorCode, fails_with};
use crate::text::{chars_of, char_from_ascii};
use vstd::prelude::*;

verus! {

/// The hex digit of a nibble.
pub open spec fn hex_char(n: u8) -> char {
    if n < 10 {
        ((n as u32) + 48) as char
    } else {
        ((n as u32) + 87) as char
    }
}

/// Lower-case hex text of `b`, two digits per byte.
pub open spec fn hex_of(b: Seq<u8>) -> Seq<char>
    decreases b.len(),
{
    if b.len() == 0 {
        Seq::empty()
    } else {
        hex_of(b.drop_last()) + seq![hex_char(b.last() / 16), hex_char(b.last() % 16)]
    }
}

/// The value of a hex digit (either case).
pub open spec fn hex_val(c: char) -> Option<u8> {
    if '0' <= c && c <= '9' {
        Some(((c as u32) - 48) as u8)
    } else if 'a' <= c && c <= 'f' {
        Some(((c as u32) - 87) as u8)
    } else if 'A' <= c && c <= 'F' {
        Some(((c as u32) - 55) as u8)
    } else {
        None
    }
}

/// The bytes a hex text stands for: an even number of hex digits, high nibble first.
pub open spec fn hex_bytes(s: Seq<char>) -> Option<Seq<u8>>
    decreases s.len(),
{
    if s.len() == 0 {
        Some(Seq::empty())
    } else if s.len() == 1 {
        None
    } else {
        match (hex_bytes(s.take(s.len() - 2)), hex_val(s[s.len() - 2]), hex_val(s.last())) {
            (Some(b), Some(h), Some(l)) => Some(b.push((h * 16 + l) as u8)),
            _ => None,
        }
    }
}

pub proof fn lemma_hex_of_len(b: Seq<u8>)
    ensures
        hex_of(b).len() == 2 * b.len(),
    decreases b.len(),
{
    if b.len() > 0 {
        lemma_hex_of_len(b.drop_last());
    }
}

pub proof fn lemma_hex_char_val(n: u8)
    requires
        n < 16,
    ensures
        hex_val(hex_char(n)) == Some(n),
        hex_char(n) != ':',
{
}

/// Decoding the hex text of a byte string gives back the byte string.
pub proof fn lemma_hex_roundtrip(b: Seq<u8>)
    ensures
        hex_bytes(hex_of(b)) == Some(b),
    decreases b.len(),
{
    if b.len() > 0 {
        let s = hex_of(b);
        lemma_hex_of_len(b);
        lemma_hex_of_len(b.drop_last());
        lemma_hex_roundtrip(b.drop_last());
        assert(s.take(s.len() - 2) =~= hex_of(b.drop_last()));
        lemma_hex_char_val(b.last() / 16);
        lemma_hex_char_val(b.last() % 16);
        assert(b.drop_last().push(b.last()) =~= b);
    }
}

/// A hex text stands for half as many bytes as it has digits.
pub proof fn lemma_hex_bytes_len(s: Seq<char>)
    ensures
        hex_bytes(s) matches Some(b) ==> 2 * b.len() == s.len(),
    decreases s.len(),
{
    if s.len() > 1 {
        lemma_hex_bytes_len(s.take(s.len() - 2));
    }
}

/// Hex digits never contain a colon.
pub proof fn lemma_hex_of_no_colon(b: Seq<u8>)
    ensures
        forall|i: int| 0 <= i < hex_of(b).len() ==> hex_of(b)[i] != ':',
    decreases b.len(),
{
    if b.len() > 0 {
        lemma_hex_of_no_colon(b.drop_last());
        lemma_hex_char_val(b.last() / 16);
        lemma_hex_char_val(b.last() % 16);
        let p = hex_of(b.drop_last());
        let t = seq![hex_char(b.last() / 16), hex_char(b.last() % 16)];
        assert forall|i: int| 0 <= i < hex_of(b).len() implies hex_of(b)[i] != ':' by {
            if i < p.len() {
                assert(hex_of(b)[i] == p[i]);
            } else {
                assert(hex_of(b)[i] == t[i - p.len()]);
            }
        }
    }
}

fn nibble_char(n: u8) -> (c: char)
    requires
        n < 16,
    ensures
        c == hex_char(n),
{
    if n < 10 {
        char_from_ascii(n + 48)
    } else {
        char_from_ascii(n + 87)
    }
}

/// Lower-case hex digits of `b`.
pub fn hex_encode_chars(b: &[u8]) -> (r: Vec<char>)
    ensures
        r@ == hex_of(b@),
{
    let mut r: Vec<char> = Vec::new();
    let mut i: usize = 0;
    while i < b.len()
        invariant
            i <= b@.len(),
            r@ == hex_of(b@.take(i as int)),
        decreases b@.len() - i,
    {
        let x = b[i];
        r.push(nibble_char(x / 16));
        r.push(nibble_char(x % 16));
        i += 1;
        assert(b@.take(i as int).drop_last() =~= b@.take(i - 1));
        assert(r@ =~= hex_of(b@.take(i as int)));
    }
    assert(b@.take(b@.len() as int) =~= b@);
    r
}

/// Lower-case hex text of `b`.
pub fn hex_encode(b: &[u8]) -> (s: String)
    ensures
        s@ == hex_of(b@),
{
    let v = hex_encode_chars(b);
    crate::text::string_of(&v)
}

fn hex_digit_value(c: char) -> (r: Option<u8>)
    ensures
        r == hex_val(c),
{
    if '0' <= c && c <= '9' {
        Some((c as u32 - 48) as u8)
    } else if 'a' <= c && c <= 'f' {
        Some((c as u32 - 87) as u8)
    } else if 'A' <= c && c <= 'F' {
        Some((c as u32 - 55) as u8)
    } else {
        None
    }
}

proof fn lemma_hex_bytes_prefix(s: Seq<char>, k: int)
    requires
        0 <= k,
        2 * k <= s.len(),
    ensures
        hex_bytes(s.take(2 * k)) is None ==> hex_bytes(s.take(2 * k + 2)) is None || 2 * k + 2 > s.len(),
{
    if 2 * k + 2 <= s.len() {
        assert(s.take(2 * k + 2).take(2 * k) =~= s.take(2 * k));
    }
}

proof fn lemma_hex_bytes_none_extends(s: Seq<char>, k: int)
    requires
        0 <= k,
        2 * k <= s.len(),
        s.len() % 2 == 0,
        hex_bytes(s.take(2 * k)) is None,
    ensures
        hex_bytes(s) is None,
    decreases s.len() - 2 * k,
{
    if 2 * k < s.len() {
        lemma_hex_bytes_prefix(s, k);
        lemma_hex_bytes_none_extends(s, k + 1);
    } else {
        assert(s.take(2 * k) =~= s);
    }
}

proof fn lemma_hex_bytes_odd(s: Seq<char>)
    requires
        s.len() % 2 == 1,
    ensures
        hex_bytes(s) is None,
    decreases s.len(),
{
    if s.len() > 1 {
        lemma_hex_bytes_odd(s.take(s.len() - 2));
    }
}

/// The bytes of a hex text; fails with `Ddp1005BadIdentifier` on an odd length or a
/// character that is not a hex digit.
pub fn hex_decode_chars(s: &[char]) -> (r: DdResult<Vec<u8>>)
    ensures
        match r {
            Ok(v) => hex_bytes(s@) == Some(v@),
            Err(_) => hex_bytes(s@) is None && fails_with(r, ErrorCode::Ddp1005BadIdentifier),
        },
{
    if s.len() % 2 != 0 {
        proof {
            lemma_hex_bytes_odd(s@);
        }
        return Err(coded(ErrorCode::Ddp1005BadIdentifier, "hex text has an odd length"));
    }
    let mut out: Vec<u8> = Vec::new();
    let mut k: usize = 0;
    assert(s@.take(0) =~= Seq::<char>::empty());
    while 2 * k < s.len()
        invariant
            2 * k <= s@.len(),
            s@.len() % 2 == 0,
            hex_bytes(s@.take(2 * k)) == Some(out@),
        decreases s@.len() - 2 * k,
    {
        let h = hex_digit_value(s[2 * k]);
        let l = hex_digit_value(s[2 * k + 1]);
        let ghost t = s@.take(2 * k + 2);
        assert(t.take(t.len() - 2) =~= s@.take(2 * k));
        assert(t[t.len() - 2] == s@[2 * k]);
        assert(t.last() == s@[2 * k + 1]);
        match (h, l) {
            (Some(hv), Some(lv)) => {
                out.push(hv * 16 + lv);
            },
            _ => {
                proof {
                    lemma_hex_bytes_none_extends(s@, k + 1);
                }
                return Err(coded(ErrorCode::Ddp1005BadIdentifier, "not a hex digit"));
            },
        }
        k += 1;
    }
    assert(s@.take(2 * k) =~= s@);
    Ok(out)
}

/// The bytes of a hex text (see `hex_decode_chars`).
pub fn hex_decode(s: &str) -> (r: DdResult<Vec<u8>>)
    ensures
        match r {
            Ok(v) => hex_bytes(s@) == Some(v@),
            Err(_) => hex_bytes(s@) is None && fails_with(r, ErrorCode::Ddp1005BadIdentifier),
        },
{
    let v = chars_of(s);
    hex_decode_chars(&v)
}

} // verus!
