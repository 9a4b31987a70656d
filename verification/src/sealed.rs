//! Sealed Drops: application policy until a condition holds.
//!
//! `dd.seal-until` is **not** a cryptographic time-lock. Honest nodes refuse to decrypt
//! before `until`. A dishonest recipient who already has the content-key wrap can ignore
//! the extension. Prefer key-release / quorum receipts when available.

use crate::envelope::{DropEnvelope, Extension};
use crate::error::{coded, fails_with, DdResult, ErrorCode};
use crate::text::{chars_eq_str, chars_of};
use vstd::prelude::*;

verus! {

pub const SEAL_UNTIL_EXT: &'static str = "dd.seal-until";

pub const SEAL_QUORUM_EXT: &'static str = "dd.seal-quorum";

/// The number whose big-endian bytes are `d`.
pub open spec fn be_value(d: Seq<u8>) -> nat
    decreases d.len(),
{
    if d.len() == 0 {
        0
    } else {
        be_value(d.drop_last()) * 256 + d.last() as nat
    }
}

/// Position of the first extension named `name`, searching from `i`.
pub open spec fn first_named(exts: Seq<Extension>, name: Seq<char>, i: nat) -> Option<nat>
    decreases exts.len() - i,
{
    if i >= exts.len() {
        None
    } else if exts[i as int].name@ == name {
        Some(i)
    } else {
        first_named(exts, name, i + 1)
    }
}

proof fn lemma_first_named(exts: Seq<Extension>, name: Seq<char>, i: nat)
    ensures
        first_named(exts, name, i) matches Some(k) ==> i <= k < exts.len() && exts[k as int].name@
            == name,
    decreases exts.len() - i,
{
    if i < exts.len() && exts[i as int].name@ != name {
        lemma_first_named(exts, name, i + 1);
    }
}

/// The number carried by the first extension named `name`, when its data is `len` bytes.
pub open spec fn ext_number(exts: Seq<Extension>, name: Seq<char>, len: nat) -> Option<nat> {
    match first_named(exts, name, 0) {
        None => None,
        Some(i) => if exts[i as int].data@.len() == len {
            Some(be_value(exts[i as int].data@))
        } else {
            None
        },
    }
}

/// 256 to the power `n`.
pub open spec fn byte_pow(n: nat) -> nat
    decreases n,
{
    if n == 0 {
        1
    } else {
        256 * byte_pow((n - 1) as nat)
    }
}

pub proof fn lemma_be_value_bound(d: Seq<u8>)
    ensures
        be_value(d) < byte_pow(d.len()),
    decreases d.len(),
{
    if d.len() > 0 {
        lemma_be_value_bound(d.drop_last());
        let p = byte_pow((d.len() - 1) as nat);
        let v = be_value(d.drop_last());
        assert(v * 256 + d.last() < p * 256) by (nonlinear_arith)
            requires
                v < p,
                d.last() < 256,
        ;
    }
}

pub proof fn lemma_byte_pow_mono(i: nat, j: nat)
    requires
        i <= j,
    ensures
        byte_pow(i) <= byte_pow(j),
    decreases j - i,
{
    if i < j {
        lemma_byte_pow_mono(i, (j - 1) as nat);
    }
}

/// Index of the first extension whose name is `name`.
fn find_named(exts: &Vec<Extension>, name: &str) -> (r: Option<usize>)
    ensures
        r matches Some(i) ==> first_named(exts@, name@, 0) == Some(i as nat) && i < exts@.len(),
        r is None ==> first_named(exts@, name@, 0) is None,
{
    proof {
        lemma_first_named(exts@, name@, 0);
    }
    let mut i: usize = 0;
    while i < exts.len()
        invariant
            i <= exts@.len(),
            first_named(exts@, name@, 0) == first_named(exts@, name@, i as nat),
        decreases exts@.len() - i,
    {
        let cs = chars_of(exts[i].name.as_str());
        if chars_eq_str(&cs, name) {
            return Some(i);
        }
        i += 1;
    }
    None
}

/// The big-endian number in `d` (at most 8 bytes).
fn read_be(d: &Vec<u8>) -> (v: u64)
    requires
        d@.len() <= 8,
    ensures
        v == be_value(d@),
{
    let mut v: u64 = 0;
    let mut i: usize = 0;
    while i < d.len()
        invariant
            i <= d@.len() <= 8,
            v == be_value(d@.take(i as int)),
        decreases d@.len() - i,
    {
        proof {
            lemma_be_value_bound(d@.take(i as int));
            lemma_byte_pow_mono(i as nat, 7);
            reveal_with_fuel(byte_pow, 8);
            let t = d@.take(i + 1);
            assert(t.drop_last() =~= d@.take(i as int));
        }
        v = v * 256 + d[i] as u64;
        i += 1;
    }
    assert(d@.take(d@.len() as int) =~= d@);
    v
}

/// The time before which the Drop stays sealed, from its first `dd.seal-until` extension when
/// that carries 8 bytes.
pub fn seal_until(env: &DropEnvelope) -> (r: Option<u64>)
    ensures
        match ext_number(env.extensions@, SEAL_UNTIL_EXT@, 8) {
            Some(v) => r == Some(v as u64),
            None => r is None,
        },
{
    match find_named(&env.extensions, SEAL_UNTIL_EXT) {
        None => None,
        Some(i) => {
            if env.extensions[i].data.len() == 8 {
                Some(read_be(&env.extensions[i].data))
            } else {
                None
            }
        },
    }
}

/// The number of receipts the Drop waits for, from its first `dd.seal-quorum` extension when
/// that carries 4 bytes.
pub fn seal_quorum(env: &DropEnvelope) -> (r: Option<u32>)
    ensures
        match ext_number(env.extensions@, SEAL_QUORUM_EXT@, 4) {
            Some(v) => r == Some(v as u32),
            None => r is None,
        },
{
    match find_named(&env.extensions, SEAL_QUORUM_EXT) {
        None => None,
        Some(i) => {
            if env.extensions[i].data.len() == 4 {
                let v = read_be(&env.extensions[i].data);
                proof {
                    lemma_be_value_bound(env.extensions@[i as int].data@);
                    reveal_with_fuel(byte_pow, 5);
                }
                Some(v as u32)
            } else {
                None
            }
        },
    }
}

/// The seal conditions of an envelope that are not met at `now` with `receipt_issuers`
/// distinct receipts: still before its seal time, or short of its quorum.
pub open spec fn still_sealed(env: DropEnvelope, now: u64, receipt_issuers: u32) -> bool {
    (ext_number(env.extensions@, SEAL_UNTIL_EXT@, 8) matches Some(u) && now < (u as u64))
        || (ext_number(env.extensions@, SEAL_QUORUM_EXT@, 4) matches Some(q) && receipt_issuers < (q as u32))
}

/// Fails with `Ddp1009Sealed` while the Drop's seal holds: before its seal time, or with
/// fewer distinct receipts than its quorum. A policy, not a cryptographic time-lock.
pub fn enforce(env: &DropEnvelope, now: u64, receipt_issuers: u32) -> (r: DdResult<()>)
    ensures
        r is Ok <==> !still_sealed(*env, now, receipt_issuers),
        r is Err ==> fails_with(r, ErrorCode::Ddp1009Sealed),
{
    match seal_until(env) {
        Some(until) => {
            if now < until {
                return Err(coded(ErrorCode::Ddp1009Sealed, "sealed until a later time (policy; not a crypto time-lock)"));
            }
        },
        None => {},
    }
    match seal_quorum(env) {
        Some(need) => {
            if receipt_issuers < need {
                return Err(coded(ErrorCode::Ddp1009Sealed, "sealed until enough receipts arrive"));
            }
        },
        None => {},
    }
    Ok(())
}

} // verus!
