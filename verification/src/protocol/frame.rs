//! Framing on a byte stream: each frame is its payload's length as a big-endian `u32`
//! followed by the payload, and no frame (nor any encoded object) is larger than
//! `MAX_FRAME_SIZE`.

use crate::crypto::{be32, lemma_u32_bytes, u32_be};
use crate::error::{coded, fails_with, DdResult, ErrorCode};
use crate::limits::MAX_FRAME_SIZE;
use vstd::prelude::*;

verus! {

/// An object of `len` bytes fits in a frame. The length is taken modulo 2^32, as the wire
/// field holds it.
pub open spec fn fits_frame(len: nat) -> bool {
    (len as u32) <= MAX_FRAME_SIZE
}

/// Checks that `len` bytes fit in a frame; fails with `Ddp1006LimitExceeded` otherwise.
pub fn check_frame_size(len: usize) -> (r: DdResult<()>)
    ensures
        fits_frame(len as nat) ==> r is Ok,
        !fits_frame(len as nat) ==> fails_with(r, ErrorCode::Ddp1006LimitExceeded),
{
    #[verifier::truncate]
    let n = len as u32;
    if n > MAX_FRAME_SIZE {
        return Err(coded(ErrorCode::Ddp1006LimitExceeded, "frame too large"));
    }
    Ok(())
}

/// The four bytes that announce a payload of `len` bytes.
pub fn frame_prefix(len: usize) -> (r: DdResult<[u8; 4]>)
    ensures
        fits_frame(len as nat) ==> (r matches Ok(p) && p@ == be32(len as u32)),
        !fits_frame(len as nat) ==> fails_with(r, ErrorCode::Ddp1006LimitExceeded),
{
    check_frame_size(len)?;
    #[verifier::truncate]
    let n = len as u32;
    Ok(u32_be(n))
}

/// The payload length a frame announces; fails with `Ddp1006LimitExceeded` when it is over
/// `MAX_FRAME_SIZE`.
pub fn announced_len(prefix: [u8; 4]) -> (r: DdResult<u32>)
    ensures
        ({
            let n = ((prefix@[0] as u32) << 24u32) | ((prefix@[1] as u32) << 16u32) | ((prefix@[2] as u32)
                << 8u32) | (prefix@[3] as u32);
            &&& n <= MAX_FRAME_SIZE ==> r == Ok::<u32, crate::error::DdError>(n)
            &&& n > MAX_FRAME_SIZE ==> fails_with(r, ErrorCode::Ddp1006LimitExceeded)
        }),
{
    let n = ((prefix[0] as u32) << 24u32) | ((prefix[1] as u32) << 16u32) | ((prefix[2] as u32) << 8u32)
        | (prefix[3] as u32);
    if n > MAX_FRAME_SIZE {
        return Err(coded(ErrorCode::Ddp1006LimitExceeded, "frame too large"));
    }
    Ok(n)
}

/// A frame's prefix announces the length it was made for.
pub proof fn lemma_prefix_announces(len: usize)
    requires
        len <= MAX_FRAME_SIZE,
    ensures
        fits_frame(len as nat),
        ({
            let p = be32(len as u32);
            ((p[0] as u32) << 24u32) | ((p[1] as u32) << 16u32) | ((p[2] as u32) << 8u32) | (p[3] as u32)
                == len
        }),
{
    let n = len as u32;
    let p = be32(n);
    lemma_u32_bytes(n, p[0], p[1], p[2], p[3]);
}

} // verus!
