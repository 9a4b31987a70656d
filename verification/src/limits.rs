//! Protocol limits.

use vstd::prelude::*;

verus! {

/// Largest frame on the wire, in bytes.
pub const MAX_FRAME_SIZE: u32 = 16777216;

/// Largest Drop body, in bytes.
pub const MAX_DROP_SIZE: u64 = 4294967296;

/// Copies a new Drop may make under spray-and-wait.
pub const DEFAULT_REPLICATION_BUDGET: u32 = 8;

/// Default size of a fixed chunk, in bytes.
pub const FIXED_CHUNK_SIZE: u32 = 524288;

/// Most chunks a manifest may list.
pub const MAX_CHUNKS_PER_MANIFEST: u32 = 65536;

/// Most extensions an envelope may carry.
pub const MAX_EXTENSIONS: usize = 16;

/// Most recipients a Drop may be wrapped for.
pub const MAX_RECIPIENTS: usize = 64;

/// AEAD nonce length, in bytes.
pub const NONCE_LEN: usize = 12;

/// Shortest time to live, in seconds.
pub const MIN_TTL_SECS: u64 = 60;

/// Longest time to live, in seconds.
pub const MAX_TTL_SECS: u64 = 2592000;

/// Time to live when none is asked for, in seconds.
pub const DEFAULT_TTL_SECS: u64 = 604800;

/// Highest hop limit.
pub const MAX_HOP_LIMIT: u8 = 32;

/// Default store size, in bytes.
pub const DEFAULT_STORE_QUOTA: u64 = 21474836480;

} // verus!
