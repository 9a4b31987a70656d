//! The application-facing API: how a node handle is configured, who a message goes to, and
//! how erasure coding is asked for. Opening the node itself is the application's work.

use crate::chunk::erasure::ErasureSpec;
use crate::mode::NodeMode;
use vstd::prelude::*;

verus! {

/// Configures a node handle: its data directory (the default one when unset) and a mode that
/// overrides the configured one.
#[derive(Debug, Clone)]
pub struct DeadDropBuilder {
    pub dir: Option<String>,
    pub mode: Option<NodeMode>,
}

impl DeadDropBuilder {
    pub fn new() -> (b: Self)
        ensures
            b.dir is None,
            b.mode is None,
    {
        DeadDropBuilder { dir: None, mode: None }
    }

    /// Uses `p` as the data directory.
    pub fn data_dir(self, p: String) -> (b: Self)
        ensures
            b.dir == Some(p),
            b.mode == self.mode,
    {
        DeadDropBuilder { dir: Some(p), mode: self.mode }
    }

    /// Runs the node in `mode`.
    pub fn mode(self, mode: NodeMode) -> (b: Self)
        ensures
            b.dir == self.dir,
            b.mode == Some(mode),
    {
        DeadDropBuilder { dir: self.dir, mode: Some(mode) }
    }
}

impl Default for DeadDropBuilder {
    fn default() -> (b: Self)
        ensures
            b.dir is None,
            b.mode is None,
    {
        Self::new()
    }
}

/// A recipient: a contact name or an identifier prefix.
#[derive(Debug, Clone)]
pub struct Recipient(pub String);

impl Recipient {
    pub fn from(s: String) -> (r: Self)
        ensures
            r.0 == s,
    {
        Recipient(s)
    }
}

/// Erasure coding with `data_shards` data and `parity_shards` parity shards.
pub fn erasure(data_shards: u32, parity_shards: u32) -> (e: ErasureSpec)
    ensures
        e == (ErasureSpec { data_shards, parity_shards }),
{
    ErasureSpec { data_shards, parity_shards }
}

} // verus!
