//! How far a contact is trusted.

use vstd::prelude::*;

verus! {

/// Contact trust. Discovery never implies `Known` or `Verified`.
#[derive(Debug, Clone, Copy, PartialEq, Eq, Hash, Structural)]
pub enum TrustState {
    Unknown,
    Observed,
    Known,
    Verified,
    Blocked,
}

impl Default for TrustState {
    fn default() -> (t: Self)
        ensures
            t == TrustState::Unknown,
    {
        TrustState::Unknown
    }
}

} // verus!
