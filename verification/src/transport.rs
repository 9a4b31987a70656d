//! Stream transports as the protocol sees them: a name and what the link provides.
//! Connecting is the application's work.

use vstd::prelude::*;

verus! {

/// What a transport provides on its own.
#[derive(Debug, Clone, Copy, PartialEq, Eq, Structural)]
pub struct TransportCaps {
    pub encrypted: bool,
    pub multiplex: bool,
    pub migration: bool,
}

/// Plain TCP streams; the session layer encrypts.
#[derive(Debug, Clone, Copy)]
pub struct TcpTransport;

impl TcpTransport {
    pub fn name(&self) -> (s: &'static str)
        ensures
            s@ == "tcp"@,
    {
        "tcp"
    }

    /// TCP provides no encryption, multiplexing or migration.
    pub fn capabilities(&self) -> (c: TransportCaps)
        ensures
            c == (TransportCaps { encrypted: false, multiplex: false, migration: false }),
    {
        TransportCaps { encrypted: false, multiplex: false, migration: false }
    }
}

} // verus!
