//! Counters of what a node has done: peers found, sessions, Drops made, delivered and relayed,
//! chunks and bytes moved, routing decisions, failed handshakes and expiries.

use vstd::prelude::*;

verus! {

/// Running counters.
#[derive(Debug, Clone, Copy, PartialEq, Eq, Structural)]
pub struct Metrics {
    pub peers_discovered: u64,
    pub active_sessions: u64,
    pub drops_created: u64,
    pub drops_delivered: u64,
    pub drops_relayed: u64,
    pub chunks_transferred: u64,
    pub bytes_transferred: u64,
    pub route_decisions: u64,
    pub failed_auth: u64,
    pub expired: u64,
}

/// The counters' values at one moment.
#[derive(Debug, Clone, Copy, PartialEq, Eq, Structural)]
pub struct MetricsSnap {
    pub peers_discovered: u64,
    pub active_sessions: u64,
    pub drops_created: u64,
    pub drops_delivered: u64,
    pub drops_relayed: u64,
    pub chunks_transferred: u64,
    pub bytes_transferred: u64,
    pub route_decisions: u64,
    pub failed_auth: u64,
    pub expired: u64,
}

impl Default for Metrics {
    fn default() -> (m: Self)
        ensures
            m == (Metrics {
                peers_discovered: 0,
                active_sessions: 0,
                drops_created: 0,
                drops_delivered: 0,
                drops_relayed: 0,
                chunks_transferred: 0,
                bytes_transferred: 0,
                route_decisions: 0,
                failed_auth: 0,
                expired: 0,
            }),
    {
        Metrics {
            peers_discovered: 0,
            active_sessions: 0,
            drops_created: 0,
            drops_delivered: 0,
            drops_relayed: 0,
            chunks_transferred: 0,
            bytes_transferred: 0,
            route_decisions: 0,
            failed_auth: 0,
            expired: 0,
        }
    }
}

impl Metrics {
    /// The counters' current values.
    pub fn snapshot(&self) -> (s: MetricsSnap)
        ensures
            s == (MetricsSnap {
                peers_discovered: self.peers_discovered,
                active_sessions: self.active_sessions,
                drops_created: self.drops_created,
                drops_delivered: self.drops_delivered,
                drops_relayed: self.drops_relayed,
                chunks_transferred: self.chunks_transferred,
                bytes_transferred: self.bytes_transferred,
                route_decisions: self.route_decisions,
                failed_auth: self.failed_auth,
                expired: self.expired,
            }),
    {
        MetricsSnap {
            peers_discovered: self.peers_discovered,
            active_sessions: self.active_sessions,
            drops_created: self.drops_created,
            drops_delivered: self.drops_delivered,
            drops_relayed: self.drops_relayed,
            chunks_transferred: self.chunks_transferred,
            bytes_transferred: self.bytes_transferred,
            route_decisions: self.route_decisions,
            failed_auth: self.failed_auth,
            expired: self.expired,
        }
    }
}

} // verus!
