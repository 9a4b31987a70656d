//! Where Drops and sessions stand, who holds a Drop, and what a receipt reports.

use vstd::prelude::*;

verus! {

#[derive(Debug, Clone, Copy, PartialEq, Eq, Hash, Structural)]
pub enum DropState {
    Created,
    Stored,
    Queued,
    Offered,
    PartiallyTransferred,
    Forwarded,
    Delivered,
    Expired,
    Rejected,
    GarbageCollected,
}

#[derive(Debug, Clone, Copy, PartialEq, Eq, Hash, Structural)]
pub enum SessionState {
    Disconnected,
    TransportConnected,
    Negotiating,
    Authenticated,
    InventorySync,
    Transferring,
    Idle,
    Closing,
}

#[derive(Debug, Clone, Copy, PartialEq, Eq, Hash, Structural)]
pub enum Ownership {
    Local,
    Incoming,
    Relay,
    Temporary,
}

#[derive(Debug, Clone, Copy, PartialEq, Eq, Hash, Structural)]
pub enum ReceiptKind {
    Accepted,
    Stored,
    Forwarded,
    Delivered,
    /// Application opt-in only. MUST NOT be emitted by core unless requested.
    Opened,
    Rejected,
    Expired,
}

/// The byte that stands for a receipt kind on the wire: its position in the list.
pub open spec fn receipt_kind_code(k: ReceiptKind) -> u8 {
    match k {
        ReceiptKind::Accepted => 0,
        ReceiptKind::Stored => 1,
        ReceiptKind::Forwarded => 2,
        ReceiptKind::Delivered => 3,
        ReceiptKind::Opened => 4,
        ReceiptKind::Rejected => 5,
        ReceiptKind::Expired => 6,
    }
}

impl ReceiptKind {
    /// The byte that stands for this kind.
    pub fn code(self) -> (c: u8)
        ensures
            c == receipt_kind_code(self),
    {
        match self {
            ReceiptKind::Accepted => 0,
            ReceiptKind::Stored => 1,
            ReceiptKind::Forwarded => 2,
            ReceiptKind::Delivered => 3,
            ReceiptKind::Opened => 4,
            ReceiptKind::Rejected => 5,
            ReceiptKind::Expired => 6,
        }
    }
}

} // verus!
