//! Protocol messages.

use crate::caps::CapabilityDoc;
use crate::chunk::Manifest;
use crate::envelope::{DropEnvelope, PublicIdentity};
use crate::ids::{ChunkId, ObjectId};
use vstd::prelude::*;

verus! {

#[derive(Debug, Clone)]
pub enum Message {
    ClientHello {
        protocol: u16,
        identity: PublicIdentity,
        eph_pk: [u8; 32],
        nonce: u64,
        caps: CapabilityDoc,
        identity_proof: [u8; 64],
    },
    ServerHello {
        protocol: u16,
        identity: PublicIdentity,
        eph_pk: [u8; 32],
        nonce: u64,
        caps: CapabilityDoc,
        transcript_sig: [u8; 64],
    },
    InventorySorted { object_ids: Vec<ObjectId> },
    InventoryBloom { n: u32, k: u8, bits: Vec<u8> },
    Want { object_ids: Vec<ObjectId>, chunks: Vec<ChunkWant> },
    Envelope { envelope: DropEnvelope, manifest: Manifest },
    ChunkData { object_id: ObjectId, chunk_id: ChunkId, index: u32, data: Vec<u8> },
    Have { object_id: ObjectId, chunks_present: Vec<u32> },
    ReceiptOffer { object_id: ObjectId },
    Error { code: String, message: String },
    Done,
}

#[derive(Debug, Clone)]
pub struct ChunkWant {
    pub object_id: ObjectId,
    pub indices: Vec<u32>,
}

/// The name a message goes by on the wire.
pub open spec fn message_name(m: Message) -> Seq<char> {
    match m {
        Message::ClientHello { .. } => "client_hello"@,
        Message::ServerHello { .. } => "server_hello"@,
        Message::InventorySorted { .. } => "inventory_sorted"@,
        Message::InventoryBloom { .. } => "inventory_bloom"@,
        Message::Want { .. } => "want"@,
        Message::Envelope { .. } => "envelope"@,
        Message::ChunkData { .. } => "chunk_data"@,
        Message::Have { .. } => "have"@,
        Message::ReceiptOffer { .. } => "receipt_offer"@,
        Message::Error { .. } => "error"@,
        Message::Done => "done"@,
    }
}

impl Message {
    pub fn name(&self) -> (s: &'static str)
        ensures
            s@ == message_name(*self),
    {
        match self {
            Message::ClientHello { .. } => "client_hello",
            Message::ServerHello { .. } => "server_hello",
            Message::InventorySorted { .. } => "inventory_sorted",
            Message::InventoryBloom { .. } => "inventory_bloom",
            Message::Want { .. } => "want",
            Message::Envelope { .. } => "envelope",
            Message::ChunkData { .. } => "chunk_data",
            Message::Have { .. } => "have",
            Message::ReceiptOffer { .. } => "receipt_offer",
            Message::Error { .. } => "error",
            Message::Done => "done",
        }
    }
}

} // verus!
