//! The wire protocol: Drop envelopes, the handshake, inventory exchange and messages.

pub mod envelope;
pub mod frame;
pub mod handshake;
pub mod inventory;
pub mod messages;

pub use envelope::{
    build_drop, decrypt_payload_for, envelope_preimage, open_drop, open_drop_at, verify_envelope,
    zstd_decompress, BuiltDrop, CreateDrop,
};
pub use handshake::{finish, transcript_bytes, Session};
pub use inventory::{
    choose_inventory, want_from_bloom, want_from_sorted, BloomFilter, InventoryAlgo,
};
pub use messages::{ChunkWant, Message};
