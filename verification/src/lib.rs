//! DeadDrop: delay-tolerant, content-addressed drops between peers.

pub mod caps;
pub mod carrier;
pub mod channel;
pub mod chunk;
pub mod cli;
pub mod config;
pub mod control;
pub mod crypto;
pub mod destination;
pub mod discovery;
pub mod envelope;
pub mod error;
pub mod event;
pub mod hexutil;
pub mod identity;
pub mod ids;
pub mod lifecycle;
pub mod limits;
pub mod mode;
pub mod node;
pub mod primitives;
pub mod protocol;
pub mod receipt;
pub mod report;
pub mod routing;
pub mod rules;
pub mod scheduler;
pub mod sdk;
pub mod peers;
pub mod priority;
pub mod sealed;
pub mod service;
pub mod space;
pub mod store;
pub mod sync;
pub mod text;
pub mod transport;
pub mod trust;

pub use error::{coded, DdError, DdResult, ErrorCode};
pub use destination::Destination;
pub use crypto::{DefaultProvider, PrivateIdentity};
pub use envelope::{
    DropEnvelope, Extension, PayloadDescriptor, PublicIdentity, RecipientWrap, RoutingPolicy,
    RoutingPolicyKind, SecurityDescriptor,
};
pub use hexutil::{hex_decode, hex_encode};
pub use ids::{
    ChunkId, ContentId, Digest, HashAlgorithm, ManifestId, ObjectId, PeerId, DIGEST_LEN,
    ephemeral_discovery_id, peer_id_matches_prefix,
};
pub use priority::Priority;

use vstd::prelude::*;

verus! {

/// Wire protocol major version. Independent of the package version.
pub const PROTOCOL_VERSION: u16 = 2;

/// Protocol label shown to users and written into carriers.
pub const PROTOCOL_LABEL: &'static str = "DDP/2";

/// Application namespaces a Drop's `application` field names.
pub const APP_NAMESPACES: [&'static str; 14] = [
    "dd.chat",
    "dd.file",
    "dd.git",
    "dd.package",
    "dd.web",
    "dd.sensor",
    "dd.receipt",
    "dd.identity-transition",
    "dd.message",
    "dd.board",
    "dd.space",
    "dd.channel",
    "dd.web-capsule",
    "dd.revocation",
];

/// Storage schema version.
pub const STORAGE_SCHEMA_VERSION: u32 = 3;

} // verus!
