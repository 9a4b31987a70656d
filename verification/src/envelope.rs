//! The signed Drop envelope and the descriptors it carries.

use crate::destination::Destination;
use crate::error::{coded, DdResult, ErrorCode, fails_with};
use crate::ids::{ContentId, ManifestId, ObjectId, PeerId};
use crate::limits::{DEFAULT_REPLICATION_BUDGET, MAX_EXTENSIONS, NONCE_LEN};
use crate::priority::Priority;
use vstd::prelude::*;

verus! {

#[derive(Debug, Clone, Copy, PartialEq, Eq, Structural)]
pub enum RoutingPolicyKind {
    Direct,
    Epidemic,
    SprayAndWait,
    Encounter,
    Utility,
    Adaptive,
}

impl Default for RoutingPolicyKind {
    fn default() -> (k: Self)
        ensures
            k == RoutingPolicyKind::SprayAndWait,
    {
        RoutingPolicyKind::SprayAndWait
    }
}

#[derive(Debug, Clone, Copy, PartialEq, Eq, Structural)]
pub struct RoutingPolicy {
    pub kind: RoutingPolicyKind,
    pub replication_budget: u32,
    pub trusted_only: bool,
}

impl Default for RoutingPolicy {
    fn default() -> (p: Self)
        ensures
            p == (RoutingPolicy {
                kind: RoutingPolicyKind::Adaptive,
                replication_budget: DEFAULT_REPLICATION_BUDGET,
                trusted_only: false,
            }),
    {
        Self {
            kind: RoutingPolicyKind::Adaptive,
            replication_budget: DEFAULT_REPLICATION_BUDGET,
            trusted_only: false,
        }
    }
}

#[derive(Debug, Clone)]
pub enum PayloadDescriptor {
    Inline { length: u64, content_id: ContentId },
    Blob { length: u64, content_id: ContentId },
    Chunked { length: u64, manifest_id: ManifestId, content_id: ContentId },
    Manifest { manifest_id: ManifestId },
    /// Streaming manifests are not implemented; the variant is reserved.
    StreamManifest { manifest_id: ManifestId },
    Collection { members: Vec<ObjectId> },
}

#[derive(Debug, Clone)]
pub struct RecipientWrap {
    pub peer: PeerId,
    pub eph_pk: [u8; 32],
    pub nonce: [u8; NONCE_LEN],
    pub wrapped_key: Vec<u8>,
}

#[derive(Debug, Clone)]
pub struct SecurityDescriptor {
    pub scheme: String,
    pub public: bool,
    pub wraps: Vec<RecipientWrap>,
    pub content_nonce: [u8; NONCE_LEN],
}

#[derive(Debug, Clone)]
pub struct Extension {
    pub name: String,
    pub critical: bool,
    pub data: Vec<u8>,
}

#[derive(Debug, Clone)]
pub struct DropEnvelope {
    pub protocol_version: u16,
    pub object_id: ObjectId,
    pub source: PeerId,
    pub destination: Destination,
    pub creation_time: u64,
    pub expiration: u64,
    pub priority: Priority,
    pub hop_limit: u8,
    pub hop_count: u8,
    pub payload_descriptor: PayloadDescriptor,
    pub routing_policy: RoutingPolicy,
    pub security_descriptor: SecurityDescriptor,
    pub application: String,
    pub topic: Option<String>,
    pub extensions: Vec<Extension>,
    pub author_pk: [u8; 32],
    pub signature: [u8; 64],
}

impl DropEnvelope {
    pub fn remaining_hops(&self) -> (n: u8)
        ensures
            n == (if self.hop_limit >= self.hop_count {
                (self.hop_limit - self.hop_count) as u8
            } else {
                0u8
            }),
    {
        self.hop_limit.saturating_sub(self.hop_count)
    }

    pub fn is_expired(&self, now: u64) -> (b: bool)
        ensures
            b == (now >= self.expiration),
    {
        now >= self.expiration
    }

    /// Fails with `Ddp1006LimitExceeded` when there are more than `MAX_EXTENSIONS` extensions.
    pub fn validate_extension_count(&self) -> (r: DdResult<()>)
        ensures
            r is Ok <==> self.extensions@.len() <= MAX_EXTENSIONS,
            r is Err ==> fails_with(r, ErrorCode::Ddp1006LimitExceeded),
    {
        if self.extensions.len() > MAX_EXTENSIONS {
            return Err(coded(ErrorCode::Ddp1006LimitExceeded, "too many extensions"));
        }
        Ok(())
    }
}

#[derive(Debug, Clone, Copy)]
pub struct PublicIdentity {
    pub version: u8,
    pub ed25519_pk: [u8; 32],
    pub x25519_pk: [u8; 32],
    pub signature: [u8; 64],
}

} // verus!
