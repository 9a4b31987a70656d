//! What a node decides when it sends and when it fills its inbox. The node itself (its store,
//! clock and sockets) lives with the application.

use crate::chunk::erasure::ErasureSpec;
use crate::chunk::{adaptive_chunk_size, adaptive_size, ChunkingAlg};
use crate::config::{strategy_of, Config};
use crate::crypto::PrivateIdentity;
use crate::destination::{dest_includes, Destination};
use crate::envelope::{DropEnvelope, RoutingPolicy};
use crate::error::{fails_with, DdResult};
use crate::identity::{resolve_outcome, ContactBook};
use crate::ids::{ObjectId, PeerId};
use crate::priority::Priority;
use crate::protocol::envelope::CreateDrop;
use vstd::prelude::*;

verus! {

/// What to send, and how.
#[derive(Debug, Clone)]
pub struct SendOpts {
    /// Contact name or identifier prefix of the recipient (ignored for public Drops).
    pub to: String,
    pub plaintext: Vec<u8>,
    pub public: bool,
    pub ttl: Option<u64>,
    pub priority: Priority,
    pub application: String,
    pub topic: Option<String>,
    pub trusted_only: bool,
    pub seal_until: Option<u64>,
    pub seal_quorum: Option<u32>,
    pub erasure: Option<ErasureSpec>,
}

/// A Drop delivered to this node and opened.
#[derive(Debug, Clone)]
pub struct InboxItem {
    pub object_id: ObjectId,
    pub from: PeerId,
    pub bytes: u64,
    pub application: String,
    pub body: Vec<u8>,
}

/// The hop limit of every Drop a node creates.
pub const SEND_HOP_LIMIT: u8 = 16;

/// The contact window, in seconds, that sending assumes when it picks a chunk size.
pub const SEND_WINDOW_SECS: u32 = 30;

/// Everything of a send request but its addressing, as `send_request` fills it in.
pub open spec fn request_carries(req: CreateDrop, author: PrivateIdentity, opts: SendOpts, cfg: Config, now: u64) -> bool {
    &&& *req.author == author
    &&& req.plaintext@ == opts.plaintext@
    &&& req.now == now
    &&& req.ttl_secs == opts.ttl
    &&& req.priority == opts.priority
    &&& req.routing == (RoutingPolicy {
        kind: strategy_of(cfg.routing.strategy@),
        replication_budget: cfg.routing.replication_budget,
        trusted_only: opts.trusted_only,
    })
    &&& req.application@ == opts.application@
    &&& req.topic == opts.topic
    &&& req.chunking == (ChunkingAlg::Fixed {
        size: adaptive_size(opts.plaintext@.len() as u64, SEND_WINDOW_SECS, "tcp"@),
    })
    &&& !req.compress
    &&& req.hop_limit == SEND_HOP_LIMIT
    &&& req.public == opts.public
    &&& req.seal_until == opts.seal_until
    &&& req.seal_quorum == opts.seal_quorum
    &&& req.erasure == opts.erasure
}

/// The Drop a node builds to send `opts`: a public Drop goes to everyone with no recipient
/// key; otherwise the recipient is resolved in the contact book (see `resolve_outcome`) and
/// is both the destination and the only recipient. The routing strategy and replication
/// budget come from the configuration; the chunk size is picked for a TCP contact.
pub fn send_request<'a>(author: &'a PrivateIdentity, book: &ContactBook, opts: SendOpts, cfg: &Config, now: u64) -> (r: DdResult<CreateDrop<'a>>)
    ensures
        opts.public ==> (r matches Ok(req) && req.destination == Destination::Public
            && req.recipients@.len() == 0),
        !opts.public ==> match resolve_outcome(book.entries(), opts.to@) {
            Ok(v) => r matches Ok(req) && req.destination == (Destination::One { peer: v.0 })
                && req.recipients@ == seq![v],
            Err(c) => fails_with(r, c),
        },
        r matches Ok(req) ==> request_carries(req, *author, opts, *cfg, now),
{
    let ghost o = opts;
    let mut recipients: Vec<(PeerId, crate::envelope::PublicIdentity)> = Vec::new();
    let destination = if opts.public {
        Destination::Public
    } else {
        let (peer, ident) = book.resolve(opts.to.as_str())?;
        recipients.push((peer, ident));
        Destination::One { peer }
    };
    let size = adaptive_chunk_size(opts.plaintext.len() as u64, SEND_WINDOW_SECS, "tcp");
    let kind = cfg.strategy();
    let SendOpts {
        to: _,
        plaintext,
        public,
        ttl,
        priority,
        application,
        topic,
        trusted_only,
        seal_until,
        seal_quorum,
        erasure,
    } = opts;
    Ok(CreateDrop {
        author,
        recipients,
        destination,
        plaintext,
        now,
        ttl_secs: ttl,
        priority,
        routing: RoutingPolicy {
            kind,
            replication_budget: cfg.routing.replication_budget,
            trusted_only,
        },
        application,
        topic,
        chunking: ChunkingAlg::Fixed { size },
        compress: false,
        hop_limit: SEND_HOP_LIMIT,
        public,
        seal_until,
        seal_quorum,
        erasure,
    })
}

/// A Drop belongs in this node's inbox when it is addressed to the node or public.
pub open spec fn inbox_takes(env: DropEnvelope, local: PeerId) -> bool {
    dest_includes(env.destination, local) || env.destination is Public
}

/// Which Drops reach a node's inbox: every public Drop, whatever the node; a Drop addressed
/// to the node alone or to a list that names it; and no Drop addressed to other peers only
/// or to a group.
pub proof fn lemma_inbox_takes(env: DropEnvelope, local: PeerId)
    ensures
        env.destination is Public ==> inbox_takes(env, local),
        env.destination == (Destination::One { peer: local }) ==> inbox_takes(env, local),
        (env.destination matches Destination::Many { peers } && peers@.contains(local)) ==> inbox_takes(env, local),
        (env.destination matches Destination::One { peer } && peer != local) ==> !inbox_takes(env, local),
        (env.destination matches Destination::Many { peers } && !peers@.contains(local)) ==> !inbox_takes(env, local),
        env.destination is Group ==> !inbox_takes(env, local),
{
}

/// Whether a stored Drop belongs in the inbox of node `local`.
pub fn for_inbox(env: &DropEnvelope, local: &PeerId) -> (b: bool)
    ensures
        b == inbox_takes(*env, *local),
{
    env.destination.includes(local) || env.destination.is_public()
}

} // verus!
