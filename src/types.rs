use vstd::prelude::*;
use crate::nodes::{NodeId, NodeMap};

verus! {

/// A scalar of the sharing field: an evaluation point or a private share.
pub type Secret = [u8; 32];

/// A public curve point (commitments, the author's key).
pub type Public = [u8; 64];

/// Identifier of the key that a session operates on.
pub type SessionId = [u8; 32];

/// Errors that a share move session reports to its caller.
#[derive(Debug, PartialEq, Eq)]
pub enum Error {
    /// The message carries another session's nonce.
    ReplayProtection,
    /// The message is valid, but the session is not in the state that accepts it.
    InvalidStateForRequest,
    /// Wrong sender role, duplicate or unexpected message, or a mapping that contradicts the local view.
    InvalidMessage,
    /// The mapping breaks the structural rules of a share move.
    InvalidNodesConfiguration,
    /// The key storage failed.
    KeyStorage(String),
    /// The transport failed.
    Transport(String),
}

/// Identity of one node's share move session.
#[derive(Debug, Clone, Copy, PartialEq, Eq)]
pub struct SessionMeta {
    /// Key that the session operates on.
    pub id: SessionId,
    /// This node.
    pub self_node_id: NodeId,
    /// Node that drives the session.
    pub master_node_id: NodeId,
    /// Minimum number of shares that reconstruct the secret.
    pub threshold: usize,
}

/// Mathematical content of a share record.
pub struct KeyShareModel {
    pub author: Public,
    pub threshold: usize,
    pub id_numbers: Map<NodeId, Secret>,
    pub polynom1: Seq<Public>,
    pub secret_share: Secret,
    pub common_point: Option<Public>,
    pub encrypted_point: Option<Public>,
}

/// A node's persisted share of a distributed secret.
pub struct DocumentKeyShare {
    /// Author of the key.
    pub author: Public,
    /// Minimum number of shares that reconstruct the secret.
    pub threshold: usize,
    /// Evaluation point of every current holder.
    pub id_numbers: NodeMap<Secret>,
    /// Public commitments of the sharing polynomial.
    pub polynom1: Vec<Public>,
    /// This holder's private share.
    pub secret_share: Secret,
    /// Common point of the encrypted document key, if any.
    pub common_point: Option<Public>,
    /// Encrypted point of the document key, if any.
    pub encrypted_point: Option<Public>,
}

impl View for DocumentKeyShare {
    type V = KeyShareModel;

    open spec fn view(&self) -> KeyShareModel {
        KeyShareModel {
            author: self.author,
            threshold: self.threshold,
            id_numbers: self.id_numbers@,
            polynom1: self.polynom1@,
            secret_share: self.secret_share,
            common_point: self.common_point,
            encrypted_point: self.encrypted_point,
        }
    }
}

fn copy_points(v: &Vec<Public>) -> (r: Vec<Public>)
    ensures
        r@ == v@,
{
    let mut r: Vec<Public> = Vec::new();
    let mut i: usize = 0;
    while i < v.len()
        invariant
            i <= v@.len(),
            r@ == v@.subrange(0, i as int),
        decreases v@.len() - i,
    {
        r.push(v[i]);
        i = i + 1;
        assert(r@ =~= v@.subrange(0, i as int));
    }
    assert(r@ =~= v@);
    r
}

impl DocumentKeyShare {
    /// The record is well formed when its holder map is.
    pub open spec fn wf(&self) -> bool {
        self.id_numbers.wf()
    }

    /// A copy with the same content.
    pub fn duplicate(&self) -> (r: DocumentKeyShare)
        requires
            self.wf(),
        ensures
            r.wf(),
            r@ == self@,
    {
        DocumentKeyShare {
            author: self.author,
            threshold: self.threshold,
            id_numbers: self.id_numbers.duplicate(),
            polynom1: copy_points(&self.polynom1),
            secret_share: self.secret_share,
            common_point: self.common_point,
            encrypted_point: self.encrypted_point,
        }
    }
}

/// Master proposes the mapping to every affected node.
pub struct InitializeShareMoveSession {
    pub session: SessionId,
    pub sub_session: Secret,
    pub session_nonce: u64,
    /// Source node to destination node.
    pub shares_to_move: NodeMap<NodeId>,
}

/// A peer accepts the master's proposal.
#[derive(Debug, Clone, Copy, PartialEq, Eq)]
pub struct ConfirmShareMoveInitialization {
    pub session: SessionId,
    pub sub_session: Secret,
    pub session_nonce: u64,
}

/// Master asks a source node to send its share.
#[derive(Debug, Clone, Copy, PartialEq, Eq)]
pub struct ShareMoveRequest {
    pub session: SessionId,
    pub sub_session: Secret,
    pub session_nonce: u64,
}

/// A source node hands its full share record to its destination.
pub struct ShareMove {
    pub session: SessionId,
    pub sub_session: Secret,
    pub session_nonce: u64,
    pub key_share: DocumentKeyShare,
}

/// A destination tells the others that it has received its share.
#[derive(Debug, Clone, Copy, PartialEq, Eq)]
pub struct ShareMoveConfirm {
    pub session: SessionId,
    pub sub_session: Secret,
    pub session_nonce: u64,
}

/// A participant reports that the session failed.
pub struct ShareMoveError {
    pub session: SessionId,
    pub sub_session: Secret,
    pub session_nonce: u64,
    pub error: String,
}

/// Every message of the share move protocol.
pub enum ShareMoveMessage {
    InitializeShareMoveSession(InitializeShareMoveSession),
    ConfirmShareMoveInitialization(ConfirmShareMoveInitialization),
    ShareMoveRequest(ShareMoveRequest),
    ShareMove(ShareMove),
    ShareMoveConfirm(ShareMoveConfirm),
    ShareMoveError(ShareMoveError),
}

impl ShareMoveMessage {
    pub open spec fn spec_session_nonce(&self) -> u64 {
        match self {
            ShareMoveMessage::InitializeShareMoveSession(m) => m.session_nonce,
            ShareMoveMessage::ConfirmShareMoveInitialization(m) => m.session_nonce,
            ShareMoveMessage::ShareMoveRequest(m) => m.session_nonce,
            ShareMoveMessage::ShareMove(m) => m.session_nonce,
            ShareMoveMessage::ShareMoveConfirm(m) => m.session_nonce,
            ShareMoveMessage::ShareMoveError(m) => m.session_nonce,
        }
    }

    /// The maps the message carries are well formed.
    pub open spec fn wf(&self) -> bool {
        match self {
            ShareMoveMessage::InitializeShareMoveSession(m) => m.shares_to_move.wf(),
            ShareMoveMessage::ShareMove(m) => m.key_share.wf(),
            _ => true,
        }
    }

    pub open spec fn spec_session(&self) -> SessionId {
        match self {
            ShareMoveMessage::InitializeShareMoveSession(m) => m.session,
            ShareMoveMessage::ConfirmShareMoveInitialization(m) => m.session,
            ShareMoveMessage::ShareMoveRequest(m) => m.session,
            ShareMoveMessage::ShareMove(m) => m.session,
            ShareMoveMessage::ShareMoveConfirm(m) => m.session,
            ShareMoveMessage::ShareMoveError(m) => m.session,
        }
    }

    pub open spec fn spec_sub_session(&self) -> Secret {
        match self {
            ShareMoveMessage::InitializeShareMoveSession(m) => m.sub_session,
            ShareMoveMessage::ConfirmShareMoveInitialization(m) => m.sub_session,
            ShareMoveMessage::ShareMoveRequest(m) => m.sub_session,
            ShareMoveMessage::ShareMove(m) => m.sub_session,
            ShareMoveMessage::ShareMoveConfirm(m) => m.sub_session,
            ShareMoveMessage::ShareMoveError(m) => m.sub_session,
        }
    }

    /// Nonce of the session that the message belongs to.
    #[verifier::when_used_as_spec(spec_session_nonce)]
    pub fn session_nonce(&self) -> (r: u64)
        ensures
            r == self.spec_session_nonce(),
    {
        match self {
            ShareMoveMessage::InitializeShareMoveSession(m) => m.session_nonce,
            ShareMoveMessage::ConfirmShareMoveInitialization(m) => m.session_nonce,
            ShareMoveMessage::ShareMoveRequest(m) => m.session_nonce,
            ShareMoveMessage::ShareMove(m) => m.session_nonce,
            ShareMoveMessage::ShareMoveConfirm(m) => m.session_nonce,
            ShareMoveMessage::ShareMoveError(m) => m.session_nonce,
        }
    }
}

} // verus!
