//! Share move session: relocates a threshold secret share from one cluster
//! node to another without reconstructing the secret.
//!
//! Each node runs a [`SessionImpl`]. Its handlers decide and return the
//! messages to send and the storage change to make ([`Effects`]); the caller
//! performs them, for instance through [`send_all`] and [`apply_storage`].
//!
//! A peer's error message ends the session locally, but storage changes that
//! other nodes have already committed are not rolled back: a cluster can be
//! left part moved.
pub mod laws;
pub mod nodes;
pub mod relocation;
pub mod session;
pub mod types;
pub mod validation;

pub use nodes::{NodeId, NodeMap, NodeSet};
pub use session::{
    apply_storage, send_all, Effects, KeyStorage, Session, SessionImpl, SessionParams, SessionState,
    SessionTransport, StorageAction,
};
pub use types::{
    ConfirmShareMoveInitialization, DocumentKeyShare, Error, InitializeShareMoveSession, Public,
    Secret, SessionId, SessionMeta, ShareMove, ShareMoveConfirm, ShareMoveError, ShareMoveMessage,
    ShareMoveRequest,
};
pub use validation::check_shares_to_move;
