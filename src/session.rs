use vstd::prelude::*;
use crate::nodes::{NodeId, NodeMap, NodeSet};
use crate::relocation::{relocate, relocate_id_numbers};
use crate::types::{
    ConfirmShareMoveInitialization, DocumentKeyShare, Error, InitializeShareMoveSession,
    KeyShareModel, Secret, SessionId, SessionMeta, ShareMove, ShareMoveConfirm, ShareMoveError,
    ShareMoveMessage, ShareMoveRequest,
};
use crate::validation::{
    check_outcome, check_shares_to_move, destinations_distinct, is_destination, moves_old_to_new,
};

verus! {

/// Marker for a share move session that a session registry can hold.
pub trait Session: Send + Sync + 'static {

}

/// Sends protocol messages to other cluster nodes.
pub trait SessionTransport {
    /// Sends `message` to `node`.
    fn send(&self, node: &NodeId, message: ShareMoveMessage) -> Result<(), Error>;
}

/// Persists share records of this node.
pub trait KeyStorage {
    /// Stores a new record for `document`.
    fn insert(&self, document: SessionId, key: DocumentKeyShare) -> Result<(), String>;

    /// Replaces the record of `document`.
    fn update(&self, document: SessionId, key: DocumentKeyShare) -> Result<(), String>;

    /// Deletes the record of `document`.
    fn remove(&self, document: &SessionId) -> Result<(), String>;
}

/// Hands each message to the transport in order, stopping at the first failure.
pub fn send_all<T: SessionTransport>(transport: &T, messages: Vec<(NodeId, ShareMoveMessage)>) -> (r: Result<(), Error>)
    ensures
        messages@.len() == 0 ==> r is Ok,
{
    let mut rest = messages;
    while rest.len() > 0
        invariant
            messages@.len() == 0 ==> rest@.len() == 0,
        decreases rest@.len(),
    {
        let (node, message) = rest.remove(0);
        match transport.send(&node, message) {
            Ok(()) => {},
            Err(e) => {
                return Err(e);
            },
        }
    }
    Ok(())
}

/// Performs the storage change for `document`; a storage failure becomes a key storage error.
pub fn apply_storage<S: KeyStorage>(storage: &S, document: SessionId, action: StorageAction) -> (r: Result<(), Error>)
    ensures
        r matches Err(e) ==> e is KeyStorage,
{
    let result = match action {
        StorageAction::Remove => storage.remove(&document),
        StorageAction::Update(key) => storage.update(document, key),
        StorageAction::Insert(key) => storage.insert(document, key),
    };
    match result {
        Ok(()) => Ok(()),
        Err(e) => Err(Error::KeyStorage(e)),
    }
}

/// Share move session state.
#[derive(Debug, Clone, Copy, PartialEq, Eq, Structural)]
pub enum SessionState {
    /// Waiting for initialization.
    WaitingForInitialization,
    /// Waiting for initialization confirmation (master only).
    WaitingForInitializationConfirm,
    /// Waiting for move confirmation.
    WaitingForMoveConfirmation,
    /// Session is finished.
    Finished,
}

/// What a node must do to its key storage once the move is complete.
pub enum StorageAction {
    /// This node was a source: delete its record.
    Remove,
    /// This node kept its share: replace its record.
    Update(DocumentKeyShare),
    /// This node joined: store the record it received.
    Insert(DocumentKeyShare),
}

/// What a handled call asks of the transport and the storage, in that order.
pub struct Effects {
    /// Messages to send, with their recipients.
    pub messages: Vec<(NodeId, ShareMoveMessage)>,
    /// The storage change, if the session completed.
    pub storage: Option<StorageAction>,
}

/// Recipients of a message list, in order.
pub open spec fn addressees(ms: Seq<(NodeId, ShareMoveMessage)>) -> Seq<NodeId> {
    ms.map_values(|p: (NodeId, ShareMoveMessage)| p.0)
}

/// The messages go to each node of `to` exactly once.
pub open spec fn reaches_each(ms: Seq<(NodeId, ShareMoveMessage)>, to: Set<NodeId>) -> bool {
    addressees(ms).no_duplicates() && addressees(ms).to_set() == to
}

/// SessionImpl creation parameters.
pub struct SessionParams {
    /// Session meta.
    pub meta: SessionMeta,
    /// Sub session identifier.
    pub sub_session: Secret,
    /// Session nonce.
    pub nonce: u64,
    /// This node's key share, if it holds one.
    pub key_share: Option<DocumentKeyShare>,
}

/// Immutable session data.
struct SessionCore {
    meta: SessionMeta,
    sub_session: Secret,
    nonce: u64,
    key_share: Option<DocumentKeyShare>,
}

/// Mutable session data.
struct SessionData {
    state: SessionState,
    init_confirmations_to_receive: NodeSet,
    move_confirmations_to_receive: NodeSet,
    shares_to_move: NodeMap<NodeId>,
    received_key_share: Option<DocumentKeyShare>,
}

/// One node's share move session.
pub struct SessionImpl {
    core: SessionCore,
    data: SessionData,
}

/// Model of an optional record.
pub open spec fn record_model(r: Option<DocumentKeyShare>) -> Option<KeyShareModel> {
    match r {
        Some(k) => Some(k@),
        None => None,
    }
}

/// The holders that an optional record shows.
pub open spec fn holders_of(r: Option<KeyShareModel>) -> Option<Set<NodeId>> {
    match r {
        Some(k) => Some(k.id_numbers.dom()),
        None => None,
    }
}

impl SessionImpl {
    pub closed spec fn meta(&self) -> SessionMeta {
        self.core.meta
    }

    pub closed spec fn sub_session(&self) -> Secret {
        self.core.sub_session
    }

    pub closed spec fn nonce(&self) -> u64 {
        self.core.nonce
    }

    /// This node's share before the move.
    pub closed spec fn key_share(&self) -> Option<KeyShareModel> {
        record_model(self.core.key_share)
    }

    pub closed spec fn state(&self) -> SessionState {
        self.data.state
    }

    /// Nodes whose initialization confirmation is outstanding.
    pub closed spec fn init_pending(&self) -> Set<NodeId> {
        self.data.init_confirmations_to_receive@
    }

    /// Nodes whose move confirmation is outstanding.
    pub closed spec fn move_pending(&self) -> Set<NodeId> {
        self.data.move_confirmations_to_receive@
    }

    /// The agreed mapping from source to destination.
    pub closed spec fn mapping(&self) -> Map<NodeId, NodeId> {
        self.data.shares_to_move@
    }

    /// The agreed mapping as pairs in the order they are applied.
    pub closed spec fn mapping_pairs(&self) -> Seq<(NodeId, NodeId)> {
        self.data.shares_to_move.pairs()
    }

    /// The share received as a destination.
    pub closed spec fn received(&self) -> Option<KeyShareModel> {
        record_model(self.data.received_key_share)
    }

    /// The session's internal consistency.
    pub closed spec fn inv(&self) -> bool {
        &&& self.data.init_confirmations_to_receive.wf()
        &&& self.data.move_confirmations_to_receive.wf()
        &&& self.data.shares_to_move.wf()
        &&& (match self.core.key_share {
            Some(k) => k.wf(),
            None => true,
        })
        &&& (match self.data.received_key_share {
            Some(k) => k.wf(),
            None => true,
        })
        &&& (self.data.state == SessionState::WaitingForInitialization ==> {
            &&& self.data.shares_to_move@ == Map::<NodeId, NodeId>::empty()
            &&& self.data.init_confirmations_to_receive@ == Set::<NodeId>::empty()
            &&& self.data.move_confirmations_to_receive@ == Set::<NodeId>::empty()
            &&& self.data.received_key_share.is_none()
        })
        &&& (self.data.shares_to_move@.contains_key(self.core.meta.self_node_id)
            ==> self.core.key_share.is_some())
        &&& (self.data.state == SessionState::WaitingForInitializationConfirm ==> self.core.key_share.is_some())
        &&& (self.data.state != SessionState::WaitingForInitialization ==> destinations_distinct(self.data.shares_to_move@))
        &&& (self.data.state != SessionState::WaitingForInitialization ==> match self.core.key_share {
            Some(k) => moves_old_to_new(self.data.shares_to_move@, k.id_numbers@.dom()),
            None => true,
        })
        &&& (self.data.state == SessionState::WaitingForMoveConfirmation
            && !self.data.shares_to_move@.contains_key(self.core.meta.self_node_id)
            && self.data.received_key_share.is_none() && self.core.key_share.is_none()
            ==> self.data.move_confirmations_to_receive@.contains(self.core.meta.self_node_id))
    }

    /// Once a mapping is accepted, it was checked: destinations are distinct,
    /// and a node with a share saw every source as a holder and no destination as one.
    pub proof fn lemma_accepted_mapping(&self)
        requires
            self.inv(),
            self.state() != SessionState::WaitingForInitialization,
        ensures
            destinations_distinct(self.mapping()),
            self.key_share() matches Some(k) ==> moves_old_to_new(self.mapping(), k.id_numbers.dom()),
            self.mapping_pairs().len() == self.mapping().len(),
            forall|i: int|
                0 <= i < self.mapping_pairs().len() ==> #[trigger] self.mapping().contains_key(self.mapping_pairs()[i].0)
                    && self.mapping()[self.mapping_pairs()[i].0] == self.mapping_pairs()[i].1,
            forall|i: int, j: int|
                0 <= i < j < self.mapping_pairs().len() ==> #[trigger] self.mapping_pairs()[i].0
                    != #[trigger] self.mapping_pairs()[j].0,
            forall|k: NodeId|
                #[trigger] self.mapping().contains_key(k) ==> exists|i: int|
                    0 <= i < self.mapping_pairs().len() && #[trigger] self.mapping_pairs()[i].0 == k,
    {
        self.data.shares_to_move.lemma_pairs();
        assert forall|k: NodeId| #[trigger] self.mapping().contains_key(k) implies exists|i: int|
            0 <= i < self.mapping_pairs().len() && #[trigger] self.mapping_pairs()[i].0 == k by {
            let i = choose|i: int| 0 <= i < self.data.shares_to_move.pairs().len()
                && #[trigger] self.data.shares_to_move.pairs()[i].0 == k;
            assert(self.mapping_pairs()[i].0 == k);
        }
    }

    /// The message is stamped with this session's identity.
    pub open spec fn stamped(&self, msg: ShareMoveMessage) -> bool {
        &&& msg.spec_session() == self.meta().id
        &&& msg.spec_sub_session() == self.sub_session()
        &&& msg.spec_session_nonce() == self.nonce()
    }

    /// Nothing but the session's progress fields may have changed.
    pub open spec fn same_identity(&self, other: &SessionImpl) -> bool {
        &&& self.meta() == other.meta()
        &&& self.sub_session() == other.sub_session()
        &&& self.nonce() == other.nonce()
        &&& self.key_share() == other.key_share()
    }

    /// Create new nested share move session. Consensus is formed outside.
    pub fn new_nested(params: SessionParams) -> (r: Result<SessionImpl, Error>)
        requires
            match params.key_share {
                Some(k) => k.wf(),
                None => true,
            },
        ensures
            match r {
                Ok(s) => {
                    &&& s.inv()
                    &&& s.meta() == params.meta
                    &&& s.sub_session() == params.sub_session
                    &&& s.nonce() == params.nonce
                    &&& s.key_share() == record_model(params.key_share)
                    &&& s.state() == SessionState::WaitingForInitialization
                    &&& s.mapping() == Map::<NodeId, NodeId>::empty()
                    &&& s.init_pending() == Set::<NodeId>::empty()
                    &&& s.move_pending() == Set::<NodeId>::empty()
                    &&& s.received().is_none()
                },
                Err(_) => false,
            },
    {
        Ok(SessionImpl {
            core: SessionCore {
                meta: params.meta,
                sub_session: params.sub_session,
                nonce: params.nonce,
                key_share: params.key_share,
            },
            data: SessionData {
                state: SessionState::WaitingForInitialization,
                init_confirmations_to_receive: NodeSet::new(),
                move_confirmations_to_receive: NodeSet::new(),
                shares_to_move: NodeMap::new(),
                received_key_share: None,
            },
        })
    }

    /// The session has reached its terminal state.
    pub fn is_finished(&self) -> (r: bool)
        ensures
            r == (self.state() == SessionState::Finished),
    {
        self.data.state == SessionState::Finished
    }

    /// Session timeouts are not handled by this session: nothing happens.
    pub fn on_session_timeout(&mut self)
        ensures
            *final(self) == *old(self),
    {
    }

    /// Node timeouts are not handled by this session: nothing happens.
    pub fn on_node_timeout(&mut self, _node_id: &NodeId)
        ensures
            *final(self) == *old(self),
    {
    }
}

/// Payload-free messages of the protocol.
enum Signal {
    ConfirmInitialization,
    MoveRequest,
    MoveConfirm,
}

spec fn is_signal(msg: ShareMoveMessage, kind: Signal) -> bool {
    match kind {
        Signal::ConfirmInitialization => msg is ConfirmShareMoveInitialization,
        Signal::MoveRequest => msg is ShareMoveRequest,
        Signal::MoveConfirm => msg is ShareMoveConfirm,
    }
}

/// The message proposes exactly the mapping `m`.
pub open spec fn proposes(msg: ShareMoveMessage, m: Map<NodeId, NodeId>) -> bool {
    match msg {
        ShareMoveMessage::InitializeShareMoveSession(x) => x.shares_to_move.wf() && x.shares_to_move@ == m,
        _ => false,
    }
}

/// Outcome of `initialize` on a session in state `s`.
pub open spec fn initialize_outcome(s: SessionImpl, m: Map<NodeId, NodeId>) -> Result<(), Error> {
    if s.meta().self_node_id != s.meta().master_node_id {
        Err(Error::InvalidMessage)
    } else if s.key_share().is_none() {
        Err(Error::InvalidMessage)
    } else if check_outcome(s.meta().self_node_id, m, holders_of(s.key_share())) is Err {
        check_outcome(s.meta().self_node_id, m, holders_of(s.key_share()))
    } else if s.state() != SessionState::WaitingForInitialization {
        Err(Error::InvalidStateForRequest)
    } else {
        Ok(())
    }
}

impl SessionImpl {
    fn signal(&self, kind: &Signal) -> (r: ShareMoveMessage)
        ensures
            is_signal(r, *kind),
            self.stamped(r),
    {
        match kind {
            Signal::ConfirmInitialization => ShareMoveMessage::ConfirmShareMoveInitialization(
                ConfirmShareMoveInitialization {
                    session: self.core.meta.id,
                    sub_session: self.core.sub_session,
                    session_nonce: self.core.nonce,
                },
            ),
            Signal::MoveRequest => ShareMoveMessage::ShareMoveRequest(
                ShareMoveRequest {
                    session: self.core.meta.id,
                    sub_session: self.core.sub_session,
                    session_nonce: self.core.nonce,
                },
            ),
            Signal::MoveConfirm => ShareMoveMessage::ShareMoveConfirm(
                ShareMoveConfirm {
                    session: self.core.meta.id,
                    sub_session: self.core.sub_session,
                    session_nonce: self.core.nonce,
                },
            ),
        }
    }

    /// One signal of `kind` to each node of `to`.
    fn signal_each(&self, to: &Vec<NodeId>, kind: Signal) -> (r: Vec<(NodeId, ShareMoveMessage)>)
        ensures
            addressees(r@) == to@,
            forall|i: int| 0 <= i < r@.len() ==> is_signal(#[trigger] r@[i].1, kind) && self.stamped(r@[i].1),
    {
        let mut r: Vec<(NodeId, ShareMoveMessage)> = Vec::new();
        let mut i: usize = 0;
        while i < to.len()
            invariant
                i <= to@.len(),
                addressees(r@) == to@.subrange(0, i as int),
                forall|j: int| 0 <= j < r@.len() ==> is_signal(#[trigger] r@[j].1, kind) && self.stamped(r@[j].1),
            decreases to@.len() - i,
        {
            let msg = self.signal(&kind);
            let ghost prev = r@;
            r.push((to[i], msg));
            assert(addressees(r@) =~= addressees(prev).push(to@[i as int]));
            i = i + 1;
            assert(addressees(r@) =~= to@.subrange(0, i as int));
        }
        assert(to@.subrange(0, to@.len() as int) =~= to@);
        r
    }

    /// One proposal of `m` to each node of `to`.
    fn propose_each(&self, to: &Vec<NodeId>, m: &NodeMap<NodeId>) -> (r: Vec<(NodeId, ShareMoveMessage)>)
        requires
            m.wf(),
        ensures
            addressees(r@) == to@,
            forall|i: int| 0 <= i < r@.len() ==> proposes(#[trigger] r@[i].1, m@) && self.stamped(r@[i].1),
    {
        let mut r: Vec<(NodeId, ShareMoveMessage)> = Vec::new();
        let mut i: usize = 0;
        while i < to.len()
            invariant
                m.wf(),
                i <= to@.len(),
                addressees(r@) == to@.subrange(0, i as int),
                forall|j: int| 0 <= j < r@.len() ==> proposes(#[trigger] r@[j].1, m@) && self.stamped(r@[j].1),
            decreases to@.len() - i,
        {
            let msg = ShareMoveMessage::InitializeShareMoveSession(
                InitializeShareMoveSession {
                    session: self.core.meta.id,
                    sub_session: self.core.sub_session,
                    session_nonce: self.core.nonce,
                    shares_to_move: m.duplicate(),
                },
            );
            let ghost prev = r@;
            r.push((to[i], msg));
            assert(addressees(r@) =~= addressees(prev).push(to@[i as int]));
            i = i + 1;
            assert(addressees(r@) =~= to@.subrange(0, i as int));
        }
        assert(to@.subrange(0, to@.len() as int) =~= to@);
        r
    }

    /// Initialize share move session on master node.
    pub fn initialize(&mut self, shares_to_move: NodeMap<NodeId>) -> (r: Result<Effects, Error>)
        requires
            old(self).inv(),
            shares_to_move.wf(),
        ensures
            final(self).inv(),
            match r {
                Ok(e) => {
                    &&& initialize_outcome(*old(self), shares_to_move@) == Ok::<(), Error>(())
                    &&& final(self).same_identity(old(self))
                    &&& final(self).state() == SessionState::WaitingForInitializationConfirm
                    &&& final(self).mapping() == shares_to_move@
                    &&& final(self).mapping_pairs() == shares_to_move.pairs()
                    &&& final(self).move_pending() == shares_to_move@.values()
                    &&& final(self).init_pending() == old(self).key_share().unwrap().id_numbers.dom().union(
                        shares_to_move@.values(),
                    ).remove(old(self).meta().self_node_id)
                    &&& final(self).received().is_none()
                    &&& e.storage.is_none()
                    &&& reaches_each(e.messages@, final(self).init_pending())
                    &&& forall|i: int|
                        0 <= i < e.messages@.len() ==> proposes(#[trigger] e.messages@[i].1, shares_to_move@)
                            && final(self).stamped(e.messages@[i].1)
                },
                Err(err) => {
                    &&& initialize_outcome(*old(self), shares_to_move@) == Err::<(), Error>(err)
                    &&& *final(self) == *old(self)
                },
            },
    {
        let self_id = self.core.meta.self_node_id;
        if self_id != self.core.meta.master_node_id {
            return Err(Error::InvalidMessage);
        }
        let old_key_share = match &self.core.key_share {
            Some(k) => k,
            None => {
                return Err(Error::InvalidMessage);
            },
        };
        match check_shares_to_move(&self_id, &shares_to_move, Some(&old_key_share.id_numbers)) {
            Ok(()) => {},
            Err(e) => {
                return Err(e);
            },
        }
        if self.data.state != SessionState::WaitingForInitialization {
            return Err(Error::InvalidStateForRequest);
        }
        let mut init_set = NodeSet::new();
        old_key_share.id_numbers.keys_into(&mut init_set);
        shares_to_move.values_into(&mut init_set);
        init_set.remove(self_id);
        let mut move_set = NodeSet::new();
        shares_to_move.values_into(&mut move_set);
        let recipients = init_set.to_vec();
        let messages = self.propose_each(&recipients, &shares_to_move);

        self.data.state = SessionState::WaitingForInitializationConfirm;
        self.data.init_confirmations_to_receive = init_set;
        self.data.move_confirmations_to_receive = move_set;
        self.data.shares_to_move = shares_to_move;
        Ok(Effects { messages, storage: None })
    }
}

/// The message delivers exactly the record `k`.
pub open spec fn carries(msg: ShareMoveMessage, k: KeyShareModel) -> bool {
    match msg {
        ShareMoveMessage::ShareMove(x) => x.key_share.wf() && x.key_share@ == k,
        _ => false,
    }
}

/// `k` with its holder map re-indexed by `pairs`.
pub open spec fn relocated_record(k: KeyShareModel, pairs: Seq<(NodeId, NodeId)>) -> KeyShareModel {
    KeyShareModel {
        author: k.author,
        threshold: k.threshold,
        id_numbers: relocate(k.id_numbers, pairs),
        polynom1: k.polynom1,
        secret_share: k.secret_share,
        common_point: k.common_point,
        encrypted_point: k.encrypted_point,
    }
}

/// The storage change that completes a node `self_id` which agreed on
/// `mapping` (applied in the order `pairs`), holding `key_share` before the
/// move and having received `received`.
pub open spec fn storage_outcome(
    self_id: NodeId,
    mapping: Map<NodeId, NodeId>,
    pairs: Seq<(NodeId, NodeId)>,
    received: Option<KeyShareModel>,
    key_share: Option<KeyShareModel>,
    a: StorageAction,
) -> bool {
    if mapping.contains_key(self_id) {
        a is Remove
    } else {
        match received {
            Some(rec) => match a {
                StorageAction::Insert(k) => k.wf() && k@ == relocated_record(rec, pairs),
                _ => false,
            },
            None => match a {
                StorageAction::Update(k) => k.wf() && k@ == relocated_record(key_share.unwrap(), pairs),
                _ => false,
            },
        }
    }
}

/// The storage change that completes the session of `s`.
pub open spec fn completion_matches(s: SessionImpl, a: StorageAction) -> bool {
    storage_outcome(s.meta().self_node_id, s.mapping(), s.mapping_pairs(), s.received(), s.key_share(), a)
}

/// `after` is `before` completed: finished, with the received share consumed.
pub open spec fn completed(before: SessionImpl, after: SessionImpl) -> bool {
    &&& after.same_identity(&before)
    &&& after.state() == SessionState::Finished
    &&& after.mapping() == before.mapping()
    &&& after.mapping_pairs() == before.mapping_pairs()
    &&& after.init_pending() == before.init_pending()
    &&& after.move_pending() == before.move_pending()
    &&& after.received().is_none()
}

/// Outcome of an initialization proposal from `sender` carrying `m`.
pub open spec fn initialize_session_outcome(s: SessionImpl, sender: NodeId, m: Map<NodeId, NodeId>) -> Result<(), Error> {
    let self_id = s.meta().self_node_id;
    if sender == self_id || sender != s.meta().master_node_id {
        Err(Error::InvalidMessage)
    } else if check_outcome(self_id, m, holders_of(s.key_share())) is Err {
        check_outcome(self_id, m, holders_of(s.key_share()))
    } else if m.contains_key(self_id) && s.key_share().is_none() {
        Err(Error::InvalidMessage)
    } else if !m.contains_key(self_id) && is_destination(m, self_id) && s.key_share().is_some() {
        Err(Error::InvalidMessage)
    } else if s.state() != SessionState::WaitingForInitialization {
        Err(Error::InvalidStateForRequest)
    } else {
        Ok(())
    }
}

/// Outcome of an initialization confirmation from `sender`.
pub open spec fn confirm_initialization_outcome(s: SessionImpl, sender: NodeId) -> Result<(), Error> {
    if sender == s.meta().self_node_id || s.meta().self_node_id != s.meta().master_node_id {
        Err(Error::InvalidMessage)
    } else if s.state() != SessionState::WaitingForInitializationConfirm {
        Err(Error::InvalidStateForRequest)
    } else if !s.init_pending().contains(sender) {
        Err(Error::InvalidMessage)
    } else {
        Ok(())
    }
}

/// Outcome of a move request from `sender`.
pub open spec fn share_move_request_outcome(s: SessionImpl, sender: NodeId) -> Result<(), Error> {
    if sender == s.meta().self_node_id || sender != s.meta().master_node_id {
        Err(Error::InvalidMessage)
    } else if s.state() != SessionState::WaitingForMoveConfirmation {
        Err(Error::InvalidStateForRequest)
    } else if !s.mapping().contains_key(s.meta().self_node_id) {
        Err(Error::InvalidMessage)
    } else {
        Ok(())
    }
}

/// Outcome of a share delivery from `sender`.
pub open spec fn share_move_outcome(s: SessionImpl, sender: NodeId) -> Result<(), Error> {
    if sender == s.meta().self_node_id {
        Err(Error::InvalidMessage)
    } else if s.state() != SessionState::WaitingForMoveConfirmation {
        Err(Error::InvalidStateForRequest)
    } else if !(s.mapping().contains_key(sender) && s.mapping()[sender] == s.meta().self_node_id) {
        Err(Error::InvalidMessage)
    } else {
        Ok(())
    }
}

/// Outcome of a move confirmation from `sender`.
pub open spec fn share_move_confirmation_outcome(s: SessionImpl, sender: NodeId) -> Result<(), Error> {
    if sender == s.meta().self_node_id {
        Err(Error::InvalidMessage)
    } else if s.state() != SessionState::WaitingForMoveConfirmation {
        Err(Error::InvalidStateForRequest)
    } else if !s.move_pending().contains(sender) {
        Err(Error::InvalidMessage)
    } else {
        Ok(())
    }
}

/// `e` sends this node's record to its destination, and nothing else.
pub open spec fn share_move_request_done(before: SessionImpl, e: Effects) -> bool {
    &&& e.storage.is_none()
    &&& e.messages@.len() == 1
    &&& e.messages@[0].0 == before.mapping()[before.meta().self_node_id]
    &&& carries(e.messages@[0].1, before.key_share().unwrap())
    &&& before.stamped(e.messages@[0].1)
}

/// `after` is `before` abandoned: finished, with nothing sent or stored.
pub open spec fn session_error_done(before: SessionImpl, after: SessionImpl, e: Effects) -> bool {
    &&& after.same_identity(&before)
    &&& after.state() == SessionState::Finished
    &&& after.mapping() == before.mapping()
    &&& after.mapping_pairs() == before.mapping_pairs()
    &&& after.init_pending() == before.init_pending()
    &&& after.move_pending() == before.move_pending()
    &&& after.received() == before.received()
    &&& e.messages@.len() == 0
    &&& e.storage.is_none()
}

/// `after` and `e` are what accepting a proposal from `sender` makes of `before`.
pub open spec fn initialize_session_done(before: SessionImpl, after: SessionImpl, sender: NodeId, message: InitializeShareMoveSession, e: Effects) -> bool {
    &&& after.same_identity(&before)
    &&& after.state() == SessionState::WaitingForMoveConfirmation
    &&& after.mapping() == message.shares_to_move@
    &&& after.mapping_pairs() == message.shares_to_move.pairs()
    &&& after.move_pending() == message.shares_to_move@.values()
    &&& after.init_pending() == before.init_pending()
    &&& after.received().is_none()
    &&& e.storage.is_none()
    &&& e.messages@.len() == 1
    &&& e.messages@[0].0 == sender
    &&& e.messages@[0].1 is ConfirmShareMoveInitialization
    &&& after.stamped(e.messages@[0].1)
}

/// `after` and `e` are what counting an initialization confirmation from `sender` makes of `before`.
pub open spec fn confirm_initialization_done(before: SessionImpl, after: SessionImpl, sender: NodeId, e: Effects) -> bool {
    &&& after.same_identity(&before)
    &&& after.init_pending() == before.init_pending().remove(sender)
    &&& after.mapping() == before.mapping()
    &&& after.mapping_pairs() == before.mapping_pairs()
    &&& after.move_pending() == before.move_pending()
    &&& after.received() == before.received()
    &&& e.storage.is_none()
    &&& if after.init_pending() != Set::<NodeId>::empty() {
        &&& after.state() == before.state()
        &&& e.messages@.len() == 0
    } else {
        let self_id = before.meta().self_node_id;
        let n = if before.mapping().contains_key(self_id) {
            e.messages@.len() - 1
        } else {
            e.messages@.len() as int
        };
        &&& after.state() == SessionState::WaitingForMoveConfirmation
        &&& 0 <= n
        &&& reaches_each(e.messages@.take(n), before.mapping().dom().remove(self_id))
        &&& forall|i: int|
            0 <= i < n ==> #[trigger] e.messages@[i].1 is ShareMoveRequest
                && after.stamped(e.messages@[i].1)
        &&& before.mapping().contains_key(self_id) ==> {
            &&& e.messages@[n].0 == before.mapping()[self_id]
            &&& carries(e.messages@[n].1, before.key_share().unwrap())
            &&& after.stamped(e.messages@[n].1)
        }
    }
}

/// `after` and `e` are what accepting the share delivered by `sender` makes of `before`.
pub open spec fn share_move_done(before: SessionImpl, after: SessionImpl, sender: NodeId, message: ShareMove, e: Effects) -> bool {
    let self_id = before.meta().self_node_id;
    let delivered = after.same_identity(&before) && after.mapping() == before.mapping()
        && after.mapping_pairs() == before.mapping_pairs()
        && after.init_pending() == before.init_pending()
        && after.move_pending() == before.move_pending().remove(self_id);
    &&& reaches_each(
        e.messages@,
        before.mapping().values().union(message.key_share@.id_numbers.dom()).remove(self_id),
    )
    &&& forall|i: int|
        0 <= i < e.messages@.len() ==> #[trigger] e.messages@[i].1 is ShareMoveConfirm
            && before.stamped(e.messages@[i].1)
    &&& if before.move_pending().remove(self_id) == Set::<NodeId>::empty() {
        &&& after.same_identity(&before)
        &&& after.state() == SessionState::Finished
        &&& after.mapping() == before.mapping()
        &&& after.mapping_pairs() == before.mapping_pairs()
        &&& after.init_pending() == before.init_pending()
        &&& after.move_pending() == Set::<NodeId>::empty()
        &&& after.received().is_none()
        &&& match e.storage {
            Some(a) => storage_outcome(
                self_id,
                before.mapping(),
                before.mapping_pairs(),
                Some(message.key_share@),
                before.key_share(),
                a,
            ),
            None => false,
        }
    } else {
        &&& delivered
        &&& after.state() == SessionState::WaitingForMoveConfirmation
        &&& after.received() == Some(message.key_share@)
        &&& e.storage.is_none()
    }
}

/// `after` and `e` are what counting a move confirmation from `sender` makes of `before`.
pub open spec fn share_move_confirmation_done(before: SessionImpl, after: SessionImpl, sender: NodeId, e: Effects) -> bool {
    &&& e.messages@.len() == 0
    &&& if before.move_pending().remove(sender) == Set::<NodeId>::empty() {
        &&& after.same_identity(&before)
        &&& after.state() == SessionState::Finished
        &&& after.mapping() == before.mapping()
        &&& after.mapping_pairs() == before.mapping_pairs()
        &&& after.init_pending() == before.init_pending()
        &&& after.move_pending() == Set::<NodeId>::empty()
        &&& after.received().is_none()
        &&& match e.storage {
            Some(a) => completion_matches(before, a),
            None => false,
        }
    } else {
        &&& after.same_identity(&before)
        &&& after.state() == before.state()
        &&& after.mapping() == before.mapping()
        &&& after.mapping_pairs() == before.mapping_pairs()
        &&& after.init_pending() == before.init_pending()
        &&& after.move_pending() == before.move_pending().remove(sender)
        &&& after.received() == before.received()
        &&& e.storage.is_none()
    }
}

impl SessionImpl {
    /// The delivery of this node's own record.
    fn share_message(&self) -> (r: ShareMoveMessage)
        requires
            self.inv(),
            self.key_share().is_some(),
        ensures
            carries(r, self.key_share().unwrap()),
            self.stamped(r),
    {
        let key_share = match &self.core.key_share {
            Some(k) => k.duplicate(),
            None => {
                proof { assert(false); }
                return self.signal(&Signal::MoveRequest);
            },
        };
        ShareMoveMessage::ShareMove(
            ShareMove {
                session: self.core.meta.id,
                sub_session: self.core.sub_session,
                session_nonce: self.core.nonce,
                key_share,
            },
        )
    }

    /// Completes the session on this node, once no move confirmation is outstanding.
    fn complete_session(&mut self) -> (r: StorageAction)
        requires
            old(self).inv(),
            old(self).state() == SessionState::WaitingForMoveConfirmation,
            old(self).move_pending() == Set::<NodeId>::empty(),
        ensures
            final(self).inv(),
            completed(*old(self), *final(self)),
            completion_matches(*old(self), r),
    {
        let self_id = self.core.meta.self_node_id;
        if self.data.shares_to_move.contains_key(self_id) {
            self.data.state = SessionState::Finished;
            self.data.received_key_share = None;
            return StorageAction::Remove;
        }
        let received = self.data.received_key_share.take();
        self.data.state = SessionState::Finished;
        match received {
            Some(mut key_share) => {
                relocate_id_numbers(&mut key_share.id_numbers, &self.data.shares_to_move);
                StorageAction::Insert(key_share)
            },
            None => {
                match &self.core.key_share {
                    Some(k) => {
                        let mut key_share = k.duplicate();
                        relocate_id_numbers(&mut key_share.id_numbers, &self.data.shares_to_move);
                        StorageAction::Update(key_share)
                    },
                    None => {
                        proof {
                            assert(old(self).move_pending().contains(self_id));
                        }
                        StorageAction::Remove
                    },
                }
            },
        }
    }

    /// When initialization request is received.
    pub fn on_initialize_session(&mut self, sender: &NodeId, message: &InitializeShareMoveSession) -> (r: Result<Effects, Error>)
        requires
            old(self).inv(),
            message.shares_to_move.wf(),
        ensures
            final(self).inv(),
            match r {
                Ok(e) => {
                    &&& initialize_session_outcome(*old(self), *sender, message.shares_to_move@) == Ok::<(), Error>(())
                    &&& initialize_session_done(*old(self), *final(self), *sender, *message, e)
                },
                Err(err) => {
                    &&& initialize_session_outcome(*old(self), *sender, message.shares_to_move@) == Err::<(), Error>(err)
                    &&& *final(self) == *old(self)
                },
            },
    {
        let self_id = self.core.meta.self_node_id;
        // awaiting this message from master node only
        if *sender == self_id || *sender != self.core.meta.master_node_id {
            return Err(Error::InvalidMessage);
        }
        let shares_to_move = &message.shares_to_move;
        let holders = match &self.core.key_share {
            Some(k) => Some(&k.id_numbers),
            None => None,
        };
        match check_shares_to_move(&self_id, shares_to_move, holders) {
            Ok(()) => {},
            Err(e) => {
                return Err(e);
            },
        }
        // this node is either old on both (this and master) nodes, or new on both nodes
        if shares_to_move.contains_key(self_id) {
            if self.core.key_share.is_none() {
                return Err(Error::InvalidMessage);
            }
        } else {
            let mut destinations = NodeSet::new();
            shares_to_move.values_into(&mut destinations);
            proof {
                if is_destination(shares_to_move@, self_id) {
                    let k = choose|k: NodeId| #[trigger] shares_to_move@.contains_key(k) && shares_to_move@[k] == self_id;
                    assert(shares_to_move@.values().contains(self_id));
                }
                if destinations@.contains(self_id) {
                    assert(shares_to_move@.values().contains(self_id));
                    let k = choose|k: NodeId| #[trigger] shares_to_move@.contains_key(k) && shares_to_move@[k] == self_id;
                    assert(is_destination(shares_to_move@, self_id));
                }
            }
            if destinations.contains(self_id) && self.core.key_share.is_some() {
                return Err(Error::InvalidMessage);
            }
        }
        if self.data.state != SessionState::WaitingForInitialization {
            return Err(Error::InvalidStateForRequest);
        }
        let mut move_set = NodeSet::new();
        shares_to_move.values_into(&mut move_set);
        proof {
            assert(move_set@ =~= shares_to_move@.values());
            if is_destination(shares_to_move@, self_id) {
                let k = choose|k: NodeId| #[trigger] shares_to_move@.contains_key(k) && shares_to_move@[k] == self_id;
                assert(shares_to_move@.values().contains(self_id));
            }
        }
        let reply = self.signal(&Signal::ConfirmInitialization);
        self.data.state = SessionState::WaitingForMoveConfirmation;
        self.data.shares_to_move = shares_to_move.duplicate();
        self.data.move_confirmations_to_receive = move_set;
        let mut messages: Vec<(NodeId, ShareMoveMessage)> = Vec::new();
        messages.push((*sender, reply));
        Ok(Effects { messages, storage: None })
    }
}

impl SessionImpl {
    /// When session initialization confirmation message is received.
    pub fn on_confirm_initialization(&mut self, sender: &NodeId, message: &ConfirmShareMoveInitialization) -> (r: Result<Effects, Error>)
        requires
            old(self).inv(),
        ensures
            final(self).inv(),
            match r {
                Ok(e) => {
                    &&& confirm_initialization_outcome(*old(self), *sender) == Ok::<(), Error>(())
                    &&& confirm_initialization_done(*old(self), *final(self), *sender, e)
                },
                Err(err) => {
                    &&& confirm_initialization_outcome(*old(self), *sender) == Err::<(), Error>(err)
                    &&& *final(self) == *old(self)
                },
            },
    {
        let self_id = self.core.meta.self_node_id;
        // awaiting this message on master node only
        if *sender == self_id || self_id != self.core.meta.master_node_id {
            return Err(Error::InvalidMessage);
        }
        if self.data.state != SessionState::WaitingForInitializationConfirm {
            return Err(Error::InvalidStateForRequest);
        }
        // do not expect double confirmations
        if !self.data.init_confirmations_to_receive.contains(*sender) {
            return Err(Error::InvalidMessage);
        }
        self.data.init_confirmations_to_receive.remove(*sender);
        // if not all init confirmations are received => return
        if !self.data.init_confirmations_to_receive.is_empty() {
            return Ok(Effects { messages: Vec::new(), storage: None });
        }
        self.data.state = SessionState::WaitingForMoveConfirmation;
        // send share move requests
        let mut sources = NodeSet::new();
        self.data.shares_to_move.keys_into(&mut sources);
        sources.remove(self_id);
        let recipients = sources.to_vec();
        let mut messages = self.signal_each(&recipients, Signal::MoveRequest);
        let ghost requests = messages@;
        assert(sources@ =~= old(self).mapping().dom().remove(self_id));
        assert(reaches_each(requests, old(self).mapping().dom().remove(self_id)));
        // move share if required
        match self.data.shares_to_move.get(self_id) {
            Some(share_destination) => {
                let share = self.share_message();
                messages.push((share_destination, share));
                assert(messages@.take(messages@.len() - 1) =~= requests);
                assert(forall|i: int| 0 <= i < requests.len() ==> messages@[i] == requests[i]);
            },
            None => {
                assert(messages@.take(messages@.len() as int) =~= requests);
            },
        }
        Ok(Effects { messages, storage: None })
    }

    /// When share move request is received.
    pub fn on_share_move_request(&mut self, sender: &NodeId, message: &ShareMoveRequest) -> (r: Result<Effects, Error>)
        requires
            old(self).inv(),
        ensures
            *final(self) == *old(self),
            match r {
                Ok(e) => {
                    &&& share_move_request_outcome(*old(self), *sender) == Ok::<(), Error>(())
                    &&& share_move_request_done(*old(self), e)
                },
                Err(err) => share_move_request_outcome(*old(self), *sender) == Err::<(), Error>(err),
            },
    {
        let self_id = self.core.meta.self_node_id;
        // awaiting this message from master node only
        if *sender == self_id || *sender != self.core.meta.master_node_id {
            return Err(Error::InvalidMessage);
        }
        if self.data.state != SessionState::WaitingForMoveConfirmation {
            return Err(Error::InvalidStateForRequest);
        }
        match self.data.shares_to_move.get(self_id) {
            Some(share_destination) => {
                let share = self.share_message();
                let mut messages: Vec<(NodeId, ShareMoveMessage)> = Vec::new();
                messages.push((share_destination, share));
                Ok(Effects { messages, storage: None })
            },
            None => Err(Error::InvalidMessage),
        }
    }

    /// When moving share is received.
    pub fn on_share_move(&mut self, sender: &NodeId, message: &ShareMove) -> (r: Result<Effects, Error>)
        requires
            old(self).inv(),
            message.key_share.wf(),
        ensures
            final(self).inv(),
            match r {
                Ok(e) => {
                    &&& share_move_outcome(*old(self), *sender) == Ok::<(), Error>(())
                    &&& share_move_done(*old(self), *final(self), *sender, *message, e)
                },
                Err(err) => {
                    &&& share_move_outcome(*old(self), *sender) == Err::<(), Error>(err)
                    &&& *final(self) == *old(self)
                },
            },
    {
        let self_id = self.core.meta.self_node_id;
        if *sender == self_id {
            return Err(Error::InvalidMessage);
        }
        if self.data.state != SessionState::WaitingForMoveConfirmation {
            return Err(Error::InvalidStateForRequest);
        }
        // check that we are expecting this share
        match self.data.shares_to_move.get(*sender) {
            Some(d) => {
                if d != self_id {
                    return Err(Error::InvalidMessage);
                }
            },
            None => {
                return Err(Error::InvalidMessage);
            },
        }
        // update state
        self.data.move_confirmations_to_receive.remove(self_id);
        self.data.received_key_share = Some(message.key_share.duplicate());
        // send confirmation to all other nodes
        let mut all_nodes = NodeSet::new();
        self.data.shares_to_move.values_into(&mut all_nodes);
        message.key_share.id_numbers.keys_into(&mut all_nodes);
        all_nodes.remove(self_id);
        assert(all_nodes@ =~= old(self).mapping().values().union(message.key_share@.id_numbers.dom()).remove(self_id));
        let recipients = all_nodes.to_vec();
        let messages = self.signal_each(&recipients, Signal::MoveConfirm);
        // complete session if this was last share
        if self.data.move_confirmations_to_receive.is_empty() {
            let storage = self.complete_session();
            Ok(Effects { messages, storage: Some(storage) })
        } else {
            Ok(Effects { messages, storage: None })
        }
    }

    /// When a move confirmation is received from a destination node.
    pub fn on_share_move_confirmation(&mut self, sender: &NodeId, message: &ShareMoveConfirm) -> (r: Result<Effects, Error>)
        requires
            old(self).inv(),
        ensures
            final(self).inv(),
            match r {
                Ok(e) => {
                    &&& share_move_confirmation_outcome(*old(self), *sender) == Ok::<(), Error>(())
                    &&& share_move_confirmation_done(*old(self), *final(self), *sender, e)
                },
                Err(err) => {
                    &&& share_move_confirmation_outcome(*old(self), *sender) == Err::<(), Error>(err)
                    &&& *final(self) == *old(self)
                },
            },
    {
        if *sender == self.core.meta.self_node_id {
            return Err(Error::InvalidMessage);
        }
        if self.data.state != SessionState::WaitingForMoveConfirmation {
            return Err(Error::InvalidStateForRequest);
        }
        // do not expect double confirmations
        if !self.data.move_confirmations_to_receive.contains(*sender) {
            return Err(Error::InvalidMessage);
        }
        self.data.move_confirmations_to_receive.remove(*sender);
        if self.data.move_confirmations_to_receive.is_empty() {
            let storage = self.complete_session();
            Ok(Effects { messages: Vec::new(), storage: Some(storage) })
        } else {
            Ok(Effects { messages: Vec::new(), storage: None })
        }
    }

    /// When error has occurred on another node: the session is abandoned.
    pub fn on_session_error(&mut self, sender: &NodeId, message: &ShareMoveError) -> (r: Result<Effects, Error>)
        requires
            old(self).inv(),
        ensures
            final(self).inv(),
            match r {
                Ok(e) => session_error_done(*old(self), *final(self), e),
                Err(_) => false,
            },
    {
        self.data.state = SessionState::Finished;
        Ok(Effects { messages: Vec::new(), storage: None })
    }
}

/// Outcome of handing `msg` from `sender` to the session in state `s`.
pub open spec fn message_outcome(s: SessionImpl, sender: NodeId, msg: ShareMoveMessage) -> Result<(), Error> {
    if msg.spec_session_nonce() != s.nonce() {
        Err(Error::ReplayProtection)
    } else {
        match msg {
            ShareMoveMessage::InitializeShareMoveSession(m) => initialize_session_outcome(s, sender, m.shares_to_move@),
            ShareMoveMessage::ConfirmShareMoveInitialization(_) => confirm_initialization_outcome(s, sender),
            ShareMoveMessage::ShareMoveRequest(_) => share_move_request_outcome(s, sender),
            ShareMoveMessage::ShareMove(_) => share_move_outcome(s, sender),
            ShareMoveMessage::ShareMoveConfirm(_) => share_move_confirmation_outcome(s, sender),
            ShareMoveMessage::ShareMoveError(_) => Ok(()),
        }
    }
}

impl SessionImpl {
    /// Process single message.
    pub fn process_message(&mut self, sender: &NodeId, message: &ShareMoveMessage) -> (r: Result<Effects, Error>)
        requires
            old(self).inv(),
            message.wf(),
        ensures
            final(self).inv(),
            final(self).same_identity(old(self)),
            match r {
                Ok(_) => message_outcome(*old(self), *sender, *message) == Ok::<(), Error>(()),
                Err(err) => {
                    &&& message_outcome(*old(self), *sender, *message) == Err::<(), Error>(err)
                    &&& *final(self) == *old(self)
                },
            },
            r matches Ok(e) ==> match *message {
                ShareMoveMessage::InitializeShareMoveSession(m) => initialize_session_done(*old(self), *final(self), *sender, m, e),
                ShareMoveMessage::ConfirmShareMoveInitialization(_) => confirm_initialization_done(*old(self), *final(self), *sender, e),
                ShareMoveMessage::ShareMoveRequest(_) => *final(self) == *old(self) && share_move_request_done(*old(self), e),
                ShareMoveMessage::ShareMove(m) => share_move_done(*old(self), *final(self), *sender, m, e),
                ShareMoveMessage::ShareMoveConfirm(_) => share_move_confirmation_done(*old(self), *final(self), *sender, e),
                ShareMoveMessage::ShareMoveError(_) => session_error_done(*old(self), *final(self), e),
            },
    {
        if self.core.nonce != message.session_nonce() {
            return Err(Error::ReplayProtection);
        }
        match message {
            ShareMoveMessage::InitializeShareMoveSession(m) => self.on_initialize_session(sender, m),
            ShareMoveMessage::ConfirmShareMoveInitialization(m) => self.on_confirm_initialization(sender, m),
            ShareMoveMessage::ShareMoveRequest(m) => self.on_share_move_request(sender, m),
            ShareMoveMessage::ShareMove(m) => self.on_share_move(sender, m),
            ShareMoveMessage::ShareMoveConfirm(m) => self.on_share_move_confirmation(sender, m),
            ShareMoveMessage::ShareMoveError(m) => self.on_session_error(sender, m),
        }
    }
}

impl Session for SessionImpl {

}

} // verus!
