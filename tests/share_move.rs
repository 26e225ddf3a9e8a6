use share_move::{
    apply_storage, check_shares_to_move, send_all, ConfirmShareMoveInitialization, DocumentKeyShare,
    Error, KeyStorage, NodeId, NodeMap, Secret, SessionId, SessionImpl, SessionMeta, SessionParams,
    SessionTransport, ShareMoveConfirm, ShareMoveError, ShareMoveMessage, ShareMoveRequest,
};
use std::cell::RefCell;
use std::collections::{BTreeMap, VecDeque};

const PRIME: u128 = (1u128 << 61) - 1;
const KEY_ID: SessionId = [7u8; 32];
const SUB_SESSION: Secret = [9u8; 32];
const NONCE: u64 = 1;

fn scalar(v: u64) -> Secret {
    let mut s = [0u8; 32];
    s[..8].copy_from_slice(&v.to_le_bytes());
    s
}

fn value(s: &Secret) -> u128 {
    let mut b = [0u8; 8];
    b.copy_from_slice(&s[..8]);
    u64::from_le_bytes(b) as u128
}

fn pow_mod(mut b: u128, mut e: u128) -> u128 {
    let mut r = 1u128;
    b %= PRIME;
    while e > 0 {
        if e & 1 == 1 {
            r = r * b % PRIME;
        }
        b = b * b % PRIME;
        e >>= 1;
    }
    r
}

/// Lagrange interpolation at zero over the two given points.
fn reconstruct(points: [(u128, u128); 2]) -> u128 {
    let [(x1, y1), (x2, y2)] = points;
    let l1 = x2 * pow_mod((x2 + PRIME - x1) % PRIME, PRIME - 2) % PRIME;
    let l2 = x1 * pow_mod((x1 + PRIME - x2) % PRIME, PRIME - 2) % PRIME;
    (y1 * l1 + y2 * l2) % PRIME
}

// secret 123456789 shared with f(x) = secret + 987654321 x, threshold 1
const SECRET: u128 = 123456789;
const SLOPE: u128 = 987654321;

fn share_at(x: u64) -> u64 {
    ((SECRET + SLOPE * x as u128) % PRIME) as u64
}

const A: NodeId = 1;
const B: NodeId = 2;
const C: NodeId = 3;
const D: NodeId = 4;

fn point_of(n: NodeId) -> u64 {
    n * 11
}

fn record_for(n: NodeId, holders: &[NodeId]) -> DocumentKeyShare {
    let mut ids = NodeMap::new();
    for h in holders {
        ids.insert(*h, scalar(point_of(*h)));
    }
    DocumentKeyShare {
        author: [5u8; 64],
        threshold: 1,
        id_numbers: ids,
        polynom1: vec![[1u8; 64], [2u8; 64]],
        secret_share: scalar(share_at(point_of(n))),
        common_point: None,
        encrypted_point: None,
    }
}

fn meta(self_id: NodeId, master: NodeId) -> SessionMeta {
    SessionMeta { id: KEY_ID, self_node_id: self_id, master_node_id: master, threshold: 1 }
}

fn session(self_id: NodeId, master: NodeId, key_share: Option<DocumentKeyShare>) -> SessionImpl {
    SessionImpl::new_nested(SessionParams { meta: meta(self_id, master), sub_session: SUB_SESSION, nonce: NONCE, key_share })
        .unwrap()
}

fn mapping(pairs: &[(NodeId, NodeId)]) -> NodeMap<NodeId> {
    let mut m = NodeMap::new();
    for (s, d) in pairs {
        m.insert(*s, *d);
    }
    m
}

struct Outbox {
    from: NodeId,
    queue: RefCell<Vec<(NodeId, NodeId, ShareMoveMessage)>>,
}

impl SessionTransport for Outbox {
    fn send(&self, node: &NodeId, message: ShareMoveMessage) -> Result<(), Error> {
        self.queue.borrow_mut().push((self.from, *node, message));
        Ok(())
    }
}

struct Store {
    record: RefCell<Option<DocumentKeyShare>>,
}

impl KeyStorage for Store {
    fn insert(&self, _document: SessionId, key: DocumentKeyShare) -> Result<(), String> {
        let mut r = self.record.borrow_mut();
        if r.is_some() {
            return Err("record exists".to_string());
        }
        *r = Some(key);
        Ok(())
    }

    fn update(&self, _document: SessionId, key: DocumentKeyShare) -> Result<(), String> {
        let mut r = self.record.borrow_mut();
        if r.is_none() {
            return Err("no record".to_string());
        }
        *r = Some(key);
        Ok(())
    }

    fn remove(&self, _document: &SessionId) -> Result<(), String> {
        let mut r = self.record.borrow_mut();
        if r.is_none() {
            return Err("no record".to_string());
        }
        *r = None;
        Ok(())
    }
}

struct Node {
    session: SessionImpl,
    storage: Store,
}

struct MessageLoop {
    nodes: BTreeMap<NodeId, Node>,
    queue: VecDeque<(NodeId, NodeId, ShareMoveMessage)>,
}

impl MessageLoop {
    /// Holders share the key; the new nodes start without a share.
    fn new(master: NodeId, holders: &[NodeId], new_nodes: &[NodeId]) -> Self {
        let mut nodes = BTreeMap::new();
        for h in holders {
            nodes.insert(*h, Node {
                session: session(*h, master, Some(record_for(*h, holders))),
                storage: Store { record: RefCell::new(Some(record_for(*h, holders))) },
            });
        }
        for n in new_nodes {
            nodes.insert(*n, Node { session: session(*n, master, None), storage: Store { record: RefCell::new(None) } });
        }
        MessageLoop { nodes, queue: VecDeque::new() }
    }

    fn perform(&mut self, from: NodeId, result: Result<share_move::Effects, Error>) -> Result<(), Error> {
        let effects = result?;
        let outbox = Outbox { from, queue: RefCell::new(Vec::new()) };
        send_all(&outbox, effects.messages)?;
        self.queue.extend(outbox.queue.into_inner());
        if let Some(action) = effects.storage {
            apply_storage(&self.nodes[&from].storage, KEY_ID, action)?;
        }
        Ok(())
    }

    fn initialize(&mut self, master: NodeId, m: NodeMap<NodeId>) -> Result<(), Error> {
        let result = self.nodes.get_mut(&master).unwrap().session.initialize(m);
        self.perform(master, result)
    }

    fn run(&mut self) {
        while let Some((from, to, message)) = self.queue.pop_front() {
            let result = self.nodes.get_mut(&to).unwrap().session.process_message(&from, &message);
            self.perform(to, result).unwrap();
        }
    }

    fn stored(&self, n: NodeId) -> std::cell::Ref<'_, Option<DocumentKeyShare>> {
        self.nodes[&n].storage.record.borrow()
    }
}

#[test]
fn node_moved_using_share_move() {
    // initial 2-of-3 session
    let (t, n) = (1usize, 3usize);
    let holders = [A, B, C];
    let master = A;
    let source_node = B;
    let target_node = D;
    let mut ml = MessageLoop::new(master, &holders, &[target_node]);
    ml.initialize(master, mapping(&[(source_node, target_node)])).unwrap();
    ml.run();

    // try to recover secret for every possible combination of nodes and check that secret is the same
    let keys: Vec<NodeId> = ml.nodes.keys().cloned().collect();
    for n1 in 0..n + 1 {
        for n2 in n1 + 1..n + 1 {
            let node1 = keys[n1];
            let node2 = keys[n2];
            if node1 == source_node {
                assert!(ml.stored(node1).is_none());
                continue;
            }
            if node2 == source_node {
                assert!(ml.stored(node2).is_none());
                continue;
            }
            let share1 = ml.stored(node1);
            let share2 = ml.stored(node2);
            let share1 = share1.as_ref().unwrap();
            let share2 = share2.as_ref().unwrap();
            assert_eq!(share1.threshold, t);
            let id_number1 = share1.id_numbers.get(node1).unwrap();
            let id_number2 = share1.id_numbers.get(node2).unwrap();
            let recovered = reconstruct([
                (value(&id_number1), value(&share1.secret_share)),
                (value(&id_number2), value(&share2.secret_share)),
            ]);
            assert_eq!(recovered, SECRET);
        }
    }
}

#[test]
fn move_to_new_node_relabels_points_everywhere() {
    let mut ml = MessageLoop::new(A, &[A, B, C], &[D]);
    ml.initialize(A, mapping(&[(B, D)])).unwrap();
    ml.run();
    assert!(ml.stored(B).is_none());
    for n in [A, C, D] {
        let rec = ml.stored(n);
        let rec = rec.as_ref().unwrap();
        assert_eq!(rec.id_numbers.len(), 3);
        assert_eq!(rec.id_numbers.get(A), Some(scalar(point_of(A))));
        assert_eq!(rec.id_numbers.get(C), Some(scalar(point_of(C))));
        assert_eq!(rec.id_numbers.get(D), Some(scalar(point_of(B))));
        assert_eq!(rec.id_numbers.get(B), None);
        assert_eq!(rec.threshold, 1);
        assert_eq!(rec.polynom1, vec![[1u8; 64], [2u8; 64]]);
    }
    // the joining node holds the departed node's share
    assert_eq!(ml.stored(D).as_ref().unwrap().secret_share, scalar(share_at(point_of(B))));
    for n in [A, B, C, D] {
        assert!(ml.nodes[&n].session.is_finished());
    }
    let pairs = [(A, C), (A, D), (C, D)];
    for (x, y) in pairs {
        let rx = ml.stored(x);
        let ry = ml.stored(y);
        let rx = rx.as_ref().unwrap();
        let ry = ry.as_ref().unwrap();
        let recovered = reconstruct([
            (value(&rx.id_numbers.get(x).unwrap()), value(&rx.secret_share)),
            (value(&ry.id_numbers.get(y).unwrap()), value(&ry.secret_share)),
        ]);
        assert_eq!(recovered, SECRET);
    }
}

#[test]
fn master_moves_its_own_share() {
    let mut ml = MessageLoop::new(A, &[A, B, C], &[D, 5]);
    ml.initialize(A, mapping(&[(A, D), (C, 5)])).unwrap();
    ml.run();
    assert!(ml.stored(A).is_none());
    assert!(ml.stored(C).is_none());
    for n in [B, D, 5] {
        let rec = ml.stored(n);
        let rec = rec.as_ref().unwrap();
        assert_eq!(rec.id_numbers.len(), 3);
        assert_eq!(rec.id_numbers.get(B), Some(scalar(point_of(B))));
        assert_eq!(rec.id_numbers.get(D), Some(scalar(point_of(A))));
        assert_eq!(rec.id_numbers.get(5), Some(scalar(point_of(C))));
    }
}

#[test]
fn two_sources_to_one_destination_rejected() {
    let mut ml = MessageLoop::new(A, &[A, B, C], &[D]);
    let r = ml.initialize(A, mapping(&[(B, D), (C, D)]));
    assert_eq!(r, Err(Error::InvalidNodesConfiguration));
    assert!(ml.queue.is_empty());
    // the session is untouched and can still be initialized
    ml.initialize(A, mapping(&[(B, D)])).unwrap();
    assert_eq!(ml.queue.len(), 3);
}

#[test]
fn non_master_initialize_rejected() {
    let mut s = session(B, A, Some(record_for(B, &[A, B, C])));
    assert_eq!(s.initialize(mapping(&[(C, D)])).err(), Some(Error::InvalidMessage));
    let mut ml = MessageLoop::new(A, &[A, B, C], &[D]);
    assert_eq!(ml.initialize(B, mapping(&[(C, D)])), Err(Error::InvalidMessage));
    assert!(ml.queue.is_empty());
}

#[test]
fn initialize_sends_proposal_to_holders_and_destinations() {
    let mut s = session(A, A, Some(record_for(A, &[A, B, C])));
    let e = s.initialize(mapping(&[(B, D)])).unwrap();
    assert!(e.storage.is_none());
    let mut to: Vec<NodeId> = e.messages.iter().map(|m| m.0).collect();
    to.sort();
    assert_eq!(to, vec![B, C, D]);
    for (_, msg) in &e.messages {
        match msg {
            ShareMoveMessage::InitializeShareMoveSession(m) => {
                assert_eq!(m.session_nonce, NONCE);
                assert_eq!(m.session, KEY_ID);
                assert_eq!(m.shares_to_move.get(B), Some(D));
                assert_eq!(m.shares_to_move.len(), 1);
            },
            _ => panic!("unexpected message"),
        }
    }
    // a second initialization is refused
    assert_eq!(s.initialize(mapping(&[(B, D)])).err(), Some(Error::InvalidStateForRequest));
}

fn confirm_init() -> ShareMoveMessage {
    ShareMoveMessage::ConfirmShareMoveInitialization(ConfirmShareMoveInitialization {
        session: KEY_ID,
        sub_session: SUB_SESSION,
        session_nonce: NONCE,
    })
}

fn move_confirm(nonce: u64) -> ShareMoveMessage {
    ShareMoveMessage::ShareMoveConfirm(ShareMoveConfirm { session: KEY_ID, sub_session: SUB_SESSION, session_nonce: nonce })
}

#[test]
fn nonce_mismatch_rejected_before_any_change() {
    let mut s = session(A, A, Some(record_for(A, &[A, B, C])));
    s.initialize(mapping(&[(B, D)])).unwrap();
    let wrong = ShareMoveMessage::ConfirmShareMoveInitialization(ConfirmShareMoveInitialization {
        session: KEY_ID,
        sub_session: SUB_SESSION,
        session_nonce: NONCE + 1,
    });
    assert_eq!(s.process_message(&B, &wrong).err(), Some(Error::ReplayProtection));
    // B's confirmation is still outstanding
    assert!(s.process_message(&B, &confirm_init()).is_ok());
    let err = ShareMoveMessage::ShareMoveError(ShareMoveError {
        session: KEY_ID,
        sub_session: SUB_SESSION,
        session_nonce: 5,
        error: "failed".to_string(),
    });
    assert_eq!(s.process_message(&C, &err).err(), Some(Error::ReplayProtection));
    assert!(!s.is_finished());
}

#[test]
fn second_init_confirmation_rejected() {
    let mut s = session(A, A, Some(record_for(A, &[A, B, C])));
    s.initialize(mapping(&[(B, D)])).unwrap();
    let e = s.process_message(&B, &confirm_init()).unwrap();
    assert!(e.messages.is_empty());
    assert_eq!(s.process_message(&B, &confirm_init()).err(), Some(Error::InvalidMessage));
    // the outstanding set still holds C and D
    assert!(s.process_message(&C, &confirm_init()).unwrap().messages.is_empty());
    let e = s.process_message(&D, &confirm_init()).unwrap();
    assert_eq!(e.messages.len(), 1);
    assert_eq!(e.messages[0].0, B);
    assert!(matches!(e.messages[0].1, ShareMoveMessage::ShareMoveRequest(_)));
}

#[test]
fn second_move_confirmation_rejected() {
    // node C stays; it waits for D's move confirmation only
    let mut s = session(C, A, Some(record_for(C, &[A, B, C])));
    let proposal = ShareMoveMessage::InitializeShareMoveSession(share_move::InitializeShareMoveSession {
        session: KEY_ID,
        sub_session: SUB_SESSION,
        session_nonce: NONCE,
        shares_to_move: mapping(&[(B, D), (A, 5)]),
    });
    let e = s.process_message(&A, &proposal).unwrap();
    assert_eq!(e.messages.len(), 1);
    assert_eq!(e.messages[0].0, A);
    let e = s.process_message(&D, &move_confirm(NONCE)).unwrap();
    assert!(e.storage.is_none());
    assert_eq!(s.process_message(&D, &move_confirm(NONCE)).err(), Some(Error::InvalidMessage));
    // 5 is still outstanding; its confirmation completes the session
    let e = s.process_message(&5, &move_confirm(NONCE)).unwrap();
    match e.storage {
        Some(share_move::StorageAction::Update(rec)) => {
            assert_eq!(rec.id_numbers.get(D), Some(scalar(point_of(B))));
            assert_eq!(rec.id_numbers.get(5), Some(scalar(point_of(A))));
            assert_eq!(rec.id_numbers.get(C), Some(scalar(point_of(C))));
            assert_eq!(rec.id_numbers.len(), 3);
        },
        _ => panic!("expected an update"),
    }
    assert!(s.is_finished());
    assert_eq!(s.process_message(&5, &move_confirm(NONCE)).err(), Some(Error::InvalidStateForRequest));
}

#[test]
fn session_error_finishes_session() {
    let mut s = session(C, A, Some(record_for(C, &[A, B, C])));
    let err = ShareMoveMessage::ShareMoveError(ShareMoveError {
        session: KEY_ID,
        sub_session: SUB_SESSION,
        session_nonce: NONCE,
        error: "node failed".to_string(),
    });
    let e = s.process_message(&B, &err).unwrap();
    assert!(e.messages.is_empty());
    assert!(e.storage.is_none());
    assert!(s.is_finished());
    // no further work is accepted
    let request = ShareMoveMessage::ShareMoveRequest(ShareMoveRequest { session: KEY_ID, sub_session: SUB_SESSION, session_nonce: NONCE });
    assert_eq!(s.process_message(&A, &request).err(), Some(Error::InvalidStateForRequest));
}

#[test]
fn proposal_from_non_master_rejected() {
    let mut s = session(C, A, Some(record_for(C, &[A, B, C])));
    let proposal = share_move::InitializeShareMoveSession {
        session: KEY_ID,
        sub_session: SUB_SESSION,
        session_nonce: NONCE,
        shares_to_move: mapping(&[(B, D)]),
    };
    assert_eq!(s.on_initialize_session(&B, &proposal).err(), Some(Error::InvalidMessage));
    assert!(s.on_initialize_session(&A, &proposal).is_ok());
    assert_eq!(s.on_initialize_session(&A, &proposal).err(), Some(Error::InvalidStateForRequest));
}

#[test]
fn node_without_share_must_be_destination() {
    // a node without a share that is not a destination cannot take part
    let mut s = session(D, A, None);
    let proposal = share_move::InitializeShareMoveSession {
        session: KEY_ID,
        sub_session: SUB_SESSION,
        session_nonce: NONCE,
        shares_to_move: mapping(&[(B, 5)]),
    };
    assert_eq!(s.on_initialize_session(&A, &proposal).err(), Some(Error::InvalidMessage));
}

#[test]
fn unassigned_share_delivery_rejected() {
    let mut s = session(D, A, None);
    let proposal = share_move::InitializeShareMoveSession {
        session: KEY_ID,
        sub_session: SUB_SESSION,
        session_nonce: NONCE,
        shares_to_move: mapping(&[(B, D)]),
    };
    s.on_initialize_session(&A, &proposal).unwrap();
    let delivery = share_move::ShareMove { session: KEY_ID, sub_session: SUB_SESSION, session_nonce: NONCE, key_share: record_for(C, &[A, B, C]) };
    assert_eq!(s.on_share_move(&C, &delivery).err(), Some(Error::InvalidMessage));
    let delivery = share_move::ShareMove { session: KEY_ID, sub_session: SUB_SESSION, session_nonce: NONCE, key_share: record_for(B, &[A, B, C]) };
    let e = s.on_share_move(&B, &delivery).unwrap();
    let mut to: Vec<NodeId> = e.messages.iter().map(|m| m.0).collect();
    to.sort();
    assert_eq!(to, vec![A, B, C]);
    match e.storage {
        Some(share_move::StorageAction::Insert(rec)) => {
            assert_eq!(rec.secret_share, scalar(share_at(point_of(B))));
            assert_eq!(rec.id_numbers.get(D), Some(scalar(point_of(B))));
            assert_eq!(rec.id_numbers.get(B), None);
        },
        _ => panic!("expected an insert"),
    }
}

#[test]
fn share_move_request_only_from_master_to_source() {
    let mut s = session(B, A, Some(record_for(B, &[A, B, C])));
    let request = ShareMoveRequest { session: KEY_ID, sub_session: SUB_SESSION, session_nonce: NONCE };
    assert_eq!(s.on_share_move_request(&A, &request).err(), Some(Error::InvalidStateForRequest));
    let proposal = share_move::InitializeShareMoveSession {
        session: KEY_ID,
        sub_session: SUB_SESSION,
        session_nonce: NONCE,
        shares_to_move: mapping(&[(B, D)]),
    };
    s.on_initialize_session(&A, &proposal).unwrap();
    assert_eq!(s.on_share_move_request(&C, &request).err(), Some(Error::InvalidMessage));
    let e = s.on_share_move_request(&A, &request).unwrap();
    assert_eq!(e.messages.len(), 1);
    assert_eq!(e.messages[0].0, D);
    match &e.messages[0].1 {
        ShareMoveMessage::ShareMove(m) => assert_eq!(m.key_share.secret_share, scalar(share_at(point_of(B)))),
        _ => panic!("expected a share"),
    }
}

#[test]
fn check_shares_to_move_rules() {
    let holders = record_for(A, &[A, B, C]).id_numbers;
    assert_eq!(check_shares_to_move(&A, &mapping(&[]), Some(&holders)), Err(Error::InvalidMessage));
    assert_eq!(check_shares_to_move(&A, &mapping(&[(B, D)]), Some(&holders)), Ok(()));
    // a source that holds no share
    assert_eq!(check_shares_to_move(&A, &mapping(&[(D, 5)]), Some(&holders)), Err(Error::InvalidNodesConfiguration));
    // a destination that already holds a share
    assert_eq!(check_shares_to_move(&A, &mapping(&[(B, C)]), Some(&holders)), Err(Error::InvalidNodesConfiguration));
    // two sources, one destination
    assert_eq!(check_shares_to_move(&A, &mapping(&[(B, D), (C, D)]), Some(&holders)), Err(Error::InvalidNodesConfiguration));
    // without a view of the holders
    assert_eq!(check_shares_to_move(&D, &mapping(&[(B, D)]), None), Ok(()));
    assert_eq!(check_shares_to_move(&D, &mapping(&[(D, 5)]), None), Err(Error::InvalidMessage));
    assert_eq!(check_shares_to_move(&D, &mapping(&[(B, 5)]), None), Err(Error::InvalidMessage));
    assert_eq!(check_shares_to_move(&D, &mapping(&[(B, D), (C, D)]), None), Err(Error::InvalidNodesConfiguration));
}

#[test]
fn node_map_replaces_and_removes() {
    let mut m = mapping(&[(B, D)]);
    m.insert(B, 5);
    assert_eq!(m.len(), 1);
    assert_eq!(m.get(B), Some(5));
    assert_eq!(m.remove(B), Some(5));
    assert_eq!(m.remove(B), None);
    assert_eq!(m.len(), 0);
}

#[test]
fn timeouts_change_nothing() {
    let mut s = session(A, A, Some(record_for(A, &[A, B, C])));
    s.on_session_timeout();
    s.on_node_timeout(&B);
    assert!(!s.is_finished());
    assert!(s.initialize(mapping(&[(B, D)])).is_ok());
}

#[test]
fn storage_failure_is_a_key_storage_error() {
    let store = Store { record: RefCell::new(None) };
    let r = apply_storage(&store, KEY_ID, share_move::StorageAction::Remove);
    assert_eq!(r, Err(Error::KeyStorage("no record".to_string())));
}

struct DownTransport {
    attempts: RefCell<usize>,
}

impl SessionTransport for DownTransport {
    fn send(&self, _node: &NodeId, _message: ShareMoveMessage) -> Result<(), Error> {
        *self.attempts.borrow_mut() += 1;
        Err(Error::Transport("down".to_string()))
    }
}

#[test]
fn transport_failure_stops_sending() {
    let mut s = session(A, A, Some(record_for(A, &[A, B, C])));
    let e = s.initialize(mapping(&[(B, D)])).unwrap();
    assert_eq!(e.messages.len(), 3);
    let t = DownTransport { attempts: RefCell::new(0) };
    assert_eq!(send_all(&t, e.messages), Err(Error::Transport("down".to_string())));
    assert_eq!(*t.attempts.borrow(), 1);
    assert_eq!(send_all(&t, Vec::new()), Ok(()));
}
