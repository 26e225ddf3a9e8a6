use vstd::prelude::*;
use crate::nodes::NodeId;
use crate::relocation::relocate;
use crate::session::{
    completion_matches, confirm_initialization_outcome, share_move_confirmation_outcome, SessionImpl,
    SessionState, StorageAction,
};
use crate::types::{Error, Secret};
use crate::validation::{destinations_distinct, is_destination, moves_old_to_new};

verus! {

/// The pairs move holders to non-holders, from distinct sources to distinct destinations.
spec fn valid_pairs(ids: Map<NodeId, Secret>, p: Seq<(NodeId, NodeId)>) -> bool {
    &&& forall|i: int, j: int| 0 <= i < j < p.len() ==> #[trigger] p[i].0 != #[trigger] p[j].0
    &&& forall|i: int, j: int| 0 <= i < j < p.len() ==> #[trigger] p[i].1 != #[trigger] p[j].1
    &&& forall|i: int| 0 <= i < p.len() ==> ids.contains_key(#[trigger] p[i].0) && !ids.contains_key(p[i].1)
}

spec fn is_source_in(p: Seq<(NodeId, NodeId)>, k: NodeId) -> bool {
    exists|i: int| 0 <= i < p.len() && #[trigger] p[i].0 == k
}

spec fn is_target_in(p: Seq<(NodeId, NodeId)>, k: NodeId) -> bool {
    exists|i: int| 0 <= i < p.len() && #[trigger] p[i].1 == k
}

proof fn lemma_relocate_pairs(ids: Map<NodeId, Secret>, p: Seq<(NodeId, NodeId)>)
    requires
        valid_pairs(ids, p),
    ensures
        forall|i: int|
            0 <= i < p.len() ==> !relocate(ids, p).contains_key(#[trigger] p[i].0)
                && relocate(ids, p).contains_key(p[i].1) && relocate(ids, p)[p[i].1] == ids[p[i].0],
        forall|k: NodeId|
            ids.contains_key(k) && !is_source_in(p, k) ==> #[trigger] relocate(ids, p).contains_key(k)
                && relocate(ids, p)[k] == ids[k],
        forall|k: NodeId|
            #[trigger] relocate(ids, p).contains_key(k) ==> (ids.contains_key(k) && !is_source_in(p, k))
                || is_target_in(p, k),
    decreases p.len(),
{
    if p.len() > 0 {
        let q = p.drop_last();
        let s = p.last().0;
        let d = p.last().1;
        assert(valid_pairs(ids, q)) by {
            assert forall|i: int, j: int| 0 <= i < j < q.len() implies #[trigger] q[i].0 != #[trigger] q[j].0 by {
                assert(q[i] == p[i] && q[j] == p[j]);
            }
            assert forall|i: int, j: int| 0 <= i < j < q.len() implies #[trigger] q[i].1 != #[trigger] q[j].1 by {
                assert(q[i] == p[i] && q[j] == p[j]);
            }
            assert forall|i: int| 0 <= i < q.len() implies ids.contains_key(#[trigger] q[i].0) && !ids.contains_key(q[i].1) by {
                assert(q[i] == p[i]);
            }
        }
        lemma_relocate_pairs(ids, q);
        let r0 = relocate(ids, q);
        let n = p.len() - 1;
        assert(ids.contains_key(s) && !ids.contains_key(d)) by {
            assert(p[n] == p.last());
        }
        assert(!is_source_in(q, s)) by {
            if is_source_in(q, s) {
                let i = choose|i: int| 0 <= i < q.len() && #[trigger] q[i].0 == s;
                assert(p[i].0 != p[n].0);
            }
        }
        assert(r0.contains_key(s) && r0[s] == ids[s]);
        let r = relocate(ids, p);
        assert(r == r0.remove(s).insert(d, ids[s]));
        assert forall|i: int| 0 <= i < p.len() implies !r.contains_key(#[trigger] p[i].0) && r.contains_key(p[i].1)
            && r[p[i].1] == ids[p[i].0] by {
            if i < n {
                assert(q[i] == p[i]);
                assert(p[i].0 != s);
                assert(p[i].1 != d);
                assert(ids.contains_key(p[i].0));
            }
        }
        assert forall|k: NodeId| ids.contains_key(k) && !is_source_in(p, k) implies #[trigger] r.contains_key(k)
            && r[k] == ids[k] by {
            assert(p[n].0 == s);
            if is_source_in(q, k) {
                let i = choose|i: int| 0 <= i < q.len() && #[trigger] q[i].0 == k;
                assert(p[i].0 == k);
            }
        }
        assert forall|k: NodeId| #[trigger] r.contains_key(k) implies (ids.contains_key(k) && !is_source_in(p, k))
            || is_target_in(p, k) by {
            if k == d {
                assert(p[n].1 == d);
            } else {
                assert(r0.contains_key(k) && k != s);
                if is_target_in(q, k) {
                    let i = choose|i: int| 0 <= i < q.len() && #[trigger] q[i].1 == k;
                    assert(p[i].1 == k);
                } else if is_source_in(p, k) {
                    let i = choose|i: int| 0 <= i < p.len() && #[trigger] p[i].0 == k;
                    if i < n {
                        assert(q[i].0 == k);
                    }
                }
            }
        }
    }
}

/// `p` lists the entries of `m`, each once.
pub open spec fn lists(p: Seq<(NodeId, NodeId)>, m: Map<NodeId, NodeId>) -> bool {
    &&& forall|i: int, j: int| 0 <= i < j < p.len() ==> #[trigger] p[i].0 != #[trigger] p[j].0
    &&& forall|i: int| 0 <= i < p.len() ==> #[trigger] m.contains_key(p[i].0) && m[p[i].0] == p[i].1
    &&& forall|k: NodeId| #[trigger] m.contains_key(k) ==> exists|i: int| 0 <= i < p.len() && #[trigger] p[i].0 == k
}

/// Re-indexing by a valid mapping relabels slots and nothing else: each source
/// leaves the holder map, its destination takes over the source's evaluation
/// point, every other holder keeps its own, and no one else appears. The order
/// in which the pairs are applied does not matter.
pub proof fn lemma_relocation_moves_points(ids: Map<NodeId, Secret>, m: Map<NodeId, NodeId>, p: Seq<(NodeId, NodeId)>)
    requires
        lists(p, m),
        moves_old_to_new(m, ids.dom()),
        destinations_distinct(m),
    ensures
        forall|s: NodeId|
            #[trigger] m.contains_key(s) ==> !relocate(ids, p).contains_key(s)
                && relocate(ids, p).contains_key(m[s])
                && relocate(ids, p)[m[s]] == ids[s],
        forall|k: NodeId|
            ids.contains_key(k) && !m.contains_key(k) ==> #[trigger] relocate(ids, p).contains_key(k)
                && relocate(ids, p)[k] == ids[k],
        forall|k: NodeId|
            #[trigger] relocate(ids, p).contains_key(k) ==> (ids.contains_key(k) && !m.contains_key(k))
                || is_destination(m, k),
{
    assert(valid_pairs(ids, p)) by {
        assert forall|i: int, j: int| 0 <= i < j < p.len() implies #[trigger] p[i].1 != #[trigger] p[j].1 by {
            assert(m.contains_key(p[i].0) && m.contains_key(p[j].0));
        }
        assert forall|i: int| 0 <= i < p.len() implies ids.contains_key(#[trigger] p[i].0) && !ids.contains_key(p[i].1) by {
            assert(m.contains_key(p[i].0));
        }
    }
    lemma_relocate_pairs(ids, p);
    let r = relocate(ids, p);
    assert forall|s: NodeId| #[trigger] m.contains_key(s) implies !r.contains_key(s) && r.contains_key(m[s])
        && r[m[s]] == ids[s] by {
        let i = choose|i: int| 0 <= i < p.len() && #[trigger] p[i].0 == s;
        assert(m.contains_key(p[i].0));
    }
    assert forall|k: NodeId| ids.contains_key(k) && !m.contains_key(k) implies #[trigger] r.contains_key(k)
        && r[k] == ids[k] by {
        if is_source_in(p, k) {
            let i = choose|i: int| 0 <= i < p.len() && #[trigger] p[i].0 == k;
            assert(m.contains_key(p[i].0));
        }
    }
    assert forall|k: NodeId| #[trigger] r.contains_key(k) implies (ids.contains_key(k) && !m.contains_key(k))
        || is_destination(m, k) by {
        if is_target_in(p, k) {
            let i = choose|i: int| 0 <= i < p.len() && #[trigger] p[i].1 == k;
            assert(m.contains_key(p[i].0));
        } else {
            if m.contains_key(k) {
                let i = choose|i: int| 0 <= i < p.len() && #[trigger] p[i].0 == k;
            }
        }
    }
}

/// A move keeps the set of evaluation points: the holders after it own exactly
/// the points that the holders before it owned, so any threshold-sized group
/// of them reconstructs the same secret.
pub proof fn lemma_points_preserved(ids: Map<NodeId, Secret>, m: Map<NodeId, NodeId>, p: Seq<(NodeId, NodeId)>)
    requires
        lists(p, m),
        moves_old_to_new(m, ids.dom()),
        destinations_distinct(m),
    ensures
        relocate(ids, p).values() == ids.values(),
{
    lemma_relocation_moves_points(ids, m, p);
    let r = relocate(ids, p);
    assert forall|v: Secret| r.values().contains(v) implies ids.values().contains(v) by {
        let k = choose|k: NodeId| #[trigger] r.contains_key(k) && r[k] == v;
        if !(ids.contains_key(k) && !m.contains_key(k)) {
            let s = choose|s: NodeId| #[trigger] m.contains_key(s) && m[s] == k;
            assert(ids.contains_key(s));
        }
    }
    assert forall|v: Secret| ids.values().contains(v) implies r.values().contains(v) by {
        let k = choose|k: NodeId| #[trigger] ids.contains_key(k) && ids[k] == v;
        if m.contains_key(k) {
            assert(r.contains_key(m[k]));
        } else {
            assert(r.contains_key(k));
        }
    }
    assert(r.values() =~= ids.values());
}

/// A holder that is not a source completes by replacing its record with the
/// same record re-indexed: author, threshold, commitments and its own share
/// unchanged; each source's evaluation point now owned by its destination;
/// every other holder's point unchanged.
pub proof fn lemma_staying_holder_completion(s: SessionImpl, a: StorageAction)
    requires
        s.inv(),
        s.state() == SessionState::WaitingForMoveConfirmation,
        s.key_share() is Some,
        !s.mapping().contains_key(s.meta().self_node_id),
        s.received() is None,
        completion_matches(s, a),
    ensures
        match a {
            StorageAction::Update(k) => {
                let prior = s.key_share().unwrap();
                &&& k@.author == prior.author
                &&& k@.threshold == prior.threshold
                &&& k@.polynom1 == prior.polynom1
                &&& k@.secret_share == prior.secret_share
                &&& forall|src: NodeId|
                    #[trigger] s.mapping().contains_key(src) ==> !k@.id_numbers.contains_key(src)
                        && k@.id_numbers.contains_key(s.mapping()[src])
                        && k@.id_numbers[s.mapping()[src]] == prior.id_numbers[src]
                &&& forall|h: NodeId|
                    prior.id_numbers.contains_key(h) && !s.mapping().contains_key(h)
                        ==> #[trigger] k@.id_numbers.contains_key(h) && k@.id_numbers[h] == prior.id_numbers[h]
                &&& k@.id_numbers.values() == prior.id_numbers.values()
            },
            _ => false,
        },
{
    s.lemma_accepted_mapping();
    let ids = s.key_share().unwrap().id_numbers;
    lemma_relocation_moves_points(ids, s.mapping(), s.mapping_pairs());
    lemma_points_preserved(ids, s.mapping(), s.mapping_pairs());
}

/// Once an initialization confirmation from `sender` has been counted, a
/// second one from the same sender is rejected.
pub proof fn lemma_second_init_confirmation_rejected(before: SessionImpl, after: SessionImpl, sender: NodeId)
    requires
        confirm_initialization_outcome(before, sender) == Ok::<(), Error>(()),
        after.same_identity(&before),
        after.init_pending() == before.init_pending().remove(sender),
    ensures
        confirm_initialization_outcome(after, sender) is Err,
{
}

/// Once a move confirmation from `sender` has been counted, a second one from
/// the same sender is rejected, whether or not the session completed meanwhile.
pub proof fn lemma_second_move_confirmation_rejected(before: SessionImpl, after: SessionImpl, sender: NodeId)
    requires
        share_move_confirmation_outcome(before, sender) == Ok::<(), Error>(()),
        after.same_identity(&before),
        after.state() == SessionState::Finished || after.move_pending() == before.move_pending().remove(sender),
    ensures
        share_move_confirmation_outcome(after, sender) is Err,
{
}

/// A destination completes by storing the record it received, re-indexed:
/// author, threshold, commitments and the delivered share unchanged, and,
/// where the delivered record lists the same holders that the mapping was
/// checked against, this node owning its source's evaluation point.
pub proof fn lemma_joining_node_completion(s: SessionImpl, a: StorageAction)
    requires
        s.inv(),
        s.state() == SessionState::WaitingForMoveConfirmation,
        !s.mapping().contains_key(s.meta().self_node_id),
        s.received() is Some,
        moves_old_to_new(s.mapping(), s.received().unwrap().id_numbers.dom()),
        completion_matches(s, a),
    ensures
        match a {
            StorageAction::Insert(k) => {
                let delivered = s.received().unwrap();
                &&& k@.author == delivered.author
                &&& k@.threshold == delivered.threshold
                &&& k@.polynom1 == delivered.polynom1
                &&& k@.secret_share == delivered.secret_share
                &&& forall|src: NodeId|
                    #[trigger] s.mapping().contains_key(src) ==> !k@.id_numbers.contains_key(src)
                        && k@.id_numbers.contains_key(s.mapping()[src])
                        && k@.id_numbers[s.mapping()[src]] == delivered.id_numbers[src]
                &&& forall|h: NodeId|
                    delivered.id_numbers.contains_key(h) && !s.mapping().contains_key(h)
                        ==> #[trigger] k@.id_numbers.contains_key(h) && k@.id_numbers[h] == delivered.id_numbers[h]
                &&& k@.id_numbers.values() == delivered.id_numbers.values()
            },
            _ => false,
        },
{
    s.lemma_accepted_mapping();
    let ids = s.received().unwrap().id_numbers;
    lemma_relocation_moves_points(ids, s.mapping(), s.mapping_pairs());
    lemma_points_preserved(ids, s.mapping(), s.mapping_pairs());
}

} // verus!
