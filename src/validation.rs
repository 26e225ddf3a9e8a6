use vstd::prelude::*;
use crate::nodes::{NodeId, NodeMap};
use crate::types::{Error, Secret};

verus! {

/// Some source maps to `n`.
pub open spec fn is_destination(m: Map<NodeId, NodeId>, n: NodeId) -> bool {
    exists|k: NodeId| #[trigger] m.contains_key(k) && m[k] == n
}

/// No two sources map to the same destination.
pub open spec fn destinations_distinct(m: Map<NodeId, NodeId>) -> bool {
    forall|a: NodeId, b: NodeId|
        #[trigger] m.contains_key(a) && #[trigger] m.contains_key(b) && a != b ==> m[a] != m[b]
}

/// Every source is a holder and no destination is one.
pub open spec fn moves_old_to_new(m: Map<NodeId, NodeId>, holders: Set<NodeId>) -> bool {
    forall|k: NodeId| #[trigger] m.contains_key(k) ==> holders.contains(k) && !holders.contains(m[k])
}

/// Outcome of checking mapping `m` at node `self_id`, which sees the current
/// holders as `holders` when it has a share of its own.
pub open spec fn check_outcome(
    self_id: NodeId,
    m: Map<NodeId, NodeId>,
    holders: Option<Set<NodeId>>,
) -> Result<(), Error> {
    if m.dom() == Set::<NodeId>::empty() {
        Err(Error::InvalidMessage)
    } else {
        let local = match holders {
            Some(h) => if moves_old_to_new(m, h) {
                Ok(())
            } else {
                Err(Error::InvalidNodesConfiguration)
            },
            None => if m.contains_key(self_id) || !is_destination(m, self_id) {
                Err(Error::InvalidMessage)
            } else {
                Ok(())
            },
        };
        match local {
            Err(e) => Err(e),
            Ok(()) => if destinations_distinct(m) {
                Ok(())
            } else {
                Err(Error::InvalidNodesConfiguration)
            },
        }
    }
}

/// The holders that a node sees through its own record, if it has one.
pub open spec fn holder_view(id_numbers: Option<&NodeMap<Secret>>) -> Option<Set<NodeId>> {
    match id_numbers {
        Some(ids) => Some(ids@.dom()),
        None => None,
    }
}

/// Checks a proposed source to destination mapping against this node's view.
pub fn check_shares_to_move(
    self_node_id: &NodeId,
    shares_to_move: &NodeMap<NodeId>,
    id_numbers: Option<&NodeMap<Secret>>,
) -> (r: Result<(), Error>)
    requires
        shares_to_move.wf(),
        match id_numbers {
            Some(ids) => ids.wf(),
            None => true,
        },
    ensures
        r == check_outcome(
            *self_node_id,
            shares_to_move@,
            holder_view(id_numbers),
        ),
{
    let keys = shares_to_move.keys();
    let n = keys.len();
    if n == 0 {
        assert(shares_to_move@.dom() =~= Set::<NodeId>::empty());
        return Err(Error::InvalidMessage);
    }
    assert(shares_to_move@.dom().contains(keys@[0]));
    assert(shares_to_move@.dom() != Set::<NodeId>::empty());
    // destinations, in the order of `keys`
    let mut values: Vec<NodeId> = Vec::new();
    let mut i: usize = 0;
    while i < n
        invariant
            n == keys@.len(),
            i <= n,
            values@.len() == i,
            keys@.to_set() == shares_to_move@.dom(),
            shares_to_move.wf(),
            forall|j: int| 0 <= j < i ==> shares_to_move@.contains_key(keys@[j]) && values@[j] == shares_to_move@[keys@[j]],
        decreases n - i,
    {
        assert(shares_to_move@.dom().contains(keys@[i as int]));
        match shares_to_move.get(keys[i]) {
            Some(v) => values.push(v),
            None => {
                assert(false);
                values.push(0)
            },
        }
        i = i + 1;
    }
    match id_numbers {
        Some(ids) => {
            let mut i: usize = 0;
            while i < n
                invariant
                    n == keys@.len(),
                    n == values@.len(),
                    i <= n,
                    ids.wf(),
                    id_numbers == Some(ids),
                    keys@.to_set() == shares_to_move@.dom(),
                    shares_to_move@.dom() != Set::<NodeId>::empty(),
                    forall|j: int| 0 <= j < n ==> shares_to_move@.contains_key(keys@[j]) && values@[j] == shares_to_move@[keys@[j]],
                    forall|j: int|
                        0 <= j < i ==> ids@.contains_key(#[trigger] keys@[j]) && !ids@.contains_key(
                            values@[j],
                        ),
                decreases n - i,
            {
                if !ids.contains_key(keys[i]) || ids.contains_key(values[i]) {
                    assert(!moves_old_to_new(shares_to_move@, ids@.dom())) by {
                        assert(shares_to_move@.contains_key(keys@[i as int]));
                    }
                    return Err(Error::InvalidNodesConfiguration);
                }
                i = i + 1;
            }
            assert(moves_old_to_new(shares_to_move@, ids@.dom())) by {
                assert forall|k: NodeId| #[trigger] shares_to_move@.contains_key(k) implies ids@.dom().contains(k)
                    && !ids@.dom().contains(shares_to_move@[k]) by {
                    assert(keys@.to_set().contains(k));
                    let j = choose|j: int| 0 <= j < keys@.len() && keys@[j] == k;
                    assert(ids@.contains_key(keys@[j]));
                }
            }
        },
        None => {
            if shares_to_move.contains_key(*self_node_id) {
                return Err(Error::InvalidMessage);
            }
            let mut found = false;
            let mut i: usize = 0;
            while i < n
                invariant
                    n == keys@.len(),
                    n == values@.len(),
                    i <= n,
                    keys@.to_set() == shares_to_move@.dom(),
                    forall|j: int| 0 <= j < n ==> shares_to_move@.contains_key(keys@[j]) && values@[j] == shares_to_move@[keys@[j]],
                    id_numbers.is_none(),
                    found == exists|j: int| 0 <= j < i && values@[j] == *self_node_id,
                decreases n - i,
            {
                if values[i] == *self_node_id {
                    found = true;
                }
                i = i + 1;
            }
            if !found {
                assert(!is_destination(shares_to_move@, *self_node_id)) by {
                    if is_destination(shares_to_move@, *self_node_id) {
                        let k = choose|k: NodeId| #[trigger] shares_to_move@.contains_key(k) && shares_to_move@[k] == *self_node_id;
                        assert(keys@.to_set().contains(k));
                        let j = choose|j: int| 0 <= j < keys@.len() && keys@[j] == k;
                        assert(values@[j] == *self_node_id);
                    }
                }
                return Err(Error::InvalidMessage);
            }
            proof {
                let j = choose|j: int| 0 <= j < n && values@[j] == *self_node_id;
                assert(shares_to_move@.contains_key(keys@[j]));
            }
        },
    }
    // destinations must be pairwise distinct
    let mut a: usize = 0;
    while a < n
        invariant
            n == keys@.len(),
            n == values@.len(),
            a <= n,
            keys@.no_duplicates(),
            keys@.to_set() == shares_to_move@.dom(),
            shares_to_move@.dom() != Set::<NodeId>::empty(),
            check_outcome(*self_node_id, shares_to_move@, holder_view(id_numbers)) == (if destinations_distinct(shares_to_move@) { Ok(()) } else { Err(Error::InvalidNodesConfiguration) }),
            forall|j: int| 0 <= j < n ==> shares_to_move@.contains_key(keys@[j]) && values@[j] == shares_to_move@[keys@[j]],
            forall|x: int, y: int| 0 <= x < a && x < y < n ==> values@[x] != values@[y],
        decreases n - a,
    {
        let mut b: usize = a + 1;
        while b < n
            invariant
                n == keys@.len(),
                n == values@.len(),
                a < n,
                a + 1 <= b <= n,
                keys@.no_duplicates(),
                shares_to_move@.dom() != Set::<NodeId>::empty(),
                check_outcome(*self_node_id, shares_to_move@, holder_view(id_numbers)) == (if destinations_distinct(shares_to_move@) { Ok(()) } else { Err(Error::InvalidNodesConfiguration) }),
                forall|j: int| 0 <= j < n ==> shares_to_move@.contains_key(keys@[j]) && values@[j] == shares_to_move@[keys@[j]],
                forall|x: int, y: int| 0 <= x < a && x < y < n ==> values@[x] != values@[y],
                forall|y: int| a < y < b ==> values@[a as int] != values@[y],
            decreases n - b,
        {
            if values[a] == values[b] {
                assert(!destinations_distinct(shares_to_move@)) by {
                    assert(keys@[a as int] != keys@[b as int]);
                    assert(shares_to_move@.contains_key(keys@[a as int]) && shares_to_move@.contains_key(keys@[b as int]));
                }
                return Err(Error::InvalidNodesConfiguration);
            }
            b = b + 1;
        }
        a = a + 1;
    }
    assert(destinations_distinct(shares_to_move@)) by {
        assert forall|p: NodeId, q: NodeId|
            #[trigger] shares_to_move@.contains_key(p) && #[trigger] shares_to_move@.contains_key(q) && p != q implies shares_to_move@[p] != shares_to_move@[q] by {
            assert(keys@.to_set().contains(p) && keys@.to_set().contains(q));
            let x = choose|x: int| 0 <= x < keys@.len() && keys@[x] == p;
            let y = choose|y: int| 0 <= y < keys@.len() && keys@[y] == q;
            if x < y {
                assert(values@[x] != values@[y]);
            } else {
                assert(values@[y] != values@[x]);
            }
        }
    }
    Ok(())
}

} // verus!
