use vstd::prelude::*;
use crate::nodes::{NodeId, NodeMap};
use crate::types::Secret;

verus! {

/// Hands the evaluation point of `s`, if it has one, to `d`.
pub open spec fn relabel(ids: Map<NodeId, Secret>, s: NodeId, d: NodeId) -> Map<NodeId, Secret> {
    if ids.contains_key(s) {
        ids.remove(s).insert(d, ids[s])
    } else {
        ids
    }
}

/// Applies the source to destination pairs to the holder map, in order.
pub open spec fn relocate(ids: Map<NodeId, Secret>, pairs: Seq<(NodeId, NodeId)>) -> Map<NodeId, Secret>
    decreases pairs.len(),
{
    if pairs.len() == 0 {
        ids
    } else {
        relabel(relocate(ids, pairs.drop_last()), pairs.last().0, pairs.last().1)
    }
}

/// Re-indexes the holder map: each source's evaluation point now belongs to its destination.
pub fn relocate_id_numbers(id_numbers: &mut NodeMap<Secret>, shares_to_move: &NodeMap<NodeId>)
    requires
        old(id_numbers).wf(),
        shares_to_move.wf(),
    ensures
        final(id_numbers).wf(),
        final(id_numbers)@ == relocate(old(id_numbers)@, shares_to_move.pairs()),
{
    proof { shares_to_move.lemma_pairs(); }
    let n = shares_to_move.len();
    let ghost pairs = shares_to_move.pairs();
    let mut i: usize = 0;
    assert(pairs.take(0) =~= Seq::<(NodeId, NodeId)>::empty());
    while i < n
        invariant
            shares_to_move.wf(),
            pairs == shares_to_move.pairs(),
            n == pairs.len(),
            n == shares_to_move@.len(),
            i <= n,
            id_numbers.wf(),
            id_numbers@ == relocate(old(id_numbers)@, pairs.take(i as int)),
        decreases n - i,
    {
        let (source, destination) = shares_to_move.entry(i);
        match id_numbers.remove(source) {
            Some(point) => id_numbers.insert(destination, point),
            None => {},
        }
        proof {
            assert(pairs.take(i + 1).drop_last() =~= pairs.take(i as int));
            assert(pairs.take(i + 1).last() == pairs[i as int]);
        }
        i = i + 1;
    }
    assert(pairs.take(n as int) =~= pairs);
}

} // verus!
