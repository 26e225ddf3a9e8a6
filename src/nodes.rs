use vstd::prelude::*;

verus! {

/// Identifier of a cluster participant.
pub type NodeId = u64;

/// Finite set of nodes, kept as a vector without repetitions.
pub struct NodeSet {
    items: Vec<NodeId>,
}

impl View for NodeSet {
    type V = Set<NodeId>;

    closed spec fn view(&self) -> Set<NodeId> {
        self.items@.to_set()
    }
}

impl NodeSet {
    /// The set is stored without repetitions.
    pub closed spec fn wf(&self) -> bool {
        self.items@.no_duplicates()
    }

    pub fn new() -> (r: NodeSet)
        ensures
            r.wf(),
            r@ == Set::<NodeId>::empty(),
    {
        let r = NodeSet { items: Vec::new() };
        assert(r@ =~= Set::<NodeId>::empty());
        r
    }

    fn index_of(&self, n: NodeId) -> (r: Option<usize>)
        ensures
            match r {
                Some(i) => i < self.items@.len() && self.items@[i as int] == n,
                None => !self.items@.contains(n),
            },
    {
        let mut i: usize = 0;
        while i < self.items.len()
            invariant
                i <= self.items@.len(),
                forall|j: int| 0 <= j < i ==> self.items@[j] != n,
            decreases self.items@.len() - i,
        {
            if self.items[i] == n {
                return Some(i);
            }
            i = i + 1;
        }
        None
    }

    pub fn contains(&self, n: NodeId) -> (r: bool)
        ensures
            r == self@.contains(n),
    {
        self.index_of(n).is_some()
    }

    pub fn insert(&mut self, n: NodeId)
        requires
            old(self).wf(),
        ensures
            final(self).wf(),
            final(self)@ == old(self)@.insert(n),
    {
        if self.index_of(n).is_none() {
            let ghost before = self.items@;
            self.items.push(n);
            assert forall|x: NodeId| self.items@.contains(x) <==> (before.contains(x) || x == n) by {
                if before.contains(x) {
                    let k = choose|k: int| 0 <= k < before.len() && before[k] == x;
                    assert(self.items@[k] == x);
                }
                assert(self.items@[before.len() as int] == n);
            }
        }
        assert(self@ =~= old(self)@.insert(n));
    }

    /// Removes `n`; tells whether it was there.
    pub fn remove(&mut self, n: NodeId) -> (r: bool)
        requires
            old(self).wf(),
        ensures
            final(self).wf(),
            r == old(self)@.contains(n),
            final(self)@ == old(self)@.remove(n),
    {
        match self.index_of(n) {
            Some(i) => {
                let ghost before = self.items@;
                self.items.remove(i);
                assert forall|x: NodeId| self@.contains(x) <==> old(self)@.remove(n).contains(x) by {
                    if self.items@.contains(x) {
                        let k = choose|k: int| 0 <= k < self.items@.len() && self.items@[k] == x;
                        if k < i {
                            assert(before[k] == x);
                        } else {
                            assert(before[k + 1] == x);
                        }
                    }
                    if x != n && before.contains(x) {
                        let k = choose|k: int| 0 <= k < before.len() && before[k] == x;
                        if k < i {
                            assert(self.items@[k] == x);
                        } else {
                            assert(self.items@[k - 1] == x);
                        }
                    }
                }
                assert(self@ =~= old(self)@.remove(n));
                true
            },
            None => {
                assert(old(self)@.remove(n) =~= old(self)@);
                false
            },
        }
    }

    pub fn is_empty(&self) -> (r: bool)
        ensures
            r == (self@ == Set::<NodeId>::empty()),
    {
        if self.items.len() == 0 {
            assert(self@ =~= Set::<NodeId>::empty());
            true
        } else {
            assert(self@.contains(self.items@[0]));
            false
        }
    }

    /// The members, each once, in no particular order.
    pub fn to_vec(&self) -> (r: Vec<NodeId>)
        requires
            self.wf(),
        ensures
            r@.no_duplicates(),
            r@.to_set() == self@,
    {
        self.items.clone()
    }
}

} // verus!

verus! {

/// Finite map keyed by node, kept as a vector of entries with distinct keys.
pub struct NodeMap<V> {
    entries: Vec<(NodeId, V)>,
    model: Ghost<Map<NodeId, V>>,
}

impl<V> View for NodeMap<V> {
    type V = Map<NodeId, V>;

    closed spec fn view(&self) -> Map<NodeId, V> {
        self.model@
    }
}

impl<V: Copy> NodeMap<V> {
    /// Keys in storage order.
    pub closed spec fn key_seq(&self) -> Seq<NodeId> {
        self.entries@.map_values(|e: (NodeId, V)| e.0)
    }

    /// Entries in storage order.
    pub closed spec fn pairs(&self) -> Seq<(NodeId, V)> {
        self.entries@
    }

    /// How the entries relate to the map they stand for.
    pub proof fn lemma_pairs(&self)
        requires
            self.wf(),
        ensures
            self.pairs().len() == self@.len(),
            self@.dom().finite(),
            forall|i: int|
                0 <= i < self.pairs().len() ==> #[trigger] self@.contains_key(self.pairs()[i].0)
                    && self@[self.pairs()[i].0] == self.pairs()[i].1,
            forall|i: int, j: int|
                0 <= i < j < self.pairs().len() ==> #[trigger] self.pairs()[i].0 != #[trigger] self.pairs()[j].0,
            forall|k: NodeId|
                #[trigger] self@.contains_key(k) ==> exists|i: int|
                    0 <= i < self.pairs().len() && #[trigger] self.pairs()[i].0 == k,
    {
        self.lemma_dom_is_key_set();
        self.key_seq().unique_seq_to_set();
        assert forall|i: int, j: int| 0 <= i < j < self.pairs().len() implies #[trigger] self.pairs()[i].0
            != #[trigger] self.pairs()[j].0 by {
            assert(self.key_seq()[i] == self.pairs()[i].0);
            assert(self.key_seq()[j] == self.pairs()[j].0);
        }
        assert forall|k: NodeId| #[trigger] self@.contains_key(k) implies exists|i: int|
            0 <= i < self.pairs().len() && #[trigger] self.pairs()[i].0 == k by {
            let i = choose|i: int| 0 <= i < self.key_seq().len() && self.key_seq()[i] == k;
            assert(self.pairs()[i].0 == k);
        }
    }

    /// Keys are distinct and the entries agree with the model.
    pub closed spec fn wf(&self) -> bool {
        &&& self.key_seq().no_duplicates()
        &&& forall|i: int|
            0 <= i < self.entries@.len() ==> #[trigger] self.model@.contains_key(self.entries@[i].0)
                && self.model@[self.entries@[i].0] == self.entries@[i].1
        &&& forall|k: NodeId| #[trigger] self.model@.contains_key(k) ==> self.key_seq().contains(k)
    }

    pub fn new() -> (r: NodeMap<V>)
        ensures
            r.wf(),
            r@ == Map::<NodeId, V>::empty(),
    {
        NodeMap { entries: Vec::new(), model: Ghost(Map::empty()) }
    }

    fn index_of(&self, k: NodeId) -> (r: Option<usize>)
        requires
            self.wf(),
        ensures
            match r {
                Some(i) => i < self.entries@.len() && self.entries@[i as int].0 == k,
                None => !self@.contains_key(k),
            },
    {
        let mut i: usize = 0;
        while i < self.entries.len()
            invariant
                i <= self.entries@.len(),
                forall|j: int| 0 <= j < i ==> self.entries@[j].0 != k,
            decreases self.entries@.len() - i,
        {
            if self.entries[i].0 == k {
                return Some(i);
            }
            i = i + 1;
        }
        proof {
            if self@.contains_key(k) {
                let j = choose|j: int| 0 <= j < self.key_seq().len() && self.key_seq()[j] == k;
                assert(self.entries@[j].0 == k);
            }
        }
        None
    }

    pub fn len(&self) -> (r: usize)
        requires
            self.wf(),
        ensures
            r == self@.len(),
            self@.dom().finite(),
    {
        proof {
            self.lemma_dom_is_key_set();
            self.key_seq().unique_seq_to_set();
        }
        self.entries.len()
    }

    proof fn lemma_dom_is_key_set(&self)
        requires
            self.wf(),
        ensures
            self@.dom() == self.key_seq().to_set(),
            self.key_seq().len() == self.entries@.len(),
    {
        assert forall|k: NodeId| self@.dom().contains(k) <==> self.key_seq().to_set().contains(k) by {
            if self.key_seq().contains(k) {
                let j = choose|j: int| 0 <= j < self.key_seq().len() && self.key_seq()[j] == k;
                assert(self.model@.contains_key(self.entries@[j].0));
            }
        }
        assert(self@.dom() =~= self.key_seq().to_set());
    }

    pub fn contains_key(&self, k: NodeId) -> (r: bool)
        requires
            self.wf(),
        ensures
            r == self@.contains_key(k),
    {
        self.index_of(k).is_some()
    }

    pub fn get(&self, k: NodeId) -> (r: Option<V>)
        requires
            self.wf(),
        ensures
            r == (if self@.contains_key(k) { Some(self@[k]) } else { None::<V> }),
    {
        match self.index_of(k) {
            Some(i) => Some(self.entries[i].1),
            None => None,
        }
    }

    /// Sets the value of `k`, replacing any earlier one.
    pub fn insert(&mut self, k: NodeId, v: V)
        requires
            old(self).wf(),
        ensures
            final(self).wf(),
            final(self)@ == old(self)@.insert(k, v),
    {
        let ghost before = self.entries@;
        match self.index_of(k) {
            Some(i) => {
                self.entries.set(i, (k, v));
                self.model = Ghost(self.model@.insert(k, v));
                assert(self.key_seq() =~= old(self).key_seq());
                assert forall|i2: int| 0 <= i2 < self.entries@.len() implies #[trigger] self.model@.contains_key(self.entries@[i2].0)
                    && self.model@[self.entries@[i2].0] == self.entries@[i2].1 by {
                    if i2 != i {
                        assert(old(self).key_seq()[i2] != old(self).key_seq()[i as int]);
                    }
                }
                assert forall|k2: NodeId| #[trigger] self.model@.contains_key(k2) implies self.key_seq().contains(k2) by {
                    if k2 != k {
                        assert(old(self).model@.contains_key(k2));
                    } else {
                        assert(self.key_seq()[i as int] == k);
                    }
                }
            },
            None => {
                self.entries.push((k, v));
                self.model = Ghost(self.model@.insert(k, v));
                assert(self.key_seq() =~= old(self).key_seq().push(k));
                assert(!old(self).key_seq().contains(k)) by {
                    if old(self).key_seq().contains(k) {
                        let j = choose|j: int| 0 <= j < old(self).key_seq().len() && old(self).key_seq()[j] == k;
                        assert(old(self).model@.contains_key(before[j].0));
                    }
                }
                assert forall|i2: int| 0 <= i2 < self.entries@.len() implies #[trigger] self.model@.contains_key(self.entries@[i2].0)
                    && self.model@[self.entries@[i2].0] == self.entries@[i2].1 by {
                    if i2 < before.len() {
                        assert(self.entries@[i2] == before[i2]);
                        assert(old(self).model@.contains_key(before[i2].0));
                        assert(before[i2].0 != k) by {
                            assert(old(self).key_seq()[i2] == before[i2].0);
                        }
                    }
                }
                assert forall|k2: NodeId| #[trigger] self.model@.contains_key(k2) implies self.key_seq().contains(k2) by {
                    if k2 != k {
                        let j = choose|j: int| 0 <= j < old(self).key_seq().len() && old(self).key_seq()[j] == k2;
                        assert(self.key_seq()[j] == k2);
                    } else {
                        assert(self.key_seq()[before.len() as int] == k);
                    }
                }
            },
        }
    }

    /// Removes `k`, handing back its value if it had one.
    pub fn remove(&mut self, k: NodeId) -> (r: Option<V>)
        requires
            old(self).wf(),
        ensures
            final(self).wf(),
            r == (if old(self)@.contains_key(k) { Some(old(self)@[k]) } else { None::<V> }),
            final(self)@ == old(self)@.remove(k),
    {
        match self.index_of(k) {
            Some(i) => {
                let ghost before = self.entries@;
                let ghost keys = old(self).key_seq();
                let e = self.entries.remove(i);
                self.model = Ghost(self.model@.remove(k));
                assert(self.key_seq() =~= keys.remove(i as int));
                assert forall|a: int, b: int| 0 <= a < b < self.key_seq().len() implies self.key_seq()[a] != self.key_seq()[b] by {
                    let a2 = if a < i { a } else { a + 1 };
                    let b2 = if b < i { b } else { b + 1 };
                    assert(keys[a2] != keys[b2]);
                }
                assert forall|j: int| 0 <= j < self.entries@.len() implies #[trigger] self.model@.contains_key(self.entries@[j].0)
                    && self.model@[self.entries@[j].0] == self.entries@[j].1 by {
                    let j2 = if j < i { j } else { j + 1 };
                    assert(self.entries@[j] == before[j2]);
                    assert(keys[j2] != keys[i as int]);
                    assert(keys[j2] == before[j2].0 && keys[i as int] == k);
                    assert(old(self).model@.contains_key(before[j2].0));
                }
                assert forall|k2: NodeId| #[trigger] self.model@.contains_key(k2) implies self.key_seq().contains(k2) by {
                    let j = choose|j: int| 0 <= j < keys.len() && keys[j] == k2;
                    if j < i {
                        assert(self.key_seq()[j] == k2);
                    } else {
                        assert(self.key_seq()[j - 1] == k2);
                    }
                }
                Some(e.1)
            },
            None => {
                assert(old(self)@.remove(k) =~= old(self)@);
                None
            },
        }
    }

    /// The keys, each once, in storage order.
    pub fn keys(&self) -> (r: Vec<NodeId>)
        requires
            self.wf(),
        ensures
            r@ == self.key_seq(),
            r@.no_duplicates(),
            r@.to_set() == self@.dom(),
    {
        proof { self.lemma_dom_is_key_set(); }
        let mut r: Vec<NodeId> = Vec::new();
        let mut i: usize = 0;
        while i < self.entries.len()
            invariant
                i <= self.entries@.len(),
                r@ == self.key_seq().subrange(0, i as int),
            decreases self.entries@.len() - i,
        {
            r.push(self.entries[i].0);
            i = i + 1;
            assert(r@ =~= self.key_seq().subrange(0, i as int));
        }
        assert(r@ =~= self.key_seq());
        r
    }

    /// A copy with the same entries in the same order.
    pub fn duplicate(&self) -> (r: NodeMap<V>)
        requires
            self.wf(),
        ensures
            r.wf(),
            r@ == self@,
            r.key_seq() == self.key_seq(),
            r.pairs() == self.pairs(),
    {
        let mut entries: Vec<(NodeId, V)> = Vec::new();
        let mut i: usize = 0;
        while i < self.entries.len()
            invariant
                i <= self.entries@.len(),
                entries@ == self.entries@.subrange(0, i as int),
            decreases self.entries@.len() - i,
        {
            entries.push(self.entries[i]);
            i = i + 1;
            assert(entries@ =~= self.entries@.subrange(0, i as int));
        }
        assert(entries@ =~= self.entries@);
        let r = NodeMap { entries, model: Ghost(self.model@) };
        assert(r.key_seq() =~= self.key_seq());
        r
    }

    /// Entry at position `i` of storage order.
    pub fn entry(&self, i: usize) -> (r: (NodeId, V))
        requires
            self.wf(),
            i < self@.len(),
        ensures
            r == self.pairs()[i as int],
            r.0 == self.key_seq()[i as int],
            self@.contains_key(r.0),
            r.1 == self@[r.0],
    {
        proof {
            self.lemma_dom_is_key_set();
            self.key_seq().unique_seq_to_set();
        }
        self.entries[i]
    }
}

} // verus!

verus! {

impl<V: Copy> NodeMap<V> {
    /// Adds every key to `set`.
    pub fn keys_into(&self, set: &mut NodeSet)
        requires
            self.wf(),
            old(set).wf(),
        ensures
            final(set).wf(),
            final(set)@ == old(set)@.union(self@.dom()),
    {
        proof { self.lemma_pairs(); }
        let n = self.len();
        let mut i: usize = 0;
        while i < n
            invariant
                self.wf(),
                n == self.pairs().len(),
                n == self@.len(),
                i <= n,
                set.wf(),
                set@ == old(set)@.union(Set::new(|k: NodeId| exists|j: int| 0 <= j < i && self.pairs()[j].0 == k)),
            decreases n - i,
        {
            let e = self.entry(i);
            set.insert(e.0);
            i = i + 1;
            assert(set@ =~= old(set)@.union(Set::new(|k: NodeId| exists|j: int| 0 <= j < i && self.pairs()[j].0 == k))) by {
                assert(self.pairs()[i - 1].0 == e.0);
            }
        }
        assert(set@ =~= old(set)@.union(self@.dom())) by {
            self.lemma_pairs();
        }
    }
}

impl NodeMap<NodeId> {
    /// Adds every value to `set`.
    pub fn values_into(&self, set: &mut NodeSet)
        requires
            self.wf(),
            old(set).wf(),
        ensures
            final(set).wf(),
            final(set)@ == old(set)@.union(self@.values()),
    {
        proof { self.lemma_pairs(); }
        let n = self.len();
        let mut i: usize = 0;
        while i < n
            invariant
                self.wf(),
                n == self.pairs().len(),
                n == self@.len(),
                i <= n,
                set.wf(),
                set@ == old(set)@.union(Set::new(|v: NodeId| exists|j: int| 0 <= j < i && self.pairs()[j].1 == v)),
            decreases n - i,
        {
            let e = self.entry(i);
            set.insert(e.1);
            i = i + 1;
            assert(set@ =~= old(set)@.union(Set::new(|v: NodeId| exists|j: int| 0 <= j < i && self.pairs()[j].1 == v))) by {
                assert(self.pairs()[i - 1].1 == e.1);
            }
        }
        assert(set@ =~= old(set)@.union(self@.values())) by {
            self.lemma_pairs();
            assert forall|v: NodeId| self@.values().contains(v) implies exists|j: int| 0 <= j < n && self.pairs()[j].1 == v by {
                let k = choose|k: NodeId| #[trigger] self@.contains_key(k) && self@[k] == v;
                let j = choose|j: int| 0 <= j < self.pairs().len() && #[trigger] self.pairs()[j].0 == k;
                assert(self@.contains_key(self.pairs()[j].0));
            }
            assert forall|v: NodeId| (exists|j: int| 0 <= j < n && self.pairs()[j].1 == v) implies self@.values().contains(v) by {
                let j = choose|j: int| 0 <= j < n && self.pairs()[j].1 == v;
                assert(self@.contains_key(self.pairs()[j].0));
            }
        }
    }
}

} // verus!
