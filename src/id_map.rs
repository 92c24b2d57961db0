use vstd::prelude::*;
use crate::id::{Step, ViewId};

verus! {

/// A table keyed by view identity, with at most one entry per identity.
pub struct IdMap<T> {
    keys: Vec<ViewId>,
    vals: Vec<T>,
}

impl<T> View for IdMap<T> {
    type V = Map<Seq<Step>, T>;

    closed spec fn view(&self) -> Map<Seq<Step>, T> {
        Map::new(
            |k: Seq<Step>| self.has_key(k),
            |k: Seq<Step>| self.vals@[self.slot_of(k)],
        )
    }
}

impl<T> IdMap<T> {
    spec fn has_key(&self, k: Seq<Step>) -> bool {
        exists|i: int| 0 <= i < self.keys@.len() && (#[trigger] self.keys@[i])@ == k
    }

    spec fn slot_of(&self, k: Seq<Step>) -> int {
        choose|i: int| 0 <= i < self.keys@.len() && (#[trigger] self.keys@[i])@ == k
    }

    #[verifier::type_invariant]
    spec fn keys_unique(&self) -> bool {
        &&& self.keys@.len() == self.vals@.len()
        &&& forall|i: int, j: int|
            0 <= i < self.keys@.len() && 0 <= j < self.keys@.len() && i != j
                ==> (#[trigger] self.keys@[i])@ != (#[trigger] self.keys@[j])@
    }

    proof fn lemma_entry(&self, i: int)
        requires
            self.keys_unique(),
            0 <= i < self.keys@.len(),
        ensures
            self@.contains_key(self.keys@[i]@),
            self@[self.keys@[i]@] == self.vals@[i],
    {
        let k = self.keys@[i]@;
        assert(self.has_key(k));
        let j = self.slot_of(k);
        assert(self.keys@[j]@ == k);
    }

    /// An empty table.
    pub fn new() -> (r: IdMap<T>)
        ensures
            r@ == Map::<Seq<Step>, T>::empty(),
    {
        let r = IdMap { keys: Vec::new(), vals: Vec::new() };
        assert(r@ =~= Map::<Seq<Step>, T>::empty());
        r
    }

    /// The number of entries.
    pub fn len(&self) -> (r: usize)
        ensures
            r == self@.dom().len(),
    {
        proof {
            use_type_invariant(self);
            self.lemma_dom_len();
        }
        self.keys.len()
    }

    proof fn lemma_dom_len(&self)
        requires
            self.keys_unique(),
        ensures
            self@.dom().finite(),
            self@.dom().len() == self.keys@.len(),
        decreases self.keys@.len(),
    {
        let ks = Seq::new(self.keys@.len(), |i: int| self.keys@[i]@);
        assert(ks.no_duplicates());
        assert forall|k: Seq<Step>| self@.dom().contains(k) <==> ks.contains(k) by {
            if self@.dom().contains(k) {
                let i = self.slot_of(k);
                assert(ks[i] == k);
            }
            if ks.contains(k) {
                let i = choose|i: int| 0 <= i < ks.len() && ks[i] == k;
                assert(self.keys@[i]@ == k);
            }
        }
        assert(self@.dom() =~= ks.to_set());
        ks.unique_seq_to_set();
    }

    fn find(&self, id: &ViewId) -> (r: Option<usize>)
        ensures
            match r {
                Some(i) => i < self.keys@.len() && self.keys@[i as int]@ == id@,
                None => !self@.contains_key(id@),
            },
    {
        let mut i: usize = 0;
        while i < self.keys.len()
            invariant
                i <= self.keys@.len(),
                forall|j: int| 0 <= j < i ==> (#[trigger] self.keys@[j])@ != id@,
            decreases self.keys@.len() - i,
        {
            if self.keys[i].same(id) {
                return Some(i);
            }
            i = i + 1;
        }
        None
    }

    /// The entry for `id`, if there is one.
    pub fn get(&self, id: &ViewId) -> (r: Option<&T>)
        ensures
            match r {
                Some(v) => self@.contains_key(id@) && *v == self@[id@],
                None => !self@.contains_key(id@),
            },
    {
        proof {
            use_type_invariant(self);
        }
        match self.find(id) {
            Some(i) => {
                proof {
                    self.lemma_entry(i as int);
                }
                Some(&self.vals[i])
            },
            None => None,
        }
    }

    /// Whether there is an entry for `id`.
    pub fn contains(&self, id: &ViewId) -> (r: bool)
        ensures
            r == self@.contains_key(id@),
    {
        proof {
            use_type_invariant(self);
        }
        match self.find(id) {
            Some(i) => {
                proof {
                    self.lemma_entry(i as int);
                }
                true
            },
            None => false,
        }
    }

    /// Installs `v` as the entry for `id`, replacing any earlier one.
    pub fn insert(&mut self, id: &ViewId, v: T)
        ensures
            final(self)@ == old(self)@.insert(id@, v),
    {
        proof {
            use_type_invariant(&*self);
        }
        let ghost pre = *self;
        match self.find(id) {
            Some(i) => {
                let mut taken = IdMap::new();
                std::mem::swap(self, &mut taken);
                let IdMap { keys, mut vals } = taken;
                vals.set(i, v);
                *self = IdMap { keys, vals };
                proof {
                    assert(self.keys_unique());
                    self.lemma_entry(i as int);
                    assert forall|k: Seq<Step>| #[trigger] self@.contains_key(k) <==> pre@.insert(id@, v).contains_key(k) by {
                        if self@.contains_key(k) {
                            let j = self.slot_of(k);
                            pre.lemma_entry(j);
                        }
                        if pre@.contains_key(k) {
                            let j = pre.slot_of(k);
                            self.lemma_entry(j);
                        }
                    }
                    assert forall|k: Seq<Step>| #[trigger] self@.contains_key(k) && k != id@ implies self@[k] == pre@[k] by {
                        let j = self.slot_of(k);
                        self.lemma_entry(j);
                        pre.lemma_entry(j);
                    }
                    assert(self@ =~= pre@.insert(id@, v));
                }
            },
            None => {
                let mut taken = IdMap::new();
                std::mem::swap(self, &mut taken);
                let IdMap { mut keys, mut vals } = taken;
                keys.push(id.duplicate());
                vals.push(v);
                *self = IdMap { keys, vals };
                proof {
                    let n = pre.keys@.len() as int;
                    assert(self.keys_unique());
                    self.lemma_entry(n);
                    assert forall|k: Seq<Step>| #[trigger] self@.contains_key(k) <==> pre@.insert(id@, v).contains_key(k) by {
                        if self@.contains_key(k) && k != id@ {
                            let j = self.slot_of(k);
                            assert(j != n);
                            pre.lemma_entry(j);
                        }
                        if pre@.contains_key(k) {
                            let j = pre.slot_of(k);
                            self.lemma_entry(j);
                        }
                    }
                    assert forall|k: Seq<Step>| #[trigger] self@.contains_key(k) && k != id@ implies self@[k] == pre@[k] by {
                        let j = self.slot_of(k);
                        assert(j != n);
                        self.lemma_entry(j);
                        pre.lemma_entry(j);
                    }
                    assert(self@ =~= pre@.insert(id@, v));
                }
            },
        }
    }

    /// Keeps the entries whose identity is in `live` and drops the others.
    pub fn retain_live(&mut self, live: &Vec<ViewId>)
        ensures
            final(self)@ == old(self)@.restrict(id_set(live@)),
    {
        proof {
            use_type_invariant(&*self);
        }
        let ghost pre = *self;
        let ghost live_set = id_set(live@);
        let mut taken = IdMap::new();
        std::mem::swap(self, &mut taken);
        let IdMap { mut keys, mut vals } = taken;
        let mut kept: IdMap<T> = IdMap::new();
        assert(keys@ == pre.keys@);
        assert forall|x: Seq<Step>| pre@.contains_key(x) implies #[trigger] id_set(keys@).contains(x) by {
            let i = pre.slot_of(x);
            assert(path_at(keys@, i) == x);
        }
        assert(kept@ =~= pre@.restrict(live_set.difference(id_set(keys@))));
        while keys.len() > 0
            invariant
                pre.keys_unique(),
                keys@.len() == vals@.len(),
                keys@.len() <= pre.keys@.len(),
                forall|i: int| 0 <= i < keys@.len() ==> keys@[i] == pre.keys@[i],
                forall|i: int| 0 <= i < keys@.len() ==> vals@[i] == pre.vals@[i],
                live_set == id_set(live@),
                kept@ == pre@.restrict(live_set.difference(id_set(keys@))),
            decreases keys@.len(),
        {
            let ghost kb = keys@;
            let ghost before = id_set(keys@);
            let n: usize = keys.len() - 1;
            let k = keys.pop().unwrap();
            let v = vals.pop().unwrap();
            proof {
                pre.lemma_entry(n as int);
                assert(kb =~= keys@.push(k));
                assert(k == pre.keys@[n as int]);
                assert forall|x: Seq<Step>| #[trigger] before.contains(x) <==> (id_set(keys@).contains(x) || x == k@) by {
                    if before.contains(x) {
                        let i = choose|i: int| 0 <= i < kb.len() && (#[trigger] path_at(kb, i)) == x;
                        if i < keys@.len() {
                            assert(kb[i] == keys@[i]);
                            assert(path_at(keys@, i) == x);
                        }
                    }
                    if id_set(keys@).contains(x) {
                        let i = choose|i: int| 0 <= i < keys@.len() && (#[trigger] path_at(keys@, i)) == x;
                        assert(kb[i] == keys@[i]);
                        assert(path_at(kb, i) == x);
                    }
                    if x == k@ {
                        assert(path_at(kb, n as int) == x);
                    }
                }
                assert(!id_set(keys@).contains(k@)) by {
                    if id_set(keys@).contains(k@) {
                        let i = choose|i: int| 0 <= i < keys@.len() && (#[trigger] path_at(keys@, i)) == k@;
                        assert(pre.keys@[i]@ == pre.keys@[n as int]@);
                    }
                }
            }
            if contains_id(live, &k) {
                kept.insert(&k, v);
                assert(kept@ =~= pre@.restrict(live_set.difference(id_set(keys@))));
            } else {
                assert(kept@ =~= pre@.restrict(live_set.difference(id_set(keys@))));
            }
        }
        assert(kept@ =~= pre@.restrict(live_set));
        *self = kept;
    }
}

/// The `i`-th identity of a list, as a path.
pub open spec fn path_at(ids: Seq<ViewId>, i: int) -> Seq<Step> {
    ids[i]@
}

/// The set of paths of a list of identities.
pub open spec fn id_set(ids: Seq<ViewId>) -> Set<Seq<Step>> {
    Set::new(|k: Seq<Step>| exists|i: int| 0 <= i < ids.len() && #[trigger] path_at(ids, i) == k)
}

/// Whether `id` is in `ids`.
pub fn contains_id(ids: &Vec<ViewId>, id: &ViewId) -> (r: bool)
    ensures
        r == id_set(ids@).contains(id@),
{
    let mut i: usize = 0;
    while i < ids.len()
        invariant
            i <= ids@.len(),
            forall|j: int| 0 <= j < i ==> path_at(ids@, j) != id@,
        decreases ids@.len() - i,
    {
        if ids[i].same(id) {
            assert(path_at(ids@, i as int) == id@);
            return true;
        }
        i = i + 1;
    }
    false
}

} // verus!
