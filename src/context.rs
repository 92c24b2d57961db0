use vstd::prelude::*;
use crate::geometry::LayoutBox;
use crate::id::{Step, ViewId};
use crate::id_map::{id_set, path_at, IdMap};
use crate::state::{Payload, State, StateValue, Value};

verus! {

/// One entry of the state store.
struct Slot {
    value: Value,
    dirty: bool,
}

/// What a context holds: the stored state per identity, the identities
/// whose state was written through a handle, and the recorded layout boxes.
pub struct CxModel {
    pub states: Map<Seq<Step>, Payload>,
    pub dirty: Set<Seq<Step>>,
    pub layout: Map<Seq<Step>, LayoutBox>,
}

/// The mutable state threaded through every pass over the view tree.
pub struct Context {
    states: IdMap<Slot>,
    layout: IdMap<LayoutBox>,
}

impl View for Context {
    type V = CxModel;

    closed spec fn view(&self) -> CxModel {
        CxModel {
            states: self.states@.map_values(|s: Slot| s.value@),
            dirty: Set::new(|k: Seq<Step>| self.states@.contains_key(k) && self.states@[k].dirty),
            layout: self.layout@,
        }
    }
}

impl Context {
    /// A context with no state and no layout.
    pub fn new() -> (r: Context)
        ensures
            r@.states == Map::<Seq<Step>, Payload>::empty(),
            r@.dirty == Set::<Seq<Step>>::empty(),
            r@.layout == Map::<Seq<Step>, LayoutBox>::empty(),
    {
        let r = Context { states: IdMap::new(), layout: IdMap::new() };
        assert(r@.states =~= Map::<Seq<Step>, Payload>::empty());
        assert(r@.dirty =~= Set::<Seq<Step>>::empty());
        r
    }

    /// Installs `value` as the state of `id`, whatever was there, and clears
    /// its dirty flag: the state starts clean from the installed value.
    pub fn set_state<S: StateValue>(&mut self, id: &ViewId, value: &S)
        ensures
            final(self)@.states == old(self)@.states.insert(id@, value.payload()),
            final(self)@.dirty == old(self)@.dirty.remove(id@),
            final(self)@.layout == old(self)@.layout,
    {
        let v = value.to_value();
        self.states.insert(id, Slot { value: v, dirty: false });
        assert(self@.states =~= old(self)@.states.insert(id@, value.payload()));
        assert(self@.dirty =~= old(self)@.dirty.remove(id@));
    }

    /// The state that `s` names, read as `S`; `None` when nothing is stored
    /// for it or what is stored has another type.
    pub fn get<S: StateValue>(&self, s: &State<S>) -> (r: Option<S>)
        ensures
            r is Some <==> (self@.states.contains_key(s@) && S::accepts(self@.states[s@])),
            r matches Some(v) ==> v.payload() == self@.states[s@],
    {
        let id = s.id();
        match self.states.get(&id) {
            Some(slot) => S::from_value(&slot.value),
            None => None,
        }
    }

    /// Writes `value` through the handle `s` and marks its identity dirty.
    pub fn set<S: StateValue>(&mut self, s: &State<S>, value: &S)
        ensures
            final(self)@.states == old(self)@.states.insert(s@, value.payload()),
            final(self)@.dirty == old(self)@.dirty.insert(s@),
            final(self)@.layout == old(self)@.layout,
    {
        let id = s.id();
        let v = value.to_value();
        self.states.insert(&id, Slot { value: v, dirty: true });
        assert(self@.states =~= old(self)@.states.insert(s@, value.payload()));
        assert(self@.dirty =~= old(self)@.dirty.insert(s@));
    }

    /// Whether the state of `id` was written through a handle since it was
    /// last installed or cleaned.
    pub fn is_dirty(&self, id: &ViewId) -> (r: bool)
        ensures
            r == self@.dirty.contains(id@),
    {
        match self.states.get(id) {
            Some(slot) => slot.dirty,
            None => false,
        }
    }

    /// Clears the dirty flag of `id`, keeping its value.
    pub fn clear_dirty(&mut self, id: &ViewId)
        ensures
            final(self)@.states == old(self)@.states,
            final(self)@.dirty == old(self)@.dirty.remove(id@),
            final(self)@.layout == old(self)@.layout,
    {
        let found = match self.states.get(id) {
            Some(slot) => Some(slot.value.clone_value()),
            None => None,
        };
        if let Some(v) = found {
            self.states.insert(id, Slot { value: v, dirty: false });
            assert(self@.states =~= old(self)@.states);
        }
        assert(self@.dirty =~= old(self)@.dirty.remove(id@));
    }

    /// Drops the state, dirty flag and layout box of every identity that is
    /// not in `live`, such as the identities that `gc` passes no longer report.
    pub fn evict(&mut self, live: &Vec<ViewId>)
        ensures
            final(self)@.states == old(self)@.states.restrict(id_set(live@)),
            final(self)@.dirty == old(self)@.dirty.intersect(id_set(live@)),
            final(self)@.layout == old(self)@.layout.restrict(id_set(live@)),
    {
        self.states.retain_live(live);
        self.layout.retain_live(live);
        assert(self@.states =~= old(self)@.states.restrict(id_set(live@)));
        assert(self@.dirty =~= old(self)@.dirty.intersect(id_set(live@)));
    }

    /// Evicts after two consecutive `gc` passes: keeps what belongs to an
    /// identity that either report holds, and drops the rest.
    pub fn evict_absent_twice(&mut self, previous: &Vec<ViewId>, current: &Vec<ViewId>)
        ensures
            final(self)@.states == old(self)@.states.restrict(
                id_set(previous@).union(id_set(current@)),
            ),
            final(self)@.dirty == old(self)@.dirty.intersect(
                id_set(previous@).union(id_set(current@)),
            ),
            final(self)@.layout == old(self)@.layout.restrict(
                id_set(previous@).union(id_set(current@)),
            ),
    {
        let mut both: Vec<ViewId> = Vec::new();
        let mut i: usize = 0;
        while i < previous.len()
            invariant
                i <= previous@.len(),
                both@.len() == i,
                forall|j: int| 0 <= j < i ==> (#[trigger] both@[j])@ == previous@[j]@,
            decreases previous@.len() - i,
        {
            both.push(previous[i].duplicate());
            i = i + 1;
        }
        let mut i: usize = 0;
        while i < current.len()
            invariant
                i <= current@.len(),
                both@.len() == previous@.len() + i,
                forall|j: int| 0 <= j < previous@.len() ==> (#[trigger] both@[j])@ == previous@[j]@,
                forall|j: int| 0 <= j < i ==> both@[previous@.len() + j]@ == current@[j]@,
            decreases current@.len() - i,
        {
            both.push(current[i].duplicate());
            i = i + 1;
        }
        assert forall|k: Seq<Step>| #[trigger] id_set(both@).contains(k) <==> id_set(previous@).union(
            id_set(current@),
        ).contains(k) by {
            let p = previous@.len() as int;
            if id_set(both@).contains(k) {
                let j = choose|j: int| 0 <= j < both@.len() && #[trigger] path_at(both@, j) == k;
                if j < p {
                    assert(path_at(previous@, j) == k);
                } else {
                    assert(both@[p + (j - p)]@ == current@[j - p]@);
                    assert(path_at(current@, j - p) == k);
                }
            }
            if id_set(previous@).contains(k) {
                let j = choose|j: int| 0 <= j < previous@.len() && #[trigger] path_at(previous@, j) == k;
                assert(path_at(both@, j) == k);
            }
            if id_set(current@).contains(k) {
                let j = choose|j: int| 0 <= j < current@.len() && #[trigger] path_at(current@, j) == k;
                assert(path_at(both@, p + j) == k);
            }
        }
        assert(id_set(both@) =~= id_set(previous@).union(id_set(current@)));
        self.evict(&both);
    }

    /// Records the layout box of `id`.
    pub fn set_layout(&mut self, id: &ViewId, b: LayoutBox)
        ensures
            final(self)@.states == old(self)@.states,
            final(self)@.dirty == old(self)@.dirty,
            final(self)@.layout == old(self)@.layout.insert(id@, b),
    {
        self.layout.insert(id, b);
    }

    /// The layout box recorded for `id`, if any.
    pub fn layout_box(&self, id: &ViewId) -> (r: Option<LayoutBox>)
        ensures
            r == (if self@.layout.contains_key(id@) {
                Some(self@.layout[id@])
            } else {
                None::<LayoutBox>
            }),
    {
        match self.layout.get(id) {
            Some(b) => Some(*b),
            None => None,
        }
    }
}

/// Whatever a context held before, once `v` has been stored for `id` (by
/// `set_state` or through a handle with `set`), reading `id` as `S` finds a
/// value of that type whose payload is the payload of `v`.
pub proof fn lemma_state_round_trip<S: StateValue>(c0: Context, c1: Context, id: Seq<Step>, v: S)
    requires
        c1@.states == c0@.states.insert(id, v.payload()),
    ensures
        c1@.states.contains_key(id),
        S::accepts(c1@.states[id]),
        c1@.states[id] == v.payload(),
{
    v.lemma_accepts_payload();
}

} // verus!
