use vstd::prelude::*;

verus! {

/// One step of a path: the index of a child, or the key of a keyed child.
#[derive(Debug)]
pub enum Segment {
    Index(u64),
    Key(String),
}

/// What a segment is, mathematically.
pub enum Step {
    Index(u64),
    Key(Seq<char>),
}

impl View for Segment {
    type V = Step;

    open spec fn view(&self) -> Step {
        match self {
            Segment::Index(i) => Step::Index(*i),
            Segment::Key(k) => Step::Key(k@),
        }
    }
}

impl Segment {
    /// A copy of this segment.
    pub fn duplicate(&self) -> (r: Segment)
        ensures
            r@ == self@,
    {
        match self {
            Segment::Index(i) => Segment::Index(*i),
            Segment::Key(k) => Segment::Key(k.clone()),
        }
    }

    /// Whether two segments are the same step.
    pub fn same(&self, other: &Segment) -> (r: bool)
        ensures
            r == (self@ == other@),
    {
        match (self, other) {
            (Segment::Index(a), Segment::Index(b)) => *a == *b,
            (Segment::Key(a), Segment::Key(b)) => *a == *b,
            _ => false,
        }
    }
}

/// The identity of a position in the view tree: the path of discriminators
/// taken from the root to reach it.
#[derive(Debug)]
pub struct ViewId {
    path: Vec<Segment>,
}

/// The path of the child reached from `id` by the index `d`.
pub open spec fn child_path(id: Seq<Step>, d: u64) -> Seq<Step> {
    id.push(Step::Index(d))
}

/// The path of the child reached from `id` by the key `k`.
pub open spec fn keyed_path(id: Seq<Step>, k: Seq<char>) -> Seq<Step> {
    id.push(Step::Key(k))
}

impl View for ViewId {
    type V = Seq<Step>;

    closed spec fn view(&self) -> Seq<Step> {
        self.path@.map_values(|s: Segment| s@)
    }
}

impl ViewId {
    /// The identity of the root of the tree: the empty path.
    pub fn root() -> (r: ViewId)
        ensures
            r@ == Seq::<Step>::empty(),
    {
        let r = ViewId { path: Vec::new() };
        assert(r@ =~= Seq::<Step>::empty());
        r
    }

    /// The identity of the child reached from `self` by the index `d`.
    pub fn child(&self, d: u64) -> (r: ViewId)
        ensures
            r@ == child_path(self@, d),
    {
        let mut path = self.duplicate().path;
        let ghost p0 = path@;
        path.push(Segment::Index(d));
        let r = ViewId { path };
        assert(r@ =~= child_path(self@, d)) by {
            assert(path@ == p0.push(Segment::Index(d)));
        }
        r
    }

    /// The identity of the keyed child reached from `self` by `key`.
    pub fn child_key(&self, key: &str) -> (r: ViewId)
        ensures
            r@ == keyed_path(self@, key@),
    {
        let mut path = self.duplicate().path;
        let ghost p0 = path@;
        let k = key.to_owned();
        path.push(Segment::Key(k));
        let r = ViewId { path };
        assert(r@ =~= keyed_path(self@, key@)) by {
            assert(path@ == p0.push(Segment::Key(k)));
        }
        r
    }

    /// A copy of this identity.
    pub fn duplicate(&self) -> (r: ViewId)
        ensures
            r@ == self@,
    {
        let mut path: Vec<Segment> = Vec::new();
        let mut i: usize = 0;
        while i < self.path.len()
            invariant
                i <= self.path@.len(),
                path@.len() == i,
                forall|j: int| 0 <= j < i ==> (#[trigger] path@[j])@ == self.path@[j]@,
            decreases self.path@.len() - i,
        {
            path.push(self.path[i].duplicate());
            i = i + 1;
        }
        let r = ViewId { path };
        assert(r@ =~= self@);
        r
    }

    /// The number of segments in the path; zero for the root.
    pub fn depth(&self) -> (r: usize)
        ensures
            r == self@.len(),
    {
        self.path.len()
    }

    /// The segment at position `i` of the path, counted from the root.
    pub fn segment(&self, i: usize) -> (r: &Segment)
        requires
            i < self@.len(),
        ensures
            r@ == self@[i as int],
    {
        &self.path[i]
    }

    /// Whether two identities name the same position.
    pub fn same(&self, other: &ViewId) -> (r: bool)
        ensures
            r == (self@ == other@),
    {
        if self.path.len() != other.path.len() {
            assert(self@.len() != other@.len());
            return false;
        }
        let mut i: usize = 0;
        while i < self.path.len()
            invariant
                self.path@.len() == other.path@.len(),
                i <= self.path@.len(),
                forall|j: int| 0 <= j < i ==> self.path@[j]@ == other.path@[j]@,
            decreases self.path@.len() - i,
        {
            if !self.path[i].same(&other.path[i]) {
                assert(self@[i as int] != other@[i as int]);
                return false;
            }
            i = i + 1;
        }
        assert(self@ =~= other@);
        true
    }
}

impl Clone for ViewId {
    fn clone(&self) -> (r: ViewId)
        ensures
            r@ == self@,
    {
        self.duplicate()
    }
}

impl PartialEq for ViewId {
    fn eq(&self, other: &ViewId) -> (r: bool) {
        self.same(other)
    }
}

impl vstd::std_specs::cmp::PartialEqSpecImpl for ViewId {
    open spec fn obeys_eq_spec() -> bool {
        true
    }

    open spec fn eq_spec(&self, other: &ViewId) -> bool {
        self@ == other@
    }
}

impl Eq for ViewId {
}

/// Deriving a child identity is a function of the parent path and the
/// discriminator alone; two different discriminators under one parent give
/// two different identities, and an index never gives the identity of a key.
pub proof fn lemma_child_deterministic(p: Seq<Step>, d1: u64, d2: u64, k1: Seq<char>, k2: Seq<char>)
    ensures
        child_path(p, d1) == child_path(p, d2) <==> d1 == d2,
        keyed_path(p, k1) == keyed_path(p, k2) <==> k1 == k2,
        child_path(p, d1) != keyed_path(p, k1),
        child_path(p, d1).len() == p.len() + 1,
        child_path(p, d1).subrange(0, p.len() as int) == p,
        keyed_path(p, k1).subrange(0, p.len() as int) == p,
{
    if child_path(p, d1) == child_path(p, d2) {
        assert(child_path(p, d1)[p.len() as int] == Step::Index(d1));
    }
    if keyed_path(p, k1) == keyed_path(p, k2) {
        assert(keyed_path(p, k1)[p.len() as int] == Step::Key(k1));
    }
    assert(child_path(p, d1)[p.len() as int] != keyed_path(p, k1)[p.len() as int]);
    assert(child_path(p, d1).subrange(0, p.len() as int) =~= p);
    assert(keyed_path(p, k1).subrange(0, p.len() as int) =~= p);
}

} // verus!
