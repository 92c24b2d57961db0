use vstd::prelude::*;
use crate::context::{Context, CxModel};
use crate::event::{CommandInfo, Event, Key};
use crate::geometry::{
    wrapper_box, LayoutBox, LocalOffset, LocalPoint, LocalRect, LocalSize, LocalToWorld,
};
use crate::id::{child_path, Step, ViewId};
use crate::key_view::{lemma_key_view_forwards, KeyView};
use crate::state::{State, StateValue};
use crate::view::{extends, paths, EmptyView, ViewNode};

verus! {

/// A view that gives its subtree a local copy of `value` as state, and
/// hands the copy to `set_value` whenever an event in the subtree wrote it.
pub struct MapView<S, SF, F> {
    value: S,
    set_value: SF,
    func: F,
}

/// Creates local derived state with a setter: `value` is installed as the
/// state of the view on every pass, `func` builds the subtree from a handle
/// to it, and `set_value` receives the state after an event changed it.
pub fn map<S, V, SF, F>(value: S, set_value: SF, func: F) -> (r: MapView<S, SF, F>) where
    S: StateValue,
    SF: Fn(S, Context) -> Context,
    F: Fn(State<S>, &Context) -> V,

    ensures
        r.local_value() == value,
        r.setter() == set_value,
        r.builder() == func,
{
    MapView { value, set_value, func }
}

impl<S, V, SF, F> MapView<S, SF, F> where
    S: StateValue,
    SF: Fn(S, Context) -> Context,
    F: Fn(State<S>, &Context) -> V,
 {
    /// The value installed as local state on each pass.
    pub closed spec fn local_value(&self) -> S {
        self.value
    }

    /// The callback that receives the state after an event changed it.
    pub closed spec fn setter(&self) -> SF {
        self.set_value
    }

    /// The function that builds the child view.
    pub closed spec fn builder(&self) -> F {
        self.func
    }

    /// `cs` is `c0` with the local value installed, clean, as the state of `id`.
    pub open spec fn installed(&self, id: Seq<Step>, c0: Context, cs: Context) -> bool {
        cs@ == CxModel {
            states: c0@.states.insert(id, self.local_value().payload()),
            dirty: c0@.dirty.remove(id),
            layout: c0@.layout,
        }
    }

    /// `child` is a view that the builder may return for the handle of `id`
    /// in the context `cs`.
    pub open spec fn builds(&self, id: Seq<Step>, cs: Context, child: V) -> bool {
        exists|h: State<S>| h@ == id && call_ensures(self.builder(), (h, &cs), child)
    }

    /// The first two steps of every operation: from `c0` the state of `id` is
    /// installed, giving `cs`, and the child is built in `cs`.
    pub open spec fn prepared(&self, id: Seq<Step>, c0: Context, cs: Context, child: V) -> bool {
        self.installed(id, c0, cs) && self.builds(id, cs, child)
    }

    /// After the child's `process` left the context `cp`, the flush step
    /// leaves `c1`: where the state of `id` was written and reads back as `S`,
    /// its flag is cleared and the setter gets the value; else nothing changes.
    pub open spec fn flushed(&self, id: Seq<Step>, cp: Context, c1: Context) -> bool {
        if cp@.dirty.contains(id) && cp@.states.contains_key(id) && S::accepts(cp@.states[id]) {
            exists|cc: Context, v: S|
                cc@ == CxModel { states: cp@.states, dirty: cp@.dirty.remove(id), layout: cp@.layout }
                    && v.payload() == cp@.states[id] && call_ensures(self.setter(), (v, cc), c1)
        } else {
            c1 == cp
        }
    }

    proof fn lemma_prepared(&self, id: Seq<Step>, c0: Context, cs: Context, h: State<S>, child: V)
        requires
            self.installed(id, c0, cs),
            h@ == id,
            call_ensures(self.builder(), (h, &cs), child),
        ensures
            self.prepared(id, c0, cs, child),
    {
    }

    /// Installs the local value as the state of `id` and builds the child.
    fn prepare<B>(&self, id: &ViewId, cx: &mut Context) -> (r: V) where V: ViewNode<B>
        requires
            forall|h: State<S>, c: Context| call_requires(self.builder(), (h, &c)),
            forall|h: State<S>, c: Context, child: V|
                #[trigger] call_ensures(self.builder(), (h, &c), child) ==> child.callable(),
        ensures
            self.prepared(id@, *old(cx), *final(cx), r),
            r.callable(),
    {
        cx.set_state(id, &self.value);
        let h = State::new(id);
        let ghost hg = h;
        let child = (self.func)(h, &*cx);
        proof {
            self.lemma_prepared(id@, *old(cx), *cx, hg, child);
        }
        child
    }
}

impl<S, V, SF, F, B> ViewNode<B> for MapView<S, SF, F> where
    S: StateValue,
    V: ViewNode<B>,
    SF: Fn(S, Context) -> Context,
    F: Fn(State<S>, &Context) -> V,
 {
    open spec fn callable(&self) -> bool {
        &&& forall|h: State<S>, c: Context| call_requires(self.builder(), (h, &c))
        &&& forall|h: State<S>, c: Context, child: V|
            #[trigger] call_ensures(self.builder(), (h, &c), child) ==> child.callable()
        &&& forall|v: S, c: Context| call_requires(self.setter(), (v, c))
    }

    open spec fn print_rel(
        &self,
        id: Seq<Step>,
        c0: Context,
        c1: Context,
        o0: Seq<Seq<char>>,
        o1: Seq<Seq<char>>,
    ) -> bool {
        exists|cs: Context, child: V|
            self.prepared(id, c0, cs, child) && child.print_rel(child_path(id, 0), cs, c1, o0, o1)
    }

    open spec fn process_rel(
        &self,
        ev: Event,
        id: Seq<Step>,
        c0: Context,
        c1: Context,
        b0: B,
        b1: B,
    ) -> bool {
        exists|cs: Context, child: V, cp: Context|
            self.prepared(id, c0, cs, child) && child.process_rel(
                ev,
                child_path(id, 0),
                cs,
                cp,
                b0,
                b1,
            ) && self.flushed(id, cp, c1)
    }

    open spec fn draw_rel(&self, id: Seq<Step>, c0: Context, c1: Context, b0: B, b1: B) -> bool {
        exists|cs: Context, child: V|
            self.prepared(id, c0, cs, child) && child.draw_rel(child_path(id, 0), cs, c1, b0, b1)
    }

    open spec fn layout_rel(
        &self,
        id: Seq<Step>,
        sz: LocalSize,
        c0: Context,
        c1: Context,
        b0: B,
        b1: B,
        r: LocalSize,
    ) -> bool {
        exists|cs: Context, child: V, cm: Context|
            self.prepared(id, c0, cs, child) && child.layout_rel(
                child_path(id, 0),
                sz,
                cs,
                cm,
                b0,
                b1,
                r,
            )
                && c1@ == CxModel {
                states: cm@.states,
                dirty: cm@.dirty,
                layout: cm@.layout.insert(id, wrapper_box(r)),
            }
    }

    open spec fn dirty_rel(&self, id: Seq<Step>, xf: LocalToWorld, c0: Context, c1: Context) -> bool {
        exists|cs: Context, child: V|
            self.prepared(id, c0, cs, child) && child.dirty_rel(child_path(id, 0), xf, cs, c1)
    }

    open spec fn hittest_rel(
        &self,
        id: Seq<Step>,
        pt: LocalPoint,
        c0: Context,
        c1: Context,
        b0: B,
        b1: B,
        r: Option<Seq<Step>>,
    ) -> bool {
        exists|cs: Context, child: V|
            self.prepared(id, c0, cs, child) && child.hittest_rel(
                child_path(id, 0),
                pt,
                cs,
                c1,
                b0,
                b1,
                r,
            )
    }

    open spec fn commands_rel(
        &self,
        id: Seq<Step>,
        c0: Context,
        c1: Context,
        k0: Seq<CommandInfo>,
        k1: Seq<CommandInfo>,
    ) -> bool {
        exists|cs: Context, child: V|
            self.prepared(id, c0, cs, child) && child.commands_rel(child_path(id, 0), cs, c1, k0, k1)
    }

    open spec fn gc_rel(
        &self,
        id: Seq<Step>,
        c0: Context,
        c1: Context,
        l0: Seq<Seq<Step>>,
        l1: Seq<Seq<Step>>,
    ) -> bool {
        exists|cs: Context, child: V|
            self.prepared(id, c0, cs, child) && child.gc_rel(
                child_path(id, 0),
                cs,
                c1,
                l0.push(id),
                l1,
            ) && extends(l0.push(id), l1)
    }

    open spec fn access_rel(
        &self,
        id: Seq<Step>,
        c0: Context,
        c1: Context,
        n0: Seq<accesskit::Node>,
        n1: Seq<accesskit::Node>,
        r: Option<accesskit::NodeId>,
    ) -> bool {
        exists|cs: Context, child: V|
            self.prepared(id, c0, cs, child) && child.access_rel(
                child_path(id, 0),
                cs,
                c1,
                n0,
                n1,
                r,
            )
    }

    fn print(&self, id: &ViewId, cx: &mut Context, out: &mut Vec<String>) {
        let child = self.prepare::<B>(id, cx);
        let ghost cs = *cx;
        child.print(&id.child(0), cx, out);
        assert(self.prepared(id@, *old(cx), cs, child));
    }

    fn process(&self, event: &Event, id: &ViewId, cx: &mut Context, backend: &mut B) {
        let child = self.prepare::<B>(id, cx);
        let ghost cs = *cx;
        child.process(event, &id.child(0), cx, backend);
        let ghost cp = *cx;
        let h: State<S> = State::new(id);
        if cx.is_dirty(id) {
            if let Some(v) = cx.get(&h) {
                cx.clear_dirty(id);
                let mut taken = Context::new();
                std::mem::swap(cx, &mut taken);
                let ghost cc = taken;
                let ghost vg = v;
                assert(call_requires(self.setter(), (vg, cc)));
                *cx = (self.set_value)(v, taken);
                assert(call_ensures(self.setter(), (vg, cc), *cx));
                assert(cc@ == CxModel { states: cp@.states, dirty: cp@.dirty.remove(id@), layout: cp@.layout });
                assert(self.flushed(id@, cp, *cx));
            }
        }
        assert(self.flushed(id@, cp, *cx));
        assert(self.prepared(id@, *old(cx), cs, child));
    }

    fn draw(&self, id: &ViewId, cx: &mut Context, backend: &mut B) {
        let child = self.prepare::<B>(id, cx);
        let ghost cs = *cx;
        child.draw(&id.child(0), cx, backend);
        assert(self.prepared(id@, *old(cx), cs, child));
    }

    fn layout(&self, id: &ViewId, sz: LocalSize, cx: &mut Context, backend: &mut B) -> (r:
        LocalSize) {
        let child = self.prepare::<B>(id, cx);
        let ghost cs = *cx;
        let child_size = child.layout(&id.child(0), sz, cx, backend);
        let ghost cm = *cx;
        cx.set_layout(
            id,
            LayoutBox {
                rect: LocalRect::new(LocalPoint::zero(), child_size),
                offset: LocalOffset::zero(),
            },
        );
        assert(self.prepared(id@, *old(cx), cs, child));
        assert(cx@ == CxModel {
            states: cm@.states,
            dirty: cm@.dirty,
            layout: cm@.layout.insert(id@, wrapper_box(child_size)),
        });
        child_size
    }

    fn dirty(&self, id: &ViewId, xf: LocalToWorld, cx: &mut Context) {
        let child = self.prepare::<B>(id, cx);
        let ghost cs = *cx;
        child.dirty(&id.child(0), xf, cx);
        assert(self.prepared(id@, *old(cx), cs, child));
    }

    fn hittest(&self, id: &ViewId, pt: LocalPoint, cx: &mut Context, backend: &mut B) -> (r:
        Option<ViewId>) {
        let child = self.prepare::<B>(id, cx);
        let ghost cs = *cx;
        let r = child.hittest(&id.child(0), pt, cx, backend);
        assert(self.prepared(id@, *old(cx), cs, child));
        r
    }

    fn commands(&self, id: &ViewId, cx: &mut Context, cmds: &mut Vec<CommandInfo>) {
        let child = self.prepare::<B>(id, cx);
        let ghost cs = *cx;
        child.commands(&id.child(0), cx, cmds);
        assert(self.prepared(id@, *old(cx), cs, child));
    }

    fn gc(&self, id: &ViewId, cx: &mut Context, live: &mut Vec<ViewId>) {
        let child = self.prepare::<B>(id, cx);
        let ghost cs = *cx;
        let ghost l0 = paths(live@);
        live.push(id.duplicate());
        assert(paths(live@) =~= l0.push(id@));
        child.gc(&id.child(0), cx, live);
        assert(self.prepared(id@, *old(cx), cs, child));
        let ghost l1 = paths(live@);
        assert(l1.subrange(0, (l0.len() + 1) as int) == l0.push(id@));
        assert(l1.subrange(0, l0.len() as int) =~= l1.subrange(0, (l0.len() + 1) as int).subrange(
            0,
            l0.len() as int,
        ));
        assert(l0.push(id@).subrange(0, l0.len() as int) =~= l0);
    }

    fn access(&self, id: &ViewId, cx: &mut Context, nodes: &mut Vec<accesskit::Node>) -> (r:
        Option<accesskit::NodeId>) {
        let child = self.prepare::<B>(id, cx);
        let ghost cs = *cx;
        let r = child.access(&id.child(0), cx, nodes);
        assert(self.prepared(id@, *old(cx), cs, child));
        r
    }
}

/// When `process` of a derived-state view returns, its subtree ran in a
/// context where the view's state was the local value and clean. If the
/// subtree left that state written, the setter ran once, on the value that
/// was written, in the context the subtree left with the flag cleared, and
/// its result is the final context; if not, the final context is the one
/// the subtree left and the setter did not run.
pub proof fn lemma_map_view_flush<S, V, SF, F, B>(
    m: MapView<S, SF, F>,
    ev: Event,
    id: Seq<Step>,
    c0: Context,
    c1: Context,
    b0: B,
    b1: B,
) where
    S: StateValue,
    V: ViewNode<B>,
    SF: Fn(S, Context) -> Context,
    F: Fn(State<S>, &Context) -> V,

    requires
        m.process_rel(ev, id, c0, c1, b0, b1),
    ensures
        exists|cs: Context, child: V, cp: Context|
            {
                &&& m.builds(id, cs, child)
                &&& cs@.states[id] == m.local_value().payload()
                &&& !cs@.dirty.contains(id)
                &&& child.process_rel(ev, child_path(id, 0), cs, cp, b0, b1)
                &&& (cp@.dirty.contains(id) && cp@.states.contains_key(id) && S::accepts(
                    cp@.states[id],
                )) ==> exists|cc: Context, v: S|
                    v.payload() == cp@.states[id] && cc@.states == cp@.states && cc@.dirty
                        == cp@.dirty.remove(id) && call_ensures(m.setter(), (v, cc), c1)
                &&& !cp@.dirty.contains(id) ==> c1 == cp
            },
{
    let (cs, child, cp) = choose|cs: Context, child: V, cp: Context|
        m.prepared(id, c0, cs, child) && child.process_rel(ev, child_path(id, 0), cs, cp, b0, b1)
            && m.flushed(id, cp, c1);
    assert(cs@.states == c0@.states.insert(id, m.local_value().payload()));
    assert(cs@.dirty == c0@.dirty.remove(id));
    if cp@.dirty.contains(id) && cp@.states.contains_key(id) && S::accepts(cp@.states[id]) {
        let (cc, v) = choose|cc: Context, v: S|
            cc@ == CxModel { states: cp@.states, dirty: cp@.dirty.remove(id), layout: cp@.layout }
                && v.payload() == cp@.states[id] && call_ensures(m.setter(), (v, cc), c1);
        assert(cc@.states == cp@.states && cc@.dirty == cp@.dirty.remove(id));
    }
}

/// A derived-state view reports its own identity as live: right after what
/// was reported before it and ahead of all that its subtree reports.
pub proof fn lemma_map_view_gc_reports_id<S, V, SF, F, B>(
    m: MapView<S, SF, F>,
    id: Seq<Step>,
    c0: Context,
    c1: Context,
    l0: Seq<Seq<Step>>,
    l1: Seq<Seq<Step>>,
) where
    S: StateValue,
    V: ViewNode<B>,
    SF: Fn(S, Context) -> Context,
    F: Fn(State<S>, &Context) -> V,

    requires
        ViewNode::<B>::gc_rel(&m, id, c0, c1, l0, l1),
    ensures
        extends(l0, l1),
        l1.len() > l0.len(),
        l1[l0.len() as int] == id,
{
    let l = l0.push(id);
    assert(extends(l, l1));
    assert(l1.subrange(0, l.len() as int)[l0.len() as int] == id);
    assert(l1.subrange(0, l0.len() as int) =~= l1.subrange(0, l.len() as int).subrange(
        0,
        l0.len() as int,
    ));
    assert(l.subrange(0, l0.len() as int) =~= l0);
}

/// In the tree of a key view over a derived-state view over an empty view,
/// `gc` reports exactly one live identity, the derived-state view's, which
/// is the child of the root.
pub proof fn lemma_gc_key_over_map<S, SF, F, G, B>(
    kv: KeyView<MapView<S, SF, F>, G>,
    id: Seq<Step>,
    c0: Context,
    c1: Context,
    l0: Seq<Seq<Step>>,
    l1: Seq<Seq<Step>>,
) where
    S: StateValue,
    SF: Fn(S, Context) -> Context,
    F: Fn(State<S>, &Context) -> EmptyView,
    G: Fn(Context, Key) -> Context,

    requires
        ViewNode::<B>::gc_rel(&kv, id, c0, c1, l0, l1),
    ensures
        l1 == l0.push(child_path(id, 0)),
{
    let e = Event::Key(Key::Enter);
    let z = LocalSize { width: 0, height: 0 };
    let xf = LocalToWorld { m11: 1, m12: 0, m21: 0, m22: 1, m31: 0, m32: 0 };
    let pt = LocalPoint { x: 0, y: 0 };
    let o = Seq::<Seq<char>>::empty();
    let k = Seq::<CommandInfo>::empty();
    let n = Seq::<accesskit::Node>::empty();
    let b: B = arbitrary();
    lemma_key_view_forwards::<B, MapView<S, SF, F>, G>(
        kv,
        id,
        c0,
        c1,
        b,
        b,
        e,
        z,
        z,
        xf,
        pt,
        None,
        o,
        o,
        k,
        k,
        l0,
        l1,
        n,
        n,
        None,
    );
    let m = kv.child_view();
    let mid = child_path(id, 0);
    assert(ViewNode::<B>::gc_rel(&m, mid, c0, c1, l0, l1));
    let (cs, child) = choose|cs: Context, child: EmptyView|
        m.prepared(mid, c0, cs, child) && ViewNode::<B>::gc_rel(
            &child,
            child_path(mid, 0),
            cs,
            c1,
            l0.push(mid),
            l1,
        )
            && extends(l0.push(mid), l1);
}

/// A derived-state view can run any operation exactly when its builder
/// accepts every handle and context, every view the builder may return can
/// run any operation, and its setter accepts every value and context.
pub proof fn lemma_map_view_callable<S, V, SF, F, B>(m: MapView<S, SF, F>) where
    S: StateValue,
    V: ViewNode<B>,
    SF: Fn(S, Context) -> Context,
    F: Fn(State<S>, &Context) -> V,

    ensures
        ViewNode::<B>::callable(&m) <==> ((forall|h: State<S>, c: Context|
            call_requires(m.builder(), (h, &c))) && (forall|h: State<S>, c: Context, child: V|
            #[trigger] call_ensures(m.builder(), (h, &c), child) ==> child.callable()) && (forall|
            v: S,
            c: Context,
        | call_requires(m.setter(), (v, c)))),
{
}

} // verus!
