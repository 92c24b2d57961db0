use vstd::prelude::*;
use crate::context::{Context, CxModel};
use crate::event::{CommandInfo, Event, Key};
use crate::geometry::{
    wrapper_box, LayoutBox, LocalOffset, LocalPoint, LocalRect, LocalSize, LocalToWorld,
};
use crate::id::{child_path, Step, ViewId};
use crate::view::{lines, ViewNode};

verus! {

/// A view that hands every key event to a callback before passing it on to
/// its child. The callback receives the context and the key, and returns
/// the context as it leaves it.
pub struct KeyView<V, F> {
    child: V,
    func: F,
}

impl<V, F> KeyView<V, F> where F: Fn(Context, Key) -> Context {
    /// The child view.
    pub closed spec fn child_view(&self) -> V {
        self.child
    }

    /// The key callback.
    pub closed spec fn callback(&self) -> F {
        self.func
    }

    /// Wraps `v` so that `f` sees each key event.
    pub fn new(v: V, f: F) -> (r: KeyView<V, F>)
        ensures
            r.child_view() == v,
            r.callback() == f,
    {
        KeyView { child: v, func: f }
    }
}

impl<B, V, F> ViewNode<B> for KeyView<V, F> where V: ViewNode<B>, F: Fn(Context, Key) -> Context {
    open spec fn callable(&self) -> bool {
        &&& self.child_view().callable()
        &&& forall|c: Context, k: Key| call_requires(self.callback(), (c, k))
    }

    open spec fn print_rel(
        &self,
        id: Seq<Step>,
        c0: Context,
        c1: Context,
        o0: Seq<Seq<char>>,
        o1: Seq<Seq<char>>,
    ) -> bool {
        &&& o1.len() > 0
        &&& o1.last() == "}"@
        &&& self.child_view().print_rel(child_path(id, 0), c0, c1, o0.push("Key {"@), o1.drop_last())
    }

    open spec fn process_rel(
        &self,
        ev: Event,
        id: Seq<Step>,
        c0: Context,
        c1: Context,
        b0: B,
        b1: B,
    ) -> bool {
        match ev {
            Event::Key(k) => exists|cm: Context|
                call_ensures(self.callback(), (c0, k), cm) && self.child_view().process_rel(
                    ev,
                    child_path(id, 0),
                    cm,
                    c1,
                    b0,
                    b1,
                ),
            _ => self.child_view().process_rel(ev, child_path(id, 0), c0, c1, b0, b1),
        }
    }

    open spec fn draw_rel(&self, id: Seq<Step>, c0: Context, c1: Context, b0: B, b1: B) -> bool {
        self.child_view().draw_rel(child_path(id, 0), c0, c1, b0, b1)
    }

    open spec fn layout_rel(
        &self,
        id: Seq<Step>,
        sz: LocalSize,
        c0: Context,
        c1: Context,
        b0: B,
        b1: B,
        r: LocalSize,
    ) -> bool {
        exists|cm: Context|
            self.child_view().layout_rel(child_path(id, 0), sz, c0, cm, b0, b1, r) && c1@ == CxModel {
                states: cm@.states,
                dirty: cm@.dirty,
                layout: cm@.layout.insert(id, wrapper_box(r)),
            }
    }

    open spec fn dirty_rel(&self, id: Seq<Step>, xf: LocalToWorld, c0: Context, c1: Context) -> bool {
        self.child_view().dirty_rel(child_path(id, 0), xf, c0, c1)
    }

    open spec fn hittest_rel(
        &self,
        id: Seq<Step>,
        pt: LocalPoint,
        c0: Context,
        c1: Context,
        b0: B,
        b1: B,
        r: Option<Seq<Step>>,
    ) -> bool {
        self.child_view().hittest_rel(child_path(id, 0), pt, c0, c1, b0, b1, r)
    }

    open spec fn commands_rel(
        &self,
        id: Seq<Step>,
        c0: Context,
        c1: Context,
        k0: Seq<CommandInfo>,
        k1: Seq<CommandInfo>,
    ) -> bool {
        self.child_view().commands_rel(child_path(id, 0), c0, c1, k0, k1)
    }

    open spec fn gc_rel(
        &self,
        id: Seq<Step>,
        c0: Context,
        c1: Context,
        l0: Seq<Seq<Step>>,
        l1: Seq<Seq<Step>>,
    ) -> bool {
        self.child_view().gc_rel(child_path(id, 0), c0, c1, l0, l1)
    }

    open spec fn access_rel(
        &self,
        id: Seq<Step>,
        c0: Context,
        c1: Context,
        n0: Seq<accesskit::Node>,
        n1: Seq<accesskit::Node>,
        r: Option<accesskit::NodeId>,
    ) -> bool {
        self.child_view().access_rel(child_path(id, 0), c0, c1, n0, n1, r)
    }

    fn print(&self, id: &ViewId, cx: &mut Context, out: &mut Vec<String>) {
        let ghost o0 = lines(out@);
        out.push("Key {".to_owned());
        assert(lines(out@) =~= o0.push("Key {"@));
        self.child.print(&id.child(0), cx, out);
        let ghost mid = lines(out@);
        out.push("}".to_owned());
        assert(lines(out@) =~= mid.push("}"@));
        assert(lines(out@).drop_last() =~= mid);
    }

    fn process(&self, event: &Event, id: &ViewId, cx: &mut Context, backend: &mut B) {
        if let Event::Key(key) = event {
            let mut taken = Context::new();
            std::mem::swap(cx, &mut taken);
            assert(call_requires(self.callback(), (taken, *key)));
            *cx = (self.func)(taken, *key);
        }
        self.child.process(event, &id.child(0), cx, backend);
    }

    fn draw(&self, id: &ViewId, cx: &mut Context, backend: &mut B) {
        self.child.draw(&id.child(0), cx, backend)
    }

    fn layout(&self, id: &ViewId, sz: LocalSize, cx: &mut Context, backend: &mut B) -> (r:
        LocalSize) {
        let child_size = self.child.layout(&id.child(0), sz, cx, backend);
        let ghost cm = *cx;
        cx.set_layout(
            id,
            LayoutBox {
                rect: LocalRect::new(LocalPoint::zero(), child_size),
                offset: LocalOffset::zero(),
            },
        );
        assert(cx@ == CxModel {
            states: cm@.states,
            dirty: cm@.dirty,
            layout: cm@.layout.insert(id@, wrapper_box(child_size)),
        });
        child_size
    }

    fn dirty(&self, id: &ViewId, xf: LocalToWorld, cx: &mut Context) {
        self.child.dirty(&id.child(0), xf, cx)
    }

    fn hittest(&self, id: &ViewId, pt: LocalPoint, cx: &mut Context, backend: &mut B) -> (r:
        Option<ViewId>) {
        self.child.hittest(&id.child(0), pt, cx, backend)
    }

    fn commands(&self, id: &ViewId, cx: &mut Context, cmds: &mut Vec<CommandInfo>) {
        self.child.commands(&id.child(0), cx, cmds)
    }

    fn gc(&self, id: &ViewId, cx: &mut Context, live: &mut Vec<ViewId>) {
        self.child.gc(&id.child(0), cx, live)
    }

    fn access(&self, id: &ViewId, cx: &mut Context, nodes: &mut Vec<accesskit::Node>) -> (r:
        Option<accesskit::NodeId>) {
        self.child.access(&id.child(0), cx, nodes)
    }
}

/// A key view forwards every operation to its child at the child identity:
/// `draw`, `dirty`, `hittest`, `commands`, `gc` and `access` are exactly the
/// child's, `process` of an event that is not a key is the child's, `layout`
/// is the child's followed by recording the view's own box (origin zero, the
/// child's size), and the trace of `print` is the child's between `Key {`
/// and `}`.
pub proof fn lemma_key_view_forwards<B, V, F>(
    kv: KeyView<V, F>,
    id: Seq<Step>,
    c0: Context,
    c1: Context,
    b0: B,
    b1: B,
    ev: Event,
    sz: LocalSize,
    r: LocalSize,
    xf: LocalToWorld,
    pt: LocalPoint,
    hit: Option<Seq<Step>>,
    o0: Seq<Seq<char>>,
    o1: Seq<Seq<char>>,
    k0: Seq<CommandInfo>,
    k1: Seq<CommandInfo>,
    l0: Seq<Seq<Step>>,
    l1: Seq<Seq<Step>>,
    n0: Seq<accesskit::Node>,
    n1: Seq<accesskit::Node>,
    nr: Option<accesskit::NodeId>,
) where V: ViewNode<B>, F: Fn(Context, Key) -> Context
    ensures
        !(ev is Key) ==> (kv.process_rel(ev, id, c0, c1, b0, b1) == kv.child_view().process_rel(
            ev,
            child_path(id, 0),
            c0,
            c1,
            b0,
            b1,
        )),
        kv.draw_rel(id, c0, c1, b0, b1) == kv.child_view().draw_rel(child_path(id, 0), c0, c1, b0, b1),
        kv.layout_rel(id, sz, c0, c1, b0, b1, r) <==> (exists|cm: Context|
            kv.child_view().layout_rel(child_path(id, 0), sz, c0, cm, b0, b1, r) && (c1@ == CxModel {
                states: cm@.states,
                dirty: cm@.dirty,
                layout: cm@.layout.insert(id, wrapper_box(r)),
            })),
        kv.dirty_rel(id, xf, c0, c1) == kv.child_view().dirty_rel(child_path(id, 0), xf, c0, c1),
        kv.hittest_rel(id, pt, c0, c1, b0, b1, hit) == kv.child_view().hittest_rel(
            child_path(id, 0),
            pt,
            c0,
            c1,
            b0,
            b1,
            hit,
        ),
        kv.commands_rel(id, c0, c1, k0, k1) == kv.child_view().commands_rel(
            child_path(id, 0),
            c0,
            c1,
            k0,
            k1,
        ),
        kv.gc_rel(id, c0, c1, l0, l1) == kv.child_view().gc_rel(child_path(id, 0), c0, c1, l0, l1),
        kv.access_rel(id, c0, c1, n0, n1, nr) == kv.child_view().access_rel(
            child_path(id, 0),
            c0,
            c1,
            n0,
            n1,
            nr,
        ),
        kv.print_rel(id, c0, c1, o0, o1) <==> (o1.len() > 0 && o1.last() == "}"@
            && kv.child_view().print_rel(child_path(id, 0), c0, c1, o0.push("Key {"@), o1.drop_last())),
{
}

/// On a key event a key view calls its callback once with the context and
/// the key, then delivers the same event to its child at the child identity
/// in the context that the callback returned.
pub proof fn lemma_key_view_key_event<B, V, F>(
    kv: KeyView<V, F>,
    k: Key,
    id: Seq<Step>,
    c0: Context,
    c1: Context,
    b0: B,
    b1: B,
) where V: ViewNode<B>, F: Fn(Context, Key) -> Context
    ensures
        kv.process_rel(Event::Key(k), id, c0, c1, b0, b1) <==> exists|cm: Context|
            call_ensures(kv.callback(), (c0, k), cm) && kv.child_view().process_rel(
                Event::Key(k),
                child_path(id, 0),
                cm,
                c1,
                b0,
                b1,
            ),
{
    let ev = Event::Key(k);
    let cid = child_path(id, 0);
    if kv.process_rel(ev, id, c0, c1, b0, b1) {
        let cm = choose|cm: Context|
            call_ensures(kv.func, (c0, k), cm) && kv.child.process_rel(ev, cid, cm, c1, b0, b1);
        assert(call_ensures(kv.callback(), (c0, k), cm));
        assert(kv.child_view().process_rel(ev, cid, cm, c1, b0, b1));
    }
    if exists|cm: Context|
        call_ensures(kv.callback(), (c0, k), cm) && kv.child_view().process_rel(ev, cid, cm, c1, b0, b1) {
        let cm = choose|cm: Context|
            call_ensures(kv.callback(), (c0, k), cm) && kv.child_view().process_rel(ev, cid, cm, c1, b0, b1);
        assert(call_ensures(kv.func, (c0, k), cm) && kv.child.process_rel(ev, cid, cm, c1, b0, b1));
        assert(kv.process_rel(ev, id, c0, c1, b0, b1));
    }
}

/// A key view can run any operation exactly when its child can and its
/// callback accepts every context and key.
pub proof fn lemma_key_view_callable<B, V, F>(kv: KeyView<V, F>) where
    V: ViewNode<B>,
    F: Fn(Context, Key) -> Context,

    ensures
        ViewNode::<B>::callable(&kv) <==> (ViewNode::<B>::callable(&kv.child_view()) && (forall|c: Context, k: Key|
            call_requires(kv.callback(), (c, k)))),
{
}

} // verus!
