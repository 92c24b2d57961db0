use vstd::prelude::*;
use crate::context::Context;
use crate::event::{CommandInfo, Event};
use crate::geometry::{LocalPoint, LocalSize, LocalToWorld};
use crate::id::{Step, ViewId};

verus! {

/// An accessibility node, carried through the tree as it is.
#[verifier::external_type_specification]
#[verifier::external_body]
pub struct ExAccessNode(accesskit::Node);

/// An accessibility node identity, carried through the tree as it is.
#[verifier::external_type_specification]
#[verifier::external_body]
pub struct ExAccessNodeId(accesskit::NodeId);

/// The text of each line of a trace.
pub open spec fn lines(v: Seq<String>) -> Seq<Seq<char>> {
    v.map_values(|s: String| s@)
}

/// The path of each identity of a list.
pub open spec fn paths(v: Seq<ViewId>) -> Seq<Seq<Step>> {
    v.map_values(|i: ViewId| i@)
}

/// The path of an optional identity.
pub open spec fn opt_path(r: Option<ViewId>) -> Option<Seq<Step>> {
    match r {
        Some(i) => Some(i@),
        None => None,
    }
}

/// `b` is `a` with more items appended.
pub open spec fn extends<T>(a: Seq<T>, b: Seq<T>) -> bool {
    a.len() <= b.len() && b.subrange(0, a.len() as int) == a
}

/// The protocol that every node of a view tree implements, over the drawing
/// and measuring backend `B`. Each operation takes the node's identity and
/// the shared context; what it does is the
/// relation of the same name, which each node type defines.
pub trait ViewNode<B>: Sized {
    /// Whether every callback that this node and its descendants hold accepts
    /// every argument.
    spec fn callable(&self) -> bool;

    /// `print` at `id` takes the context from `c0` to `c1` and the trace from
    /// `o0` to `o1`.
    spec fn print_rel(
        &self,
        id: Seq<Step>,
        c0: Context,
        c1: Context,
        o0: Seq<Seq<char>>,
        o1: Seq<Seq<char>>,
    ) -> bool;

    /// `process` of `ev` at `id` takes the context from `c0` to `c1` and the
    /// backend from `b0` to `b1`.
    spec fn process_rel(
        &self,
        ev: Event,
        id: Seq<Step>,
        c0: Context,
        c1: Context,
        b0: B,
        b1: B,
    ) -> bool;

    /// `draw` at `id` takes the context from `c0` to `c1` and the backend
    /// from `b0` to `b1`.
    spec fn draw_rel(&self, id: Seq<Step>, c0: Context, c1: Context, b0: B, b1: B) -> bool;

    /// `layout` at `id` with the proposed size `sz` takes the context from
    /// `c0` to `c1` and the backend from `b0` to `b1`, and returns `r`.
    spec fn layout_rel(
        &self,
        id: Seq<Step>,
        sz: LocalSize,
        c0: Context,
        c1: Context,
        b0: B,
        b1: B,
        r: LocalSize,
    ) -> bool;

    /// `dirty` at `id` under the transform `xf` takes the context from `c0`
    /// to `c1`.
    spec fn dirty_rel(&self, id: Seq<Step>, xf: LocalToWorld, c0: Context, c1: Context) -> bool;

    /// `hittest` of `pt` at `id` takes the context from `c0` to `c1` and the
    /// backend from `b0` to `b1`, and returns the path `r` of the node hit,
    /// if any.
    spec fn hittest_rel(
        &self,
        id: Seq<Step>,
        pt: LocalPoint,
        c0: Context,
        c1: Context,
        b0: B,
        b1: B,
        r: Option<Seq<Step>>,
    ) -> bool;

    /// `commands` at `id` takes the context from `c0` to `c1` and the
    /// command list from `k0` to `k1`.
    spec fn commands_rel(
        &self,
        id: Seq<Step>,
        c0: Context,
        c1: Context,
        k0: Seq<CommandInfo>,
        k1: Seq<CommandInfo>,
    ) -> bool;

    /// `gc` at `id` takes the context from `c0` to `c1` and the list of
    /// live paths from `l0` to `l1`.
    spec fn gc_rel(
        &self,
        id: Seq<Step>,
        c0: Context,
        c1: Context,
        l0: Seq<Seq<Step>>,
        l1: Seq<Seq<Step>>,
    ) -> bool;

    /// `access` at `id` takes the context from `c0` to `c1` and the node
    /// list from `n0` to `n1`, and returns `r`.
    spec fn access_rel(
        &self,
        id: Seq<Step>,
        c0: Context,
        c1: Context,
        n0: Seq<accesskit::Node>,
        n1: Seq<accesskit::Node>,
        r: Option<accesskit::NodeId>,
    ) -> bool;

    /// Appends a structural trace of the subtree to `out`.
    fn print(&self, id: &ViewId, cx: &mut Context, out: &mut Vec<String>)
        requires
            self.callable(),
        ensures
            self.print_rel(id@, *old(cx), *final(cx), lines(old(out)@), lines(final(out)@)),
    ;

    /// Delivers one event to the subtree.
    fn process(&self, event: &Event, id: &ViewId, cx: &mut Context, backend: &mut B)
        requires
            self.callable(),
        ensures
            self.process_rel(*event, id@, *old(cx), *final(cx), *old(backend), *final(backend)),
    ;

    /// Paints the subtree.
    fn draw(&self, id: &ViewId, cx: &mut Context, backend: &mut B)
        requires
            self.callable(),
        ensures
            self.draw_rel(id@, *old(cx), *final(cx), *old(backend), *final(backend)),
    ;

    /// Computes the size of the subtree within the proposed size `sz`.
    fn layout(&self, id: &ViewId, sz: LocalSize, cx: &mut Context, backend: &mut B) -> (r:
        LocalSize)
        requires
            self.callable(),
        ensures
            self.layout_rel(id@, sz, *old(cx), *final(cx), *old(backend), *final(backend), r),
    ;

    /// Propagates the transform `xf` to the subtree.
    fn dirty(&self, id: &ViewId, xf: LocalToWorld, cx: &mut Context)
        requires
            self.callable(),
        ensures
            self.dirty_rel(id@, xf, *old(cx), *final(cx)),
    ;

    /// The identity of the node of the subtree that holds `pt`, if any.
    fn hittest(&self, id: &ViewId, pt: LocalPoint, cx: &mut Context, backend: &mut B) -> (r:
        Option<ViewId>)
        requires
            self.callable(),
        ensures
            self.hittest_rel(
                id@,
                pt,
                *old(cx),
                *final(cx),
                *old(backend),
                *final(backend),
                opt_path(r),
            ),
    ;

    /// Appends the commands of the subtree to `cmds`.
    fn commands(&self, id: &ViewId, cx: &mut Context, cmds: &mut Vec<CommandInfo>)
        requires
            self.callable(),
        ensures
            self.commands_rel(id@, *old(cx), *final(cx), old(cmds)@, final(cmds)@),
    ;

    /// Appends to `live` the identities of the subtree that own state.
    fn gc(&self, id: &ViewId, cx: &mut Context, live: &mut Vec<ViewId>)
        requires
            self.callable(),
        ensures
            self.gc_rel(id@, *old(cx), *final(cx), paths(old(live)@), paths(final(live)@)),
            extends(paths(old(live)@), paths(final(live)@)),
    ;

    /// Appends the accessibility nodes of the subtree to `nodes` and returns
    /// the identity of the node that stands for it, if any.
    fn access(&self, id: &ViewId, cx: &mut Context, nodes: &mut Vec<accesskit::Node>) -> (r:
        Option<accesskit::NodeId>)
        requires
            self.callable(),
        ensures
            self.access_rel(id@, *old(cx), *final(cx), old(nodes)@, final(nodes)@, r),
    ;
}

/// A leaf that shows nothing and takes no part in any pass.
pub struct EmptyView {}

impl EmptyView {
    /// The empty view.
    pub fn new() -> (r: EmptyView) {
        EmptyView {  }
    }
}

impl<B> ViewNode<B> for EmptyView {
    open spec fn callable(&self) -> bool {
        true
    }

    open spec fn print_rel(
        &self,
        id: Seq<Step>,
        c0: Context,
        c1: Context,
        o0: Seq<Seq<char>>,
        o1: Seq<Seq<char>>,
    ) -> bool {
        c1 == c0 && o1 == o0.push("EmptyView"@)
    }

    open spec fn process_rel(
        &self,
        ev: Event,
        id: Seq<Step>,
        c0: Context,
        c1: Context,
        b0: B,
        b1: B,
    ) -> bool {
        c1 == c0 && b1 == b0
    }

    open spec fn draw_rel(&self, id: Seq<Step>, c0: Context, c1: Context, b0: B, b1: B) -> bool {
        c1 == c0 && b1 == b0
    }

    open spec fn layout_rel(
        &self,
        id: Seq<Step>,
        sz: LocalSize,
        c0: Context,
        c1: Context,
        b0: B,
        b1: B,
        r: LocalSize,
    ) -> bool {
        c1 == c0 && b1 == b0 && r == LocalSize { width: 0, height: 0 }
    }

    open spec fn dirty_rel(&self, id: Seq<Step>, xf: LocalToWorld, c0: Context, c1: Context) -> bool {
        c1 == c0
    }

    open spec fn hittest_rel(
        &self,
        id: Seq<Step>,
        pt: LocalPoint,
        c0: Context,
        c1: Context,
        b0: B,
        b1: B,
        r: Option<Seq<Step>>,
    ) -> bool {
        c1 == c0 && b1 == b0 && r is None
    }

    open spec fn commands_rel(
        &self,
        id: Seq<Step>,
        c0: Context,
        c1: Context,
        k0: Seq<CommandInfo>,
        k1: Seq<CommandInfo>,
    ) -> bool {
        c1 == c0 && k1 == k0
    }

    open spec fn gc_rel(
        &self,
        id: Seq<Step>,
        c0: Context,
        c1: Context,
        l0: Seq<Seq<Step>>,
        l1: Seq<Seq<Step>>,
    ) -> bool {
        c1 == c0 && l1 == l0
    }

    open spec fn access_rel(
        &self,
        id: Seq<Step>,
        c0: Context,
        c1: Context,
        n0: Seq<accesskit::Node>,
        n1: Seq<accesskit::Node>,
        r: Option<accesskit::NodeId>,
    ) -> bool {
        c1 == c0 && n1 == n0 && r is None
    }

    fn print(&self, id: &ViewId, cx: &mut Context, out: &mut Vec<String>) {
        out.push("EmptyView".to_owned());
        assert(lines(out@) =~= lines(old(out)@).push("EmptyView"@));
    }

    fn process(&self, event: &Event, id: &ViewId, cx: &mut Context, backend: &mut B) {
    }

    fn draw(&self, id: &ViewId, cx: &mut Context, backend: &mut B) {
    }

    fn layout(&self, id: &ViewId, sz: LocalSize, cx: &mut Context, backend: &mut B) -> (r:
        LocalSize) {
        LocalSize { width: 0, height: 0 }
    }

    fn dirty(&self, id: &ViewId, xf: LocalToWorld, cx: &mut Context) {
    }

    fn hittest(&self, id: &ViewId, pt: LocalPoint, cx: &mut Context, backend: &mut B) -> (r:
        Option<ViewId>) {
        None
    }

    fn commands(&self, id: &ViewId, cx: &mut Context, cmds: &mut Vec<CommandInfo>) {
    }

    fn gc(&self, id: &ViewId, cx: &mut Context, live: &mut Vec<ViewId>) {
        assert(paths(live@).subrange(0, paths(live@).len() as int) =~= paths(live@));
    }

    fn access(&self, id: &ViewId, cx: &mut Context, nodes: &mut Vec<accesskit::Node>) -> (r:
        Option<accesskit::NodeId>) {
        None
    }
}

} // verus!
