use rui_core::{
    Context, Event, EmptyView, IdMap, Key, KeyView, LayoutBox, LocalOffset, LocalPoint,
    LocalRect, LocalSize, LocalToWorld, Segment, State, ViewId, ViewNode,
};

fn key_event() -> Event {
    Event::Key(Key::Character('a'))
}

fn touch_event() -> Event {
    Event::TouchBegin { id: 0, position: LocalPoint { x: 1, y: 2 } }
}

#[test]
fn child_ids_are_deterministic_and_distinct() {
    let root = ViewId::root();
    assert_eq!(root.depth(), 0);
    let a = root.child(1);
    let b = root.child(1);
    let c = root.child(2);
    assert_eq!(a, b);
    assert_ne!(a, c);
    assert_eq!(a.depth(), 1);
    assert!(matches!(a.segment(0), Segment::Index(1)));
    let a0 = a.child(0);
    assert_eq!(a0.depth(), 2);
    assert!(matches!(a0.segment(0), Segment::Index(1)));
    assert!(matches!(a0.segment(1), Segment::Index(0)));
    assert_ne!(a.child(0), root.child(0).child(1));
    assert!(a.same(&b));
    assert!(!a.same(&root));
}

#[test]
fn keyed_child_ids() {
    let root = ViewId::root();
    let x = root.child_key("item-7");
    assert_eq!(x, root.child_key("item-7"));
    assert_ne!(x, root.child_key("item-8"));
    assert_ne!(x, root.child(7));
    assert_eq!(x.depth(), 1);
    match x.segment(0) {
        Segment::Key(k) => assert_eq!(k, "item-7"),
        Segment::Index(_) => panic!("expected a key segment"),
    }
    let mut cx = Context::new();
    cx.set_state(&x, &1i64);
    assert_eq!(cx.get(&State::<i64>::new(&root.child_key("item-7"))), Some(1));
    assert_eq!(cx.get(&State::<i64>::new(&root.child_key("item-8"))), None);
}

#[test]
fn id_map_keeps_one_entry_per_id() {
    let mut m: IdMap<i64> = IdMap::new();
    let root = ViewId::root();
    assert_eq!(m.len(), 0);
    m.insert(&root.child(0), 4);
    m.insert(&root.child(1), 5);
    m.insert(&root.child(0), 6);
    assert_eq!(m.len(), 2);
    assert_eq!(m.get(&root.child(0)), Some(&6));
    assert_eq!(m.get(&root.child(1)), Some(&5));
    assert_eq!(m.get(&root), None);
    assert!(m.contains(&root.child(1)));
    assert!(!m.contains(&root.child(2)));
}

#[test]
fn state_round_trips_by_type() {
    let mut cx = Context::new();
    let id = ViewId::root().child(3);
    cx.set_state(&id, &"hello".to_string());
    let as_text: State<String> = State::new(&id);
    let as_int: State<i64> = State::new(&id);
    assert_eq!(cx.get(&as_text), Some("hello".to_string()));
    assert_eq!(cx.get(&as_int), None);
    cx.set_state(&id, &-17i64);
    assert_eq!(cx.get(&as_int), Some(-17));
    assert_eq!(cx.get(&as_text), None);
    let flag: State<bool> = State::new(&ViewId::root());
    assert_eq!(cx.get(&flag), None);
    cx.set(&flag, &true);
    assert_eq!(cx.get(&flag), Some(true));
}

#[test]
fn writes_through_handles_mark_dirty() {
    let mut cx = Context::new();
    let id = ViewId::root().child(0);
    let s: State<i64> = State::new(&id);
    assert!(!cx.is_dirty(&id));
    cx.set_state(&id, &1i64);
    assert!(!cx.is_dirty(&id));
    cx.set(&s, &2i64);
    assert!(cx.is_dirty(&id));
    assert_eq!(cx.get(&s), Some(2));
    cx.clear_dirty(&id);
    assert!(!cx.is_dirty(&id));
    assert_eq!(cx.get(&s), Some(2));
    cx.set(&s, &3i64);
    cx.set_state(&id, &4i64);
    assert!(!cx.is_dirty(&id));
    assert_eq!(cx.get(&s), Some(4));
}

#[test]
fn key_view_calls_callback_once_and_forwards() {
    let root = ViewId::root();
    let counter_id = ViewId::root().child(7);
    let counter: State<i64> = State::new(&counter_id);
    let last_key: State<i64> = State::new(&ViewId::root().child(8));
    let h = counter.clone();
    let k = last_key.clone();
    let kv = KeyView::new(
        rui_core::map_view::map(0i64, |_v: i64, cx: Context| cx, |_s: State<i64>, _cx: &Context| EmptyView::new()),
        move |mut cx: Context, key: Key| {
            let n = cx.get(&h).unwrap_or(0);
            cx.set(&h, &(n + 1));
            if let Key::Character(c) = key {
                cx.set(&k, &(c as i64));
            }
            cx
        },
    );
    let mut cx = Context::new();
    cx.set_state(&counter_id, &0i64);
    kv.process(&key_event(), &root, &mut cx, &mut ());
    assert_eq!(cx.get(&counter), Some(1));
    assert_eq!(cx.get(&last_key), Some('a' as i64));
    let child_state: State<i64> = State::new(&root.child(0));
    assert_eq!(cx.get(&child_state), Some(0));
}

#[test]
fn key_view_ignores_other_events_but_forwards_them() {
    let root = ViewId::root();
    let counter: State<i64> = State::new(&ViewId::root().child(7));
    let h = counter.clone();
    let kv = KeyView::new(
        rui_core::map_view::map(3i64, |_v: i64, cx: Context| cx, |_s: State<i64>, _cx: &Context| EmptyView::new()),
        move |mut cx: Context, _key: Key| {
            let n = cx.get(&h).unwrap_or(0);
            cx.set(&h, &(n + 1));
            cx
        },
    );
    let mut cx = Context::new();
    kv.process(&touch_event(), &root, &mut cx, &mut ());
    assert_eq!(cx.get(&counter), None);
    let child_state: State<i64> = State::new(&root.child(0));
    assert_eq!(cx.get(&child_state), Some(3));
}

#[test]
fn map_flushes_a_written_value_to_the_setter() {
    let root = ViewId::root();
    let ext_id = ViewId::root().child(100);
    let ext: State<i64> = State::new(&ext_id);
    let mut cx = Context::new();
    cx.set_state(&ext_id, &5i64);

    let e = ext.clone();
    let doubling = rui_core::map_view::map(
        cx.get(&ext).unwrap(),
        move |v: i64, mut cx: Context| {
            cx.set(&e, &v);
            cx
        },
        |s: State<i64>, _cx: &Context| {
            KeyView::new(EmptyView::new(), move |mut cx: Context, _k: Key| {
                let v = cx.get(&s).unwrap();
                cx.set(&s, &(v * 2));
                cx
            })
        },
    );
    doubling.process(&key_event(), &root, &mut cx, &mut ());
    assert_eq!(cx.get(&ext), Some(10));
    assert!(!cx.is_dirty(&root));

    let e2 = ext.clone();
    let still = rui_core::map_view::map(
        cx.get(&ext).unwrap(),
        move |v: i64, mut cx: Context| {
            cx.set(&e2, &v);
            cx
        },
        |_s: State<i64>, _cx: &Context| EmptyView::new(),
    );
    still.process(&key_event(), &root, &mut cx, &mut ());
    assert_eq!(cx.get(&ext), Some(10));
}

#[test]
fn map_does_not_call_the_setter_without_a_write() {
    let root = ViewId::root();
    let calls: State<i64> = State::new(&ViewId::root().child(50));
    let c = calls.clone();
    let view = rui_core::map_view::map(
        1i64,
        move |_v: i64, mut cx: Context| {
            let n = cx.get(&c).unwrap_or(0);
            cx.set(&c, &(n + 1));
            cx
        },
        |_s: State<i64>, _cx: &Context| EmptyView::new(),
    );
    let mut cx = Context::new();
    view.process(&key_event(), &root, &mut cx, &mut ());
    view.process(&touch_event(), &root, &mut cx, &mut ());
    assert_eq!(cx.get(&calls), None);
    let local: State<i64> = State::new(&root);
    assert_eq!(cx.get(&local), Some(1));
}

#[test]
fn map_reinstalls_the_external_value_each_pass() {
    let root = ViewId::root();
    let local: State<i64> = State::new(&root);
    let view = rui_core::map_view::map(8i64, |_v: i64, cx: Context| cx, |_s: State<i64>, _cx: &Context| EmptyView::new());
    let mut cx = Context::new();
    cx.set(&local, &99i64);
    view.draw(&root, &mut cx, &mut ());
    assert_eq!(cx.get(&local), Some(8));
    assert!(!cx.is_dirty(&root));
}

#[test]
fn print_nests_the_child_trace() {
    let root = ViewId::root();
    let kv = KeyView::new(EmptyView::new(), |cx: Context, _k: Key| cx);
    let mut cx = Context::new();
    let mut out: Vec<String> = Vec::new();
    ViewNode::<()>::print(&kv, &root, &mut cx, &mut out);
    assert_eq!(out, vec!["Key {".to_string(), "EmptyView".to_string(), "}".to_string()]);

    let nested = KeyView::new(
        rui_core::map_view::map(0i64, |_v: i64, cx: Context| cx, |_s: State<i64>, _cx: &Context| {
            KeyView::new(EmptyView::new(), |cx: Context, _k: Key| cx)
        }),
        |cx: Context, _k: Key| cx,
    );
    let mut out2: Vec<String> = Vec::new();
    ViewNode::<()>::print(&nested, &root, &mut cx, &mut out2);
    assert_eq!(out2, vec!["Key {", "Key {", "EmptyView", "}", "}"]);
}

#[test]
fn layout_records_a_box_for_each_wrapper() {
    let root = ViewId::root();
    let kv = KeyView::new(
        rui_core::map_view::map(0i64, |_v: i64, cx: Context| cx, |_s: State<i64>, _cx: &Context| EmptyView::new()),
        |cx: Context, _k: Key| cx,
    );
    let mut cx = Context::new();
    let sz = kv.layout(&root, LocalSize { width: 100, height: 50 }, &mut cx, &mut ());
    assert_eq!(sz, LocalSize { width: 0, height: 0 });
    assert_eq!(
        cx.layout_box(&root),
        Some(LayoutBox {
            rect: LocalRect::new(LocalPoint::zero(), LocalSize { width: 0, height: 0 }),
            offset: LocalOffset::zero(),
        })
    );
    assert_eq!(
        cx.layout_box(&root.child(0)),
        Some(LayoutBox {
            rect: LocalRect::new(LocalPoint::zero(), LocalSize { width: 0, height: 0 }),
            offset: LocalOffset::zero(),
        })
    );
}

#[test]
fn gc_reports_the_map_view_ids() {
    let root = ViewId::root();
    let tree = KeyView::new(
        rui_core::map_view::map(0i64, |_v: i64, cx: Context| cx, |_s: State<i64>, _cx: &Context| {
            rui_core::map_view::map(true, |_v: bool, cx: Context| cx, |_s: State<bool>, _cx: &Context| EmptyView::new())
        }),
        |cx: Context, _k: Key| cx,
    );
    let mut cx = Context::new();
    let mut live: Vec<ViewId> = Vec::new();
    ViewNode::<()>::gc(&tree, &root, &mut cx, &mut live);
    assert_eq!(live, vec![root.child(0), root.child(0).child(0)]);
}

#[test]
fn other_passes_forward_to_the_child() {
    let root = ViewId::root();
    let kv = KeyView::new(
        rui_core::map_view::map(2i64, |_v: i64, cx: Context| cx, |_s: State<i64>, _cx: &Context| EmptyView::new()),
        |cx: Context, _k: Key| cx,
    );
    let mut cx = Context::new();
    assert_eq!(kv.hittest(&root, LocalPoint { x: 0, y: 0 }, &mut cx, &mut ()), None);
    let mut cmds = Vec::new();
    ViewNode::<()>::commands(&kv, &root, &mut cx, &mut cmds);
    assert!(cmds.is_empty());
    let mut nodes: Vec<accesskit::Node> = Vec::new();
    assert_eq!(ViewNode::<()>::access(&kv, &root, &mut cx, &mut nodes), None);
    assert!(nodes.is_empty());
    ViewNode::<()>::dirty(&kv, &root, LocalToWorld::identity(), &mut cx);
    let child_state: State<i64> = State::new(&root.child(0));
    assert_eq!(cx.get(&child_state), Some(2));
    assert_eq!(cx.get(&State::<i64>::new(&root)), None);
}

#[test]
fn eviction_keeps_only_live_ids() {
    let root = ViewId::root();
    let mut cx = Context::new();
    let a: State<i64> = State::new(&root.child(0));
    let b: State<i64> = State::new(&root.child(1));
    cx.set(&a, &1i64);
    cx.set(&b, &2i64);
    cx.set_layout(&root.child(1), LayoutBox {
        rect: LocalRect::new(LocalPoint::zero(), LocalSize { width: 3, height: 4 }),
        offset: LocalOffset::zero(),
    });
    cx.evict(&vec![root.child(0)]);
    assert_eq!(cx.get(&a), Some(1));
    assert!(cx.is_dirty(&root.child(0)));
    assert_eq!(cx.get(&b), None);
    assert!(!cx.is_dirty(&root.child(1)));
    assert_eq!(cx.layout_box(&root.child(1)), None);
}

#[test]
fn eviction_after_two_gc_reports() {
    let root = ViewId::root();
    let mut cx = Context::new();
    for d in 0..4u64 {
        cx.set_state(&root.child(d), &(d as i64));
    }
    cx.evict_absent_twice(&vec![root.child(0), root.child(1)], &vec![root.child(1), root.child(2)]);
    assert_eq!(cx.get(&State::<i64>::new(&root.child(0))), Some(0));
    assert_eq!(cx.get(&State::<i64>::new(&root.child(1))), Some(1));
    assert_eq!(cx.get(&State::<i64>::new(&root.child(2))), Some(2));
    assert_eq!(cx.get(&State::<i64>::new(&root.child(3))), None);
}

#[test]
fn gc_then_evict_drops_state_of_removed_views() {
    let root = ViewId::root();
    let mut cx = Context::new();
    let stale: State<i64> = State::new(&root.child(5));
    cx.set_state(&root.child(5), &9i64);
    let view = rui_core::map_view::map(1i64, |_v: i64, cx: Context| cx, |_s: State<i64>, _cx: &Context| {
        EmptyView::new()
    });
    let mut first: Vec<ViewId> = Vec::new();
    ViewNode::<()>::gc(&view, &root, &mut cx, &mut first);
    let mut second: Vec<ViewId> = Vec::new();
    ViewNode::<()>::gc(&view, &root, &mut cx, &mut second);
    assert_eq!(second, vec![ViewId::root()]);
    cx.evict_absent_twice(&first, &second);
    assert_eq!(cx.get(&stale), None);
    assert_eq!(cx.get(&State::<i64>::new(&root)), Some(1));
}

#[test]
fn id_map_retains_live_entries() {
    let root = ViewId::root();
    let mut m: IdMap<String> = IdMap::new();
    m.insert(&root.child(0), "a".to_string());
    m.insert(&root.child(1), "b".to_string());
    m.insert(&root.child(2), "c".to_string());
    m.retain_live(&vec![root.child(2), root.child(0), root.child(9)]);
    assert_eq!(m.len(), 2);
    assert_eq!(m.get(&root.child(0)), Some(&"a".to_string()));
    assert_eq!(m.get(&root.child(1)), None);
    assert_eq!(m.get(&root.child(2)), Some(&"c".to_string()));
    assert!(rui_core::id_map::contains_id(&vec![root.child(1)], &root.child(1)));
    assert!(!rui_core::id_map::contains_id(&vec![root.child(1)], &root.child(2)));
}

#[test]
fn geometry_constructors() {
    let t = LocalToWorld::identity();
    assert_eq!((t.m11, t.m12, t.m21, t.m22, t.m31, t.m32), (1, 0, 0, 1, 0, 0));
    let r = LocalRect::new(LocalPoint { x: 2, y: 3 }, LocalSize { width: 4, height: 5 });
    assert_eq!(r.origin, LocalPoint { x: 2, y: 3 });
    assert_eq!(r.size, LocalSize { width: 4, height: 5 });
    assert_eq!(LocalPoint::zero(), LocalPoint { x: 0, y: 0 });
    assert_eq!(LocalOffset::zero(), LocalOffset { x: 0, y: 0 });
}

#[test]
fn wrappers_hand_the_backend_through_untouched() {
    let root = ViewId::root();
    let kv = KeyView::new(
        rui_core::map_view::map(4i64, |_v: i64, cx: Context| cx, |_s: State<i64>, _cx: &Context| {
            EmptyView::new()
        }),
        |cx: Context, _k: Key| cx,
    );
    let mut cx = Context::new();
    let mut canvas: Vec<String> = vec!["frame".to_string()];
    kv.draw(&root, &mut cx, &mut canvas);
    let sz = kv.layout(&root, LocalSize { width: 10, height: 10 }, &mut cx, &mut canvas);
    kv.process(&key_event(), &root, &mut cx, &mut canvas);
    assert_eq!(kv.hittest(&root, LocalPoint { x: 1, y: 1 }, &mut cx, &mut canvas), None);
    assert_eq!(sz, LocalSize { width: 0, height: 0 });
    assert_eq!(canvas, vec!["frame".to_string()]);
}
