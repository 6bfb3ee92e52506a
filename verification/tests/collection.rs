use gc_arena::collect::{Collect, Edge, Static, Trace};
use gc_arena::collection::{RunUntil, Stop};
use gc_arena::context::Context;
use gc_arena::gc::{Gc, Unique, Weak};
use gc_arena::heap_view::Phase;
use gc_arena::metrics::Metrics;
use gc_arena::mutation::Mutation;
use gc_arena::types::GcColor;
use std::cell::Cell;
use std::collections::{BTreeMap, BTreeSet};
use std::rc::Rc;

/// A name that is dropped with its box, strong pointers and weak pointers.
type Node = (Static<Rc<()>>, Vec<Gc<()>>, Vec<Weak<()>>);

fn node(mc: &mut Mutation<Node>, mark: &Rc<()>, strong: Vec<Gc<()>>) -> Gc<()> {
    Gc::cast(Gc::new(mc, (Static(mark.clone()), strong, Vec::new())))
}

fn typed(gc: Gc<()>) -> Gc<Node> {
    Gc::cast(gc)
}

fn always(_: &Metrics) -> bool {
    true
}

/// A visitor that notes the pointers it is shown.
struct Noted {
    edges: Vec<Edge>,
}

impl Trace for Noted {
    type State = ();

    fn state(&self) {}

    fn wf(&self) -> bool {
        true
    }

    fn ready(_: (), _: Edge) -> bool {
        true
    }

    fn step(_: (), _: Edge) {}

    fn step_keeps_ready(_: (), _: Edge, _: Edge) {}

    fn trace_gc<T, M>(&mut self, gc: Gc<T, M>) {
        self.edges.push(Edge::Strong(gc.ptr));
    }

    fn trace_weak<T, M>(&mut self, gc: Weak<T, M>) {
        self.edges.push(Edge::Weak(gc.inner.ptr));
    }

    fn trace_unique<T, M>(&mut self, gc: &Unique<T, M>) {
        self.edges.push(Edge::Strong(gc.ptr));
    }
}

fn noted<V: Collect>(value: &V) -> Vec<Edge> {
    let mut found = Noted { edges: Vec::new() };
    value.trace(&mut found);
    found.edges
}

#[test]
fn a_cycle_finished_from_sleep_is_exact() {
    let kept = Rc::new(());
    let lost = Rc::new(());
    let mut mc = Context::new().mutation_context();
    let a = node(&mut mc, &kept, vec![]);
    let root = node(&mut mc, &kept, vec![a]);
    let c = node(&mut mc, &lost, vec![a]);
    Gc::write(&mut mc, typed(c)).1.push(c);
    let mut cx = mc.into_context();
    assert_eq!(cx.phase(), Phase::Sleep);
    cx.do_collection(&root, RunUntil::Stop, Stop::FinishCycle, &always);
    assert_eq!(cx.phase(), Phase::Sleep);
    assert_eq!(Rc::strong_count(&kept), 3);
    assert_eq!(Rc::strong_count(&lost), 1);
    assert_eq!(cx.metrics().total_gcs, 2);
}

#[test]
fn full_collection_keeps_exactly_what_is_reachable() {
    let kept = Rc::new(());
    let lost = Rc::new(());
    let mut mc = Context::new().mutation_context();
    let a = node(&mut mc, &kept, vec![]);
    let b = node(&mut mc, &kept, vec![a]);
    let root = node(&mut mc, &kept, vec![b]);
    // A cycle that the root does not lead to.
    let c = node(&mut mc, &lost, vec![a]);
    let d = node(&mut mc, &lost, vec![c]);
    Gc::write(&mut mc, typed(c)).1.push(d);
    // A cycle that it does lead to.
    Gc::write(&mut mc, typed(a)).1.push(root);
    assert_eq!(Rc::strong_count(&kept), 4);
    assert_eq!(Rc::strong_count(&lost), 3);

    let mut cx = mc.into_context();
    cx.do_collection(&root, RunUntil::Stop, Stop::Full, &always);
    assert_eq!(cx.phase(), Phase::Sleep);
    assert_eq!(Rc::strong_count(&kept), 4);
    assert_eq!(Rc::strong_count(&lost), 1);
    let mc = cx.mutation_context();
    let b_again = Gc::<Node>::get_ref(typed(root), &mc).1[0];
    assert!(Gc::ptr_eq(b_again, b));
    let a_again = Gc::<Node>::get_ref(typed(b_again), &mc).1[0];
    assert!(Gc::ptr_eq(a_again, a));
}

#[test]
fn collection_stops_where_it_is_told_to() {
    let lost = Rc::new(());
    let mut mc = Context::new().mutation_context();
    let root = node(&mut mc, &Rc::new(()), vec![]);
    node(&mut mc, &lost, vec![]);
    let mut cx = mc.into_context();
    assert_eq!(cx.phase(), Phase::Sleep);
    assert!(cx.gray_remaining());

    cx.do_collection(&root, RunUntil::Stop, Stop::FullyMarked, &always);
    assert_eq!(cx.phase(), Phase::Mark);
    assert!(!cx.gray_remaining());
    assert_eq!(Rc::strong_count(&lost), 2);

    cx.do_collection(&root, RunUntil::Stop, Stop::AtSweep, &always);
    assert_eq!(cx.phase(), Phase::Sweep);
    assert_eq!(Rc::strong_count(&lost), 2);
    cx.do_collection(&root, RunUntil::Stop, Stop::FullyMarked, &always);
    assert_eq!(cx.phase(), Phase::Sweep);

    cx.do_collection(&root, RunUntil::Stop, Stop::FinishCycle, &always);
    assert_eq!(cx.phase(), Phase::Sleep);
    assert_eq!(Rc::strong_count(&lost), 1);
    assert_eq!(cx.metrics().cycles, 1);
    assert!(!cx.metrics().debt_reset);

    cx.do_collection(&root, RunUntil::Stop, Stop::FinishCycle, &always);
    assert_eq!(cx.metrics().cycles, 2);
    assert!(cx.metrics().debt_reset);
}

#[test]
fn full_collection_from_the_middle_does_another_cycle() {
    let lost = Rc::new(());
    let mut mc = Context::new().mutation_context();
    let root = node(&mut mc, &Rc::new(()), vec![]);
    let mut cx = mc.into_context();
    cx.do_collection(&root, RunUntil::Stop, Stop::AtSweep, &always);
    let mut mc = cx.mutation_context();
    // Boxes made during the sweep outlive it.
    node(&mut mc, &lost, vec![]);
    let mut cx = mc.into_context();
    cx.do_collection(&root, RunUntil::Stop, Stop::FinishCycle, &always);
    assert_eq!(Rc::strong_count(&lost), 2);
    cx.do_collection(&root, RunUntil::Stop, Stop::AtSweep, &always);
    cx.do_collection(&root, RunUntil::Stop, Stop::Full, &always);
    assert_eq!(cx.metrics().cycles, 3);
    assert_eq!(Rc::strong_count(&lost), 1);
}

#[test]
fn paying_debt_goes_step_by_step() {
    let mut mc = Context::new().mutation_context();
    let a = node(&mut mc, &Rc::new(()), vec![]);
    let root = node(&mut mc, &Rc::new(()), vec![a]);
    let mut cx = mc.into_context();

    cx.do_collection(&root, RunUntil::PayDebt, Stop::Full, &|_: &Metrics| false);
    assert_eq!(cx.phase(), Phase::Sleep);
    assert_eq!(cx.metrics().marked, 0);

    // Wake up, trace the root, trace its target, trace what that points to.
    let left = Cell::new(4);
    let owes = |_: &Metrics| {
        left.set(left.get() - 1);
        left.get() >= 0
    };
    cx.do_collection(&root, RunUntil::PayDebt, Stop::Full, &owes);
    assert_eq!(cx.phase(), Phase::Mark);
    assert!(!cx.gray_remaining());

    cx.do_collection(&root, RunUntil::PayDebt, Stop::Full, &always);
    assert_eq!(cx.phase(), Phase::Sleep);
}

#[test]
fn barriers_keep_what_is_stored_behind_the_collector() {
    let kept = Rc::new(());
    for which in 0..4 {
        let mut mc = Context::new().mutation_context();
        let a = node(&mut mc, &kept, vec![]);
        let root = node(&mut mc, &kept, vec![a]);
        let mut cx = mc.into_context();
        cx.do_collection(&root, RunUntil::Stop, Stop::FullyMarked, &always);
        let mut mc = cx.mutation_context();
        assert_eq!(mc.header(root.ptr).color(), GcColor::Black);
        let b = node(&mut mc, &kept, vec![]);
        assert_eq!(mc.header(b.ptr).color(), GcColor::White);
        match which {
            0 => mc.backward_barrier(root, Some(b)),
            1 => mc.backward_barrier::<(), (), (), ()>(root, None),
            2 => mc.forward_barrier(Some(root), b),
            _ => mc.forward_barrier::<(), (), (), ()>(None, b),
        }
        if which < 2 {
            assert_eq!(mc.header(root.ptr).color(), GcColor::Gray);
        } else {
            assert_eq!(mc.header(b.ptr).color(), GcColor::Gray);
        }
        Gc::unlock(typed(root), &mut mc).1.push(b);
        let mut cx = mc.into_context();
        cx.do_collection(&root, RunUntil::Stop, Stop::FinishCycle, &always);
        assert_eq!(Rc::strong_count(&kept), 4);
        cx.drop();
        assert_eq!(cx.phase(), Phase::Drop);
        assert_eq!(Rc::strong_count(&kept), 1);
    }
}

#[test]
fn barriers_do_nothing_outside_marking() {
    let mut mc = Context::new().mutation_context();
    let a = node(&mut mc, &Rc::new(()), vec![]);
    let b = node(&mut mc, &Rc::new(()), vec![]);
    mc.backward_barrier(a, Some(b));
    mc.forward_barrier(Some(a), b);
    mc.backward_barrier_weak(a, Gc::downgrade(b));
    mc.forward_barrier_weak(Some(a), Gc::downgrade(b));
    assert_eq!(mc.header(a.ptr).color(), GcColor::White);
    assert_eq!(mc.header(b.ptr).color(), GcColor::White);
}

#[test]
fn weak_barriers_mark_weakly() {
    let mut mc = Context::new().mutation_context();
    let root = node(&mut mc, &Rc::new(()), vec![]);
    let mut cx = mc.into_context();
    cx.do_collection(&root, RunUntil::Stop, Stop::FullyMarked, &always);
    let mut mc = cx.mutation_context();
    let b = node(&mut mc, &Rc::new(()), vec![]);
    let c = node(&mut mc, &Rc::new(()), vec![]);
    mc.forward_barrier_weak(Some(root), Gc::downgrade(b));
    assert_eq!(mc.header(b.ptr).color(), GcColor::WhiteWeak);
    mc.backward_barrier_weak(root, Gc::downgrade(b));
    assert_eq!(mc.header(root.ptr).color(), GcColor::Black);
    mc.backward_barrier_weak(root, Gc::downgrade(c));
    assert_eq!(mc.header(root.ptr).color(), GcColor::Gray);
}

#[test]
fn changed_root_is_traced_again() {
    let kept = Rc::new(());
    let mut mc = Context::new().mutation_context();
    let a = node(&mut mc, &Rc::new(()), vec![]);
    let mut cx = mc.into_context();
    cx.do_collection(&a, RunUntil::Stop, Stop::FullyMarked, &always);
    cx.root_barrier();
    assert!(cx.gray_remaining());
    let mut mc = cx.mutation_context();
    let b = node(&mut mc, &kept, vec![]);
    let mut cx = mc.into_context();
    cx.do_collection(&b, RunUntil::Stop, Stop::FinishCycle, &always);
    assert_eq!(Rc::strong_count(&kept), 2);
}

#[test]
fn weak_pointers_tell_what_became_of_their_target() {
    let mark = Rc::new(());
    let mut mc = Context::new().mutation_context();
    let target = node(&mut mc, &mark, vec![]);
    let weak = Gc::downgrade(target);
    let root = Gc::cast::<(), ()>(Gc::new(
        &mut mc,
        (Static(Rc::new(())), Vec::new(), vec![weak]),
    ));
    assert!(weak.upgrade(&mc).is_some());
    assert!(Weak::ptr_eq(weak, Gc::downgrade(target)));

    // Found weakly, and about to be dropped: no upgrade, though it is not dropped yet.
    let mut cx = mc.into_context();
    cx.do_collection(&root, RunUntil::Stop, Stop::AtSweep, &always);
    let mc = cx.mutation_context();
    assert!(weak.upgrade(&mc).is_none());
    assert!(!weak.is_dropped(&mc));
    assert_eq!(Rc::strong_count(&mark), 2);

    // Dropped: the box is still there to be asked.
    let mut cx = mc.into_context();
    cx.do_collection(&root, RunUntil::Stop, Stop::FinishCycle, &always);
    assert_eq!(Rc::strong_count(&mark), 1);
    let mc = cx.mutation_context();
    assert!(weak.is_dropped(&mc));
    assert!(weak.upgrade(&mc).is_none());
    let mut cx = mc.into_context();
    let before = cx.metrics().total_gcs;
    cx.do_collection(&root, RunUntil::Stop, Stop::Full, &always);
    assert_eq!(cx.metrics().total_gcs, before);

    // Nothing asks any more: the box goes.
    let mut mc = cx.mutation_context();
    Gc::write(&mut mc, typed(root)).2.clear();
    let mut cx = mc.into_context();
    cx.do_collection(&root, RunUntil::Stop, Stop::Full, &always);
    assert_eq!(cx.metrics().total_gcs, before - 1);
}

#[test]
fn resurrected_boxes_outlive_the_cycle() {
    let mark = Rc::new(());
    let mut mc = Context::new().mutation_context();
    let inner = node(&mut mc, &mark, vec![]);
    let target = node(&mut mc, &mark, vec![inner]);
    let weak = Gc::downgrade(target);
    let root = Gc::cast::<(), ()>(Gc::new(
        &mut mc,
        (Static(Rc::new(())), Vec::new(), vec![weak]),
    ));
    let mut cx = mc.into_context();
    cx.do_collection(&root, RunUntil::Stop, Stop::FullyMarked, &always);
    let mut fc = cx.finalization_context();
    assert!(weak.is_dead(&fc));
    assert!(Gc::is_dead(&fc, inner));
    assert!(!Gc::is_dead(&fc, root));
    assert!(weak.resurrect(&mut fc).is_some());
    assert!(!weak.is_dead(&fc));
    assert_eq!(fc.deref().metrics().total_gcs, 3);
    let mut cx = fc.into_context();
    assert!(cx.gray_remaining());
    cx.do_collection(&root, RunUntil::Stop, Stop::FinishCycle, &always);
    assert_eq!(Rc::strong_count(&mark), 3);

    // Without help they go in the next cycle, and cannot be kept any more.
    cx.do_collection(&root, RunUntil::Stop, Stop::FinishCycle, &always);
    assert_eq!(Rc::strong_count(&mark), 1);
    cx.do_collection(&root, RunUntil::Stop, Stop::FullyMarked, &always);
    let mut fc = cx.finalization_context();
    assert!(weak.resurrect(&mut fc).is_none());
}

#[test]
fn metrics_follow_the_boxes() {
    let mut mc = Context::<u64>::new().mutation_context();
    assert!(mc.room_for_value());
    let a = Gc::new(&mut mc, 1);
    Gc::new(&mut mc, 2);
    let size = mc.metrics().total_gc_bytes / 2;
    assert_eq!(mc.metrics().total_gcs, 2);
    assert!(size >= core::mem::size_of::<u64>() + 3 * core::mem::size_of::<usize>());
    let mut cx = mc.into_context();
    cx.do_collection(&a, RunUntil::Stop, Stop::Full, &always);
    assert_eq!(cx.metrics().total_gcs, 1);
    assert_eq!(cx.metrics().total_gc_bytes, size);
    assert_eq!(cx.metrics().total_allocation(), size);
}

#[test]
fn boxes_that_need_no_tracing_turn_black_at_once() {
    let mut mc = Context::<u64>::new().mutation_context();
    let a = Gc::new(&mut mc, 1);
    let mut cx = mc.into_context();
    cx.do_collection(&a, RunUntil::Stop, Stop::FullyMarked, &always);
    let mc = cx.mutation_context();
    assert_eq!(mc.header(a.ptr).color(), GcColor::Black);
    assert!(!mc.header(a.ptr).needs_trace());
}

#[test]
fn text_is_checked() {
    let mut mc = Context::<u8>::new().mutation_context();
    let bytes = Gc::new_unsize(&mut mc, [b'h', b'i', 0xc3, 0xa9]);
    let text = Gc::from_utf8(bytes, &mc).unwrap();
    assert_eq!(Gc::addr(text), Gc::addr(bytes));
    let bytes = Gc::new_unsize(&mut mc, [b'h', b'i', 0xff]);
    match Gc::from_utf8(bytes, &mc) {
        Ok(_) => panic!("not text"),
        Err(e) => assert_eq!((e.valid_up_to, e.error_len), (2, Some(1))),
    }
    let bytes = Gc::new_unsize(&mut mc, [b'h', b'i', 0xe2, 0x82]);
    match Gc::from_utf8(bytes, &mc) {
        Ok(_) => panic!("not text"),
        Err(e) => assert_eq!((e.valid_up_to, e.error_len), (2, None)),
    }
}

#[test]
fn ordered_collections_lead_to_what_they_hold() {
    type Entry = (Static<Rc<()>>, BTreeMap<u64, Gc<()>>);
    let kept = Rc::new(());
    let mut mc = Context::<Entry>::new().mutation_context();
    let a = Gc::new(&mut mc, (Static(kept.clone()), BTreeMap::new()));
    let b = Gc::new(&mut mc, (Static(kept.clone()), BTreeMap::new()));
    let root: BTreeMap<u64, Gc<()>> = [(7, Gc::cast(a)), (3, Gc::cast(b))].into_iter().collect();
    let mut cx = mc.into_context();
    cx.do_collection(&root, RunUntil::Stop, Stop::Full, &always);
    assert_eq!(Rc::strong_count(&kept), 3);
    assert_eq!(noted(&root), vec![Edge::Strong(b.ptr), Edge::Strong(a.ptr)]);
    assert_eq!(noted(&&root).len(), 2);
    assert!(<BTreeMap<u64, Gc<()>> as Collect>::needs_trace());
    assert!(!<BTreeSet<u8> as Collect>::needs_trace());
    assert!(noted(&BTreeSet::from([1u8, 2])).is_empty());
    cx.root_barrier();
    cx.do_collection(&(), RunUntil::Stop, Stop::Full, &always);
    assert_eq!(Rc::strong_count(&kept), 1);
}

#[test]
fn raw_gc_pointers_lead_back() {
    let mut mc = Context::<u8>::new().mutation_context();
    let row = Gc::new_unsize(&mut mc, [1u8, 2, 3]);
    let raw = Gc::as_ptr(row, &mc);
    assert_eq!((raw.addr, raw.meta), (Gc::addr(row), 3));
    let again: Gc<u8, usize> = Gc::from_ptr(raw);
    assert!(Gc::ptr_eq(row, again));
    assert_eq!(Gc::to_raw_parts(row, &mc), (Gc::addr(row), 3));
    let weak = Gc::downgrade(row);
    assert_eq!(weak.addr(), Gc::addr(row));
    assert_eq!(weak.metadata(&mc), 3);
    assert_eq!(weak.to_raw_parts(&mc), (Gc::addr(row), 3));
    let weak: Weak<u8, usize> = Weak::from_raw(weak.addr());
    let weak: Weak<u8, usize> = Weak::from_ptr(weak.as_ptr(&mc));
    let weak: Weak<u8, usize> = Weak::cast(weak);
    assert!(Gc::ptr_eq(weak.upgrade(&mc).unwrap(), row));
    assert_eq!(Gc::as_unique_unchecked(row).as_slice(&mc), &[1, 2, 3][..]);
}

#[test]
fn static_values_need_no_collect() {
    struct Plain(u8);
    let mut mc = Context::new().mutation_context();
    let gc = Gc::new_static(&mut mc, Plain(7));
    assert_eq!(Gc::<Static<Plain>>::get_ref(gc, &mc).0 .0, 7);
}
