use gc_arena::collection::{RunUntil, Stop};
use gc_arena::context::Context;
use gc_arena::gc::Gc;
use gc_arena::metrics::Metrics;
use gc_arena::root::{RootSet, RootedSet};
use gc_arena::types::GcColor;
use std::rc::Rc;

fn always(_: &Metrics) -> bool {
    true
}

#[test]
fn stashed_roots_are_fetched() {
    let mut set = RootSet::new();
    let mut mc = Context::<u32>::new().mutation_context();
    let rooted = RootedSet::new(&mut set, &mut mc);
    assert!(set.inner.is_some());
    let a = Gc::new(&mut mc, 1);
    let b = Gc::new(&mut mc, 2);
    let ha = rooted.stash(&mut mc, a);
    let hb = rooted.stash(&mut mc, b);
    assert_ne!(ha.index, hb.index);
    assert!(Gc::ptr_eq(rooted.fetch(&mc, &ha), a));
    assert!(Gc::ptr_eq(rooted.fetch(&mc, &hb), b));
    assert_eq!(*Gc::<u32>::get_ref(rooted.fetch(&mc, &hb), &mc), 2);
    rooted.drop(&mut set);
    assert!(set.inner.is_none());
}

#[test]
fn handles_of_another_set_are_told_apart() {
    let mut set = RootSet::default();
    let mut other = RootSet::default();
    let mut mc = Context::<u32>::new().mutation_context();
    let rooted = RootedSet::new(&mut set, &mut mc);
    let elsewhere = RootedSet::new(&mut other, &mut mc);
    let a = Gc::new(&mut mc, 1);
    let ha = rooted.stash(&mut mc, a);
    assert!(rooted.try_fetch(&mc, &ha).is_some());
    assert!(elsewhere.try_fetch(&mc, &ha).is_none());
}

#[test]
fn roots_live_as_long_as_their_handles() {
    let mark = Rc::new(());
    let mut set = RootSet::new();
    let mut mc = Context::<Rc<()>>::new().mutation_context();
    let rooted = RootedSet::new(&mut set, &mut mc);
    let a = Gc::new(&mut mc, mark.clone());
    let ha = rooted.stash(&mut mc, a);
    let hb = ha.clone(&mut mc);
    let mut cx = mc.into_context();
    cx.do_collection(&rooted, RunUntil::Stop, Stop::Full, &always);
    assert_eq!(Rc::strong_count(&mark), 2);
    let mut mc = cx.mutation_context();
    ha.drop(&mut mc);
    assert!(Gc::ptr_eq(rooted.fetch(&mc, &hb), a));
    let mut cx = mc.into_context();
    cx.do_collection(&rooted, RunUntil::Stop, Stop::Full, &always);
    assert_eq!(Rc::strong_count(&mark), 2);
    let mut mc = cx.mutation_context();
    hb.drop(&mut mc);
    let mut cx = mc.into_context();
    cx.do_collection(&rooted, RunUntil::Stop, Stop::Full, &always);
    assert_eq!(Rc::strong_count(&mark), 1);
}

#[test]
fn vacated_places_are_used_again_last_first() {
    let mut set = RootSet::new();
    let mut mc = Context::<u32>::new().mutation_context();
    let rooted = RootedSet::new(&mut set, &mut mc);
    let a = Gc::new(&mut mc, 1);
    let h0 = rooted.stash(&mut mc, a);
    let h1 = rooted.stash(&mut mc, a);
    let h2 = rooted.stash(&mut mc, a);
    assert_eq!((h0.index, h1.index, h2.index), (0, 1, 2));
    h0.drop(&mut mc);
    h2.drop(&mut mc);
    assert_eq!(rooted.stash(&mut mc, a).index, 2);
    assert_eq!(rooted.stash(&mut mc, a).index, 0);
    assert_eq!(rooted.stash(&mut mc, a).index, 3);
    assert!(Gc::ptr_eq(rooted.fetch(&mc, &h1), a));
}

#[test]
fn the_table_grows() {
    let mut set = RootSet::new();
    let mut mc = Context::<u32>::new().mutation_context();
    let rooted = RootedSet::new(&mut set, &mut mc);
    let mut handles = Vec::new();
    for i in 0..20 {
        let gc = Gc::new(&mut mc, i);
        handles.push(rooted.stash(&mut mc, gc));
    }
    let mut cx = mc.into_context();
    cx.do_collection(&rooted, RunUntil::Stop, Stop::Full, &always);
    let mc = cx.mutation_context();
    for (i, handle) in handles.iter().enumerate() {
        assert_eq!(handle.index, i);
        assert_eq!(*Gc::<u32>::get_ref(rooted.fetch(&mc, handle), &mc), i as u32);
    }
}

#[test]
fn the_table_grows_while_the_collector_marks() {
    let mut set = RootSet::new();
    let mut mc = Context::<u32>::new().mutation_context();
    assert!(RootedSet::has_room(&mc));
    let rooted = RootedSet::new(&mut set, &mut mc);
    let mut handles = Vec::new();
    for i in 0..4 {
        let gc = Gc::new(&mut mc, i);
        handles.push(rooted.stash(&mut mc, gc));
    }
    let gc = rooted.fetch(&mc, &handles[0]);
    let mut cx = mc.into_context();
    cx.do_collection(&rooted, RunUntil::Stop, Stop::FullyMarked, &always);
    assert!(!cx.gray_remaining());
    let mut mc = cx.mutation_context();
    assert_eq!(mc.header(rooted.inner.ptr).color(), GcColor::Black);
    assert_eq!(mc.header(gc.ptr).color(), GcColor::Black);
    assert!(rooted.can_stash(&mc));
    handles.push(rooted.stash(&mut mc, gc));
    assert_eq!(mc.header(rooted.inner.ptr).color(), GcColor::Gray);
    let mut cx = mc.into_context();
    assert!(cx.gray_remaining());
    cx.do_collection(&rooted, RunUntil::Stop, Stop::FinishCycle, &always);
    cx.do_collection(&rooted, RunUntil::Stop, Stop::Full, &always);
    // The set, its buffer and the four values.
    assert_eq!(cx.metrics().total_gcs, 6);
    let mc = cx.mutation_context();
    for (i, handle) in handles.iter().enumerate() {
        assert_eq!(*Gc::<u32>::get_ref(rooted.fetch(&mc, handle), &mc), i as u32 % 4);
    }
}

#[test]
fn a_root_that_fits_disturbs_no_marked_set() {
    let mut set = RootSet::new();
    let mut mc = Context::<u32>::new().mutation_context();
    let rooted = RootedSet::new(&mut set, &mut mc);
    let gc = Gc::new(&mut mc, 1);
    let first = rooted.stash(&mut mc, gc);
    let mut cx = mc.into_context();
    cx.do_collection(&rooted, RunUntil::Stop, Stop::FullyMarked, &always);
    let mut mc = cx.mutation_context();
    let second = rooted.stash(&mut mc, gc);
    assert_eq!(mc.header(rooted.inner.ptr).color(), GcColor::Black);
    assert_ne!(first.index, second.index);
    let fresh = Gc::new(&mut mc, 2);
    rooted.stash(&mut mc, fresh);
    assert_eq!(mc.header(rooted.inner.ptr).color(), GcColor::Gray);
}
