use gc_arena::collect::{Collect, Static};
use gc_arena::collection::{RunUntil, Stop};
use gc_arena::context::Context;
use gc_arena::gc::{Gc, Unique};
use gc_arena::mutation::Mutation;
use gc_arena::types::{GcBox, GcColor};
use std::cell::Cell;
use std::rc::Rc;

struct DropWatcher(Rc<Cell<usize>>);

impl Drop for DropWatcher {
    fn drop(&mut self) {
        self.0.set(self.0.get() + 1);
    }
}

#[test]
fn unique_gc_drops() {
    let dropped = Rc::new(Cell::new(0));
    let mut mc = Context::new().mutation_context();
    Unique::new(&mut mc, Static(DropWatcher(dropped.clone())));
    let uninit = Unique::new_uninit(&mut mc);
    Unique::write(uninit, &mut mc, Static(DropWatcher(dropped.clone())));
    Unique::<Static<DropWatcher>>::new_uninit(&mut mc);
    mc.into_context().drop();

    assert_eq!(dropped.get(), 2);
}

#[test]
fn unique_gc_new() {
    let mut mc = Context::new().mutation_context();
    let mut gc = Unique::new(&mut mc, "hello".to_string());
    assert_eq!(*gc.deref(&mc), "hello");
    *gc.deref_mut(&mut mc) = "world".to_string();
    assert_eq!(*gc.deref(&mc), "world");

    let uninit = Unique::new_uninit(&mut mc);
    let mut uninit = Unique::write(uninit, &mut mc, "hello".to_string());
    assert_eq!(*uninit.deref(&mc), "hello");
    *uninit.deref_mut(&mut mc) = "world".to_string();
    assert_eq!(*uninit.deref(&mc), "world");

    assert_eq!(mc.header(gc.ptr).vtable(), mc.header(uninit.ptr).vtable());
}

#[test]
fn unique_gc_uninit() {
    let mut mc = Context::new().mutation_context();
    let gc = Unique::new_uninit(&mut mc);
    let gc1 = Unique::write(gc, &mut mc, 0i32);
    assert_eq!(*gc1.deref(&mc), 0);

    let gc2 = Unique::<i32>::new_zeroed(&mut mc).assume_init(&mut mc);
    assert_eq!(*gc1.deref(&mc), *gc2.deref(&mc));
}

#[test]
fn simple_allocation() {
    struct TestRoot {
        test: Unique<i32>,
    }

    let mut mc = Context::new().mutation_context();
    let root = TestRoot { test: Unique::new(&mut mc, 42) };

    assert_eq!(*(root.test.deref(&mc)), 42);
}

/// A counter, or the only pointer to another value.
type Counted = Result<Static<Rc<()>>, Unique<()>>;

#[test]
fn dyn_sized_allocation() {
    const SIZE: usize = 10;

    let counter = Rc::new(());

    let mut mc = Context::<Counted>::new().mutation_context();
    let array: [Counted; SIZE] = core::array::from_fn(|_| {
        Err(Unique::cast(Unique::new(&mut mc, Ok(Static(counter.clone())))))
    });
    let mut root = Gc::new_unsize(&mut mc, array);
    let mut cx = mc.into_context();

    cx.do_collection(&root, RunUntil::Stop, Stop::FinishCycle, &|_| true);

    // Check that no counter was dropped.
    assert_eq!(Rc::strong_count(&counter), SIZE + 1);

    // Drop all the counters.
    cx.root_barrier();
    let mut mc = cx.mutation_context();
    root = Gc::new_unsize(&mut mc, []);
    let mut cx = mc.into_context();
    cx.do_collection(&root, RunUntil::Stop, Stop::FinishCycle, &|_| true);

    // Check that all counters were dropped.
    assert_eq!(Rc::strong_count(&counter), 1);
}

#[test]
fn slice_is_initialized_place_by_place() {
    let mut mc = Context::new().mutation_context();
    let mut values = Unique::<i32, usize>::new_uninit_slice(&mut mc, 3);
    assert_eq!(values.len(&mc), 3);
    values.write_at(&mut mc, 0, 1);
    values.write_at(&mut mc, 1, 2);
    values.write_at(&mut mc, 2, 3);
    let values = values.assume_init(&mut mc);
    assert_eq!(values.as_slice(&mc), &[1, 2, 3][..]);
}

#[test]
fn zeroed_slice_is_zero() {
    let mut mc = Context::new().mutation_context();
    let values = Unique::<i32, usize>::new_zeroed_slice(&mut mc, 3).assume_init(&mut mc);
    assert_eq!(values.as_slice(&mc), &[0, 0, 0][..]);
}

#[test]
fn slice_is_cloned_copied_filled_and_computed() {
    let mut mc = Context::new().mutation_context();
    let src = [Rc::new(1), Rc::new(2), Rc::new(3), Rc::new(4)];
    let mut rcs = Context::new().mutation_context();
    let gc = Unique::<Rc<i32>, usize>::new_uninit_slice(&mut rcs, 2);
    let _gc = gc.write_clone_of_slice(&mut rcs, &src[1..3]);
    assert_eq!(
        [
            Rc::strong_count(&src[0]),
            Rc::strong_count(&src[1]),
            Rc::strong_count(&src[2]),
            Rc::strong_count(&src[3]),
        ],
        [1, 2, 2, 1]
    );

    let src = [1i64, 2, 3, 4];
    let gc = Unique::<i64, usize>::new_uninit_slice(&mut mc, 2);
    let gc = gc.write_copy_of_slice(&mut mc, &src[1..3]);
    assert_eq!(gc.as_slice(&mc), &[2, 3][..]);

    let gc = Unique::<i64, usize>::new_uninit_slice(&mut mc, 3);
    let gc = gc.write_filled(&mut mc, 42);
    assert_eq!(gc.as_slice(&mc), &[42, 42, 42][..]);

    let gc = Unique::<i64, usize>::new_uninit_slice(&mut mc, 3);
    let mut gc = gc.write_with(&mut mc, |i| 2 * i as i64);
    assert_eq!(gc.as_slice(&mc), &[0, 2, 4][..]);

    *gc.index_mut(&mut mc, 1) = 7;
    assert_eq!(gc.as_slice(&mc), &[0, 7, 4][..]);
}

#[test]
fn written_memory_is_not_dropped() {
    let dropped = Rc::new(Cell::new(0));
    let mut mc = Context::new().mutation_context();
    let mut uninit = Unique::<Static<DropWatcher>, usize>::new_uninit_slice(&mut mc, 2);
    uninit.write_at(&mut mc, 0, Static(DropWatcher(dropped.clone())));
    uninit.write_at(&mut mc, 0, Static(DropWatcher(dropped.clone())));
    mc.into_context().drop();
    assert_eq!(dropped.get(), 0);
}

/// A name that is dropped with its box, and strong pointers.
type Node = (Static<Rc<()>>, Vec<Gc<()>>);

/// A white box while the collector has marked everything.
fn fresh(mc: &mut Mutation<Node>, mark: &Rc<()>) -> Gc<()> {
    Gc::cast(Gc::new(mc, (Static(mark.clone()), Vec::new())))
}

/// Marks everything that the root leads to.
fn marked<R: Collect>(mc: Mutation<Node>, root: &R) -> Mutation<Node> {
    let mut cx = mc.into_context();
    cx.do_collection(root, RunUntil::Stop, Stop::FullyMarked, &|_| true);
    assert!(!cx.gray_remaining());
    cx.mutation_context()
}

/// Whether a box that was marked and then written to keeps what it was given.
fn keeps<R: Collect>(mc: Mutation<Node>, root: &R, b: GcBox, mark: &Rc<()>) -> bool {
    assert_eq!(mc.header(b).color(), GcColor::Gray);
    let mut cx = mc.into_context();
    cx.do_collection(root, RunUntil::Stop, Stop::FinishCycle, &|_| true);
    Rc::strong_count(mark) == 2
}

#[test]
fn what_is_written_through_a_traced_unique_pointer_stays() {
    let plain = Rc::new(());
    let mark = Rc::new(());
    let mut mc = Context::new().mutation_context();
    let mut root = Unique::new(&mut mc, (Static(plain.clone()), Vec::new()));
    let mut mc = marked(mc, &root);
    let child = fresh(&mut mc, &mark);
    root.deref_mut(&mut mc).1.push(child);
    assert!(keeps(mc, &root, root.ptr, &mark));

    let mark = Rc::new(());
    let mut mc = Context::new().mutation_context();
    let mut root = Unique::new_unsize(&mut mc, [(Static(plain.clone()), Vec::new())]);
    let mut mc = marked(mc, &root);
    let child = fresh(&mut mc, &mark);
    root.index_mut(&mut mc, 0).1.push(child);
    assert!(keeps(mc, &root, root.ptr, &mark));
}

#[test]
fn what_initializes_memory_that_was_passed_over_stays() {
    let plain = Rc::new(());
    let mark = Rc::new(());
    let mut mc = Context::new().mutation_context();
    let root = Unique::<Node>::new_uninit(&mut mc);
    let mut mc = marked(mc, &root);
    assert_eq!(mc.header(root.ptr).color(), GcColor::Black);
    let child = fresh(&mut mc, &mark);
    let root = Unique::write(root, &mut mc, (Static(plain.clone()), vec![child]));
    assert!(keeps(mc, &root, root.ptr, &mark));

    let mark = Rc::new(());
    let mut mc = Context::new().mutation_context();
    let root = Unique::<Node, usize>::new_uninit_slice(&mut mc, 2);
    let mut mc = marked(mc, &root);
    let child = fresh(&mut mc, &mark);
    let root = root.write_with(&mut mc, |_| (Static(plain.clone()), vec![child]));
    assert!(keeps(mc, &root, root.ptr, &mark));

    let mark = Rc::new(());
    let mut mc = Context::new().mutation_context();
    let mut root = Unique::<Node, usize>::new_uninit_slice(&mut mc, 1);
    let mut mc = marked(mc, &root);
    let child = fresh(&mut mc, &mark);
    root.write_at(&mut mc, 0, (Static(plain.clone()), vec![child]));
    let root = root.assume_init(&mut mc);
    assert!(keeps(mc, &root, root.ptr, &mark));
}

#[test]
fn elements_of_a_traced_vector_stay_in_its_row() {
    let mark = Rc::new(());
    let mut mc = Context::new().mutation_context();
    let vec = gc_arena::vec::Vec::from_array(&mut mc, [(Static(Rc::new(())), Vec::new())]);
    let mut mc = marked(mc, &vec);
    let mut vec = vec;
    assert_eq!(mc.header(vec.buf.ptr).color(), GcColor::Black);
    let child = fresh(&mut mc, &mark);
    vec.index_mut(0).1.push(child);
    let root = vec.into_unique_slice(&mut mc);
    assert!(keeps(mc, &root, root.ptr, &mark));
}

#[test]
fn raw_addresses_lead_back() {
    let mut mc = Context::new().mutation_context();
    let mut unique = Unique::new(&mut mc, 5u32);
    let addr = Unique::addr(&unique);
    assert_eq!(Unique::addr_mut(&mut unique), addr);
    assert_eq!(Unique::as_ptr(&unique, &mc).addr, addr);
    assert_eq!(Unique::as_mut_ptr(&mut unique, &mc).addr, addr);
    let raw = Unique::into_ptr(unique, &mc);
    let unique: Unique<u32> = Unique::from_ptr(raw);
    assert_eq!(*unique.deref(&mc), 5);
    let (raw, ()) = Unique::into_raw_parts(unique, &mc);
    let unique: Unique<u32> = Unique::from_raw(raw);
    let gc = unique.into_gc();
    assert_eq!(*Gc::<u32>::get_ref(gc, &mc), 5);
}

#[test]
fn row_becomes_vector_and_row_again() {
    let mut mc = Context::new().mutation_context();
    let row = Unique::new_unsize(&mut mc, [1u16, 2, 3]);
    let addr = Unique::addr(&row);
    let mut vec = row.into_vec(&mut mc);
    assert_eq!(vec.as_slice(), &[1, 2, 3][..]);
    assert_eq!(vec.capacity(), 3);
    assert_eq!(vec.as_ptr(), addr);
    *vec.index_mut(0) = 9;
    let row = vec.into_unique_slice(&mut mc);
    assert_eq!(Unique::addr(&row), addr);
    assert_eq!(Unique::metadata(&row, &mc), 3);
    assert_eq!(row.as_slice(&mc), &[9, 2, 3][..]);
    let mut iter = row.into_iter(&mut mc);
    assert_eq!(iter.next(), Some(9));
}
