use gc_arena::context::Context;
use gc_arena::gc::{Gc, Unique};
use gc_arena::mutation::Mutation;
use gc_arena::vec::{ConvertVec, Vec};
use std::rc::Rc;

fn arena<T: gc_arena::collect::Collect>() -> Mutation<T> {
    Context::new().mutation_context()
}

#[test]
fn macros() {
    let mut mc = arena::<String>();
    let mut vec = Vec::new(&mut mc);
    vec.push(&mut mc, 1);
    vec.push(&mut mc, 2);
    assert_eq!(vec.as_slice(), &[1, 2][..]);

    let hello = Gc::new(&mut mc, "Hello".to_string());
    let v2 = Vec::from_elem(&mut mc, hello, 1024);
    assert_eq!(v2.len(), 1024);
    assert_eq!(*Gc::<String>::get_ref(*v2.index(50), &mc), "Hello");

    let v3 = Vec::from_array(&mut mc, [3, 4, 5, 6, 7]);
    assert_eq!(v3.as_slice(), &[3, 4, 5, 6, 7][..]);

    let v4 = Vec::from_elem(&mut mc, (), 100);
    assert_eq!(v4.capacity(), usize::MAX);
}

#[test]
fn least_capacities() {
    assert_eq!(gc_arena::vec::min_non_zero_cap(0), 4);
    assert_eq!(gc_arena::vec::min_non_zero_cap(1), 8);
    assert_eq!(gc_arena::vec::min_non_zero_cap(2), 4);
    assert_eq!(gc_arena::vec::min_non_zero_cap(1024), 4);
    assert_eq!(gc_arena::vec::min_non_zero_cap(1025), 1);
    let mut mc = arena::<u8>();
    assert_eq!(Vec::<u8>::new(&mut mc).capacity(), 8);
    assert_eq!(Vec::<u64>::new(&mut mc).capacity(), 4);
    assert_eq!(Vec::<[u8; 2000]>::new(&mut mc).capacity(), 1);
}

#[test]
fn push_grows_when_full() {
    let mut mc = arena::<u8>();
    let mut vec = Vec::with_capacity(&mut mc, 10);
    assert_eq!(vec.len(), 0);
    assert!(vec.is_empty());
    assert_eq!(vec.capacity(), 10);
    let addr = vec.as_ptr();
    for i in 0..10 {
        vec.push(&mut mc, i);
    }
    assert_eq!(vec.len(), 10);
    assert_eq!(vec.capacity(), 10);
    assert_eq!(vec.as_mut_ptr(), addr);
    vec.push(&mut mc, 11);
    assert_eq!(vec.len(), 11);
    assert_eq!(vec.capacity(), 20);
    assert_ne!(vec.as_ptr(), addr);
    assert_eq!(vec.pop(), Some(11));
    assert_eq!(vec.as_slice(), &[0, 1, 2, 3, 4, 5, 6, 7, 8, 9][..]);
}

#[test]
fn reserving_and_shrinking() {
    let mut mc = arena::<u8>();
    let mut vec: Vec<u32> = Vec::with_capacity(&mut mc, 0);
    assert!(vec.has_room_for(&mc, 3));
    assert!(!vec.has_room_for(&mc, usize::MAX));
    vec.reserve(&mut mc, 1);
    assert_eq!(vec.capacity(), 4);
    vec.reserve(&mut mc, 4);
    assert_eq!(vec.capacity(), 4);
    vec.reserve(&mut mc, 5);
    assert_eq!(vec.capacity(), 8);
    vec.reserve_exact(&mut mc, 9);
    assert_eq!(vec.capacity(), 9);
    vec.push(&mut mc, 1);
    vec.shrink_to(&mut mc, 5);
    assert_eq!(vec.capacity(), 5);
    vec.shrink_to(&mut mc, 7);
    assert_eq!(vec.capacity(), 5);
    vec.shrink_to_fit(&mut mc);
    assert_eq!(vec.capacity(), 1);
    assert_eq!(vec.as_slice(), &[1][..]);
}

#[test]
fn inserting_and_removing() {
    let mut mc = arena::<u8>();
    let mut vec = Vec::from_array(&mut mc, ['a', 'b', 'c', 'd']);
    vec.insert(&mut mc, 1, 'x');
    assert_eq!(vec.as_slice(), &['a', 'x', 'b', 'c', 'd'][..]);
    assert_eq!(vec.capacity(), 8);
    assert_eq!(vec.remove(1), 'x');
    assert_eq!(vec.swap_remove(0), 'a');
    assert_eq!(vec.as_slice(), &['d', 'b', 'c'][..]);
    vec.truncate(5);
    assert_eq!(vec.len(), 3);
    vec.truncate(2);
    assert_eq!(vec.as_slice(), &['d', 'b'][..]);
    vec.set_len(1);
    assert_eq!(vec.as_slice(), &['d'][..]);
    vec.clear();
    assert_eq!(vec.pop(), None);
    assert_eq!(vec.capacity(), 8);
}

#[test]
fn pop_if_asks_and_may_change() {
    let mut mc = arena::<u8>();
    let mut vec = Vec::from_array(&mut mc, [1, 2, 3]);
    assert_eq!(vec.pop_if(|x| *x > 3), None);
    assert_eq!(
        vec.pop_if(|x| {
            *x += 10;
            *x > 12
        }),
        Some(13)
    );
    assert_eq!(
        vec.pop_if(|x| {
            *x = 7;
            false
        }),
        None
    );
    assert_eq!(vec.as_slice(), &[1, 7][..]);
    vec.clear();
    assert_eq!(vec.pop_if(|_| true), None);
}

#[test]
fn push_within_capacity_gives_back() {
    let mut mc = arena::<u8>();
    let mut vec = Vec::with_capacity(&mut mc, 1);
    assert_eq!(vec.push_within_capacity(5), Ok(()));
    assert_eq!(vec.push_within_capacity(6), Err(6));
    assert_eq!(vec.as_slice(), &[5][..]);
}

#[test]
fn appending_and_resizing() {
    let mut mc = arena::<u8>();
    let mut a = Vec::from_array(&mut mc, [1, 2]);
    let mut b = Vec::from_array(&mut mc, [3, 4, 5]);
    a.append(&mut mc, &mut b);
    assert_eq!(a.as_slice(), &[1, 2, 3, 4, 5][..]);
    assert_eq!(a.capacity(), 5);
    assert_eq!(b.len(), 0);
    assert_eq!(b.capacity(), 3);
    a.resize(&mut mc, 7, 9);
    assert_eq!(a.as_slice(), &[1, 2, 3, 4, 5, 9, 9][..]);
    a.resize(&mut mc, 1, 9);
    assert_eq!(a.as_slice(), &[1][..]);
    let mut next = 5;
    a.resize_with(&mut mc, 3, || {
        next += 1;
        next
    });
    assert_eq!(a.as_slice(), &[1, 6, 7][..]);
    a.resize_with(&mut mc, 2, || 6);
    assert_eq!(a.as_slice(), &[1, 6][..]);
    a.extend_from_slice(&mut mc, &[7, 8]);
    assert_eq!(a.as_slice(), &[1, 6, 7, 8][..]);
    a.as_mut_slice()[0] = 0;
    assert_eq!(*a.index(0), 0);
}

#[test]
fn extending_and_collecting() {
    let mut mc = arena::<u64>();
    let mut vec = Vec::from_array(&mut mc, [1u64]);
    vec.extend(&mut mc, vec![2, 3].into_iter());
    vec.extend_ref(&mut mc, [4, 5].iter());
    assert_eq!(vec.as_slice(), &[1, 2, 3, 4, 5][..]);
    let all = Vec::collect(&mut mc, 0..6u64);
    assert_eq!(all.as_slice(), &[0, 1, 2, 3, 4, 5][..]);
    assert_eq!(all.capacity(), 6);
    let row = Gc::<u64, usize>::collect(&mut mc, vec![7, 8].into_iter());
    assert_eq!(Gc::<u64, usize>::get_ref(row, &mc), &[7, 8][..]);
    let row = Unique::<u64, usize>::collect(&mut mc, vec![9].into_iter());
    assert_eq!(row.as_slice(&mc), &[9][..]);
}

#[test]
fn cloning() {
    let mut mc = arena::<u8>();
    let src = Vec::from_array(&mut mc, ["a".to_string(), "b".to_string(), "c".to_string()]);
    let copy = src.clone(&mut mc);
    assert_eq!(copy.as_slice(), src.as_slice());
    assert_eq!(copy.capacity(), 3);
    assert_ne!(copy.as_ptr(), src.as_ptr());

    let mut small = Vec::from_array(&mut mc, ["x".to_string()]);
    small.clone_from(&mut mc, &src);
    assert_eq!(small.as_slice(), src.as_slice());
    assert_eq!(small.capacity(), 4);

    let mut large = Vec::from_elem(&mut mc, "y".to_string(), 5);
    large.clone_from(&mut mc, &src);
    assert_eq!(large.as_slice(), src.as_slice());
    assert_eq!(large.capacity(), 5);

    let row = ConvertVec::to_vec(&[1, 2][..], &mut mc);
    assert_eq!(row.as_slice(), &[1, 2][..]);
}

#[test]
fn into_iter_and_back() {
    let mut mc = arena::<u8>();
    let mut iter = Vec::from_array(&mut mc, [1, 2, 3, 4, 5]).into_iter();
    assert_eq!(iter.next(), Some(1));
    assert_eq!(iter.next(), Some(2));
    assert_eq!(iter.next_back(), Some(5));
    assert_eq!(iter.size_hint(), (2, Some(2)));
    assert_eq!(iter.len(), 2);
    assert_eq!(iter.as_slice(), &[3, 4][..]);
    let buf = iter.buf.ptr;
    let vec = iter.into_vec(&mut mc);
    assert_eq!(vec.as_slice(), &[3, 4][..]);
    assert_eq!(vec.capacity(), 5);
    assert_eq!(vec.buf.ptr, buf);
}

#[test]
fn into_vec_leaves_a_buffer_that_is_mostly_empty() {
    let mut mc = arena::<u8>();
    let mut iter = Vec::from_array(&mut mc, [1, 2, 3, 4, 5, 6]).into_iter();
    for i in 1..5 {
        assert_eq!(iter.next(), Some(i));
    }
    iter.as_mut_slice()[0] = 8;
    let buf = iter.buf.ptr;
    let vec = iter.into_vec(&mut mc);
    assert_eq!(vec.as_slice(), &[8, 6][..]);
    assert_eq!(vec.capacity(), 2);
    assert_ne!(vec.buf.ptr, buf);
}

#[test]
fn iterator_ends() {
    let mut mc = arena::<u8>();
    let vec = Vec::from_array(&mut mc, [1, 2, 3]);
    assert_eq!(vec.into_iter().last(), Some(3));
    let vec = Vec::from_array(&mut mc, [1, 2, 3]);
    assert_eq!(vec.into_iter().count(), 3);
    let empty = Vec::<u8>::from_array(&mut mc, []);
    let mut iter = empty.into_iter();
    assert_eq!(iter.next(), None);
    assert_eq!(iter.next_back(), None);
    assert_eq!(iter.last(), None);
}

#[test]
fn slices_of_the_arena() {
    let mut mc = arena::<u16>();
    let mut vec = Vec::with_capacity(&mut mc, 8);
    vec.push(&mut mc, 1u16);
    vec.push(&mut mc, 2);
    let row = vec.into_gc_slice(&mut mc);
    assert_eq!(Gc::<u16, usize>::get_ref(row, &mc), &[1, 2][..]);
    assert_eq!(Gc::metadata(row, &mc), 2);
}

#[test]
fn arrays_and_parts() {
    let mut mc = arena::<u8>();
    let vec = Vec::from_array(&mut mc, [1, 2, 3]);
    let vec = match vec.try_into_array::<2>() {
        Ok(_) => panic!("the lengths differ"),
        Err(vec) => vec,
    };
    assert_eq!(vec.len(), 3);
    let (buf, elems, cap) = vec.into_raw_parts();
    let vec = Vec::from_raw_parts(buf, elems, cap);
    assert_eq!(vec.capacity(), 3);
    match vec.try_into_array::<3>() {
        Ok(array) => assert_eq!(array, [1, 2, 3]),
        Err(_) => panic!("the lengths agree"),
    }
}

#[test]
fn guessed_lengths() {
    let mut mc = arena::<u8>();
    // Nothing is guessed to follow any item.
    let vec = Vec::collect_desugared(&mut mc, vec![1u32, 2, 3, 4, 5].into_iter(), &[0; 5]);
    assert_eq!(vec.as_slice(), &[1, 2, 3, 4, 5][..]);
    assert_eq!(vec.capacity(), 8);
    // Right guesses make room at once.
    let vec = Vec::collect_desugared(&mut mc, vec![1u32, 2, 3, 4, 5].into_iter(), &[4, 3, 2, 1, 0]);
    assert_eq!(vec.capacity(), 5);
    let mut vec = Vec::collect_desugared(&mut mc, std::iter::empty::<u32>(), &[]);
    assert_eq!(vec.capacity(), 4);
    vec.extend_desugared(&mut mc, vec![1u32, 2, 3, 4, 5].into_iter(), &[9, 9, 9, 9, 5]);
    assert_eq!(vec.capacity(), 10);
    vec.push_hinted(&mut mc, 6, 100);
    assert_eq!(vec.capacity(), 10);
    assert_eq!(vec.as_slice(), &[1, 2, 3, 4, 5, 6][..]);
}

#[test]
fn elements_without_a_size_take_no_room() {
    let mut mc = arena::<()>();
    let vec = Vec::from_array(&mut mc, [(), ()]);
    assert_eq!((vec.len(), vec.capacity()), (2, usize::MAX));
    let row = vec.into_unique_slice(&mut mc);
    assert_eq!(row.as_slice(&mc).len(), 2);
    assert_eq!(Unique::metadata(&row, &mc), 2);
    let addr = Unique::addr(&row);
    let mut vec = row.into_vec(&mut mc);
    assert_eq!((vec.len(), vec.capacity()), (2, usize::MAX));
    vec.extend(&mut mc, vec![(), ()].into_iter());
    vec.reserve(&mut mc, 1_000_000);
    vec.shrink_to_fit(&mut mc);
    assert_eq!((vec.len(), vec.capacity(), vec.as_ptr()), (4, usize::MAX, addr));
    let row = vec.into_gc_slice(&mut mc);
    assert_eq!(Gc::<(), usize>::get_ref(row, &mc).len(), 4);

    let row = Unique::<(), usize>::collect(&mut mc, [(), (), ()].into_iter());
    assert_eq!(row.as_slice(&mc).len(), 3);
    let mut iter = row.into_iter(&mut mc);
    assert_eq!(iter.cap, usize::MAX);
    assert_eq!(iter.next(), Some(()));
    assert_eq!(iter.len(), 2);
    let row = Gc::<(), usize>::collect(&mut mc, [(); 3].into_iter());
    assert_eq!(Gc::metadata(row, &mc), 3);
}

#[test]
fn filtered_items_fill_a_slice() {
    let mut mc = arena::<u32>();
    let row = Gc::<u32, usize>::collect(&mut mc, (0..5).filter(|x| x % 2 == 0));
    assert_eq!(Gc::<u32, usize>::get_ref(row, &mc), &[0, 2, 4][..]);
    assert_eq!(Gc::metadata(row, &mc), 3);
}

#[test]
fn spare_places_become_elements() {
    let mut mc = arena::<u8>();
    let mut vec = Vec::with_capacity(&mut mc, 6);
    vec.push(&mut mc, 1u32);
    *vec.spare_capacity_mut(1) = Some(3);
    *vec.spare_capacity_mut(0) = Some(2);
    assert_eq!(*vec.spare_capacity_mut(4), None);
    assert_eq!(vec.as_slice(), &[1][..]);
    vec.set_len(3);
    assert_eq!(vec.as_slice(), &[1, 2, 3][..]);
    vec.set_len(1);
    assert_eq!(vec.as_slice(), &[1][..]);
    vec.set_len(3);
    assert_eq!(vec.as_slice(), &[1, 2, 3][..]);
    assert_eq!(vec.capacity(), 6);
    // The places after a new element hold what they held.
    vec.set_len(0);
    vec.push(&mut mc, 7);
    assert_eq!(*vec.spare_capacity_mut(0), Some(2));
    vec.set_len(3);
    assert_eq!(vec.as_slice(), &[7, 2, 3][..]);
    // So do those of elements that were cut off.
    vec.truncate(1);
    vec.set_len(2);
    assert_eq!(vec.as_slice(), &[7, 2][..]);
    vec.clear();
    vec.extend(&mut mc, [8].into_iter());
    vec.set_len(3);
    assert_eq!(vec.as_slice(), &[8, 2, 3][..]);
    // A value that was moved out is not there any more.
    assert_eq!(vec.pop(), Some(3));
    assert_eq!(vec.remove(0), 8);
    assert_eq!(*vec.spare_capacity_mut(0), None);
    assert_eq!(*vec.spare_capacity_mut(1), None);
    vec.insert(&mut mc, 0, 1);
    *vec.spare_capacity_mut(2) = Some(9);
    vec.extend_from_slice(&mut mc, &[5]);
    assert_eq!(*vec.spare_capacity_mut(0), None);
    assert_eq!(*vec.spare_capacity_mut(1), Some(9));
    let mut other = Vec::from_array(&mut mc, [4]);
    other.append(&mut mc, &mut vec);
    assert_eq!(*vec.spare_capacity_mut(2), None);
    assert_eq!(*vec.spare_capacity_mut(4), Some(9));
    // Another buffer holds only the elements.
    other.truncate(1);
    assert_eq!(*other.spare_capacity_mut(0), Some(1));
    other.shrink_to_fit(&mut mc);
    other.reserve(&mut mc, 3);
    assert_eq!(*other.spare_capacity_mut(0), None);
}

#[test]
fn the_last_place_takes_the_value_itself() {
    let mut mc = arena::<Rc<()>>();
    let value = Rc::new(());
    let mut vec: Vec<Rc<()>> = Vec::new(&mut mc);
    vec.resize(&mut mc, 3, value.clone());
    assert_eq!(Rc::strong_count(&value), 4);
    let row = Unique::<Rc<()>, usize>::new_uninit_slice(&mut mc, 2);
    let row = row.write_filled(&mut mc, value.clone());
    assert_eq!(row.as_slice(&mc).len(), 2);
    assert_eq!(Rc::strong_count(&value), 6);
}

#[test]
fn room_for_guesses_is_told_beforehand() {
    let mut mc = arena::<u8>();
    assert!(Vec::<u32>::can_collect_desugared(&mc, &[0; 5], 5));
    assert!(Vec::<u32>::can_collect_desugared(&mc, &[], 0));
    assert!(!Vec::<u32>::can_collect_desugared(&mc, &[usize::MAX], 1));
    let vec = Vec::<u32>::with_capacity(&mut mc, 2);
    assert!(vec.can_extend_desugared(&mc, &[usize::MAX, usize::MAX], 2));
    assert!(vec.can_extend_desugared(&mc, &[0, 0, 0], 3));
    assert!(!vec.can_extend_desugared(&mc, &[0, 0, usize::MAX], 3));
}

#[test]
fn items_of_unknown_number_come_one_by_one() {
    let mut mc = arena::<u8>();
    let mut vec: Vec<u32> = Vec::with_capacity(&mut mc, 0);
    assert!(vec.has_plenty_of_room(&mc, 5));
    assert!(!vec.has_plenty_of_room(&mc, usize::MAX / 16));
    let before = mc.metrics().total_gcs;
    vec.extend(&mut mc, (0..5).filter(|_| true));
    assert_eq!(vec.as_slice(), &[0, 1, 2, 3, 4][..]);
    // A buffer for four and one for eight.
    assert_eq!(vec.capacity(), 8);
    assert_eq!(mc.metrics().total_gcs, before + 2);

    let mut vec: Vec<u32> = Vec::with_capacity(&mut mc, 0);
    let before = mc.metrics().total_gcs;
    vec.extend(&mut mc, 0..5);
    assert_eq!(vec.capacity(), 5);
    vec.extend_ref(&mut mc, [7, 8].iter().filter(|_| true));
    assert_eq!(vec.as_slice(), &[0, 1, 2, 3, 4, 7, 8][..]);
    assert_eq!(vec.capacity(), 10);
    assert_eq!(mc.metrics().total_gcs, before + 2);
    let buf = vec.as_ptr();
    vec.extend(&mut mc, (0..3).filter(|_| true));
    assert_eq!((vec.len(), vec.capacity(), vec.as_ptr()), (10, 10, buf));
}

#[test]
fn collecting_goes_by_what_is_told() {
    let mut mc = arena::<u64>();
    assert!(Vec::<u64>::has_room_for_items(&mc, 5));
    assert!(!Vec::<u64>::has_room_for_items(&mc, usize::MAX));
    // The number is told exactly.
    assert_eq!(Vec::collect(&mut mc, 0..2u64).capacity(), 2);
    assert_eq!(Vec::<u64>::collect(&mut mc, std::iter::empty()).capacity(), 0);
    // It is not.
    let before = mc.metrics().total_gcs;
    let vec = Vec::collect(&mut mc, (0..5u64).filter(|_| true));
    assert_eq!((vec.len(), vec.capacity()), (5, 8));
    assert_eq!(mc.metrics().total_gcs, before + 2);
    let vec = Vec::collect(&mut mc, (0..5u64).filter(|x| *x > 9));
    assert_eq!((vec.len(), vec.capacity()), (0, 4));
    // A vector with excess capacity is moved to a row.
    assert!(Unique::<u64, usize>::has_room_for_items(&mc, 5));
    let before = mc.metrics().total_gcs;
    let row = Gc::<u64, usize>::collect(&mut mc, (0..5u64).filter(|_| true));
    assert_eq!(Gc::<u64, usize>::get_ref(row, &mc), &[0, 1, 2, 3, 4][..]);
    assert_eq!(mc.metrics().total_gcs, before + 3);
    let before = mc.metrics().total_gcs;
    let row = Unique::<u64, usize>::collect(&mut mc, 0..5);
    assert_eq!(row.as_slice(&mc), &[0, 1, 2, 3, 4][..]);
    assert_eq!(mc.metrics().total_gcs, before + 1);
    // What was told counts for nothing if there is no room for it.
    let vec = Vec::collect_hinted(&mut mc, vec![1u64, 2], (0, None), &[usize::MAX, usize::MAX]);
    assert_eq!((vec.as_slice(), vec.capacity()), (&[1, 2][..], 4));
    let row = Unique::collect_hinted(&mut mc, vec![1u64, 2], (0, None), &[9, usize::MAX]);
    assert_eq!(row.as_slice(&mc), &[1, 2][..]);
}
