//! What holds of the pointers that values hold, of which types need tracing, and of zeroed memory.

use crate::collect::ordered::{self, OrderedKey};
use crate::collect::{self, Collect, Edge, Static, Trace};
use crate::gc::{Gc, Unique, Weak};
use crate::root::{Inner, RootedSet, Slot};
use crate::vec::IntoIter;
use core::marker::PhantomData;
use core::mem::MaybeUninit;
use std::collections::{BTreeMap, BTreeSet, VecDeque};
use std::rc::Rc;
use std::sync::Arc;
use vstd::prelude::*;

verus! {

/// Two rows one after the other hold what either of them holds.
pub(crate) proof fn lemma_in_either(a: Seq<Edge>, b: Seq<Edge>, e: Edge)
    ensures
        (a + b).contains(e) <==> a.contains(e) || b.contains(e),
{
    let both = a + b;
    if both.contains(e) {
        let k = choose|k: int| 0 <= k < both.len() && both[k] == e;
        if k < a.len() {
            assert(a[k] == e);
        } else {
            assert(b[k - a.len()] == e);
        }
    }
    if a.contains(e) {
        let k = choose|k: int| 0 <= k < a.len() && a[k] == e;
        assert(both[k] == e);
    }
    if b.contains(e) {
        let k = choose|k: int| 0 <= k < b.len() && b[k] == e;
        assert(both[a.len() + k] == e);
    }
}

/// Whether one of the values of a row holds a pointer.
pub open spec fn one_holds<T: Collect>(row: Seq<T>, e: Edge) -> bool {
    exists|i: int| 0 <= i < row.len() && (#[trigger] row[i]).edges().contains(e)
}

/// A pointer to a box holds that one pointer and no other: a strong one, or a weak one.
pub proof fn pointers_hold_themselves<T, M>(gc: Gc<T, M>, weak: Weak<T, M>, unique: Unique<T, M>, e: Edge)
    ensures
        gc.edges().contains(e) <==> e == Edge::Strong(gc.ptr),
        weak.edges().contains(e) <==> e == Edge::Weak(weak.inner.ptr),
        unique.edges().contains(e) <==> e == Edge::Strong(unique.ptr),
        <Gc<T, M> as Collect>::spec_needs_trace(),
        <Weak<T, M> as Collect>::spec_needs_trace(),
        <Unique<T, M> as Collect>::spec_needs_trace(),
{
    assert(gc.edges()[0] == Edge::Strong(gc.ptr));
    assert(weak.edges()[0] == Edge::Weak(weak.inner.ptr));
    assert(unique.edges()[0] == Edge::Strong(unique.ptr));
}

/// A vector of the arena holds its buffer and what its elements hold, and nothing else.
pub proof fn vector_holds_its_buffer_and_elements<T: Collect>(v: crate::vec::Vec<T>, e: Edge)
    ensures
        v.edges().contains(e) <==> e == Edge::Strong(v.buf.ptr) || exists|i: int|
            0 <= i < v@.len() && (#[trigger] v@[i]).edges().contains(e),
        v.edges().contains(Edge::Strong(v.buf.ptr)),
        forall|i: int, f: Edge|
            0 <= i < v@.len() && #[trigger] v@[i].edges().contains(f) ==> v.edges().contains(f),
        <crate::vec::Vec<T> as Collect>::spec_needs_trace(),
{
    assert forall|f: Edge| #[trigger] v.edges().contains(f) <==> f == Edge::Strong(v.buf.ptr) || exists|
        i: int,
    |
        0 <= i < v@.len() && (#[trigger] v@[i]).edges().contains(f) by {
        lemma_in_either(v.buf.edges(), collect::row_edges(v@), f);
        collect::lemma_row_edges_contains(v@, f);
        assert(v.buf.edges()[0] == Edge::Strong(v.buf.ptr));
    }
}

/// An iterator over a vector holds the buffer and what the items that are left hold, and nothing
/// else.
pub proof fn iterator_holds_its_buffer_and_items<T: Collect>(iter: IntoIter<T>, e: Edge)
    ensures
        iter.edges().contains(e) <==> e == Edge::Strong(iter.buf.ptr) || exists|i: int|
            0 <= i < iter@.len() && (#[trigger] iter@[i]).edges().contains(e),
        <IntoIter<T> as Collect>::spec_needs_trace(),
{
    lemma_in_either(iter.buf.edges(), collect::row_edges(iter@), e);
    collect::lemma_row_edges_contains(iter@, e);
    assert(iter.buf.edges()[0] == Edge::Strong(iter.buf.ptr));
}

/// A root set holds its table; the table holds the buffer and the roots in it, and nothing else.
pub proof fn root_set_holds_its_roots(set: RootedSet, inner: Inner, slot: Slot, e: Edge)
    ensures
        set.edges().contains(e) <==> e == Edge::Strong(set.inner.ptr),
        inner.edges().contains(e) <==> e == Edge::Strong(inner.slots.buf.ptr) || exists|i: int|
            0 <= i < inner.slots@.len() && (#[trigger] inner.slots@[i] matches Slot::Occupied {
                root,
                ..
            } && e == Edge::Strong(root.ptr)),
        slot.edges().contains(e) <==> (slot matches Slot::Occupied { root, .. } && e
            == Edge::Strong(root.ptr)),
        <RootedSet as Collect>::spec_needs_trace(),
        <Inner as Collect>::spec_needs_trace(),
        <Slot as Collect>::spec_needs_trace(),
{
    assert(set.edges()[0] == Edge::Strong(set.inner.ptr));
    assert forall|s: Slot| #[trigger]
        s.edges().contains(e) <==> (s matches Slot::Occupied { root, .. } && e == Edge::Strong(
            root.ptr,
        )) by {
        if let Slot::Occupied { root, .. } = s {
            assert(s.edges()[0] == Edge::Strong(root.ptr));
        }
    }
    vector_holds_its_buffer_and_elements(inner.slots, e);
    let row = inner.slots@;
    if exists|i: int| 0 <= i < row.len() && (#[trigger] row[i]).edges().contains(e) {
        let i = choose|i: int| 0 <= i < row.len() && (#[trigger] row[i]).edges().contains(e);
        assert(inner.slots@[i].edges().contains(e));
    }
    if exists|i: int|
        0 <= i < row.len() && (#[trigger] row[i] matches Slot::Occupied { root, .. } && e
            == Edge::Strong(root.ptr)) {
        let i = choose|i: int|
            0 <= i < row.len() && (#[trigger] row[i] matches Slot::Occupied { root, .. } && e
                == Edge::Strong(root.ptr));
        assert(row[i].edges().contains(e));
    }
}

/// A row of values holds what one of its values holds: vectors, deques and arrays.
pub proof fn rows_hold_what_their_values_hold<T: Collect, const N: usize>(
    vec: Vec<T>,
    deque: VecDeque<T>,
    array: [T; N],
    e: Edge,
)
    ensures
        vec.edges().contains(e) <==> one_holds(vec@, e),
        deque.edges().contains(e) <==> one_holds(deque@, e),
        array.edges().contains(e) <==> one_holds(array@, e),
        <Vec<T> as Collect>::spec_needs_trace() == T::spec_needs_trace(),
        <VecDeque<T> as Collect>::spec_needs_trace() == T::spec_needs_trace(),
        <[T; N] as Collect>::spec_needs_trace() == T::spec_needs_trace(),
{
    collect::lemma_row_edges_contains(vec@, e);
    collect::lemma_row_edges_contains(deque@, e);
    collect::lemma_row_edges_contains(array@, e);
}

/// The values of a row show their pointers one after the other: a row of one value those of the
/// value, and a row in two parts those of the first part before those of the second.
pub proof fn rows_are_shown_in_order<T: Collect>(a: Seq<T>, b: Seq<T>, value: T)
    ensures
        collect::row_edges(seq![value]) == value.edges(),
        collect::row_edges(a + b) == collect::row_edges(a) + collect::row_edges(b),
{
    reveal_with_fuel(collect::row_edges, 2);
    assert(seq![value].drop_last() =~= Seq::<T>::empty());
    assert(Seq::<Edge>::empty() + value.edges() =~= value.edges());
    collect::lemma_row_edges_prefix(a + b, a.len() as int);
    assert((a + b).take(a.len() as int) =~= a);
    assert((a + b).skip(a.len() as int) =~= b);
}

/// Each vector, deque and array is shown as the row of its values.
pub proof fn collections_are_shown_as_rows<T: Collect, const N: usize>(
    vec: Vec<T>,
    deque: VecDeque<T>,
    array: [T; N],
)
    ensures
        vec@ == deque@ ==> vec.edges() == deque.edges(),
        vec@ == array@ ==> vec.edges() == array.edges(),
        vec@.len() == 1 ==> vec.edges() == vec@[0].edges(),
        deque@.len() == 1 ==> deque.edges() == deque@[0].edges(),
        array@.len() == 1 ==> array.edges() == array@[0].edges(),
{
    if vec@.len() == 1 {
        assert(vec@ =~= seq![vec@[0]]);
        rows_are_shown_in_order(vec@, vec@, vec@[0]);
    }
    if deque@.len() == 1 {
        assert(deque@ =~= seq![deque@[0]]);
        rows_are_shown_in_order(deque@, deque@, deque@[0]);
    }
    if array@.len() == 1 {
        assert(array@ =~= seq![array@[0]]);
        rows_are_shown_in_order(array@, array@, array@[0]);
    }
}

/// A value that may be there holds what it holds if it is, and nothing otherwise.
pub proof fn options_hold_what_is_there<T: Collect, E: Collect>(
    option: Option<T>,
    result: Result<T, E>,
    e: Edge,
)
    ensures
        option.edges().contains(e) <==> (option matches Some(t) && t.edges().contains(e)),
        result.edges().contains(e) <==> match result {
            Ok(t) => t.edges().contains(e),
            Err(t) => t.edges().contains(e),
        },
        <Option<T> as Collect>::spec_needs_trace() == T::spec_needs_trace(),
        <Result<T, E> as Collect>::spec_needs_trace() == (T::spec_needs_trace()
            || E::spec_needs_trace()),
{
}

/// A value behind a reference of the language holds what it holds.
pub proof fn references_hold_what_they_lead_to<T: Collect>(
    by_ref: &T,
    boxed: Box<T>,
    rc: Rc<T>,
    arc: Arc<T>,
    e: Edge,
)
    ensures
        <&T as Collect>::edges(&by_ref).contains(e) <==> T::edges(by_ref).contains(e),
        boxed.edges().contains(e) <==> (*boxed).edges().contains(e),
        rc.edges().contains(e) <==> (*rc).edges().contains(e),
        arc.edges().contains(e) <==> (*arc).edges().contains(e),
        <&T as Collect>::spec_needs_trace() == T::spec_needs_trace(),
        <Box<T> as Collect>::spec_needs_trace() == T::spec_needs_trace(),
        <Rc<T> as Collect>::spec_needs_trace() == T::spec_needs_trace(),
        <Arc<T> as Collect>::spec_needs_trace() == T::spec_needs_trace(),
{
}

/// An ordered map holds what one of its keys or values holds.
pub proof fn ordered_map_holds_what_its_entries_hold<K: OrderedKey, V: Collect>(
    map: BTreeMap<K, V>,
    e: Edge,
)
    ensures
        map.edges().contains(e) <==> exists|k: K| #[trigger]
            map@.contains_key(k) && (k.edges().contains(e) || map@[k].edges().contains(e)),
        <BTreeMap<K, V> as Collect>::spec_needs_trace() == (K::spec_needs_trace()
            || V::spec_needs_trace()),
{
    broadcast use vstd::std_specs::btree::group_btree_axioms;

    assert(map@.dom().finite());
    ordered::map_holds_what_its_entries_hold(map@, e);
}

/// An ordered map is shown entry by entry from the least key to the greatest, each entry once.
pub proof fn ordered_maps_are_shown_in_order<K: OrderedKey, V: Collect>(map: BTreeMap<K, V>)
    ensures
        ({
            let all = ordered::entries(map@);
            &&& map.edges() == collect::row_edges(all)
            &&& all.len() == map@.dom().len()
            &&& forall|i: int|
                0 <= i < all.len() ==> map@.contains_key((#[trigger] all[i]).0) && all[i].1
                    == map@[all[i].0]
            &&& forall|i: int, j: int|
                0 <= i < j < all.len() ==> (#[trigger] all[i]).0.rank() < (#[trigger] all[j]).0.rank()
        }),
{
    broadcast use vstd::std_specs::btree::group_btree_axioms;

    let keys = ordered::in_order(map@.dom());
    let all = ordered::entries(map@);
    assert(map@.dom().finite());
    ordered::in_order_has_all(map@.dom());
    keys.unique_seq_to_set();
    assert forall|i: int| 0 <= i < all.len() implies map@.contains_key((#[trigger] all[i]).0)
        && all[i].1 == map@[all[i].0] by {
        assert(keys.to_set().contains(keys[i]));
    }
    assert forall|i: int, j: int| 0 <= i < j < all.len() implies (#[trigger] all[i]).0.rank() < (
    #[trigger] all[j]).0.rank() by {
        assert(keys[i].rank() < keys[j].rank());
    }
}

/// An ordered set holds what one of its members holds.
pub proof fn ordered_set_holds_what_its_members_hold<K: OrderedKey>(set: BTreeSet<K>, e: Edge)
    ensures
        set.edges().contains(e) <==> exists|k: K| #[trigger]
            set@.contains(k) && k.edges().contains(e),
        <BTreeSet<K> as Collect>::spec_needs_trace() == K::spec_needs_trace(),
{
    broadcast use vstd::std_specs::btree::group_btree_axioms;

    let all = vstd::std_specs::btree::spec_btree_keys_iter(&set);
    vstd::seq_lib::seq_to_set_is_finite(
        vstd::std_specs::iter::IteratorSpec::remaining(&all).unref(),
    );
    ordered::set_holds_what_its_members_hold(set@, e);
}

/// Plain values hold no pointers and need no tracing.
pub proof fn plain_values_hold_nothing(
    b: bool,
    c: char,
    unsigned: (u8, u16, u32, u64, usize),
    signed: (i8, i16, i32, i64, isize),
    text: String,
)
    ensures
        b.edges().len() == 0,
        c.edges().len() == 0,
        unsigned.0.edges().len() == 0,
        unsigned.1.edges().len() == 0,
        unsigned.2.edges().len() == 0,
        unsigned.3.edges().len() == 0,
        unsigned.4.edges().len() == 0,
        signed.0.edges().len() == 0,
        signed.1.edges().len() == 0,
        signed.2.edges().len() == 0,
        signed.3.edges().len() == 0,
        signed.4.edges().len() == 0,
        text.edges().len() == 0,
        ().edges().len() == 0,
        !<bool as Collect>::spec_needs_trace(),
        !<char as Collect>::spec_needs_trace(),
        !<u8 as Collect>::spec_needs_trace(),
        !<u16 as Collect>::spec_needs_trace(),
        !<u32 as Collect>::spec_needs_trace(),
        !<u64 as Collect>::spec_needs_trace(),
        !<usize as Collect>::spec_needs_trace(),
        !<i8 as Collect>::spec_needs_trace(),
        !<i16 as Collect>::spec_needs_trace(),
        !<i32 as Collect>::spec_needs_trace(),
        !<i64 as Collect>::spec_needs_trace(),
        !<isize as Collect>::spec_needs_trace(),
        !<String as Collect>::spec_needs_trace(),
        !<() as Collect>::spec_needs_trace(),
{
}

/// What cannot be told to be a pointer holds none: uninitialized memory, markers and what is known to
/// be static.
pub proof fn unseen_values_hold_nothing<T>(
    memory: MaybeUninit<T>,
    marker: PhantomData<T>,
    value: Static<T>,
)
    ensures
        memory.edges().len() == 0,
        marker.edges().len() == 0,
        value.edges().len() == 0,
        !<MaybeUninit<T> as Collect>::spec_needs_trace(),
        !<PhantomData<T> as Collect>::spec_needs_trace(),
        !<Static<T> as Collect>::spec_needs_trace(),
{
}

/// Memory that is all zero is the number zero, `false` or the first character.
pub proof fn zeroed_memory_is_zero()
    ensures
        <u8 as Collect>::spec_zeroed() == Some(0u8),
        <u16 as Collect>::spec_zeroed() == Some(0u16),
        <u32 as Collect>::spec_zeroed() == Some(0u32),
        <u64 as Collect>::spec_zeroed() == Some(0u64),
        <usize as Collect>::spec_zeroed() == Some(0usize),
        <i8 as Collect>::spec_zeroed() == Some(0i8),
        <i16 as Collect>::spec_zeroed() == Some(0i16),
        <i32 as Collect>::spec_zeroed() == Some(0i32),
        <i64 as Collect>::spec_zeroed() == Some(0i64),
        <isize as Collect>::spec_zeroed() == Some(0isize),
        <bool as Collect>::spec_zeroed() == Some(false),
        <char as Collect>::spec_zeroed() == Some('\0'),
        <() as Collect>::spec_zeroed() == Some(()),
{
}

/// A zeroed number is the one that every number keeps when it is added to it.
pub proof fn zeroed_number_is_neutral(unsigned: (u8, u16, u32, u64, usize), signed: (i8, i16, i32, i64, isize))
    ensures
        <u8 as Collect>::spec_zeroed() matches Some(z) && z + unsigned.0 == unsigned.0,
        <u16 as Collect>::spec_zeroed() matches Some(z) && z + unsigned.1 == unsigned.1,
        <u32 as Collect>::spec_zeroed() matches Some(z) && z + unsigned.2 == unsigned.2,
        <u64 as Collect>::spec_zeroed() matches Some(z) && z + unsigned.3 == unsigned.3,
        <usize as Collect>::spec_zeroed() matches Some(z) && z + unsigned.4 == unsigned.4,
        <i8 as Collect>::spec_zeroed() matches Some(z) && z + signed.0 == signed.0,
        <i16 as Collect>::spec_zeroed() matches Some(z) && z + signed.1 == signed.1,
        <i32 as Collect>::spec_zeroed() matches Some(z) && z + signed.2 == signed.2,
        <i64 as Collect>::spec_zeroed() matches Some(z) && z + signed.3 == signed.3,
        <isize as Collect>::spec_zeroed() matches Some(z) && z + signed.4 == signed.4,
{
}

/// An array of zeroed memory is an array of zeroed values.
pub proof fn zeroed_array_is_zero_throughout<T: Collect, const N: usize>(array: [T; N])
    requires
        <[T; N] as Collect>::spec_zeroed() == Some(array),
        exists|other: [T; N]| #[trigger]
            other@ == Seq::new(N as nat, |i: int| T::spec_zeroed()->0),
    ensures
        forall|i: int| 0 <= i < N ==> T::spec_zeroed() == Some(#[trigger] array@[i]),
{
    assert(array@ == collect::imp::zeros::<T>(N as nat)) by {
        let other = choose|other: [T; N]| #[trigger]
            other@ == Seq::new(N as nat, |i: int| T::spec_zeroed()->0);
        assert(other@ == collect::imp::zeros::<T>(N as nat));
    }
}

/// An array has a zeroed value if its elements have one, or if there are none.
pub proof fn arrays_that_have_a_zero<T: Collect, const N: usize>()
    ensures
        <[T; N] as Collect>::spec_zeroed() is Some <==> N == 0 || T::spec_zeroed() is Some,
{
}

/// No pointer, and nothing that owns memory elsewhere, is known to be valid when it is all zero.
pub proof fn what_points_elsewhere_has_no_zero<T: Collect, K: OrderedKey, M>()
    ensures
        <Gc<T, M> as Collect>::spec_zeroed() is None,
        <Weak<T, M> as Collect>::spec_zeroed() is None,
        <Unique<T, M> as Collect>::spec_zeroed() is None,
        <crate::vec::Vec<T> as Collect>::spec_zeroed() is None,
        <IntoIter<T> as Collect>::spec_zeroed() is None,
        <RootedSet as Collect>::spec_zeroed() is None,
        <Inner as Collect>::spec_zeroed() is None,
        <Slot as Collect>::spec_zeroed() is None,
        <String as Collect>::spec_zeroed() is None,
        <Vec<T> as Collect>::spec_zeroed() is None,
        <VecDeque<T> as Collect>::spec_zeroed() is None,
        <&T as Collect>::spec_zeroed() is None,
        <Box<T> as Collect>::spec_zeroed() is None,
        <Rc<T> as Collect>::spec_zeroed() is None,
        <Arc<T> as Collect>::spec_zeroed() is None,
        <BTreeMap<K, T> as Collect>::spec_zeroed() is None,
        <BTreeSet<K> as Collect>::spec_zeroed() is None,
{
}

/// A visitor that is shown no pointer stays as it is; one that is shown a pointer last takes one step
/// for it after all the others.
pub proof fn visitors_take_one_step_for_each_pointer<C: Trace>(s: C::State, edges: Seq<Edge>, e: Edge)
    ensures
        collect::trace_all::<C>(s, Seq::empty()) == s,
        collect::trace_all::<C>(s, edges.push(e)) == C::step(
            collect::trace_all::<C>(s, edges),
            e,
        ),
{
    assert(edges.push(e).drop_last() =~= edges);
}

/// A tuple of one holds what one of its parts holds, shows its parts in order, needs tracing if one
/// of them does, and is zero if all of them are.
pub proof fn tuple_of_one_holds_its_parts<A: Collect>(t: (A,), e: Edge)
    ensures
        t.edges().contains(e) <==> t.0.edges().contains(e),
        t.edges() == t.0.edges(),
        <(A,) as Collect>::spec_needs_trace() <==> A::spec_needs_trace(),
        <(A,) as Collect>::spec_zeroed() matches Some(zero) ==> A::spec_zeroed() == Some(zero.0),
        <(A,) as Collect>::spec_zeroed() is None ==> A::spec_zeroed() is None,
{
}

/// A tuple of two holds what one of its parts holds, shows its parts in order, needs tracing if one
/// of them does, and is zero if all of them are.
pub proof fn tuple_of_two_holds_its_parts<A: Collect, B: Collect>(t: (A, B), e: Edge)
    ensures
        t.edges().contains(e) <==> t.0.edges().contains(e)
            || t.1.edges().contains(e),
        t.edges() == t.0.edges() + t.1.edges(),
        <(A, B) as Collect>::spec_needs_trace() <==> A::spec_needs_trace()
            || B::spec_needs_trace(),
        <(A, B) as Collect>::spec_zeroed() matches Some(zero) ==> A::spec_zeroed() == Some(zero.0)
            && B::spec_zeroed() == Some(zero.1),
        <(A, B) as Collect>::spec_zeroed() is None ==> A::spec_zeroed() is None
            || B::spec_zeroed() is None,
{
    let e0 = t.0.edges();
    let e1 = e0 + t.1.edges();
    lemma_in_either(e0, t.1.edges(), e);
}

/// A tuple of three holds what one of its parts holds, shows its parts in order, needs tracing if one
/// of them does, and is zero if all of them are.
pub proof fn tuple_of_three_holds_its_parts<A: Collect, B: Collect, D: Collect>(t: (A, B, D), e: Edge)
    ensures
        t.edges().contains(e) <==> t.0.edges().contains(e)
            || t.1.edges().contains(e)
            || t.2.edges().contains(e),
        t.edges() == t.0.edges() + t.1.edges() + t.2.edges(),
        <(A, B, D) as Collect>::spec_needs_trace() <==> A::spec_needs_trace()
            || B::spec_needs_trace()
            || D::spec_needs_trace(),
        <(A, B, D) as Collect>::spec_zeroed() matches Some(zero) ==> A::spec_zeroed() == Some(zero.0)
            && B::spec_zeroed() == Some(zero.1)
            && D::spec_zeroed() == Some(zero.2),
        <(A, B, D) as Collect>::spec_zeroed() is None ==> A::spec_zeroed() is None
            || B::spec_zeroed() is None
            || D::spec_zeroed() is None,
{
    let e0 = t.0.edges();
    let e1 = e0 + t.1.edges();
    lemma_in_either(e0, t.1.edges(), e);
    let e2 = e1 + t.2.edges();
    lemma_in_either(e1, t.2.edges(), e);
}

/// A tuple of four holds what one of its parts holds, shows its parts in order, needs tracing if one
/// of them does, and is zero if all of them are.
pub proof fn tuple_of_four_holds_its_parts<A: Collect, B: Collect, D: Collect, E: Collect>(t: (A, B, D, E), e: Edge)
    ensures
        t.edges().contains(e) <==> t.0.edges().contains(e)
            || t.1.edges().contains(e)
            || t.2.edges().contains(e)
            || t.3.edges().contains(e),
        t.edges() == t.0.edges() + t.1.edges() + t.2.edges() + t.3.edges(),
        <(A, B, D, E) as Collect>::spec_needs_trace() <==> A::spec_needs_trace()
            || B::spec_needs_trace()
            || D::spec_needs_trace()
            || E::spec_needs_trace(),
        <(A, B, D, E) as Collect>::spec_zeroed() matches Some(zero) ==> A::spec_zeroed() == Some(zero.0)
            && B::spec_zeroed() == Some(zero.1)
            && D::spec_zeroed() == Some(zero.2)
            && E::spec_zeroed() == Some(zero.3),
        <(A, B, D, E) as Collect>::spec_zeroed() is None ==> A::spec_zeroed() is None
            || B::spec_zeroed() is None
            || D::spec_zeroed() is None
            || E::spec_zeroed() is None,
{
    let e0 = t.0.edges();
    let e1 = e0 + t.1.edges();
    lemma_in_either(e0, t.1.edges(), e);
    let e2 = e1 + t.2.edges();
    lemma_in_either(e1, t.2.edges(), e);
    let e3 = e2 + t.3.edges();
    lemma_in_either(e2, t.3.edges(), e);
}

/// A tuple of five holds what one of its parts holds, shows its parts in order, needs tracing if one
/// of them does, and is zero if all of them are.
pub proof fn tuple_of_five_holds_its_parts<A: Collect, B: Collect, D: Collect, E: Collect, F: Collect>(t: (A, B, D, E, F), e: Edge)
    ensures
        t.edges().contains(e) <==> t.0.edges().contains(e)
            || t.1.edges().contains(e)
            || t.2.edges().contains(e)
            || t.3.edges().contains(e)
            || t.4.edges().contains(e),
        t.edges() == t.0.edges() + t.1.edges() + t.2.edges() + t.3.edges() + t.4.edges(),
        <(A, B, D, E, F) as Collect>::spec_needs_trace() <==> A::spec_needs_trace()
            || B::spec_needs_trace()
            || D::spec_needs_trace()
            || E::spec_needs_trace()
            || F::spec_needs_trace(),
        <(A, B, D, E, F) as Collect>::spec_zeroed() matches Some(zero) ==> A::spec_zeroed() == Some(zero.0)
            && B::spec_zeroed() == Some(zero.1)
            && D::spec_zeroed() == Some(zero.2)
            && E::spec_zeroed() == Some(zero.3)
            && F::spec_zeroed() == Some(zero.4),
        <(A, B, D, E, F) as Collect>::spec_zeroed() is None ==> A::spec_zeroed() is None
            || B::spec_zeroed() is None
            || D::spec_zeroed() is None
            || E::spec_zeroed() is None
            || F::spec_zeroed() is None,
{
    let e0 = t.0.edges();
    let e1 = e0 + t.1.edges();
    lemma_in_either(e0, t.1.edges(), e);
    let e2 = e1 + t.2.edges();
    lemma_in_either(e1, t.2.edges(), e);
    let e3 = e2 + t.3.edges();
    lemma_in_either(e2, t.3.edges(), e);
    let e4 = e3 + t.4.edges();
    lemma_in_either(e3, t.4.edges(), e);
}

/// A tuple of six holds what one of its parts holds, shows its parts in order, needs tracing if one
/// of them does, and is zero if all of them are.
pub proof fn tuple_of_six_holds_its_parts<A: Collect, B: Collect, D: Collect, E: Collect, F: Collect, G: Collect>(t: (A, B, D, E, F, G), e: Edge)
    ensures
        t.edges().contains(e) <==> t.0.edges().contains(e)
            || t.1.edges().contains(e)
            || t.2.edges().contains(e)
            || t.3.edges().contains(e)
            || t.4.edges().contains(e)
            || t.5.edges().contains(e),
        t.edges() == t.0.edges() + t.1.edges() + t.2.edges() + t.3.edges() + t.4.edges() + t.5.edges(),
        <(A, B, D, E, F, G) as Collect>::spec_needs_trace() <==> A::spec_needs_trace()
            || B::spec_needs_trace()
            || D::spec_needs_trace()
            || E::spec_needs_trace()
            || F::spec_needs_trace()
            || G::spec_needs_trace(),
        <(A, B, D, E, F, G) as Collect>::spec_zeroed() matches Some(zero) ==> A::spec_zeroed() == Some(zero.0)
            && B::spec_zeroed() == Some(zero.1)
            && D::spec_zeroed() == Some(zero.2)
            && E::spec_zeroed() == Some(zero.3)
            && F::spec_zeroed() == Some(zero.4)
            && G::spec_zeroed() == Some(zero.5),
        <(A, B, D, E, F, G) as Collect>::spec_zeroed() is None ==> A::spec_zeroed() is None
            || B::spec_zeroed() is None
            || D::spec_zeroed() is None
            || E::spec_zeroed() is None
            || F::spec_zeroed() is None
            || G::spec_zeroed() is None,
{
    let e0 = t.0.edges();
    let e1 = e0 + t.1.edges();
    lemma_in_either(e0, t.1.edges(), e);
    let e2 = e1 + t.2.edges();
    lemma_in_either(e1, t.2.edges(), e);
    let e3 = e2 + t.3.edges();
    lemma_in_either(e2, t.3.edges(), e);
    let e4 = e3 + t.4.edges();
    lemma_in_either(e3, t.4.edges(), e);
    let e5 = e4 + t.5.edges();
    lemma_in_either(e4, t.5.edges(), e);
}

/// A tuple of seven holds what one of its parts holds, shows its parts in order, needs tracing if one
/// of them does, and is zero if all of them are.
pub proof fn tuple_of_seven_holds_its_parts<A: Collect, B: Collect, D: Collect, E: Collect, F: Collect, G: Collect, H: Collect>(t: (A, B, D, E, F, G, H), e: Edge)
    ensures
        t.edges().contains(e) <==> t.0.edges().contains(e)
            || t.1.edges().contains(e)
            || t.2.edges().contains(e)
            || t.3.edges().contains(e)
            || t.4.edges().contains(e)
            || t.5.edges().contains(e)
            || t.6.edges().contains(e),
        t.edges() == t.0.edges() + t.1.edges() + t.2.edges() + t.3.edges() + t.4.edges() + t.5.edges() + t.6.edges(),
        <(A, B, D, E, F, G, H) as Collect>::spec_needs_trace() <==> A::spec_needs_trace()
            || B::spec_needs_trace()
            || D::spec_needs_trace()
            || E::spec_needs_trace()
            || F::spec_needs_trace()
            || G::spec_needs_trace()
            || H::spec_needs_trace(),
        <(A, B, D, E, F, G, H) as Collect>::spec_zeroed() matches Some(zero) ==> A::spec_zeroed() == Some(zero.0)
            && B::spec_zeroed() == Some(zero.1)
            && D::spec_zeroed() == Some(zero.2)
            && E::spec_zeroed() == Some(zero.3)
            && F::spec_zeroed() == Some(zero.4)
            && G::spec_zeroed() == Some(zero.5)
            && H::spec_zeroed() == Some(zero.6),
        <(A, B, D, E, F, G, H) as Collect>::spec_zeroed() is None ==> A::spec_zeroed() is None
            || B::spec_zeroed() is None
            || D::spec_zeroed() is None
            || E::spec_zeroed() is None
            || F::spec_zeroed() is None
            || G::spec_zeroed() is None
            || H::spec_zeroed() is None,
{
    let e0 = t.0.edges();
    let e1 = e0 + t.1.edges();
    lemma_in_either(e0, t.1.edges(), e);
    let e2 = e1 + t.2.edges();
    lemma_in_either(e1, t.2.edges(), e);
    let e3 = e2 + t.3.edges();
    lemma_in_either(e2, t.3.edges(), e);
    let e4 = e3 + t.4.edges();
    lemma_in_either(e3, t.4.edges(), e);
    let e5 = e4 + t.5.edges();
    lemma_in_either(e4, t.5.edges(), e);
    let e6 = e5 + t.6.edges();
    lemma_in_either(e5, t.6.edges(), e);
}

/// A tuple of eight holds what one of its parts holds, shows its parts in order, needs tracing if one
/// of them does, and is zero if all of them are.
pub proof fn tuple_of_eight_holds_its_parts<A: Collect, B: Collect, D: Collect, E: Collect, F: Collect, G: Collect, H: Collect, I: Collect>(t: (A, B, D, E, F, G, H, I), e: Edge)
    ensures
        t.edges().contains(e) <==> t.0.edges().contains(e)
            || t.1.edges().contains(e)
            || t.2.edges().contains(e)
            || t.3.edges().contains(e)
            || t.4.edges().contains(e)
            || t.5.edges().contains(e)
            || t.6.edges().contains(e)
            || t.7.edges().contains(e),
        t.edges() == t.0.edges() + t.1.edges() + t.2.edges() + t.3.edges() + t.4.edges() + t.5.edges() + t.6.edges() + t.7.edges(),
        <(A, B, D, E, F, G, H, I) as Collect>::spec_needs_trace() <==> A::spec_needs_trace()
            || B::spec_needs_trace()
            || D::spec_needs_trace()
            || E::spec_needs_trace()
            || F::spec_needs_trace()
            || G::spec_needs_trace()
            || H::spec_needs_trace()
            || I::spec_needs_trace(),
        <(A, B, D, E, F, G, H, I) as Collect>::spec_zeroed() matches Some(zero) ==> A::spec_zeroed() == Some(zero.0)
            && B::spec_zeroed() == Some(zero.1)
            && D::spec_zeroed() == Some(zero.2)
            && E::spec_zeroed() == Some(zero.3)
            && F::spec_zeroed() == Some(zero.4)
            && G::spec_zeroed() == Some(zero.5)
            && H::spec_zeroed() == Some(zero.6)
            && I::spec_zeroed() == Some(zero.7),
        <(A, B, D, E, F, G, H, I) as Collect>::spec_zeroed() is None ==> A::spec_zeroed() is None
            || B::spec_zeroed() is None
            || D::spec_zeroed() is None
            || E::spec_zeroed() is None
            || F::spec_zeroed() is None
            || G::spec_zeroed() is None
            || H::spec_zeroed() is None
            || I::spec_zeroed() is None,
{
    let e0 = t.0.edges();
    let e1 = e0 + t.1.edges();
    lemma_in_either(e0, t.1.edges(), e);
    let e2 = e1 + t.2.edges();
    lemma_in_either(e1, t.2.edges(), e);
    let e3 = e2 + t.3.edges();
    lemma_in_either(e2, t.3.edges(), e);
    let e4 = e3 + t.4.edges();
    lemma_in_either(e3, t.4.edges(), e);
    let e5 = e4 + t.5.edges();
    lemma_in_either(e4, t.5.edges(), e);
    let e6 = e5 + t.6.edges();
    lemma_in_either(e5, t.6.edges(), e);
    let e7 = e6 + t.7.edges();
    lemma_in_either(e6, t.7.edges(), e);
}

/// A tuple of nine holds what one of its parts holds, shows its parts in order, needs tracing if one
/// of them does, and is zero if all of them are.
pub proof fn tuple_of_nine_holds_its_parts<A: Collect, B: Collect, D: Collect, E: Collect, F: Collect, G: Collect, H: Collect, I: Collect, J: Collect>(t: (A, B, D, E, F, G, H, I, J), e: Edge)
    ensures
        t.edges().contains(e) <==> t.0.edges().contains(e)
            || t.1.edges().contains(e)
            || t.2.edges().contains(e)
            || t.3.edges().contains(e)
            || t.4.edges().contains(e)
            || t.5.edges().contains(e)
            || t.6.edges().contains(e)
            || t.7.edges().contains(e)
            || t.8.edges().contains(e),
        t.edges() == t.0.edges() + t.1.edges() + t.2.edges() + t.3.edges() + t.4.edges() + t.5.edges() + t.6.edges() + t.7.edges() + t.8.edges(),
        <(A, B, D, E, F, G, H, I, J) as Collect>::spec_needs_trace() <==> A::spec_needs_trace()
            || B::spec_needs_trace()
            || D::spec_needs_trace()
            || E::spec_needs_trace()
            || F::spec_needs_trace()
            || G::spec_needs_trace()
            || H::spec_needs_trace()
            || I::spec_needs_trace()
            || J::spec_needs_trace(),
        <(A, B, D, E, F, G, H, I, J) as Collect>::spec_zeroed() matches Some(zero) ==> A::spec_zeroed() == Some(zero.0)
            && B::spec_zeroed() == Some(zero.1)
            && D::spec_zeroed() == Some(zero.2)
            && E::spec_zeroed() == Some(zero.3)
            && F::spec_zeroed() == Some(zero.4)
            && G::spec_zeroed() == Some(zero.5)
            && H::spec_zeroed() == Some(zero.6)
            && I::spec_zeroed() == Some(zero.7)
            && J::spec_zeroed() == Some(zero.8),
        <(A, B, D, E, F, G, H, I, J) as Collect>::spec_zeroed() is None ==> A::spec_zeroed() is None
            || B::spec_zeroed() is None
            || D::spec_zeroed() is None
            || E::spec_zeroed() is None
            || F::spec_zeroed() is None
            || G::spec_zeroed() is None
            || H::spec_zeroed() is None
            || I::spec_zeroed() is None
            || J::spec_zeroed() is None,
{
    let e0 = t.0.edges();
    let e1 = e0 + t.1.edges();
    lemma_in_either(e0, t.1.edges(), e);
    let e2 = e1 + t.2.edges();
    lemma_in_either(e1, t.2.edges(), e);
    let e3 = e2 + t.3.edges();
    lemma_in_either(e2, t.3.edges(), e);
    let e4 = e3 + t.4.edges();
    lemma_in_either(e3, t.4.edges(), e);
    let e5 = e4 + t.5.edges();
    lemma_in_either(e4, t.5.edges(), e);
    let e6 = e5 + t.6.edges();
    lemma_in_either(e5, t.6.edges(), e);
    let e7 = e6 + t.7.edges();
    lemma_in_either(e6, t.7.edges(), e);
    let e8 = e7 + t.8.edges();
    lemma_in_either(e7, t.8.edges(), e);
}

/// A tuple of ten holds what one of its parts holds, shows its parts in order, needs tracing if one
/// of them does, and is zero if all of them are.
pub proof fn tuple_of_ten_holds_its_parts<A: Collect, B: Collect, D: Collect, E: Collect, F: Collect, G: Collect, H: Collect, I: Collect, J: Collect, K: Collect>(t: (A, B, D, E, F, G, H, I, J, K), e: Edge)
    ensures
        t.edges().contains(e) <==> t.0.edges().contains(e)
            || t.1.edges().contains(e)
            || t.2.edges().contains(e)
            || t.3.edges().contains(e)
            || t.4.edges().contains(e)
            || t.5.edges().contains(e)
            || t.6.edges().contains(e)
            || t.7.edges().contains(e)
            || t.8.edges().contains(e)
            || t.9.edges().contains(e),
        t.edges() == t.0.edges() + t.1.edges() + t.2.edges() + t.3.edges() + t.4.edges() + t.5.edges() + t.6.edges() + t.7.edges() + t.8.edges() + t.9.edges(),
        <(A, B, D, E, F, G, H, I, J, K) as Collect>::spec_needs_trace() <==> A::spec_needs_trace()
            || B::spec_needs_trace()
            || D::spec_needs_trace()
            || E::spec_needs_trace()
            || F::spec_needs_trace()
            || G::spec_needs_trace()
            || H::spec_needs_trace()
            || I::spec_needs_trace()
            || J::spec_needs_trace()
            || K::spec_needs_trace(),
        <(A, B, D, E, F, G, H, I, J, K) as Collect>::spec_zeroed() matches Some(zero) ==> A::spec_zeroed() == Some(zero.0)
            && B::spec_zeroed() == Some(zero.1)
            && D::spec_zeroed() == Some(zero.2)
            && E::spec_zeroed() == Some(zero.3)
            && F::spec_zeroed() == Some(zero.4)
            && G::spec_zeroed() == Some(zero.5)
            && H::spec_zeroed() == Some(zero.6)
            && I::spec_zeroed() == Some(zero.7)
            && J::spec_zeroed() == Some(zero.8)
            && K::spec_zeroed() == Some(zero.9),
        <(A, B, D, E, F, G, H, I, J, K) as Collect>::spec_zeroed() is None ==> A::spec_zeroed() is None
            || B::spec_zeroed() is None
            || D::spec_zeroed() is None
            || E::spec_zeroed() is None
            || F::spec_zeroed() is None
            || G::spec_zeroed() is None
            || H::spec_zeroed() is None
            || I::spec_zeroed() is None
            || J::spec_zeroed() is None
            || K::spec_zeroed() is None,
{
    let e0 = t.0.edges();
    let e1 = e0 + t.1.edges();
    lemma_in_either(e0, t.1.edges(), e);
    let e2 = e1 + t.2.edges();
    lemma_in_either(e1, t.2.edges(), e);
    let e3 = e2 + t.3.edges();
    lemma_in_either(e2, t.3.edges(), e);
    let e4 = e3 + t.4.edges();
    lemma_in_either(e3, t.4.edges(), e);
    let e5 = e4 + t.5.edges();
    lemma_in_either(e4, t.5.edges(), e);
    let e6 = e5 + t.6.edges();
    lemma_in_either(e5, t.6.edges(), e);
    let e7 = e6 + t.7.edges();
    lemma_in_either(e6, t.7.edges(), e);
    let e8 = e7 + t.8.edges();
    lemma_in_either(e7, t.8.edges(), e);
    let e9 = e8 + t.9.edges();
    lemma_in_either(e8, t.9.edges(), e);
}

/// A tuple of eleven holds what one of its parts holds, shows its parts in order, needs tracing if one
/// of them does, and is zero if all of them are.
pub proof fn tuple_of_eleven_holds_its_parts<A: Collect, B: Collect, D: Collect, E: Collect, F: Collect, G: Collect, H: Collect, I: Collect, J: Collect, K: Collect, L: Collect>(t: (A, B, D, E, F, G, H, I, J, K, L), e: Edge)
    ensures
        t.edges().contains(e) <==> t.0.edges().contains(e)
            || t.1.edges().contains(e)
            || t.2.edges().contains(e)
            || t.3.edges().contains(e)
            || t.4.edges().contains(e)
            || t.5.edges().contains(e)
            || t.6.edges().contains(e)
            || t.7.edges().contains(e)
            || t.8.edges().contains(e)
            || t.9.edges().contains(e)
            || t.10.edges().contains(e),
        t.edges() == t.0.edges() + t.1.edges() + t.2.edges() + t.3.edges() + t.4.edges() + t.5.edges() + t.6.edges() + t.7.edges() + t.8.edges() + t.9.edges() + t.10.edges(),
        <(A, B, D, E, F, G, H, I, J, K, L) as Collect>::spec_needs_trace() <==> A::spec_needs_trace()
            || B::spec_needs_trace()
            || D::spec_needs_trace()
            || E::spec_needs_trace()
            || F::spec_needs_trace()
            || G::spec_needs_trace()
            || H::spec_needs_trace()
            || I::spec_needs_trace()
            || J::spec_needs_trace()
            || K::spec_needs_trace()
            || L::spec_needs_trace(),
        <(A, B, D, E, F, G, H, I, J, K, L) as Collect>::spec_zeroed() matches Some(zero) ==> A::spec_zeroed() == Some(zero.0)
            && B::spec_zeroed() == Some(zero.1)
            && D::spec_zeroed() == Some(zero.2)
            && E::spec_zeroed() == Some(zero.3)
            && F::spec_zeroed() == Some(zero.4)
            && G::spec_zeroed() == Some(zero.5)
            && H::spec_zeroed() == Some(zero.6)
            && I::spec_zeroed() == Some(zero.7)
            && J::spec_zeroed() == Some(zero.8)
            && K::spec_zeroed() == Some(zero.9)
            && L::spec_zeroed() == Some(zero.10),
        <(A, B, D, E, F, G, H, I, J, K, L) as Collect>::spec_zeroed() is None ==> A::spec_zeroed() is None
            || B::spec_zeroed() is None
            || D::spec_zeroed() is None
            || E::spec_zeroed() is None
            || F::spec_zeroed() is None
            || G::spec_zeroed() is None
            || H::spec_zeroed() is None
            || I::spec_zeroed() is None
            || J::spec_zeroed() is None
            || K::spec_zeroed() is None
            || L::spec_zeroed() is None,
{
    let e0 = t.0.edges();
    let e1 = e0 + t.1.edges();
    lemma_in_either(e0, t.1.edges(), e);
    let e2 = e1 + t.2.edges();
    lemma_in_either(e1, t.2.edges(), e);
    let e3 = e2 + t.3.edges();
    lemma_in_either(e2, t.3.edges(), e);
    let e4 = e3 + t.4.edges();
    lemma_in_either(e3, t.4.edges(), e);
    let e5 = e4 + t.5.edges();
    lemma_in_either(e4, t.5.edges(), e);
    let e6 = e5 + t.6.edges();
    lemma_in_either(e5, t.6.edges(), e);
    let e7 = e6 + t.7.edges();
    lemma_in_either(e6, t.7.edges(), e);
    let e8 = e7 + t.8.edges();
    lemma_in_either(e7, t.8.edges(), e);
    let e9 = e8 + t.9.edges();
    lemma_in_either(e8, t.9.edges(), e);
    let e10 = e9 + t.10.edges();
    lemma_in_either(e9, t.10.edges(), e);
}

/// A tuple of twelve holds what one of its parts holds, shows its parts in order, needs tracing if one
/// of them does, and is zero if all of them are.
pub proof fn tuple_of_twelve_holds_its_parts<A: Collect, B: Collect, D: Collect, E: Collect, F: Collect, G: Collect, H: Collect, I: Collect, J: Collect, K: Collect, L: Collect, M: Collect>(t: (A, B, D, E, F, G, H, I, J, K, L, M), e: Edge)
    ensures
        t.edges().contains(e) <==> t.0.edges().contains(e)
            || t.1.edges().contains(e)
            || t.2.edges().contains(e)
            || t.3.edges().contains(e)
            || t.4.edges().contains(e)
            || t.5.edges().contains(e)
            || t.6.edges().contains(e)
            || t.7.edges().contains(e)
            || t.8.edges().contains(e)
            || t.9.edges().contains(e)
            || t.10.edges().contains(e)
            || t.11.edges().contains(e),
        t.edges() == t.0.edges() + t.1.edges() + t.2.edges() + t.3.edges() + t.4.edges() + t.5.edges() + t.6.edges() + t.7.edges() + t.8.edges() + t.9.edges() + t.10.edges() + t.11.edges(),
        <(A, B, D, E, F, G, H, I, J, K, L, M) as Collect>::spec_needs_trace() <==> A::spec_needs_trace()
            || B::spec_needs_trace()
            || D::spec_needs_trace()
            || E::spec_needs_trace()
            || F::spec_needs_trace()
            || G::spec_needs_trace()
            || H::spec_needs_trace()
            || I::spec_needs_trace()
            || J::spec_needs_trace()
            || K::spec_needs_trace()
            || L::spec_needs_trace()
            || M::spec_needs_trace(),
        <(A, B, D, E, F, G, H, I, J, K, L, M) as Collect>::spec_zeroed() matches Some(zero) ==> A::spec_zeroed() == Some(zero.0)
            && B::spec_zeroed() == Some(zero.1)
            && D::spec_zeroed() == Some(zero.2)
            && E::spec_zeroed() == Some(zero.3)
            && F::spec_zeroed() == Some(zero.4)
            && G::spec_zeroed() == Some(zero.5)
            && H::spec_zeroed() == Some(zero.6)
            && I::spec_zeroed() == Some(zero.7)
            && J::spec_zeroed() == Some(zero.8)
            && K::spec_zeroed() == Some(zero.9)
            && L::spec_zeroed() == Some(zero.10)
            && M::spec_zeroed() == Some(zero.11),
        <(A, B, D, E, F, G, H, I, J, K, L, M) as Collect>::spec_zeroed() is None ==> A::spec_zeroed() is None
            || B::spec_zeroed() is None
            || D::spec_zeroed() is None
            || E::spec_zeroed() is None
            || F::spec_zeroed() is None
            || G::spec_zeroed() is None
            || H::spec_zeroed() is None
            || I::spec_zeroed() is None
            || J::spec_zeroed() is None
            || K::spec_zeroed() is None
            || L::spec_zeroed() is None
            || M::spec_zeroed() is None,
{
    let e0 = t.0.edges();
    let e1 = e0 + t.1.edges();
    lemma_in_either(e0, t.1.edges(), e);
    let e2 = e1 + t.2.edges();
    lemma_in_either(e1, t.2.edges(), e);
    let e3 = e2 + t.3.edges();
    lemma_in_either(e2, t.3.edges(), e);
    let e4 = e3 + t.4.edges();
    lemma_in_either(e3, t.4.edges(), e);
    let e5 = e4 + t.5.edges();
    lemma_in_either(e4, t.5.edges(), e);
    let e6 = e5 + t.6.edges();
    lemma_in_either(e5, t.6.edges(), e);
    let e7 = e6 + t.7.edges();
    lemma_in_either(e6, t.7.edges(), e);
    let e8 = e7 + t.8.edges();
    lemma_in_either(e7, t.8.edges(), e);
    let e9 = e8 + t.9.edges();
    lemma_in_either(e8, t.9.edges(), e);
    let e10 = e9 + t.10.edges();
    lemma_in_either(e9, t.10.edges(), e);
    let e11 = e10 + t.11.edges();
    lemma_in_either(e10, t.11.edges(), e);
}

/// A tuple of thirteen holds what one of its parts holds, shows its parts in order, needs tracing if one
/// of them does, and is zero if all of them are.
pub proof fn tuple_of_thirteen_holds_its_parts<A: Collect, B: Collect, D: Collect, E: Collect, F: Collect, G: Collect, H: Collect, I: Collect, J: Collect, K: Collect, L: Collect, M: Collect, N: Collect>(t: (A, B, D, E, F, G, H, I, J, K, L, M, N), e: Edge)
    ensures
        t.edges().contains(e) <==> t.0.edges().contains(e)
            || t.1.edges().contains(e)
            || t.2.edges().contains(e)
            || t.3.edges().contains(e)
            || t.4.edges().contains(e)
            || t.5.edges().contains(e)
            || t.6.edges().contains(e)
            || t.7.edges().contains(e)
            || t.8.edges().contains(e)
            || t.9.edges().contains(e)
            || t.10.edges().contains(e)
            || t.11.edges().contains(e)
            || t.12.edges().contains(e),
        t.edges() == t.0.edges() + t.1.edges() + t.2.edges() + t.3.edges() + t.4.edges() + t.5.edges() + t.6.edges() + t.7.edges() + t.8.edges() + t.9.edges() + t.10.edges() + t.11.edges() + t.12.edges(),
        <(A, B, D, E, F, G, H, I, J, K, L, M, N) as Collect>::spec_needs_trace() <==> A::spec_needs_trace()
            || B::spec_needs_trace()
            || D::spec_needs_trace()
            || E::spec_needs_trace()
            || F::spec_needs_trace()
            || G::spec_needs_trace()
            || H::spec_needs_trace()
            || I::spec_needs_trace()
            || J::spec_needs_trace()
            || K::spec_needs_trace()
            || L::spec_needs_trace()
            || M::spec_needs_trace()
            || N::spec_needs_trace(),
        <(A, B, D, E, F, G, H, I, J, K, L, M, N) as Collect>::spec_zeroed() matches Some(zero) ==> A::spec_zeroed() == Some(zero.0)
            && B::spec_zeroed() == Some(zero.1)
            && D::spec_zeroed() == Some(zero.2)
            && E::spec_zeroed() == Some(zero.3)
            && F::spec_zeroed() == Some(zero.4)
            && G::spec_zeroed() == Some(zero.5)
            && H::spec_zeroed() == Some(zero.6)
            && I::spec_zeroed() == Some(zero.7)
            && J::spec_zeroed() == Some(zero.8)
            && K::spec_zeroed() == Some(zero.9)
            && L::spec_zeroed() == Some(zero.10)
            && M::spec_zeroed() == Some(zero.11)
            && N::spec_zeroed() == Some(zero.12),
        <(A, B, D, E, F, G, H, I, J, K, L, M, N) as Collect>::spec_zeroed() is None ==> A::spec_zeroed() is None
            || B::spec_zeroed() is None
            || D::spec_zeroed() is None
            || E::spec_zeroed() is None
            || F::spec_zeroed() is None
            || G::spec_zeroed() is None
            || H::spec_zeroed() is None
            || I::spec_zeroed() is None
            || J::spec_zeroed() is None
            || K::spec_zeroed() is None
            || L::spec_zeroed() is None
            || M::spec_zeroed() is None
            || N::spec_zeroed() is None,
{
    let e0 = t.0.edges();
    let e1 = e0 + t.1.edges();
    lemma_in_either(e0, t.1.edges(), e);
    let e2 = e1 + t.2.edges();
    lemma_in_either(e1, t.2.edges(), e);
    let e3 = e2 + t.3.edges();
    lemma_in_either(e2, t.3.edges(), e);
    let e4 = e3 + t.4.edges();
    lemma_in_either(e3, t.4.edges(), e);
    let e5 = e4 + t.5.edges();
    lemma_in_either(e4, t.5.edges(), e);
    let e6 = e5 + t.6.edges();
    lemma_in_either(e5, t.6.edges(), e);
    let e7 = e6 + t.7.edges();
    lemma_in_either(e6, t.7.edges(), e);
    let e8 = e7 + t.8.edges();
    lemma_in_either(e7, t.8.edges(), e);
    let e9 = e8 + t.9.edges();
    lemma_in_either(e8, t.9.edges(), e);
    let e10 = e9 + t.10.edges();
    lemma_in_either(e9, t.10.edges(), e);
    let e11 = e10 + t.11.edges();
    lemma_in_either(e10, t.11.edges(), e);
    let e12 = e11 + t.12.edges();
    lemma_in_either(e11, t.12.edges(), e);
}

/// A tuple of fourteen holds what one of its parts holds, shows its parts in order, needs tracing if one
/// of them does, and is zero if all of them are.
pub proof fn tuple_of_fourteen_holds_its_parts<A: Collect, B: Collect, D: Collect, E: Collect, F: Collect, G: Collect, H: Collect, I: Collect, J: Collect, K: Collect, L: Collect, M: Collect, N: Collect, O: Collect>(t: (A, B, D, E, F, G, H, I, J, K, L, M, N, O), e: Edge)
    ensures
        t.edges().contains(e) <==> t.0.edges().contains(e)
            || t.1.edges().contains(e)
            || t.2.edges().contains(e)
            || t.3.edges().contains(e)
            || t.4.edges().contains(e)
            || t.5.edges().contains(e)
            || t.6.edges().contains(e)
            || t.7.edges().contains(e)
            || t.8.edges().contains(e)
            || t.9.edges().contains(e)
            || t.10.edges().contains(e)
            || t.11.edges().contains(e)
            || t.12.edges().contains(e)
            || t.13.edges().contains(e),
        t.edges() == t.0.edges() + t.1.edges() + t.2.edges() + t.3.edges() + t.4.edges() + t.5.edges() + t.6.edges() + t.7.edges() + t.8.edges() + t.9.edges() + t.10.edges() + t.11.edges() + t.12.edges() + t.13.edges(),
        <(A, B, D, E, F, G, H, I, J, K, L, M, N, O) as Collect>::spec_needs_trace() <==> A::spec_needs_trace()
            || B::spec_needs_trace()
            || D::spec_needs_trace()
            || E::spec_needs_trace()
            || F::spec_needs_trace()
            || G::spec_needs_trace()
            || H::spec_needs_trace()
            || I::spec_needs_trace()
            || J::spec_needs_trace()
            || K::spec_needs_trace()
            || L::spec_needs_trace()
            || M::spec_needs_trace()
            || N::spec_needs_trace()
            || O::spec_needs_trace(),
        <(A, B, D, E, F, G, H, I, J, K, L, M, N, O) as Collect>::spec_zeroed() matches Some(zero) ==> A::spec_zeroed() == Some(zero.0)
            && B::spec_zeroed() == Some(zero.1)
            && D::spec_zeroed() == Some(zero.2)
            && E::spec_zeroed() == Some(zero.3)
            && F::spec_zeroed() == Some(zero.4)
            && G::spec_zeroed() == Some(zero.5)
            && H::spec_zeroed() == Some(zero.6)
            && I::spec_zeroed() == Some(zero.7)
            && J::spec_zeroed() == Some(zero.8)
            && K::spec_zeroed() == Some(zero.9)
            && L::spec_zeroed() == Some(zero.10)
            && M::spec_zeroed() == Some(zero.11)
            && N::spec_zeroed() == Some(zero.12)
            && O::spec_zeroed() == Some(zero.13),
        <(A, B, D, E, F, G, H, I, J, K, L, M, N, O) as Collect>::spec_zeroed() is None ==> A::spec_zeroed() is None
            || B::spec_zeroed() is None
            || D::spec_zeroed() is None
            || E::spec_zeroed() is None
            || F::spec_zeroed() is None
            || G::spec_zeroed() is None
            || H::spec_zeroed() is None
            || I::spec_zeroed() is None
            || J::spec_zeroed() is None
            || K::spec_zeroed() is None
            || L::spec_zeroed() is None
            || M::spec_zeroed() is None
            || N::spec_zeroed() is None
            || O::spec_zeroed() is None,
{
    let e0 = t.0.edges();
    let e1 = e0 + t.1.edges();
    lemma_in_either(e0, t.1.edges(), e);
    let e2 = e1 + t.2.edges();
    lemma_in_either(e1, t.2.edges(), e);
    let e3 = e2 + t.3.edges();
    lemma_in_either(e2, t.3.edges(), e);
    let e4 = e3 + t.4.edges();
    lemma_in_either(e3, t.4.edges(), e);
    let e5 = e4 + t.5.edges();
    lemma_in_either(e4, t.5.edges(), e);
    let e6 = e5 + t.6.edges();
    lemma_in_either(e5, t.6.edges(), e);
    let e7 = e6 + t.7.edges();
    lemma_in_either(e6, t.7.edges(), e);
    let e8 = e7 + t.8.edges();
    lemma_in_either(e7, t.8.edges(), e);
    let e9 = e8 + t.9.edges();
    lemma_in_either(e8, t.9.edges(), e);
    let e10 = e9 + t.10.edges();
    lemma_in_either(e9, t.10.edges(), e);
    let e11 = e10 + t.11.edges();
    lemma_in_either(e10, t.11.edges(), e);
    let e12 = e11 + t.12.edges();
    lemma_in_either(e11, t.12.edges(), e);
    let e13 = e12 + t.13.edges();
    lemma_in_either(e12, t.13.edges(), e);
}

/// A tuple of fifteen holds what one of its parts holds, shows its parts in order, needs tracing if one
/// of them does, and is zero if all of them are.
pub proof fn tuple_of_fifteen_holds_its_parts<A: Collect, B: Collect, D: Collect, E: Collect, F: Collect, G: Collect, H: Collect, I: Collect, J: Collect, K: Collect, L: Collect, M: Collect, N: Collect, O: Collect, P: Collect>(t: (A, B, D, E, F, G, H, I, J, K, L, M, N, O, P), e: Edge)
    ensures
        t.edges().contains(e) <==> t.0.edges().contains(e)
            || t.1.edges().contains(e)
            || t.2.edges().contains(e)
            || t.3.edges().contains(e)
            || t.4.edges().contains(e)
            || t.5.edges().contains(e)
            || t.6.edges().contains(e)
            || t.7.edges().contains(e)
            || t.8.edges().contains(e)
            || t.9.edges().contains(e)
            || t.10.edges().contains(e)
            || t.11.edges().contains(e)
            || t.12.edges().contains(e)
            || t.13.edges().contains(e)
            || t.14.edges().contains(e),
        t.edges() == t.0.edges() + t.1.edges() + t.2.edges() + t.3.edges() + t.4.edges() + t.5.edges() + t.6.edges() + t.7.edges() + t.8.edges() + t.9.edges() + t.10.edges() + t.11.edges() + t.12.edges() + t.13.edges() + t.14.edges(),
        <(A, B, D, E, F, G, H, I, J, K, L, M, N, O, P) as Collect>::spec_needs_trace() <==> A::spec_needs_trace()
            || B::spec_needs_trace()
            || D::spec_needs_trace()
            || E::spec_needs_trace()
            || F::spec_needs_trace()
            || G::spec_needs_trace()
            || H::spec_needs_trace()
            || I::spec_needs_trace()
            || J::spec_needs_trace()
            || K::spec_needs_trace()
            || L::spec_needs_trace()
            || M::spec_needs_trace()
            || N::spec_needs_trace()
            || O::spec_needs_trace()
            || P::spec_needs_trace(),
        <(A, B, D, E, F, G, H, I, J, K, L, M, N, O, P) as Collect>::spec_zeroed() matches Some(zero) ==> A::spec_zeroed() == Some(zero.0)
            && B::spec_zeroed() == Some(zero.1)
            && D::spec_zeroed() == Some(zero.2)
            && E::spec_zeroed() == Some(zero.3)
            && F::spec_zeroed() == Some(zero.4)
            && G::spec_zeroed() == Some(zero.5)
            && H::spec_zeroed() == Some(zero.6)
            && I::spec_zeroed() == Some(zero.7)
            && J::spec_zeroed() == Some(zero.8)
            && K::spec_zeroed() == Some(zero.9)
            && L::spec_zeroed() == Some(zero.10)
            && M::spec_zeroed() == Some(zero.11)
            && N::spec_zeroed() == Some(zero.12)
            && O::spec_zeroed() == Some(zero.13)
            && P::spec_zeroed() == Some(zero.14),
        <(A, B, D, E, F, G, H, I, J, K, L, M, N, O, P) as Collect>::spec_zeroed() is None ==> A::spec_zeroed() is None
            || B::spec_zeroed() is None
            || D::spec_zeroed() is None
            || E::spec_zeroed() is None
            || F::spec_zeroed() is None
            || G::spec_zeroed() is None
            || H::spec_zeroed() is None
            || I::spec_zeroed() is None
            || J::spec_zeroed() is None
            || K::spec_zeroed() is None
            || L::spec_zeroed() is None
            || M::spec_zeroed() is None
            || N::spec_zeroed() is None
            || O::spec_zeroed() is None
            || P::spec_zeroed() is None,
{
    let e0 = t.0.edges();
    let e1 = e0 + t.1.edges();
    lemma_in_either(e0, t.1.edges(), e);
    let e2 = e1 + t.2.edges();
    lemma_in_either(e1, t.2.edges(), e);
    let e3 = e2 + t.3.edges();
    lemma_in_either(e2, t.3.edges(), e);
    let e4 = e3 + t.4.edges();
    lemma_in_either(e3, t.4.edges(), e);
    let e5 = e4 + t.5.edges();
    lemma_in_either(e4, t.5.edges(), e);
    let e6 = e5 + t.6.edges();
    lemma_in_either(e5, t.6.edges(), e);
    let e7 = e6 + t.7.edges();
    lemma_in_either(e6, t.7.edges(), e);
    let e8 = e7 + t.8.edges();
    lemma_in_either(e7, t.8.edges(), e);
    let e9 = e8 + t.9.edges();
    lemma_in_either(e8, t.9.edges(), e);
    let e10 = e9 + t.10.edges();
    lemma_in_either(e9, t.10.edges(), e);
    let e11 = e10 + t.11.edges();
    lemma_in_either(e10, t.11.edges(), e);
    let e12 = e11 + t.12.edges();
    lemma_in_either(e11, t.12.edges(), e);
    let e13 = e12 + t.13.edges();
    lemma_in_either(e12, t.13.edges(), e);
    let e14 = e13 + t.14.edges();
    lemma_in_either(e13, t.14.edges(), e);
}

/// A tuple of sixteen holds what one of its parts holds, shows its parts in order, needs tracing if one
/// of them does, and is zero if all of them are.
pub proof fn tuple_of_sixteen_holds_its_parts<A: Collect, B: Collect, D: Collect, E: Collect, F: Collect, G: Collect, H: Collect, I: Collect, J: Collect, K: Collect, L: Collect, M: Collect, N: Collect, O: Collect, P: Collect, Q: Collect>(t: (A, B, D, E, F, G, H, I, J, K, L, M, N, O, P, Q), e: Edge)
    ensures
        t.edges().contains(e) <==> t.0.edges().contains(e)
            || t.1.edges().contains(e)
            || t.2.edges().contains(e)
            || t.3.edges().contains(e)
            || t.4.edges().contains(e)
            || t.5.edges().contains(e)
            || t.6.edges().contains(e)
            || t.7.edges().contains(e)
            || t.8.edges().contains(e)
            || t.9.edges().contains(e)
            || t.10.edges().contains(e)
            || t.11.edges().contains(e)
            || t.12.edges().contains(e)
            || t.13.edges().contains(e)
            || t.14.edges().contains(e)
            || t.15.edges().contains(e),
        t.edges() == t.0.edges() + t.1.edges() + t.2.edges() + t.3.edges() + t.4.edges() + t.5.edges() + t.6.edges() + t.7.edges() + t.8.edges() + t.9.edges() + t.10.edges() + t.11.edges() + t.12.edges() + t.13.edges() + t.14.edges() + t.15.edges(),
        <(A, B, D, E, F, G, H, I, J, K, L, M, N, O, P, Q) as Collect>::spec_needs_trace() <==> A::spec_needs_trace()
            || B::spec_needs_trace()
            || D::spec_needs_trace()
            || E::spec_needs_trace()
            || F::spec_needs_trace()
            || G::spec_needs_trace()
            || H::spec_needs_trace()
            || I::spec_needs_trace()
            || J::spec_needs_trace()
            || K::spec_needs_trace()
            || L::spec_needs_trace()
            || M::spec_needs_trace()
            || N::spec_needs_trace()
            || O::spec_needs_trace()
            || P::spec_needs_trace()
            || Q::spec_needs_trace(),
        <(A, B, D, E, F, G, H, I, J, K, L, M, N, O, P, Q) as Collect>::spec_zeroed() matches Some(zero) ==> A::spec_zeroed() == Some(zero.0)
            && B::spec_zeroed() == Some(zero.1)
            && D::spec_zeroed() == Some(zero.2)
            && E::spec_zeroed() == Some(zero.3)
            && F::spec_zeroed() == Some(zero.4)
            && G::spec_zeroed() == Some(zero.5)
            && H::spec_zeroed() == Some(zero.6)
            && I::spec_zeroed() == Some(zero.7)
            && J::spec_zeroed() == Some(zero.8)
            && K::spec_zeroed() == Some(zero.9)
            && L::spec_zeroed() == Some(zero.10)
            && M::spec_zeroed() == Some(zero.11)
            && N::spec_zeroed() == Some(zero.12)
            && O::spec_zeroed() == Some(zero.13)
            && P::spec_zeroed() == Some(zero.14)
            && Q::spec_zeroed() == Some(zero.15),
        <(A, B, D, E, F, G, H, I, J, K, L, M, N, O, P, Q) as Collect>::spec_zeroed() is None ==> A::spec_zeroed() is None
            || B::spec_zeroed() is None
            || D::spec_zeroed() is None
            || E::spec_zeroed() is None
            || F::spec_zeroed() is None
            || G::spec_zeroed() is None
            || H::spec_zeroed() is None
            || I::spec_zeroed() is None
            || J::spec_zeroed() is None
            || K::spec_zeroed() is None
            || L::spec_zeroed() is None
            || M::spec_zeroed() is None
            || N::spec_zeroed() is None
            || O::spec_zeroed() is None
            || P::spec_zeroed() is None
            || Q::spec_zeroed() is None,
{
    let e0 = t.0.edges();
    let e1 = e0 + t.1.edges();
    lemma_in_either(e0, t.1.edges(), e);
    let e2 = e1 + t.2.edges();
    lemma_in_either(e1, t.2.edges(), e);
    let e3 = e2 + t.3.edges();
    lemma_in_either(e2, t.3.edges(), e);
    let e4 = e3 + t.4.edges();
    lemma_in_either(e3, t.4.edges(), e);
    let e5 = e4 + t.5.edges();
    lemma_in_either(e4, t.5.edges(), e);
    let e6 = e5 + t.6.edges();
    lemma_in_either(e5, t.6.edges(), e);
    let e7 = e6 + t.7.edges();
    lemma_in_either(e6, t.7.edges(), e);
    let e8 = e7 + t.8.edges();
    lemma_in_either(e7, t.8.edges(), e);
    let e9 = e8 + t.9.edges();
    lemma_in_either(e8, t.9.edges(), e);
    let e10 = e9 + t.10.edges();
    lemma_in_either(e9, t.10.edges(), e);
    let e11 = e10 + t.11.edges();
    lemma_in_either(e10, t.11.edges(), e);
    let e12 = e11 + t.12.edges();
    lemma_in_either(e11, t.12.edges(), e);
    let e13 = e12 + t.13.edges();
    lemma_in_either(e12, t.13.edges(), e);
    let e14 = e13 + t.14.edges();
    lemma_in_either(e13, t.14.edges(), e);
    let e15 = e14 + t.15.edges();
    lemma_in_either(e14, t.15.edges(), e);
}

} // verus!
