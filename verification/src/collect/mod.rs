//! What a value must tell the collector about the pointers it holds.

use crate::gc::{Gc, Unique, Weak};
use crate::types::GcBox;
use std::collections::VecDeque;
use vstd::prelude::*;

pub mod imp;
pub mod laws;
pub mod ordered;
pub mod tuples;

verus! {

/// A pointer held by a value.
#[derive(Clone, Copy, Debug, PartialEq, Eq, Structural)]
pub enum Edge {
    /// Keeps its target alive.
    Strong(GcBox),
    /// Keeps the box of its target, but not the contents.
    Weak(GcBox),
}

impl Edge {
    pub open spec fn target(self) -> GcBox {
        match self {
            Edge::Strong(b) => b,
            Edge::Weak(b) => b,
        }
    }
}

/// A visitor of the pointers that a value holds.
///
/// The marking of the collector is one; the trait leaves room for others. What a visitor does is
/// given as a step function on its state.
pub trait Trace: Sized {
    /// What the visitor keeps track of.
    type State;

    spec fn state(&self) -> Self::State;

    /// The invariant of the visitor.
    spec fn wf(&self) -> bool;

    /// Whether a visitor in state `s` may be shown the pointer `e`.
    spec fn ready(s: Self::State, e: Edge) -> bool;

    /// The state after a visitor in state `s` was shown the pointer `e`.
    spec fn step(s: Self::State, e: Edge) -> Self::State;

    /// What may be shown to a visitor may still be shown after another pointer.
    proof fn step_keeps_ready(s: Self::State, e: Edge, f: Edge)
        requires
            Self::ready(s, f),
        ensures
            Self::ready(Self::step(s, e), f),
    ;

    /// Visits a strong pointer.
    fn trace_gc<T, M>(&mut self, gc: Gc<T, M>)
        requires
            old(self).wf(),
            Self::ready(old(self).state(), Edge::Strong(gc.ptr)),
        ensures
            final(self).wf(),
            final(self).state() == Self::step(old(self).state(), Edge::Strong(gc.ptr)),
    ;

    /// Visits a weak pointer.
    fn trace_weak<T, M>(&mut self, gc: Weak<T, M>)
        requires
            old(self).wf(),
            Self::ready(old(self).state(), Edge::Weak(gc.inner.ptr)),
        ensures
            final(self).wf(),
            final(self).state() == Self::step(old(self).state(), Edge::Weak(gc.inner.ptr)),
    ;

    /// Visits a unique pointer, which is a strong one.
    fn trace_unique<T, M>(&mut self, gc: &Unique<T, M>)
        requires
            old(self).wf(),
            Self::ready(old(self).state(), Edge::Strong(gc.ptr)),
        ensures
            final(self).wf(),
            final(self).state() == Self::step(old(self).state(), Edge::Strong(gc.ptr)),
    ;
}

/// Whether a visitor may be shown all of some pointers.
pub open spec fn all_ready<C: Trace>(s: C::State, edges: Seq<Edge>) -> bool {
    forall|i: int| 0 <= i < edges.len() ==> C::ready(s, #[trigger] edges[i])
}

/// The state of a visitor after it was shown some pointers in order.
pub open spec fn trace_all<C: Trace>(s: C::State, edges: Seq<Edge>) -> C::State
    decreases edges.len(),
{
    if edges.len() == 0 {
        s
    } else {
        C::step(trace_all::<C>(s, edges.drop_last()), edges.last())
    }
}

/// A type whose values may stand in the heap.
pub trait Collect: Sized {
    /// The pointers that the value holds, in the order in which they are traced.
    spec fn edges(&self) -> Seq<Edge>;

    /// Whether values of the type can hold pointers at all.
    spec fn spec_needs_trace() -> bool;

    /// A type that needs no tracing holds no pointers.
    proof fn untraced_has_no_edges(&self)
        ensures
            !Self::spec_needs_trace() ==> self.edges().len() == 0,
    ;

    fn needs_trace() -> (b: bool)
        ensures
            b == Self::spec_needs_trace(),
    ;

    /// The value whose memory is all zero, if the type is known to have one.
    spec fn spec_zeroed() -> Option<Self>;

    fn zeroed() -> (t: Option<Self>)
        ensures
            t == Self::spec_zeroed(),
    ;

    /// Shows every pointer that the value holds to the visitor.
    fn trace<C: Trace>(&self, cc: &mut C)
        requires
            old(cc).wf(),
            all_ready::<C>(old(cc).state(), self.edges()),
        ensures
            final(cc).wf(),
            final(cc).state() == trace_all::<C>(old(cc).state(), self.edges()),
    ;
}

/// Shows the pointers of a value to a visitor, unless its type holds none.
pub fn trace<C: Trace, V: Collect>(cc: &mut C, value: &V)
    requires
        old(cc).wf(),
        all_ready::<C>(old(cc).state(), value.edges()),
    ensures
        final(cc).wf(),
        final(cc).state() == trace_all::<C>(old(cc).state(), value.edges()),
{
    if V::needs_trace() {
        value.trace(cc);
    } else {
        proof {
            value.untraced_has_no_edges();
        }
    }
}

/// Being shown a row of pointers is being shown its parts in order.
pub proof fn lemma_trace_all_append<C: Trace>(s: C::State, a: Seq<Edge>, b: Seq<Edge>)
    ensures
        trace_all::<C>(s, a + b) == trace_all::<C>(trace_all::<C>(s, a), b),
    decreases b.len(),
{
    if b.len() == 0 {
        assert(a + b =~= a);
    } else {
        lemma_trace_all_append::<C>(s, a, b.drop_last());
        assert((a + b).drop_last() =~= a + b.drop_last());
        assert((a + b).last() == b.last());
    }
}

/// What may be shown to a visitor may still be shown after other pointers.
pub proof fn lemma_trace_all_keeps_ready<C: Trace>(s: C::State, edges: Seq<Edge>, f: Edge)
    requires
        C::ready(s, f),
    ensures
        C::ready(trace_all::<C>(s, edges), f),
    decreases edges.len(),
{
    if edges.len() > 0 {
        lemma_trace_all_keeps_ready::<C>(s, edges.drop_last(), f);
        C::step_keeps_ready(trace_all::<C>(s, edges.drop_last()), edges.last(), f);
    }
}

/// A row that may be shown may be shown in two parts.
pub proof fn lemma_all_ready_split<C: Trace>(s: C::State, a: Seq<Edge>, b: Seq<Edge>)
    requires
        all_ready::<C>(s, a + b),
    ensures
        all_ready::<C>(s, a),
        all_ready::<C>(trace_all::<C>(s, a), b),
{
    assert forall|i: int| 0 <= i < a.len() implies C::ready(s, #[trigger] a[i]) by {
        assert((a + b)[i] == a[i]);
    }
    assert forall|i: int| 0 <= i < b.len() implies C::ready(
        trace_all::<C>(s, a),
        #[trigger] b[i],
    ) by {
        assert((a + b)[a.len() + i] == b[i]);
        lemma_trace_all_keeps_ready::<C>(s, a, b[i]);
    }
}

/// A row that may be shown in two parts, and what becomes of the state.
pub proof fn lemma_two_parts<C: Trace>(s: C::State, a: Seq<Edge>, b: Seq<Edge>)
    requires
        all_ready::<C>(s, a + b),
    ensures
        all_ready::<C>(s, a),
        all_ready::<C>(trace_all::<C>(s, a), b),
        trace_all::<C>(s, a + b) == trace_all::<C>(trace_all::<C>(s, a), b),
{
    lemma_all_ready_split::<C>(s, a, b);
    lemma_trace_all_append::<C>(s, a, b);
}

/// Being shown one pointer is one step.
pub proof fn lemma_trace_one<C: Trace>(s: C::State, e: Edge)
    ensures
        trace_all::<C>(s, seq![e]) == C::step(s, e),
{
    reveal_with_fuel(trace_all, 2);
    assert(seq![e].drop_last() =~= Seq::<Edge>::empty());
}

/// The pointers held by a row of values, in order.
pub open spec fn row_edges<T: Collect>(row: Seq<T>) -> Seq<Edge>
    decreases row.len(),
{
    if row.len() == 0 {
        Seq::empty()
    } else {
        row_edges(row.drop_last()) + row.last().edges()
    }
}

/// The pointers of a row begin with those of each prefix.
pub proof fn lemma_row_edges_prefix<T: Collect>(row: Seq<T>, n: int)
    requires
        0 <= n <= row.len(),
    ensures
        row_edges(row) == row_edges(row.take(n)) + row_edges(row.skip(n)),
    decreases row.len() - n,
{
    if n == row.len() {
        assert(row.take(n) =~= row);
        assert(row.skip(n) =~= Seq::<T>::empty());
        assert(row_edges(row) + Seq::<Edge>::empty() =~= row_edges(row));
    } else {
        let front = row.drop_last();
        lemma_row_edges_prefix(front, n);
        assert(front.take(n) =~= row.take(n));
        assert(row.skip(n).drop_last() =~= front.skip(n));
        assert(row_edges(row) =~= row_edges(row.take(n)) + row_edges(row.skip(n)));
    }
}

/// A row holds a pointer exactly if one of its values does.
pub proof fn lemma_row_edges_contains<T: Collect>(row: Seq<T>, e: Edge)
    ensures
        row_edges(row).contains(e) <==> exists|i: int|
            0 <= i < row.len() && (#[trigger] row[i]).edges().contains(e),
    decreases row.len(),
{
    if row.len() > 0 {
        let front = row.drop_last();
        let last = row.last().edges();
        lemma_row_edges_contains(front, e);
        let all = row_edges(row);
        let n = row_edges(front).len() as int;
        if all.contains(e) {
            let k = choose|k: int| 0 <= k < all.len() && all[k] == e;
            if k < n {
                assert(row_edges(front)[k] == e);
                let i = choose|i: int|
                    0 <= i < front.len() && (#[trigger] front[i]).edges().contains(e);
                assert(row[i] == front[i]);
            } else {
                assert(last[k - n] == e);
                assert(row[row.len() - 1].edges().contains(e));
            }
        }
        if exists|i: int| 0 <= i < row.len() && (#[trigger] row[i]).edges().contains(e) {
            let i = choose|i: int| 0 <= i < row.len() && (#[trigger] row[i]).edges().contains(e);
            if i < front.len() {
                assert(front[i] == row[i]);
                let k = choose|k: int| 0 <= k < n && row_edges(front)[k] == e;
                assert(all[k] == e);
            } else {
                let k = choose|k: int| 0 <= k < last.len() && last[k] == e;
                assert(all[n + k] == e);
            }
        }
    }
}

/// Values of a type that needs no tracing hold no pointers, however many there are.
pub proof fn lemma_row_untraced<T: Collect>(row: Seq<T>)
    ensures
        !T::spec_needs_trace() ==> row_edges(row).len() == 0,
    decreases row.len(),
{
    if row.len() > 0 {
        lemma_row_untraced(row.drop_last());
        row.last().untraced_has_no_edges();
    }
}

/// After the first `k` values of a row, the next one may be shown.
pub(crate) proof fn lemma_trace_next<C: Trace, T: Collect>(start: C::State, row: Seq<T>, k: int)
    requires
        0 <= k < row.len(),
        all_ready::<C>(start, row_edges(row)),
    ensures
        all_ready::<C>(trace_all::<C>(start, row_edges(row.take(k))), row[k].edges()),
        trace_all::<C>(start, row_edges(row.take(k + 1))) == trace_all::<C>(
            trace_all::<C>(start, row_edges(row.take(k))),
            row[k].edges(),
        ),
{
    let next = row.take(k + 1);
    assert(next.drop_last() =~= row.take(k));
    assert(next.last() == row[k]);
    lemma_row_edges_prefix(row, k + 1);
    lemma_all_ready_split::<C>(start, row_edges(next), row_edges(row.skip(k + 1)));
    lemma_all_ready_split::<C>(start, row_edges(row.take(k)), row[k].edges());
    lemma_trace_all_append::<C>(start, row_edges(row.take(k)), row[k].edges());
}

/// Shows the pointers of a row of values to a visitor.
pub fn trace_slice<C: Trace, T: Collect>(cc: &mut C, row: &[T])
    requires
        old(cc).wf(),
        all_ready::<C>(old(cc).state(), row_edges(row@)),
    ensures
        final(cc).wf(),
        final(cc).state() == trace_all::<C>(old(cc).state(), row_edges(row@)),
{
    let ghost start = cc.state();
    let mut i: usize = 0;
    assert(row@.take(0) =~= Seq::<T>::empty());
    while i < row.len()
        invariant
            i <= row@.len(),
            cc.wf(),
            cc.state() == trace_all::<C>(start, row_edges(row@.take(i as int))),
            all_ready::<C>(start, row_edges(row@)),
        decreases row@.len() - i,
    {
        proof {
            lemma_trace_next::<C, T>(start, row@, i as int);
        }
        trace(cc, &row[i]);
        i += 1;
    }
    assert(row@.take(i as int) =~= row@);
}

/// Shows the pointers of a deque of values to a visitor.
pub fn trace_deque<C: Trace, T: Collect>(cc: &mut C, row: &VecDeque<T>)
    requires
        old(cc).wf(),
        all_ready::<C>(old(cc).state(), row_edges(row@)),
    ensures
        final(cc).wf(),
        final(cc).state() == trace_all::<C>(old(cc).state(), row_edges(row@)),
{
    let ghost start = cc.state();
    let mut i: usize = 0;
    assert(row@.take(0) =~= Seq::<T>::empty());
    while i < row.len()
        invariant
            i <= row@.len(),
            cc.wf(),
            cc.state() == trace_all::<C>(start, row_edges(row@.take(i as int))),
            all_ready::<C>(start, row_edges(row@)),
        decreases row@.len() - i,
    {
        proof {
            lemma_trace_next::<C, T>(start, row@, i as int);
        }
        trace(cc, &row[i]);
        i += 1;
    }
    assert(row@.take(i as int) =~= row@);
}

/// A value of a type that cannot hold pointers.
pub struct Static<T>(pub T);

impl<T> Collect for Static<T> {
    open spec fn edges(&self) -> Seq<Edge> {
        Seq::empty()
    }

    open spec fn spec_needs_trace() -> bool {
        false
    }

    open spec fn spec_zeroed() -> Option<Self> {
        None
    }

    proof fn untraced_has_no_edges(&self) {
    }

    fn needs_trace() -> (b: bool) {
        false
    }

    fn zeroed() -> (t: Option<Self>) {
        None
    }

    fn trace<C: Trace>(&self, cc: &mut C) {
    }
}

} // verus!
