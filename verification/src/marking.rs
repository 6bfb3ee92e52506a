//! What the marking of boxes changes, and what it leaves alone.

use crate::collect::{self, Edge, Trace};
use crate::heap::Heap;
use crate::heap_view::HeapView;
use crate::types::{GcBox, GcColor};
use vstd::prelude::*;

verus! {

/// Whether the target of a pointer was found by the marking.
pub open spec fn marked(s: HeapView, e: Edge) -> bool {
    match e {
        Edge::Strong(b) => !s.is_white(b),
        Edge::Weak(b) => s.color(b) != GcColor::White,
    }
}

/// Whether two states differ only in the colours of boxes, the queues and the metrics, and what
/// was marked still is.
pub open spec fn keeps_marks(s: HeapView, t: HeapView) -> bool {
    &&& t.boxes.dom() == s.boxes.dom()
    &&& t.all == s.all
    &&& t.unswept == s.unswept
    &&& t.phase == s.phase
    &&& t.brk == s.brk
    &&& forall|b: GcBox| #[trigger]
        s.boxes.contains_key(b) ==> {
            &&& t.boxes[b].meta == s.boxes[b].meta
            &&& t.boxes[b].layout == s.boxes[b].layout
            &&& t.boxes[b].flags.vtable == s.boxes[b].flags.vtable
            &&& t.boxes[b].flags.needs_trace == s.boxes[b].flags.needs_trace
            &&& t.boxes[b].flags.live == s.boxes[b].flags.live
            &&& !s.is_white(b) ==> !t.is_white(b)
            &&& s.color(b) != GcColor::White ==> t.color(b) != GcColor::White
        }
}

/// Whether a box is the target of one of some strong pointers.
pub open spec fn points_strongly(edges: Seq<Edge>, b: GcBox) -> bool {
    exists|i: int| 0 <= i < edges.len() && #[trigger] edges[i] == Edge::Strong(b)
}

/// Whether a box is the target of one of some weak pointers.
pub open spec fn points_weakly(edges: Seq<Edge>, b: GcBox) -> bool {
    exists|i: int| 0 <= i < edges.len() && #[trigger] edges[i] == Edge::Weak(b)
}

/// What being shown some pointers does: their targets are marked and nothing else is. A box that
/// needs tracing does not become black before it was traced.
pub proof fn trace_all_marks(s: HeapView, edges: Seq<Edge>)
    requires
        s.inv(),
        collect::all_ready::<Heap>(s, edges),
    ensures
        ({
            let t = collect::trace_all::<Heap>(s, edges);
            &&& t.inv()
            &&& keeps_marks(s, t)
            &&& t.root_needs_trace == s.root_needs_trace
            &&& t.gray_again == s.gray_again
            &&& forall|i: int| 0 <= i < edges.len() ==> marked(t, #[trigger] edges[i])
            &&& forall|b: GcBox| #[trigger]
                t.boxes.contains_key(b) ==> {
                    &&& !s.is_white(b) ==> t.color(b) == s.color(b)
                    &&& t.color(b) == GcColor::Black ==> s.color(b) == GcColor::Black
                        || !s.boxes[b].flags.needs_trace
                    &&& !t.is_white(b) ==> !s.is_white(b) || points_strongly(edges, b)
                    &&& t.color(b) == GcColor::WhiteWeak ==> s.color(b) == GcColor::WhiteWeak
                        || points_weakly(edges, b)
                }
        }),
    decreases edges.len(),
{
    if edges.len() > 0 {
        let front = edges.drop_last();
        let e = edges.last();
        assert forall|i: int| 0 <= i < front.len() implies <Heap as Trace>::ready(s, #[trigger] front[i]) by {
            assert(front[i] == edges[i]);
        }
        trace_all_marks(s, front);
        let m = collect::trace_all::<Heap>(s, front);
        assert(<Heap as Trace>::ready(s, edges[edges.len() - 1]));
        match e {
            Edge::Strong(b) => {
                if m.is_white(b) {
                    crate::heap_laws::trace_keeps_inv(m, b);
                }
            },
            Edge::Weak(b) => {
                if m.color(b) == GcColor::White {
                    crate::heap_laws::trace_weak_keeps_inv(m, b);
                }
            },
        }
        let t = collect::trace_all::<Heap>(s, edges);
        assert(t.boxes.dom() =~= s.boxes.dom());
        assert forall|i: int| 0 <= i < edges.len() implies marked(t, #[trigger] edges[i]) by {
            if i < front.len() {
                assert(front[i] == edges[i]);
            }
        }
        assert forall|b: GcBox| #[trigger] t.boxes.contains_key(b) implies {
            &&& !t.is_white(b) ==> !s.is_white(b) || points_strongly(edges, b)
            &&& t.color(b) == GcColor::WhiteWeak ==> s.color(b) == GcColor::WhiteWeak
                || points_weakly(edges, b)
        } by {
            if points_strongly(front, b) {
                let i = choose|i: int| 0 <= i < front.len() && #[trigger] front[i] == Edge::Strong(b);
                assert(edges[i] == Edge::Strong(b));
            }
            if points_weakly(front, b) {
                let i = choose|i: int| 0 <= i < front.len() && #[trigger] front[i] == Edge::Weak(b);
                assert(edges[i] == Edge::Weak(b));
            }
            if e.target() == b {
                assert(edges[edges.len() - 1] == e);
            }
        }
    }
}

/// Being shown pointers does the same whether a box is black or gray and last in the second queue.
pub proof fn trace_all_ignores_gray_again(s: HeapView, b: GcBox, edges: Seq<Edge>)
    requires
        s.has(b),
        s.color(b) == GcColor::Black,
        collect::all_ready::<Heap>(s, edges),
    ensures
        collect::all_ready::<Heap>(s.make_gray_again(b), edges),
        collect::trace_all::<Heap>(s.make_gray_again(b), edges) == collect::trace_all::<Heap>(
            s,
            edges,
        ).make_gray_again(b),
        ({
            let t = collect::trace_all::<Heap>(s, edges);
            &&& t.has(b)
            &&& t.boxes[b] == s.boxes[b]
            &&& t.metrics.traced == s.metrics.traced
        }),
    decreases edges.len(),
{
    let g = s.make_gray_again(b);
    assert forall|i: int| 0 <= i < edges.len() implies <Heap as Trace>::ready(
        g,
        #[trigger] edges[i],
    ) by {
        assert(<Heap as Trace>::ready(s, edges[i]));
    }
    if edges.len() > 0 {
        let front = edges.drop_last();
        let e = edges.last();
        assert forall|i: int| 0 <= i < front.len() implies <Heap as Trace>::ready(
            s,
            #[trigger] front[i],
        ) by {
            assert(front[i] == edges[i]);
        }
        trace_all_ignores_gray_again(s, b, front);
        let m = collect::trace_all::<Heap>(s, front);
        let left = <Heap as Trace>::step(m.make_gray_again(b), e);
        let right = <Heap as Trace>::step(m, e).make_gray_again(b);
        assert(left.boxes =~= right.boxes);
        assert(left =~= right);
    }
}

/// A black box whose work was counted comes out of the second queue as it went in.
pub proof fn gray_again_and_back(s: HeapView, b: GcBox)
    requires
        s.has(b),
        s.color(b) == GcColor::Black,
        s.metrics.traced >= s.size(b),
    ensures
        s.make_gray_again(b).take_from(false) == s,
{
    let t = s.make_gray_again(b).take_from(false);
    assert(t.boxes =~= s.boxes);
    assert(t.gray_again =~= s.gray_again);
    assert(t =~= s);
}

} // verus!
