//! The collector never frees what can still be reached: each of its steps keeps the arena sound.

use crate::collect::{self, Collect, Edge};
use crate::heap::Heap;
use crate::heap_view::{HeapView, Phase};
use crate::marking;
use crate::state::State;
use crate::types::{GcBox, GcColor};
use vstd::prelude::*;

verus! {

/// An empty arena is sound.
pub proof fn empty_is_sound<T: Collect>()
    ensures
        State::<T>::empty().sound(Seq::empty(), Seq::empty()),
{
}

/// Outside the sweep phase nothing is doomed.
pub proof fn lemma_nothing_doomed<T: Collect>(s: State<T>)
    requires
        s.inv(),
        s.heap.unswept == 0,
    ensures
        forall|b: GcBox| !#[trigger] s.doomed(b),
        forall|b: GcBox| !#[trigger] s.heap.is_unswept(b),
{
}

/// Safe pointers may be shown to the collector while it marks.
pub proof fn lemma_safe_is_ready<T: Collect>(s: State<T>, edges: Seq<Edge>)
    requires
        s.heap.phase == Phase::Mark,
        s.all_safe(edges),
    ensures
        collect::all_ready::<Heap>(s.heap, edges),
{
    assert forall|i: int| 0 <= i < edges.len() implies <Heap as collect::Trace>::ready(
        s.heap,
        #[trigger] edges[i],
    ) by {
        assert(s.safe(edges[i]));
    }
}

/// States that differ only in their marks have the same edges and safe pointers.
pub proof fn lemma_keeps_marks<T: Collect>(s: State<T>, heap: HeapView)
    requires
        s.inv(),
        heap.inv(),
        marking::keeps_marks(s.heap, heap),
        s.heap.unswept == 0,
    ensures
        s.with_heap(heap).inv(),
        forall|b: GcBox| s.with_heap(heap).edges(b) == #[trigger] s.edges(b),
        forall|e: Edge| #[trigger] s.safe(e) ==> s.with_heap(heap).safe(e),
        forall|e: Edge| s.safe(e) && #[trigger] marking::marked(s.heap, e) ==> marking::marked(
            heap,
            e,
        ),
        forall|b: GcBox| !#[trigger] s.with_heap(heap).doomed(b),
{
    let t = s.with_heap(heap);
    assert forall|b: GcBox| t.edges(b) == #[trigger] s.edges(b) by {
        if s.values.contains_key(b) {
            assert(s.heap.boxes.contains_key(b));
        }
    }
    assert forall|b: GcBox| #[trigger] t.values.contains_key(b) implies t.heap.has(b)
        && t.heap.live(b) && t.values[b].fits(
        t.heap.boxes[b].flags.vtable,
        t.heap.boxes[b].flags.needs_trace,
        t.heap.boxes[b].meta,
    ) && (
    !t.heap.boxes[b].flags.needs_trace ==> t.edges(b).len() == 0) by {
        assert(s.values.contains_key(b));
        assert(s.heap.boxes.contains_key(b));
        assert(t.edges(b) == s.edges(b));
        assert(heap.boxes.dom().contains(b));
    }
    assert forall|b: GcBox| t.heap.has(b) && t.heap.live(b) implies #[trigger] t.values.contains_key(
        b,
    ) by {
        assert(heap.boxes.dom().contains(b));
        assert(s.heap.boxes.contains_key(b));
    }
    assert forall|e: Edge| #[trigger] s.safe(e) implies t.safe(e) by {
        assert(s.heap.boxes.contains_key(e.target()));
        assert(heap.boxes.dom().contains(e.target()));
    }
    assert forall|e: Edge| s.safe(e) && #[trigger] marking::marked(s.heap, e) implies marking::marked(
        heap,
        e,
    ) by {
        assert(s.heap.boxes.contains_key(e.target()));
    }
}

/// Tracing the next gray box keeps the arena sound.
pub proof fn mark_box_is_sound<T: Collect>(s: State<T>, root: Seq<Edge>, held: Seq<Edge>)
    requires
        s.sound(root, held),
        s.heap.phase == Phase::Mark,
        s.heap.next_gray() is Some,
    ensures
        s.mark_box().sound(root, held),
        s.values.contains_key(s.heap.next_gray()->0),
        collect::all_ready::<Heap>(s.heap.take_gray(), s.edges(s.heap.next_gray()->0)),
{
    let b = s.heap.next_gray()->0;
    let h = s.heap.take_gray();
    crate::heap_laws::take_gray_keeps_inv(s.heap);
    assert(s.heap.queued(b));
    assert(s.values.contains_key(b));
    lemma_nothing_doomed(s);
    assert(s.all_safe(s.edges(b)));
    assert(h.boxes.dom() =~= s.heap.boxes.dom());
    assert(marking::keeps_marks(s.heap, h));
    lemma_keeps_marks(s, h);
    let m = s.with_heap(h);
    assert(m.all_safe(s.edges(b))) by {
        assert forall|i: int| 0 <= i < s.edges(b).len() implies m.safe(#[trigger] s.edges(b)[i]) by {
            assert(s.safe(s.edges(b)[i]));
        }
    }
    lemma_safe_is_ready(m, s.edges(b));
    marking::trace_all_marks(h, s.edges(b));
    let t = s.mark_box();
    lemma_keeps_marks(m, t.heap);
    assert(t == m.with_heap(t.heap));
    assert forall|x: GcBox| #[trigger] t.values.contains_key(x) && !t.doomed(x) implies t.all_safe(
        t.edges(x),
    ) by {
        assert(s.values.contains_key(x));
        assert(m.edges(x) == s.edges(x) && t.edges(x) == m.edges(x));
        lemma_all_safe_kept(s, m, t, s.edges(x));
    }
    assert forall|x: GcBox| #[trigger]
        t.values.contains_key(x) && t.heap.color(x) == GcColor::Black implies t.all_marked(
        t.edges(x),
    ) by {
        assert(s.values.contains_key(x));
        assert(m.values.contains_key(x));
        assert(m.edges(x) == s.edges(x) && t.edges(x) == m.edges(x));
        assert(t.heap.boxes.contains_key(x));
        if x != b && s.heap.color(x) == GcColor::Black {
            assert(s.all_marked(s.edges(x)));
            assert(s.all_safe(s.edges(x)));
            lemma_all_marked_kept(s, m, t, s.edges(x));
        }
    }
    lemma_all_safe_kept(s, m, t, root);
    lemma_all_safe_kept(s, m, t, held);
    lemma_all_marked_kept(s, m, t, held);
    if !t.heap.root_needs_trace {
        lemma_all_marked_kept(s, m, t, root);
    }
}

proof fn lemma_all_safe_kept<T: Collect>(s: State<T>, m: State<T>, t: State<T>, edges: Seq<Edge>)
    requires
        forall|e: Edge| #[trigger] s.safe(e) ==> m.safe(e),
        forall|e: Edge| #[trigger] m.safe(e) ==> t.safe(e),
        s.all_safe(edges),
    ensures
        t.all_safe(edges),
{
    assert forall|i: int| 0 <= i < edges.len() implies t.safe(#[trigger] edges[i]) by {
        assert(s.safe(edges[i]));
        assert(m.safe(edges[i]));
    }
}

proof fn lemma_all_marked_kept<T: Collect>(
    s: State<T>,
    m: State<T>,
    t: State<T>,
    edges: Seq<Edge>,
)
    requires
        forall|e: Edge| #[trigger] s.safe(e) ==> m.safe(e),
        forall|e: Edge| s.safe(e) && #[trigger] marking::marked(s.heap, e) ==> marking::marked(
            m.heap,
            e,
        ),
        forall|e: Edge| m.safe(e) && #[trigger] marking::marked(m.heap, e) ==> marking::marked(
            t.heap,
            e,
        ),
        s.all_safe(edges),
        s.all_marked(edges),
    ensures
        t.all_marked(edges),
{
    assert forall|i: int| 0 <= i < edges.len() implies marking::marked(
        t.heap,
        #[trigger] edges[i],
    ) by {
        assert(s.safe(edges[i]));
        assert(marking::marked(s.heap, edges[i]));
        assert(marking::marked(m.heap, edges[i]));
    }
}

/// Tracing the root keeps the arena sound.
pub proof fn mark_root_is_sound<T: Collect>(s: State<T>, root: Seq<Edge>, held: Seq<Edge>)
    requires
        s.sound(root, held),
        s.heap.phase == Phase::Mark,
    ensures
        s.mark_root(root).sound(root, held),
        collect::all_ready::<Heap>(s.heap, root),
{
    lemma_nothing_doomed(s);
    lemma_safe_is_ready(s, root);
    marking::trace_all_marks(s.heap, root);
    let t = s.mark_root(root);
    lemma_keeps_marks(s, t.heap);
    assert forall|x: GcBox| #[trigger] t.values.contains_key(x) && !t.doomed(x) implies t.all_safe(
        t.edges(x),
    ) by {
        assert(s.values.contains_key(x));
        assert(t.edges(x) == s.edges(x));
        lemma_all_safe_kept(s, s, t, s.edges(x));
    }
    assert forall|x: GcBox| #[trigger]
        t.values.contains_key(x) && t.heap.color(x) == GcColor::Black implies t.all_marked(
        t.edges(x),
    ) by {
        assert(s.values.contains_key(x));
        assert(t.edges(x) == s.edges(x));
        assert(t.heap.boxes.contains_key(x));
        if s.heap.color(x) == GcColor::Black {
            assert(s.all_safe(s.edges(x)));
            lemma_all_marked_kept(s, s, t, s.edges(x));
        }
    }
    lemma_all_safe_kept(s, s, t, root);
    lemma_all_safe_kept(s, s, t, held);
    lemma_all_marked_kept(s, s, t, held);
    assert forall|i: int| 0 <= i < root.len() implies marking::marked(
        t.heap,
        #[trigger] root[i],
    ) by {
        assert(marking::marked(collect::trace_all::<Heap>(s.heap, root), root[i]));
    }
}

/// Waking up keeps the arena sound. Nothing is held over from the cycle before.
pub proof fn start_mark_is_sound<T: Collect>(s: State<T>, root: Seq<Edge>)
    requires
        s.sound(root, Seq::empty()),
        s.heap.phase == Phase::Sleep,
    ensures
        s.with_heap(s.heap.with_phase(Phase::Mark)).sound(root, Seq::empty()),
{
    let t = s.with_heap(s.heap.with_phase(Phase::Mark));
    lemma_nothing_doomed(s);
    assert forall|b: GcBox| t.edges(b) == #[trigger] s.edges(b) by {}
    assert forall|b: GcBox| !#[trigger] t.doomed(b) by {}
    assert forall|e: Edge| #[trigger] s.safe(e) implies t.safe(e) by {}
    assert forall|b: GcBox| #[trigger] t.values.contains_key(b) implies t.heap.color(b)
        == GcColor::White by {
        assert(s.values.contains_key(b));
        assert(s.heap.all.contains(b));
        let i = choose|i: int| 0 <= i < s.heap.all.len() && s.heap.all[i] == b;
        assert(s.heap.color(s.heap.all[i]) == GcColor::White);
    }
    assert forall|x: GcBox| #[trigger] t.values.contains_key(x) && !t.doomed(x) implies t.all_safe(
        t.edges(x),
    ) by {
        assert(s.values.contains_key(x));
        lemma_all_safe_kept(s, s, t, s.edges(x));
    }
    lemma_all_safe_kept(s, s, t, root);
}

/// Once nothing is left to mark, the sweep may begin.
pub proof fn start_sweep_is_sound<T: Collect>(s: State<T>, root: Seq<Edge>, held: Seq<Edge>)
    requires
        s.sound(root, held),
        s.heap.phase == Phase::Mark,
        !s.heap.gray_remaining(),
    ensures
        s.with_heap(s.heap.start_sweep()).sound(root, held),
{
    let t = s.with_heap(s.heap.start_sweep());
    crate::heap_laws::start_sweep_keeps_inv(s.heap);
    lemma_nothing_doomed(s);
    assert forall|b: GcBox| t.edges(b) == #[trigger] s.edges(b) by {}
    assert forall|e: Edge| s.safe(e) && #[trigger] marking::marked(s.heap, e) implies t.safe(e) by {
        assert(s.heap.boxes.contains_key(e.target()));
        assert(!s.heap.queued(e.target()));
    }
    assert forall|x: GcBox| #[trigger] t.values.contains_key(x) && !t.doomed(x) implies t.all_safe(
        t.edges(x),
    ) by {
        assert(s.values.contains_key(x));
        assert(s.heap.all.contains(x));
        let i = choose|i: int| 0 <= i < s.heap.all.len() && s.heap.all[i] == x;
        assert(t.heap.all[i] == x);
        assert(t.heap.is_unswept(x));
        assert(!s.heap.queued(x));
        assert(s.heap.color(x) == GcColor::Black);
        assert(s.all_safe(s.edges(x)));
        lemma_marked_is_safe(s, t, s.edges(x));
    }
    lemma_marked_is_safe(s, t, root);
    lemma_marked_is_safe(s, t, held);
}

proof fn lemma_marked_is_safe<T: Collect>(s: State<T>, t: State<T>, edges: Seq<Edge>)
    requires
        forall|e: Edge| s.safe(e) && #[trigger] marking::marked(s.heap, e) ==> t.safe(e),
        s.all_safe(edges),
        s.all_marked(edges),
    ensures
        t.all_safe(edges),
{
    assert forall|i: int| 0 <= i < edges.len() implies t.safe(#[trigger] edges[i]) by {
        assert(s.safe(edges[i]));
        assert(marking::marked(s.heap, edges[i]));
    }
}

/// Which boxes are still to be swept after the sweep visited one.
pub proof fn lemma_unswept_after<T: Collect>(s: State<T>)
    requires
        s.inv(),
        s.heap.phase == Phase::Sweep,
        s.heap.unswept > 0,
    ensures
        forall|x: GcBox|
            #![trigger s.sweep_one().heap.is_unswept(x)]
            #![trigger s.heap.is_unswept(x)]
            s.sweep_one().heap.is_unswept(x) <==> s.heap.is_unswept(x) && x
                != s.heap.next_unswept()->0,
        s.heap.is_unswept(s.heap.next_unswept()->0),
{
    let t = s.sweep_one();
    let k = (s.heap.unswept - 1) as int;
    let b = s.heap.next_unswept()->0;
    assert forall|x: GcBox|
        #![trigger s.sweep_one().heap.is_unswept(x)]
        #![trigger s.heap.is_unswept(x)]
        t.heap.is_unswept(x) <==> s.heap.is_unswept(x) && x != b by {
        if t.heap.is_unswept(x) {
            let i = choose|i: int| 0 <= i < t.heap.unswept && t.heap.all[i] == x;
            assert(s.heap.all[i] == x);
            assert(s.heap.all[i] != s.heap.all[k]);
        }
        if s.heap.is_unswept(x) && x != b {
            let i = choose|i: int| 0 <= i < s.heap.unswept && s.heap.all[i] == x;
            assert(i < k);
            assert(t.heap.all[i] == x);
        }
    }
    assert(s.heap.all[k] == b);
}

/// One step of sweeping keeps the arena valid.
pub proof fn sweep_one_keeps_inv<T: Collect>(s: State<T>)
    requires
        s.inv(),
        s.heap.phase == Phase::Sweep,
        s.heap.unswept > 0,
    ensures
        s.sweep_one().inv(),
        forall|x: GcBox| #[trigger]
            s.sweep_one().values.contains_key(x) ==> s.sweep_one().edges(x) == s.edges(x),
{
    let t = s.sweep_one();
    let b = s.heap.next_unswept()->0;
    assert(s.heap.all.contains(b));
    crate::heap_laws::sweep_next_keeps_inv(s.heap);
    assert(!s.heap.queued(b));
    assert forall|x: GcBox| #[trigger] t.values.contains_key(x) implies t.edges(x) == s.edges(x) by {
        assert(s.values.contains_key(x));
    }
    assert forall|x: GcBox| #[trigger] t.values.contains_key(x) <==> t.heap.has(x) && t.heap.live(
        x,
    ) by {
        assert(s.values.contains_key(x) <==> s.heap.has(x) && s.heap.live(x));
    }
    assert forall|x: GcBox| #[trigger] t.values.contains_key(x) implies t.values[x].fits(
        t.heap.boxes[x].flags.vtable,
        t.heap.boxes[x].flags.needs_trace,
        t.heap.boxes[x].meta,
    ) && (!t.heap.boxes[x].flags.needs_trace ==> t.edges(x).len() == 0) by {
        assert(s.values.contains_key(x));
    }
}

/// One step of sweeping keeps the arena sound.
pub proof fn sweep_one_is_sound<T: Collect>(s: State<T>, root: Seq<Edge>, held: Seq<Edge>)
    requires
        s.sound(root, held),
        s.heap.phase == Phase::Sweep,
        s.heap.unswept > 0,
    ensures
        s.sweep_one().sound(root, held),
{
    let t = s.sweep_one();
    let b = s.heap.next_unswept()->0;
    assert(s.heap.all.contains(b));
    sweep_one_keeps_inv(s);
    lemma_unswept_after(s);
    assert(!s.heap.queued(b));
    assert forall|e: Edge| #[trigger] s.safe(e) implies t.safe(e) by {
        let x = e.target();
        assert(t.heap.is_unswept(x) <==> s.heap.is_unswept(x) && x != b);
    }
    assert forall|x: GcBox| #[trigger] t.values.contains_key(x) && !t.doomed(x) implies t.all_safe(
        t.edges(x),
    ) by {
        assert(s.values.contains_key(x));
        assert(t.heap.is_unswept(x) <==> s.heap.is_unswept(x) && x != b);
        assert(!s.doomed(x));
        lemma_all_safe_kept(s, s, t, s.edges(x));
    }
    lemma_all_safe_kept(s, s, t, root);
    lemma_all_safe_kept(s, s, t, held);
}

/// Ending the cycle keeps the arena sound.
pub proof fn finish_cycle_is_sound<T: Collect>(
    s: State<T>,
    root: Seq<Edge>,
    held: Seq<Edge>,
    has_slept: bool,
)
    requires
        s.sound(root, held),
        s.heap.phase == Phase::Sweep,
        s.heap.unswept == 0,
    ensures
        s.with_heap(s.heap.finish_cycle(has_slept)).sound(root, held),
{
    let t = s.with_heap(s.heap.finish_cycle(has_slept));
    crate::heap_laws::finish_cycle_keeps_inv(s.heap, has_slept);
    lemma_nothing_doomed(s);
    assert forall|b: GcBox| t.edges(b) == #[trigger] s.edges(b) by {}
    assert forall|e: Edge| #[trigger] s.safe(e) implies t.safe(e) by {}
    assert forall|x: GcBox| #[trigger] t.values.contains_key(x) && !t.doomed(x) implies t.all_safe(
        t.edges(x),
    ) by {
        assert(s.values.contains_key(x));
        lemma_all_safe_kept(s, s, t, s.edges(x));
    }
    lemma_all_safe_kept(s, s, t, root);
    lemma_all_safe_kept(s, s, t, held);
}

/// Marking more boxes keeps the arena sound, as long as a box that becomes black needs no tracing.
pub proof fn recolor_is_sound<T: Collect>(
    s: State<T>,
    root: Seq<Edge>,
    held: Seq<Edge>,
    heap: HeapView,
)
    requires
        s.sound(root, held),
        s.heap.phase == Phase::Mark,
        heap.inv(),
        marking::keeps_marks(s.heap, heap),
        heap.root_needs_trace == s.heap.root_needs_trace,
        forall|b: GcBox| #[trigger]
            heap.boxes.contains_key(b) && heap.color(b) == GcColor::Black ==> s.heap.color(b)
                == GcColor::Black || !s.heap.boxes[b].flags.needs_trace,
    ensures
        s.with_heap(heap).sound(root, held),
        forall|e: Edge| #[trigger] s.safe(e) ==> s.with_heap(heap).safe(e),
        forall|b: GcBox| s.with_heap(heap).edges(b) == #[trigger] s.edges(b),
{
    let t = s.with_heap(heap);
    lemma_nothing_doomed(s);
    lemma_keeps_marks(s, heap);
    assert forall|x: GcBox| #[trigger] t.values.contains_key(x) && !t.doomed(x) implies t.all_safe(
        t.edges(x),
    ) by {
        assert(s.values.contains_key(x));
        assert(t.edges(x) == s.edges(x));
        lemma_all_safe_kept(s, s, t, s.edges(x));
    }
    assert forall|x: GcBox| #[trigger]
        t.values.contains_key(x) && t.heap.color(x) == GcColor::Black implies t.all_marked(
        t.edges(x),
    ) by {
        assert(s.values.contains_key(x));
        assert(t.edges(x) == s.edges(x));
        assert(t.heap.boxes.contains_key(x));
        if s.heap.color(x) == GcColor::Black {
            assert(s.all_safe(s.edges(x)));
            lemma_all_marked_kept(s, s, t, s.edges(x));
        }
    }
    lemma_all_safe_kept(s, s, t, root);
    lemma_all_safe_kept(s, s, t, held);
    lemma_all_marked_kept(s, s, t, held);
    if !t.heap.root_needs_trace {
        lemma_all_marked_kept(s, s, t, root);
    }
}

/// A state that differs only in its marks is valid.
pub proof fn marks_keep_inv<T: Collect>(s: State<T>, heap: HeapView)
    requires
        s.inv(),
        heap.inv(),
        heap == s.heap || s.heap.phase == Phase::Mark && marking::keeps_marks(s.heap, heap),
    ensures
        s.with_heap(heap).inv(),
        forall|b: GcBox| s.with_heap(heap).edges(b) == #[trigger] s.edges(b),
{
    if heap == s.heap {
        assert(s.with_heap(heap) == s);
    } else {
        lemma_keeps_marks(s, heap);
    }
}

} // verus!
