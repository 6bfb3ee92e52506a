//! What each step of the collector and each write barrier does to the boxes, the queues and the
//! counters, and what it leaves alone.

use crate::collect::{self, Collect, Edge};
use crate::collection::{Progress, RunUntil, Stop};
use crate::heap::Heap;
use crate::heap_view::{HeapView, Phase};
use crate::marking;
use crate::metrics::Metrics;
use crate::soundness;
use crate::state::State;
use crate::types::{Flags, GcBox, GcColor};
use vstd::prelude::*;

verus! {

// ---- counters ----
/// Whether a counter went up by an amount, or as far as it can be counted.
pub open spec fn went_up(was: usize, now: usize, by: int) -> bool {
    now == was + by || was + by > usize::MAX && now == usize::MAX
}

/// Whether a counter went down by an amount, or to nothing.
pub open spec fn went_down(was: usize, now: usize, by: int) -> bool {
    now == was - by || was < by && now == 0
}

/// Nothing was counted at the beginning.
pub proof fn counting_begins_with_nothing()
    ensures
        ({
            let m = Metrics::zero();
            &&& m.total_gcs == 0 && m.total_gc_bytes == 0 && m.allocated == 0
            &&& m.marked == 0 && m.traced == 0 && m.dropped == 0 && m.freed == 0 && m.remembered == 0
            &&& m.cycles == 0 && !m.debt_reset
        }),
{
}

/// Each kind of work is counted by its own counters, by the size of the box, and by no others.
pub proof fn work_is_counted_by_size(m: Metrics, size: usize)
    ensures
        ({
            let a = m.after_allocated(size);
            &&& went_up(m.total_gcs, a.total_gcs, 1)
            &&& went_up(m.total_gc_bytes, a.total_gc_bytes, size as int)
            &&& went_up(m.allocated, a.allocated, size as int)
            &&& a == (Metrics {
                total_gcs: a.total_gcs,
                total_gc_bytes: a.total_gc_bytes,
                allocated: a.allocated,
                ..m
            })
        }),
        went_up(m.marked, m.after_marked(size).marked, size as int),
        m.after_marked(size) == (Metrics { marked: m.after_marked(size).marked, ..m }),
        went_up(m.traced, m.after_traced(size).traced, size as int),
        m.after_traced(size) == (Metrics { traced: m.after_traced(size).traced, ..m }),
        went_down(m.traced, m.after_untraced(size).traced, size as int),
        m.after_untraced(size) == (Metrics { traced: m.after_untraced(size).traced, ..m }),
        went_up(m.dropped, m.after_dropped(size).dropped, size as int),
        m.after_dropped(size) == (Metrics { dropped: m.after_dropped(size).dropped, ..m }),
        ({
            let f = m.after_freed(size);
            &&& went_down(m.total_gcs, f.total_gcs, 1)
            &&& went_down(m.total_gc_bytes, f.total_gc_bytes, size as int)
            &&& went_up(m.freed, f.freed, size as int)
            &&& f == (Metrics {
                total_gcs: f.total_gcs,
                total_gc_bytes: f.total_gc_bytes,
                freed: f.freed,
                ..m
            })
        }),
        went_up(m.remembered, m.after_remembered(size).remembered, size as int),
        m.after_remembered(size) == (Metrics { remembered: m.after_remembered(size).remembered, ..m }),
{
}

/// What a box adds to the totals it takes away again when it is freed, and tracing it again undoes the
/// count of the first time.
pub proof fn counts_are_undone(m: Metrics, size: usize)
    requires
        m.total_gcs < usize::MAX,
        m.total_gc_bytes + size <= usize::MAX,
        m.traced + size <= usize::MAX,
    ensures
        m.after_allocated(size).after_freed(size).total_gcs == m.total_gcs,
        m.after_allocated(size).after_freed(size).total_gc_bytes == m.total_gc_bytes,
        m.after_traced(size).after_untraced(size) == m,
{
}

/// A new cycle counts from the beginning, but for what exists. Whether debt is carried over is noted.
pub proof fn cycles_are_counted(m: Metrics, reset: bool)
    ensures
        ({
            let c = m.after_cycle(reset);
            &&& went_up(m.cycles, c.cycles, 1)
            &&& c.debt_reset == reset
            &&& c.total_gcs == m.total_gcs && c.total_gc_bytes == m.total_gc_bytes
            &&& c.allocated == 0 && c.marked == 0 && c.traced == 0
            &&& c.dropped == 0 && c.freed == 0 && c.remembered == 0
        }),
{
}

// ---- marks ----
/// Whether two heaps differ in nothing but the box `b`, the queues and the counters, and that box in
/// nothing but its colour.
pub open spec fn recolors(s: HeapView, t: HeapView, b: GcBox) -> bool {
    &&& t.boxes.dom() == s.boxes.dom()
    &&& forall|x: GcBox| x != b && s.boxes.contains_key(x) ==> #[trigger] t.boxes[x] == s.boxes[x]
    &&& t.boxes[b].meta == s.boxes[b].meta
    &&& t.boxes[b].layout == s.boxes[b].layout
    &&& t.boxes[b].flags == (Flags { color: t.boxes[b].flags.color, ..s.boxes[b].flags })
    &&& t.all == s.all
    &&& t.unswept == s.unswept
    &&& t.phase == s.phase
    &&& t.root_needs_trace == s.root_needs_trace
    &&& t.brk == s.brk
}

/// Whether only the count of what was marked may have changed.
pub open spec fn only_marks(m: Metrics, n: Metrics, size: usize, first: bool) -> bool {
    &&& n == (Metrics { marked: n.marked, ..m })
    &&& if first {
        went_up(m.marked, n.marked, size as int)
    } else {
        n.marked == m.marked
    }
}

/// A box found through a strong pointer: a white one that needs tracing becomes gray and is the next
/// to be traced, another white one becomes black. A box that was found before stays as it is. The
/// first time a box is found, and only then, its size is counted.
pub proof fn strong_pointer_marks_its_target(s: HeapView, b: GcBox)
    requires
        s.has(b),
    ensures
        ({
            let t = s.trace(b);
            let was = s.boxes[b].flags;
            let now = t.boxes[b].flags.color;
            &&& recolors(s, t, b)
            &&& t.gray_again == s.gray_again
            &&& only_marks(s.metrics, t.metrics, s.boxes[b].layout.size(), was.color == GcColor::White)
            &&& if was.color == GcColor::White || was.color == GcColor::WhiteWeak {
                if was.needs_trace {
                    now == GcColor::Gray && t.gray == s.gray.push(b) && t.next_gray() == Some(b)
                } else {
                    now == GcColor::Black && t.gray == s.gray
                }
            } else {
                t == s
            }
        }),
{
    assert(s.trace(b).boxes.dom() =~= s.boxes.dom());
}

/// A box found through a weak pointer: one that was not found before is kept as a box, and its size is
/// counted. Any other stays as it is. Nothing is queued.
pub proof fn weak_pointer_keeps_its_box(s: HeapView, b: GcBox)
    requires
        s.has(b),
    ensures
        ({
            let t = s.trace_weak(b);
            let was = s.boxes[b].flags.color;
            &&& recolors(s, t, b)
            &&& t.gray == s.gray
            &&& t.gray_again == s.gray_again
            &&& only_marks(s.metrics, t.metrics, s.boxes[b].layout.size(), was == GcColor::White)
            &&& if was == GcColor::White {
                t.boxes[b].flags.color == GcColor::WhiteWeak
            } else {
                t == s
            }
        }),
{
    assert(s.trace_weak(b).boxes.dom() =~= s.boxes.dom());
}

/// Whether `t` is `s` with the box `b` gray again: queued to be traced after all others, with the work
/// that was done on it taken back.
pub open spec fn is_gray_again(s: HeapView, t: HeapView, b: GcBox) -> bool {
    &&& recolors(s, t, b)
    &&& t.boxes[b].flags.color == GcColor::Gray
    &&& t.gray == s.gray
    &&& t.gray_again == s.gray_again.push(b)
    &&& went_down(s.metrics.traced, t.metrics.traced, s.boxes[b].layout.size() as int)
    &&& t.metrics == (Metrics { traced: t.metrics.traced, ..s.metrics })
}

/// A backward barrier makes its parent gray again exactly if the collector marks, the parent is black
/// and the child, if one is given, was not found yet: strongly, or weakly for the weak barrier. It does
/// nothing otherwise.
pub proof fn backward_barrier_acts_on_black_parents(s: HeapView, parent: GcBox, child: GcBox)
    requires
        s.has(parent),
        s.has(child),
    ensures
        ({
            let black = s.phase == Phase::Mark && s.boxes[parent].flags.color == GcColor::Black;
            let color = s.boxes[child].flags.color;
            let any = s.backward_barrier(parent, None);
            let one = s.backward_barrier(parent, Some(child));
            let weak = s.backward_barrier_weak(parent, child);
            &&& if black {
                is_gray_again(s, any, parent)
            } else {
                any == s
            }
            &&& if black && (color == GcColor::White || color == GcColor::WhiteWeak) {
                is_gray_again(s, one, parent)
            } else {
                one == s
            }
            &&& if black && color == GcColor::White {
                is_gray_again(s, weak, parent)
            } else {
                weak == s
            }
        }),
{
    assert(s.make_gray_again(parent).boxes.dom() =~= s.boxes.dom());
}

/// Making a box gray again queues it after all others.
pub proof fn gray_again_comes_last(s: HeapView, b: GcBox)
    requires
        s.has(b),
    ensures
        is_gray_again(s, s.make_gray_again(b), b),
        s.gray.len() > 0 ==> s.make_gray_again(b).next_gray() == s.next_gray(),
{
    assert(s.make_gray_again(b).boxes.dom() =~= s.boxes.dom());
}

/// A forward barrier marks its child exactly if the collector marks and the parent, if one is given, is
/// black: afterwards the child is found, strongly or weakly. It does nothing otherwise.
pub proof fn forward_barrier_marks_the_child(s: HeapView, parent: GcBox, child: GcBox)
    requires
        s.has(parent),
        s.has(child),
    ensures
        ({
            let marks = s.phase == Phase::Mark;
            let black = marks && s.boxes[parent].flags.color == GcColor::Black;
            let any = s.forward_barrier(None, child);
            let one = s.forward_barrier(Some(parent), child);
            let weak_any = s.forward_barrier_weak(None, child);
            let weak_one = s.forward_barrier_weak(Some(parent), child);
            &&& if marks {
                &&& recolors(s, any, child) && recolors(s, weak_any, child)
                &&& any.boxes[child].flags.color == GcColor::Gray
                    || any.boxes[child].flags.color == GcColor::Black
                &&& weak_any.boxes[child].flags.color != GcColor::White
                &&& any == s.trace(child) && weak_any == s.trace_weak(child)
            } else {
                any == s && weak_any == s
            }
            &&& if black {
                one == any && weak_one == weak_any
            } else {
                one == s && weak_one == s
            }
        }),
{
    assert(s.trace(child).boxes.dom() =~= s.boxes.dom());
    assert(s.trace_weak(child).boxes.dom() =~= s.boxes.dom());
}

/// A box that is resurrected is found: a white one becomes gray and is the next to be traced, whether
/// or not it needs tracing. One that was found before stays as it is.
pub proof fn resurrected_box_is_found(s: HeapView, b: GcBox)
    requires
        s.has(b),
    ensures
        ({
            let t = s.resurrect(b);
            let was = s.boxes[b].flags.color;
            &&& recolors(s, t, b)
            &&& t.gray_again == s.gray_again
            &&& only_marks(s.metrics, t.metrics, s.boxes[b].layout.size(), was == GcColor::White)
            &&& if was == GcColor::White || was == GcColor::WhiteWeak {
                t.boxes[b].flags.color == GcColor::Gray && t.gray == s.gray.push(b)
            } else {
                t == s
            }
        }),
{
    assert(s.resurrect(b).boxes.dom() =~= s.boxes.dom());
}

/// A weak pointer can be upgraded exactly while the contents are there and not about to be dropped.
pub proof fn upgrade_while_contents_stay(s: HeapView, b: GcBox)
    ensures
        !s.boxes[b].flags.live ==> !s.upgrade(b),
        s.boxes[b].flags.live && s.phase != Phase::Sweep ==> s.upgrade(b),
        s.boxes[b].flags.live && s.phase == Phase::Sweep ==> (s.upgrade(b)
            <==> s.boxes[b].flags.color != GcColor::WhiteWeak),
{
}

/// A root barrier has the root traced again if the collector marks, and changes nothing else.
pub proof fn root_barrier_has_the_root_traced(s: HeapView)
    ensures
        s.phase == Phase::Mark ==> s.root_barrier().root_needs_trace && s.root_barrier()
            == (HeapView { root_needs_trace: true, ..s }),
        s.phase != Phase::Mark ==> s.root_barrier() == s,
{
}

/// Something is left to trace exactly if a box is queued or the root was not traced.
pub proof fn something_is_left_to_trace(s: HeapView)
    ensures
        s.gray_remaining() <==> s.root_needs_trace || exists|b: GcBox|
            s.gray.contains(b) || s.gray_again.contains(b),
        s.next_gray() is Some <==> exists|b: GcBox| s.gray.contains(b) || s.gray_again.contains(b),
{
    if s.gray.len() > 0 {
        assert(s.gray.contains(s.gray[0]));
    }
    if s.gray_again.len() > 0 {
        assert(s.gray_again.contains(s.gray_again[0]));
    }
}

/// The box that was queued last is traced next, those of the second queue after all of the first. It
/// leaves its queue and becomes black, and its size is counted.
pub proof fn queues_are_emptied_last_first(s: HeapView, b: GcBox)
    requires
        s.next_gray() == Some(b),
        s.has(b),
    ensures
        ({
            let t = s.take_gray();
            &&& recolors(s, t, b)
            &&& t.boxes[b].flags.color == GcColor::Black
            &&& went_up(s.metrics.traced, t.metrics.traced, s.boxes[b].layout.size() as int)
            &&& t.metrics == (Metrics { traced: t.metrics.traced, ..s.metrics })
            &&& if s.gray.len() > 0 {
                t.gray.push(b) == s.gray && t.gray_again == s.gray_again
            } else {
                t.gray == s.gray && t.gray_again.push(b) == s.gray_again
            }
        }),
{
    let t = s.take_gray();
    assert(t.boxes.dom() =~= s.boxes.dom());
    if s.gray.len() > 0 {
        assert(t.gray.push(b) =~= s.gray);
    } else {
        assert(t.gray_again.push(b) =~= s.gray_again);
    }
}

// ---- sweep ----
/// The sweep begins with every box still to be visited, and visits the youngest first.
pub proof fn sweep_visits_every_box(s: HeapView)
    ensures
        s.start_sweep().phase == Phase::Sweep,
        s.start_sweep() == (HeapView { phase: Phase::Sweep, unswept: s.all.len(), ..s }),
        forall|b: GcBox| s.all.contains(b) ==> #[trigger] s.start_sweep().is_unswept(b),
        s.all.len() > 0 ==> s.start_sweep().next_unswept() == Some(s.all.last()),
        s.next_unswept() is None <==> s.unswept == 0,
{
    let t = s.start_sweep();
    assert forall|b: GcBox| s.all.contains(b) implies #[trigger] t.is_unswept(b) by {
        let i = choose|i: int| 0 <= i < s.all.len() && s.all[i] == b;
        assert(t.all[i] == b);
    }
}

/// What the sweep does to the box that it visits: a white one goes, one that only weak pointers reach
/// loses its contents and stays as a white box, and a black one stays and is white again. No other box
/// changes. What is dropped, freed and kept is counted.
pub proof fn sweep_frees_what_was_not_found<T: Collect>(s: State<T>, b: GcBox)
    requires
        s.inv(),
        s.heap.next_unswept() == Some(b),
        s.heap.unswept <= s.heap.all.len(),
    ensures
        ({
            let t = s.sweep_one();
            let was = s.heap.boxes[b];
            let size = was.layout.size();
            let m = s.heap.metrics;
            let n = t.heap.metrics;
            &&& t.heap.unswept + 1 == s.heap.unswept
            &&& s.heap.all[s.heap.unswept - 1] == b
            &&& t.heap.gray == s.heap.gray && t.heap.gray_again == s.heap.gray_again
            &&& t.heap.phase == s.heap.phase && t.heap.brk == s.heap.brk
            &&& t.heap.root_needs_trace == s.heap.root_needs_trace
            &&& forall|x: GcBox|
                x != b ==> (#[trigger] t.heap.boxes.contains_key(x) <==> s.heap.boxes.contains_key(x))
            &&& forall|x: GcBox|
                x != b && s.heap.boxes.contains_key(x) ==> #[trigger] t.heap.boxes[x]
                    == s.heap.boxes[x]
            &&& forall|x: GcBox|
                x != b ==> (#[trigger] t.values.contains_key(x) <==> s.values.contains_key(x))
            &&& forall|x: GcBox| x != b ==> #[trigger] t.values[x] == s.values[x]
            &&& match was.flags.color {
                GcColor::White => {
                    &&& !t.heap.boxes.contains_key(b) && !t.values.contains_key(b)
                    &&& t.heap.all == s.heap.all.remove(s.heap.unswept - 1)
                    &&& went_down(m.total_gcs, n.total_gcs, 1)
                    &&& went_down(m.total_gc_bytes, n.total_gc_bytes, size as int)
                    &&& went_up(m.freed, n.freed, size as int)
                    &&& n.remembered == m.remembered
                    &&& if was.flags.live {
                        went_up(m.dropped, n.dropped, size as int)
                    } else {
                        n.dropped == m.dropped
                    }
                },
                GcColor::WhiteWeak => {
                    &&& t.heap.boxes.contains_key(b) && !t.values.contains_key(b)
                    &&& t.heap.boxes[b].flags == (Flags {
                        color: GcColor::White,
                        live: false,
                        ..was.flags
                    })
                    &&& t.heap.boxes[b].meta == was.meta && t.heap.boxes[b].layout == was.layout
                    &&& t.heap.all == s.heap.all
                    &&& n.total_gcs == m.total_gcs && n.freed == m.freed
                    &&& went_up(m.remembered, n.remembered, size as int)
                    &&& if was.flags.live {
                        went_up(m.dropped, n.dropped, size as int)
                    } else {
                        n.dropped == m.dropped
                    }
                },
                GcColor::Black => {
                    &&& t.heap.boxes.contains_key(b)
                    &&& t.values.contains_key(b) == s.values.contains_key(b)
                    &&& t.values[b] == s.values[b]
                    &&& t.heap.boxes[b].flags == (Flags { color: GcColor::White, ..was.flags })
                    &&& t.heap.boxes[b].meta == was.meta && t.heap.boxes[b].layout == was.layout
                    &&& t.heap.all == s.heap.all
                    &&& n.total_gcs == m.total_gcs && n.freed == m.freed && n.dropped == m.dropped
                    &&& went_up(m.remembered, n.remembered, size as int)
                },
                GcColor::Gray => true,
            }
        }),
{
    assert(s.heap.all.contains(s.heap.all[s.heap.unswept - 1]));
    assert(s.heap.boxes.contains_key(b));
}

/// At the end of a cycle the collector sleeps and the root has to be traced in the next one. No box
/// changes. The debt is reset after a cycle in one piece.
pub proof fn cycle_ends_asleep(s: HeapView, has_slept: bool)
    ensures
        ({
            let t = s.finish_cycle(has_slept);
            &&& t.phase == Phase::Sleep && t.root_needs_trace
            &&& t.boxes == s.boxes && t.all == s.all && t.unswept == s.unswept
            &&& t.gray == s.gray && t.gray_again == s.gray_again && t.brk == s.brk
            &&& t.metrics.debt_reset == has_slept
            &&& t.metrics.allocated == 0 && t.metrics.marked == 0 && t.metrics.traced == 0
            &&& went_up(s.metrics.cycles, t.metrics.cycles, 1)
            &&& t.metrics.total_gcs == s.metrics.total_gcs
        }),
{
}

/// A new heap has no boxes, sleeps, and has its root still to be traced.
pub proof fn heap_begins_empty<T: Collect>()
    ensures
        ({
            let s = HeapView::empty();
            &&& forall|b: GcBox| !#[trigger] s.boxes.contains_key(b)
            &&& s.all.len() == 0 && s.gray.len() == 0 && s.gray_again.len() == 0 && s.unswept == 0
            &&& s.phase == Phase::Sleep && s.root_needs_trace
            &&& s.metrics.total_gcs == 0 && s.metrics.allocated == 0 && s.metrics.cycles == 0
        }),
        State::<T>::empty().heap == HeapView::empty(),
        forall|b: GcBox| !#[trigger] State::<T>::empty().values.contains_key(b),
{
}

/// Dropping an arena leaves nothing: no box and no contents, whatever was marked or queued. Every box
/// is counted as freed.
pub proof fn dropped_arena_is_empty<T: Collect>(s: State<T>)
    requires
        s.inv(),
    ensures
        s.drop_all().heap.all.len() == 0,
        s.drop_all().heap.phase == Phase::Drop,
        s.drop_all().heap.gray.len() == 0,
        s.drop_all().heap.gray_again.len() == 0,
        s.drop_all().heap.unswept == 0,
        forall|b: GcBox| !#[trigger] s.drop_all().values.contains_key(b),
        s.heap.metrics.total_gcs == s.heap.all.len() ==> s.drop_all().heap.metrics.total_gcs == 0,
{
    lemma_drop_all(s.heap.start_drop());
}

proof fn lemma_drop_all(s: HeapView)
    ensures
        s.drop_all().all.len() == 0,
        s.drop_all().phase == s.phase,
        s.drop_all().gray == s.gray,
        s.drop_all().gray_again == s.gray_again,
        s.drop_all().unswept == s.unswept,
        s.metrics.total_gcs == s.all.len() ==> s.drop_all().metrics.total_gcs == 0,
    decreases s.all.len(),
{
    if s.all.len() > 0 {
        lemma_drop_all(s.drop_next());
    }
}

/// Dropping an arena takes its youngest box first: that box is gone, no other changes, and it is
/// counted as freed, and as dropped if its contents were there.
pub proof fn youngest_box_is_dropped_first(s: HeapView)
    requires
        s.all.len() > 0,
    ensures
        ({
            let b = s.all.last();
            let t = s.drop_next();
            let size = s.boxes[b].layout.size();
            &&& !t.boxes.contains_key(b)
            &&& t.all.push(b) == s.all
            &&& forall|x: GcBox|
                x != b ==> (#[trigger] t.boxes.contains_key(x) <==> s.boxes.contains_key(x))
            &&& forall|x: GcBox|
                x != b && s.boxes.contains_key(x) ==> #[trigger] t.boxes[x] == s.boxes[x]
            &&& went_down(s.metrics.total_gcs, t.metrics.total_gcs, 1)
            &&& went_down(s.metrics.total_gc_bytes, t.metrics.total_gc_bytes, size as int)
            &&& went_up(s.metrics.freed, t.metrics.freed, size as int)
            &&& if s.boxes[b].flags.live {
                went_up(s.metrics.dropped, t.metrics.dropped, size as int)
            } else {
                t.metrics.dropped == s.metrics.dropped
            }
        }),
{
    assert(s.drop_next().all.push(s.all.last()) =~= s.all);
}

// ---- what the words mean ----
/// A box is white if it was found at most weakly, queued if it stands in one of the queues, and unswept
/// if it is one of those that the sweep has still to visit.
pub proof fn white_boxes_were_not_found(s: HeapView, b: GcBox)
    requires
        s.unswept <= s.all.len(),
    ensures
        s.is_white(b) <==> s.boxes[b].flags.color == GcColor::White || s.boxes[b].flags.color
            == GcColor::WhiteWeak,
        s.queued(b) <==> s.gray.contains(b) || s.gray_again.contains(b),
        s.has(b) <==> s.boxes.contains_key(b),
        s.live(b) == s.boxes[b].flags.live,
        s.size(b) == s.boxes[b].layout.size(),
        s.is_unswept(b) <==> s.all.take(s.unswept as int).contains(b),
{
    let front = s.all.take(s.unswept as int);
    if s.is_unswept(b) {
        let i = choose|i: int| 0 <= i < s.unswept && s.all[i] == b;
        assert(front[i] == b);
    }
    if front.contains(b) {
        let i = choose|i: int| 0 <= i < front.len() && front[i] == b;
        assert(s.all[i] == b);
    }
}

/// A pointer counts as marked once its target was found in its way, and a box is pointed to exactly if
/// the pointer is there.
pub proof fn marked_pointers_were_followed(s: HeapView, edges: Seq<Edge>, b: GcBox)
    ensures
        marking::marked(s, Edge::Strong(b)) <==> s.boxes[b].flags.color == GcColor::Gray
            || s.boxes[b].flags.color == GcColor::Black,
        marking::marked(s, Edge::Weak(b)) <==> s.boxes[b].flags.color != GcColor::White,
        marking::points_strongly(edges, b) <==> edges.contains(Edge::Strong(b)),
        marking::points_weakly(edges, b) <==> edges.contains(Edge::Weak(b)),
{
    assert(s.boxes[b].flags.color == GcColor::White || s.boxes[b].flags.color == GcColor::WhiteWeak
        || s.boxes[b].flags.color == GcColor::Gray || s.boxes[b].flags.color == GcColor::Black) by {
        match s.boxes[b].flags.color {
            GcColor::White => {},
            GcColor::WhiteWeak => {},
            GcColor::Gray => {},
            GcColor::Black => {},
        }
    }
    assert forall|e: Edge| edges.contains(e) implies exists|i: int|
        0 <= i < edges.len() && #[trigger] edges[i] == e by {
        let i = choose|i: int| 0 <= i < edges.len() && edges[i] == e;
        assert(edges[i] == e);
    }
    assert(edges.contains(Edge::Strong(b)) ==> marking::points_strongly(edges, b));
    assert(edges.contains(Edge::Weak(b)) ==> marking::points_weakly(edges, b));
}

/// What a safe strong pointer leads to is there, and the next visit of the sweep leaves it there with
/// its contents.
pub proof fn safe_pointers_lead_to_contents<T: Collect>(s: State<T>, b: GcBox)
    requires
        s.inv(),
        s.safe(Edge::Strong(b)),
    ensures
        s.heap.boxes.contains_key(b),
        s.values.contains_key(b),
        s.heap.unswept > 0 ==> s.sweep_one().values.contains_key(b) && s.sweep_one().values[b]
            == s.values[b] && s.sweep_one().heap.boxes.contains_key(b),
{
    if s.heap.unswept > 0 {
        let c = s.heap.next_unswept()->0;
        if c == b {
            assert(s.heap.all[s.heap.unswept - 1] == b);
            assert(s.heap.is_unswept(b));
        }
    }
}

/// A collection begins in the state that it is given, and takes one step after the other.
pub proof fn collections_go_step_by_step<T: Collect>(s: State<T>, root: Seq<Edge>, stop: Stop, n: nat)
    ensures
        Progress::start(s).state == s,
        !Progress::start(s).has_slept,
        !Progress::start(s).done,
        Progress::start(s).after(root, stop, 0) == Progress::start(s),
        Progress::start(s).after(root, stop, n + 1) == Progress::start(s).after(
            root,
            stop,
            n,
        ).step(root, stop),
{
}

// ---- steps of a collection ----
/// Tracing a box makes it black, marks all that it points to and nothing else, and changes no contents.
pub proof fn tracing_a_box_marks_its_targets<T: Collect>(s: State<T>, root: Seq<Edge>, b: GcBox)
    requires
        s.sound(root, Seq::empty()),
        s.heap.phase == Phase::Mark,
        s.heap.next_gray() == Some(b),
    ensures
        ({
            let t = s.mark_one(root);
            let edges = s.values[b].edges();
            &&& t.values == s.values
            &&& t.heap.phase == Phase::Mark && t.heap.root_needs_trace == s.heap.root_needs_trace
            &&& t.heap.boxes[b].flags.color == GcColor::Black
            &&& went_up(
                s.heap.metrics.traced,
                t.heap.metrics.traced,
                s.heap.boxes[b].layout.size() as int,
            )
            &&& forall|e: Edge|
                edges.contains(e) ==> match e {
                    Edge::Strong(x) => t.heap.boxes[x].flags.color == GcColor::Gray
                        || t.heap.boxes[x].flags.color == GcColor::Black,
                    Edge::Weak(x) => t.heap.boxes[x].flags.color != GcColor::White,
                }
            &&& forall|x: GcBox| #[trigger]
                s.heap.boxes.contains_key(x) && s.heap.is_white(x) && !edges.contains(
                    Edge::Strong(x),
                ) ==> t.heap.is_white(x)
            &&& forall|x: GcBox| #[trigger]
                s.heap.boxes.contains_key(x) && x != b && !s.heap.is_white(x)
                    ==> t.heap.boxes[x].flags.color == s.heap.boxes[x].flags.color
        }),
{
    let h = s.heap.take_gray();
    let edges = s.edges(b);
    soundness::mark_box_is_sound(s, root, Seq::empty());
    crate::heap_laws::take_gray_keeps_inv(s.heap);
    assert(s.heap.queued(b));
    assert(s.values.contains_key(b));
    marking::trace_all_marks(h, edges);
    lemma_tracing_counts_no_work(h, edges);
    let t = collect::trace_all::<Heap>(h, edges);
    assert(h.boxes.contains_key(b));
    assert forall|e: Edge| edges.contains(e) implies match e {
        Edge::Strong(x) => t.boxes[x].flags.color == GcColor::Gray || t.boxes[x].flags.color
            == GcColor::Black,
        Edge::Weak(x) => t.boxes[x].flags.color != GcColor::White,
    } by {
        let i = choose|i: int| 0 <= i < edges.len() && edges[i] == e;
        assert(marking::marked(t, edges[i]));
    }
    assert forall|x: GcBox| #[trigger]
        s.heap.boxes.contains_key(x) && s.heap.is_white(x) && !edges.contains(
            Edge::Strong(x),
        ) implies t.is_white(x) by {
        assert(t.boxes.dom().contains(x));
        assert(t.boxes.contains_key(x));
        if marking::points_strongly(edges, x) {
            let i = choose|i: int| 0 <= i < edges.len() && #[trigger] edges[i] == Edge::Strong(x);
            assert(edges.contains(edges[i]));
        }
    }
    assert forall|x: GcBox| #[trigger]
        s.heap.boxes.contains_key(x) && x != b && !s.heap.is_white(x) implies t.boxes[x].flags.color
        == s.heap.boxes[x].flags.color by {
        assert(t.boxes.dom().contains(x));
        assert(t.boxes.contains_key(x));
    }
}

/// Being shown pointers is not the work of tracing a box.
proof fn lemma_tracing_counts_no_work(s: HeapView, edges: Seq<Edge>)
    ensures
        collect::trace_all::<Heap>(s, edges).metrics.traced == s.metrics.traced,
    decreases edges.len(),
{
    if edges.len() > 0 {
        lemma_tracing_counts_no_work(s, edges.drop_last());
    }
}

/// Once no box is queued the root is traced, if it has to be: all that it points to is marked and
/// nothing else. If nothing is left to trace nothing happens.
pub proof fn tracing_the_root_marks_its_targets<T: Collect>(s: State<T>, root: Seq<Edge>)
    requires
        s.sound(root, Seq::empty()),
        s.heap.phase == Phase::Mark,
        s.heap.gray.len() == 0,
        s.heap.gray_again.len() == 0,
    ensures
        !s.heap.root_needs_trace ==> s.mark_one(root) == s,
        s.heap.root_needs_trace ==> {
            let t = s.mark_one(root);
            &&& t.values == s.values
            &&& !t.heap.root_needs_trace
            &&& t.heap.phase == Phase::Mark
            &&& forall|e: Edge|
                root.contains(e) ==> match e {
                    Edge::Strong(x) => t.heap.boxes[x].flags.color == GcColor::Gray
                        || t.heap.boxes[x].flags.color == GcColor::Black,
                    Edge::Weak(x) => t.heap.boxes[x].flags.color != GcColor::White,
                }
            &&& forall|x: GcBox| #[trigger]
                s.heap.boxes.contains_key(x) && s.heap.is_white(x) && !root.contains(
                    Edge::Strong(x),
                ) ==> t.heap.is_white(x)
        },
{
    if s.heap.root_needs_trace {
        soundness::mark_root_is_sound(s, root, Seq::empty());
        marking::trace_all_marks(s.heap, root);
        let t = collect::trace_all::<Heap>(s.heap, root);
        assert forall|e: Edge| root.contains(e) implies match e {
            Edge::Strong(x) => t.boxes[x].flags.color == GcColor::Gray || t.boxes[x].flags.color
                == GcColor::Black,
            Edge::Weak(x) => t.boxes[x].flags.color != GcColor::White,
        } by {
            let i = choose|i: int| 0 <= i < root.len() && root[i] == e;
            assert(marking::marked(t, root[i]));
        }
        assert forall|x: GcBox| #[trigger]
            s.heap.boxes.contains_key(x) && s.heap.is_white(x) && !root.contains(
                Edge::Strong(x),
            ) implies t.is_white(x) by {
            assert(t.boxes.dom().contains(x));
            assert(t.boxes.contains_key(x));
            if marking::points_strongly(root, x) {
                let i = choose|i: int| 0 <= i < root.len() && #[trigger] root[i] == Edge::Strong(x);
                assert(root.contains(root[i]));
            }
        }
    }
}

/// The phases follow each other: from sleep to marking, from marking to the sweep once nothing is left
/// to trace, and from the sweep to sleep once every box was visited.
pub proof fn phases_follow_each_other<T: Collect>(p: Progress<T>, root: Seq<Edge>, stop: Stop)
    requires
        p.state.sound(root, Seq::empty()),
    ensures
        ({
            let s = p.state.heap;
            let q = p.step(root, stop);
            let t = q.state.heap;
            &&& s.phase == Phase::Sleep ==> t.phase == Phase::Mark && q.has_slept && t.boxes == s.boxes
                && q.state.values == p.state.values
            &&& s.phase == Phase::Mark ==> {
                &&& q.has_slept == p.has_slept
                &&& t.phase == Phase::Sweep <==> s.gray.len() == 0 && s.gray_again.len() == 0
                    && !s.root_needs_trace && stop != Stop::FullyMarked
                &&& t.phase == Phase::Mark || t.phase == Phase::Sweep
                &&& q.state.values == p.state.values
            }
            &&& s.phase == Phase::Sweep ==> {
                &&& q.has_slept == p.has_slept
                &&& t.phase == Phase::Sleep <==> s.unswept == 0 && stop != Stop::FullyMarked && stop
                    != Stop::AtSweep
                &&& t.phase == Phase::Sleep || t.phase == Phase::Sweep
                &&& t.phase == Phase::Sleep ==> t.metrics.debt_reset == p.has_slept
            }
        }),
{
    let s = p.state;
    if s.heap.phase == Phase::Mark {
        if s.heap.next_gray() is Some {
            soundness::mark_box_is_sound(s, root, Seq::empty());
            crate::heap_laws::take_gray_keeps_inv(s.heap);
            marking::trace_all_marks(s.heap.take_gray(), s.edges(s.heap.next_gray()->0));
        } else if s.heap.root_needs_trace {
            soundness::mark_root_is_sound(s, root, Seq::empty());
            marking::trace_all_marks(s.heap, root);
        }
    }
}

/// A collection is done where it was told to stop: with everything marked, at the beginning of the
/// sweep, at the end of the cycle, or at the end of a cycle that it did in one piece.
pub proof fn collection_stops_where_told<T: Collect>(p: Progress<T>, root: Seq<Edge>, stop: Stop)
    requires
        p.state.heap.phase != Phase::Drop,
        !p.done,
    ensures
        ({
            let s = p.state.heap;
            let q = p.step(root, stop);
            &&& s.phase == Phase::Sleep ==> !q.done
            &&& s.phase == Phase::Mark ==> (q.done <==> stop == Stop::FullyMarked && s.gray.len() == 0
                && s.gray_again.len() == 0 && !s.root_needs_trace)
            &&& s.phase == Phase::Sweep ==> (q.done <==> stop == Stop::FullyMarked || stop
                == Stop::AtSweep || s.unswept == 0 && (stop == Stop::FinishCycle || p.has_slept))
            &&& q.done && (s.phase == Phase::Mark || stop == Stop::FullyMarked || stop == Stop::AtSweep)
                ==> q.state == p.state
        }),
{
}

/// A collection ends at the first moment that it may: once it is done or, if it only pays debt, as soon
/// as none is owed. Until then debt was owed after every step.
pub proof fn collection_ends_as_early_as_it_may<T: Collect, F: Fn(&Metrics) -> bool>(
    s: State<T>,
    end: Progress<T>,
    n: nat,
    root: Seq<Edge>,
    run_until: RunUntil,
    stop: Stop,
    owes: F,
)
    requires
        Progress::start(s).ends_after(end, n, root, run_until, stop, owes),
    ensures
        run_until == RunUntil::Stop ==> end.done,
        run_until == RunUntil::PayDebt && !end.done ==> call_ensures(
            owes,
            (&end.state.heap.metrics,),
            false,
        ),
        run_until == RunUntil::PayDebt && n > 0 ==> call_ensures(owes, (&s.heap.metrics,), true),
        run_until == RunUntil::PayDebt ==> forall|k: nat|
            k < n ==> call_ensures(
                owes,
                (&(#[trigger] Progress::start(s).after(root, stop, k)).state.heap.metrics,),
                true,
            ),
        forall|k: nat| k < n ==> !(#[trigger] Progress::start(s).after(root, stop, k)).done,
        n == 0 ==> end.state == s,
        n > 0 ==> end == Progress::start(s).after(root, stop, (n - 1) as nat).step(root, stop),
{
    assert(Progress::start(s).after(root, stop, 0) == Progress::start(s));
}

} // verus!
