//! The course of a collection: the order of its steps, where it may stop, and that it ends.

use crate::collect::{self, Collect, Edge, Trace};
use crate::heap::Heap;
use crate::heap_view::{HeapView, Phase};
use crate::metrics::Metrics;
use crate::soundness;
use crate::state::State;
use crate::types::GcBox;
use vstd::prelude::*;

verus! {

/// How long a collection runs.
#[derive(Clone, Copy, Debug, PartialEq, Eq, Structural)]
pub enum RunUntil {
    /// Until the stop condition is reached or no debt is left.
    PayDebt,
    /// Until the stop condition is reached.
    Stop,
}

/// Where a collection stops.
#[derive(Clone, Copy, Debug, PartialEq, Eq, Structural)]
pub enum Stop {
    /// At the end of marking, just before the sweep phase.
    FullyMarked,
    /// At the very beginning of the sweep phase.
    AtSweep,
    /// At the end of the current cycle.
    FinishCycle,
    /// Once an entire cycle was done in one piece. More is never needed: whatever was unreachable
    /// is then gone.
    Full,
}

impl Stop {
    /// Whether the collector may not begin to sweep.
    pub open spec fn before_sweep(self) -> bool {
        self == Stop::FullyMarked
    }

    /// Whether the collector may not free anything.
    pub open spec fn before_free(self) -> bool {
        self == Stop::FullyMarked || self == Stop::AtSweep
    }
}

/// A collection in progress.
#[verifier::ext_equal]
#[verifier::reject_recursive_types(T)]
pub struct Progress<T> {
    pub state: State<T>,
    /// Whether the whole of the current cycle belongs to this collection.
    pub has_slept: bool,
    /// Whether the stop condition was reached.
    pub done: bool,
}

impl<T: Collect> Progress<T> {
    pub open spec fn start(state: State<T>) -> Progress<T> {
        Progress { state, has_slept: false, done: false }
    }

    pub open spec fn with_heap(self, heap: HeapView) -> Progress<T> {
        Progress { state: self.state.with_heap(heap), ..self }
    }

    /// The next step of a collection.
    pub open spec fn step(self, root: Seq<Edge>, stop: Stop) -> Progress<T> {
        let heap = self.state.heap;
        match heap.phase {
            Phase::Sleep => Progress {
                has_slept: true,
                ..self.with_heap(heap.with_phase(Phase::Mark))
            },
            Phase::Mark => if heap.gray_remaining() {
                Progress { state: self.state.mark_one(root), ..self }
            } else if stop.before_sweep() {
                Progress { done: true, ..self }
            } else {
                self.with_heap(heap.start_sweep())
            },
            Phase::Sweep => if stop.before_free() {
                Progress { done: true, ..self }
            } else if heap.unswept > 0 {
                Progress { state: self.state.sweep_one(), ..self }
            } else {
                Progress {
                    done: stop == Stop::FinishCycle || self.has_slept,
                    ..self.with_heap(heap.finish_cycle(self.has_slept))
                }
            },
            Phase::Drop => Progress { done: true, ..self },
        }
    }

    /// The collection after `n` steps.
    pub open spec fn after(self, root: Seq<Edge>, stop: Stop, n: nat) -> Progress<T>
        decreases n,
    {
        if n == 0 {
            self
        } else {
            self.after(root, stop, (n - 1) as nat).step(root, stop)
        }
    }

    /// Whether a collection that began here ended at `end` after `n` steps. It ends at the first
    /// step that reaches the stop condition; one that pays debt may also end at the first step
    /// after which `owes` is false of the metrics, or before it began.
    pub open spec fn ends_after<F: Fn(&Metrics) -> bool>(
        self,
        end: Progress<T>,
        n: nat,
        root: Seq<Edge>,
        run_until: RunUntil,
        stop: Stop,
        owes: F,
    ) -> bool {
        &&& end == self.after(root, stop, n)
        &&& forall|k: nat| k < n ==> !(#[trigger] self.after(root, stop, k)).done
        &&& run_until == RunUntil::PayDebt ==> forall|k: nat|
            k < n ==> call_ensures(
                owes,
                (&(#[trigger] self.after(root, stop, k)).state.heap.metrics,),
                true,
            )
        &&& end.done || run_until == RunUntil::PayDebt && call_ensures(
            owes,
            (&end.state.heap.metrics,),
            false,
        )
    }

    /// How far a collection is from its end: the passes through the phases that are left, and the
    /// work that is left in this one.
    pub open spec fn passes_left(self) -> nat {
        match self.state.heap.phase {
            Phase::Mark => if self.has_slept {
                2
            } else {
                5
            },
            Phase::Sweep => if self.has_slept {
                1
            } else {
                4
            },
            Phase::Sleep => 3,
            Phase::Drop => 0,
        }
    }

    pub open spec fn work_left(self) -> nat {
        match self.state.heap.phase {
            Phase::Mark => white_boxes(self.state.heap).len(),
            Phase::Sweep => self.state.heap.unswept,
            _ => 0,
        }
    }

    pub open spec fn queue_left(self) -> nat {
        let heap = self.state.heap;
        if heap.phase == Phase::Mark {
            heap.gray.len() + heap.gray_again.len() + if heap.root_needs_trace {
                1nat
            } else {
                0nat
            }
        } else {
            0
        }
    }
}

/// The boxes that were not found to be strongly reachable so far.
pub open spec fn white_boxes(s: HeapView) -> Set<GcBox> {
    s.all.to_set().filter(|b: GcBox| s.is_white(b))
}

/// Showing pointers to the collector makes no box white; a queue only grows by boxes that were.
proof fn lemma_trace_all_work(s: HeapView, edges: Seq<Edge>)
    requires
        s.inv(),
        collect::all_ready::<Heap>(s, edges),
    ensures
        ({
            let t = collect::trace_all::<Heap>(s, edges);
            ||| white_boxes(t).len() < white_boxes(s).len()
            ||| white_boxes(t).len() == white_boxes(s).len() && t.gray.len() == s.gray.len()
        }),
    decreases edges.len(),
{
    broadcast use vstd::seq_lib::group_seq_properties;

    if edges.len() > 0 {
        let front = edges.drop_last();
        let e = edges.last();
        assert forall|i: int| 0 <= i < front.len() implies <Heap as Trace>::ready(
            s,
            #[trigger] front[i],
        ) by {
            assert(front[i] == edges[i]);
        }
        assert(<Heap as Trace>::ready(s, edges[edges.len() - 1]));
        lemma_trace_all_work(s, front);
        crate::marking::trace_all_marks(s, front);
        let m = collect::trace_all::<Heap>(s, front);
        let t = collect::trace_all::<Heap>(s, edges);
        let b = e.target();
        assert(m.boxes.contains_key(b));
        assert(m.all.contains(b));
        assert(m.all.to_set().finite());
        if e is Strong && m.is_white(b) {
            assert(white_boxes(t) =~= white_boxes(m).remove(b));
        } else {
            assert(white_boxes(t) =~= white_boxes(m));
        }
    }
}

/// Every step of a collection that is not its last brings it closer to its end.
pub proof fn step_decreases<T: Collect>(p: Progress<T>, root: Seq<Edge>, stop: Stop)
    requires
        p.state.sound(root, Seq::empty()),
        p.state.heap.phase == Phase::Sleep ==> !p.has_slept,
    ensures
        ({
            let q = p.step(root, stop);
            q.done || {
                ||| q.passes_left() < p.passes_left()
                ||| q.passes_left() == p.passes_left() && q.work_left() < p.work_left()
                ||| q.passes_left() == p.passes_left() && q.work_left() == p.work_left()
                    && q.queue_left() < p.queue_left()
            }
        }),
{
    broadcast use vstd::seq_lib::group_seq_properties;

    let s = p.state;
    let heap = s.heap;
    if heap.phase == Phase::Mark && heap.gray_remaining() {
        if heap.next_gray() is Some {
            soundness::mark_box_is_sound(s, root, Seq::empty());
            let b = heap.next_gray()->0;
            let h = heap.take_gray();
            crate::heap_laws::take_gray_keeps_inv(heap);
            assert(heap.queued(b));
            assert(heap.all.to_set().finite());
            assert(white_boxes(h) =~= white_boxes(heap));
            lemma_trace_all_work(h, s.edges(b));
            crate::marking::trace_all_marks(h, s.edges(b));
        } else {
            soundness::mark_root_is_sound(s, root, Seq::empty());
            lemma_trace_all_work(heap, root);
            crate::marking::trace_all_marks(heap, root);
            let t = collect::trace_all::<Heap>(heap, root);
            let u = p.step(root, stop).state.heap;
            assert(white_boxes(u) =~= white_boxes(t));
        }
    }
}

/// Every step of a collection keeps the arena sound.
pub proof fn step_is_sound<T: Collect>(p: Progress<T>, root: Seq<Edge>, stop: Stop)
    requires
        p.state.sound(root, Seq::empty()),
        p.state.heap.phase == Phase::Sleep ==> !p.has_slept,
    ensures
        p.step(root, stop).state.sound(root, Seq::empty()),
        !p.step(root, stop).done && p.step(root, stop).state.heap.phase == Phase::Sleep ==> !p.step(
            root,
            stop,
        ).has_slept,
{
    let s = p.state;
    let heap = s.heap;
    match heap.phase {
        Phase::Sleep => soundness::start_mark_is_sound(s, root),
        Phase::Mark => if heap.next_gray() is Some {
            soundness::mark_box_is_sound(s, root, Seq::empty());
            crate::heap_laws::take_gray_keeps_inv(heap);
            crate::marking::trace_all_marks(heap.take_gray(), s.edges(heap.next_gray()->0));
        } else if heap.root_needs_trace {
            soundness::mark_root_is_sound(s, root, Seq::empty());
            crate::marking::trace_all_marks(heap, root);
        } else if !stop.before_sweep() {
            soundness::start_sweep_is_sound(s, root, Seq::empty());
        },
        Phase::Sweep => if !stop.before_free() {
            if heap.unswept > 0 {
                soundness::sweep_one_is_sound(s, root, Seq::empty());
            } else {
                soundness::finish_cycle_is_sound(s, root, Seq::empty(), p.has_slept);
            }
        },
        Phase::Drop => {},
    }
}

} // verus!
