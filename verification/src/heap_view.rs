//! The mathematical model of the heap that the collector works on.

use crate::layout::Layout;
use crate::metrics::Metrics;
use crate::types::{CollectVTable, Flags, GcBox, GcColor, Meta};
use vstd::prelude::*;

verus! {

/// What the collector is doing.
#[derive(Clone, Copy, Debug, PartialEq, Eq, Structural)]
pub enum Phase {
    /// Finding the boxes that are reachable.
    Mark,
    /// Freeing those that are not.
    Sweep,
    /// Nothing, until enough has been allocated.
    Sleep,
    /// The heap is gone.
    Drop,
}

/// What is known of one box.
#[derive(Clone, Copy, Debug, PartialEq, Eq, Structural)]
pub struct BoxView {
    pub flags: Flags,
    pub meta: Meta,
    pub layout: Layout,
}

impl BoxView {
    /// The box with its contents treated in another way and described by other metadata.
    pub open spec fn converted(self, vtable: CollectVTable, needs_trace: bool, meta: Meta) -> BoxView {
        BoxView { flags: Flags { vtable, needs_trace, ..self.flags }, meta, ..self }
    }
}

/// The state of the heap: its boxes, the order in which the collector visits them, and its phase.
#[verifier::ext_equal]
pub struct HeapView {
    /// The boxes that exist.
    pub boxes: Map<GcBox, BoxView>,
    /// Every box, oldest first.
    pub all: Seq<GcBox>,
    /// How many of the oldest boxes the sweep has still to visit. It goes from the youngest of
    /// these to the oldest.
    pub unswept: nat,
    /// The boxes found and not traced yet; the last one is next.
    pub gray: Seq<GcBox>,
    /// The boxes to be traced again after a write barrier; the last one is next.
    pub gray_again: Seq<GcBox>,
    pub phase: Phase,
    /// Whether the root has still to be traced in this cycle.
    pub root_needs_trace: bool,
    pub metrics: Metrics,
    /// No box that exists lies above this address.
    pub brk: usize,
}

impl HeapView {
    pub open spec fn empty() -> HeapView {
        HeapView {
            boxes: Map::empty(),
            all: Seq::empty(),
            unswept: 0,
            gray: Seq::empty(),
            gray_again: Seq::empty(),
            phase: Phase::Sleep,
            root_needs_trace: true,
            metrics: Metrics::zero(),
            brk: 0,
        }
    }

    pub open spec fn has(self, b: GcBox) -> bool {
        self.boxes.contains_key(b)
    }

    pub open spec fn color(self, b: GcBox) -> GcColor {
        self.boxes[b].flags.color
    }

    pub open spec fn live(self, b: GcBox) -> bool {
        self.boxes[b].flags.live
    }

    pub open spec fn size(self, b: GcBox) -> usize {
        self.boxes[b].layout.size()
    }

    /// White or weakly white: not found to be strongly reachable.
    pub open spec fn is_white(self, b: GcBox) -> bool {
        self.color(b) == GcColor::White || self.color(b) == GcColor::WhiteWeak
    }

    /// Whether a box is queued for tracing.
    pub open spec fn queued(self, b: GcBox) -> bool {
        self.gray.contains(b) || self.gray_again.contains(b)
    }

    /// Whether the sweep has still to visit a box.
    pub open spec fn is_unswept(self, b: GcBox) -> bool {
        exists|i: int| 0 <= i < self.unswept && self.all[i] == b
    }

    /// The invariant of the heap.
    pub open spec fn inv(self) -> bool {
        &&& self.all.no_duplicates()
        &&& forall|b: GcBox|
            #![trigger self.boxes.contains_key(b)]
            #![trigger self.all.contains(b)]
            self.boxes.contains_key(b) <==> self.all.contains(b)
        &&& forall|b: GcBox| #[trigger] self.boxes.contains_key(b) ==> 0 < b.addr <= self.brk
        &&& self.unswept <= self.all.len()
        &&& self.phase != Phase::Sweep ==> self.unswept == 0
        &&& self.gray.no_duplicates()
        &&& self.gray_again.no_duplicates()
        &&& forall|b: GcBox| self.gray.contains(b) ==> !#[trigger] self.gray_again.contains(b)
        &&& forall|b: GcBox|
            #![trigger self.gray.contains(b)]
            #![trigger self.gray_again.contains(b)]
            self.queued(b) ==> self.has(b) && self.color(b) == GcColor::Gray && self.live(b)
        &&& forall|b: GcBox| #[trigger]
            self.boxes.contains_key(b) && self.color(b) == GcColor::Gray && self.phase
                != Phase::Drop ==> self.queued(b)
        &&& forall|b: GcBox| #[trigger]
            self.boxes.contains_key(b) && self.color(b) == GcColor::Black ==> self.live(b)
        &&& self.phase != Phase::Mark ==> self.gray.len() == 0 && self.gray_again.len() == 0
        &&& self.phase == Phase::Sleep ==> self.root_needs_trace
        &&& self.phase == Phase::Sweep || self.phase == Phase::Sleep ==> forall|i: int|
            self.unswept <= i < self.all.len() ==> self.color(#[trigger] self.all[i])
                == GcColor::White
    }

    // ---- single steps ----
    pub open spec fn with_flags(self, b: GcBox, flags: Flags) -> HeapView {
        HeapView { boxes: self.boxes.insert(b, BoxView { flags, ..self.boxes[b] }), ..self }
    }

    pub open spec fn with_box(self, b: GcBox, new: BoxView) -> HeapView {
        HeapView { boxes: self.boxes.insert(b, new), ..self }
    }

    pub open spec fn with_color(self, b: GcBox, color: GcColor) -> HeapView {
        self.with_flags(b, Flags { color, ..self.boxes[b].flags })
    }

    pub open spec fn with_metrics(self, metrics: Metrics) -> HeapView {
        HeapView { metrics, ..self }
    }

    pub open spec fn with_phase(self, phase: Phase) -> HeapView {
        HeapView { phase, ..self }
    }

    /// A strong pointer to `b` was found: a white box becomes gray and is queued, or black if it
    /// needs no tracing. Only the first time counts as a mark.
    pub open spec fn trace(self, b: GcBox) -> HeapView {
        if self.is_white(b) {
            let found = if self.boxes[b].flags.needs_trace {
                HeapView { gray: self.gray.push(b), ..self.with_color(b, GcColor::Gray) }
            } else {
                self.with_color(b, GcColor::Black)
            };
            if self.color(b) == GcColor::White {
                found.with_metrics(self.metrics.after_marked(self.size(b)))
            } else {
                found
            }
        } else {
            self
        }
    }

    /// A weak pointer to `b` was found.
    pub open spec fn trace_weak(self, b: GcBox) -> HeapView {
        if self.color(b) == GcColor::White {
            self.with_color(b, GcColor::WhiteWeak).with_metrics(
                self.metrics.after_marked(self.size(b)),
            )
        } else {
            self
        }
    }

    /// A black box becomes gray and is queued to be traced again; the work done on it is undone.
    pub open spec fn make_gray_again(self, b: GcBox) -> HeapView {
        HeapView {
            gray_again: self.gray_again.push(b),
            metrics: self.metrics.after_untraced(self.size(b)),
            ..self.with_color(b, GcColor::Gray)
        }
    }

    /// The barrier before `parent` adopts `child`, or any child if none is given.
    pub open spec fn backward_barrier(self, parent: GcBox, child: Option<GcBox>) -> HeapView {
        if self.phase == Phase::Mark && self.color(parent) == GcColor::Black && (child is None
            || self.is_white(child->0)) {
            self.make_gray_again(parent)
        } else {
            self
        }
    }

    /// The barrier before `parent` adopts `child` weakly.
    pub open spec fn backward_barrier_weak(self, parent: GcBox, child: GcBox) -> HeapView {
        if self.phase == Phase::Mark && self.color(parent) == GcColor::Black && self.color(child)
            == GcColor::White {
            self.make_gray_again(parent)
        } else {
            self
        }
    }

    /// The barrier before `child` is adopted by `parent`, or by any box if none is given.
    pub open spec fn forward_barrier(self, parent: Option<GcBox>, child: GcBox) -> HeapView {
        if self.phase == Phase::Mark && (parent is None || self.color(parent->0)
            == GcColor::Black) {
            self.trace(child)
        } else {
            self
        }
    }

    /// The barrier before `child` is adopted weakly by `parent`, or by any box if none is given.
    pub open spec fn forward_barrier_weak(self, parent: Option<GcBox>, child: GcBox) -> HeapView {
        if self.phase == Phase::Mark && (parent is None || self.color(parent->0)
            == GcColor::Black) {
            self.trace_weak(child)
        } else {
            self
        }
    }

    /// Keeps a box that was about to be collected: it is queued whether or not it needs tracing.
    pub open spec fn resurrect(self, b: GcBox) -> HeapView {
        if self.is_white(b) {
            let found = HeapView {
                gray: self.gray.push(b),
                ..self.with_color(b, GcColor::Gray)
            };
            if self.color(b) == GcColor::White {
                found.with_metrics(self.metrics.after_marked(self.size(b)))
            } else {
                found
            }
        } else {
            self
        }
    }

    /// Whether a weak pointer to `b` may become a strong one: the contents must be alive and, in
    /// the sweep phase, not about to be dropped.
    pub open spec fn upgrade(self, b: GcBox) -> bool {
        self.live(b) && !(self.phase == Phase::Sweep && self.color(b) == GcColor::WhiteWeak)
    }

    /// The root may have changed, so it has to be traced in this cycle.
    pub open spec fn root_barrier(self) -> HeapView {
        if self.phase == Phase::Mark {
            HeapView { root_needs_trace: true, ..self }
        } else {
            self
        }
    }

    pub open spec fn gray_remaining(self) -> bool {
        self.gray.len() > 0 || self.gray_again.len() > 0 || self.root_needs_trace
    }

    /// The box to be traced next: the queue of the barriers comes last, so that its boxes may
    /// change again without another barrier.
    pub open spec fn next_gray(self) -> Option<GcBox> {
        if self.gray.len() > 0 {
            Some(self.gray.last())
        } else if self.gray_again.len() > 0 {
            Some(self.gray_again.last())
        } else {
            None
        }
    }

    /// The next gray box leaves its queue and becomes black.
    pub open spec fn take_gray(self) -> HeapView {
        self.take_from(self.gray.len() > 0)
    }

    /// The next box of the first or of the second queue leaves it and becomes black.
    pub open spec fn take_from(self, first: bool) -> HeapView {
        let b = if first {
            self.gray.last()
        } else {
            self.gray_again.last()
        };
        let taken = if first {
            HeapView { gray: self.gray.drop_last(), ..self }
        } else {
            HeapView { gray_again: self.gray_again.drop_last(), ..self }
        };
        taken.with_color(b, GcColor::Black).with_metrics(
            self.metrics.after_traced(self.size(b)),
        )
    }

    /// The sweep begins: every box that exists is to be visited.
    pub open spec fn start_sweep(self) -> HeapView {
        HeapView { phase: Phase::Sweep, unswept: self.all.len(), ..self }
    }

    /// The box that the sweep visits next.
    pub open spec fn next_unswept(self) -> Option<GcBox> {
        if self.unswept > 0 {
            Some(self.all[self.unswept - 1])
        } else {
            None
        }
    }

    /// The sweep visits a box: a white one is freed, one that only weak pointers reach loses its
    /// contents, and a black one stays.
    pub open spec fn sweep_next(self) -> HeapView {
        let b = self.next_unswept()->0;
        let size = self.size(b);
        let rest = HeapView { unswept: (self.unswept - 1) as nat, ..self };
        let dropped = if self.live(b) {
            self.metrics.after_dropped(size)
        } else {
            self.metrics
        };
        match self.color(b) {
            GcColor::White => HeapView {
                boxes: self.boxes.remove(b),
                all: self.all.remove(self.unswept - 1),
                metrics: dropped.after_freed(size),
                ..rest
            },
            GcColor::WhiteWeak => rest.with_flags(
                b,
                Flags { color: GcColor::White, live: false, ..self.boxes[b].flags },
            ).with_metrics(dropped.after_remembered(size)),
            GcColor::Black => rest.with_color(b, GcColor::White).with_metrics(
                self.metrics.after_remembered(size),
            ),
            GcColor::Gray => rest,
        }
    }

    /// The cycle is over.
    pub open spec fn finish_cycle(self, has_slept: bool) -> HeapView {
        HeapView {
            phase: Phase::Sleep,
            root_needs_trace: true,
            metrics: self.metrics.after_cycle(has_slept),
            ..self
        }
    }

    /// A new box stands at `b`, above every other one.
    pub open spec fn allocate(self, b: GcBox, new: BoxView, brk: usize) -> HeapView {
        HeapView {
            boxes: self.boxes.insert(b, new),
            all: self.all.push(b),
            metrics: self.metrics.after_allocated(new.layout.size()),
            brk,
            ..self
        }
    }

    /// The heap is about to go: nothing is left to mark or to sweep.
    pub open spec fn start_drop(self) -> HeapView {
        HeapView {
            phase: Phase::Drop,
            unswept: 0,
            gray: Seq::empty(),
            gray_again: Seq::empty(),
            ..self
        }
    }

    /// The youngest box goes.
    pub open spec fn drop_next(self) -> HeapView {
        let b = self.all.last();
        let dropped = if self.live(b) {
            self.metrics.after_dropped(self.size(b))
        } else {
            self.metrics
        };
        HeapView {
            boxes: self.boxes.remove(b),
            all: self.all.drop_last(),
            metrics: dropped.after_freed(self.size(b)),
            ..self
        }
    }

    /// The heap after every box is gone, youngest first.
    pub open spec fn drop_all(self) -> HeapView
        decreases self.all.len(),
    {
        if self.all.len() == 0 {
            self
        } else {
            self.drop_next().drop_all()
        }
    }
}

} // verus!
