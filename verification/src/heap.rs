//! The boxes of the heap, threaded on the lists of the collector.

use crate::collect::{Edge, Trace};
use crate::gc::{Gc, Unique, Weak};
use crate::heap_view::{BoxView, HeapView, Phase};
use crate::layout::{self, Layout};
use crate::metrics::Metrics;
use crate::types::{CollectVTable, Flags, GcBox, GcBoxHeader, GcColor, Meta};
use std::collections::HashMap;
use vstd::prelude::*;

verus! {

/// A box without its contents.
#[derive(Clone, Copy, Debug, PartialEq, Eq, Structural)]
pub struct GcBoxInner {
    pub header: GcBoxHeader,
    pub meta: Meta,
    pub layout: Layout,
}

impl GcBoxInner {
    pub open spec fn view(&self) -> BoxView {
        BoxView { flags: self.header.flags(), meta: self.meta, layout: self.layout }
    }
}

/// The boxes of an arena and the state of their collector, without the contents of the boxes.
///
/// The list of all boxes and the two gray queues are intrusive: they run through the headers.
pub struct Heap {
    metrics: Metrics,
    phase: Phase,
    /// The boxes by address.
    table: HashMap<usize, GcBoxInner>,
    /// The head of the list of all boxes.
    all: Option<GcBox>,
    /// The part of the list of all boxes that the sweep has still to visit. Boxes allocated
    /// during the sweep go before it, so that they stay until they could be traced.
    sweep: Option<GcBox>,
    /// The box just before `sweep` in the list of all boxes. Its link changes when the box at
    /// `sweep` is freed.
    sweep_prev: Option<GcBox>,
    root_needs_trace: bool,
    /// The queue of gray boxes.
    gray: Option<GcBox>,
    /// The queue of the boxes that became gray by a write barrier.
    gray_again: Option<GcBox>,
    /// The end of the address range in use.
    brk: usize,
    all_list: Ghost<Seq<GcBox>>,
    unswept: Ghost<nat>,
    gray_list: Ghost<Seq<GcBox>>,
    gray_again_list: Ghost<Seq<GcBox>>,
}

/// The head of a list whose last element comes first.
pub open spec fn top(list: Seq<GcBox>) -> Option<GcBox> {
    if list.len() > 0 {
        Some(list.last())
    } else {
        None
    }
}

/// The element that follows the one at `i` in a list whose last element comes first.
pub open spec fn below(list: Seq<GcBox>, i: int) -> Option<GcBox> {
    if i > 0 {
        Some(list[i - 1])
    } else {
        None
    }
}

/// The headers of a list link each element to the next.
pub open spec fn linked(table: Map<usize, GcBoxInner>, list: Seq<GcBox>) -> bool {
    forall|i: int|
        0 <= i < list.len() ==> table[(#[trigger] list[i]).addr].header.next() == below(list, i)
}

/// The headers of a queue link each element to the next.
pub open spec fn gray_linked(table: Map<usize, GcBoxInner>, list: Seq<GcBox>) -> bool {
    forall|i: int|
        0 <= i < list.len() ==> table[(#[trigger] list[i]).addr].header.gray_next() == below(
            list,
            i,
        )
}

impl View for Heap {
    type V = HeapView;

    closed spec fn view(&self) -> HeapView {
        HeapView {
            boxes: Map::new(
                |b: GcBox| self.table@.contains_key(b.addr),
                |b: GcBox| self.table@[b.addr].view(),
            ),
            all: self.all_list@,
            unswept: self.unswept@,
            gray: self.gray_list@,
            gray_again: self.gray_again_list@,
            phase: self.phase,
            root_needs_trace: self.root_needs_trace,
            metrics: self.metrics,
            brk: self.brk,
        }
    }
}

impl Heap {
    /// The lists agree with the headers, and the invariant of the heap holds.
    pub closed spec fn wf(&self) -> bool {
        &&& self@.inv()
        &&& self.links_wf()
    }

    spec fn links_wf(&self) -> bool {
        &&& forall|a: usize| #[trigger] self.table@.contains_key(a) ==> self.table@[a].header.wf()
        &&& self.all == top(self.all_list@)
        &&& linked(self.table@, self.all_list@)
        &&& self.gray == top(self.gray_list@)
        &&& gray_linked(self.table@, self.gray_list@)
        &&& self.gray_again == top(self.gray_again_list@)
        &&& gray_linked(self.table@, self.gray_again_list@)
        &&& self.sweep == below(self.all_list@, self.unswept@ as int)
        &&& self.sweep_prev == if self.phase == Phase::Sweep && self.unswept@
            < self.all_list@.len() {
            Some(self.all_list@[self.unswept@ as int])
        } else {
            None
        }
    }

    /// What well-formedness says of the state.
    pub proof fn wf_gives_inv(&self)
        requires
            self.wf(),
        ensures
            self@.inv(),
    {
    }

    pub fn new() -> (heap: Heap)
        ensures
            heap.wf(),
            heap@ == HeapView::empty(),
    {
        broadcast use vstd::std_specs::hash::group_hash_axioms;

        let heap = Heap {
            metrics: Metrics::new(),
            phase: Phase::Sleep,
            table: HashMap::new(),
            all: None,
            sweep: None,
            sweep_prev: None,
            root_needs_trace: true,
            gray: None,
            gray_again: None,
            brk: 0,
            all_list: Ghost(Seq::empty()),
            unswept: Ghost(0),
            gray_list: Ghost(Seq::empty()),
            gray_again_list: Ghost(Seq::empty()),
        };
        assert(heap@ =~= HeapView::empty());
        heap
    }

    pub fn metrics(&self) -> (metrics: &Metrics)
        ensures
            *metrics == self@.metrics,
    {
        &self.metrics
    }

    pub fn phase(&self) -> (phase: Phase)
        ensures
            phase == self@.phase,
    {
        self.phase
    }

    /// Whether anything is left to trace.
    pub fn gray_remaining(&self) -> (b: bool)
        requires
            self.wf(),
        ensures
            b == self@.gray_remaining(),
    {
        self.gray.is_some() || self.gray_again.is_some() || self.root_needs_trace
    }

    /// Whether a box exists.
    pub fn has(&self, b: GcBox) -> (r: bool)
        ensures
            r == self@.has(b),
    {
        broadcast use vstd::std_specs::hash::group_hash_axioms;

        self.table.contains_key(&b.addr)
    }

    /// A box that exists.
    pub fn inner(&self, b: GcBox) -> (inner: GcBoxInner)
        requires
            self@.has(b),
        ensures
            inner.view() == self@.boxes[b],
            inner == self.inner_of(b),
    {
        broadcast use vstd::std_specs::hash::group_hash_axioms;

        *self.table.get(&b.addr).unwrap()
    }

    pub closed spec fn inner_of(&self, b: GcBox) -> GcBoxInner {
        self.table@[b.addr]
    }

    /// The header of a box.
    pub fn header(&self, b: GcBox) -> (header: GcBoxHeader)
        requires
            self@.has(b),
        ensures
            header.flags() == self@.boxes[b].flags,
    {
        self.inner(b).header
    }

    /// The size of a box in memory, without what its contents own elsewhere.
    pub fn size_of_box(&self, b: GcBox) -> (size: usize)
        requires
            self@.has(b),
        ensures
            size == self@.size(b),
    {
        self.inner(b).layout.size()
    }

    /// The metadata stored with a box.
    pub fn meta(&self, b: GcBox) -> (meta: Meta)
        requires
            self@.has(b),
        ensures
            meta == self@.boxes[b].meta,
    {
        self.inner(b).meta
    }

    /// Notes that the root may have changed.
    pub fn root_barrier(&mut self)
        requires
            old(self).wf(),
        ensures
            final(self).wf(),
            final(self)@ == old(self)@.root_barrier(),
    {
        if matches!(self.phase, Phase::Mark) {
            self.root_needs_trace = true;
        }
        assert(self@ =~= old(self)@.root_barrier());
    }

    /// Marks a box found through a strong pointer.
    pub fn trace_box(&mut self, b: GcBox)
        requires
            old(self).wf(),
            old(self)@.phase == Phase::Mark,
            old(self)@.has(b),
            old(self)@.live(b),
        ensures
            final(self).wf(),
            final(self)@ == old(self)@.trace(b),
    {
        broadcast use vstd::std_specs::hash::group_hash_axioms;

        let mut inner = self.inner(b);
        let color = inner.header.color();
        match color {
            GcColor::Black | GcColor::Gray => {},
            GcColor::White | GcColor::WhiteWeak => {
                proof {
                    crate::heap_laws::trace_keeps_inv(self@, b);
                }
                if inner.header.needs_trace() {
                    // A white box that needs tracing is in no queue: it becomes gray and enters
                    // the normal one.
                    inner.header.set_color(GcColor::Gray);
                    inner.header.set_gray_next(self.gray);
                    self.table.insert(b.addr, inner);
                    self.gray = Some(b);
                    self.gray_list = Ghost(self.gray_list@.push(b));
                } else {
                    // One that needs no tracing simply becomes black.
                    inner.header.set_color(GcColor::Black);
                    self.table.insert(b.addr, inner);
                }
                // Only marking the first time counts.
                if matches!(color, GcColor::White) {
                    self.metrics.mark_gc_marked(inner.layout.size());
                }
                assert(self@.boxes =~= old(self)@.trace(b).boxes);
                assert(self@ =~= old(self)@.trace(b));
                assert(old(self)@.all.contains(b));
                assert(!old(self)@.queued(b));
            },
        }
    }

    /// Marks a box found through a weak pointer.
    pub fn trace_weak_box(&mut self, b: GcBox)
        requires
            old(self).wf(),
            old(self)@.phase == Phase::Mark,
            old(self)@.has(b),
        ensures
            final(self).wf(),
            final(self)@ == old(self)@.trace_weak(b),
    {
        broadcast use vstd::std_specs::hash::group_hash_axioms;

        let mut inner = self.inner(b);
        if matches!(inner.header.color(), GcColor::White) {
            proof {
                crate::heap_laws::trace_weak_keeps_inv(self@, b);
            }
            inner.header.set_color(GcColor::WhiteWeak);
            self.table.insert(b.addr, inner);
            self.metrics.mark_gc_marked(inner.layout.size());
            assert(self@.boxes =~= old(self)@.trace_weak(b).boxes);
            assert(self@ =~= old(self)@.trace_weak(b));
        }
    }

    /// Takes a black box, turns it gray and queues it to be traced again.
    pub(crate) fn make_gray_again(&mut self, b: GcBox)
        requires
            old(self).wf(),
            old(self)@.phase == Phase::Mark,
            old(self)@.has(b),
            old(self)@.color(b) == GcColor::Black,
        ensures
            final(self).wf(),
            final(self)@ == old(self)@.make_gray_again(b),
    {
        broadcast use vstd::std_specs::hash::group_hash_axioms;

        proof {
            crate::heap_laws::make_gray_again_keeps_inv(self@, b);
        }
        let mut inner = self.inner(b);
        inner.header.set_color(GcColor::Gray);
        inner.header.set_gray_next(self.gray_again);
        self.table.insert(b.addr, inner);
        self.gray_again = Some(b);
        self.gray_again_list = Ghost(self.gray_again_list@.push(b));
        self.metrics.mark_gc_untraced(inner.layout.size());
        assert(self@.boxes =~= old(self)@.make_gray_again(b).boxes);
        assert(self@ =~= old(self)@.make_gray_again(b));
        assert(old(self)@.all.contains(b));
        assert(!old(self)@.queued(b));
    }

    /// While marking, a black `parent` that may adopt a white `child`, or any child if none is
    /// given, is queued to be traced again.
    pub fn backward_barrier(&mut self, parent: GcBox, child: Option<GcBox>)
        requires
            old(self).wf(),
            old(self)@.has(parent),
            child is Some ==> old(self)@.has(child->0),
        ensures
            final(self).wf(),
            final(self)@ == old(self)@.backward_barrier(parent, child),
    {
        if matches!(self.phase, Phase::Mark) && matches!(self.header(parent).color(), GcColor::Black) {
            let needed: bool = match child {
                None => true,
                Some(c) => matches!(self.header(c).color(), GcColor::White | GcColor::WhiteWeak),
            };
            if needed {
                self.make_gray_again(parent);
            }
        }
    }

    /// While marking, a black `parent` that may adopt a white `child` weakly is queued to be
    /// traced again.
    pub fn backward_barrier_weak(&mut self, parent: GcBox, child: GcBox)
        requires
            old(self).wf(),
            old(self)@.has(parent),
            old(self)@.has(child),
        ensures
            final(self).wf(),
            final(self)@ == old(self)@.backward_barrier_weak(parent, child),
    {
        if matches!(self.phase, Phase::Mark) && matches!(self.header(parent).color(), GcColor::Black)
            && matches!(self.header(child).color(), GcColor::White) {
            self.make_gray_again(parent);
        }
    }

    /// While marking, a `child` that a black `parent`, or any box if none is given, may adopt is
    /// marked at once.
    pub fn forward_barrier(&mut self, parent: Option<GcBox>, child: GcBox)
        requires
            old(self).wf(),
            parent is Some ==> old(self)@.has(parent->0),
            old(self)@.has(child),
            old(self)@.live(child),
        ensures
            final(self).wf(),
            final(self)@ == old(self)@.forward_barrier(parent, child),
    {
        if matches!(self.phase, Phase::Mark) {
            let needed: bool = match parent {
                None => true,
                Some(p) => matches!(self.header(p).color(), GcColor::Black),
            };
            if needed {
                self.trace_box(child);
            }
        }
    }

    /// While marking, a `child` that a black `parent`, or any box if none is given, may adopt
    /// weakly is marked at once.
    pub fn forward_barrier_weak(&mut self, parent: Option<GcBox>, child: GcBox)
        requires
            old(self).wf(),
            parent is Some ==> old(self)@.has(parent->0),
            old(self)@.has(child),
        ensures
            final(self).wf(),
            final(self)@ == old(self)@.forward_barrier_weak(parent, child),
    {
        if matches!(self.phase, Phase::Mark) {
            let needed: bool = match parent {
                None => true,
                Some(p) => matches!(self.header(p).color(), GcColor::Black),
            };
            if needed {
                self.trace_weak_box(child);
            }
        }
    }

    /// Whether a weak pointer to the box may become a strong one.
    ///
    /// A box whose contents were dropped cannot. In the sweep phase, neither can one that only
    /// weak pointers reached while marking: its contents are about to be dropped. A white box that
    /// no weak pointer reached while marking must have been allocated during this sweep, since
    /// otherwise nobody could hold a pointer to it.
    pub fn upgrade(&self, b: GcBox) -> (ok: bool)
        requires
            self@.has(b),
        ensures
            ok == self@.upgrade(b),
    {
        let header = self.header(b);
        if !header.is_live() {
            return false;
        }
        if matches!(self.phase, Phase::Sweep) && matches!(header.color(), GcColor::WhiteWeak) {
            return false;
        }
        true
    }

    /// Marks a box that was about to be collected, so that it and what it holds stay.
    pub fn resurrect(&mut self, b: GcBox)
        requires
            old(self).wf(),
            old(self)@.phase == Phase::Mark,
            old(self)@.has(b),
            old(self)@.live(b),
        ensures
            final(self).wf(),
            final(self)@ == old(self)@.resurrect(b),
    {
        broadcast use vstd::std_specs::hash::group_hash_axioms;

        let mut inner = self.inner(b);
        let color = inner.header.color();
        if matches!(color, GcColor::White | GcColor::WhiteWeak) {
            proof {
                crate::heap_laws::resurrect_keeps_inv(self@, b);
            }
            inner.header.set_color(GcColor::Gray);
            inner.header.set_gray_next(self.gray);
            self.table.insert(b.addr, inner);
            self.gray = Some(b);
            self.gray_list = Ghost(self.gray_list@.push(b));
            // Only marking the first time counts.
            if matches!(color, GcColor::White) {
                self.metrics.mark_gc_marked(inner.layout.size());
            }
            assert(self@.boxes =~= old(self)@.resurrect(b).boxes);
            assert(self@ =~= old(self)@.resurrect(b));
            assert(old(self)@.all.contains(b));
            assert(!old(self)@.queued(b));
        }
    }

    /// Takes the next box to be traced off its queue and turns it black.
    ///
    /// The work counts for the boxes of both queues: a barrier undoes the count of the first time.
    pub(crate) fn take_gray(&mut self) -> (next: Option<GcBox>)
        requires
            old(self).wf(),
        ensures
            final(self).wf(),
            next == old(self)@.next_gray(),
            final(self)@ == (if next is Some {
                old(self)@.take_gray()
            } else {
                old(self)@
            }),
    {
        let next = if self.gray.is_some() {
            self.gray
        } else {
            self.gray_again
        };
        if next.is_some() {
            self.take_from(self.gray.is_some());
        }
        next
    }

    /// Takes the next box of the first or of the second queue off it and turns it black.
    fn take_from(&mut self, first: bool)
        requires
            old(self).wf(),
            if first {
                old(self)@.gray.len() > 0
            } else {
                old(self)@.gray_again.len() > 0
            },
        ensures
            final(self).wf(),
            final(self)@ == old(self)@.take_from(first),
    {
        broadcast use vstd::std_specs::hash::group_hash_axioms;

        let next = if first {
            self.gray
        } else {
            self.gray_again
        };
        let b = next.unwrap();
        proof {
            crate::heap_laws::take_from_keeps_inv(self@, first);
        }
        let mut inner = self.inner(b);
        let rest = inner.header.gray_next();
        inner.header.set_gray_next(None);
        inner.header.set_color(GcColor::Black);
        self.table.insert(b.addr, inner);
        if first {
            self.gray = rest;
            self.gray_list = Ghost(self.gray_list@.drop_last());
        } else {
            self.gray_again = rest;
            self.gray_again_list = Ghost(self.gray_again_list@.drop_last());
        }
        self.metrics.mark_gc_traced(inner.layout.size());
        proof {
            let now = old(self)@.take_from(first);
            let g = old(self).gray_list@;
            let a = old(self).gray_again_list@;
            assert(self@.boxes =~= now.boxes);
            assert(self@ =~= now);
            if first {
                assert(g.contains(b));
                assert forall|i: int| 0 <= i < a.len() implies (#[trigger] a[i]) != b by {
                    assert(a.contains(a[i]));
                }
            } else {
                assert(a.contains(b));
                assert forall|i: int| 0 <= i < g.len() implies (#[trigger] g[i]) != b by {
                    assert(g.contains(g[i]));
                }
            }
        }
    }

    /// Takes a box that [`Heap::make_gray_again`] queued last off its queue again.
    pub(crate) fn take_gray_again(&mut self)
        requires
            old(self).wf(),
            old(self)@.gray_again.len() > 0,
        ensures
            final(self).wf(),
            final(self)@ == old(self)@.take_from(false),
    {
        self.take_from(false);
    }

    /// Notes that the root has been traced.
    pub(crate) fn root_traced(&mut self)
        requires
            old(self).wf(),
            old(self)@.phase == Phase::Mark,
        ensures
            final(self).wf(),
            final(self)@ == (HeapView { root_needs_trace: false, ..old(self)@ }),
    {
        self.root_needs_trace = false;
        assert(self@ =~= HeapView { root_needs_trace: false, ..old(self)@ });
    }

    /// The root has still to be traced in this cycle.
    pub(crate) fn root_needs_trace(&self) -> (b: bool)
        ensures
            b == self@.root_needs_trace,
    {
        self.root_needs_trace
    }
}

impl Heap {
    /// Enters the mark phase.
    pub(crate) fn start_mark(&mut self)
        requires
            old(self).wf(),
            old(self)@.phase == Phase::Sleep,
        ensures
            final(self).wf(),
            final(self)@ == old(self)@.with_phase(Phase::Mark),
    {
        self.phase = Phase::Mark;
        assert(self@ =~= old(self)@.with_phase(Phase::Mark));
    }

    /// Enters the sweep phase: every box that exists now is to be visited. Boxes allocated from
    /// here on are not.
    pub(crate) fn start_sweep(&mut self)
        requires
            old(self).wf(),
            old(self)@.phase == Phase::Mark,
            old(self)@.gray.len() == 0,
            old(self)@.gray_again.len() == 0,
        ensures
            final(self).wf(),
            final(self)@ == old(self)@.start_sweep(),
    {
        proof {
            crate::heap_laws::start_sweep_keeps_inv(self@);
        }
        self.phase = Phase::Sweep;
        self.sweep = self.all;
        self.unswept = Ghost(self.all_list@.len());
        assert(self@ =~= old(self)@.start_sweep());
    }

    /// The box that the sweep visits next.
    pub(crate) fn next_unswept(&self) -> (b: Option<GcBox>)
        requires
            self.wf(),
        ensures
            b == self@.next_unswept(),
            b is Some ==> self@.has(b->0),
    {
        proof {
            if self.unswept@ > 0 {
                assert(self@.all.contains(self.all_list@[self.unswept@ - 1]));
            }
        }
        self.sweep
    }

    /// The youngest box.
    pub(crate) fn youngest(&self) -> (b: Option<GcBox>)
        requires
            self.wf(),
        ensures
            match b {
                Some(b) => self@.all.len() > 0 && b == self@.all.last() && self@.has(b),
                None => self@.all.len() == 0,
            },
    {
        proof {
            if self.all_list@.len() > 0 {
                assert(self@.all.contains(self.all_list@.last()));
            }
        }
        self.all
    }

    /// Visits the next box of the sweep. Tells whether its contents are to be dropped.
    pub(crate) fn sweep_next(&mut self, b: GcBox) -> (drop_contents: bool)
        requires
            old(self).wf(),
            old(self)@.phase == Phase::Sweep,
            old(self)@.next_unswept() == Some(b),
        ensures
            final(self).wf(),
            final(self)@ == old(self)@.sweep_next(),
            drop_contents == (old(self)@.live(b) && old(self)@.is_white(b)),
    {
        assert(self@.all.contains(b));
        let inner = self.inner(b);
        match inner.header.color() {
            GcColor::White => {
                self.sweep_free(b);
                inner.header.is_live()
            },
            GcColor::WhiteWeak => {
                self.sweep_weak(b);
                inner.header.is_live()
            },
            GcColor::Black => {
                self.sweep_keep(b);
                false
            },
            GcColor::Gray => {
                // No gray box is left when the sweep begins.
                assert(self@.queued(b));
                vstd::pervasive::unreached()
            },
        }
    }

    /// Frees a box: nothing points to it, so it leaves the list.
    #[verifier::spinoff_prover]
    #[verifier::rlimit(60)]
    fn sweep_free(&mut self, b: GcBox)
        requires
            old(self).wf(),
            old(self)@.phase == Phase::Sweep,
            old(self)@.next_unswept() == Some(b),
            old(self)@.color(b) == GcColor::White,
        ensures
            final(self).wf(),
            final(self)@ == old(self)@.sweep_next(),
    {
        broadcast use vstd::std_specs::hash::group_hash_axioms;

        let ghost k = self.unswept@ - 1;
        proof {
            crate::heap_laws::sweep_next_keeps_inv(self@);
            assert(self@.all.contains(b));
        }
        let inner = self.inner(b);
        let size: usize = inner.layout.size();
        let next = inner.header.next();
        match self.sweep_prev {
            Some(prev) => {
                proof {
                    assert(prev == self.all_list@[k + 1]);
                    assert(self@.all.contains(prev));
                    assert(prev.addr != b.addr);
                }
                let mut before = self.inner(prev);
                before.header.set_next(next);
                self.table.insert(prev.addr, before);
            },
            None => {
                // The box is the head of the list.
                self.all = next;
            },
        }
        self.table.remove(&b.addr);
        self.sweep = next;
        if inner.header.is_live() {
            self.metrics.mark_gc_dropped(size);
        }
        self.metrics.mark_gc_freed(size);
        self.unswept = Ghost(k as nat);
        self.all_list = Ghost(self.all_list@.remove(k));
        proof {
            let was = old(self).all_list@;
            let now = self.all_list@;
            assert(self@.boxes =~= old(self)@.sweep_next().boxes);
            assert(self@ =~= old(self)@.sweep_next());
            assert(self@.inv());
            assert forall|i: int| 0 <= i < now.len() implies self.table@[(
            #[trigger] now[i]).addr].header.next() == below(now, i) by {
                if i < k {
                    assert(now[i] == was[i] && was[i] != was[k]);
                    assert(old(self)@.all.contains(was[i]));
                } else {
                    assert(now[i] == was[i + 1] && was[i + 1] != was[k]);
                    assert(old(self)@.all.contains(was[i + 1]));
                    if i > k {
                        assert(was[i + 1] != was[k + 1]);
                        assert(now[i - 1] == was[i]);
                    }
                }
            }
        }
    }

    /// Drops the contents of a box: weak pointers still ask the box whether it is alive.
    fn sweep_weak(&mut self, b: GcBox)
        requires
            old(self).wf(),
            old(self)@.phase == Phase::Sweep,
            old(self)@.next_unswept() == Some(b),
            old(self)@.color(b) == GcColor::WhiteWeak,
        ensures
            final(self).wf(),
            final(self)@ == old(self)@.sweep_next(),
    {
        broadcast use vstd::std_specs::hash::group_hash_axioms;

        proof {
            crate::heap_laws::sweep_next_keeps_inv(self@);
            assert(self@.all.contains(b));
        }
        let mut inner = self.inner(b);
        let size: usize = inner.layout.size();
        self.sweep = inner.header.next();
        self.sweep_prev = Some(b);
        inner.header.set_color(GcColor::White);
        if inner.header.is_live() {
            inner.header.set_live(false);
            self.metrics.mark_gc_dropped(size);
        }
        self.table.insert(b.addr, inner);
        self.metrics.mark_gc_remembered(size);
        self.unswept = Ghost((self.unswept@ - 1) as nat);
        assert(self@.boxes =~= old(self)@.sweep_next().boxes);
        assert(self@ =~= old(self)@.sweep_next());
    }

    /// Keeps a box, which is white again in the next cycle.
    fn sweep_keep(&mut self, b: GcBox)
        requires
            old(self).wf(),
            old(self)@.phase == Phase::Sweep,
            old(self)@.next_unswept() == Some(b),
            old(self)@.color(b) == GcColor::Black,
        ensures
            final(self).wf(),
            final(self)@ == old(self)@.sweep_next(),
    {
        broadcast use vstd::std_specs::hash::group_hash_axioms;

        proof {
            crate::heap_laws::sweep_next_keeps_inv(self@);
            assert(self@.all.contains(b));
        }
        let mut inner = self.inner(b);
        self.sweep = inner.header.next();
        self.sweep_prev = Some(b);
        inner.header.set_color(GcColor::White);
        self.table.insert(b.addr, inner);
        self.metrics.mark_gc_remembered(inner.layout.size());
        self.unswept = Ghost((self.unswept@ - 1) as nat);
        assert(self@.boxes =~= old(self)@.sweep_next().boxes);
        assert(self@ =~= old(self)@.sweep_next());
    }

    /// Ends the cycle. The debt is reset if the whole cycle was done in one piece.
    pub(crate) fn finish_cycle(&mut self, has_slept: bool)
        requires
            old(self).wf(),
            old(self)@.phase == Phase::Sweep,
            old(self)@.unswept == 0,
        ensures
            final(self).wf(),
            final(self)@ == old(self)@.finish_cycle(has_slept),
    {
        proof {
            crate::heap_laws::finish_cycle_keeps_inv(self@, has_slept);
        }
        self.sweep_prev = None;
        self.metrics.finish_cycle(has_slept);
        self.root_needs_trace = true;
        self.phase = Phase::Sleep;
        assert(self@ =~= old(self)@.finish_cycle(has_slept));
    }

    /// Enters the last phase, in which the boxes only go.
    pub(crate) fn start_drop(&mut self)
        requires
            old(self).wf(),
        ensures
            final(self).wf(),
            final(self)@ == old(self)@.start_drop(),
    {
        self.phase = Phase::Drop;
        self.sweep = None;
        self.sweep_prev = None;
        self.gray = None;
        self.gray_again = None;
        self.unswept = Ghost(0);
        self.gray_list = Ghost(Seq::empty());
        self.gray_again_list = Ghost(Seq::empty());
        assert(self@ =~= old(self)@.start_drop());
    }

    /// Frees the youngest box. Tells whether its contents are to be dropped.
    pub(crate) fn drop_next(&mut self, b: GcBox) -> (drop_contents: bool)
        requires
            old(self).wf(),
            old(self)@.phase == Phase::Drop,
            old(self)@.all.len() > 0,
            b == old(self)@.all.last(),
        ensures
            final(self).wf(),
            final(self)@ == old(self)@.drop_next(),
            drop_contents == old(self)@.live(b),
    {
        broadcast use vstd::std_specs::hash::group_hash_axioms;

        proof {
            crate::heap_laws::drop_next_keeps_inv(self@);
            assert(self@.all.contains(b));
        }
        let inner = self.inner(b);
        let size: usize = inner.layout.size();
        let live: bool = inner.header.is_live();
        self.all = inner.header.next();
        self.table.remove(&b.addr);
        if live {
            self.metrics.mark_gc_dropped(size);
        }
        self.metrics.mark_gc_freed(size);
        self.all_list = Ghost(self.all_list@.drop_last());
        assert(self@.boxes =~= old(self)@.drop_next().boxes);
        assert(self@ =~= old(self)@.drop_next());
        live
    }

    /// Whether the address range has room for another block of this layout.
    pub fn has_room(&self, layout: &Layout) -> (b: bool)
        requires
            layout.wf(),
        ensures
            b == room(self@.brk as int, layout.size() as int, layout.align() as int),
    {
        end_of_block(self.brk, layout).is_some()
    }

    /// The end of the address range in use.
    pub fn brk(&self) -> (brk: usize)
        ensures
            brk == self@.brk,
    {
        self.brk
    }

    /// Makes a new box, white and alive, with its value `offset` bytes into a fresh block.
    pub(crate) fn allocate(
        &mut self,
        vtable: CollectVTable,
        needs_trace: bool,
        meta: Meta,
        layout: Layout,
        offset: usize,
    ) -> (b: GcBox)
        requires
            old(self).wf(),
            layout.wf(),
            0 < offset <= layout.size(),
            room(old(self)@.brk as int, layout.size() as int, layout.align() as int),
        ensures
            final(self).wf(),
            ({
                let base = layout::round_up(old(self)@.brk as int, layout.align() as int);
                let flags = Flags { vtable, color: GcColor::White, needs_trace, live: true };
                &&& b.addr == base + offset
                &&& !old(self)@.has(b)
                &&& final(self)@ == old(self)@.allocate(
                    b,
                    BoxView { flags, meta, layout },
                    (base + layout.size()) as usize,
                )
            }),
    {
        broadcast use vstd::std_specs::hash::group_hash_axioms;

        proof {
            layout::round_up_is_least_multiple(self.brk as int, layout.align() as int);
        }
        let mut header = GcBoxHeader::new(vtable);
        header.set_next(self.all);
        header.set_live(true);
        header.set_needs_trace(needs_trace);
        let base: usize = match layout::checked_round_up(self.brk, layout.align()) {
            Some(base) => base,
            None => vstd::pervasive::unreached(),
        };
        let b = GcBox { addr: base + offset };
        let inner = GcBoxInner { header, meta, layout };
        proof {
            crate::heap_laws::allocate_keeps_inv(
                self@,
                b,
                inner.view(),
                (base + layout.size()) as usize,
            );
            assert(!self@.all.contains(b));
            assert(!self@.queued(b));
        }
        self.table.insert(b.addr, inner);
        self.all = Some(b);
        if matches!(self.phase, Phase::Sweep) && self.sweep_prev.is_none() {
            self.sweep_prev = self.all;
        }
        self.brk = base + layout.size();
        self.all_list = Ghost(self.all_list@.push(b));
        self.metrics.mark_gc_allocated(layout.size());
        proof {
            let now = old(self)@.allocate(b, inner.view(), (base + layout.size()) as usize);
            assert(self@.boxes =~= now.boxes);
            assert(self@ =~= now);
            assert forall|i: int| 0 <= i < old(self).all_list@.len() implies (
            #[trigger] old(self).all_list@[i]) != b by {
                assert(old(self)@.all.contains(old(self).all_list@[i]));
            }
        }
        b
    }

    /// Changes how the contents of a box are treated, and the metadata stored with them.
    pub(crate) fn convert(
        &mut self,
        b: GcBox,
        vtable: CollectVTable,
        needs_trace: bool,
        meta: Meta,
    )
        requires
            old(self).wf(),
            old(self)@.has(b),
        ensures
            final(self).wf(),
            final(self)@ == old(self)@.with_box(
                b,
                old(self)@.boxes[b].converted(vtable, needs_trace, meta),
            ),
    {
        broadcast use vstd::std_specs::hash::group_hash_axioms;

        let mut inner = self.inner(b);
        inner.header.reset_vtable(vtable, needs_trace);
        inner.meta = meta;
        self.table.insert(b.addr, inner);
        proof {
            let now = old(self)@.with_box(
                b,
                old(self)@.boxes[b].converted(vtable, needs_trace, meta),
            );
            assert(self@.boxes =~= now.boxes);
            assert(self@ =~= now);
        }
    }
}

/// Whether a block fits between `brk` and the end of the address range.
pub open spec fn room(brk: int, size: int, align: int) -> bool {
    layout::round_up(brk, align) + size <= usize::MAX
}

/// Where a block ends that begins as early as possible after `brk`, if there is room for it.
pub fn end_of_block(brk: usize, layout: &Layout) -> (end: Option<usize>)
    requires
        layout.wf(),
    ensures
        match end {
            Some(end) => {
                &&& room(brk as int, layout.size() as int, layout.align() as int)
                &&& end == layout::round_up(brk as int, layout.align() as int) + layout.size()
            },
            None => !room(brk as int, layout.size() as int, layout.align() as int),
        },
{
    match layout::checked_round_up(brk, layout.align()) {
        None => None,
        Some(base) => base.checked_add(layout.size()),
    }
}

impl Trace for Heap {
    type State = HeapView;

    open spec fn state(&self) -> HeapView {
        self@
    }

    open spec fn wf(&self) -> bool {
        Heap::wf(self)
    }

    open spec fn ready(s: HeapView, e: Edge) -> bool {
        &&& s.phase == Phase::Mark
        &&& s.has(e.target())
        &&& e is Strong ==> s.live(e.target())
    }

    open spec fn step(s: HeapView, e: Edge) -> HeapView {
        match e {
            Edge::Strong(b) => s.trace(b),
            Edge::Weak(b) => s.trace_weak(b),
        }
    }

    proof fn step_keeps_ready(s: HeapView, e: Edge, f: Edge) {
    }

    fn trace_gc<T, M>(&mut self, gc: Gc<T, M>) {
        self.trace_box(gc.ptr);
    }

    fn trace_weak<T, M>(&mut self, gc: Weak<T, M>) {
        self.trace_weak_box(gc.inner.ptr);
    }

    fn trace_unique<T, M>(&mut self, gc: &Unique<T, M>) {
        self.trace_box(gc.ptr);
    }
}

} // verus!
