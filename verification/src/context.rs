//! The collector.

use crate::barriers;
use crate::collect::{self, Collect};
use crate::collection::{self, Progress, RunUntil, Stop};
use crate::contents::{self, Contents, Value};
use crate::heap::Heap;
use crate::heap_view::Phase;
use crate::layout::{self, Layout};
use crate::marking;
use crate::metrics::Metrics;
use crate::soundness;
use crate::state::State;
use crate::types::{self, CollectVTable, GcBox, GcBoxHeader, Meta};
use core::ops::ControlFlow;
use std::collections::hash_map::Entry;
use std::collections::HashMap;
use vstd::prelude::*;

verus! {

/// The boxes of an arena with their contents, and the state of the collector.
#[verifier::reject_recursive_types(T)]
pub struct Context<T> {
    pub(crate) heap: Heap,
    pub(crate) values: HashMap<usize, Contents<T>>,
}

impl<T> View for Context<T> {
    type V = State<T>;

    closed spec fn view(&self) -> State<T> {
        State {
            heap: self.heap@,
            values: Map::new(
                |b: GcBox| self.values@.contains_key(b.addr),
                |b: GcBox| self.values@[b.addr].view(),
            ),
        }
    }
}

impl<T: Collect> Context<T> {
    pub closed spec fn wf(&self) -> bool {
        &&& self.heap.wf()
        &&& self@.inv()
    }

    /// What well-formedness says of the state.
    pub proof fn wf_gives_inv(&self)
        requires
            self.wf(),
        ensures
            self@.inv(),
    {
    }

    pub fn new() -> (cx: Context<T>)
        ensures
            cx.wf(),
            cx@ == State::<T>::empty(),
    {
        broadcast use vstd::std_specs::hash::group_hash_axioms;

        let cx = Context { heap: Heap::new(), values: HashMap::new() };
        assert(cx@.values =~= State::<T>::empty().values);
        cx
    }

    pub fn metrics(&self) -> (metrics: &Metrics)
        ensures
            *metrics == self@.heap.metrics,
    {
        self.heap.metrics()
    }

    /// Notes that the root may have changed.
    pub fn root_barrier(&mut self)
        requires
            old(self).wf(),
        ensures
            final(self).wf(),
            final(self)@ == old(self)@.with_heap(old(self)@.heap.root_barrier()),
    {
        self.heap.root_barrier();
        proof {
            assert(self@.values =~= old(self)@.values);
            assert forall|b: GcBox| self@.edges(b) == #[trigger] old(self)@.edges(b) by {}
        }
    }

    pub fn phase(&self) -> (phase: Phase)
        ensures
            phase == self@.heap.phase,
    {
        self.heap.phase()
    }

    /// Whether anything is left to trace.
    pub fn gray_remaining(&self) -> (b: bool)
        requires
            self.wf(),
        ensures
            b == self@.heap.gray_remaining(),
    {
        self.heap.gray_remaining()
    }

    /// Traces one gray box, or the root if none is left. Breaks if nothing is left to trace.
    fn mark_one<R: Collect>(&mut self, root: &R) -> (flow: ControlFlow<()>)
        requires
            old(self).wf(),
            old(self)@.heap.phase == Phase::Mark,
            old(self)@.sound(root.edges(), Seq::empty()),
        ensures
            final(self).wf(),
            final(self)@ == old(self)@.mark_one(root.edges()),
            flow == if old(self)@.heap.gray_remaining() {
                ControlFlow::<()>::Continue(())
            } else {
                ControlFlow::<()>::Break(())
            },
    {
        broadcast use vstd::std_specs::hash::group_hash_axioms;

        proof {
            let heap = self@.heap;
            if heap.next_gray() is Some {
                soundness::mark_box_is_sound(self@, root.edges(), Seq::empty());
            } else if heap.root_needs_trace {
                soundness::mark_root_is_sound(self@, root.edges(), Seq::empty());
                marking::trace_all_marks(heap, root.edges());
            }
        }
        // Boxes that a barrier turned gray come last, so that they may change again without
        // another barrier.
        match self.heap.take_gray() {
            Some(b) => {
                assert(old(self)@.values.contains_key(b));
                let ghost taken = self.heap@;
                let ghost edges = old(self)@.edges(b);
                proof {
                    marking::trace_all_ignores_gray_again(taken, b, edges);
                    marking::gray_again_and_back(collect::trace_all::<Heap>(taken, edges), b);
                }
                // The box waits in the second queue while it shows its pointers, so that it is
                // not lost if it fails to, and others come before it.
                self.heap.make_gray_again(b);
                if let Some(contents) = self.values.get(&b.addr) {
                    assert(contents.view() == old(self)@.values[b]);
                    contents.trace_value(&mut self.heap);
                }
                self.heap.take_gray_again();
                assert(self@.values =~= old(self)@.values);
                assert(self@ =~= old(self)@.mark_box());
                ControlFlow::Continue(())
            },
            None => if self.heap.root_needs_trace() {
                // The root counts as gray until it was traced.
                root.trace(&mut self.heap);
                self.heap.root_traced();
                assert(self@.values =~= old(self)@.values);
                assert(self@ =~= old(self)@.mark_root(root.edges()));
                ControlFlow::Continue(())
            } else {
                assert(self@ =~= old(self)@);
                ControlFlow::Break(())
            },
        }
    }

    /// Visits one box of the sweep. Breaks if none is left.
    fn sweep_one(&mut self) -> (flow: ControlFlow<()>)
        requires
            old(self).wf(),
            old(self)@.heap.phase == Phase::Sweep,
        ensures
            final(self).wf(),
            match flow {
                ControlFlow::Continue(_) => {
                    &&& old(self)@.heap.unswept > 0
                    &&& final(self)@ == old(self)@.sweep_one()
                },
                ControlFlow::Break(_) => {
                    &&& old(self)@.heap.unswept == 0
                    &&& final(self)@ == old(self)@
                },
            },
    {
        broadcast use vstd::std_specs::hash::group_hash_axioms;

        match self.heap.next_unswept() {
            None => ControlFlow::Break(()),
            Some(b) => {
                if self.heap.sweep_next(b) {
                    if let Some(contents) = self.values.remove(&b.addr) {
                        contents.drop_in_place();
                    }
                }
                proof {
                    soundness::sweep_one_keeps_inv(old(self)@);
                    assert(old(self)@.values.contains_key(b) <==> old(self)@.heap.live(b));
                    assert(self@.values =~= old(self)@.sweep_one().values);
                    assert(self@ =~= old(self)@.sweep_one());
                }
                ControlFlow::Continue(())
            },
        }
    }

    /// Collects until the stop condition is reached or, if only debt is to be paid, until `owes`
    /// is false of the metrics.
    ///
    /// No pointer may be used afterwards that the root does not lead to.
    pub fn do_collection<R: Collect, F: Fn(&Metrics) -> bool>(
        &mut self,
        root: &R,
        run_until: RunUntil,
        stop: Stop,
        owes: &F,
    )
        requires
            old(self).wf(),
            old(self)@.sound(root.edges(), Seq::empty()),
            forall|m: &Metrics| #[trigger] call_requires(*owes, (m,)),
        ensures
            final(self).wf(),
            final(self)@.sound(root.edges(), Seq::empty()),
            exists|n: nat, end: Progress<T>|
                end.state == final(self)@ && #[trigger] Progress::start(old(self)@).ends_after(
                    end,
                    n,
                    root.edges(),
                    run_until,
                    stop,
                    *owes,
                ),
    {
        let ghost start = Progress::start(self@);
        let ghost edges = root.edges();
        let pays: bool = matches!(run_until, RunUntil::PayDebt);
        if pays && !owes(self.metrics()) {
            assert(start.ends_after(start, 0, edges, run_until, stop, *owes));
            return;
        }
        let mut has_slept: bool = false;
        let ghost mut n: nat = 0;
        let ghost mut now = start;
        loop
            invariant_except_break
                self.wf(),
                now == (Progress { state: self@, has_slept, done: false }),
                now == start.after(edges, stop, n),
                now.state.sound(edges, Seq::empty()),
                now.state.heap.phase == Phase::Sleep ==> !now.has_slept,
                pays ==> call_ensures(*owes, (&now.state.heap.metrics,), true),
            invariant
                edges == root.edges(),
                pays == (run_until == RunUntil::PayDebt),
                forall|m: &Metrics| #[trigger] call_requires(*owes, (m,)),
                forall|k: nat| k < n ==> !(#[trigger] start.after(edges, stop, k)).done,
                pays ==> forall|k: nat|
                    k < n ==> call_ensures(
                        *owes,
                        (&(#[trigger] start.after(edges, stop, k)).state.heap.metrics,),
                        true,
                    ),
            ensures
                self.wf(),
                now.state == self@,
                now == start.after(edges, stop, n),
                now.state.sound(edges, Seq::empty()),
                now.done || pays && call_ensures(*owes, (&now.state.heap.metrics,), false),
            decreases now.passes_left(), now.work_left(), now.queue_left(),
        {
            let ghost before = now;
            proof {
                collection::step_is_sound(now, edges, stop);
                collection::step_decreases(now, edges, stop);
                now = now.step(edges, stop);
                n = n + 1;
                assert(now == start.after(edges, stop, n));
            }
            match self.phase() {
                Phase::Sleep => {
                    has_slept = true;
                    // Enter the mark phase at once.
                    self.start_mark();
                },
                Phase::Mark => {
                    if let ControlFlow::Break(_) = self.mark_one(root) {
                        if matches!(stop, Stop::FullyMarked) {
                            assert(now == Progress { done: true, ..before });
                            break;
                        }
                        // Nothing is gray any more: the sweep begins.
                        self.start_sweep();
                    }
                },
                Phase::Sweep => {
                    if matches!(stop, Stop::FullyMarked | Stop::AtSweep) {
                        break;
                    }
                    if let ControlFlow::Break(_) = self.sweep_one() {
                        // The debt is reset after an entire cycle in one piece, so that inherited
                        // debt does not grow without bound.
                        self.finish_cycle(has_slept);
                        if matches!(stop, Stop::FinishCycle) {
                            break;
                        }
                        // After an entire cycle in one piece nothing is left to do.
                        if has_slept {
                            break;
                        }
                    }
                },
                Phase::Drop => vstd::pervasive::unreached(),
            }
            assert(now.state == self@);
            if pays && !owes(self.metrics()) {
                break;
            }
        }
        assert(start.ends_after(now, n, edges, run_until, stop, *owes));
    }

    /// Whether there is room for a box that holds metadata of type `M` and a value of this layout.
    pub fn has_room<M>(&self, value: Layout) -> (b: bool)
        requires
            value.wf(),
        ensures
            b == self@.has_room::<M>(value.size() as int, value.align() as int),
    {
        match types::box_layout::<M>(value) {
            Ok((layout, _)) => self.heap.has_room(&layout),
            Err(_) => false,
        }
    }

    /// The end of the address range in use.
    pub fn brk(&self) -> (brk: usize)
        ensures
            brk == self@.heap.brk,
    {
        self.heap.brk()
    }

    /// Makes a new box with its contents.
    pub(crate) fn allocate<M>(
        &mut self,
        value: Layout,
        vtable: CollectVTable,
        needs_trace: bool,
        meta: Meta,
        contents: Contents<T>,
    ) -> (b: GcBox)
        requires
            old(self).wf(),
            value.wf(),
            old(self)@.has_room::<M>(value.size() as int, value.align() as int),
            contents.view().fits(vtable, needs_trace, meta),
        ensures
            final(self).wf(),
            old(self)@.allocated::<M>(
                final(self)@,
                b,
                value.size() as int,
                value.align() as int,
                vtable,
                needs_trace,
                meta,
                contents.view(),
            ),
    {
        broadcast use vstd::std_specs::hash::group_hash_axioms;

        let ghost meta_size = vstd::layout::size_of::<M>() as int;
        let ghost meta_align = vstd::layout::align_of::<M>() as int;
        let ghost size = value.size() as int;
        let ghost align = value.align() as int;
        let (layout, offset) = match types::box_layout::<M>(value) {
            Ok(parts) => parts,
            Err(_) => vstd::pervasive::unreached(),
        };
        proof {
            types::box_parts_are_disjoint_and_aligned(meta_size, meta_align, size, align);
            self.heap.wf_gives_inv();
            layout::round_up_is_least_multiple(self.heap@.brk as int, layout.align() as int);
            types::value_is_aligned(self.heap@.brk as int, meta_size, meta_align, size, align);
        }
        let ghost value_of = contents.view();
        let b = self.heap.allocate(vtable, needs_trace, meta, layout, offset);
        self.values.insert(b.addr, contents);
        proof {
            let new = self.heap@.boxes[b];
            assert(self@.values =~= old(self)@.values.insert(b, value_of));
            assert(self@ =~= old(self)@.allocate(b, new, value_of, self.heap@.brk));
            barriers::allocate_keeps_inv(old(self)@, b, new, value_of, self.heap@.brk);
        }
        b
    }

    /// The barrier before `parent` adopts `child`, or any child if none is given.
    pub(crate) fn backward_barrier(&mut self, parent: GcBox, child: Option<GcBox>)
        requires
            old(self).wf(),
            old(self)@.heap.has(parent),
            child is Some ==> old(self)@.heap.has(child->0),
        ensures
            final(self).wf(),
            final(self)@ == old(self)@.with_heap(old(self)@.heap.backward_barrier(parent, child)),
    {
        self.heap.backward_barrier(parent, child);
        proof {
            self.heap.wf_gives_inv();
            assert(self.heap@.boxes.dom() =~= old(self).heap@.boxes.dom());
            soundness::marks_keep_inv(old(self)@, self.heap@);
            assert(self@.values =~= old(self)@.values);
        }
    }

    /// The barrier before `parent` adopts `child` weakly.
    pub(crate) fn backward_barrier_weak(&mut self, parent: GcBox, child: GcBox)
        requires
            old(self).wf(),
            old(self)@.heap.has(parent),
            old(self)@.heap.has(child),
        ensures
            final(self).wf(),
            final(self)@ == old(self)@.with_heap(old(self)@.heap.backward_barrier_weak(parent, child)),
    {
        self.heap.backward_barrier_weak(parent, child);
        proof {
            self.heap.wf_gives_inv();
            assert(self.heap@.boxes.dom() =~= old(self).heap@.boxes.dom());
            soundness::marks_keep_inv(old(self)@, self.heap@);
            assert(self@.values =~= old(self)@.values);
        }
    }

    /// The barrier before `child` is adopted by `parent`, or by any box if none is given.
    pub(crate) fn forward_barrier(&mut self, parent: Option<GcBox>, child: GcBox)
        requires
            old(self).wf(),
            parent is Some ==> old(self)@.heap.has(parent->0),
            old(self)@.heap.has(child),
            old(self)@.heap.live(child),
        ensures
            final(self).wf(),
            final(self)@ == old(self)@.with_heap(old(self)@.heap.forward_barrier(parent, child)),
    {
        self.heap.forward_barrier(parent, child);
        proof {
            self.heap.wf_gives_inv();
            assert(self.heap@.boxes.dom() =~= old(self).heap@.boxes.dom());
            soundness::marks_keep_inv(old(self)@, self.heap@);
            assert(self@.values =~= old(self)@.values);
        }
    }

    /// The barrier before `child` is adopted weakly by `parent`, or by any box if none is given.
    pub(crate) fn forward_barrier_weak(&mut self, parent: Option<GcBox>, child: GcBox)
        requires
            old(self).wf(),
            parent is Some ==> old(self)@.heap.has(parent->0),
            old(self)@.heap.has(child),
        ensures
            final(self).wf(),
            final(self)@ == old(self)@.with_heap(old(self)@.heap.forward_barrier_weak(parent, child)),
    {
        self.heap.forward_barrier_weak(parent, child);
        proof {
            self.heap.wf_gives_inv();
            assert(self.heap@.boxes.dom() =~= old(self).heap@.boxes.dom());
            soundness::marks_keep_inv(old(self)@, self.heap@);
            assert(self@.values =~= old(self)@.values);
        }
    }

    /// Keeps a box that was about to be collected.
    pub(crate) fn resurrect(&mut self, b: GcBox)
        requires
            old(self).wf(),
            old(self)@.heap.phase == Phase::Mark,
            old(self)@.heap.has(b),
            old(self)@.heap.live(b),
        ensures
            final(self).wf(),
            final(self)@ == old(self)@.with_heap(old(self)@.heap.resurrect(b)),
    {
        self.heap.resurrect(b);
        proof {
            self.heap.wf_gives_inv();
            assert(self.heap@.boxes.dom() =~= old(self).heap@.boxes.dom());
            soundness::marks_keep_inv(old(self)@, self.heap@);
            assert(self@.values =~= old(self)@.values);
        }
    }

    /// Whether a weak pointer to a box may become a strong one.
    pub(crate) fn upgrade(&self, b: GcBox) -> (ok: bool)
        requires
            self@.heap.has(b),
        ensures
            ok == self@.heap.upgrade(b),
    {
        self.heap.upgrade(b)
    }

    /// The header of a box.
    pub(crate) fn header(&self, b: GcBox) -> (header: GcBoxHeader)
        requires
            self@.heap.has(b),
        ensures
            header.flags() == self@.heap.boxes[b].flags,
    {
        self.heap.header(b)
    }

    /// The metadata of a box.
    pub(crate) fn meta(&self, b: GcBox) -> (meta: Meta)
        requires
            self@.heap.has(b),
        ensures
            meta == self@.heap.boxes[b].meta,
    {
        self.heap.meta(b)
    }

    /// What a live box holds.
    pub(crate) fn contents(&self, b: GcBox) -> (contents: &Contents<T>)
        requires
            self@.values.contains_key(b),
        ensures
            contents.view() == self@.values[b],
    {
        broadcast use vstd::std_specs::hash::group_hash_axioms;

        self.values.get(&b.addr).unwrap()
    }

    /// What a live box holds, to be changed in place. The box must still fit it afterwards.
    pub(crate) fn contents_mut(&mut self, b: GcBox) -> (contents: &mut Contents<T>)
        requires
            old(self).wf(),
            old(self)@.values.contains_key(b),
        ensures
            contents.view() == old(self)@.values[b],
            final(self)@ == old(self)@.with_value(b, final(contents).view()),
            barriers::may_hold(old(self)@, b, final(contents).view()) ==> final(self).wf(),
    {
        broadcast use vstd::std_specs::hash::group_hash_axioms;

        proof {
            assert forall|value: Value<T>| #[trigger]
                barriers::may_hold(self@, b, value) implies self@.with_value(b, value).inv() by {
                barriers::change_keeps_inv(self@, b, value);
            }
        }
        match self.values.entry(b.addr) {
            Entry::Occupied(entry) => entry.into_mut(),
            Entry::Vacant(_) => vstd::pervasive::unreached(),
        }
    }

    /// Changes what a live box holds together with the way the collector treats it and with its
    /// metadata. Gives back what it held.
    pub(crate) fn convert(
        &mut self,
        b: GcBox,
        vtable: CollectVTable,
        needs_trace: bool,
        meta: Meta,
        contents: Contents<T>,
    ) -> (was: Contents<T>)
        requires
            old(self).wf(),
            old(self)@.values.contains_key(b),
            contents.view().fits(vtable, needs_trace, meta),
        ensures
            final(self).wf(),
            final(self)@ == old(self)@.convert(b, vtable, needs_trace, meta, contents.view()),
            was.view() == old(self)@.values[b],
    {
        broadcast use vstd::std_specs::hash::group_hash_axioms;

        let ghost value = contents.view();
        self.heap.convert(b, vtable, needs_trace, meta);
        let was = self.values.insert(b.addr, contents).unwrap();
        proof {
            let now = old(self)@.convert(b, vtable, needs_trace, meta, value);
            assert(self@.values =~= now.values);
            assert(self@ =~= now);
            barriers::convert_keeps_inv(old(self)@, b, vtable, needs_trace, meta, value);
        }
        was
    }

    /// Takes the memory that a box holds to be initialized.
    pub(crate) fn initialize(&mut self, b: GcBox)
        requires
            old(self).wf(),
            old(self)@.holds_slots(b),
            contents::all_written(old(self)@.slots(b)),
        ensures
            final(self).wf(),
            final(self)@ == old(self)@.initialized(b, contents::written(old(self)@.slots(b))),
    {
        broadcast use vstd::std_specs::hash::group_hash_axioms;

        proof {
            assert(self@.values.contains_key(b));
        }
        // The collector may have passed over the memory; it has to see the values.
        self.backward_barrier(b, None);
        let ghost open = self@;
        let needs_trace: bool = T::needs_trace();
        let was = self.values.remove(&b.addr).unwrap();
        let row = match was {
            Contents::Uninit(slots) => contents::take_written(slots),
            _ => vstd::pervasive::unreached(),
        };
        self.values.insert(b.addr, Contents::Values(row));
        let meta = self.heap.meta(b);
        self.heap.convert(b, CollectVTable::Traced, needs_trace, meta);
        proof {
            let row = contents::written(old(self)@.slots(b));
            let now = old(self)@.initialized(b, row);
            assert(self@.values =~= now.values);
            assert(self@ =~= now);
            barriers::convert_keeps_inv(
                open,
                b,
                CollectVTable::Traced,
                needs_trace,
                meta,
                Value::Values(row),
            );
        }
    }

    /// Enters the mark phase.
    fn start_mark(&mut self)
        requires
            old(self).wf(),
            old(self)@.heap.phase == Phase::Sleep,
        ensures
            final(self).wf(),
            final(self)@ == old(self)@.with_heap(old(self)@.heap.with_phase(Phase::Mark)),
    {
        self.heap.start_mark();
        proof {
            assert(self@.values =~= old(self)@.values);
            assert forall|b: GcBox| self@.edges(b) == #[trigger] old(self)@.edges(b) by {}
        }
    }

    /// Enters the sweep phase.
    fn start_sweep(&mut self)
        requires
            old(self).wf(),
            old(self)@.heap.phase == Phase::Mark,
            !old(self)@.heap.gray_remaining(),
        ensures
            final(self).wf(),
            final(self)@ == old(self)@.with_heap(old(self)@.heap.start_sweep()),
    {
        self.heap.start_sweep();
        proof {
            assert(self@.values =~= old(self)@.values);
            assert forall|b: GcBox| self@.edges(b) == #[trigger] old(self)@.edges(b) by {}
        }
    }

    /// Ends the cycle.
    fn finish_cycle(&mut self, has_slept: bool)
        requires
            old(self).wf(),
            old(self)@.heap.phase == Phase::Sweep,
            old(self)@.heap.unswept == 0,
        ensures
            final(self).wf(),
            final(self)@ == old(self)@.with_heap(old(self)@.heap.finish_cycle(has_slept)),
    {
        self.heap.finish_cycle(has_slept);
        proof {
            assert(self@.values =~= old(self)@.values);
            assert forall|b: GcBox| self@.edges(b) == #[trigger] old(self)@.edges(b) by {}
        }
    }

    /// Frees every box, youngest first.
    pub fn drop(&mut self)
        requires
            old(self).wf(),
        ensures
            final(self).wf(),
            final(self)@ == old(self)@.drop_all(),
            final(self)@.heap.boxes.dom() == Set::<GcBox>::empty(),
    {
        broadcast use vstd::std_specs::hash::group_hash_axioms;

        self.heap.start_drop();
        let ghost begun = self.heap@;
        proof {
            assert(self@.values =~= old(self)@.values);
            assert forall|b: GcBox| self@.edges(b) == #[trigger] old(self)@.edges(b) by {}
        }
        loop
            invariant
                self.wf(),
                self.heap@.phase == Phase::Drop,
                self.heap@.drop_all() == begun.drop_all(),
            ensures
                self.heap@.all.len() == 0,
            decreases self.heap@.all.len(),
        {
            let b = match self.heap.youngest() {
                Some(b) => b,
                None => {
                    break;
                },
            };
            let ghost before = self@;
            if self.heap.drop_next(b) {
                if let Some(contents) = self.values.remove(&b.addr) {
                    contents.drop_in_place();
                }
            }
            proof {
                let after = self@;
                self.heap.wf_gives_inv();
                assert(before.values.contains_key(b) <==> before.heap.live(b));
                assert(after.values =~= before.values.remove(b));
                assert(after.heap == before.heap.drop_next());
                assert forall|x: GcBox| #[trigger] after.values.contains_key(x) <==> after.heap.has(
                    x,
                ) && after.heap.live(x) by {
                    assert(before.values.contains_key(x) <==> before.heap.has(x)
                        && before.heap.live(x));
                }
                assert forall|x: GcBox| #[trigger]
                    after.values.contains_key(x) implies after.values[x].fits(
        after.heap.boxes[x].flags.vtable,
        after.heap.boxes[x].flags.needs_trace,
        after.heap.boxes[x].meta,
    ) && (!after.heap.boxes[x].flags.needs_trace ==> after.edges(x).len() == 0) by {
                    assert(before.values.contains_key(x));
                    assert(after.edges(x) == before.edges(x));
                }
            }
        }
        proof {
            let heap = self.heap@;
            assert forall|b: GcBox| !heap.boxes.dom().contains(b) by {
                assert(!heap.all.contains(b));
            }
            assert(heap.boxes.dom() =~= Set::<GcBox>::empty());
            assert(self@.values =~= Map::empty());
        }
    }
}

} // verus!
