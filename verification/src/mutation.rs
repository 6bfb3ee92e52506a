//! The handles through which an arena is changed.

use crate::barriers;
use crate::collect::Collect;
use crate::contents::{self, Contents, Value};
use crate::context::Context;
use crate::gc::{Gc, Weak};
use crate::heap;
use crate::heap_view::Phase;
use crate::layout::Layout;
use crate::metrics::Metrics;
use crate::state::State;
use crate::types::{self, CollectVTable, GcBox, GcBoxHeader, GcColor, Meta};
use core::mem::ManuallyDrop;
use vstd::prelude::*;

verus! {

/// An arena that is open for mutation: boxes may be allocated, and changed behind write barriers.
#[verifier::reject_recursive_types(T)]
pub struct Mutation<T> {
    context: Context<T>,
}

impl<T> View for Mutation<T> {
    type V = State<T>;

    closed spec fn view(&self) -> State<T> {
        self.context@
    }
}

/// The box that an optional pointer points to.
pub open spec fn box_of<T, M>(gc: Option<Gc<T, M>>) -> Option<GcBox> {
    match gc {
        Some(gc) => Some(gc.ptr),
        None => None,
    }
}

impl<T: Collect> Mutation<T> {
    pub closed spec fn wf(&self) -> bool {
        self.context.wf()
    }

    /// What well-formedness says of the state.
    pub proof fn wf_gives_inv(&self)
        requires
            self.wf(),
        ensures
            self@.inv(),
    {
        self.context.wf_gives_inv();
    }

    /// Ends the mutation.
    pub fn into_context(self) -> (cx: Context<T>)
        requires
            self.wf(),
        ensures
            cx.wf(),
            cx@ == self@,
    {
        self.context
    }

    pub fn metrics(&self) -> (metrics: &Metrics)
        ensures
            *metrics == self@.heap.metrics,
    {
        self.context.metrics()
    }

    /// If the collector marks, `parent` is black and `child`, if given, is white, then `parent`
    /// becomes gray and is queued for tracing.
    ///
    /// Afterwards `parent` may adopt `child`, or any pointers if no child is given, until the next
    /// collection.
    pub fn backward_barrier<A, B, M, N>(&mut self, parent: Gc<A, M>, child: Option<Gc<B, N>>)
        requires
            old(self).wf(),
            old(self)@.heap.has(parent.ptr),
            child is Some ==> old(self)@.heap.has(child->0.ptr),
        ensures
            final(self).wf(),
            final(self)@ == old(self)@.with_heap(
                old(self)@.heap.backward_barrier(parent.ptr, box_of(child)),
            ),
    {
        let child = match child {
            Some(gc) => Some(gc.ptr),
            None => None,
        };
        self.context.backward_barrier(parent.ptr, child);
    }

    /// A version of [`Mutation::backward_barrier`] for a child that is adopted weakly.
    pub fn backward_barrier_weak<A, B, M, N>(&mut self, parent: Gc<A, M>, child: Weak<B, N>)
        requires
            old(self).wf(),
            old(self)@.heap.has(parent.ptr),
            old(self)@.heap.has(child.inner.ptr),
        ensures
            final(self).wf(),
            final(self)@ == old(self)@.with_heap(
                old(self)@.heap.backward_barrier_weak(parent.ptr, child.inner.ptr),
            ),
    {
        self.context.backward_barrier_weak(parent.ptr, child.inner.ptr);
    }

    /// If the collector marks, `parent`, if given, is black and `child` is white, then `child`
    /// becomes gray at once and is queued for tracing, or black if it needs no tracing.
    ///
    /// Afterwards `parent`, or any box if no parent is given, may adopt `child` until the next
    /// collection.
    pub fn forward_barrier<A, B, M, N>(&mut self, parent: Option<Gc<A, M>>, child: Gc<B, N>)
        requires
            old(self).wf(),
            parent is Some ==> old(self)@.heap.has(parent->0.ptr),
            old(self)@.heap.has(child.ptr),
            old(self)@.heap.live(child.ptr),
        ensures
            final(self).wf(),
            final(self)@ == old(self)@.with_heap(
                old(self)@.heap.forward_barrier(box_of(parent), child.ptr),
            ),
    {
        let parent = match parent {
            Some(gc) => Some(gc.ptr),
            None => None,
        };
        self.context.forward_barrier(parent, child.ptr);
    }

    /// A version of [`Mutation::forward_barrier`] for a child that is adopted weakly.
    pub fn forward_barrier_weak<A, B, M, N>(&mut self, parent: Option<Gc<A, M>>, child: Weak<B, N>)
        requires
            old(self).wf(),
            parent is Some ==> old(self)@.heap.has(parent->0.ptr),
            old(self)@.heap.has(child.inner.ptr),
        ensures
            final(self).wf(),
            final(self)@ == old(self)@.with_heap(
                old(self)@.heap.forward_barrier_weak(box_of(parent), child.inner.ptr),
            ),
    {
        let parent = match parent {
            Some(gc) => Some(gc.ptr),
            None => None,
        };
        self.context.forward_barrier_weak(parent, child.inner.ptr);
    }

    /// Whether there is room for a box that holds metadata of type `M` and a value of this layout.
    pub fn has_room<M>(&self, value: Layout) -> (b: bool)
        requires
            value.wf(),
        ensures
            b == self@.has_room::<M>(value.size() as int, value.align() as int),
    {
        self.context.has_room::<M>(value)
    }

    /// The end of the address range in use.
    pub fn brk(&self) -> (brk: usize)
        ensures
            brk == self@.heap.brk,
    {
        self.context.brk()
    }

    /// Where a new box would end that holds metadata of type `M` and a value of this layout, if
    /// the address range were in use up to `brk`. None if there were no room for it.
    pub fn end_of_box<M>(&self, brk: usize, value: Layout) -> (end: Option<usize>)
        requires
            value.wf(),
        ensures
            match end {
                Some(end) => {
                    &&& self@.with_brk(brk).has_room::<M>(
                        value.size() as int,
                        value.align() as int,
                    )
                    &&& end == self@.with_brk(brk).next_brk::<M>(
                        value.size() as int,
                        value.align() as int,
                    )
                },
                None => !self@.with_brk(brk).has_room::<M>(
                    value.size() as int,
                    value.align() as int,
                ),
            },
    {
        match types::box_layout::<M>(value) {
            Ok((layout, _)) => heap::end_of_block(brk, &layout),
            Err(_) => None,
        }
    }

    /// Whether there is room for a box that holds one value.
    pub fn room_for_value(&self) -> (b: bool)
        ensures
            b == self@.room_for_value(),
    {
        self.has_room::<()>(Layout::new::<T>())
    }

    /// Whether there is room for a box that holds a row of `n` values.
    pub fn room_for_row(&self, n: usize) -> (b: bool)
        ensures
            b == self@.room_for_row(n as nat),
    {
        match Layout::array::<T>(n) {
            Ok(layout) => self.has_room::<usize>(layout),
            Err(_) => false,
        }
    }

    /// Makes a new box with its contents.
    pub(crate) fn allocate<M>(
        &mut self,
        value: Layout,
        vtable: CollectVTable,
        needs_trace: bool,
        meta: Meta,
        contents: Contents<T>,
    ) -> (b: GcBox)
        requires
            old(self).wf(),
            value.wf(),
            old(self)@.has_room::<M>(value.size() as int, value.align() as int),
            contents.view().fits(vtable, needs_trace, meta),
        ensures
            final(self).wf(),
            old(self)@.allocated::<M>(
                final(self)@,
                b,
                value.size() as int,
                value.align() as int,
                vtable,
                needs_trace,
                meta,
                contents.view(),
            ),
    {
        self.context.allocate::<M>(value, vtable, needs_trace, meta, contents)
    }

    /// The header of a box.
    pub fn header(&self, b: GcBox) -> (header: GcBoxHeader)
        requires
            self@.heap.has(b),
        ensures
            header.flags() == self@.heap.boxes[b].flags,
    {
        self.context.header(b)
    }

    /// The metadata of a box.
    pub(crate) fn meta(&self, b: GcBox) -> (meta: Meta)
        requires
            self@.heap.has(b),
        ensures
            meta == self@.heap.boxes[b].meta,
    {
        self.context.meta(b)
    }

    /// What a live box holds.
    pub(crate) fn contents(&self, b: GcBox) -> (contents: &Contents<T>)
        requires
            self@.values.contains_key(b),
        ensures
            contents.view() == self@.values[b],
    {
        self.context.contents(b)
    }

    /// What a live box holds, to be changed in place. The box must still fit it afterwards.
    pub(crate) fn contents_mut(&mut self, b: GcBox) -> (contents: &mut Contents<T>)
        requires
            old(self).wf(),
            old(self)@.values.contains_key(b),
        ensures
            contents.view() == old(self)@.values[b],
            final(self)@ == old(self)@.with_value(b, final(contents).view()),
            barriers::may_hold(old(self)@, b, final(contents).view()) ==> final(self).wf(),
    {
        self.context.contents_mut(b)
    }

    /// Changes what a live box holds together with the way the collector treats it and with its
    /// metadata. Gives back what it held.
    pub(crate) fn convert(
        &mut self,
        b: GcBox,
        vtable: CollectVTable,
        needs_trace: bool,
        meta: Meta,
        contents: Contents<T>,
    ) -> (was: Contents<T>)
        requires
            old(self).wf(),
            old(self)@.values.contains_key(b),
            contents.view().fits(vtable, needs_trace, meta),
        ensures
            final(self).wf(),
            final(self)@ == old(self)@.convert(b, vtable, needs_trace, meta, contents.view()),
            was.view() == old(self)@.values[b],
    {
        self.context.convert(b, vtable, needs_trace, meta, contents)
    }

    /// Writes to one place of the memory that a box holds. What stood there is not dropped.
    pub(crate) fn write_slot(&mut self, b: GcBox, i: usize, value: T)
        requires
            old(self).wf(),
            old(self)@.holds_slots(b),
            i < old(self)@.slots(b).len(),
        ensures
            final(self).wf(),
            final(self)@ == old(self)@.with_value(
                b,
                Value::Uninit(old(self)@.slots(b).update(i as int, Some(value))),
            ),
    {
        proof {
            self.context.wf_gives_inv();
        }
        match self.contents_mut(b) {
            Contents::Uninit(slots) => {
                let mut slot = Some(value);
                core::mem::swap(&mut slots[i], &mut slot);
                let _kept = ManuallyDrop::new(slot);
            },
            _ => vstd::pervasive::unreached(),
        }
    }

    /// The barrier before a box comes to hold any pointers.
    pub(crate) fn reopen(&mut self, b: GcBox)
        requires
            old(self).wf(),
            old(self)@.heap.has(b),
        ensures
            final(self).wf(),
            final(self)@ == old(self)@.reopened(b),
    {
        self.context.backward_barrier(b, None);
    }

    /// Takes the memory that a box holds to be initialized.
    pub(crate) fn initialize(&mut self, b: GcBox)
        requires
            old(self).wf(),
            old(self)@.holds_slots(b),
            contents::all_written(old(self)@.slots(b)),
        ensures
            final(self).wf(),
            final(self)@ == old(self)@.initialized(b, contents::written(old(self)@.slots(b))),
    {
        self.context.initialize(b)
    }

    /// The row of values that a box holds.
    pub(crate) fn row(&self, b: GcBox) -> (row: &[T])
        requires
            self@.holds_row(b),
        ensures
            row@ == self@.row(b),
    {
        match self.contents(b) {
            Contents::Values(row) => row.as_slice(),
            _ => vstd::pervasive::unreached(),
        }
    }

    /// One of the values that a box holds, to be changed in place.
    pub(crate) fn value_mut(&mut self, b: GcBox, i: usize) -> (value: &mut T)
        requires
            old(self).wf(),
            old(self)@.holds_row(b),
            i < old(self)@.row(b).len(),
        ensures
            *value == old(self)@.row(b)[i as int],
            final(self).wf(),
            final(self)@ == old(self)@.with_row(
                b,
                old(self)@.row(b).update(i as int, *final(value)),
            ),
    {
        proof {
            self.context.wf_gives_inv();
        }
        match self.contents_mut(b) {
            Contents::Values(row) => &mut row[i],
            _ => vstd::pervasive::unreached(),
        }
    }

    /// Whether a weak pointer to a box may become a strong one.
    pub(crate) fn upgrade(&self, b: GcBox) -> (ok: bool)
        requires
            self@.heap.has(b),
        ensures
            ok == self@.heap.upgrade(b),
    {
        self.context.upgrade(b)
    }
}

/// An arena that is open for finalization: a [`Mutation`] that may also ask what the marking found
/// and keep what it did not find.
#[verifier::reject_recursive_types(T)]
pub struct Finalization<T> {
    mutation: Mutation<T>,
}

impl<T> View for Finalization<T> {
    type V = State<T>;

    closed spec fn view(&self) -> State<T> {
        self.mutation@
    }
}

impl<T: Collect> Finalization<T> {
    /// The arena is valid and the collector marks.
    pub closed spec fn wf(&self) -> bool {
        &&& self.mutation.wf()
        &&& self.mutation@.heap.phase == Phase::Mark
    }

    /// What well-formedness says of the state.
    pub proof fn wf_gives_inv(&self)
        requires
            self.wf(),
        ensures
            self@.inv(),
            self@.heap.phase == Phase::Mark,
    {
        self.mutation.wf_gives_inv();
    }

    /// The arena, open for mutation.
    pub fn deref(&self) -> (mc: &Mutation<T>)
        requires
            self.wf(),
        ensures
            mc.wf(),
            mc@ == self@,
    {
        &self.mutation
    }

    /// The arena, open for mutation. A mutation never changes the phase.
    pub fn deref_mut(&mut self) -> (mc: &mut Mutation<T>)
        requires
            old(self).wf(),
        ensures
            mc.wf(),
            mc@ == old(self)@,
            final(self)@ == final(mc)@,
            final(mc).wf() && final(mc)@.heap.phase == Phase::Mark ==> final(self).wf(),
    {
        &mut self.mutation
    }

    /// Ends the finalization.
    pub fn into_context(self) -> (cx: Context<T>)
        requires
            self.wf(),
        ensures
            cx.wf(),
            cx@ == self@,
    {
        self.mutation.into_context()
    }

    /// Whether the marking has not found strong pointers to a box.
    pub(crate) fn is_white(&self, b: GcBox) -> (r: bool)
        requires
            self@.heap.has(b),
        ensures
            r == self@.heap.is_white(b),
    {
        matches!(self.mutation.header(b).color(), GcColor::White | GcColor::WhiteWeak)
    }

    /// Whether the contents of a box are there.
    pub(crate) fn is_live(&self, b: GcBox) -> (r: bool)
        requires
            self@.heap.has(b),
        ensures
            r == self@.heap.live(b),
    {
        self.mutation.header(b).is_live()
    }

    /// Keeps a box, and all that it leads to, for this cycle.
    pub(crate) fn resurrect(&mut self, b: GcBox)
        requires
            old(self).wf(),
            old(self)@.heap.has(b),
            old(self)@.heap.live(b),
        ensures
            final(self).wf(),
            final(self)@ == old(self)@.with_heap(old(self)@.heap.resurrect(b)),
    {
        self.mutation.context.resurrect(b);
    }
}

impl<T: Collect> Context<T> {
    /// Opens the arena for mutation.
    pub fn mutation_context(self) -> (mc: Mutation<T>)
        requires
            self.wf(),
        ensures
            mc.wf(),
            mc@ == self@,
    {
        Mutation { context: self }
    }

    /// Opens the arena for finalization, while the collector marks.
    pub fn finalization_context(self) -> (fc: Finalization<T>)
        requires
            self.wf(),
            self@.heap.phase == Phase::Mark,
        ensures
            fc.wf(),
            fc@ == self@,
    {
        Finalization { mutation: self.mutation_context() }
    }
}

} // verus!
