//! Weak pointers.

use crate::collect::{Collect, Edge, Trace};
use crate::gc::Gc;
use crate::mutation::{Finalization, Mutation};
use crate::ptr::Metadata;
use vstd::prelude::*;

verus! {

/// A pointer that keeps the box of its target, but not the contents.
#[verifier::reject_recursive_types(T)]
#[verifier::reject_recursive_types(M)]
pub struct Weak<T, M = ()> {
    pub inner: Gc<T, M>,
}

impl<T, M> Clone for Weak<T, M> {
    fn clone(&self) -> (r: Weak<T, M>)
        ensures
            r == *self,
    {
        *self
    }
}

impl<T, M> Copy for Weak<T, M> {

}

impl<T, M> Collect for Weak<T, M> {
    open spec fn edges(&self) -> Seq<Edge> {
        seq![Edge::Weak(self.inner.ptr)]
    }

    open spec fn spec_needs_trace() -> bool {
        true
    }

    open spec fn spec_zeroed() -> Option<Self> {
        None
    }

    proof fn untraced_has_no_edges(&self) {
    }

    fn needs_trace() -> (b: bool) {
        true
    }

    fn zeroed() -> (t: Option<Self>) {
        None
    }

    fn trace<C: Trace>(&self, cc: &mut C) {
        proof {
            crate::collect::lemma_trace_one::<C>(cc.state(), Edge::Weak(self.inner.ptr));
            assert(C::ready(cc.state(), self.edges()[0]));
        }
        cc.trace_weak(*self);
    }
}

impl<T, M> Weak<T, M> {
    /// The strong pointer to the target, if its contents are there and are not about to be
    /// dropped by the sweep.
    pub fn upgrade<P: Collect>(self, mc: &Mutation<P>) -> (r: Option<Gc<T, M>>)
        requires
            mc@.heap.has(self.inner.ptr),
        ensures
            r == if mc@.heap.upgrade(self.inner.ptr) {
                Some(self.inner)
            } else {
                None
            },
    {
        if mc.upgrade(self.inner.ptr) {
            Some(self.inner)
        } else {
            None
        }
    }

    /// Whether the contents of the target were dropped. Even if they were not, the pointer may
    /// fail to upgrade while the collector sweeps.
    pub fn is_dropped<P: Collect>(self, mc: &Mutation<P>) -> (b: bool)
        requires
            mc@.heap.has(self.inner.ptr),
        ensures
            b == !mc@.heap.live(self.inner.ptr),
    {
        !mc.header(self.inner.ptr).is_live()
    }

    /// Whether the marking has not found strong pointers to the target, in finalization. Unless it
    /// is resurrected it is dropped as soon as the collection resumes.
    pub fn is_dead<P: Collect>(self, fc: &Finalization<P>) -> (dead: bool)
        requires
            fc@.heap.has(self.inner.ptr),
        ensures
            dead == fc@.heap.is_white(self.inner.ptr),
    {
        Gc::is_dead(fc, self.inner)
    }

    /// Marks the target by hand and gives the strong pointer to it, unless its contents were
    /// dropped.
    pub fn resurrect<P: Collect>(self, fc: &mut Finalization<P>) -> (r: Option<Gc<T, M>>)
        requires
            old(fc).wf(),
            old(fc)@.heap.has(self.inner.ptr),
        ensures
            final(fc).wf(),
            if old(fc)@.heap.live(self.inner.ptr) {
                &&& r == Some(self.inner)
                &&& final(fc)@ == old(fc)@.with_heap(old(fc)@.heap.resurrect(self.inner.ptr))
            } else {
                &&& r is None
                &&& final(fc)@ == old(fc)@
            },
    {
        if fc.is_live(self.inner.ptr) {
            Gc::resurrect(fc, self.inner);
            Some(self.inner)
        } else {
            None
        }
    }

    /// Whether two pointers point to the same box.
    pub fn ptr_eq(this: Self, other: Self) -> (b: bool)
        ensures
            b == (this.inner.ptr == other.inner.ptr),
    {
        this.addr() == other.addr()
    }

    /// The address of the contents.
    pub fn addr(self) -> (addr: usize)
        ensures
            addr == self.inner.ptr.addr,
    {
        Gc::addr(self.inner)
    }

    /// The metadata of the contents.
    pub fn metadata<P: Collect>(self, mc: &Mutation<P>) -> (meta: M) where M: Metadata<T>
        requires
            mc@.heap.has(self.inner.ptr),
            M::recognizes(mc@.heap.boxes[self.inner.ptr].meta),
        ensures
            meta.erased() == mc@.heap.boxes[self.inner.ptr].meta,
    {
        Gc::metadata(self.inner, mc)
    }

    /// The address and the metadata of the contents.
    pub fn to_raw_parts<P: Collect>(self, mc: &Mutation<P>) -> (parts: (usize, M)) where
        M: Metadata<T>,

        requires
            mc@.heap.has(self.inner.ptr),
            M::recognizes(mc@.heap.boxes[self.inner.ptr].meta),
        ensures
            parts.0 == self.inner.ptr.addr,
            parts.1.erased() == mc@.heap.boxes[self.inner.ptr].meta,
    {
        Gc::to_raw_parts(self.inner, mc)
    }

    /// The pointer to an address that [`Weak::addr`] gave.
    pub fn from_raw(raw: usize) -> (r: Weak<T, M>)
        ensures
            r.inner.ptr.addr == raw,
    {
        Weak { inner: Gc::from_raw(raw) }
    }

    /// The raw pointer to the contents.
    pub fn as_ptr<P: Collect>(self, mc: &Mutation<P>) -> (ptr: M::Ptr) where M: Metadata<T>
        requires
            mc@.heap.has(self.inner.ptr),
            M::recognizes(mc@.heap.boxes[self.inner.ptr].meta),
        ensures
            exists|m: M| #[trigger]
                m.erased() == mc@.heap.boxes[self.inner.ptr].meta && ptr == m.spec_with_addr(
                    self.inner.ptr.addr,
                ),
            M::spec_addr(ptr) == self.inner.ptr.addr,
    {
        Gc::as_ptr(self.inner, mc)
    }

    /// The pointer that [`Weak::as_ptr`] gave a raw pointer of.
    pub fn from_ptr(raw: M::Ptr) -> (r: Weak<T, M>) where M: Metadata<T>
        ensures
            r.inner.ptr.addr == M::spec_addr(raw),
    {
        Weak { inner: Gc::from_ptr(raw) }
    }

    /// Takes the pointer to point to another type.
    pub fn cast<U, N>(this: Weak<T, M>) -> (r: Weak<U, N>)
        ensures
            r.inner.ptr == this.inner.ptr,
    {
        Weak { inner: Gc::cast(this.inner) }
    }
}

} // verus!
