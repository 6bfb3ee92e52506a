//! An iterator that moves out of a vector.

use crate::collect::{self, Collect, Edge, Trace};
use crate::gc::Unique;
use crate::mutation::Mutation;
use crate::types::Meta;
use crate::vec::Vec;
use core::mem::MaybeUninit;
use vstd::prelude::*;

verus! {

/// The items of a vector that have not been taken yet, and the buffer of the vector.
#[verifier::reject_recursive_types(T)]
pub struct IntoIter<T> {
    pub buf: Unique<MaybeUninit<T>, usize>,
    pub cap: usize,
    pub rest: std::vec::Vec<T>,
}

impl<T> View for IntoIter<T> {
    type V = Seq<T>;

    open spec fn view(&self) -> Seq<T> {
        self.rest@
    }
}

impl<T: Collect> Collect for IntoIter<T> {
    open spec fn edges(&self) -> Seq<Edge> {
        self.buf.edges() + collect::row_edges(self@)
    }

    open spec fn spec_needs_trace() -> bool {
        true
    }

    open spec fn spec_zeroed() -> Option<Self> {
        None
    }

    proof fn untraced_has_no_edges(&self) {
    }

    fn needs_trace() -> (b: bool) {
        true
    }

    fn zeroed() -> (t: Option<Self>) {
        None
    }

    fn trace<C: Trace>(&self, cc: &mut C) {
        proof {
            collect::lemma_all_ready_split::<C>(
                cc.state(),
                self.buf.edges(),
                collect::row_edges(self@),
            );
            collect::lemma_trace_all_append::<C>(
                cc.state(),
                self.buf.edges(),
                collect::row_edges(self@),
            );
        }
        collect::trace(cc, &self.buf);
        collect::trace_slice(cc, self.rest.as_slice());
    }
}

impl<T> IntoIter<T> {
    /// Whether the buffer is the iterator's in this state.
    pub open spec fn stands_in<P: Collect>(&self, s: crate::state::State<P>) -> bool {
        &&& self@.len() <= self.cap
        &&& self.cap == crate::vec::first_cap::<T>(self.cap)
        &&& s.values.contains_key(self.buf.ptr)
        &&& s.values[self.buf.ptr] == crate::contents::Value::<P>::Buffer
        &&& s.heap.boxes[self.buf.ptr].meta == Meta::Len(self.cap)
    }

    /// All items of a vector.
    pub(crate) fn from_vec(vec: Vec<T>) -> (iter: IntoIter<T>)
        ensures
            iter@ == vec@,
            iter.buf == vec.buf,
            iter.cap == vec.cap,
    {
        IntoIter { buf: vec.buf, cap: vec.cap, rest: vec.elems }
    }

    /// Takes the next item from the front. Those that are left move up.
    pub fn next(&mut self) -> (item: Option<T>)
        ensures
            if old(self)@.len() == 0 {
                item is None && final(self)@ == old(self)@
            } else {
                item == Some(old(self)@.first()) && final(self)@ == old(self)@.drop_first()
            },
            final(self).buf == old(self).buf,
            final(self).cap == old(self).cap,
    {
        if self.rest.len() == 0 {
            return None;
        }
        let item = self.rest.remove(0);
        assert(self@ =~= old(self)@.drop_first());
        Some(item)
    }

    /// Takes the next item from the back.
    pub fn next_back(&mut self) -> (item: Option<T>)
        ensures
            if old(self)@.len() == 0 {
                item is None && final(self)@ == old(self)@
            } else {
                item == Some(old(self)@.last()) && final(self)@ == old(self)@.drop_last()
            },
            final(self).buf == old(self).buf,
            final(self).cap == old(self).cap,
    {
        let item = self.rest.pop();
        assert(old(self)@.len() > 0 ==> self@ =~= old(self)@.drop_last());
        item
    }

    /// The number of items that are left, as a lower and an upper bound.
    pub fn size_hint(&self) -> (hint: (usize, Option<usize>))
        ensures
            hint.0 == self@.len(),
            hint.1 == Some(hint.0),
    {
        let len: usize = self.rest.len();
        (len, Some(len))
    }

    /// The number of items that are left.
    pub fn len(&self) -> (n: usize)
        ensures
            n == self@.len(),
    {
        self.rest.len()
    }

    /// The number of items that are left.
    pub fn count(self) -> (n: usize)
        ensures
            n == self@.len(),
    {
        self.len()
    }

    /// The last item, if any is left.
    pub fn last(self) -> (item: Option<T>)
        ensures
            item == if self@.len() == 0 {
                None
            } else {
                Some(self@.last())
            },
    {
        let mut this = self;
        this.next_back()
    }

    /// The items that are left as a slice.
    pub fn as_slice(&self) -> (slice: &[T])
        ensures
            slice@ == self@,
    {
        self.rest.as_slice()
    }

    /// The items that are left as a slice that may be changed.
    pub fn as_mut_slice(&mut self) -> (slice: &mut [T])
        ensures
            slice@ == old(self)@,
            final(self)@ == final(slice)@,
            final(self).buf == old(self).buf,
            final(self).cap == old(self).cap,
    {
        self.rest.as_mut_slice()
    }

    /// The capacity of the vector.
    fn capacity(&self) -> (cap: usize)
        ensures
            cap == self.cap,
    {
        self.cap
    }

    /// Forgets the items that are left.
    pub(crate) fn forget_remaining(&mut self) -> (left: std::vec::Vec<T>)
        ensures
            left@ == old(self)@,
            final(self)@ == Seq::<T>::empty(),
            final(self).buf == old(self).buf,
            final(self).cap == old(self).cap,
    {
        let mut left: std::vec::Vec<T> = std::vec::Vec::new();
        core::mem::swap(&mut self.rest, &mut left);
        left
    }

    /// Collects the items that are left. The buffer is used again if they fill at least half of
    /// it.
    pub fn into_vec<P: Collect>(self, mc: &mut Mutation<P>) -> (r: Vec<T>)
        requires
            old(mc).wf(),
            self.stands_in(old(mc)@),
            self@.len() < self.cap / 2 ==> crate::vec::room_for_buffer::<T, P>(
                old(mc)@,
                crate::vec::first_cap::<T>(self@.len() as usize) as int,
            ),
        ensures
            final(mc).wf(),
            r.stands_in(final(mc)@),
            r@ == self@,
            if self@.len() < self.cap / 2 {
                &&& r.cap == crate::vec::first_cap::<T>(self@.len() as usize)
                &&& crate::vec::new_buffer::<T, P>(
                    old(mc)@,
                    final(mc)@,
                    r.buf.ptr,
                    r.cap as int,
                )
            } else {
                final(mc)@ == old(mc)@ && r.buf == self.buf && r.cap == self.cap
            },
    {
        let len: usize = self.len();
        if len >= self.capacity() / 2 {
            return Vec {
                buf: self.buf,
                cap: self.cap,
                elems: self.rest,
                spare: std::vec::Vec::new(),
            };
        }
        let mut this = self;
        let mut vec: Vec<T> = Vec::with_capacity(mc, len);
        let elems = this.forget_remaining();
        let ghost empty = vec@;
        vec.append_elements(mc, elems);
        assert(empty + elems@ =~= elems@);
        vec
    }
}

} // verus!
