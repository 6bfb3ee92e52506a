//! Garbage collected pointers.

use crate::collect::{Collect, Edge, Static, Trace};
use crate::mutation::{Finalization, Mutation};
use crate::ptr::{MetaCollect, Metadata};
use crate::types::{CollectVTable, GcBox};
use crate::vec::spec_from_iter;
use core::marker::PhantomData;
use core::mem::MaybeUninit;
use vstd::prelude::*;
use vstd::std_specs::iter::IteratorSpec;

pub mod unique;
pub mod weak;

pub use self::unique::Unique;
pub use self::weak::Weak;

verus! {

/// A garbage collected pointer to a value of type `T` with metadata of type `M`.
///
/// It is the address of the value and can be copied freely. It keeps its target alive as long as
/// it is reachable from the root.
#[verifier::reject_recursive_types(T)]
#[verifier::reject_recursive_types(M)]
pub struct Gc<T, M = ()> {
    pub ptr: GcBox,
    pub marker: PhantomData<(T, M)>,
}

impl<T, M> Clone for Gc<T, M> {
    fn clone(&self) -> (r: Gc<T, M>)
        ensures
            r == *self,
    {
        *self
    }
}

impl<T, M> Copy for Gc<T, M> {

}

impl<T, M> Collect for Gc<T, M> {
    open spec fn edges(&self) -> Seq<Edge> {
        seq![Edge::Strong(self.ptr)]
    }

    open spec fn spec_needs_trace() -> bool {
        true
    }

    open spec fn spec_zeroed() -> Option<Self> {
        None
    }

    proof fn untraced_has_no_edges(&self) {
    }

    fn needs_trace() -> (b: bool) {
        true
    }

    fn zeroed() -> (t: Option<Self>) {
        None
    }

    fn trace<C: Trace>(&self, cc: &mut C) {
        proof {
            crate::collect::lemma_trace_one::<C>(cc.state(), Edge::Strong(self.ptr));
            assert(C::ready(cc.state(), self.edges()[0]));
        }
        cc.trace_gc(*self);
    }
}

impl<T: Collect, M: MetaCollect<T>> Gc<MaybeUninit<T>, M> {
    /// Creates a new box with uninitialized contents and their metadata. If `ZEROED` is set, the
    /// memory is filled with zeros.
    pub fn with_metadata<const ZEROED: bool>(mc: &mut Mutation<T>, meta: M) -> (r: Unique<
        MaybeUninit<T>,
        M,
    >)
        requires
            old(mc).wf(),
            meta.spec_layout() is Some,
            old(mc)@.has_room::<M>(
                crate::ptr::target_size::<T, M>(meta),
                crate::ptr::target_align::<T, M>(meta),
            ),
        ensures
            final(mc).wf(),
            final(mc)@.values.contains_key(r.ptr),
            meta.spec_shape().is_blank(
                crate::ptr::target_size::<T, M>(meta),
                ZEROED,
                final(mc)@.values[r.ptr],
            ),
            old(mc)@.allocated::<M>(
                final(mc)@,
                r.ptr,
                crate::ptr::target_size::<T, M>(meta),
                crate::ptr::target_align::<T, M>(meta),
                CollectVTable::Opaque,
                false,
                meta.erased(),
                final(mc)@.values[r.ptr],
            ),
    {
        Unique::with_metadata::<ZEROED>(mc, meta)
    }
}

impl<T: Collect> Gc<T> {
    /// Creates a new box that holds the given value.
    pub fn new(mc: &mut Mutation<T>, t: T) -> (r: Gc<T>)
        requires
            old(mc).wf(),
            old(mc)@.room_for_value(),
        ensures
            final(mc).wf(),
            old(mc)@.new_value(final(mc)@, r.ptr, t),
    {
        Unique::new(mc, t).into_gc()
    }

    /// Creates a new box that holds the given value, with the only pointer to it.
    pub fn unique(mc: &mut Mutation<T>, t: T) -> (r: Unique<T>)
        requires
            old(mc).wf(),
            old(mc)@.room_for_value(),
        ensures
            final(mc).wf(),
            old(mc)@.new_value(final(mc)@, r.ptr, t),
    {
        Unique::new(mc, t)
    }

    /// Creates a new box that holds a row of the given values.
    pub fn new_unsize<const N: usize>(mc: &mut Mutation<T>, array: [T; N]) -> (r: Gc<T, usize>)
        requires
            old(mc).wf(),
            old(mc)@.room_for_row(N as nat),
        ensures
            final(mc).wf(),
            old(mc)@.new_row(final(mc)@, r.ptr, array@),
    {
        Unique::new_unsize(mc, array).into_gc()
    }

    /// Creates a new box with room for one value that is not written yet.
    pub fn new_uninit(mc: &mut Mutation<T>) -> (r: Unique<MaybeUninit<T>>)
        requires
            old(mc).wf(),
            old(mc)@.room_for_value(),
        ensures
            final(mc).wf(),
            old(mc)@.new_slot(final(mc)@, r.ptr, None),
    {
        Unique::new_uninit(mc)
    }

    /// Creates a new box whose memory is filled with zeros.
    pub fn new_zeroed(mc: &mut Mutation<T>) -> (r: Unique<MaybeUninit<T>>)
        requires
            old(mc).wf(),
            old(mc)@.room_for_value(),
        ensures
            final(mc).wf(),
            old(mc)@.new_slot(final(mc)@, r.ptr, T::spec_zeroed()),
    {
        Unique::new_zeroed(mc)
    }

    /// The value behind the pointer.
    pub fn get_ref<'a>(this: Self, mc: &'a Mutation<T>) -> (value: &'a T)
        requires
            mc@.holds_one(this.ptr),
        ensures
            *value == mc@.value(this.ptr),
    {
        &mc.row(this.ptr)[0]
    }

    /// The value behind the pointer, to be changed in place after a write barrier.
    ///
    /// The backward barrier is one without a child: the value may adopt any pointers until the
    /// next collection.
    pub fn write<'a>(mc: &'a mut Mutation<T>, gc: Self) -> (value: &'a mut T)
        requires
            old(mc).wf(),
            old(mc)@.holds_one(gc.ptr),
        ensures
            *value == old(mc)@.value(gc.ptr),
            final(mc).wf(),
            final(mc)@ == old(mc)@.with_heap(
                old(mc)@.heap.backward_barrier(gc.ptr, None),
            ).with_row(gc.ptr, seq![*final(value)]),
    {
        proof {
            mc.wf_gives_inv();
            assert(mc@.values.contains_key(gc.ptr));
        }
        let none: Option<Gc<T>> = None;
        mc.backward_barrier(gc, none);
        proof {
            assert forall|t: T| #[trigger] mc@.row(gc.ptr).update(0, t) == seq![t] by {
                assert(mc@.row(gc.ptr).update(0, t) =~= seq![t]);
            }
        }
        mc.value_mut(gc.ptr, 0)
    }

    /// Shorthand for [`Gc::write`].
    pub fn unlock<'a>(self, mc: &'a mut Mutation<T>) -> (value: &'a mut T)
        requires
            old(mc).wf(),
            old(mc)@.holds_one(self.ptr),
        ensures
            *value == old(mc)@.value(self.ptr),
            final(mc).wf(),
            final(mc)@ == old(mc)@.with_heap(
                old(mc)@.heap.backward_barrier(self.ptr, None),
            ).with_row(self.ptr, seq![*final(value)]),
    {
        Gc::write(mc, self)
    }
}

impl<T> Gc<Static<T>> {
    /// Creates a new box that holds a value of a type that cannot hold pointers.
    pub fn new_static(mc: &mut Mutation<Static<T>>, t: T) -> (r: Gc<Static<T>>)
        requires
            old(mc).wf(),
            old(mc)@.room_for_value(),
        ensures
            final(mc).wf(),
            old(mc)@.new_value(final(mc)@, r.ptr, Static(t)),
    {
        Gc::new(mc, Static(t))
    }
}

impl<T: Collect> Gc<T, usize> {
    /// Creates a new box with room for a row of values that are not written yet.
    pub fn new_uninit_slice(mc: &mut Mutation<T>, len: usize) -> (r: Unique<MaybeUninit<T>, usize>)
        requires
            old(mc).wf(),
            old(mc)@.room_for_row(len as nat),
        ensures
            final(mc).wf(),
            old(mc)@.new_slots(final(mc)@, r.ptr, crate::ptr::empty_slots::<T>(len as nat)),
    {
        Unique::new_uninit_slice(mc, len)
    }

    /// Creates a new box for a row of values whose memory is filled with zeros.
    pub fn new_zeroed_slice(mc: &mut Mutation<T>, len: usize) -> (r: Unique<MaybeUninit<T>, usize>)
        requires
            old(mc).wf(),
            old(mc)@.room_for_row(len as nat),
        ensures
            final(mc).wf(),
            old(mc)@.new_slots(final(mc)@, r.ptr, crate::ptr::blank_slots::<T>(len as nat, true)),
    {
        Unique::new_zeroed_slice(mc, len)
    }

    /// Collects the items of an iterator into a new box.
    pub fn collect<I: Iterator<Item = T>>(mc: &mut Mutation<T>, iter: I) -> (r: Gc<T, usize>)
        requires
            old(mc).wf(),
            iter.obeys_prophetic_iter_laws(),
            iter.decrease() is Some,
            spec_from_iter::room_for_item_row(old(mc)@, iter.remaining().len()),
        ensures
            final(mc).wf(),
            spec_from_iter::holds_new_row(old(mc)@, final(mc)@, r.ptr, iter.remaining()),
            exists|bounds: (usize, Option<usize>), hints: Seq<usize>|
                hints.len() == iter.remaining().len() && #[trigger] spec_from_iter::row_collected(
                    old(mc)@,
                    final(mc)@,
                    r.ptr,
                    iter.remaining(),
                    bounds,
                    hints,
                ),
    {
        Unique::collect(mc, iter).into_gc()
    }

    /// The values behind the pointer.
    pub fn get_ref<'a>(this: Self, mc: &'a Mutation<T>) -> (row: &'a [T])
        requires
            mc@.holds_row(this.ptr),
        ensures
            row@ == mc@.row(this.ptr),
    {
        mc.row(this.ptr)
    }
}

impl<T, M> Gc<T, M> {
    /// The pointer to a box.
    pub open spec fn at(b: GcBox) -> Gc<T, M> {
        Gc { ptr: b, marker: PhantomData }
    }

    /// Takes the pointer to point to another type.
    pub fn cast<U, N>(this: Gc<T, M>) -> (r: Gc<U, N>)
        ensures
            r.ptr == this.ptr,
    {
        Gc { ptr: this.ptr, marker: PhantomData }
    }

    /// The raw pointer to the contents.
    pub fn as_ptr<P: Collect>(this: Self, mc: &Mutation<P>) -> (ptr: M::Ptr) where M: Metadata<T>
        requires
            mc@.heap.has(this.ptr),
            M::recognizes(mc@.heap.boxes[this.ptr].meta),
        ensures
            exists|m: M| #[trigger]
                m.erased() == mc@.heap.boxes[this.ptr].meta && ptr == m.spec_with_addr(
                    this.ptr.addr,
                ),
            M::spec_addr(ptr) == this.ptr.addr,
    {
        let meta: M = Gc::metadata(this, mc);
        proof {
            meta.addr_of_pointer(this.ptr.addr);
        }
        meta.with_addr(this.ptr.addr)
    }

    /// The pointer that [`Gc::as_ptr`] gave a raw pointer of.
    pub fn from_ptr(raw: M::Ptr) -> (r: Gc<T, M>) where M: Metadata<T>
        ensures
            r.ptr.addr == M::spec_addr(raw),
    {
        Gc::from_raw(M::addr(raw))
    }

    /// A pointer that keeps the box, but not the contents.
    pub fn downgrade(this: Gc<T, M>) -> (r: Weak<T, M>)
        ensures
            r.inner == this,
    {
        Weak { inner: this }
    }

    /// The address of the contents.
    pub fn addr(this: Self) -> (addr: usize)
        ensures
            addr == this.ptr.addr,
    {
        this.ptr.addr
    }

    /// The metadata of the contents.
    pub fn metadata<P: Collect>(this: Self, mc: &Mutation<P>) -> (meta: M) where M: Metadata<T>
        requires
            mc@.heap.has(this.ptr),
            M::recognizes(mc@.heap.boxes[this.ptr].meta),
        ensures
            meta.erased() == mc@.heap.boxes[this.ptr].meta,
    {
        M::restore(mc.meta(this.ptr)).unwrap()
    }

    /// The address and the metadata of the contents.
    pub fn to_raw_parts<P: Collect>(this: Self, mc: &Mutation<P>) -> (parts: (usize, M)) where
        M: Metadata<T>,

        requires
            mc@.heap.has(this.ptr),
            M::recognizes(mc@.heap.boxes[this.ptr].meta),
        ensures
            parts.0 == this.ptr.addr,
            parts.1.erased() == mc@.heap.boxes[this.ptr].meta,
    {
        (Gc::addr(this), Gc::metadata(this, mc))
    }

    /// The pointer to an address that [`Gc::addr`] gave.
    pub fn from_raw(raw: usize) -> (r: Gc<T, M>)
        ensures
            r.ptr.addr == raw,
    {
        Gc { ptr: GcBox { addr: raw }, marker: PhantomData }
    }

    /// Takes the pointer to be the only one to its target.
    pub fn as_unique_unchecked(this: Self) -> (r: Unique<T, M>)
        ensures
            r.ptr == this.ptr,
    {
        Unique::from_raw(Gc::addr(this))
    }

    /// Whether two pointers point to the same box.
    pub fn ptr_eq(this: Self, other: Self) -> (b: bool)
        ensures
            b == (this.ptr == other.ptr),
    {
        Gc::addr(this) == Gc::addr(other)
    }

    /// Whether the marking has not found the box, in finalization. A box that the root leads to is
    /// never dead.
    pub fn is_dead<P: Collect>(fc: &Finalization<P>, gc: Self) -> (dead: bool)
        requires
            fc@.heap.has(gc.ptr),
        ensures
            dead == fc@.heap.is_white(gc.ptr),
    {
        fc.is_white(gc.ptr)
    }

    /// Marks the box by hand, so that it and all that it leads to outlive this cycle.
    pub fn resurrect<P: Collect>(fc: &mut Finalization<P>, gc: Self)
        requires
            old(fc).wf(),
            old(fc)@.heap.has(gc.ptr),
            old(fc)@.heap.live(gc.ptr),
        ensures
            final(fc).wf(),
            final(fc)@ == old(fc)@.with_heap(old(fc)@.heap.resurrect(gc.ptr)),
    {
        fc.resurrect(gc.ptr);
    }
}

/// Text in a box.
pub struct Str;

/// The bytes of a box are not text.
#[derive(Clone, Copy, Debug, PartialEq, Eq, Structural)]
pub struct Utf8Error {
    /// How many of the first bytes are text.
    pub valid_up_to: usize,
    /// How many of the bytes after these are to be skipped, or none if the bytes end in the middle
    /// of a character.
    pub error_len: Option<usize>,
}

/// Whether `n` is the length of the longest prefix of `bytes` that is valid UTF-8.
pub open spec fn longest_valid(bytes: Seq<u8>, n: nat) -> bool {
    &&& n <= bytes.len()
    &&& vstd::utf8::valid_utf8(bytes.take(n as int))
    &&& forall|m: int|
        n < m <= bytes.len() ==> !vstd::utf8::valid_utf8(#[trigger] bytes.take(m))
}

/// The length of the first invalid sequence in bytes that are not valid UTF-8, as
/// [`core::str::from_utf8`] tells it.
pub uninterp spec fn invalid_len(bytes: Seq<u8>) -> Option<usize>;

/// Whether a length of an invalid sequence after `n` valid bytes can be one: the sequence is not
/// empty and stands in the bytes, and none is given only if at most three bytes are left.
pub open spec fn may_be_invalid_len(bytes: Seq<u8>, n: int, len: Option<usize>) -> bool {
    match len {
        Some(len) => 0 < len && n + len <= bytes.len(),
        None => 1 <= bytes.len() - n <= 3,
    }
}

/// [`core::str::from_utf8`] succeeds if and only if the bytes are valid UTF-8. Its error tells how
/// many of the first bytes are, and that no longer prefix is, and the length of the invalid
/// sequence that follows, unless the bytes end unexpectedly one to three bytes later.
#[verifier::external_body]
fn check_utf8(bytes: &[u8]) -> (r: Result<(), (usize, Option<usize>)>)
    ensures
        match r {
            Ok(_) => vstd::utf8::valid_utf8(bytes@),
            Err((n, len)) => {
                &&& !vstd::utf8::valid_utf8(bytes@)
                &&& longest_valid(bytes@, n as nat)
                &&& len == invalid_len(bytes@)
                &&& may_be_invalid_len(bytes@, n as int, len)
            },
        },
{
    match core::str::from_utf8(bytes) {
        Ok(_) => Ok(()),
        Err(e) => Err((e.valid_up_to(), e.error_len())),
    }
}

impl Gc<Str, usize> {
    /// Takes a row of bytes to be text, if it is valid UTF-8.
    pub fn from_utf8(this: Gc<u8, usize>, mc: &Mutation<u8>) -> (r: Result<
        Gc<Str, usize>,
        Utf8Error,
    >)
        requires
            mc@.holds_row(this.ptr),
        ensures
            match r {
                Ok(text) => {
                    &&& vstd::utf8::valid_utf8(mc@.row(this.ptr))
                    &&& text.ptr == this.ptr
                },
                Err(e) => {
                    &&& !vstd::utf8::valid_utf8(mc@.row(this.ptr))
                    &&& longest_valid(mc@.row(this.ptr), e.valid_up_to as nat)
                    &&& e.error_len == invalid_len(mc@.row(this.ptr))
                    &&& may_be_invalid_len(
                        mc@.row(this.ptr),
                        e.valid_up_to as int,
                        e.error_len,
                    )
                },
            },
    {
        match check_utf8(Gc::<u8, usize>::get_ref(this, mc)) {
            Ok(_) => Ok(Gc::<Str, usize>::from_utf8_unchecked(this)),
            Err((valid_up_to, error_len)) => Err(Utf8Error { valid_up_to, error_len }),
        }
    }

    /// Takes a row of bytes to be text.
    pub fn from_utf8_unchecked(this: Gc<u8, usize>) -> (r: Gc<Str, usize>)
        ensures
            r.ptr == this.ptr,
    {
        Gc::from_raw(Gc::addr(this))
    }
}

} // verus!
