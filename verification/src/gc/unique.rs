//! Unique pointers.

use crate::collect::{Collect, Edge, Trace};
use crate::contents::{self, Contents, Value};
use crate::gc::Gc;
use crate::layout::Layout;
use crate::mutation::{Finalization, Mutation};
use crate::ptr::{self, MetaCollect, Metadata, Unsized};
use crate::state::State;
use crate::types::{CollectVTable, GcBox, Meta};
use core::marker::PhantomData;
use core::mem::MaybeUninit;
use vstd::prelude::*;

verus! {

/// A garbage collected pointer that is known to be the only one to its target, which may therefore
/// be changed through it.
#[verifier::reject_recursive_types(T)]
#[verifier::reject_recursive_types(M)]
pub struct Unique<T, M = ()> {
    pub ptr: GcBox,
    pub marker: PhantomData<(T, M)>,
}

impl<T, M> Collect for Unique<T, M> {
    open spec fn edges(&self) -> Seq<Edge> {
        seq![Edge::Strong(self.ptr)]
    }

    open spec fn spec_needs_trace() -> bool {
        true
    }

    open spec fn spec_zeroed() -> Option<Self> {
        None
    }

    proof fn untraced_has_no_edges(&self) {
    }

    fn needs_trace() -> (b: bool) {
        true
    }

    fn zeroed() -> (t: Option<Self>) {
        None
    }

    fn trace<C: Trace>(&self, cc: &mut C) {
        proof {
            crate::collect::lemma_trace_one::<C>(cc.state(), Edge::Strong(self.ptr));
            assert(C::ready(cc.state(), self.edges()[0]));
        }
        cc.trace_unique(self);
    }
}

impl<T: Collect> Unique<T> {
    /// Creates a new box that holds the given value.
    pub fn new(mc: &mut Mutation<T>, t: T) -> (r: Unique<T>)
        requires
            old(mc).wf(),
            old(mc)@.room_for_value(),
        ensures
            final(mc).wf(),
            old(mc)@.new_value(final(mc)@, r.ptr, t),
    {
        let mut row: Vec<T> = Vec::new();
        row.push(t);
        assert(row@ =~= seq![t]);
        let ptr = mc.allocate::<()>(
            Layout::new::<T>(),
            CollectVTable::Traced,
            T::needs_trace(),
            Meta::Thin,
            Contents::Values(row),
        );
        Unique { ptr, marker: PhantomData }
    }

    /// Creates a new box that holds a row of the given values.
    pub fn new_unsize<const N: usize>(mc: &mut Mutation<T>, array: [T; N]) -> (r: Unique<T, usize>)
        requires
            old(mc).wf(),
            old(mc)@.room_for_row(N as nat),
        ensures
            final(mc).wf(),
            old(mc)@.new_row(final(mc)@, r.ptr, array@),
    {
        let metadata = Unsized(N);
        let row = vec_from_array(array);
        assert(array@.len() == N);
        Unique::new_row(mc, metadata.0, row)
    }

    /// Creates a new box with room for one value that is not written yet.
    pub fn new_uninit(mc: &mut Mutation<T>) -> (r: Unique<MaybeUninit<T>>)
        requires
            old(mc).wf(),
            old(mc)@.room_for_value(),
        ensures
            final(mc).wf(),
            old(mc)@.new_slot(final(mc)@, r.ptr, None),
    {
        assert(ptr::empty_slots::<T>(1) =~= seq![None]);
        vstd::layout::layout_for_type_is_valid::<T>();
        Unique::with_metadata::<false>(mc, ())
    }

    /// Creates a new box whose memory is filled with zeros.
    pub fn new_zeroed(mc: &mut Mutation<T>) -> (r: Unique<MaybeUninit<T>>)
        requires
            old(mc).wf(),
            old(mc)@.room_for_value(),
        ensures
            final(mc).wf(),
            old(mc)@.new_slot(final(mc)@, r.ptr, T::spec_zeroed()),
    {
        assert(ptr::blank_slots::<T>(1, true) =~= seq![T::spec_zeroed()]);
        vstd::layout::layout_for_type_is_valid::<T>();
        Unique::with_metadata::<true>(mc, ())
    }
}

/// [`Vec::from`] of an array moves the elements into a vector in order.
#[verifier::external_body]
pub(crate) fn vec_from_array<T, const N: usize>(array: [T; N]) -> (row: Vec<T>)
    ensures
        row@ == array@,
{
    Vec::from(array)
}

impl<T: Collect> Unique<T, usize> {
    /// Creates a new box that holds a row of values.
    pub(crate) fn new_row(mc: &mut Mutation<T>, len: usize, row: Vec<T>) -> (r: Unique<T, usize>)
        requires
            old(mc).wf(),
            row@.len() == len,
            old(mc)@.room_for_row(len as nat),
        ensures
            final(mc).wf(),
            old(mc)@.new_row(final(mc)@, r.ptr, row@),
    {
        let layout = match Layout::array::<T>(len) {
            Ok(layout) => layout,
            Err(_) => vstd::pervasive::unreached(),
        };
        let ptr = mc.allocate::<usize>(
            layout,
            CollectVTable::Traced,
            T::needs_trace(),
            Meta::Len(len),
            Contents::Values(row),
        );
        Unique { ptr, marker: PhantomData }
    }

    /// Creates a new box with room for a row of values that are not written yet.
    pub fn new_uninit_slice(mc: &mut Mutation<T>, len: usize) -> (r: Unique<MaybeUninit<T>, usize>)
        requires
            old(mc).wf(),
            old(mc)@.room_for_row(len as nat),
        ensures
            final(mc).wf(),
            old(mc)@.new_slots(final(mc)@, r.ptr, ptr::empty_slots::<T>(len as nat)),
    {
        vstd::layout::layout_for_type_is_valid::<T>();
        Unique::with_metadata::<false>(mc, len)
    }

    /// Creates a new box for a row of values whose memory is filled with zeros.
    pub fn new_zeroed_slice(mc: &mut Mutation<T>, len: usize) -> (r: Unique<MaybeUninit<T>, usize>)
        requires
            old(mc).wf(),
            old(mc)@.room_for_row(len as nat),
        ensures
            final(mc).wf(),
            old(mc)@.new_slots(final(mc)@, r.ptr, ptr::blank_slots::<T>(len as nat, true)),
    {
        vstd::layout::layout_for_type_is_valid::<T>();
        Unique::with_metadata::<true>(mc, len)
    }
}

/// Whether the memory that a box holds was written throughout. Plain bytes always count as
/// written.
pub open spec fn may_assume_init<T: Collect>(s: State<T>, b: GcBox) -> bool {
    &&& s.values.contains_key(b)
    &&& match s.values[b] {
        Value::Uninit(slots) => contents::all_written(slots),
        Value::Bytes(_) => true,
        _ => false,
    }
}

/// The state after the memory that a box holds was taken to be initialized.
pub open spec fn assumed_init<T: Collect>(s: State<T>, b: GcBox) -> State<T> {
    match s.values[b] {
        Value::Uninit(slots) => s.initialized(b, contents::written(slots)),
        _ => s,
    }
}

impl<T: Collect, M: MetaCollect<T>> Unique<MaybeUninit<T>, M> {
    /// Creates a new box with uninitialized contents and their metadata. If `ZEROED` is set, the
    /// memory is filled with zeros.
    pub fn with_metadata<const ZEROED: bool>(mc: &mut Mutation<T>, meta: M) -> (r: Unique<
        MaybeUninit<T>,
        M,
    >)
        requires
            old(mc).wf(),
            meta.spec_layout() is Some,
            old(mc)@.has_room::<M>(
                ptr::target_size::<T, M>(meta),
                ptr::target_align::<T, M>(meta),
            ),
        ensures
            final(mc).wf(),
            final(mc)@.values.contains_key(r.ptr),
            meta.spec_shape().is_blank(
                ptr::target_size::<T, M>(meta),
                ZEROED,
                final(mc)@.values[r.ptr],
            ),
            old(mc)@.allocated::<M>(
                final(mc)@,
                r.ptr,
                ptr::target_size::<T, M>(meta),
                ptr::target_align::<T, M>(meta),
                CollectVTable::Opaque,
                false,
                meta.erased(),
                final(mc)@.values[r.ptr],
            ),
    {
        let layout = match meta.layout() {
            Ok(layout) => layout,
            Err(_) => vstd::pervasive::unreached(),
        };
        let shape = meta.shape();
        let contents = shape.blank(layout.size(), ZEROED);
        proof {
            meta.shape_agrees();
            shape.blank_fits(meta.erased(), layout.size() as int, ZEROED, contents.view());
        }
        let ptr = mc.allocate::<M>(layout, CollectVTable::Opaque, false, meta.erase(), contents);
        Unique { ptr, marker: PhantomData }
    }

    /// Takes the contents to be initialized. Every place must have been written.
    pub fn assume_init(self, mc: &mut Mutation<T>) -> (r: Unique<T, M>)
        requires
            old(mc).wf(),
            may_assume_init(old(mc)@, self.ptr),
        ensures
            final(mc).wf(),
            final(mc)@ == assumed_init(old(mc)@, self.ptr),
            r.ptr == self.ptr,
    {
        if matches!(mc.contents(self.ptr), Contents::Uninit(_)) {
            mc.initialize(self.ptr);
        }
        Unique { ptr: self.ptr, marker: PhantomData }
    }
}

impl<T: Collect> Unique<MaybeUninit<T>> {
    /// Writes the value and takes the contents to be initialized.
    pub fn write(this: Self, mc: &mut Mutation<T>, value: T) -> (r: Unique<T>)
        requires
            old(mc).wf(),
            old(mc)@.holds_slots(this.ptr),
            old(mc)@.slots(this.ptr).len() == 1,
        ensures
            final(mc).wf(),
            final(mc)@ == old(mc)@.initialized(this.ptr, seq![value]),
            r.ptr == this.ptr,
    {
        mc.write_slot(this.ptr, 0, value);
        let r = this.assume_init(mc);
        proof {
            let slots = old(mc)@.slots(this.ptr).update(0, Some(value));
            assert(contents::written(slots) =~= seq![value]);
            lemma_initialized_after_write(old(mc)@, this.ptr, slots);
        }
        r
    }
}

/// Writing to memory leaves no trace but what it is initialized with.
proof fn lemma_initialized_after_write<T: Collect>(s: State<T>, b: GcBox, slots: Seq<Option<T>>)
    ensures
        s.with_value(b, Value::Uninit(slots)).initialized(b, contents::written(slots))
            == s.initialized(b, contents::written(slots)),
{
    let row = contents::written(slots);
    let was = s.with_value(b, Value::Uninit(slots)).initialized(b, row);
    assert(was.values =~= s.initialized(b, row).values);
}

impl<T: Collect, M> Unique<MaybeUninit<T>, M> {
    /// Writes to one place of the row.
    pub fn write_at(&mut self, mc: &mut Mutation<T>, i: usize, value: T)
        requires
            old(mc).wf(),
            old(mc)@.holds_slots(old(self).ptr),
            i < old(mc)@.slots(old(self).ptr).len(),
        ensures
            final(mc).wf(),
            *final(self) == *old(self),
            final(mc)@ == old(mc)@.with_value(
                old(self).ptr,
                Value::Uninit(old(mc)@.slots(old(self).ptr).update(i as int, Some(value))),
            ),
    {
        mc.write_slot(self.ptr, i, value);
    }
}

impl<T: Collect, M> Unique<MaybeUninit<T>, M> {
    /// The plain memory behind the pointer.
    pub fn as_bytes<'a>(&self, mc: &'a Mutation<T>) -> (bytes: &'a [u8])
        requires
            mc@.values.contains_key(self.ptr),
            mc@.values[self.ptr] is Bytes,
        ensures
            bytes@ == mc@.values[self.ptr]->Bytes_0,
    {
        match mc.contents(self.ptr) {
            Contents::Bytes(bytes) => bytes.as_slice(),
            _ => vstd::pervasive::unreached(),
        }
    }
}

impl<T: Collect> Unique<MaybeUninit<T>, usize> {
    /// Writes a row and takes the contents to be initialized.
    fn write_row(self, mc: &mut Mutation<T>, row: Vec<T>) -> (r: Unique<T, usize>)
        requires
            old(mc).wf(),
            old(mc)@.holds_slots(self.ptr),
            row@.len() == old(mc)@.slots(self.ptr).len(),
        ensures
            final(mc).wf(),
            final(mc)@ == old(mc)@.initialized(self.ptr, row@),
            r.ptr == self.ptr,
    {
        proof {
            mc.wf_gives_inv();
        }
        mc.reopen(self.ptr);
        let meta = mc.meta(self.ptr);
        let was = mc.convert(
            self.ptr,
            CollectVTable::Traced,
            T::needs_trace(),
            meta,
            Contents::Values(row),
        );
        was.drop_in_place();
        Unique { ptr: self.ptr, marker: PhantomData }
    }

    /// The number of places in the row.
    pub fn len(&self, mc: &Mutation<T>) -> (n: usize)
        requires
            mc.wf(),
            mc@.holds_slots(self.ptr),
        ensures
            n == mc@.slots(self.ptr).len(),
    {
        match mc.contents(self.ptr) {
            Contents::Uninit(slots) => slots.len(),
            _ => vstd::pervasive::unreached(),
        }
    }

    /// Initializes the row with clones of the elements of a slice of the same length.
    pub fn write_clone_of_slice(self, mc: &mut Mutation<T>, src: &[T]) -> (r: Unique<
        T,
        usize,
    >) where T: Clone
        requires
            old(mc).wf(),
            old(mc)@.holds_slots(self.ptr),
            src@.len() == old(mc)@.slots(self.ptr).len(),
        ensures
            final(mc).wf(),
            final(mc)@.holds_row(self.ptr),
            final(mc)@ == old(mc)@.initialized(self.ptr, final(mc)@.row(self.ptr)),
            final(mc)@.row(self.ptr).len() == src@.len(),
            forall|i: int|
                0 <= i < src@.len() ==> #[trigger] cloned(src@[i], final(mc)@.row(self.ptr)[i]),
            r.ptr == self.ptr,
    {
        let mut row: Vec<T> = Vec::new();
        let mut i: usize = 0;
        while i < src.len()
            invariant
                i <= src@.len(),
                row@.len() == i,
                forall|j: int| 0 <= j < i ==> #[trigger] cloned(src@[j], row@[j]),
            decreases src@.len() - i,
        {
            row.push(src[i].clone());
            i += 1;
        }
        self.write_row(mc, row)
    }

    /// Initializes the row with copies of the elements of a slice of the same length.
    pub fn write_copy_of_slice(self, mc: &mut Mutation<T>, src: &[T]) -> (r: Unique<
        T,
        usize,
    >) where T: Copy
        requires
            old(mc).wf(),
            old(mc)@.holds_slots(self.ptr),
            src@.len() == old(mc)@.slots(self.ptr).len(),
        ensures
            final(mc).wf(),
            final(mc)@ == old(mc)@.initialized(self.ptr, src@),
            r.ptr == self.ptr,
    {
        let mut row: Vec<T> = Vec::new();
        let mut i: usize = 0;
        while i < src.len()
            invariant
                i <= src@.len(),
                row@ == src@.take(i as int),
            decreases src@.len() - i,
        {
            row.push(src[i]);
            i += 1;
            assert(row@ =~= src@.take(i as int));
        }
        assert(row@ =~= src@);
        self.write_row(mc, row)
    }

    /// Initializes the row with clones of a value; the last place takes the value itself.
    pub fn write_filled(self, mc: &mut Mutation<T>, value: T) -> (r: Unique<T, usize>) where
        T: Clone,

        requires
            old(mc).wf(),
            old(mc)@.holds_slots(self.ptr),
        ensures
            final(mc).wf(),
            final(mc)@.holds_row(self.ptr),
            final(mc)@ == old(mc)@.initialized(self.ptr, final(mc)@.row(self.ptr)),
            final(mc)@.row(self.ptr).len() == old(mc)@.slots(self.ptr).len(),
            forall|i: int|
                0 <= i < final(mc)@.row(self.ptr).len() ==> #[trigger] cloned(
                    value,
                    final(mc)@.row(self.ptr)[i],
                ),
            final(mc)@.row(self.ptr).len() > 0 ==> final(mc)@.row(self.ptr).last() == value,
            r.ptr == self.ptr,
    {
        let n: usize = self.len(mc);
        let mut row: Vec<T> = Vec::new();
        if n > 0 {
            let mut i: usize = 0;
            while i < n - 1
                invariant
                    n > 0,
                    i <= n - 1,
                    row@.len() == i,
                    forall|j: int| 0 <= j < i ==> #[trigger] cloned(value, row@[j]),
                decreases n - i,
            {
                row.push(value.clone());
                i += 1;
            }
            row.push(value);
        }
        self.write_row(mc, row)
    }

    /// Initializes each place of the row with the result of a function on its index.
    pub fn write_with<F: FnMut(usize) -> T>(self, mc: &mut Mutation<T>, f: F) -> (r: Unique<T, usize>)
        requires
            old(mc).wf(),
            old(mc)@.holds_slots(self.ptr),
            forall|i: usize|
                i < old(mc)@.slots(self.ptr).len() ==> #[trigger] call_requires(f, (i,)),
        ensures
            final(mc).wf(),
            final(mc)@.holds_row(self.ptr),
            final(mc)@ == old(mc)@.initialized(self.ptr, final(mc)@.row(self.ptr)),
            final(mc)@.row(self.ptr).len() == old(mc)@.slots(self.ptr).len(),
            forall|i: usize|
                i < final(mc)@.row(self.ptr).len() ==> call_ensures(
                    f,
                    (i,),
                    #[trigger] final(mc)@.row(self.ptr)[i as int],
                ),
            r.ptr == self.ptr,
    {
        let n: usize = self.len(mc);
        let ghost given = f;
        let mut f = f;
        let mut row: Vec<T> = Vec::new();
        let mut i: usize = 0;
        while i < n
            invariant
                i <= n,
                row@.len() == i,
                f == given,
                forall|j: usize| j < n ==> #[trigger] call_requires(given, (j,)),
                forall|j: usize| j < i ==> call_ensures(given, (j,), #[trigger] row@[j as int]),
            decreases n - i,
        {
            row.push(f(i));
            i += 1;
        }
        self.write_row(mc, row)
    }
}

impl<T: Collect> Unique<T> {
    /// The value behind the pointer.
    pub fn deref<'a>(&self, mc: &'a Mutation<T>) -> (value: &'a T)
        requires
            mc@.holds_one(self.ptr),
        ensures
            *value == mc@.value(self.ptr),
    {
        &mc.row(self.ptr)[0]
    }

    /// The value behind the pointer, to be changed in place after a write barrier: that the pointer
    /// is the only one does not keep the collector from having traced the value already.
    pub fn deref_mut<'a>(&mut self, mc: &'a mut Mutation<T>) -> (value: &'a mut T)
        requires
            old(mc).wf(),
            old(mc)@.holds_one(old(self).ptr),
        ensures
            *final(self) == *old(self),
            *value == old(mc)@.value(old(self).ptr),
            final(mc).wf(),
            final(mc)@ == old(mc)@.with_heap(
                old(mc)@.heap.backward_barrier(old(self).ptr, None),
            ).with_row(old(self).ptr, seq![*final(value)]),
    {
        proof {
            mc.wf_gives_inv();
            assert(mc@.values.contains_key(self.ptr));
        }
        mc.reopen(self.ptr);
        proof {
            assert forall|t: T| #[trigger]
                mc@.row(self.ptr).update(0, t) == seq![t] by {
                assert(mc@.row(self.ptr).update(0, t) =~= seq![t]);
            }
        }
        mc.value_mut(self.ptr, 0)
    }
}

impl<T: Collect> Unique<T, usize> {
    /// The values behind the pointer.
    pub fn as_slice<'a>(&self, mc: &'a Mutation<T>) -> (row: &'a [T])
        requires
            mc@.holds_row(self.ptr),
        ensures
            row@ == mc@.row(self.ptr),
    {
        mc.row(self.ptr)
    }

    /// One of the values behind the pointer, to be changed in place after a write barrier.
    pub fn index_mut<'a>(&mut self, mc: &'a mut Mutation<T>, i: usize) -> (value: &'a mut T)
        requires
            old(mc).wf(),
            old(mc)@.holds_row(old(self).ptr),
            i < old(mc)@.row(old(self).ptr).len(),
        ensures
            *final(self) == *old(self),
            *value == old(mc)@.row(old(self).ptr)[i as int],
            final(mc).wf(),
            final(mc)@ == old(mc)@.with_heap(
                old(mc)@.heap.backward_barrier(old(self).ptr, None),
            ).with_row(old(self).ptr, old(mc)@.row(old(self).ptr).update(i as int, *final(value))),
    {
        proof {
            mc.wf_gives_inv();
            assert(mc@.values.contains_key(self.ptr));
        }
        mc.reopen(self.ptr);
        mc.value_mut(self.ptr, i)
    }
}

impl<T, M> Unique<T, M> {
    /// Takes the pointer to point to another type.
    pub fn cast<U>(this: Unique<T, M>) -> (r: Unique<U, M>)
        ensures
            r.ptr == this.ptr,
    {
        Unique { ptr: this.ptr, marker: PhantomData }
    }

    /// The address of the contents.
    pub fn addr(this: &Self) -> (addr: usize)
        ensures
            addr == this.ptr.addr,
    {
        this.ptr.addr
    }

    /// The address of the contents, for a pointer that is borrowed mutably.
    pub fn addr_mut(this: &mut Self) -> (addr: usize)
        ensures
            addr == old(this).ptr.addr,
            *final(this) == *old(this),
    {
        this.ptr.addr
    }

    /// The metadata of the contents.
    pub fn metadata<P: Collect>(this: &Self, mc: &Mutation<P>) -> (meta: M) where M: Metadata<T>
        requires
            mc@.heap.has(this.ptr),
            M::recognizes(mc@.heap.boxes[this.ptr].meta),
        ensures
            meta.erased() == mc@.heap.boxes[this.ptr].meta,
    {
        M::restore(mc.meta(this.ptr)).unwrap()
    }

    /// The address and the metadata of the contents.
    pub fn into_raw_parts<P: Collect>(this: Self, mc: &Mutation<P>) -> (parts: (usize, M)) where
        M: Metadata<T>,

        requires
            mc@.heap.has(this.ptr),
            M::recognizes(mc@.heap.boxes[this.ptr].meta),
        ensures
            parts.0 == this.ptr.addr,
            parts.1.erased() == mc@.heap.boxes[this.ptr].meta,
    {
        (Unique::addr(&this), Unique::metadata(&this, mc))
    }

    /// The pointer to an address that [`Unique::addr`] gave.
    pub fn from_raw(raw: usize) -> (r: Unique<T, M>)
        ensures
            r.ptr.addr == raw,
    {
        Unique { ptr: GcBox { addr: raw }, marker: PhantomData }
    }

    /// Gives up the uniqueness of the pointer.
    pub fn into_gc(self) -> (r: Gc<T, M>)
        ensures
            r.ptr == self.ptr,
    {
        Gc { ptr: self.ptr, marker: PhantomData }
    }

    /// Whether the marking has not found the box, in finalization. A box that the root leads to is
    /// never dead.
    pub fn is_dead<P: Collect>(fc: &Finalization<P>, gc: &Self) -> (dead: bool)
        requires
            fc@.heap.has(gc.ptr),
        ensures
            dead == fc@.heap.is_white(gc.ptr),
    {
        fc.is_white(gc.ptr)
    }

    /// Marks the box by hand, so that it and all that it leads to outlive this cycle.
    pub fn resurrect<P: Collect>(fc: &mut Finalization<P>, gc: &Self)
        requires
            old(fc).wf(),
            old(fc)@.heap.has(gc.ptr),
            old(fc)@.heap.live(gc.ptr),
        ensures
            final(fc).wf(),
            final(fc)@ == old(fc)@.with_heap(old(fc)@.heap.resurrect(gc.ptr)),
    {
        fc.resurrect(gc.ptr);
    }

    /// The raw pointer to the contents.
    pub fn as_ptr<P: Collect>(this: &Self, mc: &Mutation<P>) -> (ptr: M::Ptr) where M: Metadata<T>
        requires
            mc@.heap.has(this.ptr),
            M::recognizes(mc@.heap.boxes[this.ptr].meta),
        ensures
            exists|m: M| #[trigger]
                m.erased() == mc@.heap.boxes[this.ptr].meta && ptr == m.spec_with_addr(
                    this.ptr.addr,
                ),
            M::spec_addr(ptr) == this.ptr.addr,
    {
        let meta: M = Unique::metadata(this, mc);
        proof {
            meta.addr_of_pointer(this.ptr.addr);
        }
        meta.with_addr(this.ptr.addr)
    }

    /// The raw pointer to the contents, for a pointer that is borrowed mutably.
    pub fn as_mut_ptr<P: Collect>(this: &mut Self, mc: &Mutation<P>) -> (ptr: M::Ptr) where
        M: Metadata<T>,

        requires
            mc@.heap.has(old(this).ptr),
            M::recognizes(mc@.heap.boxes[old(this).ptr].meta),
        ensures
            *final(this) == *old(this),
            exists|m: M| #[trigger]
                m.erased() == mc@.heap.boxes[old(this).ptr].meta && ptr == m.spec_with_addr(
                    old(this).ptr.addr,
                ),
            M::spec_addr(ptr) == old(this).ptr.addr,
    {
        Unique::as_ptr(this, mc)
    }

    /// Turns the pointer into a raw one.
    pub fn into_ptr<P: Collect>(this: Self, mc: &Mutation<P>) -> (ptr: M::Ptr) where M: Metadata<T>
        requires
            mc@.heap.has(this.ptr),
            M::recognizes(mc@.heap.boxes[this.ptr].meta),
        ensures
            exists|m: M| #[trigger]
                m.erased() == mc@.heap.boxes[this.ptr].meta && ptr == m.spec_with_addr(
                    this.ptr.addr,
                ),
            M::spec_addr(ptr) == this.ptr.addr,
    {
        Unique::as_ptr(&this, mc)
    }

    /// The pointer that [`Unique::as_ptr`] or [`Unique::into_ptr`] gave a raw pointer of.
    pub fn from_ptr(raw: M::Ptr) -> (r: Unique<T, M>) where M: Metadata<T>
        ensures
            r.ptr.addr == M::spec_addr(raw),
    {
        Unique::from_raw(M::addr(raw))
    }
}

} // verus!
