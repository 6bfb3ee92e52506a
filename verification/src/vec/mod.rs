//! A growable array whose buffer is a box of the heap.

use crate::collect::{self, Collect, Edge, Trace};
use crate::contents::{Contents, Value};
use crate::gc::unique;
use crate::gc::{Gc, Unique};
use crate::layout::{self, Layout};
use crate::mutation::Mutation;
use crate::state::State;
use crate::types::{CollectVTable, GcBox, Meta};
use core::marker::PhantomData;
use core::mem::MaybeUninit;
use vstd::prelude::*;
use vstd::std_specs::iter::IteratorSpec;

pub mod convert_vec;
pub mod desugared;
pub mod iter;
pub mod laws;
pub mod spec_extend;
pub mod spec_from_iter;

pub use self::convert_vec::ConvertVec;
pub use self::iter::IntoIter;
pub use self::spec_from_iter::SpecFromIter;

verus! {

/// A contiguous growable array type with a buffer managed by the collector.
///
/// The buffer is a box of uninitialized memory with room for `cap` elements; the vector, not the
/// box, knows which of them are initialized, and traces those. What stands in the places after the
/// elements stays there until it is overwritten or the buffer changes.
#[verifier::reject_recursive_types(T)]
pub struct Vec<T> {
    pub buf: Unique<MaybeUninit<T>, usize>,
    pub cap: usize,
    pub elems: std::vec::Vec<T>,
    /// What stands in the first places after the elements, the very first one last.
    pub spare: std::vec::Vec<Option<T>>,
}

impl<T> View for Vec<T> {
    type V = Seq<T>;

    open spec fn view(&self) -> Seq<T> {
        self.elems@
    }
}

impl<T: Collect> Collect for Vec<T> {
    open spec fn edges(&self) -> Seq<Edge> {
        self.buf.edges() + collect::row_edges(self@)
    }

    open spec fn spec_needs_trace() -> bool {
        true
    }

    open spec fn spec_zeroed() -> Option<Self> {
        None
    }

    proof fn untraced_has_no_edges(&self) {
    }

    fn needs_trace() -> (b: bool) {
        true
    }

    fn zeroed() -> (t: Option<Self>) {
        None
    }

    fn trace<C: Trace>(&self, cc: &mut C) {
        proof {
            collect::lemma_all_ready_split::<C>(
                cc.state(),
                self.buf.edges(),
                collect::row_edges(self@),
            );
            collect::lemma_trace_all_append::<C>(
                cc.state(),
                self.buf.edges(),
                collect::row_edges(self@),
            );
        }
        collect::trace(cc, &self.buf);
        collect::trace_slice(cc, self.elems.as_slice());
    }
}

/// The least capacity worth allocating: 8 if the element size is 1, 4 up to 1 KiB, 1 otherwise.
pub open spec fn spec_min_non_zero_cap(size: nat) -> nat {
    if size == 1 {
        8
    } else if size <= 1024 {
        4
    } else {
        1
    }
}

/// The least capacity worth allocating for elements of this size.
pub fn min_non_zero_cap(size: usize) -> (cap: usize)
    ensures
        cap == spec_min_non_zero_cap(size as nat),
{
    if size == 1 {
        8
    } else if size <= 1024 {
        4
    } else {
        1
    }
}

/// The greatest of twice a capacity, the capacity that is required and the least one worth
/// allocating.
pub(crate) fn grown_capacity(double: usize, required: usize, least: usize) -> (cap: usize)
    ensures
        cap == layout::max(layout::max(double as int, required as int), least as int),
{
    let cap: usize = if required > double {
        required
    } else {
        double
    };
    if least > cap {
        least
    } else {
        cap
    }
}

/// Whether there is room for a buffer of `cap` elements of type `T`.
pub open spec fn room_for_buffer<T, P: Collect>(s: State<P>, cap: int) -> bool {
    s.has_room::<usize>(layout::row_size::<T>(cap), vstd::layout::align_of::<T>() as int)
}

/// Whether `t` is the state `s` with a new buffer of `cap` elements of type `T`.
pub open spec fn new_buffer<T, P: Collect>(s: State<P>, t: State<P>, b: GcBox, cap: int) -> bool {
    s.allocated::<usize>(
        t,
        b,
        layout::row_size::<T>(cap),
        vstd::layout::align_of::<T>() as int,
        CollectVTable::Opaque,
        false,
        Meta::Len(cap as usize),
        Value::Buffer,
    )
}

/// A buffer with room for as many elements without a size as there can be is no larger than one for
/// a few.
pub(crate) proof fn lemma_first_cap_takes_no_more<T>(capacity: usize)
    ensures
        layout::row_size::<T>(first_cap::<T>(capacity) as int) == layout::row_size::<T>(
            capacity as int,
        ),
{
    let size = vstd::layout::size_of::<T>() as int;
    let cap = first_cap::<T>(capacity) as int;
    if size == 0 {
        assert(cap * size == capacity * size) by (nonlinear_arith)
            requires
                size == 0,
        ;
    }
}

/// The capacity of a vector made with `capacity`: elements without a size take no room.
pub open spec fn first_cap<T>(capacity: usize) -> usize {
    if vstd::layout::size_of::<T>() == 0 {
        usize::MAX
    } else {
        capacity
    }
}

impl<T> Vec<T> {
    /// The elements fit the buffer, which has room for as many as there can be if they have no
    /// size.
    pub open spec fn wf(&self) -> bool {
        &&& self@.len() <= self.cap
        &&& self.cap == first_cap::<T>(self.cap)
    }

    /// What a place of the buffer holds: an element, or what else was written to it. A value that
    /// was moved out is not there any more.
    pub open spec fn place(&self, i: int) -> Option<T> {
        if i < self@.len() {
            Some(self@[i])
        } else if i - self@.len() < self.spare@.len() {
            self.spare@[self.spare@.len() - 1 - (i - self@.len())]
        } else {
            None
        }
    }

    /// Whether the places from `from` on hold in `new` what they hold here.
    pub open spec fn keeps_places(&self, new: Vec<T>, from: int) -> bool {
        forall|i: int| from <= i ==> #[trigger] new.place(i) == self.place(i)
    }

    /// Whether the buffer is the vector's in this state.
    pub open spec fn stands_in<P: Collect>(&self, s: State<P>) -> bool {
        &&& self.wf()
        &&& s.values.contains_key(self.buf.ptr)
        &&& s.values[self.buf.ptr] == Value::<P>::Buffer
        &&& s.heap.boxes[self.buf.ptr].meta == Meta::Len(self.cap)
    }

    /// The capacity after room was made for `additional` more elements: at least twice as much as
    /// before.
    pub open spec fn grown_cap(&self, additional: int) -> int {
        layout::max(
            layout::max(2 * self.cap, self@.len() + additional),
            spec_min_non_zero_cap(vstd::layout::size_of::<T>()) as int,
        )
    }

    /// Whether room can be made for `additional` more elements.
    pub open spec fn can_reserve<P: Collect>(&self, s: State<P>, additional: int) -> bool {
        &&& self@.len() + additional <= usize::MAX
        &&& self@.len() + additional > self.cap ==> {
            &&& 2 * self.cap <= usize::MAX
            &&& room_for_buffer::<T, P>(s, self.grown_cap(additional))
        }
    }

    /// Whether `new` has the buffer of this vector after room was made for `additional` more
    /// elements: the same one if it was large enough, a new one otherwise.
    pub open spec fn reserved<P: Collect>(
        &self,
        new: Vec<T>,
        s: State<P>,
        t: State<P>,
        additional: int,
    ) -> bool {
        if self@.len() + additional <= self.cap {
            &&& t == s
            &&& new.buf == self.buf
            &&& new.cap == self.cap
            &&& self.keeps_places(new, self@.len() + additional)
        } else {
            self.moved(new, s, t, self.grown_cap(additional))
        }
    }

    /// Whether `new` has a new buffer of capacity `cap` with nothing after the elements.
    pub open spec fn moved<P: Collect>(
        &self,
        new: Vec<T>,
        s: State<P>,
        t: State<P>,
        cap: int,
    ) -> bool {
        &&& new.cap == cap
        &&& new.spare@.len() == 0
        &&& new_buffer::<T, P>(s, t, new.buf.ptr, cap)
    }

    /// Allocates a buffer.
    fn new_buffer<P: Collect>(mc: &mut Mutation<P>, cap: usize) -> (buf: Unique<
        MaybeUninit<T>,
        usize,
    >)
        requires
            old(mc).wf(),
            room_for_buffer::<T, P>(old(mc)@, cap as int),
        ensures
            final(mc).wf(),
            new_buffer::<T, P>(old(mc)@, final(mc)@, buf.ptr, cap as int),
    {
        let layout = match Layout::array::<T>(cap) {
            Ok(layout) => layout,
            Err(_) => vstd::pervasive::unreached(),
        };
        let ptr = mc.allocate::<usize>(
            layout,
            CollectVTable::Opaque,
            false,
            Meta::Len(cap),
            Contents::Buffer,
        );
        Unique { ptr, marker: PhantomData }
    }

    /// Creates an empty vector. Unlike the vector of the standard library it allocates: a box
    /// needs a header.
    pub fn new<P: Collect>(mc: &mut Mutation<P>) -> (r: Vec<T>)
        requires
            old(mc).wf(),
            room_for_buffer::<T, P>(
                old(mc)@,
                first_cap::<T>(
                    spec_min_non_zero_cap(vstd::layout::size_of::<T>()) as usize,
                ) as int,
            ),
        ensures
            final(mc).wf(),
            r.stands_in(final(mc)@),
            r@ == Seq::<T>::empty(),
            r.cap == first_cap::<T>(spec_min_non_zero_cap(vstd::layout::size_of::<T>()) as usize),
            r.spare@.len() == 0,
            new_buffer::<T, P>(old(mc)@, final(mc)@, r.buf.ptr, r.cap as int),
    {
        Vec::with_capacity(mc, min_non_zero_cap(core::mem::size_of::<T>()))
    }

    /// Creates an empty vector with room for `capacity` elements; for elements without a size,
    /// with room for as many as there can be.
    pub fn with_capacity<P: Collect>(mc: &mut Mutation<P>, capacity: usize) -> (r: Vec<T>)
        requires
            old(mc).wf(),
            room_for_buffer::<T, P>(old(mc)@, first_cap::<T>(capacity) as int),
        ensures
            final(mc).wf(),
            r.stands_in(final(mc)@),
            r@ == Seq::<T>::empty(),
            r.cap == first_cap::<T>(capacity),
            r.spare@.len() == 0,
            new_buffer::<T, P>(old(mc)@, final(mc)@, r.buf.ptr, r.cap as int),
    {
        let cap: usize = if core::mem::size_of::<T>() == 0 {
            usize::MAX
        } else {
            capacity
        };
        let buf = Vec::<T>::new_buffer(mc, cap);
        Vec { buf, cap, elems: std::vec::Vec::new(), spare: std::vec::Vec::new() }
    }

    /// Creates a vector from an array, with room for no more elements unless they have no size.
    pub fn from_array<P: Collect, const N: usize>(mc: &mut Mutation<P>, array: [T; N]) -> (r: Vec<T>)
        requires
            old(mc).wf(),
            room_for_buffer::<T, P>(old(mc)@, first_cap::<T>(N) as int),
        ensures
            final(mc).wf(),
            r.stands_in(final(mc)@),
            r@ == array@,
            r.cap == first_cap::<T>(N),
            r.spare@.len() == 0,
            new_buffer::<T, P>(old(mc)@, final(mc)@, r.buf.ptr, r.cap as int),
    {
        let mut vec: Vec<T> = Vec::with_capacity(mc, N);
        vec.elems = unique::vec_from_array(array);
        assert(array@.len() == N);
        vec
    }

    /// Moves the elements to a new buffer. The old one is left to the collector.
    fn reallocate<P: Collect>(&mut self, mc: &mut Mutation<P>, cap: usize)
        requires
            old(mc).wf(),
            old(self)@.len() <= cap,
            vstd::layout::size_of::<T>() > 0,
            room_for_buffer::<T, P>(old(mc)@, cap as int),
        ensures
            final(mc).wf(),
            final(self).stands_in(final(mc)@),
            final(self)@ == old(self)@,
            old(self).moved(*final(self), old(mc)@, final(mc)@, cap as int),
    {
        self.spare.clear();
        self.buf = Vec::<T>::new_buffer(mc, cap);
        self.cap = cap;
    }

    /// Makes room for at least `additional` more elements, and for more than that if the buffer
    /// has to grow.
    pub fn reserve<P: Collect>(&mut self, mc: &mut Mutation<P>, additional: usize)
        requires
            old(mc).wf(),
            old(self).stands_in(old(mc)@),
            old(self).can_reserve(old(mc)@, additional as int),
        ensures
            final(mc).wf(),
            final(self).stands_in(final(mc)@),
            final(self)@ == old(self)@,
            final(self)@.len() + additional <= final(self).cap,
            old(self)@.len() + additional <= old(self).cap ==> *final(self) == *old(self),
            old(self).reserved(*final(self), old(mc)@, final(mc)@, additional as int),
    {
        let required: usize = self.elems.len() + additional;
        if required > self.cap {
            let cap: usize = grown_capacity(
                self.cap * 2,
                required,
                min_non_zero_cap(core::mem::size_of::<T>()),
            );
            self.reallocate(mc, cap);
        }
    }

    /// Whether room can be made for `additional` more elements.
    pub fn has_room_for<P: Collect>(&self, mc: &Mutation<P>, additional: usize) -> (b: bool)
        requires
            self.wf(),
        ensures
            b == self.can_reserve(mc@, additional as int),
    {
        match self.elems.len().checked_add(additional) {
            None => false,
            Some(required) => if required <= self.cap {
                true
            } else {
                match self.cap.checked_mul(2) {
                    None => false,
                    Some(double) => {
                        let cap: usize = grown_capacity(
                            double,
                            required,
                            min_non_zero_cap(core::mem::size_of::<T>()),
                        );
                        match Layout::array::<T>(cap) {
                            Ok(layout) => mc.has_room::<usize>(layout),
                            Err(_) => false,
                        }
                    },
                }
            },
        }
    }

    /// Makes room for exactly `additional` more elements if the buffer has to grow.
    pub fn reserve_exact<P: Collect>(&mut self, mc: &mut Mutation<P>, additional: usize)
        requires
            old(mc).wf(),
            old(self).stands_in(old(mc)@),
            old(self)@.len() + additional <= usize::MAX,
            old(self)@.len() + additional > old(self).cap ==> room_for_buffer::<T, P>(
                old(mc)@,
                old(self)@.len() + additional,
            ),
        ensures
            final(mc).wf(),
            final(self).stands_in(final(mc)@),
            final(self)@ == old(self)@,
            if old(self)@.len() + additional <= old(self).cap {
                final(mc)@ == old(mc)@ && *final(self) == *old(self)
            } else {
                old(self).moved(
                    *final(self),
                    old(mc)@,
                    final(mc)@,
                    old(self)@.len() + additional,
                )
            },
    {
        let required: usize = self.elems.len() + additional;
        if required > self.cap {
            self.reallocate(mc, required);
        }
    }

    /// Shrinks the capacity to the length, unless the elements have no size.
    pub fn shrink_to_fit<P: Collect>(&mut self, mc: &mut Mutation<P>)
        requires
            old(mc).wf(),
            old(self).stands_in(old(mc)@),
            old(self)@.len() < old(self).cap && vstd::layout::size_of::<T>() > 0
                ==> room_for_buffer::<T, P>(old(mc)@, old(self)@.len() as int),
        ensures
            final(mc).wf(),
            final(self).stands_in(final(mc)@),
            final(self)@ == old(self)@,
            if old(self)@.len() < old(self).cap && vstd::layout::size_of::<T>() > 0 {
                old(self).moved(*final(self), old(mc)@, final(mc)@, old(self)@.len() as int)
            } else {
                final(mc)@ == old(mc)@ && *final(self) == *old(self)
            },
    {
        if self.elems.len() < self.cap && core::mem::size_of::<T>() > 0 {
            let len: usize = self.elems.len();
            self.reallocate(mc, len);
        }
    }

    /// Shrinks the capacity to the greater of the length and a lower bound, unless it is already
    /// that small or the elements have no size.
    pub fn shrink_to<P: Collect>(&mut self, mc: &mut Mutation<P>, min_capacity: usize)
        requires
            old(mc).wf(),
            old(self).stands_in(old(mc)@),
            min_capacity < old(self).cap && vstd::layout::size_of::<T>() > 0 ==> room_for_buffer::<
                T,
                P,
            >(old(mc)@, layout::max(old(self)@.len() as int, min_capacity as int)),
        ensures
            final(mc).wf(),
            final(self).stands_in(final(mc)@),
            final(self)@ == old(self)@,
            if min_capacity < old(self).cap && vstd::layout::size_of::<T>() > 0 {
                old(self).moved(
                    *final(self),
                    old(mc)@,
                    final(mc)@,
                    layout::max(old(self)@.len() as int, min_capacity as int),
                )
            } else {
                final(mc)@ == old(mc)@ && *final(self) == *old(self)
            },
    {
        if min_capacity < self.cap && core::mem::size_of::<T>() > 0 {
            let len: usize = self.elems.len();
            let cap: usize = if len < min_capacity {
                min_capacity
            } else {
                len
            };
            self.reallocate(mc, cap);
        }
    }
}

impl<T> Vec<T> {
    /// Forgets what stands in the next `n` places, which are about to become elements.
    fn skip_spare(&mut self, n: usize)
        ensures
            final(self).elems == old(self).elems,
            final(self).buf == old(self).buf,
            final(self).cap == old(self).cap,
            final(self).spare@ == if n < old(self).spare@.len() {
                old(self).spare@.take(old(self).spare@.len() - n)
            } else {
                Seq::empty()
            },
    {
        let len: usize = self.spare.len();
        if n < len {
            self.spare.truncate(len - n);
        } else {
            self.spare.clear();
        }
    }

    /// Makes the next place an element.
    pub(crate) fn push_element(&mut self, value: T)
        ensures
            final(self)@ == old(self)@.push(value),
            final(self).buf == old(self).buf,
            final(self).cap == old(self).cap,
            old(self).keeps_places(*final(self), (old(self)@.len() + 1) as int),
            old(self).spare@.len() == 0 ==> final(self).spare@.len() == 0,
    {
        self.skip_spare(1);
        self.elems.push(value);
    }

    /// Notes that the values of `n` places before the spare ones were moved out.
    fn leave_spare(&mut self, n: usize)
        ensures
            final(self).elems == old(self).elems,
            final(self).buf == old(self).buf,
            final(self).cap == old(self).cap,
            forall|i: int|
                old(self)@.len() + n <= i ==> #[trigger] final(self).place(i) == old(self).place(
                    i - n,
                ),
            forall|i: int|
                old(self)@.len() <= i < old(self)@.len() + n ==> #[trigger] final(self).place(i)
                    is None,
    {
        if self.spare.len() > 0 {
            let mut none: std::vec::Vec<Option<T>> = crate::ptr::make_slots(n);
            self.spare.append(&mut none);
        }
    }

    /// Moves the elements of `other` to the end.
    pub(crate) fn append_elements<P: Collect>(&mut self, mc: &mut Mutation<P>, other: std::vec::Vec<T>)
        requires
            old(mc).wf(),
            old(self).stands_in(old(mc)@),
            old(self).can_reserve(old(mc)@, other@.len() as int),
        ensures
            final(mc).wf(),
            final(self).stands_in(final(mc)@),
            final(self)@ == old(self)@ + other@,
            old(self).reserved(*final(self), old(mc)@, final(mc)@, other@.len() as int),
    {
        let mut other = other;
        let count: usize = other.len();
        self.reserve(mc, count);
        self.skip_spare(count);
        self.elems.append(&mut other);
    }

    /// Inserts an element at position `index` and shifts all elements after it to the right.
    pub fn insert<P: Collect>(&mut self, mc: &mut Mutation<P>, index: usize, element: T)
        requires
            old(mc).wf(),
            old(self).stands_in(old(mc)@),
            index <= old(self)@.len(),
            old(self).can_reserve(old(mc)@, 1),
        ensures
            final(mc).wf(),
            final(self).stands_in(final(mc)@),
            final(self)@ == old(self)@.insert(index as int, element),
            old(self).reserved(*final(self), old(mc)@, final(mc)@, 1),
    {
        self.reserve(mc, 1);
        self.skip_spare(1);
        self.elems.insert(index, element);
    }

    /// Appends an element to the end.
    pub fn push<P: Collect>(&mut self, mc: &mut Mutation<P>, value: T)
        requires
            old(mc).wf(),
            old(self).stands_in(old(mc)@),
            old(self).can_reserve(old(mc)@, 1),
        ensures
            final(mc).wf(),
            final(self).stands_in(final(mc)@),
            final(self)@ == old(self)@.push(value),
            old(self).reserved(*final(self), old(mc)@, final(mc)@, 1),
    {
        self.reserve(mc, 1);
        self.push_element(value);
    }

    /// Moves all elements of `other` to the end, leaving `other` empty.
    pub fn append<P: Collect>(&mut self, mc: &mut Mutation<P>, other: &mut Vec<T>)
        requires
            old(mc).wf(),
            old(self).stands_in(old(mc)@),
            old(self).can_reserve(old(mc)@, old(other)@.len() as int),
        ensures
            final(mc).wf(),
            final(self).stands_in(final(mc)@),
            final(self)@ == old(self)@ + old(other)@,
            old(self).reserved(*final(self), old(mc)@, final(mc)@, old(other)@.len() as int),
            final(other)@ == Seq::<T>::empty(),
            final(other).buf == old(other).buf,
            final(other).cap == old(other).cap,
            old(other).keeps_places(*final(other), old(other)@.len() as int),
            forall|i: int|
                0 <= i < old(other)@.len() ==> #[trigger] final(other).place(i) is None,
    {
        let mut elems: std::vec::Vec<T> = std::vec::Vec::new();
        let count: usize = other.elems.len();
        core::mem::swap(&mut other.elems, &mut elems);
        other.leave_spare(count);
        self.append_elements(mc, elems);
    }

    /// Makes the length `new_len`: the vector is truncated, or extended with results of `f` in the
    /// order of the calls.
    pub fn resize_with<P: Collect, F: FnMut() -> T>(
        &mut self,
        mc: &mut Mutation<P>,
        new_len: usize,
        f: F,
    )
        requires
            old(mc).wf(),
            old(self).stands_in(old(mc)@),
            new_len > old(self)@.len() ==> old(self).can_reserve(
                old(mc)@,
                new_len - old(self)@.len(),
            ) && call_requires(f, ()),
        ensures
            final(mc).wf(),
            final(self).stands_in(final(mc)@),
            final(self)@.len() == new_len,
            forall|i: int|
                0 <= i < new_len ==> if i < old(self)@.len() {
                    #[trigger] final(self)@[i] == old(self)@[i]
                } else {
                    call_ensures(f, (), final(self)@[i])
                },
            if new_len > old(self)@.len() {
                old(self).reserved(
                    *final(self),
                    old(mc)@,
                    final(mc)@,
                    new_len - old(self)@.len(),
                )
            } else {
                &&& final(mc)@ == old(mc)@
                &&& final(self).buf == old(self).buf
                &&& final(self).cap == old(self).cap
                &&& old(self).keeps_places(*final(self), 0)
            },
    {
        let len: usize = self.elems.len();
        if new_len > len {
            let ghost given = f;
            let mut f = f;
            self.reserve(mc, new_len - len);
            let mut i: usize = len;
            while i < new_len
                invariant
                    mc.wf(),
                    self.stands_in(mc@),
                    len == old(self)@.len(),
                    len <= i <= new_len <= self.cap,
                    self@.len() == i,
                    f == given,
                    call_requires(given, ()),
                    forall|j: int| 0 <= j < len ==> #[trigger] self@[j] == old(self)@[j],
                    forall|j: int| len <= j < i ==> call_ensures(given, (), #[trigger] self@[j]),
                    old(self).reserved(*self, old(mc)@, mc@, new_len - len),
                decreases new_len - i,
            {
                let ghost before = self@;
                self.push_element(f());
                assert forall|j: int| 0 <= j < i implies self@[j] == before[j] by {}
                i += 1;
            }
        } else {
            self.truncate(new_len);
        }
    }

    /// Puts a vector together again from what [`Vec::into_raw_parts`] gave.
    pub fn from_raw_parts(
        buf: Unique<MaybeUninit<T>, usize>,
        elems: std::vec::Vec<T>,
        capacity: usize,
    ) -> (r: Vec<T>)
        ensures
            r.buf == buf,
            r@ == elems@,
            r.cap == capacity,
    {
        Vec { buf, cap: capacity, elems, spare: std::vec::Vec::new() }
    }

    /// Takes a vector apart into its buffer, its elements and its capacity.
    pub fn into_raw_parts(self) -> (parts: (
        Unique<MaybeUninit<T>, usize>,
        std::vec::Vec<T>,
        usize,
    ))
        ensures
            parts.0 == self.buf,
            parts.1@ == self@,
            parts.2 == self.cap,
    {
        (self.buf, self.elems, self.cap)
    }

    /// The number of elements that the buffer has room for.
    pub fn capacity(&self) -> (cap: usize)
        ensures
            cap == self.cap,
    {
        self.cap
    }

    /// Keeps the first `len` elements; does nothing if there are no more. What the places of the
    /// others hold stays.
    pub fn truncate(&mut self, len: usize)
        ensures
            final(self)@ == if len < old(self)@.len() {
                old(self)@.take(len as int)
            } else {
                old(self)@
            },
            old(self).keeps_places(*final(self), 0),
            final(self).buf == old(self).buf,
            final(self).cap == old(self).cap,
    {
        while self.elems.len() > len
            invariant
                self@.len() <= old(self)@.len(),
                len < old(self)@.len() ==> len <= self@.len(),
                len >= old(self)@.len() ==> self@.len() == old(self)@.len(),
                self@ == old(self)@.take(self@.len() as int),
                old(self).keeps_places(*self, 0),
                self.buf == old(self).buf,
                self.cap == old(self).cap,
            decreases self@.len(),
        {
            let ghost before = *self;
            let element = self.elems.pop();
            self.spare.push(element);
            proof {
                assert(self@ =~= old(self)@.take(self@.len() as int));
                assert forall|i: int| 0 <= i implies #[trigger] self.place(i) == old(self).place(
                    i,
                ) by {
                    assert(before.place(i) == old(self).place(i));
                }
            }
        }
    }

    /// The elements as a slice.
    pub fn as_slice(&self) -> (slice: &[T])
        ensures
            slice@ == self@,
    {
        self.elems.as_slice()
    }

    /// The elements as a slice that may be changed.
    pub fn as_mut_slice(&mut self) -> (slice: &mut [T])
        ensures
            slice@ == old(self)@,
            final(self)@ == final(slice)@,
            final(self).spare == old(self).spare,
            final(self).buf == old(self).buf,
            final(self).cap == old(self).cap,
    {
        self.elems.as_mut_slice()
    }

    /// The address of the buffer.
    pub fn as_ptr(&self) -> (addr: usize)
        ensures
            addr == self.buf.ptr.addr,
    {
        self.buf.ptr.addr
    }

    /// The address of the buffer, for a vector that is borrowed mutably.
    pub fn as_mut_ptr(&mut self) -> (addr: usize)
        ensures
            addr == old(self).buf.ptr.addr,
            *final(self) == *old(self),
    {
        self.buf.ptr.addr
    }

    /// Forces the length to `new_len`. Every place below that must have been written; what the
    /// places hold stays.
    pub fn set_len(&mut self, new_len: usize)
        requires
            new_len <= old(self).cap,
            forall|i: int| 0 <= i < new_len ==> #[trigger] old(self).place(i) is Some,
        ensures
            final(self)@.len() == new_len,
            forall|i: int| 0 <= i ==> #[trigger] final(self).place(i) == old(self).place(i),
            forall|i: int| 0 <= i < new_len ==> Some(#[trigger] final(self)@[i]) == old(self).place(i),
            final(self).buf == old(self).buf,
            final(self).cap == old(self).cap,
    {
        self.truncate(new_len);
        while self.elems.len() < new_len
            invariant
                self@.len() <= new_len,
                forall|i: int| 0 <= i < new_len ==> #[trigger] old(self).place(i) is Some,
                old(self).keeps_places(*self, 0),
                self.buf == old(self).buf,
                self.cap == old(self).cap,
            decreases new_len - self@.len(),
        {
            let ghost before = *self;
            proof {
                let next = self@.len() as int;
                assert(self.place(next) == old(self).place(next));
                assert(old(self).place(next) is Some);
            }
            if let Some(Some(element)) = self.spare.pop() {
                self.elems.push(element);
            }
            proof {
                assert forall|i: int| 0 <= i implies #[trigger] self.place(i) == old(self).place(
                    i,
                ) by {
                    assert(before.place(i) == old(self).place(i));
                }
            }
        }
        proof {
            assert forall|i: int| 0 <= i < new_len implies Some(#[trigger] self@[i]) == old(self).place(
                i,
            ) by {
                assert(self.place(i) == old(self).place(i));
            }
        }
    }

    /// A place of the buffer after the elements, to be written before [`Vec::set_len`] makes it
    /// an element.
    pub fn spare_capacity_mut(&mut self, i: usize) -> (place: &mut Option<T>)
        requires
            old(self)@.len() + i < old(self).cap,
        ensures
            *place == old(self).place(old(self)@.len() + i),
            final(self)@ == old(self)@,
            final(self).place(old(self)@.len() + i) == *final(place),
            forall|j: int|
                j != old(self)@.len() + i ==> #[trigger] final(self).place(j) == old(self).place(j),
            final(self).buf == old(self).buf,
            final(self).cap == old(self).cap,
    {
        let known: usize = self.spare.len();
        if known <= i {
            let mut spare: std::vec::Vec<Option<T>> = crate::ptr::make_slots(i + 1 - known);
            spare.append(&mut self.spare);
            self.spare = spare;
        }
        let at: usize = self.spare.len() - 1 - i;
        &mut self.spare[at]
    }

    /// Removes an element and puts the last one in its place.
    pub fn swap_remove(&mut self, index: usize) -> (element: T)
        requires
            index < old(self)@.len(),
        ensures
            element == old(self)@[index as int],
            final(self)@ == old(self)@.update(index as int, old(self)@.last()).drop_last(),
            final(self).place(final(self)@.len() as int) is None,
            old(self).keeps_places(*final(self), old(self)@.len() as int),
            final(self).buf == old(self).buf,
            final(self).cap == old(self).cap,
    {
        let element = self.elems.swap_remove(index);
        self.leave_spare(1);
        element
    }

    /// Removes an element and shifts all elements after it to the left.
    pub fn remove(&mut self, index: usize) -> (element: T)
        requires
            index < old(self)@.len(),
        ensures
            element == old(self)@[index as int],
            final(self)@ == old(self)@.remove(index as int),
            final(self).place(final(self)@.len() as int) is None,
            old(self).keeps_places(*final(self), old(self)@.len() as int),
            final(self).buf == old(self).buf,
            final(self).cap == old(self).cap,
    {
        let element = self.elems.remove(index);
        self.leave_spare(1);
        element
    }

    /// Appends an element if the buffer has room for it, and gives it back otherwise.
    pub fn push_within_capacity(&mut self, value: T) -> (r: Result<(), T>)
        requires
            old(self).wf(),
        ensures
            match r {
                Ok(_) => old(self)@.len() < old(self).cap && final(self)@ == old(self)@.push(value),
                Err(e) => old(self)@.len() == old(self).cap && final(self)@ == old(self)@ && e
                    == value,
            },
            old(self).keeps_places(*final(self), final(self)@.len() as int),
            final(self).wf(),
            final(self).buf == old(self).buf,
            final(self).cap == old(self).cap,
    {
        if self.elems.len() == self.cap {
            return Err(value);
        }
        self.push_element(value);
        Ok(())
    }

    /// Removes the last element, if there is one.
    pub fn pop(&mut self) -> (r: Option<T>)
        ensures
            if old(self)@.len() == 0 {
                r is None && final(self)@ == old(self)@
            } else {
                &&& r == Some(old(self)@.last())
                &&& final(self)@ == old(self)@.drop_last()
                &&& final(self).place(final(self)@.len() as int) is None
            },
            old(self).keeps_places(*final(self), old(self)@.len() as int),
            final(self).buf == old(self).buf,
            final(self).cap == old(self).cap,
    {
        let r = self.elems.pop();
        if r.is_some() {
            self.leave_spare(1);
        }
        assert(old(self)@.len() > 0 ==> self@ =~= old(self)@.drop_last());
        r
    }

    /// Removes the last element if there is one and the predicate holds of it. The predicate may
    /// change the element first.
    pub fn pop_if<F: FnOnce(&mut T) -> bool>(&mut self, predicate: F) -> (r: Option<T>)
        requires
            forall|last: &mut T|
                old(self)@.len() > 0 && *last == old(self)@.last() ==> #[trigger] call_requires(
                    predicate,
                    (last,),
                ),
        ensures
            match r {
                Some(t) => {
                    &&& old(self)@.len() > 0
                    &&& final(self)@ == old(self)@.drop_last()
                    &&& exists|last: &mut T|
                        *last == old(self)@.last() && *final(last) == t && #[trigger] call_ensures(
                            predicate,
                            (last,),
                            true,
                        )
                },
                None => if old(self)@.len() == 0 {
                    final(self)@ == old(self)@
                } else {
                    &&& final(self)@.len() == old(self)@.len()
                    &&& final(self)@.drop_last() == old(self)@.drop_last()
                    &&& exists|last: &mut T|
                        *last == old(self)@.last() && *final(last) == final(self)@.last()
                            && #[trigger] call_ensures(predicate, (last,), false)
                },
            },
            r is Some ==> final(self).place(final(self)@.len() as int) is None,
            old(self).keeps_places(*final(self), old(self)@.len() as int),
            final(self).buf == old(self).buf,
            final(self).cap == old(self).cap,
    {
        let len: usize = self.elems.len();
        if len == 0 {
            return None;
        }
        let last = &mut self.elems[len - 1];
        let holds: bool = predicate(last);
        if holds {
            let r = self.pop();
            assert(self@ =~= old(self)@.drop_last());
            r
        } else {
            assert(self@.drop_last() =~= old(self)@.drop_last());
            None
        }
    }

    /// Removes all elements. The capacity and what the places hold stay.
    pub fn clear(&mut self)
        ensures
            final(self)@ == Seq::<T>::empty(),
            old(self).keeps_places(*final(self), 0),
            final(self).buf == old(self).buf,
            final(self).cap == old(self).cap,
    {
        self.truncate(0);
        assert(self@ =~= Seq::<T>::empty());
    }

    /// The number of elements.
    pub fn len(&self) -> (n: usize)
        ensures
            n == self@.len(),
    {
        self.elems.len()
    }

    /// Whether there are no elements.
    pub fn is_empty(&self) -> (b: bool)
        ensures
            b == (self@.len() == 0),
    {
        self.len() == 0
    }

    /// The element at a position.
    pub fn index(&self, i: usize) -> (element: &T)
        requires
            i < self@.len(),
        ensures
            *element == self@[i as int],
    {
        &self.elems[i]
    }

    /// The element at a position, to be changed in place.
    pub fn index_mut(&mut self, i: usize) -> (element: &mut T)
        requires
            i < old(self)@.len(),
        ensures
            *element == old(self)@[i as int],
            final(self)@ == old(self)@.update(i as int, *final(element)),
            final(self).spare == old(self).spare,
            final(self).buf == old(self).buf,
            final(self).cap == old(self).cap,
    {
        &mut self.elems[i]
    }
}

impl<T: Clone> Vec<T> {
    /// Creates a vector of `n` clones of a value; the last element is the value itself.
    pub fn from_elem<P: Collect>(mc: &mut Mutation<P>, elem: T, n: usize) -> (r: Vec<T>)
        requires
            old(mc).wf(),
            room_for_buffer::<T, P>(old(mc)@, first_cap::<T>(n) as int),
        ensures
            final(mc).wf(),
            r.stands_in(final(mc)@),
            r@.len() == n,
            forall|i: int| 0 <= i < n ==> #[trigger] cloned(elem, r@[i]),
            n > 0 ==> r@.last() == elem,
            r.cap == first_cap::<T>(n),
            forall|i: int| n <= i ==> #[trigger] r.place(i) is None,
            new_buffer::<T, P>(old(mc)@, final(mc)@, r.buf.ptr, r.cap as int),
    {
        let mut vec: Vec<T> = Vec::with_capacity(mc, n);
        vec.extend_with(mc, n, elem);
        assert forall|i: int| 0 <= i < n implies #[trigger] cloned(elem, vec@[i]) by {
            assert(cloned(elem, vec@[0 + i]));
        }
        vec
    }

    /// Appends `n` clones of a value; the last of them is the value itself.
    fn extend_with<P: Collect>(&mut self, mc: &mut Mutation<P>, n: usize, value: T)
        requires
            old(mc).wf(),
            old(self).stands_in(old(mc)@),
            old(self).can_reserve(old(mc)@, n as int),
        ensures
            final(mc).wf(),
            final(self).stands_in(final(mc)@),
            final(self)@.len() == old(self)@.len() + n,
            forall|i: int| 0 <= i < old(self)@.len() ==> #[trigger] final(self)@[i] == old(self)@[i],
            forall|i: int|
                0 <= i < n ==> #[trigger] cloned(value, final(self)@[old(self)@.len() + i]),
            n > 0 ==> final(self)@.last() == value,
            old(self).reserved(*final(self), old(mc)@, final(mc)@, n as int),
    {
        self.reserve(mc, n);
        if n == 0 {
            return;
        }
        let ghost len = self@.len() as int;
        let mut i: usize = 0;
        while i < n - 1
            invariant
                mc.wf(),
                self.stands_in(mc@),
                0 <= i <= n - 1,
                len == old(self)@.len(),
                len + n <= self.cap,
                self@.len() == len + i,
                forall|j: int| 0 <= j < len ==> #[trigger] self@[j] == old(self)@[j],
                forall|j: int| 0 <= j < i ==> #[trigger] cloned(value, self@[len + j]),
                old(self).reserved(*self, old(mc)@, mc@, n as int),
            decreases n - i,
        {
            let ghost before = self@;
            self.push_element(value.clone());
            proof {
                assert forall|j: int| 0 <= j < i implies #[trigger] self@[len + j] == before[len
                    + j] by {}
            }
            i += 1;
        }
        let ghost before = self@;
        self.push_element(value);
        proof {
            assert forall|j: int| 0 <= j < n implies #[trigger] cloned(
                value,
                self@[len + j],
            ) by {
                if j < n - 1 {
                    assert(cloned(value, before[len + j]));
                    assert(self@[len + j] == before[len + j]);
                }
            }
        }
    }

    /// A new vector with clones of the elements.
    pub fn clone<P: Collect>(&self, mc: &mut Mutation<P>) -> (r: Vec<T>)
        requires
            old(mc).wf(),
            self.wf(),
            room_for_buffer::<T, P>(old(mc)@, first_cap::<T>(self@.len() as usize) as int),
        ensures
            final(mc).wf(),
            r.stands_in(final(mc)@),
            convert_vec::all_cloned(self@, r@),
            r.cap == first_cap::<T>(self@.len() as usize),
            new_buffer::<T, P>(old(mc)@, final(mc)@, r.buf.ptr, r.cap as int),
    {
        ConvertVec::to_vec(self.as_slice(), mc)
    }

    /// Makes this vector hold clones of the elements of another.
    pub fn clone_from<P: Collect>(&mut self, mc: &mut Mutation<P>, src: &Vec<T>)
        requires
            old(mc).wf(),
            old(self).stands_in(old(mc)@),
            convert_vec::can_clone_into(src@.len(), *old(self), old(mc)@),
        ensures
            final(mc).wf(),
            final(self).stands_in(final(mc)@),
            convert_vec::all_cloned(src@, final(self)@),
            convert_vec::cloned_into(
                src@.len(),
                *old(self),
                *final(self),
                old(mc)@,
                final(mc)@,
            ),
    {
        ConvertVec::clone_into_vec(src.as_slice(), mc, self);
    }

    /// Makes the length `new_len`: the vector is truncated, or extended with clones of a value, the
    /// last of which is the value itself.
    pub fn resize<P: Collect>(&mut self, mc: &mut Mutation<P>, new_len: usize, value: T)
        requires
            old(mc).wf(),
            old(self).stands_in(old(mc)@),
            new_len > old(self)@.len() ==> old(self).can_reserve(
                old(mc)@,
                new_len - old(self)@.len(),
            ),
        ensures
            final(mc).wf(),
            final(self).stands_in(final(mc)@),
            final(self)@.len() == new_len,
            forall|i: int|
                0 <= i < new_len ==> if i < old(self)@.len() {
                    #[trigger] final(self)@[i] == old(self)@[i]
                } else {
                    cloned(value, final(self)@[i])
                },
            new_len > old(self)@.len() ==> final(self)@.last() == value,
            if new_len > old(self)@.len() {
                old(self).reserved(
                    *final(self),
                    old(mc)@,
                    final(mc)@,
                    new_len - old(self)@.len(),
                )
            } else {
                &&& final(mc)@ == old(mc)@
                &&& final(self).buf == old(self).buf
                &&& final(self).cap == old(self).cap
                &&& old(self).keeps_places(*final(self), 0)
            },
    {
        let len: usize = self.elems.len();
        if new_len > len {
            self.extend_with(mc, new_len - len, value);
            proof {
                assert forall|i: int| len <= i < new_len implies cloned(
                    value,
                    #[trigger] self@[i],
                ) by {
                    assert(cloned(value, self@[len + (i - len)]));
                }
            }
        } else {
            self.truncate(new_len);
        }
    }

    /// Appends clones of the elements of a slice.
    pub fn extend_from_slice<P: Collect>(&mut self, mc: &mut Mutation<P>, other: &[T])
        requires
            old(mc).wf(),
            old(self).stands_in(old(mc)@),
            old(self).can_reserve(old(mc)@, other@.len() as int),
        ensures
            final(mc).wf(),
            final(self).stands_in(final(mc)@),
            final(self)@.len() == old(self)@.len() + other@.len(),
            forall|i: int| 0 <= i < old(self)@.len() ==> #[trigger] final(self)@[i] == old(self)@[i],
            forall|i: int|
                0 <= i < other@.len() ==> #[trigger] cloned(
                    other@[i],
                    final(self)@[old(self)@.len() + i],
                ),
            old(self).reserved(*final(self), old(mc)@, final(mc)@, other@.len() as int),
    {
        let n: usize = other.len();
        self.reserve(mc, n);
        let ghost len = self@.len() as int;
        let mut i: usize = 0;
        while i < n
            invariant
                mc.wf(),
                self.stands_in(mc@),
                i <= n == other@.len(),
                len == old(self)@.len(),
                len + n <= self.cap,
                self@.len() == len + i,
                forall|j: int| 0 <= j < len ==> #[trigger] self@[j] == old(self)@[j],
                forall|j: int| 0 <= j < i ==> #[trigger] cloned(other@[j], self@[len + j]),
                old(self).reserved(*self, old(mc)@, mc@, n as int),
            decreases n - i,
        {
            let ghost before = self@;
            self.push_element(other[i].clone());
            proof {
                assert forall|j: int| 0 <= j < i implies #[trigger] self@[len + j] == before[len
                    + j] by {}
            }
            i += 1;
        }
    }
}

impl<T> Vec<T> {
    /// Collects the items of an iterator. If it tells their number exactly there is room for just
    /// these, otherwise the buffer grows by its guesses.
    pub fn collect<P: Collect, I: Iterator<Item = T>>(mc: &mut Mutation<P>, iter: I) -> (r: Vec<T>)
        requires
            old(mc).wf(),
            iter.obeys_prophetic_iter_laws(),
            iter.decrease() is Some,
            spec_from_iter::room_for_items::<T, P>(old(mc)@, iter.remaining().len()),
        ensures
            final(mc).wf(),
            r.stands_in(final(mc)@),
            r@ == iter.remaining(),
            exists|bounds: (usize, Option<usize>), hints: Seq<usize>|
                hints.len() == iter.remaining().len() && #[trigger] r.collected(
                    old(mc)@,
                    final(mc)@,
                    bounds,
                    hints,
                    iter.remaining().len(),
                ),
            !old(mc)@.heap.has(r.buf.ptr),
            desugared::only_adds(old(mc)@, final(mc)@),
    {
        <Vec<T> as SpecFromIter<P, T, I>>::from_iter(mc, iter)
    }
}

impl<T> Vec<T> {
    /// The elements as an array, if there are `N` of them; otherwise gives the vector back.
    pub fn try_into_array<const N: usize>(self) -> (r: Result<[T; N], Vec<T>>)
        ensures
            match r {
                Ok(array) => self@.len() == N && array@ == self@,
                Err(vec) => {
                    &&& self@.len() != N
                    &&& vec@ == self@
                    &&& vec.spare == self.spare
                    &&& vec.buf == self.buf
                    &&& vec.cap == self.cap
                },
            },
    {
        match array_from_vec(self.elems) {
            Ok(array) => Ok(array),
            Err(elems) => Err(Vec { buf: self.buf, cap: self.cap, elems, spare: self.spare }),
        }
    }

    /// An iterator that moves the elements out.
    pub fn into_iter(self) -> (iter: IntoIter<T>)
        ensures
            iter@ == self@,
            iter.buf == self.buf,
            iter.cap == self.cap,
    {
        IntoIter::from_vec(self)
    }
}

/// [`TryFrom`] of a vector for an array takes the elements in order if the lengths agree, and gives
/// the vector back otherwise.
#[verifier::external_body]
pub(crate) fn array_from_vec<T, const N: usize>(elems: std::vec::Vec<T>) -> (r: Result<
    [T; N],
    std::vec::Vec<T>,
>)
    ensures
        match r {
            Ok(array) => elems@.len() == N && array@ == elems@,
            Err(back) => elems@.len() != N && back@ == elems@,
        },
{
    <[T; N]>::try_from(elems)
}

/// A new buffer that is then filled is a new row.
pub(crate) proof fn lemma_filled_buffer<T: Collect>(s: State<T>, m: State<T>, b: GcBox, row: Seq<T>)
    requires
        new_buffer::<T, T>(s, m, b, first_cap::<T>(row.len() as usize) as int),
        row.len() <= usize::MAX,
    ensures
        s.new_row(m.filled(b, row), b, row),
{
    let t = m.filled(b, row);
    let new = t.heap.boxes[b];
    let at = s.allocate(b, new, Value::Values(row), t.heap.brk);
    lemma_first_cap_takes_no_more::<T>(row.len() as usize);
    assert(t.heap.boxes =~= at.heap.boxes);
    assert(t.heap =~= at.heap);
    assert(t.values =~= at.values);
    assert(t =~= at);
}

/// Elements that were cut off are there again once the length is what it was.
pub proof fn truncation_is_undone<T>(vec: Vec<T>, cut: Vec<T>, back: Vec<T>)
    requires
        vec.keeps_places(cut, 0),
        cut.keeps_places(back, 0),
        back@.len() == vec@.len(),
    ensures
        back@ == vec@,
{
    assert forall|i: int| 0 <= i < vec@.len() implies back@[i] == vec@[i] by {
        assert(back.place(i) == cut.place(i));
        assert(cut.place(i) == vec.place(i));
    }
    assert(back@ =~= vec@);
}

/// As long as the elements fit the buffer, making room for more of them changes nothing.
pub proof fn elements_that_fit_do_not_move<T, P: Collect>(
    vec: Vec<T>,
    new: Vec<T>,
    s: State<P>,
    t: State<P>,
    additional: int,
)
    requires
        vec.stands_in(s),
        0 <= additional,
        vec@.len() + additional <= vec.cap,
    ensures
        vec.can_reserve(s, additional),
        vec.reserved(new, s, t, additional) ==> t == s && new.buf == vec.buf && new.cap == vec.cap,
{
}

/// Elements without a size never move: the capacity of their vector is the greatest there is.
pub proof fn elements_without_size_do_not_move<T, P: Collect>(
    vec: Vec<T>,
    new: Vec<T>,
    s: State<P>,
    t: State<P>,
    additional: int,
)
    requires
        vec.stands_in(s),
        vstd::layout::size_of::<T>() == 0,
        0 <= additional,
        vec@.len() + additional <= usize::MAX,
    ensures
        vec.cap == usize::MAX,
        vec.can_reserve(s, additional),
        vec.reserved(new, s, t, additional) ==> t == s && new.buf == vec.buf && new.cap == vec.cap,
{
    elements_that_fit_do_not_move(vec, new, s, t, additional);
}

impl<T: Collect> Vec<T> {
    /// Turns the vector into a unique pointer to its elements. Excess capacity is discarded first.
    pub fn into_unique_slice(self, mc: &mut Mutation<T>) -> (r: Unique<T, usize>)
        requires
            old(mc).wf(),
            self.stands_in(old(mc)@),
            self@.len() < self.cap && vstd::layout::size_of::<T>() > 0 ==> room_for_buffer::<T, T>(
                old(mc)@,
                self@.len() as int,
            ),
        ensures
            final(mc).wf(),
            if self@.len() < self.cap && vstd::layout::size_of::<T>() > 0 {
                old(mc)@.new_row(final(mc)@, r.ptr, self@)
            } else {
                r.ptr == self.buf.ptr && final(mc)@ == old(mc)@.filled(r.ptr, self@)
            },
    {
        let ghost vec = self;
        let mut this = self;
        this.shrink_to_fit(mc);
        let ghost m = mc@;
        let len: usize = this.elems.len();
        proof {
            mc.wf_gives_inv();
            assert(mc@.values.contains_key(this.buf.ptr));
        }
        mc.reopen(this.buf.ptr);
        let was = mc.convert(
            this.buf.ptr,
            CollectVTable::Traced,
            T::needs_trace(),
            Meta::Len(len),
            Contents::Values(this.elems),
        );
        was.drop_in_place();
        proof {
            if vec@.len() < vec.cap && vstd::layout::size_of::<T>() > 0 {
                lemma_filled_buffer(old(mc)@, m, this.buf.ptr, vec@);
            }
        }
        Unique { ptr: this.buf.ptr, marker: PhantomData }
    }

    /// Turns the vector into a pointer to its elements. Excess capacity is discarded first.
    pub fn into_gc_slice(self, mc: &mut Mutation<T>) -> (r: Gc<T, usize>)
        requires
            old(mc).wf(),
            self.stands_in(old(mc)@),
            self@.len() < self.cap && vstd::layout::size_of::<T>() > 0 ==> room_for_buffer::<T, T>(
                old(mc)@,
                self@.len() as int,
            ),
        ensures
            final(mc).wf(),
            if self@.len() < self.cap && vstd::layout::size_of::<T>() > 0 {
                old(mc)@.new_row(final(mc)@, r.ptr, self@)
            } else {
                r.ptr == self.buf.ptr && final(mc)@ == old(mc)@.filled(r.ptr, self@)
            },
    {
        self.into_unique_slice(mc).into_gc()
    }
}

impl<T: Collect> Unique<T, usize> {
    /// Turns the pointer into a vector of the values that it points to.
    pub fn into_vec(self, mc: &mut Mutation<T>) -> (r: Vec<T>)
        requires
            old(mc).wf(),
            old(mc)@.holds_row(self.ptr),
            old(mc)@.heap.boxes[self.ptr].meta is Len,
        ensures
            final(mc).wf(),
            final(mc)@ == old(mc)@.emptied(self.ptr, r.cap),
            r.stands_in(final(mc)@),
            r@ == old(mc)@.row(self.ptr),
            r.cap == first_cap::<T>(r@.len() as usize),
            r.buf.ptr == self.ptr,
    {
        proof {
            mc.wf_gives_inv();
        }
        let cap: usize = if core::mem::size_of::<T>() == 0 {
            usize::MAX
        } else {
            mc.row(self.ptr).len()
        };
        // The vector keeps the elements from now on.
        let was = mc.convert(
            self.ptr,
            CollectVTable::Opaque,
            false,
            Meta::Len(cap),
            Contents::Buffer,
        );
        let elems = match was {
            Contents::Values(row) => row,
            _ => vstd::pervasive::unreached(),
        };
        Vec {
            buf: Unique { ptr: self.ptr, marker: PhantomData },
            cap,
            elems,
            spare: std::vec::Vec::new(),
        }
    }

    /// An iterator that moves the values out.
    pub fn into_iter(self, mc: &mut Mutation<T>) -> (iter: IntoIter<T>)
        requires
            old(mc).wf(),
            old(mc)@.holds_row(self.ptr),
            old(mc)@.heap.boxes[self.ptr].meta is Len,
        ensures
            final(mc).wf(),
            final(mc)@ == old(mc)@.emptied(self.ptr, iter.cap),
            iter.stands_in(final(mc)@),
            iter@ == old(mc)@.row(self.ptr),
            iter.cap == first_cap::<T>(iter@.len() as usize),
            iter.buf.ptr == self.ptr,
    {
        self.into_vec(mc).into_iter()
    }
}

} // verus!
