//! Root sets: roots that are added and removed while the arena runs.

use crate::collect::{Collect, Edge, Trace};
use crate::contents::{Contents, RootsView, Value};
use crate::gc::{Gc, Unique};
use crate::layout::Layout;
use crate::mutation::Mutation;
use crate::state::State;
use crate::types::{CollectVTable, GcBox, Meta};
use crate::vec::Vec;
use core::marker::PhantomData;
use vstd::prelude::*;

verus! {

/// The end of the list of vacant slots.
pub const FREE_UNAVAILABLE: usize = usize::MAX;

/// A place in a root set.
pub enum Slot {
    /// A root and the number of its handles.
    Occupied { root: Gc<()>, ref_count: usize },
    /// A vacant place and the next one in the list of vacant places.
    Vacant(usize),
}

/// The table of a root set.
pub struct Inner {
    pub slots: Vec<Slot>,
    /// The first vacant place, or `FREE_UNAVAILABLE`.
    pub free_next: usize,
}

impl Collect for Slot {
    open spec fn edges(&self) -> Seq<Edge> {
        match self {
            Slot::Occupied { root, .. } => root.edges(),
            Slot::Vacant(_) => Seq::empty(),
        }
    }

    open spec fn spec_needs_trace() -> bool {
        true
    }

    open spec fn spec_zeroed() -> Option<Self> {
        None
    }

    proof fn untraced_has_no_edges(&self) {
    }

    fn needs_trace() -> (b: bool) {
        true
    }

    fn zeroed() -> (t: Option<Self>) {
        None
    }

    fn trace<C: Trace>(&self, cc: &mut C) {
        match self {
            Slot::Occupied { root, .. } => root.trace(cc),
            Slot::Vacant(_) => {},
        }
    }
}

impl Collect for Inner {
    open spec fn edges(&self) -> Seq<Edge> {
        self.slots.edges()
    }

    open spec fn spec_needs_trace() -> bool {
        true
    }

    open spec fn spec_zeroed() -> Option<Self> {
        None
    }

    proof fn untraced_has_no_edges(&self) {
    }

    fn needs_trace() -> (b: bool) {
        true
    }

    fn zeroed() -> (t: Option<Self>) {
        None
    }

    fn trace<C: Trace>(&self, cc: &mut C) {
        self.slots.trace(cc);
    }
}

/// A root set outside the arena. It is empty until a [`RootedSet`] is made from it.
pub struct RootSet {
    pub inner: Option<Gc<Inner>>,
}

/// A root set inside the arena: roots are stashed in it and fetched from it by their handles.
pub struct RootedSet {
    pub inner: Gc<Inner>,
}

/// A handle to a root. The root stays in its set until all of its handles are dropped.
#[verifier::reject_recursive_types(R)]
pub struct Rooted<R> {
    pub index: usize,
    pub root_set: Gc<Inner>,
    pub marker: PhantomData<R>,
}

impl Collect for RootedSet {
    open spec fn edges(&self) -> Seq<Edge> {
        self.inner.edges()
    }

    open spec fn spec_needs_trace() -> bool {
        true
    }

    open spec fn spec_zeroed() -> Option<Self> {
        None
    }

    proof fn untraced_has_no_edges(&self) {
    }

    fn needs_trace() -> (b: bool) {
        true
    }

    fn zeroed() -> (t: Option<Self>) {
        None
    }

    fn trace<C: Trace>(&self, cc: &mut C) {
        self.inner.trace(cc);
    }
}

impl RootSet {
    /// A root set that is not in use.
    pub fn new() -> (set: RootSet)
        ensures
            set.inner is None,
    {
        RootSet { inner: None }
    }
}

impl Default for RootSet {
    fn default() -> (set: RootSet)
        ensures
            set.inner is None,
    {
        RootSet::new()
    }
}

/// Whether `list` is the list of vacant places, the first one last.
pub open spec fn is_free_list(slots: Seq<Slot>, free_next: usize, list: Seq<usize>) -> bool {
    &&& list.no_duplicates()
    &&& free_next == head(list)
    &&& forall|i: int|
        0 <= i < list.len() ==> (#[trigger] list[i]) < slots.len() && slots[list[i] as int]
            == Slot::Vacant(head(list.take(i)))
    &&& forall|j: int|
        0 <= j < slots.len() && (#[trigger] slots[j]) is Vacant ==> list.contains(j as usize)
}

/// The first place of a list of vacant places.
pub open spec fn head(list: Seq<usize>) -> usize {
    if list.len() > 0 {
        list.last()
    } else {
        FREE_UNAVAILABLE
    }
}

impl RootsView {
    /// The invariant of a root set: every root has a handle, and the vacant places are on the list
    /// of vacant places.
    pub open spec fn wf(self) -> bool {
        &&& self.slots.len() <= self.cap
        &&& forall|i: int|
            0 <= i < self.slots.len() ==> ((#[trigger] self.slots[i]) matches Slot::Occupied {
                ref_count,
                ..
            } ==> ref_count > 0)
        &&& exists|list: Seq<usize>| is_free_list(self.slots, self.free_next, list)
    }

    /// Whether a place holds a root.
    pub open spec fn occupied(self, index: usize) -> bool {
        index < self.slots.len() && self.slots[index as int] is Occupied
    }

    pub open spec fn root(self, index: usize) -> Gc<()> {
        self.slots[index as int]->root
    }

    pub open spec fn ref_count(self, index: usize) -> usize {
        self.slots[index as int]->ref_count
    }

    /// Whether a new root takes a vacant place.
    pub open spec fn has_vacant(self) -> bool {
        self.free_next < self.slots.len()
    }

    /// The place that a new root takes.
    pub open spec fn next_index(self) -> usize {
        if self.has_vacant() {
            self.free_next
        } else {
            self.slots.len() as usize
        }
    }

    /// The table after a root was added. The most recently vacated place is used first.
    pub open spec fn stash(self, root: Gc<()>) -> RootsView {
        let slot = Slot::Occupied { root, ref_count: 1 };
        if self.has_vacant() {
            RootsView {
                slots: self.slots.update(self.free_next as int, slot),
                free_next: self.slots[self.free_next as int]->Vacant_0,
                ..self
            }
        } else {
            RootsView { slots: self.slots.push(slot), ..self }
        }
    }

    /// The table after a handle was cloned.
    pub open spec fn retain(self, index: usize) -> RootsView {
        RootsView {
            slots: self.slots.update(
                index as int,
                Slot::Occupied {
                    root: self.root(index),
                    ref_count: (self.ref_count(index) + 1) as usize,
                },
            ),
            ..self
        }
    }

    /// The table after a handle was dropped: the last one takes its root with it.
    pub open spec fn release(self, index: usize) -> RootsView {
        if self.ref_count(index) == 1 {
            RootsView {
                slots: self.slots.update(index as int, Slot::Vacant(self.free_next)),
                free_next: index,
                ..self
            }
        } else {
            RootsView {
                slots: self.slots.update(
                    index as int,
                    Slot::Occupied {
                        root: self.root(index),
                        ref_count: (self.ref_count(index) - 1) as usize,
                    },
                ),
                ..self
            }
        }
    }
}

/// A table has a vacant place exactly if its list of vacant places is not empty.
proof fn lemma_free_list(view: RootsView, list: Seq<usize>)
    requires
        view.slots.len() <= usize::MAX,
        is_free_list(view.slots, view.free_next, list),
    ensures
        view.has_vacant() <==> list.len() > 0,
        list.len() > 0 ==> view.slots[view.free_next as int] == Slot::Vacant(head(list.drop_last())),
{
    if list.len() > 0 {
        let n = (list.len() - 1) as int;
        assert(list[n] == view.free_next);
        assert(list.take(n) =~= list.drop_last());
    }
}

/// Adding a root keeps the invariant, except that the buffer may be too small.
pub proof fn stash_keeps_wf(view: RootsView, root: Gc<()>, buf: GcBox, cap: usize)
    requires
        view.wf(),
        view.stash(root).slots.len() <= cap,
    ensures
        (RootsView { buf, cap, ..view.stash(root) }).wf(),
        view.has_vacant() ==> view.slots[view.free_next as int] is Vacant,
        !view.occupied(view.next_index()),
{
    let list = choose|list: Seq<usize>| is_free_list(view.slots, view.free_next, list);
    let next = RootsView { buf, cap, ..view.stash(root) };
    lemma_free_list(view, list);
    if view.has_vacant() {
        let n = (list.len() - 1) as int;
        let rest = list.drop_last();
        assert(list[n] == view.free_next);
        assert forall|i: int| 0 <= i < rest.len() implies (#[trigger] rest[i]) < next.slots.len()
            && next.slots[rest[i] as int] == Slot::Vacant(head(rest.take(i))) by {
            assert(rest[i] == list[i] && list[i] != list[n]);
            assert(rest.take(i) =~= list.take(i));
        }
        assert forall|j: int|
            0 <= j < next.slots.len() && (#[trigger] next.slots[j]) is Vacant implies rest.contains(
            j as usize,
        ) by {
            assert(view.slots[j] is Vacant);
            assert(list.contains(j as usize));
            let i = choose|i: int| 0 <= i < list.len() && list[i] == j as usize;
            assert(i != n);
            assert(rest[i] == j as usize);
        }
        assert(is_free_list(next.slots, next.free_next, rest));
    } else {
        assert forall|i: int| 0 <= i < list.len() implies (#[trigger] list[i]) < next.slots.len()
            && next.slots[list[i] as int] == Slot::Vacant(head(list.take(i))) by {}
        assert forall|j: int|
            0 <= j < next.slots.len() && (#[trigger] next.slots[j]) is Vacant implies list.contains(
            j as usize,
        ) by {
            assert(view.slots[j] is Vacant);
        }
        assert(is_free_list(next.slots, next.free_next, list));
    }
}

/// Cloning a handle keeps the invariant.
pub proof fn retain_keeps_wf(view: RootsView, index: usize)
    requires
        view.wf(),
        view.occupied(index),
        view.ref_count(index) < usize::MAX,
    ensures
        view.retain(index).wf(),
{
    let list = choose|list: Seq<usize>| is_free_list(view.slots, view.free_next, list);
    let next = view.retain(index);
    assert forall|i: int| 0 <= i < list.len() implies (#[trigger] list[i]) < next.slots.len()
        && next.slots[list[i] as int] == Slot::Vacant(head(list.take(i))) by {
        assert(list[i] != index);
    }
    assert forall|j: int|
        0 <= j < next.slots.len() && (#[trigger] next.slots[j]) is Vacant implies list.contains(
        j as usize,
    ) by {
        assert(view.slots[j] is Vacant);
    }
    assert(is_free_list(next.slots, next.free_next, list));
}

/// Dropping a handle keeps the invariant.
pub proof fn release_keeps_wf(view: RootsView, index: usize)
    requires
        view.wf(),
        view.occupied(index),
    ensures
        view.release(index).wf(),
{
    let list = choose|list: Seq<usize>| is_free_list(view.slots, view.free_next, list);
    let next = view.release(index);
    assert(view.slots[index as int] is Occupied);
    let longer = if view.ref_count(index) == 1 {
        list.push(index)
    } else {
        list
    };
    assert forall|i: int| 0 <= i < list.len() implies (#[trigger] list[i]) < next.slots.len()
        && list[i] != index && next.slots[list[i] as int] == Slot::Vacant(head(list.take(i))) by {}
    assert forall|i: int| 0 <= i < longer.len() implies (#[trigger] longer[i]) < next.slots.len()
        && next.slots[longer[i] as int] == Slot::Vacant(head(longer.take(i))) by {
        if i < list.len() {
            assert(longer[i] == list[i]);
            assert(longer.take(i) =~= list.take(i));
        } else {
            assert(longer.take(i) =~= list);
        }
    }
    assert forall|j: int|
        0 <= j < next.slots.len() && (#[trigger] next.slots[j]) is Vacant implies longer.contains(
        j as usize,
    ) by {
        if j == index {
            assert(longer[list.len() as int] == index);
        } else {
            assert(view.slots[j] is Vacant);
            assert(list.contains(j as usize));
            let i = choose|i: int| 0 <= i < list.len() && list[i] == j as usize;
            assert(longer[i] == j as usize);
        }
    }
    assert(is_free_list(next.slots, next.free_next, longer));
}

/// Whether a box holds the table of a root set, in order and with its buffer.
pub open spec fn holds_roots<P: Collect>(s: State<P>, b: GcBox) -> bool {
    &&& s.values.contains_key(b)
    &&& s.values[b] is Roots
    &&& roots(s, b).wf()
    &&& s.values.contains_key(roots(s, b).buf)
    &&& s.values[roots(s, b).buf] == Value::<P>::Buffer
    &&& s.heap.boxes[roots(s, b).buf].meta == Meta::Len(roots(s, b).cap)
    &&& roots(s, b).cap == crate::vec::first_cap::<Slot>(roots(s, b).cap)
}

/// The table of a root set.
pub open spec fn roots<P: Collect>(s: State<P>, b: GcBox) -> RootsView {
    s.values[b]->Roots_0
}

/// The state with another table in a box.
pub open spec fn with_roots<P: Collect>(s: State<P>, b: GcBox, view: RootsView) -> State<P> {
    s.with_value(b, Value::Roots(view))
}

/// The first capacity of the table of a root set.
pub open spec fn first_slots() -> usize {
    crate::vec::first_cap::<Slot>(
        crate::vec::spec_min_non_zero_cap(vstd::layout::size_of::<Slot>()) as usize,
    )
}

/// Where the buffer of a new root set ends.
pub open spec fn end_of_buffer<P: Collect>(s: State<P>) -> usize {
    s.next_brk::<usize>(
        crate::layout::row_size::<Slot>(first_slots() as int),
        vstd::layout::align_of::<Slot>() as int,
    ) as usize
}

/// Whether there is room for the buffer and the box of a new root set.
pub open spec fn room_for_set<P: Collect>(s: State<P>) -> bool {
    &&& crate::vec::room_for_buffer::<Slot, P>(s, first_slots() as int)
    &&& s.with_brk(end_of_buffer(s)).has_room::<()>(
        vstd::layout::size_of::<Inner>() as int,
        vstd::layout::align_of::<Inner>() as int,
    )
}

/// Whether `t` is the state `s` with a new, empty root set at `b` whose buffer is at `buf`.
pub open spec fn new_set<P: Collect>(s: State<P>, t: State<P>, b: GcBox, buf: GcBox) -> bool {
    exists|m: State<P>|
        {
            &&& #[trigger] crate::vec::new_buffer::<Slot, P>(s, m, buf, first_slots() as int)
            &&& m.allocated::<()>(
                t,
                b,
                vstd::layout::size_of::<Inner>() as int,
                vstd::layout::align_of::<Inner>() as int,
                CollectVTable::Traced,
                true,
                Meta::Thin,
                Value::Roots(
                    RootsView {
                        buf,
                        cap: first_slots(),
                        slots: Seq::empty(),
                        free_next: FREE_UNAVAILABLE,
                    },
                ),
            )
        }
}

/// Whether a root can be added to a root set.
pub open spec fn can_stash<P: Collect>(s: State<P>, b: GcBox) -> bool {
    let view = roots(s, b);
    must_grow(view) ==> {
        &&& view.slots.len() < usize::MAX
        &&& 2 * view.cap <= usize::MAX
        &&& crate::vec::room_for_buffer::<Slot, P>(s, grown_slots(view))
    }
}

/// Whether a new root does not fit the buffer of a root set.
pub open spec fn must_grow(view: RootsView) -> bool {
    !view.has_vacant() && view.slots.len() + 1 > view.cap
}

/// The capacity of a root set that had to grow.
pub open spec fn grown_slots(view: RootsView) -> int {
    crate::layout::max(
        crate::layout::max(2 * view.cap, (view.slots.len() + 1) as int),
        crate::vec::spec_min_non_zero_cap(vstd::layout::size_of::<Slot>()) as int,
    )
}

/// What the write barrier is told that a root set adopts: the root alone if it fits the buffer, or
/// anything if there will be a new buffer too.
pub open spec fn adopted(view: RootsView, root: GcBox) -> Option<GcBox> {
    if must_grow(view) {
        None
    } else {
        Some(root)
    }
}

/// Whether `t` is the state `s` after a root was added to the root set at `b`, whose table is then
/// `new`. The write barrier comes first; a buffer that is too small is replaced.
pub open spec fn stashed<P: Collect>(
    s: State<P>,
    t: State<P>,
    b: GcBox,
    root: GcBox,
    new: RootsView,
) -> bool {
    let view = roots(s, b);
    let marked = s.with_heap(s.heap.backward_barrier(b, adopted(view, root)));
    &&& new.slots == view.stash(Gc::at(root)).slots
    &&& new.free_next == view.stash(Gc::at(root)).free_next
    &&& if must_grow(view) {
        &&& new.cap == grown_slots(view)
        &&& exists|m: State<P>|
            {
                &&& #[trigger] crate::vec::new_buffer::<Slot, P>(
                    marked,
                    m,
                    new.buf,
                    grown_slots(view),
                )
                &&& t == with_roots(m, b, new)
            }
    } else {
        &&& new.buf == view.buf
        &&& new.cap == view.cap
        &&& t == with_roots(marked, b, new)
    }
}

impl RootedSet {
    /// Puts a root set into the arena. The root set must not be in use.
    pub fn new<P: Collect>(root_set: &mut RootSet, mc: &mut Mutation<P>) -> (set: RootedSet)
        requires
            old(root_set).inner is None,
            old(mc).wf(),
            room_for_set(old(mc)@),
        ensures
            final(mc).wf(),
            final(root_set).inner == Some(set.inner),
            holds_roots(final(mc)@, set.inner.ptr),
            new_set(
                old(mc)@,
                final(mc)@,
                set.inner.ptr,
                roots(final(mc)@, set.inner.ptr).buf,
            ),
    {
        let slots: Vec<Slot> = Vec::new(mc);
        let ghost m = mc@;
        let inner = Inner { slots, free_next: FREE_UNAVAILABLE };
        proof {
            assert(is_free_list(inner.view().slots, inner.view().free_next, Seq::empty()));
            assert(m.heap.brk == end_of_buffer(old(mc)@));
        }
        let ptr = mc.allocate::<()>(
            Layout::new::<Inner>(),
            CollectVTable::Traced,
            true,
            Meta::Thin,
            Contents::Roots(inner),
        );
        let inner: Gc<Inner> = Gc { ptr, marker: PhantomData };
        root_set.inner = Some(inner);
        proof {
            assert(crate::vec::new_buffer::<Slot, P>(
                old(mc)@,
                m,
                slots.buf.ptr,
                first_slots() as int,
            ));
        }
        RootedSet { inner }
    }

    /// Whether there is room for the buffer and the box of a new root set.
    pub fn has_room<P: Collect>(mc: &Mutation<P>) -> (b: bool)
        ensures
            b == room_for_set(mc@),
    {
        let cap: usize = if core::mem::size_of::<Slot>() == 0 {
            usize::MAX
        } else {
            crate::vec::min_non_zero_cap(core::mem::size_of::<Slot>())
        };
        assert(mc@.with_brk(mc@.heap.brk) =~= mc@);
        match Layout::array::<Slot>(cap) {
            Ok(buffer) => match mc.end_of_box::<usize>(mc.brk(), buffer) {
                Some(end) => mc.end_of_box::<()>(end, Layout::new::<Inner>()).is_some(),
                None => false,
            },
            Err(_) => false,
        }
    }

    /// Takes the root set out of use.
    pub fn drop(self, root_set: &mut RootSet)
        ensures
            final(root_set).inner is None,
    {
        root_set.inner = None;
    }

    /// The table of the root set.
    fn inner<'a, P: Collect>(&self, mc: &'a Mutation<P>) -> (inner: &'a Inner)
        requires
            holds_roots(mc@, self.inner.ptr),
        ensures
            inner.view() == roots(mc@, self.inner.ptr),
    {
        match mc.contents(self.inner.ptr) {
            Contents::Roots(inner) => inner,
            _ => vstd::pervasive::unreached(),
        }
    }

    /// Whether a new root does not fit the buffer of the root set.
    fn must_grow<P: Collect>(&self, mc: &Mutation<P>) -> (b: bool)
        requires
            holds_roots(mc@, self.inner.ptr),
        ensures
            b == must_grow(roots(mc@, self.inner.ptr)),
    {
        let inner = self.inner(mc);
        inner.free_next >= inner.slots.len() && inner.slots.len() == inner.slots.capacity()
    }

    /// Whether a root can be added.
    pub fn can_stash<P: Collect>(&self, mc: &Mutation<P>) -> (b: bool)
        requires
            holds_roots(mc@, self.inner.ptr),
        ensures
            b == can_stash(mc@, self.inner.ptr),
    {
        !self.must_grow(mc) || self.inner(mc).slots.has_room_for(mc, 1)
    }

    /// The root of a handle, or none if the handle does not belong to this root set.
    pub fn try_fetch<P: Collect, R>(&self, mc: &Mutation<P>, r: &Rooted<R>) -> (root: Option<Gc<R>>)
        requires
            holds_roots(mc@, self.inner.ptr),
            r.root_set.ptr == self.inner.ptr ==> roots(mc@, self.inner.ptr).occupied(r.index),
        ensures
            match root {
                Some(gc) => {
                    &&& r.root_set.ptr == self.inner.ptr
                    &&& gc.ptr == roots(mc@, self.inner.ptr).root(r.index).ptr
                },
                None => r.root_set.ptr != self.inner.ptr,
            },
    {
        if !Gc::ptr_eq(r.root_set, self.inner) {
            return None;
        }
        match self.inner(mc).slots.index(r.index) {
            Slot::Occupied { root, .. } => Some(Gc::cast(*root)),
            Slot::Vacant(_) => vstd::pervasive::unreached(),
        }
    }

    /// The root of a handle, which must belong to this root set.
    pub fn fetch<P: Collect, R>(&self, mc: &Mutation<P>, r: &Rooted<R>) -> (root: Gc<R>)
        requires
            holds_roots(mc@, self.inner.ptr),
            r.root_set.ptr == self.inner.ptr,
            roots(mc@, self.inner.ptr).occupied(r.index),
        ensures
            root.ptr == roots(mc@, self.inner.ptr).root(r.index).ptr,
    {
        self.try_fetch(mc, r).unwrap()
    }

    /// Adds a root and gives the handle to it.
    pub fn stash<P: Collect, R>(&self, mc: &mut Mutation<P>, root: Gc<R>) -> (r: Rooted<R>)
        requires
            old(mc).wf(),
            holds_roots(old(mc)@, self.inner.ptr),
            old(mc)@.heap.has(root.ptr),
            can_stash(old(mc)@, self.inner.ptr),
        ensures
            final(mc).wf(),
            holds_roots(final(mc)@, self.inner.ptr),
            stashed(
                old(mc)@,
                final(mc)@,
                self.inner.ptr,
                root.ptr,
                roots(final(mc)@, self.inner.ptr),
            ),
            r.index == roots(old(mc)@, self.inner.ptr).next_index(),
            r.root_set.ptr == self.inner.ptr,
            !roots(old(mc)@, self.inner.ptr).occupied(r.index),
    {
        let b = self.inner.ptr;
        let ghost view = roots(mc@, b);
        proof {
            mc.wf_gives_inv();
            assert(mc@.values.contains_key(b));
        }
        // A new buffer is white, whatever the root is.
        let child = if self.must_grow(mc) {
            None
        } else {
            Some(root)
        };
        mc.backward_barrier(self.inner, child);
        let ghost marked = mc@;
        proof {
            mc.wf_gives_inv();
        }
        let value = Slot::Occupied { root: Gc::cast(root), ref_count: 1 };
        let mut inner = take_inner(mc, b);
        let ghost taken = mc@;
        let free_next: usize = inner.free_next;
        let index: usize = if free_next < inner.slots.len() {
            let next: usize = match inner.slots.index(free_next) {
                Slot::Vacant(next) => *next,
                Slot::Occupied { .. } => {
                    proof {
                        stash_keeps_wf(view, Gc::at(root.ptr), view.buf, view.cap);
                    }
                    vstd::pervasive::unreached()
                },
            };
            *inner.slots.index_mut(free_next) = value;
            inner.free_next = next;
            free_next
        } else {
            let new: usize = inner.slots.len();
            inner.slots.push(mc, value);
            new
        };
        let ghost now = mc@;
        let ghost new = inner.view();
        put_inner(mc, b, inner);
        proof {
            let s = old(mc)@;
            let t = mc@;
            stash_keeps_wf(view, Gc::at(root.ptr), new.buf, new.cap);
            assert(new =~= RootsView {
                buf: new.buf,
                cap: new.cap,
                ..view.stash(Gc::at(root.ptr))
            });
            assert(marked.values == s.values);
            if must_grow(view) {
                let m = with_roots(now, b, view);
                let end = now.heap.boxes[new.buf];
                assert(m.values =~= marked.values.insert(new.buf, Value::Buffer));
                assert(m =~= marked.allocate(new.buf, end, Value::Buffer, now.heap.brk));
                assert(crate::vec::new_buffer::<Slot, P>(
                    marked,
                    m,
                    new.buf,
                    grown_slots(view),
                ));
                assert(t =~= with_roots(m, b, new));
            } else {
                assert(t =~= with_roots(marked, b, new));
            }
        }
        Rooted { index, root_set: self.inner, marker: PhantomData }
    }
}

impl<R> Rooted<R> {
    /// Whether the handle belongs to a root in this state.
    pub open spec fn is_rooted<P: Collect>(&self, s: State<P>) -> bool {
        &&& holds_roots(s, self.root_set.ptr)
        &&& roots(s, self.root_set.ptr).occupied(self.index)
    }

    /// Another handle to the same root.
    pub fn clone<P: Collect>(&self, mc: &mut Mutation<P>) -> (r: Rooted<R>)
        requires
            old(mc).wf(),
            self.is_rooted(old(mc)@),
            roots(old(mc)@, self.root_set.ptr).ref_count(self.index) < usize::MAX,
        ensures
            final(mc).wf(),
            final(mc)@ == with_roots(
                old(mc)@,
                self.root_set.ptr,
                roots(old(mc)@, self.root_set.ptr).retain(self.index),
            ),
            self.is_rooted(final(mc)@),
            r == *self,
    {
        let b = self.root_set.ptr;
        let mut inner = take_inner(mc, b);
        let ghost view = inner.view();
        match inner.slots.index_mut(self.index) {
            Slot::Occupied { ref_count, .. } => {
                *ref_count = *ref_count + 1;
            },
            Slot::Vacant(_) => vstd::pervasive::unreached(),
        }
        let ghost new = inner.view();
        put_inner(mc, b, inner);
        proof {
            retain_keeps_wf(view, self.index);
            assert(new =~= view.retain(self.index));
            assert(mc@ =~= with_roots(old(mc)@, b, new));
        }
        Rooted { index: self.index, root_set: self.root_set, marker: PhantomData }
    }

    /// Gives up a handle. The last one takes the root out of its set.
    pub fn drop<P: Collect>(self, mc: &mut Mutation<P>)
        requires
            old(mc).wf(),
            self.is_rooted(old(mc)@),
        ensures
            final(mc).wf(),
            final(mc)@ == with_roots(
                old(mc)@,
                self.root_set.ptr,
                roots(old(mc)@, self.root_set.ptr).release(self.index),
            ),
            holds_roots(final(mc)@, self.root_set.ptr),
    {
        let b = self.root_set.ptr;
        let mut inner = take_inner(mc, b);
        let ghost view = inner.view();
        let ref_count: usize = match inner.slots.index(self.index) {
            Slot::Occupied { ref_count, .. } => *ref_count,
            Slot::Vacant(_) => vstd::pervasive::unreached(),
        };
        if ref_count == 1 {
            *inner.slots.index_mut(self.index) = Slot::Vacant(inner.free_next);
            inner.free_next = self.index;
        } else {
            match inner.slots.index_mut(self.index) {
                Slot::Occupied { ref_count, .. } => {
                    *ref_count = *ref_count - 1;
                },
                Slot::Vacant(_) => vstd::pervasive::unreached(),
            }
        }
        let ghost new = inner.view();
        put_inner(mc, b, inner);
        proof {
            release_keeps_wf(view, self.index);
            assert(new =~= view.release(self.index));
            assert(mc@ =~= with_roots(old(mc)@, b, new));
        }
    }
}

/// Takes the table of a root set out of its box, leaving one without slots.
fn take_inner<P: Collect>(mc: &mut Mutation<P>, b: GcBox) -> (inner: Inner)
    requires
        old(mc).wf(),
        holds_roots(old(mc)@, b),
    ensures
        final(mc).wf(),
        inner.view() == roots(old(mc)@, b),
        final(mc)@ == with_roots(
            old(mc)@,
            b,
            RootsView { slots: Seq::empty(), ..roots(old(mc)@, b) },
        ),
{
    proof {
        mc.wf_gives_inv();
    }
    match mc.contents_mut(b) {
        Contents::Roots(inner) => {
            let mut taken = Inner {
                slots: Vec {
                    buf: Unique { ptr: inner.slots.buf.ptr, marker: PhantomData },
                    cap: inner.slots.cap,
                    elems: std::vec::Vec::new(),
                    spare: std::vec::Vec::new(),
                },
                free_next: inner.free_next,
            };
            core::mem::swap(inner, &mut taken);
            taken
        },
        _ => vstd::pervasive::unreached(),
    }
}

/// Puts the table of a root set into its box.
fn put_inner<P: Collect>(mc: &mut Mutation<P>, b: GcBox, inner: Inner)
    requires
        old(mc).wf(),
        old(mc)@.values.contains_key(b),
        old(mc)@.values[b] is Roots,
    ensures
        final(mc).wf(),
        final(mc)@ == with_roots(old(mc)@, b, inner.view()),
{
    proof {
        mc.wf_gives_inv();
    }
    let contents = mc.contents_mut(b);
    *contents = Contents::Roots(inner);
}

} // verus!
