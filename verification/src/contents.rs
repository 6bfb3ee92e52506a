//! What a box of the heap holds.

use crate::collect::{self, Collect, Edge, Trace};
use crate::root;
use crate::types::{CollectVTable, GcBox, Meta};
use core::mem::ManuallyDrop;
use vstd::prelude::*;

verus! {

/// The contents of a box.
pub enum Contents<T> {
    /// One value, or a row of values.
    Values(Vec<T>),
    /// Memory for values, some of which may have been written.
    Uninit(Vec<Option<T>>),
    /// The buffer of a vector, which keeps the elements.
    Buffer,
    /// Plain memory.
    Bytes(Vec<u8>),
    /// The table of a root set.
    Roots(root::Inner),
}

/// The contents of a box as a mathematical value.
#[verifier::ext_equal]
pub enum Value<T> {
    Values(Seq<T>),
    Uninit(Seq<Option<T>>),
    Buffer,
    Bytes(Seq<u8>),
    Roots(RootsView),
}

/// The table of a root set as a mathematical value.
#[verifier::ext_equal]
pub struct RootsView {
    /// The buffer that the slots stand in.
    pub buf: GcBox,
    pub cap: usize,
    pub slots: Seq<root::Slot>,
    pub free_next: usize,
}

impl root::Inner {
    pub open spec fn view(&self) -> RootsView {
        RootsView {
            buf: self.slots.buf.ptr,
            cap: self.slots.cap,
            slots: self.slots@,
            free_next: self.free_next,
        }
    }
}

impl<T> Contents<T> {
    pub open spec fn view(&self) -> Value<T> {
        match self {
            Contents::Values(row) => Value::Values(row@),
            Contents::Uninit(row) => Value::Uninit(row@),
            Contents::Buffer => Value::Buffer,
            Contents::Bytes(bytes) => Value::Bytes(bytes@),
            Contents::Roots(inner) => Value::Roots(inner.view()),
        }
    }
}

/// Whether the metadata of a box speaks of a row of `n` values.
pub open spec fn counts(meta: Meta, n: nat) -> bool {
    match meta {
        Meta::Thin => n == 1,
        Meta::Len(len) => n == len,
        Meta::Raw(_) => false,
        Meta::Words(_, _) => false,
    }
}

impl<T: Collect> Value<T> {
    /// The pointers that the collector finds in a box. It does not look at uninitialized memory.
    pub open spec fn edges(self) -> Seq<Edge> {
        match self {
            Value::Values(row) => collect::row_edges(row),
            Value::Uninit(_) => Seq::empty(),
            Value::Buffer => Seq::empty(),
            Value::Bytes(_) => Seq::empty(),
            Value::Roots(roots) => seq![Edge::Strong(roots.buf)] + collect::row_edges(roots.slots),
        }
    }

    /// Whether the contents fit the vtable, the tracing flag and the metadata of their box.
    pub open spec fn fits(self, vtable: CollectVTable, needs_trace: bool, meta: Meta) -> bool {
        match self {
            Value::Values(row) => {
                &&& vtable == CollectVTable::Traced
                &&& needs_trace == T::spec_needs_trace()
                &&& counts(meta, row.len())
            },
            Value::Uninit(row) => {
                &&& vtable == CollectVTable::Opaque
                &&& !needs_trace
                &&& counts(meta, row.len())
            },
            Value::Buffer => vtable == CollectVTable::Opaque && !needs_trace && meta is Len,
            Value::Bytes(bytes) => {
                &&& vtable == CollectVTable::Opaque
                &&& !needs_trace
                &&& match meta {
                    Meta::Raw(layout) => bytes.len() == layout.size(),
                    Meta::Words(size, _) => bytes.len() == size,
                    _ => false,
                }
            },
            Value::Roots(_) => vtable == CollectVTable::Traced && needs_trace && meta is Thin,
        }
    }

    /// A box that needs no tracing holds no pointers.
    pub proof fn untraced_has_no_edges(self, vtable: CollectVTable, meta: Meta)
        requires
            self.fits(vtable, false, meta),
        ensures
            self.edges().len() == 0,
    {
        if let Value::Values(row) = self {
            collect::lemma_row_untraced(row);
        }
    }
}

/// What was written to a row of memory.
pub open spec fn written<T>(slots: Seq<Option<T>>) -> Seq<T> {
    Seq::new(slots.len(), |i: int| slots[i]->0)
}

/// Whether every place of a row of memory was written.
pub open spec fn all_written<T>(slots: Seq<Option<T>>) -> bool {
    forall|i: int| 0 <= i < slots.len() ==> #[trigger] slots[i] is Some
}

/// Takes what was written out of a row of memory.
pub(crate) fn take_written<T>(slots: Vec<Option<T>>) -> (row: Vec<T>)
    requires
        all_written(slots@),
    ensures
        row@ == written(slots@),
{
    let mut slots = slots;
    let ghost was = slots@;
    let mut row: Vec<T> = Vec::new();
    let mut i: usize = 0;
    while i < slots.len()
        invariant
            i <= slots@.len() == was.len(),
            all_written(was),
            forall|j: int| i <= j < was.len() ==> #[trigger] slots@[j] == was[j],
            row@ == written(was).take(i as int),
        decreases was.len() - i,
    {
        assert(slots@[i as int] is Some) by {
            assert(was[i as int] is Some);
        }
        let slot = &mut slots[i];
        row.push(slot.take().unwrap());
        assert(row@ =~= written(was).take(i + 1));
        i += 1;
    }
    assert(row@ =~= written(was));
    row
}

impl<T: Collect> Contents<T> {
    /// Shows the pointers in the box to the collector.
    pub fn trace_value<C: Trace>(&self, cc: &mut C)
        requires
            old(cc).wf(),
            collect::all_ready::<C>(old(cc).state(), self.view().edges()),
        ensures
            final(cc).wf(),
            final(cc).state() == collect::trace_all::<C>(old(cc).state(), self.view().edges()),
    {
        match self {
            Contents::Values(row) => collect::trace_slice(cc, row.as_slice()),
            Contents::Roots(inner) => inner.trace(cc),
            Contents::Uninit(_) | Contents::Buffer | Contents::Bytes(_) => {},
        }
    }

    /// Drops what the box holds. What was written to uninitialized memory is not dropped.
    pub fn drop_in_place(self) {
        match self {
            Contents::Uninit(row) => {
                let _kept = ManuallyDrop::new(row);
            },
            _ => {},
        }
    }
}

} // verus!
