//! The mathematical model of an arena: its heap and what the boxes hold.

use crate::collect::{self, Collect, Edge};
use crate::contents::Value;
use crate::heap::{self, Heap};
use crate::heap_view::{BoxView, HeapView, Phase};
use crate::layout;
use crate::marking;
use crate::types::{self, CollectVTable, Flags, GcBox, GcColor, Meta};
use vstd::prelude::*;

verus! {

/// The state of an arena.
#[verifier::ext_equal]
#[verifier::reject_recursive_types(T)]
pub struct State<T> {
    pub heap: HeapView,
    /// What the live boxes hold.
    pub values: Map<GcBox, Value<T>>,
}

/// The alignment of a box that holds metadata of type `M` and a value of alignment `align`.
pub open spec fn box_align<M>(align: int) -> int {
    layout::max(layout::max(vstd::layout::align_of::<M>() as int, types::word()), align)
}

impl<T: Collect> State<T> {
    pub open spec fn empty() -> State<T> {
        State { heap: HeapView::empty(), values: Map::empty() }
    }

    /// The invariant of an arena: exactly the live boxes have contents, which fit their boxes, and
    /// boxes that need no tracing hold no pointers.
    pub open spec fn inv(self) -> bool {
        &&& self.heap.inv()
        &&& forall|b: GcBox| #[trigger]
            self.values.contains_key(b) <==> self.heap.has(b) && self.heap.live(b)
        &&& forall|b: GcBox| #[trigger]
            self.values.contains_key(b) ==> self.values[b].fits(
        self.heap.boxes[b].flags.vtable,
        self.heap.boxes[b].flags.needs_trace,
        self.heap.boxes[b].meta,
    )
        &&& forall|b: GcBox| #[trigger]
            self.values.contains_key(b) && !self.heap.boxes[b].flags.needs_trace ==> self.edges(
                b,
            ).len() == 0
    }

    /// The pointers that the collector finds in a box.
    pub open spec fn edges(self, b: GcBox) -> Seq<Edge> {
        if self.values.contains_key(b) {
            self.values[b].edges()
        } else {
            Seq::empty()
        }
    }

    /// Whether a box holds a row of initialized values.
    pub open spec fn holds_row(self, b: GcBox) -> bool {
        self.values.contains_key(b) && self.values[b] is Values
    }

    /// The values that a box holds.
    pub open spec fn row(self, b: GcBox) -> Seq<T> {
        self.values[b]->Values_0
    }

    /// Whether a box holds one initialized value.
    pub open spec fn holds_one(self, b: GcBox) -> bool {
        self.holds_row(b) && self.row(b).len() == 1
    }

    /// The value that a box holds.
    pub open spec fn value(self, b: GcBox) -> T {
        self.row(b)[0]
    }

    /// Whether a box holds memory for a row of values.
    pub open spec fn holds_slots(self, b: GcBox) -> bool {
        self.values.contains_key(b) && self.values[b] is Uninit
    }

    /// What was written to the memory that a box holds.
    pub open spec fn slots(self, b: GcBox) -> Seq<Option<T>> {
        self.values[b]->Uninit_0
    }

    /// The value that a box holds changes.
    pub open spec fn with_row(self, b: GcBox, row: Seq<T>) -> State<T> {
        self.with_value(b, Value::Values(row))
    }

    // ---- steps of the collector ----
    pub open spec fn with_heap(self, heap: HeapView) -> State<T> {
        State { heap, ..self }
    }

    /// The next gray box is traced.
    pub open spec fn mark_box(self) -> State<T> {
        let b = self.heap.next_gray()->0;
        self.with_heap(collect::trace_all::<Heap>(self.heap.take_gray(), self.edges(b)))
    }

    /// The root is traced.
    pub open spec fn mark_root(self, root: Seq<Edge>) -> State<T> {
        self.with_heap(
            HeapView {
                root_needs_trace: false,
                ..collect::trace_all::<Heap>(self.heap, root)
            },
        )
    }

    /// One step of marking: a gray box, or else the root if it was not traced yet.
    pub open spec fn mark_one(self, root: Seq<Edge>) -> State<T> {
        if self.heap.next_gray() is Some {
            self.mark_box()
        } else if self.heap.root_needs_trace {
            self.mark_root(root)
        } else {
            self
        }
    }

    /// One step of sweeping.
    pub open spec fn sweep_one(self) -> State<T> {
        let b = self.heap.next_unswept()->0;
        State {
            heap: self.heap.sweep_next(),
            values: if self.heap.is_white(b) {
                self.values.remove(b)
            } else {
                self.values
            },
        }
    }

    /// The arena after every box is gone.
    pub open spec fn drop_all(self) -> State<T> {
        State { heap: self.heap.start_drop().drop_all(), values: Map::empty() }
    }

    // ---- steps of the mutator ----
    /// A new box with its contents.
    pub open spec fn allocate(self, b: GcBox, new: BoxView, value: Value<T>, brk: usize) -> State<
        T,
    > {
        State { heap: self.heap.allocate(b, new, brk), values: self.values.insert(b, value) }
    }

    /// Whether there is room for a box that holds metadata of type `M` and a value of this size
    /// and alignment.
    pub open spec fn has_room<M>(self, size: int, align: int) -> bool {
        let meta_size = vstd::layout::size_of::<M>() as int;
        let meta_align = vstd::layout::align_of::<M>() as int;
        &&& layout::fits(size, align)
        &&& types::box_fits(meta_size, meta_align, size, align)
        &&& heap::room(
            self.heap.brk as int,
            types::value_offset(meta_size, align) + size,
            box_align::<M>(align),
        )
    }

    /// Where a new box ends that holds metadata of type `M` and a value of this size and alignment.
    pub open spec fn next_brk<M>(self, size: int, align: int) -> int {
        let offset = types::value_offset(vstd::layout::size_of::<M>() as int, align);
        layout::round_up(self.heap.brk as int, box_align::<M>(align)) + offset + size
    }

    /// The state if more of the address range were in use.
    pub open spec fn with_brk(self, brk: usize) -> State<T> {
        self.with_heap(HeapView { brk, ..self.heap })
    }

    /// Whether `t` is this state with a new box at `b`: white, alive, above all others, with
    /// metadata of type `M` and a value of this size and alignment.
    pub open spec fn allocated<M>(
        self,
        t: State<T>,
        b: GcBox,
        size: int,
        align: int,
        vtable: CollectVTable,
        needs_trace: bool,
        meta: Meta,
        value: Value<T>,
    ) -> bool {
        let new = t.heap.boxes[b];
        let offset = types::value_offset(vstd::layout::size_of::<M>() as int, align);
        let base = layout::round_up(self.heap.brk as int, box_align::<M>(align));
        &&& t == self.allocate(b, new, value, t.heap.brk)
        &&& new.flags == (Flags { vtable, color: GcColor::White, needs_trace, live: true })
        &&& new.meta == meta
        &&& new.layout.size() == offset + size
        &&& new.layout.align() == box_align::<M>(align)
        &&& b.addr == base + offset
        &&& t.heap.brk == self.next_brk::<M>(size, align)
        &&& self.heap.brk < b.addr
        &&& b.addr as int % align == 0
        &&& !self.heap.has(b)
    }

    /// Whether there is room for a box that holds one value.
    pub open spec fn room_for_value(self) -> bool {
        self.has_room::<()>(
            vstd::layout::size_of::<T>() as int,
            vstd::layout::align_of::<T>() as int,
        )
    }

    /// Whether there is room for a box that holds a row of `n` values.
    pub open spec fn room_for_row(self, n: nat) -> bool {
        self.has_room::<usize>(
            layout::row_size::<T>(n as int),
            vstd::layout::align_of::<T>() as int,
        )
    }

    /// Whether `t` is this state with a new box at `b` that holds one value.
    pub open spec fn new_value(self, t: State<T>, b: GcBox, value: T) -> bool {
        self.allocated::<()>(
            t,
            b,
            vstd::layout::size_of::<T>() as int,
            vstd::layout::align_of::<T>() as int,
            CollectVTable::Traced,
            T::spec_needs_trace(),
            Meta::Thin,
            Value::Values(seq![value]),
        )
    }

    /// Whether `t` is this state with a new box at `b` that holds a row of values.
    pub open spec fn new_row(self, t: State<T>, b: GcBox, row: Seq<T>) -> bool {
        self.allocated::<usize>(
            t,
            b,
            layout::row_size::<T>(row.len() as int),
            vstd::layout::align_of::<T>() as int,
            CollectVTable::Traced,
            T::spec_needs_trace(),
            Meta::Len(row.len() as usize),
            Value::Values(row),
        )
    }

    /// Whether `t` is this state with a new box at `b` that holds memory for one value.
    pub open spec fn new_slot(self, t: State<T>, b: GcBox, slot: Option<T>) -> bool {
        self.allocated::<()>(
            t,
            b,
            vstd::layout::size_of::<T>() as int,
            vstd::layout::align_of::<T>() as int,
            CollectVTable::Opaque,
            false,
            Meta::Thin,
            Value::Uninit(seq![slot]),
        )
    }

    /// Whether `t` is this state with a new box at `b` that holds memory for a row of values.
    pub open spec fn new_slots(self, t: State<T>, b: GcBox, slots: Seq<Option<T>>) -> bool {
        self.allocated::<usize>(
            t,
            b,
            layout::row_size::<T>(slots.len() as int),
            vstd::layout::align_of::<T>() as int,
            CollectVTable::Opaque,
            false,
            Meta::Len(slots.len() as usize),
            Value::Uninit(slots),
        )
    }

    /// The state in which a box may come to hold any pointers: if the collector has already traced
    /// the box, it will do so again.
    pub open spec fn reopened(self, b: GcBox) -> State<T> {
        self.with_heap(self.heap.backward_barrier(b, None))
    }

    /// The memory that a box holds is taken to be initialized, after a write barrier.
    pub open spec fn initialized(self, b: GcBox, row: Seq<T>) -> State<T> {
        self.reopened(b).convert(
            b,
            CollectVTable::Traced,
            T::spec_needs_trace(),
            self.heap.boxes[b].meta,
            Value::Values(row),
        )
    }

    /// The buffer that a box holds becomes a row of initialized values, after a write barrier.
    pub open spec fn filled(self, b: GcBox, row: Seq<T>) -> State<T> {
        self.reopened(b).convert(
            b,
            CollectVTable::Traced,
            T::spec_needs_trace(),
            Meta::Len(row.len() as usize),
            Value::Values(row),
        )
    }

    /// The row of initialized values that a box holds becomes a buffer.
    pub open spec fn emptied(self, b: GcBox, cap: usize) -> State<T> {
        self.convert(b, CollectVTable::Opaque, false, Meta::Len(cap), Value::Buffer)
    }

    /// The contents of a box change.
    pub open spec fn with_value(self, b: GcBox, value: Value<T>) -> State<T> {
        State { values: self.values.insert(b, value), ..self }
    }

    /// The contents of a box change together with the way the collector treats them and their
    /// metadata.
    pub open spec fn convert(
        self,
        b: GcBox,
        vtable: CollectVTable,
        needs_trace: bool,
        meta: Meta,
        value: Value<T>,
    ) -> State<T> {
        State {
            heap: self.heap.with_box(
                b,
                self.heap.boxes[b].converted(vtable, needs_trace, meta),
            ),
            values: self.values.insert(b, value),
        }
    }

    // ---- safety ----
    /// Whether the sweep is going to drop the contents of a box.
    pub open spec fn doomed(self, b: GcBox) -> bool {
        self.heap.is_unswept(b) && self.heap.is_white(b)
    }

    /// Whether a pointer may be used: the contents of a strong target stay, and so does the box of
    /// a weak target.
    pub open spec fn safe(self, e: Edge) -> bool {
        match e {
            Edge::Strong(b) => self.heap.has(b) && self.heap.live(b) && !self.doomed(b),
            Edge::Weak(b) => self.heap.has(b) && !(self.heap.is_unswept(b) && self.heap.color(b)
                == GcColor::White),
        }
    }

    pub open spec fn all_safe(self, edges: Seq<Edge>) -> bool {
        forall|i: int| 0 <= i < edges.len() ==> self.safe(#[trigger] edges[i])
    }

    pub open spec fn all_marked(self, edges: Seq<Edge>) -> bool {
        forall|i: int| 0 <= i < edges.len() ==> marking::marked(self.heap, #[trigger] edges[i])
    }

    /// Whether no pointer in the arena dangles, now or after any work of the collector.
    ///
    /// The pointers in the root, in the boxes that stay and in `held` are safe. While the
    /// collector marks, a black box points to marked boxes only; so does the root once it has been
    /// traced, and so does `held`.
    pub open spec fn sound(self, root: Seq<Edge>, held: Seq<Edge>) -> bool {
        &&& self.inv()
        &&& self.heap.phase != Phase::Drop
        &&& forall|b: GcBox| #[trigger]
            self.values.contains_key(b) && !self.doomed(b) ==> self.all_safe(self.edges(b))
        &&& self.heap.phase == Phase::Mark ==> forall|b: GcBox| #[trigger]
            self.values.contains_key(b) && self.heap.color(b) == GcColor::Black ==> self.all_marked(
                self.edges(b),
            )
        &&& self.all_safe(root)
        &&& self.heap.phase == Phase::Mark && !self.heap.root_needs_trace ==> self.all_marked(root)
        &&& self.all_safe(held)
        &&& self.heap.phase == Phase::Mark ==> self.all_marked(held)
    }
}

} // verus!
