//! What is read from the arena is what was written to it: new boxes, changes in place, and changes of
//! kind.

use crate::collect::{self, Collect, Edge};
use crate::contents::{self, Contents, RootsView, Value};
use crate::gc::unique;
use crate::gc::{self, Gc};
use crate::heap_view::Phase;
use crate::mutation;
use crate::ptr::{self, MetaCollect, Shape};
use crate::root::{self, Slot};
use crate::state::State;
use crate::types::{CollectVTable, GcBox, GcColor, Meta};
use vstd::prelude::*;

verus! {

/// Whether `t` has every box of `s` as it was, with its contents.
pub open spec fn keeps_all<T: Collect>(s: State<T>, t: State<T>) -> bool {
    forall|x: GcBox| #[trigger]
        s.heap.boxes.contains_key(x) ==> {
            &&& t.heap.boxes.contains_key(x)
            &&& t.heap.boxes[x] == s.heap.boxes[x]
            &&& t.values.contains_key(x) == s.values.contains_key(x)
            &&& t.values[x] == s.values[x]
        }
}

/// Whether `t` has every box of `s` but `b` as it was, with its contents, and `b` as a box of the same
/// size.
pub open spec fn keeps_others<T: Collect>(s: State<T>, t: State<T>, b: GcBox) -> bool {
    &&& t.heap.boxes.dom() == s.heap.boxes.dom()
    &&& t.heap.boxes[b].layout == s.heap.boxes[b].layout
    &&& t.heap.boxes[b].flags.live == s.heap.boxes[b].flags.live
    &&& forall|x: GcBox|
        x != b && s.heap.boxes.contains_key(x) ==> #[trigger] t.heap.boxes[x] == s.heap.boxes[x]
    &&& forall|x: GcBox|
        x != b ==> (#[trigger] t.values.contains_key(x) <==> s.values.contains_key(x))
    &&& forall|x: GcBox| x != b ==> #[trigger] t.values[x] == s.values[x]
    &&& t.heap.all == s.heap.all && t.heap.unswept == s.heap.unswept
    &&& t.heap.phase == s.heap.phase && t.heap.brk == s.heap.brk
    &&& t.heap.gray == s.heap.gray
    &&& t.heap.root_needs_trace == s.heap.root_needs_trace
}

// ---- new boxes ----
/// A new box stands where none stood, above all others and suitably aligned. It is white, alive and the
/// youngest, holds what it was made with, and leaves every other box as it was. The collector goes on
/// where it was, and the box is counted.
pub proof fn new_box_holds_what_it_was_made_with<T: Collect, M>(
    s: State<T>,
    t: State<T>,
    b: GcBox,
    size: int,
    align: int,
    vtable: CollectVTable,
    needs_trace: bool,
    meta: Meta,
    value: Value<T>,
)
    requires
        s.inv(),
        0 < align,
        s.allocated::<M>(t, b, size, align, vtable, needs_trace, meta, value),
    ensures
        !s.heap.boxes.contains_key(b),
        t.heap.boxes.contains_key(b),
        t.values.contains_key(b) && t.values[b] == value,
        keeps_all(s, t),
        t.heap.all == s.heap.all.push(b),
        t.heap.phase == s.heap.phase,
        t.heap.unswept == s.heap.unswept,
        t.heap.gray == s.heap.gray && t.heap.gray_again == s.heap.gray_again,
        t.heap.root_needs_trace == s.heap.root_needs_trace,
        b.addr as int % align == 0,
        forall|x: GcBox| s.heap.boxes.contains_key(x) ==> (#[trigger] x.addr) < b.addr,
        t.heap.boxes[b].meta == meta,
        t.heap.boxes[b].flags.vtable == vtable,
        t.heap.boxes[b].flags.needs_trace == needs_trace,
        t.heap.boxes[b].flags.color == GcColor::White,
        t.heap.boxes[b].flags.live,
        t.heap.boxes[b].layout.size() >= size,
        t.heap.boxes[b].layout.align() >= align,
        t.heap.boxes[b].layout.size() == crate::types::value_offset(
            vstd::layout::size_of::<M>() as int,
            align,
        ) + size,
        t.heap.brk == b.addr + size,
        b.addr < s.heap.brk + crate::state::box_align::<M>(align) + crate::types::value_offset(
            vstd::layout::size_of::<M>() as int,
            align,
        ),
        s.heap.metrics.total_gcs < usize::MAX ==> t.heap.metrics.total_gcs == s.heap.metrics.total_gcs
            + 1,
        s.heap.metrics.allocated + t.heap.boxes[b].layout.size() <= usize::MAX
            ==> t.heap.metrics.allocated == s.heap.metrics.allocated + t.heap.boxes[b].layout.size(),
{
    assert(t.heap.boxes.contains_key(b));
    crate::layout::round_up_is_least_multiple(
        s.heap.brk as int,
        crate::state::box_align::<M>(align),
    );
    lemma_offset_is_not_negative::<M>(align, t.heap.boxes[b].layout.size() as int - size);
}

/// Where a value stands in its box is never before the box.
proof fn lemma_offset_is_not_negative<M>(align: int, rest: int)
    ensures
        rest == crate::types::value_offset(vstd::layout::size_of::<M>() as int, align) && align > 0
            ==> rest >= 0,
{
    broadcast use vstd::layout::layout_of_primitives;

    let size = vstd::layout::size_of::<M>() as int;
    let word = crate::types::word();
    vstd::layout::usize_size_pow2();
    if align > 0 {
        crate::layout::round_up_is_least_multiple(size, word);
        crate::layout::round_up_is_least_multiple(
            crate::layout::round_up(size, word) + crate::types::HEADER_WORDS * word,
            align,
        );
    }
}

/// A new value or row is read back from its box.
pub proof fn new_values_are_read_back<T: Collect>(
    s: State<T>,
    t: State<T>,
    b: GcBox,
    value: T,
    row: Seq<T>,
)
    ensures
        s.new_value(t, b, value) ==> t.holds_one(b) && t.value(b) == value && t.row(b) == seq![value]
            && t.heap.boxes[b].meta == Meta::Thin && t.heap.boxes[b].flags.needs_trace
            == T::spec_needs_trace(),
        s.new_row(t, b, row) ==> t.holds_row(b) && t.row(b) == row && t.heap.boxes[b].meta == Meta::Len(
            row.len() as usize,
        ) && t.heap.boxes[b].flags.needs_trace == T::spec_needs_trace(),
        s.new_value(t, b, value) || s.new_row(t, b, row) ==> !s.heap.boxes.contains_key(b)
            && t.heap.boxes[b].flags.vtable == CollectVTable::Traced,
{
}

/// New memory for values has the places that it was made with, and is not traced.
pub proof fn new_places_are_read_back<T: Collect>(
    s: State<T>,
    t: State<T>,
    b: GcBox,
    slot: Option<T>,
    slots: Seq<Option<T>>,
)
    ensures
        s.new_slot(t, b, slot) ==> t.holds_slots(b) && t.slots(b) == seq![slot]
            && t.heap.boxes[b].meta == Meta::Thin,
        s.new_slots(t, b, slots) ==> t.holds_slots(b) && t.slots(b) == slots && t.heap.boxes[b].meta
            == Meta::Len(slots.len() as usize),
        s.new_slot(t, b, slot) || s.new_slots(t, b, slots) ==> !s.heap.boxes.contains_key(b)
            && t.values[b].edges().len() == 0 && !t.heap.boxes[b].flags.needs_trace,
{
}

/// Memory for a row of values that is filled with zeros holds the zero of the type throughout, once it
/// is taken to be initialized.
pub proof fn zeroed_row_reads_zero<T: Collect>(s: State<T>, t: State<T>, b: GcBox, n: nat, zero: T)
    requires
        T::spec_zeroed() == Some(zero),
        s.new_slots(t, b, ptr::blank_slots::<T>(n, true)),
    ensures
        unique::may_assume_init(t, b),
        unique::assumed_init(t, b).holds_row(b),
        unique::assumed_init(t, b).row(b).len() == n,
        forall|i: int| 0 <= i < n ==> #[trigger] unique::assumed_init(t, b).row(b)[i] == zero,
{
}

/// Memory for one value that is filled with zeros holds the zero of the type, once it is taken to be
/// initialized.
pub proof fn zeroed_value_reads_zero<T: Collect>(s: State<T>, t: State<T>, b: GcBox, zero: T)
    requires
        T::spec_zeroed() == Some(zero),
        s.new_slot(t, b, T::spec_zeroed()),
    ensures
        unique::may_assume_init(t, b),
        unique::assumed_init(t, b).holds_one(b),
        unique::assumed_init(t, b).value(b) == zero,
{
}

/// A row of numbers in memory filled with zeros is a row of zeros.
pub proof fn zeroed_numbers_read_zero(s: State<u32>, t: State<u32>, b: GcBox, n: nat)
    requires
        s.new_slots(t, b, ptr::blank_slots::<u32>(n, true)),
    ensures
        unique::assumed_init(t, b).row(b) == Seq::new(n, |i: int| 0u32),
{
    zeroed_row_reads_zero::<u32>(s, t, b, n, 0u32);
    assert(unique::assumed_init(t, b).row(b) =~= Seq::new(n, |i: int| 0u32));
}

/// New memory has the shape of its metadata: one place, as many places as the row is long, or as many
/// bytes as the layout says. If it is to be filled with zeros every place holds the zero of the type and
/// every byte is zero; otherwise no place counts as written.
pub proof fn new_memory_has_its_shape<T: Collect>(
    shape: Shape,
    size: int,
    zeroed: bool,
    value: Value<T>,
)
    requires
        shape.is_blank(size, zeroed, value),
    ensures
        match shape {
            Shape::One => value matches Value::Uninit(slots) && slots.len() == 1 && slots[0] == (if zeroed {
                T::spec_zeroed()
            } else {
                None
            }),
            Shape::Row(n) => value matches Value::Uninit(slots) && slots.len() == n && forall|i: int|
                0 <= i < n ==> #[trigger] slots[i] == (if zeroed {
                    T::spec_zeroed()
                } else {
                    None
                }),
            Shape::Memory => value matches Value::Bytes(bytes) && bytes.len() == size && (zeroed
                ==> forall|i: int| 0 <= i < size ==> #[trigger] bytes[i] == 0),
        },
        value.edges().len() == 0,
{
}

/// Places in new memory: as many as were asked for, unwritten or zeroed.
pub proof fn new_places_are_blank<T: Collect>(n: nat, zeroed: bool, i: int)
    requires
        0 <= i < n,
    ensures
        ptr::blank_slots::<T>(n, zeroed).len() == n,
        ptr::empty_slots::<T>(n).len() == n,
        ptr::empty_slots::<T>(n)[i] is None,
        zeroed ==> ptr::blank_slots::<T>(n, zeroed)[i] == T::spec_zeroed(),
        !zeroed ==> ptr::blank_slots::<T>(n, zeroed)[i] is None,
{
}

// ---- changes ----
/// What is written to a box is read from it, and no other box changes.
pub proof fn written_row_is_read_back<T: Collect>(s: State<T>, b: GcBox, row: Seq<T>, value: Value<T>)
    requires
        s.heap.boxes.contains_key(b),
    ensures
        s.with_row(b, row).holds_row(b),
        s.with_row(b, row).row(b) == row,
        row.len() == 1 ==> s.with_row(b, row).holds_one(b) && s.with_row(b, row).value(b) == row[0],
        keeps_others(s, s.with_row(b, row), b),
        s.with_row(b, row).heap == s.heap,
        s.with_value(b, value).values[b] == value,
        s.with_value(b, value).values.contains_key(b),
        keeps_others(s, s.with_value(b, value), b),
        s.with_value(b, value).heap == s.heap,
{
}

/// Memory that is taken to be initialized is read as what was written to it, is traced from then on,
/// and is no longer black while the collector marks. No other box changes.
pub proof fn initialized_memory_is_read_back<T: Collect>(s: State<T>, b: GcBox, row: Seq<T>)
    requires
        s.heap.boxes.contains_key(b),
    ensures
        ({
            let t = s.initialized(b, row);
            &&& t.holds_row(b) && t.row(b) == row
            &&& t.edges(b) == collect::row_edges(row)
            &&& t.heap.boxes[b].meta == s.heap.boxes[b].meta
            &&& t.heap.boxes[b].flags.vtable == CollectVTable::Traced
            &&& t.heap.boxes[b].flags.needs_trace == T::spec_needs_trace()
            &&& s.heap.phase == Phase::Mark ==> t.heap.boxes[b].flags.color != GcColor::Black
            &&& keeps_others(s, t, b)
        }),
{
    let t = s.initialized(b, row);
    assert(t.heap.boxes.dom() =~= s.heap.boxes.dom());
}

/// Taking contents to be initialized gives each place what was written to it. Plain bytes stay.
pub proof fn assumed_contents_are_what_was_written<T: Collect>(s: State<T>, b: GcBox)
    requires
        s.inv(),
        unique::may_assume_init(s, b),
    ensures
        ({
            let t = unique::assumed_init(s, b);
            match s.values[b] {
                Value::Uninit(slots) => {
                    &&& t.holds_row(b)
                    &&& t.row(b).len() == slots.len()
                    &&& forall|i: int|
                        0 <= i < slots.len() ==> Some(#[trigger] t.row(b)[i]) == slots[i]
                    &&& keeps_others(s, t, b)
                },
                Value::Bytes(_) => t == s,
                _ => false,
            }
        }),
{
    assert(s.heap.has(b));
    if let Value::Uninit(slots) = s.values[b] {
        let row = contents::written(slots);
        initialized_memory_is_read_back(s, b, row);
        assert forall|i: int| 0 <= i < slots.len() implies Some(#[trigger] row[i]) == slots[i] by {
            assert(slots[i] is Some);
        }
    }
}

/// Contents may be taken to be initialized exactly if every place was written, or if they are plain
/// bytes.
pub proof fn only_written_memory_is_initialized<T: Collect>(s: State<T>, b: GcBox)
    ensures
        unique::may_assume_init(s, b) ==> s.values.contains_key(b),
        s.values.contains_key(b) ==> (unique::may_assume_init(s, b) <==> match s.values[b] {
            Value::Uninit(slots) => !slots.contains(None),
            Value::Bytes(_) => true,
            _ => false,
        }),
{
    if s.values.contains_key(b) {
        if let Value::Uninit(slots) = s.values[b] {
            if contents::all_written(slots) && slots.contains(None) {
                let i = choose|i: int| 0 <= i < slots.len() && slots[i] == None::<T>;
                assert(slots[i] is Some);
            }
            if !slots.contains(None) {
                assert forall|i: int| 0 <= i < slots.len() implies #[trigger] slots[i] is Some by {
                    if slots[i] is None {
                        assert(slots[i] == None::<T>);
                        assert(slots.contains(slots[i]));
                    }
                }
            }
        }
    }
}

/// The elements of a vector stand in its row, and the row of a vector is gone from its buffer: neither
/// direction changes any other box.
pub proof fn rows_and_buffers_change_in_place<T: Collect>(
    s: State<T>,
    b: GcBox,
    row: Seq<T>,
    cap: usize,
)
    requires
        s.heap.boxes.contains_key(b),
        row.len() <= usize::MAX,
    ensures
        ({
            let t = s.filled(b, row);
            &&& t.holds_row(b) && t.row(b) == row
            &&& t.heap.boxes[b].meta == Meta::Len(row.len() as usize)
            &&& t.heap.boxes[b].flags.vtable == CollectVTable::Traced
            &&& t.heap.boxes[b].flags.needs_trace == T::spec_needs_trace()
            &&& s.heap.phase == Phase::Mark ==> t.heap.boxes[b].flags.color != GcColor::Black
            &&& keeps_others(s, t, b)
        }),
        ({
            let t = s.emptied(b, cap);
            &&& t.values[b] is Buffer && t.edges(b).len() == 0
            &&& t.heap.boxes[b].meta == Meta::Len(cap)
            &&& t.heap.boxes[b].flags.vtable == CollectVTable::Opaque
            &&& !t.heap.boxes[b].flags.needs_trace
            &&& t.heap.boxes[b].flags.color == s.heap.boxes[b].flags.color
            &&& keeps_others(s, t, b)
        }),
{
    assert(s.filled(b, row).heap.boxes.dom() =~= s.heap.boxes.dom());
    assert(s.emptied(b, cap).heap.boxes.dom() =~= s.heap.boxes.dom());
}

/// Reopening a box changes no contents; while the collector marks, the box is not black afterwards.
pub proof fn reopened_box_is_traced_again<T: Collect>(s: State<T>, b: GcBox)
    requires
        s.heap.boxes.contains_key(b),
    ensures
        s.reopened(b).values == s.values,
        keeps_others(s, s.reopened(b), b),
        s.heap.phase == Phase::Mark ==> s.reopened(b).heap.boxes[b].flags.color != GcColor::Black,
        s.heap.phase == Phase::Mark && s.heap.boxes[b].flags.color == GcColor::Black
            ==> s.reopened(b).heap.gray_again == s.heap.gray_again.push(b),
        s.heap.phase != Phase::Mark || s.heap.boxes[b].flags.color != GcColor::Black ==> s.reopened(b)
            == s,
{
    assert(s.reopened(b).heap.boxes.dom() =~= s.heap.boxes.dom());
}

// ---- contents ----
/// The contents of a box as a mathematical value are the values, places and bytes in order.
pub proof fn contents_are_seen_as_they_are<T>(
    row: Vec<T>,
    slots: Vec<Option<T>>,
    bytes: Vec<u8>,
    inner: root::Inner,
)
    ensures
        Contents::Values(row).view() == Value::Values(row@),
        Contents::Uninit(slots).view() == Value::Uninit(slots@),
        Contents::<T>::Bytes(bytes).view() == Value::<T>::Bytes(bytes@),
        Contents::<T>::Buffer.view() == Value::<T>::Buffer,
        Contents::<T>::Roots(inner).view() == Value::<T>::Roots(
            RootsView {
                buf: inner.slots.buf.ptr,
                cap: inner.slots.cap,
                slots: inner.slots@,
                free_next: inner.free_next,
            },
        ),
{
}

/// What was written to memory is taken out of it place by place.
pub proof fn written_places_are_taken_out<T>(slots: Seq<Option<T>>)
    requires
        forall|i: int| 0 <= i < slots.len() ==> #[trigger] slots[i] is Some,
    ensures
        contents::all_written(slots),
        contents::written(slots).len() == slots.len(),
        forall|i: int|
            0 <= i < slots.len() ==> slots[i] == Some(#[trigger] contents::written(slots)[i]),
{
}

/// A box holds a pointer exactly if one of its initialized values does; the table of a root set holds
/// its buffer and its roots. Memory, bytes and buffers hold none.
pub proof fn boxes_hold_what_their_values_hold<T: Collect>(value: Value<T>, e: Edge)
    ensures
        value.edges().contains(e) <==> match value {
            Value::Values(row) => exists|i: int|
                0 <= i < row.len() && (#[trigger] row[i]).edges().contains(e),
            Value::Roots(view) => e == Edge::Strong(view.buf) || exists|i: int|
                0 <= i < view.slots.len() && (#[trigger] view.slots[i]).edges().contains(e),
            _ => false,
        },
{
    match value {
        Value::Values(row) => collect::lemma_row_edges_contains(row, e),
        Value::Roots(view) => {
            collect::lemma_row_edges_contains(view.slots, e);
            collect::laws::lemma_in_either(
                seq![Edge::Strong(view.buf)],
                collect::row_edges(view.slots),
                e,
            );
            assert(seq![Edge::Strong(view.buf)][0] == Edge::Strong(view.buf));
        },
        _ => {},
    }
}

/// The pointers that the collector finds in a box are those of its contents, and none if these are
/// gone.
pub proof fn pointers_of_a_box_are_those_of_its_contents<T: Collect>(s: State<T>, b: GcBox)
    ensures
        s.values.contains_key(b) ==> s.edges(b) == s.values[b].edges(),
        !s.values.contains_key(b) ==> s.edges(b).len() == 0,
{
}

// ---- root sets ----
/// A new root set is empty, and leaves every other box as it was.
pub proof fn new_root_set_is_empty<P: Collect>(s: State<P>, t: State<P>, b: GcBox, buf: GcBox)
    requires
        s.inv(),
        root::new_set(s, t, b, buf),
    ensures
        t.values.contains_key(b) && t.values[b] is Roots,
        root::roots(t, b).slots.len() == 0,
        root::roots(t, b).buf == buf,
        t.values.contains_key(buf) && t.values[buf] is Buffer,
        forall|i: usize| !#[trigger] root::roots(t, b).occupied(i),
        !root::roots(t, b).has_vacant(),
        root::roots(t, b).next_index() == 0,
        !s.heap.boxes.contains_key(b) && !s.heap.boxes.contains_key(buf),
        b != buf,
        keeps_all(s, t),
{
    let m = choose|m: State<P>|
        {
            &&& #[trigger] crate::vec::new_buffer::<Slot, P>(s, m, buf, root::first_slots() as int)
            &&& m.allocated::<()>(
                t,
                b,
                vstd::layout::size_of::<root::Inner>() as int,
                vstd::layout::align_of::<root::Inner>() as int,
                CollectVTable::Traced,
                true,
                Meta::Thin,
                Value::Roots(
                    RootsView {
                        buf,
                        cap: root::first_slots(),
                        slots: Seq::empty(),
                        free_next: root::FREE_UNAVAILABLE,
                    },
                ),
            )
        };
    assert(m.heap.boxes.contains_key(buf));
    assert(m.heap.has(buf));
    assert forall|x: GcBox| #[trigger] s.heap.boxes.contains_key(x) implies {
        &&& t.heap.boxes.contains_key(x)
        &&& t.heap.boxes[x] == s.heap.boxes[x]
        &&& t.values.contains_key(x) == s.values.contains_key(x)
        &&& t.values[x] == s.values[x]
    } by {
        assert(s.heap.has(x));
        assert(x != buf);
        assert(m.heap.has(x));
        assert(x != b);
    }
    assert(!s.heap.boxes.contains_key(b)) by {
        if s.heap.boxes.contains_key(b) {
            assert(s.heap.has(b));
            assert(m.heap.has(b));
        }
    }
}

/// A root set has to grow for a new root exactly if every place is occupied and the buffer is full. It
/// then at least doubles, and has room for the root.
pub proof fn root_sets_grow_when_full(view: RootsView)
    requires
        view.wf(),
        view.slots.len() < usize::MAX,
    ensures
        root::must_grow(view) <==> view.slots.len() == view.cap && forall|i: int|
            0 <= i < view.slots.len() ==> (#[trigger] view.slots[i]) is Occupied,
        root::must_grow(view) ==> root::grown_slots(view) >= 2 * view.cap && root::grown_slots(view)
            > view.slots.len(),
        !view.has_vacant() <==> forall|i: int|
            0 <= i < view.slots.len() ==> (#[trigger] view.slots[i]) is Occupied,
{
    let list = choose|list: Seq<usize>| root::is_free_list(view.slots, view.free_next, list);
    if list.len() > 0 {
        let n = list.len() - 1;
        assert(list[n] == view.free_next);
        assert(view.slots[list[n] as int] is Vacant);
    } else {
        assert forall|i: int| 0 <= i < view.slots.len() implies (
        #[trigger] view.slots[i]) is Occupied by {
            if view.slots[i] is Vacant {
                assert(list.contains(i as usize));
            }
        }
    }
}

/// What is stashed is fetched by the handle that was given for it, and so is all that was stashed
/// before; the set is traced with the new root. Nothing but the set and its buffer changes.
pub proof fn stashed_root_is_fetched<P: Collect>(
    s: State<P>,
    t: State<P>,
    b: GcBox,
    gc: GcBox,
    new: RootsView,
)
    requires
        s.inv(),
        root::holds_roots(s, b),
        root::stashed(s, t, b, gc, new),
        root::roots(s, b).slots.len() < usize::MAX,
    ensures
        t.values[b] == Value::<P>::Roots(new),
        new.occupied(root::roots(s, b).next_index()),
        new.root(root::roots(s, b).next_index()).ptr == gc,
        new.ref_count(root::roots(s, b).next_index()) == 1,
        !root::roots(s, b).occupied(root::roots(s, b).next_index()),
        forall|i: usize| #[trigger]
            root::roots(s, b).occupied(i) ==> {
                &&& new.occupied(i)
                &&& new.root(i) == root::roots(s, b).root(i)
                &&& new.ref_count(i) == root::roots(s, b).ref_count(i)
            },
        forall|x: GcBox|
            x != b && s.values.contains_key(x) ==> #[trigger] t.values.contains_key(x) && t.values[x]
                == s.values[x],
        new.cap >= new.slots.len() || !root::must_grow(root::roots(s, b)),
{
    let view = root::roots(s, b);
    root::stash_keeps_wf(view, Gc::at(gc), view.buf, usize::MAX);
    crate::root_laws::stash_then_fetch(view, Gc::at(gc));
    if root::must_grow(view) {
        let marked = s.with_heap(s.heap.backward_barrier(b, root::adopted(view, gc)));
        let m = choose|m: State<P>|
            {
                &&& #[trigger] crate::vec::new_buffer::<Slot, P>(
                    marked,
                    m,
                    new.buf,
                    root::grown_slots(view),
                )
                &&& t == root::with_roots(m, b, new)
            };
        assert(!marked.heap.has(new.buf));
        assert(marked.heap.boxes.dom() =~= s.heap.boxes.dom()) by {
            assert(s.heap.has(b));
        }
        assert forall|x: GcBox|
            x != b && s.values.contains_key(x) implies #[trigger] t.values.contains_key(x)
            && t.values[x] == s.values[x] by {
            assert(s.heap.has(x));
            assert(s.heap.boxes.dom().contains(x));
            assert(marked.heap.has(x));
            assert(x != new.buf);
        }
    }
    assert forall|i: usize| #[trigger] view.occupied(i) implies {
        &&& new.occupied(i)
        &&& new.root(i) == view.root(i)
        &&& new.ref_count(i) == view.ref_count(i)
    } by {
        assert(view.stash(Gc::at(gc)).occupied(i));
    }
}

/// A box that holds a root set holds its table, whose roots all have handles, and the buffer of the
/// table is there and knows its capacity.
pub proof fn root_sets_are_in_order<P: Collect>(s: State<P>, b: GcBox)
    requires
        root::holds_roots(s, b),
    ensures
        s.values.contains_key(b),
        s.values[b] == Value::<P>::Roots(root::roots(s, b)),
        root::roots(s, b).slots.len() <= root::roots(s, b).cap,
        s.values.contains_key(root::roots(s, b).buf),
        s.values[root::roots(s, b).buf] is Buffer,
        s.heap.boxes[root::roots(s, b).buf].meta == Meta::Len(root::roots(s, b).cap),
        forall|i: usize| #[trigger]
            root::roots(s, b).occupied(i) ==> root::roots(s, b).ref_count(i) > 0,
        forall|i: usize| #[trigger]
            root::roots(s, b).occupied(i) <==> i < root::roots(s, b).slots.len() && root::roots(
                s,
                b,
            ).slots[i as int] is Occupied,
{
}

/// A root can be stashed exactly if it fits the table or there is room for a larger one.
pub proof fn stashing_needs_room<P: Collect>(s: State<P>, b: GcBox)
    ensures
        !root::must_grow(root::roots(s, b)) ==> root::can_stash(s, b),
        root::must_grow(root::roots(s, b)) ==> (root::can_stash(s, b) <==> root::roots(s, b).slots.len()
            < usize::MAX && 2 * root::roots(s, b).cap <= usize::MAX && crate::vec::room_for_buffer::<
            Slot,
            P,
        >(s, root::grown_slots(root::roots(s, b)))),
{
}

/// There is room for a root set exactly if there is for its buffer and then for its box.
pub proof fn root_sets_need_room<P: Collect>(s: State<P>, brk: usize)
    ensures
        root::room_for_set(s) <==> {
            let cap = root::first_slots() as int;
            let end = s.next_brk::<usize>(
                crate::layout::row_size::<Slot>(cap),
                vstd::layout::align_of::<Slot>() as int,
            );
            &&& crate::vec::room_for_buffer::<Slot, P>(s, cap)
            &&& s.with_brk(end as usize).has_room::<()>(
                vstd::layout::size_of::<root::Inner>() as int,
                vstd::layout::align_of::<root::Inner>() as int,
            )
        },
        root::first_slots() >= 1,
        s.with_brk(brk).heap.brk == brk,
{
    crate::vec::laws::least_capacity_by_size(vstd::layout::size_of::<Slot>());
}

/// Another table in the box of a root set is found there, and no other box changes.
pub proof fn replaced_table_is_found<P: Collect>(s: State<P>, b: GcBox, view: RootsView)
    ensures
        root::roots(root::with_roots(s, b, view), b) == view,
        root::with_roots(s, b, view).heap == s.heap,
        forall|x: GcBox|
            x != b ==> #[trigger] root::with_roots(s, b, view).values[x] == s.values[x],
{
}

/// The barrier before a root is stashed speaks of the root alone if it fits the buffer, and of anything
/// otherwise.
pub proof fn growing_set_may_adopt_anything(view: RootsView, gc: GcBox)
    ensures
        root::must_grow(view) ==> root::adopted(view, gc) is None,
        !root::must_grow(view) ==> root::adopted(view, gc) == Some(gc),
{
}

// ---- pointers and text ----
/// The box of an optional pointer is that of the pointer.
pub proof fn box_of_a_pointer<T, M>(gc: Gc<T, M>, b: GcBox)
    ensures
        mutation::box_of(Some(gc)) == Some(gc.ptr),
        mutation::box_of(None::<Gc<T, M>>) is None,
        Gc::<T, M>::at(b).ptr == b,
{
}

/// Bytes are text as far as the longest prefix that is: there is one such length, no longer prefix is
/// text, and bytes that are text are text to their end.
pub proof fn text_ends_in_one_place(bytes: Seq<u8>, n: nat, m: nat)
    requires
        gc::longest_valid(bytes, n),
    ensures
        n <= bytes.len(),
        vstd::utf8::valid_utf8(bytes.take(n as int)),
        forall|k: int| n < k <= bytes.len() ==> !vstd::utf8::valid_utf8(#[trigger] bytes.take(k)),
        gc::longest_valid(bytes, m) ==> m == n,
        vstd::utf8::valid_utf8(bytes) ==> n == bytes.len(),
{
    assert(bytes.take(bytes.len() as int) =~= bytes);
    if gc::longest_valid(bytes, m) {
        if n < m {
            assert(!vstd::utf8::valid_utf8(bytes.take(m as int)));
        }
        if m < n {
            assert(!vstd::utf8::valid_utf8(bytes.take(n as int)));
        }
    }
}

/// The length of an invalid sequence is within the bytes that follow the text; without one at most
/// three bytes are left, and at least one.
pub proof fn invalid_sequences_are_within_the_bytes(
    bytes: Seq<u8>,
    n: int,
    len: Option<usize>,
)
    requires
        gc::may_be_invalid_len(bytes, n, len),
    ensures
        match len {
            Some(k) => 1 <= k && n + k <= bytes.len(),
            None => n + 1 <= bytes.len() && bytes.len() <= n + 3,
        },
{
}

/// Metadata of memory is blank in the shape that the metadata has.
pub proof fn metadata_shapes_new_memory<T: Collect, M: MetaCollect<T>>(
    meta: M,
    zeroed: bool,
    value: Value<T>,
)
    requires
        meta.spec_layout() is Some,
        meta.spec_shape().is_blank(ptr::target_size::<T, M>(meta), zeroed, value),
    ensures
        value.fits(CollectVTable::Opaque, false, meta.erased()),
        value matches Value::Bytes(bytes) ==> (meta.spec_layout() matches Some((size, _))
            && bytes.len() == size && (zeroed ==> forall|i: int|
            0 <= i < size ==> #[trigger] bytes[i] == 0)),
{
    meta.shape_agrees();
    meta.spec_shape().blank_fits(
        meta.erased(),
        ptr::target_size::<T, M>(meta),
        zeroed,
        value,
    );
}

} // verus!
