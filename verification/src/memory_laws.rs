//! What holds of sizes, alignments, addresses and metadata.

use crate::collect::Collect;
use crate::heap;
use crate::layout::{self, Layout};
use crate::ptr::{self, MetaCollect, MetaLayout, Metadata, PtrMetadata, Shape};
use crate::state::{self, State};
use crate::types::{self, CollectVTable, GcColor, Meta};
use vstd::arithmetic::div_mod::*;
use vstd::prelude::*;

verus! {

/// The greater of two numbers is one of them and no less than either.
pub proof fn greater_of_two(a: int, b: int)
    ensures
        layout::max(a, b) >= a,
        layout::max(a, b) >= b,
        layout::max(a, b) == a || layout::max(a, b) == b,
{
}

/// A block may exist exactly if its alignment is a power of two and its size, rounded up to the
/// alignment, does not exceed the greatest address difference.
pub proof fn blocks_that_may_exist(size: int, align: int)
    requires
        0 <= size,
        0 < align,
    ensures
        layout::fits(size, align) <==> vstd::arithmetic::power2::is_pow2(align) && layout::round_up(
            size,
            align,
        ) <= isize::MAX,
{
    let max = isize::MAX as int;
    let most = max - max % align;
    layout::round_up_is_least_multiple(size, align);
    lemma_fundamental_div_mod(max, align);
    lemma_mod_bound(max, align);
    assert(most == align * (max / align));
    lemma_mod_multiples_basic(max / align, align);
    assert(most % align == 0) by {
        assert(align * (max / align) == (max / align) * align) by (nonlinear_arith);
    }
    let up = layout::round_up(size, align);
    if up <= max {
        lemma_fundamental_div_mod(up, align);
        let q = up / align;
        let p = max / align;
        assert(q <= p) by {
            lemma_div_is_ordered(up, max, align);
        }
        assert(align * q <= align * p) by (nonlinear_arith)
            requires
                q <= p,
                0 < align,
        ;
    }
}

/// A row is as large as its values together.
pub proof fn rows_are_as_large_as_their_values<T>(n: int, m: int)
    ensures
        layout::row_size::<T>(0) == 0,
        layout::row_size::<T>(1) == vstd::layout::size_of::<T>(),
        layout::row_size::<T>(n + m) == layout::row_size::<T>(n) + layout::row_size::<T>(m),
{
    let size = vstd::layout::size_of::<T>() as int;
    assert((n + m) * size == n * size + m * size) by (nonlinear_arith);
}

/// A value stands no further into its box than the metadata, the header and their alignment require.
pub proof fn boxes_waste_little(meta_size: int, align: int)
    requires
        0 <= meta_size,
        0 < align,
    ensures
        types::value_offset(meta_size, align) % align == 0,
        types::value_offset(meta_size, align) >= meta_size + 3 * vstd::layout::size_of::<usize>(),
        types::value_offset(meta_size, align) < meta_size + 4 * vstd::layout::size_of::<usize>()
            + align,
{
    broadcast use vstd::layout::layout_of_primitives;

    vstd::layout::usize_size_pow2();
    layout::round_up_is_least_multiple(meta_size, types::word());
    layout::round_up_is_least_multiple(
        layout::round_up(meta_size, types::word()) + types::HEADER_WORDS * types::word(),
        align,
    );
}

/// A box is aligned as its metadata, its header and its value require, and no more.
pub proof fn boxes_are_aligned_as_required<M>(align: int)
    ensures
        state::box_align::<M>(align) >= align,
        state::box_align::<M>(align) >= vstd::layout::align_of::<M>(),
        state::box_align::<M>(align) >= vstd::layout::size_of::<usize>(),
        state::box_align::<M>(align) == align || state::box_align::<M>(align)
            == vstd::layout::align_of::<M>() || state::box_align::<M>(align)
            == vstd::layout::size_of::<usize>(),
{
}

/// There is room for a box exactly if it can be laid out and ends within the address range. It begins
/// after all that is in use, and as early as its alignment allows.
pub proof fn boxes_need_room<T: Collect, M>(s: State<T>, size: int, align: int)
    requires
        0 < align,
    ensures
        s.has_room::<M>(size, align) ==> {
            &&& layout::fits(size, align)
            &&& s.next_brk::<M>(size, align) <= usize::MAX
            &&& s.next_brk::<M>(size, align) >= s.heap.brk + size
        },
        layout::fits(size, align) && types::box_fits(
            vstd::layout::size_of::<M>() as int,
            vstd::layout::align_of::<M>() as int,
            size,
            align,
        ) && s.next_brk::<M>(size, align) <= usize::MAX ==> s.has_room::<M>(size, align),
        s.next_brk::<M>(size, align) < s.heap.brk + state::box_align::<M>(align)
            + types::value_offset(vstd::layout::size_of::<M>() as int, align) + size,
{
    let whole = state::box_align::<M>(align);
    layout::round_up_is_least_multiple(s.heap.brk as int, whole);
    boxes_waste_little(vstd::layout::size_of::<M>() as int, align);
}

/// A block fits exactly if it ends within the address range.
pub proof fn blocks_need_room(brk: int, size: int, align: int)
    ensures
        heap::room(brk, size, align) <==> layout::round_up(brk, align) + size <= usize::MAX,
{
}

/// Room for a value and for a row is room for a box of their size.
pub proof fn values_and_rows_need_room<T: Collect>(s: State<T>, n: nat)
    ensures
        s.room_for_value() <==> s.has_room::<()>(
            vstd::layout::size_of::<T>() as int,
            vstd::layout::align_of::<T>() as int,
        ),
        s.room_for_row(n) <==> s.has_room::<usize>(
            (n * vstd::layout::size_of::<T>()) as int,
            vstd::layout::align_of::<T>() as int,
        ),
{
}

/// Each colour has its own bits in a header word, and the vtable is told by the others.
pub proof fn header_words_tell_colors_apart(word: usize)
    ensures
        types::word_color(word) == GcColor::White <==> word & 0x3 == 0x0,
        types::word_color(word) == GcColor::WhiteWeak <==> word & 0x3 == 0x1,
        types::word_color(word) == GcColor::Gray <==> word & 0x3 == 0x2,
        types::word_color(word) == GcColor::Black <==> word & 0x3 == 0x3,
        types::word_vtable(word) == CollectVTable::Traced <==> word & !0xfusize
            == types::TRACED_VTABLE,
{
    assert(word & 0x3 <= 0x3) by (bit_vector);
}

/// A pointer to a target is its address with the built-in metadata: nothing for one value, the length
/// for a row, the number of bytes for plain memory.
pub proof fn pointers_carry_their_metadata<T>(n: usize, layout: Layout, addr: usize)
    ensures
        <() as Metadata<T>>::spec_with_addr(&(), addr).addr == addr,
        <usize as Metadata<T>>::spec_with_addr(&n, addr).addr == addr,
        <usize as Metadata<T>>::spec_with_addr(&n, addr).meta == n,
        <Layout as Metadata<T>>::spec_with_addr(&layout, addr).addr == addr,
        <Layout as Metadata<T>>::spec_with_addr(&layout, addr).meta == layout.size(),
        <usize as PtrMetadata<T>>::native(&n) == n,
        <Layout as PtrMetadata<T>>::native(&layout) == layout.size(),
        <() as Metadata<T>>::spec_addr(<() as Metadata<T>>::spec_with_addr(&(), addr)) == addr,
        <usize as Metadata<T>>::spec_addr(<usize as Metadata<T>>::spec_with_addr(&n, addr)) == addr,
        <Layout as Metadata<T>>::spec_addr(<Layout as Metadata<T>>::spec_with_addr(&layout, addr))
            == addr,
{
}

/// The metadata of the three basic kinds is kept in different forms, and each recognizes its own.
pub proof fn kinds_of_metadata_are_told_apart<T>(n: usize, layout: Layout, meta: Meta)
    ensures
        <() as Metadata<T>>::erased(&()) == Meta::Thin,
        <usize as Metadata<T>>::erased(&n) == Meta::Len(n),
        <Layout as Metadata<T>>::erased(&layout) == Meta::Raw(layout),
        <() as Metadata<T>>::recognizes(meta) <==> meta is Thin,
        <usize as Metadata<T>>::recognizes(meta) <==> meta is Len,
        <Layout as Metadata<T>>::recognizes(meta) <==> meta is Raw,
{
}

/// A single value is laid out as its type, a row as its values together, and plain memory as its layout
/// says; a row or a layout that cannot exist has none.
pub proof fn targets_are_laid_out<T>(n: usize, layout: Layout)
    requires
        vstd::layout::align_of::<T>() <= usize::MAX,
    ensures
        match <() as MetaLayout<T>>::spec_layout(&()) {
            Some((size, align)) => size == vstd::layout::size_of::<T>() && align
                == vstd::layout::align_of::<T>(),
            None => !layout::fits(
                vstd::layout::size_of::<T>() as int,
                vstd::layout::align_of::<T>() as int,
            ),
        },
        match <usize as MetaLayout<T>>::spec_layout(&n) {
            Some((size, align)) => size == n * vstd::layout::size_of::<T>() && align
                == vstd::layout::align_of::<T>(),
            None => !layout::fits(
                n * vstd::layout::size_of::<T>(),
                vstd::layout::align_of::<T>() as int,
            ),
        },
        match <Layout as MetaLayout<T>>::spec_layout(&layout) {
            Some((size, align)) => size == layout.size() && align == layout.align(),
            None => !layout.wf(),
        },
{
}

/// A target that can exist has the size and the alignment that its metadata tells.
pub proof fn targets_have_size_and_alignment<T, M: MetaLayout<T>>(meta: M, size: usize, align: usize)
    requires
        meta.spec_layout() == Some((size, align)),
    ensures
        ptr::target_size::<T, M>(meta) == size,
        ptr::target_align::<T, M>(meta) == align,
{
}

/// A layout is given exactly if the block may exist.
pub proof fn checked_layouts_may_exist(size: int, align: int)
    requires
        align <= usize::MAX,
    ensures
        match ptr::checked_layout(size, align) {
            Some((s, a)) => s == size && a == align && layout::fits(size, align),
            None => !layout::fits(size, align),
        },
{
}

/// New memory is one place for a single value, as many places as a row is long, and plain memory for a
/// layout; single values and rows are traced as their values are, plain memory is not.
pub proof fn metadata_tells_the_shape<T: Collect>(n: usize, layout: Layout)
    ensures
        <() as MetaCollect<T>>::spec_shape(&()) == Shape::One,
        <usize as MetaCollect<T>>::spec_shape(&n) == Shape::Row(n),
        <Layout as MetaCollect<T>>::spec_shape(&layout) == Shape::Memory,
        <() as MetaCollect<T>>::spec_needs_trace(&()) == T::spec_needs_trace(),
        <usize as MetaCollect<T>>::spec_needs_trace(&n) == T::spec_needs_trace(),
        !<Layout as MetaCollect<T>>::spec_needs_trace(&layout),
{
}

} // verus!
