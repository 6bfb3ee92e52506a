//! The boxes of the heap and the header word that each of them carries.

use crate::layout::{Layout, LayoutError};
use crate::tagged_ptr;
use vstd::prelude::*;

verus! {

/// A thin, type-erased pointer to a box of the heap: the address of the value that it holds.
#[derive(Clone, Copy, Debug, PartialEq, Eq, Structural)]
pub struct GcBox {
    pub addr: usize,
}

#[derive(Clone, Copy, Debug, PartialEq, Eq, Structural)]
pub enum GcColor {
    /// Not reached by tracing so far. The sweep phase frees the white boxes that existed when it
    /// began; boxes allocated during it are white and are kept.
    White,
    /// Like `White`, but weakly reachable from a black box. The sweep phase may drop the contents
    /// but keeps the box, so that weak pointers can ask whether it is alive.
    WhiteWeak,
    /// Reachable from a black box and not traced yet, or black and touched by a write barrier.
    Gray,
    /// Reached and traced. Not freed in the sweep phase, which turns it white again.
    Black,
}

/// How the collector treats the contents of a box.
#[derive(Clone, Copy, Debug, PartialEq, Eq, Structural)]
pub enum CollectVTable {
    /// Uninitialized memory or plain bytes: never traced, nothing to drop.
    Opaque,
    /// Initialized values: traced, and dropped with the box.
    Traced,
}

/// The address that stands for the operations on opaque contents.
pub const OPAQUE_VTABLE: usize = 0x10;

/// The address that stands for the operations on traced contents.
pub const TRACED_VTABLE: usize = 0x20;

/// The colour in the two lowest bits of a header word.
pub open spec fn word_color(word: usize) -> GcColor {
    if word & 0x3 == 0x0 {
        GcColor::White
    } else if word & 0x3 == 0x1 {
        GcColor::WhiteWeak
    } else if word & 0x3 == 0x2 {
        GcColor::Gray
    } else {
        GcColor::Black
    }
}

/// The vtable in the upper bits of a header word.
pub open spec fn word_vtable(word: usize) -> CollectVTable {
    if word & !0xfusize == TRACED_VTABLE {
        CollectVTable::Traced
    } else {
        CollectVTable::Opaque
    }
}

/// The header of a box: its links in the two intrusive lists and the tagged vtable word.
///
/// The low bits of the word hold the flags of the collector: bits 0 and 1 the colour, bit 2
/// whether the contents need tracing, bit 3 whether they are still alive.
#[derive(Clone, Copy, Debug, PartialEq, Eq, Structural)]
pub struct GcBoxHeader {
    next: Option<GcBox>,
    gray_next: Option<GcBox>,
    tagged_vtable: usize,
}

/// What the header of a box says, apart from its links.
#[derive(Clone, Copy, Debug, PartialEq, Eq, Structural)]
pub struct Flags {
    pub vtable: CollectVTable,
    pub color: GcColor,
    pub needs_trace: bool,
    pub live: bool,
}

impl GcBoxHeader {
    /// The word holds one of the two vtables.
    pub closed spec fn wf(&self) -> bool {
        self.tagged_vtable & !0xfusize == OPAQUE_VTABLE || self.tagged_vtable & !0xfusize
            == TRACED_VTABLE
    }

    pub closed spec fn spec_next(&self) -> Option<GcBox> {
        self.next
    }

    pub closed spec fn spec_gray_next(&self) -> Option<GcBox> {
        self.gray_next
    }

    /// The flags that the word encodes.
    pub closed spec fn flags(&self) -> Flags {
        Flags {
            vtable: word_vtable(self.tagged_vtable),
            color: word_color(self.tagged_vtable),
            needs_trace: self.tagged_vtable & 0x4 != 0,
            live: self.tagged_vtable & 0x8 != 0,
        }
    }

    /// A header that is in no list: white, not live, not to be traced.
    pub fn new(vtable: CollectVTable) -> (header: GcBoxHeader)
        ensures
            header.wf(),
            header.next() is None,
            header.gray_next() is None,
            header.flags() == (Flags {
                vtable,
                color: GcColor::White,
                needs_trace: false,
                live: false,
            }),
    {
        let word: usize = match vtable {
            CollectVTable::Opaque => OPAQUE_VTABLE,
            CollectVTable::Traced => TRACED_VTABLE,
        };
        proof {
            assert(0x10usize & !0xfusize == 0x10 && 0x10usize & 0x3 == 0 && 0x10usize & 0x4 == 0
                && 0x10usize & 0x8 == 0) by (bit_vector);
            assert(0x20usize & !0xfusize == 0x20 && 0x20usize & 0x3 == 0 && 0x20usize & 0x4 == 0
                && 0x20usize & 0x8 == 0) by (bit_vector);
        }
        GcBoxHeader { next: None, gray_next: None, tagged_vtable: word }
    }

    /// Changes the vtable, keeping colour and liveness, and sets whether the contents need
    /// tracing.
    pub fn reset_vtable(&mut self, vtable: CollectVTable, needs_trace: bool)
        requires
            old(self).wf(),
        ensures
            final(self).wf(),
            final(self).next() == old(self).next(),
            final(self).gray_next() == old(self).gray_next(),
            final(self).flags() == (Flags { vtable, needs_trace, ..old(self).flags() }),
    {
        let word: usize = match vtable {
            CollectVTable::Opaque => OPAQUE_VTABLE,
            CollectVTable::Traced => TRACED_VTABLE,
        };
        let tags: usize = tagged_ptr::get::<0xf>(self.tagged_vtable);
        proof {
            let w = self.tagged_vtable;
            assert(forall|v: usize|
                (v == 0x10 || v == 0x20) ==> ((v | #[trigger] (w & 0xf)) & !0xfusize == v && (v | (w
                    & 0xf)) & 0x3 == w & 0x3 && (v | (w & 0xf)) & 0x8 == w & 0x8)) by (bit_vector);
        }
        self.tagged_vtable = word | tags;
        self.set_needs_trace(needs_trace);
    }

    /// The operations on the contents of the box.
    pub fn vtable(&self) -> (vtable: CollectVTable)
        ensures
            vtable == self.flags().vtable,
    {
        if tagged_ptr::untag(self.tagged_vtable) == TRACED_VTABLE {
            CollectVTable::Traced
        } else {
            CollectVTable::Opaque
        }
    }

    /// The next box in the list of all boxes.
    #[verifier::when_used_as_spec(spec_next)]
    pub fn next(&self) -> (next: Option<GcBox>)
        ensures
            next == self.next(),
    {
        self.next
    }

    /// Sets the next box in the list of all boxes.
    pub fn set_next(&mut self, next: Option<GcBox>)
        ensures
            final(self).next() == next,
            final(self).gray_next() == old(self).gray_next(),
            final(self).flags() == old(self).flags(),
            final(self).wf() == old(self).wf(),
    {
        self.next = next;
    }

    /// The next box in the gray list.
    #[verifier::when_used_as_spec(spec_gray_next)]
    pub fn gray_next(&self) -> (next: Option<GcBox>)
        ensures
            next == self.gray_next(),
    {
        self.gray_next
    }

    /// Sets the next box in the gray list.
    pub fn set_gray_next(&mut self, next: Option<GcBox>)
        ensures
            final(self).gray_next() == next,
            final(self).next() == old(self).next(),
            final(self).flags() == old(self).flags(),
            final(self).wf() == old(self).wf(),
    {
        self.gray_next = next;
    }

    pub fn color(&self) -> (color: GcColor)
        ensures
            color == self.flags().color,
    {
        let tag: usize = tagged_ptr::get::<0x3>(self.tagged_vtable);
        if tag == 0x0 {
            GcColor::White
        } else if tag == 0x1 {
            GcColor::WhiteWeak
        } else if tag == 0x2 {
            GcColor::Gray
        } else {
            GcColor::Black
        }
    }

    pub fn set_color(&mut self, color: GcColor)
        ensures
            final(self).next() == old(self).next(),
            final(self).gray_next() == old(self).gray_next(),
            final(self).flags() == (Flags { color, ..old(self).flags() }),
            final(self).wf() == old(self).wf(),
    {
        let tag: usize = match color {
            GcColor::White => 0x0,
            GcColor::WhiteWeak => 0x1,
            GcColor::Gray => 0x2,
            GcColor::Black => 0x3,
        };
        proof {
            let w = self.tagged_vtable;
            assert(((w & !0x3usize) | (tag & 0x3)) & 0x3 == tag && ((w & !0x3usize) | (tag & 0x3))
                & !0xfusize == w & !0xfusize && ((w & !0x3usize) | (tag & 0x3)) & 0x4 == w & 0x4 && (
            (w & !0x3usize) | (tag & 0x3)) & 0x8 == w & 0x8) by (bit_vector)
                requires
                    tag <= 3,
            ;
        }
        tagged_ptr::set::<0x3>(&mut self.tagged_vtable, tag);
    }

    pub fn needs_trace(&self) -> (b: bool)
        ensures
            b == self.flags().needs_trace,
    {
        tagged_ptr::get::<0x4>(self.tagged_vtable) != 0x0
    }

    /// Whether the contents of the box have not been dropped yet.
    ///
    /// When a box with outstanding weak pointers is collected, its contents are dropped and this
    /// is set to false; the box itself goes once no weak pointer is left.
    pub fn is_live(&self) -> (b: bool)
        ensures
            b == self.flags().live,
    {
        tagged_ptr::get::<0x8>(self.tagged_vtable) != 0x0
    }

    pub fn set_needs_trace(&mut self, needs_trace: bool)
        ensures
            final(self).next() == old(self).next(),
            final(self).gray_next() == old(self).gray_next(),
            final(self).flags() == (Flags { needs_trace, ..old(self).flags() }),
            final(self).wf() == old(self).wf(),
    {
        proof {
            let w = self.tagged_vtable;
            assert(forall|t: usize|
                (t == 0 || t == 0x4) ==> (#[trigger] ((w & !0x4usize) | t) & 0x3 == w & 0x3 && ((w
                    & !0x4usize) | t) & !0xfusize == w & !0xfusize && ((w & !0x4usize) | t) & 0x4
                    == t && ((w & !0x4usize) | t) & 0x8 == w & 0x8)) by (bit_vector);
        }
        tagged_ptr::set_bool::<0x4>(&mut self.tagged_vtable, needs_trace);
    }

    pub fn set_live(&mut self, live: bool)
        ensures
            final(self).next() == old(self).next(),
            final(self).gray_next() == old(self).gray_next(),
            final(self).flags() == (Flags { live, ..old(self).flags() }),
            final(self).wf() == old(self).wf(),
    {
        proof {
            let w = self.tagged_vtable;
            assert(forall|t: usize|
                (t == 0 || t == 0x8) ==> (#[trigger] ((w & !0x8usize) | t) & 0x3 == w & 0x3 && ((w
                    & !0x8usize) | t) & !0xfusize == w & !0xfusize && ((w & !0x8usize) | t) & 0x4
                    == w & 0x4 && ((w & !0x8usize) | t) & 0x8 == t)) by (bit_vector);
        }
        tagged_ptr::set_bool::<0x8>(&mut self.tagged_vtable, live);
    }
}

/// The pointer metadata that a box stores next to its header.
#[derive(Clone, Copy, Debug, PartialEq, Eq, Structural)]
pub enum Meta {
    /// A single value: nothing to remember.
    Thin,
    /// A row of this many values.
    Len(usize),
    /// Raw bytes of this layout.
    Raw(Layout),
    /// As many raw bytes as the first word says, described by metadata of another kind that the
    /// second word stands for.
    Words(usize, usize),
}

/// The number of machine words in a header: two links and the tagged vtable.
pub const HEADER_WORDS: usize = 3;

/// The size of a machine word in bytes.
pub open spec fn word() -> int {
    vstd::layout::size_of::<usize>() as int
}

/// Where the value stands in a box whose metadata takes `meta_size` bytes.
///
/// The metadata comes first, then the header, then the value, each suitably aligned.
pub open spec fn value_offset(meta_size: int, value_align: int) -> int {
    crate::layout::round_up(
        crate::layout::round_up(meta_size, word()) + HEADER_WORDS * word(),
        value_align,
    )
}

/// Whether a box can be laid out for a value of this size and alignment.
pub open spec fn box_fits(meta_size: int, meta_align: int, size: int, align: int) -> bool {
    let head = crate::layout::max(meta_align, word());
    &&& crate::layout::fits(
        crate::layout::round_up(meta_size, word()) + HEADER_WORDS * word(),
        head,
    )
    &&& crate::layout::fits(
        value_offset(meta_size, align) + size,
        crate::layout::max(head, align),
    )
}

/// The layout of a box that holds metadata of type `M`, the header and a value, together with the
/// offset of the value in it.
pub fn box_layout<M>(value: Layout) -> (r: Result<(Layout, usize), LayoutError>)
    requires
        value.wf(),
    ensures
        ({
            let meta_size = vstd::layout::size_of::<M>() as int;
            let meta_align = vstd::layout::align_of::<M>() as int;
            match r {
                Ok((layout, offset)) => {
                    &&& box_fits(meta_size, meta_align, value.size() as int, value.align() as int)
                    &&& layout.wf()
                    &&& offset == value_offset(meta_size, value.align() as int)
                    &&& layout.size() == offset + value.size()
                    &&& layout.align() == crate::layout::max(
                        crate::layout::max(meta_align, word()),
                        value.align() as int,
                    )
                },
                Err(_) => !box_fits(
                    meta_size,
                    meta_align,
                    value.size() as int,
                    value.align() as int,
                ),
            }
        }),
{
    broadcast use vstd::layout::layout_of_primitives;

    let metadata = Layout::new::<M>();
    let unit: usize = core::mem::size_of::<usize>();
    proof {
        vstd::layout::usize_size_pow2();
        vstd::arithmetic::div_mod::lemma_mod_bound(isize::MAX as int, unit as int);
    }
    match Layout::from_size_align(unit * HEADER_WORDS, unit) {
        Err(e) => Err(e),
        Ok(header) => match metadata.extend(header) {
            Err(e) => Err(e),
            Ok((head, _)) => match head.extend(value) {
                Err(e) => Err(e),
                Ok((layout, offset)) => Ok((layout, offset)),
            },
        },
    }
}

/// In a box, metadata, header and value follow each other without overlap, the header is aligned
/// to a machine word and the value to its own alignment.
pub proof fn box_parts_are_disjoint_and_aligned(
    meta_size: int,
    meta_align: int,
    size: int,
    align: int,
)
    requires
        0 <= meta_size,
        crate::layout::fits(size, align),
        box_fits(meta_size, meta_align, size, align),
    ensures
        meta_size + HEADER_WORDS * word() <= value_offset(meta_size, align),
        value_offset(meta_size, align) % align == 0,
        (value_offset(meta_size, align) - HEADER_WORDS * word()) % word() == 0,
        value_offset(meta_size, align) > 0,
{
    broadcast use vstd::layout::layout_of_primitives;

    let head = crate::layout::round_up(meta_size, word()) + HEADER_WORDS * word();
    crate::layout::round_up_is_least_multiple(meta_size, word());
    crate::layout::round_up_is_least_multiple(head, align);
    vstd::layout::usize_size_pow2();
    let r = crate::layout::round_up(meta_size, word());
    let k = HEADER_WORDS as int;
    assert((r + k * word()) % word() == 0) by {
        vstd::arithmetic::div_mod::lemma_mod_multiples_vanish(k, r, word());
        assert(k * word() + r == r + k * word());
        assert(k * word() == word() * k) by (nonlinear_arith);
    }
    let at = value_offset(meta_size, align);
    if align <= word() {
        crate::layout::lemma_pow2_divides(align, word());
        crate::layout::lemma_divides_transitive(head, word(), align);
    } else {
        crate::layout::lemma_pow2_divides(word(), align);
        crate::layout::lemma_divides_transitive(at, align, word());
    }
    assert((at - k * word()) % word() == 0) by {
        vstd::arithmetic::div_mod::lemma_mod_multiples_vanish(-k, at, word());
        assert(word() * (-k) == -(k * word())) by (nonlinear_arith);
    }
}

/// The value of a box stands at a multiple of its alignment, wherever the block begins.
pub proof fn value_is_aligned(brk: int, meta_size: int, meta_align: int, size: int, align: int)
    requires
        0 <= brk,
        0 <= meta_size,
        crate::layout::fits(size, align),
        box_fits(meta_size, meta_align, size, align),
    ensures
        ({
            let block = crate::layout::max(crate::layout::max(meta_align, word()), align);
            (crate::layout::round_up(brk, block) + value_offset(meta_size, align)) % align == 0
        }),
{
    let block = crate::layout::max(crate::layout::max(meta_align, word()), align);
    let base = crate::layout::round_up(brk, block);
    let offset = value_offset(meta_size, align);
    box_parts_are_disjoint_and_aligned(meta_size, meta_align, size, align);
    crate::layout::round_up_is_least_multiple(brk, block);
    crate::layout::lemma_pow2_divides(align, block);
    crate::layout::lemma_divides_transitive(base, block, align);
    vstd::arithmetic::div_mod::lemma_add_mod_noop(base, offset, align);
    vstd::arithmetic::div_mod::lemma_small_mod(0, align as nat);
}

} // verus!
