//! Flag bits kept in the low bits of an aligned word.

use vstd::prelude::*;

verus! {

/// The alignment of a word that carries tags: its low four bits are free.
pub const TAG_ALIGN: usize = 16;

/// Clears every tag bit, leaving the aligned word.
pub fn untag(tagged: usize) -> (word: usize)
    ensures
        word == tagged & !0xfusize,
        word % TAG_ALIGN == 0,
        word <= tagged,
        tagged - word < TAG_ALIGN,
{
    proof {
        assert((tagged & !0xfusize) % 16 == 0) by (bit_vector);
        assert((tagged & !0xfusize) <= tagged) by (bit_vector);
        assert(tagged - (tagged & !0xfusize) < 16) by (bit_vector);
    }
    tagged & !(TAG_ALIGN - 1)
}

/// Reads the tag bits selected by `MASK`.
pub fn get<const MASK: usize>(tagged: usize) -> (tag: usize)
    requires
        MASK < TAG_ALIGN,
    ensures
        tag == tagged & MASK,
{
    tagged & MASK
}

/// Replaces the tag bits selected by `MASK` with those of `tag`.
pub fn set<const MASK: usize>(word: &mut usize, tag: usize)
    requires
        MASK < TAG_ALIGN,
    ensures
        *final(word) == (*old(word) & !MASK) | (tag & MASK),
{
    *word = (*word & !MASK) | (tag & MASK);
}

/// Sets or clears all the tag bits selected by `MASK`.
pub fn set_bool<const MASK: usize>(word: &mut usize, value: bool)
    requires
        MASK < TAG_ALIGN,
    ensures
        *final(word) == (*old(word) & !MASK) | (if value {
            MASK
        } else {
            0
        }),
{
    let bits: usize = if value {
        MASK
    } else {
        0
    };
    *word = (*word & !MASK) | bits;
}

/// Reading back a tag gives what was written, and no bit outside the mask moved.
pub proof fn get_after_set(word: usize, mask: usize, tag: usize)
    ensures
        ((word & !mask) | (tag & mask)) & mask == tag & mask,
        ((word & !mask) | (tag & mask)) & !mask == word & !mask,
{
    assert(((word & !mask) | (tag & mask)) & mask == tag & mask) by (bit_vector);
    assert(((word & !mask) | (tag & mask)) & !mask == word & !mask) by (bit_vector);
}

} // verus!
