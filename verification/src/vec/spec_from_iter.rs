//! Vectors and rows from iterators.

use crate::collect::Collect;
use crate::gc::Unique;
use crate::layout::Layout;
use crate::mutation::Mutation;
use crate::state::State;
use crate::types::{GcBox, GcColor, Meta};
use crate::vec::desugared;
use crate::vec::spec_extend;
use crate::vec::Vec;
use vstd::prelude::*;
use vstd::std_specs::iter::IteratorSpec;

verus! {

/// Whether an iterator told the number of its items exactly: as the lower and as the upper bound.
pub open spec fn is_exact(bounds: (usize, Option<usize>), n: nat) -> bool {
    bounds.0 == n && bounds.1 == Some(bounds.0)
}

/// No items are guessed to follow any of `n` items.
pub open spec fn no_guesses(n: nat) -> Seq<usize> {
    Seq::new(n, |i: int| 0usize)
}

/// The guesses by which a vector of `n` items grows: those that were made if there is room for
/// them, none otherwise.
pub open spec fn usable<T, P: Collect>(s: State<P>, hints: Seq<usize>, n: nat) -> Seq<usize> {
    if desugared::can_collect::<T, P>(s, hints, n) {
        hints
    } else {
        no_guesses(n)
    }
}

/// Whether there is room for a vector of `n` items, whether or not their number is told.
pub open spec fn room_for_items<T, P: Collect>(s: State<P>, n: nat) -> bool {
    &&& n <= usize::MAX
    &&& crate::vec::room_for_buffer::<T, P>(s, crate::vec::first_cap::<T>(n as usize) as int)
    &&& desugared::can_collect::<T, P>(s, no_guesses(n), n)
}

/// Makes a row of guesses that no items follow.
fn make_no_guesses(n: usize) -> (hints: std::vec::Vec<usize>)
    ensures
        hints@ == no_guesses(n as nat),
{
    let mut hints: std::vec::Vec<usize> = std::vec::Vec::new();
    while hints.len() < n
        invariant
            hints@.len() <= n,
            hints@ == no_guesses(hints@.len()),
        decreases n - hints@.len(),
    {
        hints.push(0);
        assert(hints@ =~= no_guesses(hints@.len()));
    }
    hints
}

/// Runs an iterator to its end. Keeps the items, and how many it guesses to follow each of them.
pub(crate) fn gather<I: Iterator>(iter: I) -> (r: (
    std::vec::Vec<I::Item>,
    std::vec::Vec<usize>,
))
    requires
        iter.obeys_prophetic_iter_laws(),
        iter.decrease() is Some,
    ensures
        r.0@ == iter.remaining(),
        r.1@.len() == r.0@.len(),
{
    let mut iter = iter;
    let mut items: std::vec::Vec<I::Item> = std::vec::Vec::new();
    let mut hints: std::vec::Vec<usize> = std::vec::Vec::new();
    let ghost all = iter.remaining();
    assert(items@ + all =~= all);
    loop
        invariant
            iter.obeys_prophetic_iter_laws(),
            iter.decrease() is Some,
            items@ + iter.remaining() == all,
            hints@.len() == items@.len(),
        ensures
            items@ == all,
            hints@.len() == items@.len(),
        decreases iter.decrease()->0,
    {
        let ghost left = iter.remaining();
        match iter.next() {
            None => {
                assert(items@ + left =~= items@);
                break;
            },
            Some(item) => {
                let ghost before = items@;
                let (lower, _) = spec_extend::size_hint(&iter);
                items.push(item);
                hints.push(lower);
                assert(before + left =~= items@ + left.drop_first());
            },
        }
    }
    (items, hints)
}

impl<T> Vec<T> {
    /// Whether this is a new vector of `n` items and `t` the state `s` with it: with room for just
    /// these if their number was told exactly, growing by the guesses otherwise.
    pub open spec fn collected<P: Collect>(
        &self,
        s: State<P>,
        t: State<P>,
        bounds: (usize, Option<usize>),
        hints: Seq<usize>,
        n: nat,
    ) -> bool {
        if is_exact(bounds, n) {
            &&& self.cap == crate::vec::first_cap::<T>(n as usize)
            &&& crate::vec::new_buffer::<T, P>(s, t, self.buf.ptr, self.cap as int)
        } else {
            let used = usable::<T, P>(s, hints, n);
            &&& self.cap == desugared::collected_cap::<T>(used, n)
            &&& desugared::collected::<T, P>(s, t, used, n, self.buf.ptr)
        }
    }

    /// Makes a vector of the items that an iterator gave. `bounds` is what it told of their number
    /// before the first, `hints` the lower bound that it gave after each of them.
    pub fn collect_hinted<P: Collect>(
        mc: &mut Mutation<P>,
        items: std::vec::Vec<T>,
        bounds: (usize, Option<usize>),
        hints: &[usize],
    ) -> (r: Vec<T>)
        requires
            old(mc).wf(),
            hints@.len() == items@.len(),
            if is_exact(bounds, items@.len()) {
                crate::vec::room_for_buffer::<T, P>(
                    old(mc)@,
                    crate::vec::first_cap::<T>(items@.len() as usize) as int,
                )
            } else {
                desugared::can_collect::<T, P>(
                    old(mc)@,
                    usable::<T, P>(old(mc)@, hints@, items@.len()),
                    items@.len(),
                )
            },
        ensures
            final(mc).wf(),
            r.stands_in(final(mc)@),
            r@ == items@,
            r.collected(old(mc)@, final(mc)@, bounds, hints@, items@.len()),
            !is_exact(bounds, items@.len()) ==> final(mc)@.heap.brk == desugared::collected_brk::<
                T,
                P,
            >(old(mc)@, usable::<T, P>(old(mc)@, hints@, items@.len()), items@.len()),
            !old(mc)@.heap.has(r.buf.ptr),
            final(mc)@.heap.color(r.buf.ptr) == GcColor::White,
            desugared::only_adds(old(mc)@, final(mc)@),
    {
        let n: usize = items.len();
        let (lower, upper) = bounds;
        let told: bool = match upper {
            Some(upper) => lower == n && upper == n,
            None => false,
        };
        if told {
            let mut vec: Vec<T> = Vec::with_capacity(mc, n);
            vec.elems = items;
            proof {
                desugared::lemma_allocation_only_adds::<T, P>(
                    old(mc)@,
                    old(mc)@,
                    mc@,
                    vec.buf.ptr,
                    vec.cap as int,
                );
            }
            return vec;
        }
        let none: std::vec::Vec<usize> = make_no_guesses(n);
        let used: &[usize] = if Vec::<T>::can_collect_desugared(mc, hints, n) {
            hints
        } else {
            none.as_slice()
        };
        let vec = Vec::collect_desugared(mc, items.into_iter(), used);
        proof {
            desugared::lemma_collected_is_new::<T, P>(
                old(mc)@,
                mc@,
                used@,
                n as nat,
                vec.buf.ptr,
            );
        }
        vec
    }

    /// Whether there is room for a vector of `n` items, whether or not their number is told.
    pub fn has_room_for_items<P: Collect>(mc: &Mutation<P>, n: usize) -> (b: bool)
        ensures
            b == room_for_items::<T, P>(mc@, n as nat),
    {
        let cap: usize = if core::mem::size_of::<T>() == 0 {
            usize::MAX
        } else {
            n
        };
        match Layout::array::<T>(cap) {
            Ok(layout) => {
                let none: std::vec::Vec<usize> = make_no_guesses(n);
                mc.has_room::<usize>(layout) && Vec::<T>::can_collect_desugared(
                    mc,
                    none.as_slice(),
                    n,
                )
            },
            Err(_) => false,
        }
    }
}

/// A collection that can be made from an iterator.
pub trait SpecFromIter<P: Collect, T, I: Iterator<Item = T>>: Sized {
    /// Whether there is room for a collection of `n` items.
    spec fn room_for(s: State<P>, n: nat) -> bool;

    /// Whether `t` is the state `s` with the new collection, which holds `items`.
    spec fn made(self, s: State<P>, t: State<P>, items: Seq<T>) -> bool;

    fn from_iter(mc: &mut Mutation<P>, iter: I) -> (r: Self)
        requires
            old(mc).wf(),
            iter.obeys_prophetic_iter_laws(),
            iter.decrease() is Some,
            Self::room_for(old(mc)@, iter.remaining().len()),
        ensures
            final(mc).wf(),
            r.made(old(mc)@, final(mc)@, iter.remaining()),
    ;
}

impl<P: Collect, T, I: Iterator<Item = T>> SpecFromIter<P, T, I> for Vec<T> {
    open spec fn room_for(s: State<P>, n: nat) -> bool {
        room_for_items::<T, P>(s, n)
    }

    open spec fn made(self, s: State<P>, t: State<P>, items: Seq<T>) -> bool {
        &&& self.stands_in(t)
        &&& self@ == items
        &&& exists|bounds: (usize, Option<usize>), hints: Seq<usize>|
            hints.len() == items.len() && #[trigger] self.collected(
                s,
                t,
                bounds,
                hints,
                items.len(),
            )
        &&& !s.heap.has(self.buf.ptr)
        &&& desugared::only_adds(s, t)
    }

    fn from_iter(mc: &mut Mutation<P>, iter: I) -> (r: Vec<T>) {
        let bounds = spec_extend::size_hint(&iter);
        let (items, hints) = gather(iter);
        Vec::collect_hinted(mc, items, bounds, hints.as_slice())
    }
}

/// Whether there is room for a row of `n` items whose number is guessed: for a vector of them, and
/// for the row if the vector has excess capacity.
pub open spec fn can_collect_row<T: Collect>(s: State<T>, hints: Seq<usize>, n: nat) -> bool {
    &&& desugared::can_collect::<T, T>(s, hints, n)
    &&& has_excess::<T>(hints, n) ==> s.with_brk(
        desugared::collected_brk::<T, T>(s, hints, n) as usize,
    ).room_for_row(n)
}

/// Whether a vector of `n` items whose number was guessed has capacity to be discarded.
pub open spec fn has_excess<T>(hints: Seq<usize>, n: nat) -> bool {
    n < desugared::collected_cap::<T>(hints, n) && vstd::layout::size_of::<T>() > 0
}

/// The guesses by which the vector for a row of `n` items grows: those that were made if there is
/// room for them, none otherwise.
pub open spec fn usable_for_row<T: Collect>(s: State<T>, hints: Seq<usize>, n: nat) -> Seq<usize> {
    if can_collect_row(s, hints, n) {
        hints
    } else {
        no_guesses(n)
    }
}

/// Whether there is room for a row of `n` items, whether or not their number is told.
pub open spec fn room_for_item_row<T: Collect>(s: State<T>, n: nat) -> bool {
    &&& n <= usize::MAX
    &&& s.room_for_row(n)
    &&& can_collect_row(s, no_guesses(n), n)
}

/// Whether `t` is the state `s` with a new row at `b`: at once if the number of its items was told
/// exactly; otherwise in the buffer of a vector that grew by the guesses, or moved out of it to
/// discard excess capacity.
pub open spec fn row_collected<T: Collect>(
    s: State<T>,
    t: State<T>,
    b: GcBox,
    row: Seq<T>,
    bounds: (usize, Option<usize>),
    hints: Seq<usize>,
) -> bool {
    if is_exact(bounds, row.len()) {
        s.new_row(t, b, row)
    } else {
        let used = usable_for_row(s, hints, row.len());
        exists|m: State<T>, buf: GcBox|
            #[trigger] desugared::collected::<T, T>(s, m, used, row.len(), buf) && if has_excess::<
                T,
            >(used, row.len()) {
                m.new_row(t, b, row)
            } else {
                b == buf && t == m.filled(b, row)
            }
    }
}

/// Whether `t` is the state `s` with a new box at `b` that holds a row of values, and perhaps others
/// besides.
pub open spec fn holds_new_row<T: Collect>(s: State<T>, t: State<T>, b: GcBox, row: Seq<T>) -> bool {
    &&& t.holds_row(b)
    &&& t.row(b) == row
    &&& t.heap.boxes[b].meta == Meta::Len(row.len() as usize)
    &&& !s.heap.has(b)
    &&& desugared::only_adds(s, t)
}

impl<T: Collect> Unique<T, usize> {
    /// Makes a row of the items that an iterator gave. `bounds` is what it told of their number
    /// before the first, `hints` the lower bound that it gave after each of them.
    pub fn collect_hinted(
        mc: &mut Mutation<T>,
        items: std::vec::Vec<T>,
        bounds: (usize, Option<usize>),
        hints: &[usize],
    ) -> (r: Unique<T, usize>)
        requires
            old(mc).wf(),
            hints@.len() == items@.len(),
            if is_exact(bounds, items@.len()) {
                old(mc)@.room_for_row(items@.len())
            } else {
                can_collect_row(
                    old(mc)@,
                    usable_for_row(old(mc)@, hints@, items@.len()),
                    items@.len(),
                )
            },
        ensures
            final(mc).wf(),
            row_collected(old(mc)@, final(mc)@, r.ptr, items@, bounds, hints@),
            holds_new_row(old(mc)@, final(mc)@, r.ptr, items@),
    {
        let n: usize = items.len();
        let ghost s = mc@;
        let ghost row = items@;
        let none: std::vec::Vec<usize> = make_no_guesses(n);
        let used: &[usize] = if Unique::<T, usize>::has_room_for_guesses(mc, hints, n) {
            hints
        } else {
            none.as_slice()
        };
        proof {
            crate::vec::lemma_first_cap_takes_no_more::<T>(n);
        }
        let vec: Vec<T> = Vec::collect_hinted(mc, items, bounds, used);
        let ghost m = mc@;
        let ghost buf = vec.buf.ptr;
        proof {
            if !is_exact(bounds, row.len()) {
                desugared::lemma_room_by_brk::<T, T>(s.with_brk(m.heap.brk), m, n as int);
            }
        }
        let r = vec.into_unique_slice(mc);
        proof {
            if is_exact(bounds, row.len()) {
                crate::vec::lemma_filled_buffer(s, m, r.ptr, row);
            } else {
                assert(desugared::collected::<T, T>(s, m, used@, row.len(), buf));
            }
            lemma_row_is_new(s, m, mc@, buf, r.ptr, row);
        }
        r
    }

    /// Whether there is room for a row of `n` items whose number is guessed.
    fn has_room_for_guesses(mc: &Mutation<T>, hints: &[usize], n: usize) -> (b: bool)
        requires
            n <= hints@.len(),
        ensures
            b == can_collect_row(mc@, hints@, n as nat),
    {
        match Vec::<T>::collected_end(mc, hints, n) {
            Some((cap, end)) => if n < cap && core::mem::size_of::<T>() > 0 {
                match Layout::array::<T>(n) {
                    Ok(layout) => mc.end_of_box::<usize>(end, layout).is_some(),
                    Err(_) => false,
                }
            } else {
                true
            },
            None => false,
        }
    }

    /// Whether there is room for a row of `n` items, whether or not their number is told.
    pub fn has_room_for_items(mc: &Mutation<T>, n: usize) -> (b: bool)
        ensures
            b == room_for_item_row(mc@, n as nat),
    {
        let none: std::vec::Vec<usize> = make_no_guesses(n);
        mc.room_for_row(n) && Unique::<T, usize>::has_room_for_guesses(mc, none.as_slice(), n)
    }

    /// Collects the items of an iterator into a new box.
    pub fn collect<I: Iterator<Item = T>>(mc: &mut Mutation<T>, iter: I) -> (r: Unique<T, usize>)
        requires
            old(mc).wf(),
            iter.obeys_prophetic_iter_laws(),
            iter.decrease() is Some,
            room_for_item_row(old(mc)@, iter.remaining().len()),
        ensures
            final(mc).wf(),
            holds_new_row(old(mc)@, final(mc)@, r.ptr, iter.remaining()),
            exists|bounds: (usize, Option<usize>), hints: Seq<usize>|
                hints.len() == iter.remaining().len() && #[trigger] row_collected(
                    old(mc)@,
                    final(mc)@,
                    r.ptr,
                    iter.remaining(),
                    bounds,
                    hints,
                ),
    {
        let bounds = spec_extend::size_hint(&iter);
        let (items, hints) = gather(iter);
        Unique::collect_hinted(mc, items, bounds, hints.as_slice())
    }
}

/// A row that fills a new buffer, or was moved out of one, is new.
proof fn lemma_row_is_new<T: Collect>(
    s: State<T>,
    m: State<T>,
    t: State<T>,
    buf: GcBox,
    b: GcBox,
    row: Seq<T>,
)
    requires
        desugared::only_adds(s, m),
        !s.heap.has(buf),
        m.heap.color(buf) == GcColor::White,
        m.new_row(t, b, row) || b == buf && t == m.filled(b, row),
    ensures
        holds_new_row(s, t, b, row),
{
    assert(!s.heap.has(b)) by {
        if s.heap.has(b) {
            assert(m.heap.has(b));
        }
    }
    assert forall|x: GcBox| #[trigger] s.heap.has(x) implies {
        &&& t.heap.has(x)
        &&& t.heap.boxes[x] == s.heap.boxes[x]
        &&& t.values.contains_key(x) == s.values.contains_key(x)
        &&& t.values[x] == s.values[x]
    } by {
        assert(m.heap.has(x));
        assert(x != b);
    }
}

} // verus!
