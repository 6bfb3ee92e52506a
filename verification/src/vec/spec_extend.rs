//! Extending a vector by the items of an iterator.

use crate::collect::Collect;
use crate::layout::{self, Layout};
use crate::mutation::Mutation;
use crate::state::State;
use crate::types::{self, GcBox};
use crate::vec::desugared;
use crate::vec::Vec;
use vstd::prelude::*;
use vstd::std_specs::iter::IteratorSpec;

verus! {

/// [`Iterator::size_hint`] gives a lower and an upper bound of the number of items that are left.
///
/// Nothing is claimed of them: an iterator may guess wrong.
#[verifier::external_body]
pub(crate) fn size_hint<I: Iterator>(iter: &I) -> (hint: (usize, Option<usize>)) {
    iter.size_hint()
}

/// Whether no guess exceeds the number of items that follow, `n` items being appended in all.
pub open spec fn cautious(hints: Seq<usize>, n: nat) -> bool {
    &&& hints.len() == n
    &&& forall|k: int| 0 <= k < n ==> #[trigger] hints[k] <= n - 1 - k
}

/// Whether there is room for `n` more items, however few of them are guessed to follow each.
pub open spec fn room_to_extend<T, P: Collect>(s: State<P>, len: int, cap: int, n: nat) -> bool {
    forall|hints: Seq<usize>| #[trigger]
        cautious(hints, n) ==> desugared::can_extend::<T, P>(s, len, cap, hints, n)
}

impl<T> Vec<T> {
    /// Whether `new` is this vector after `n` items were appended, the buffer growing by the
    /// guesses, and `t` the state after that.
    pub open spec fn extended<P: Collect>(
        &self,
        new: Vec<T>,
        s: State<P>,
        t: State<P>,
        hints: Seq<usize>,
        n: nat,
    ) -> bool {
        &&& new.cap == desugared::cap_after::<T>(self@.len() as int, self.cap as int, hints, n)
        &&& desugared::buffers_added::<T, P>(
            s,
            self.buf.ptr,
            t,
            new.buf.ptr,
            desugared::growths::<T>(self@.len() as int, self.cap as int, hints, n),
        )
        &&& desugared::only_adds(s, t)
    }

    /// Appends an item that was taken from an iterator. A full buffer grows by the item and as many
    /// as the iterator guesses to follow, or by as few as possible if there is no room for these.
    fn push_guessed<P: Collect, I: Iterator>(
        &mut self,
        mc: &mut Mutation<P>,
        element: T,
        rest: &I,
    ) -> (hint: Ghost<usize>)
        requires
            old(mc).wf(),
            old(self).stands_in(old(mc)@),
            old(self)@.len() == old(self).cap ==> desugared::can_grow::<T, P>(
                old(mc)@,
                old(self).cap as int,
                0,
            ),
        ensures
            final(mc).wf(),
            final(self).stands_in(final(mc)@),
            final(self)@ == old(self)@.push(element),
            if old(self)@.len() == old(self).cap {
                &&& desugared::can_grow::<T, P>(old(mc)@, old(self).cap as int, hint@)
                &&& old(self).moved(
                    *final(self),
                    old(mc)@,
                    final(mc)@,
                    desugared::grown::<T>(old(self).cap as int, hint@),
                )
            } else {
                &&& hint@ == 0
                &&& final(mc)@ == old(mc)@
                &&& final(self).buf == old(self).buf
                &&& final(self).cap == old(self).cap
                &&& old(self).keeps_places(*final(self), (old(self)@.len() + 1) as int)
            },
            old(self).spare@.len() == 0 ==> final(self).spare@.len() == 0,
    {
        let mut hint: usize = 0;
        if self.len() == self.capacity() {
            let (lower, _) = size_hint(rest);
            proof {
                assert(mc@.with_brk(mc@.heap.brk) =~= mc@);
            }
            if desugared::grown_end::<T, P>(mc, mc.brk(), self.capacity(), lower).is_some() {
                hint = lower;
            }
        }
        self.push_hinted(mc, element, hint);
        Ghost(hint)
    }

    /// Appends the items of an iterator one by one. Whenever the buffer is full it grows by the
    /// item at hand and as many as the iterator guesses to follow. What was taken from the iterator
    /// stays even if it breaks off.
    pub fn extend<P: Collect, I: Iterator<Item = T>>(&mut self, mc: &mut Mutation<P>, iter: I)
        requires
            old(mc).wf(),
            old(self).stands_in(old(mc)@),
            iter.obeys_prophetic_iter_laws(),
            iter.decrease() is Some,
            room_to_extend::<T, P>(
                old(mc)@,
                old(self)@.len() as int,
                old(self).cap as int,
                iter.remaining().len(),
            ),
        ensures
            final(mc).wf(),
            final(self).stands_in(final(mc)@),
            final(self)@ == old(self)@ + iter.remaining(),
            exists|hints: Seq<usize>|
                hints.len() == iter.remaining().len() && #[trigger] old(self).extended(
                    *final(self),
                    old(mc)@,
                    final(mc)@,
                    hints,
                    iter.remaining().len(),
                ),
            if old(self)@.len() + iter.remaining().len() <= old(self).cap {
                &&& final(mc)@ == old(mc)@
                &&& final(self).buf == old(self).buf
                &&& final(self).cap == old(self).cap
                &&& old(self).keeps_places(
                    *final(self),
                    (old(self)@.len() + iter.remaining().len()) as int,
                )
            } else {
                final(self).spare@.len() == 0
            },
    {
        let mut iter = iter;
        let ghost all = iter.remaining();
        let ghost n = all.len();
        let ghost s = mc@;
        let ghost was = *self;
        let ghost mut hints: Seq<usize> = Seq::empty();
        let ghost mut i: int = 0;
        proof {
            assert(was@ + all.take(0) =~= was@);
            assert(all.skip(0) =~= all);
            lemma_nothing_guessed::<T, P>(s, was, n);
        }
        loop
            invariant
                mc.wf(),
                self.stands_in(mc@),
                iter.obeys_prophetic_iter_laws(),
                iter.decrease() is Some,
                0 <= i <= n == all.len(),
                iter.remaining() == all.skip(i),
                self@ == was@ + all.take(i),
                guessed_so_far(s, was, n, hints, i as nat, mc@, *self),
                was.cap <= self.cap,
                if self.cap == was.cap {
                    was.keeps_places(*self, was@.len() + i)
                } else {
                    self.spare@.len() == 0
                },
            ensures
                i == n,
            decreases iter.decrease()->0,
        {
            let ghost left = iter.remaining();
            match iter.next() {
                None => {
                    assert(left.len() == n - i);
                    break;
                },
                Some(element) => {
                    proof {
                        assert(element == all[i]);
                        assert(left.drop_first() =~= all.skip(i + 1));
                        lemma_may_push(s, was, n, hints, i as nat, mc@, *self);
                    }
                    let ghost before = mc@;
                    let ghost full = *self;
                    let hint = self.push_guessed(mc, element, &iter);
                    proof {
                        lemma_pushed(
                            s,
                            was,
                            n,
                            hints,
                            i as nat,
                            before,
                            full,
                            hint@,
                            mc@,
                            *self,
                        );
                        assert(self@ =~= was@ + all.take(i + 1));
                        hints = hints.push(hint@);
                        i = i + 1;
                    }
                },
            }
        }
        proof {
            assert(all.take(i) =~= all);
            lemma_all_guessed(s, was, n, hints, mc@, *self);
        }
    }

    /// Appends clones of the items of an iterator one by one, as [`Vec::extend`] does with the
    /// items themselves.
    pub fn extend_ref<'a, P: Collect, I: Iterator<Item = &'a T>>(
        &mut self,
        mc: &mut Mutation<P>,
        iter: I,
    ) where T: Clone + 'a
        requires
            old(mc).wf(),
            old(self).stands_in(old(mc)@),
            iter.obeys_prophetic_iter_laws(),
            iter.decrease() is Some,
            room_to_extend::<T, P>(
                old(mc)@,
                old(self)@.len() as int,
                old(self).cap as int,
                iter.remaining().len(),
            ),
        ensures
            final(mc).wf(),
            final(self).stands_in(final(mc)@),
            final(self)@.len() == old(self)@.len() + iter.remaining().len(),
            forall|i: int| 0 <= i < old(self)@.len() ==> #[trigger] final(self)@[i] == old(self)@[i],
            forall|i: int|
                0 <= i < iter.remaining().len() ==> #[trigger] cloned(
                    *iter.remaining()[i],
                    final(self)@[old(self)@.len() + i],
                ),
            exists|hints: Seq<usize>|
                hints.len() == iter.remaining().len() && #[trigger] old(self).extended(
                    *final(self),
                    old(mc)@,
                    final(mc)@,
                    hints,
                    iter.remaining().len(),
                ),
            if old(self)@.len() + iter.remaining().len() <= old(self).cap {
                &&& final(mc)@ == old(mc)@
                &&& final(self).buf == old(self).buf
                &&& final(self).cap == old(self).cap
                &&& old(self).keeps_places(
                    *final(self),
                    (old(self)@.len() + iter.remaining().len()) as int,
                )
            } else {
                final(self).spare@.len() == 0
            },
    {
        let mut iter = iter;
        let ghost all = iter.remaining();
        let ghost n = all.len();
        let ghost len = self@.len() as int;
        let ghost s = mc@;
        let ghost was = *self;
        let ghost mut hints: Seq<usize> = Seq::empty();
        let ghost mut i: int = 0;
        proof {
            assert(all.skip(0) =~= all);
            lemma_nothing_guessed::<T, P>(s, was, n);
        }
        loop
            invariant
                mc.wf(),
                self.stands_in(mc@),
                iter.obeys_prophetic_iter_laws(),
                iter.decrease() is Some,
                0 <= i <= n == all.len(),
                iter.remaining() == all.skip(i),
                len == was@.len(),
                self@.len() == len + i,
                forall|j: int| 0 <= j < len ==> #[trigger] self@[j] == was@[j],
                forall|j: int| 0 <= j < i ==> #[trigger] cloned(*all[j], self@[len + j]),
                guessed_so_far(s, was, n, hints, i as nat, mc@, *self),
                was.cap <= self.cap,
                if self.cap == was.cap {
                    was.keeps_places(*self, was@.len() + i)
                } else {
                    self.spare@.len() == 0
                },
            ensures
                i == n,
            decreases iter.decrease()->0,
        {
            let ghost left = iter.remaining();
            match iter.next() {
                None => {
                    assert(left.len() == n - i);
                    break;
                },
                Some(item) => {
                    proof {
                        assert(item == all[i]);
                        assert(left.drop_first() =~= all.skip(i + 1));
                        lemma_may_push(s, was, n, hints, i as nat, mc@, *self);
                    }
                    let ghost before = mc@;
                    let ghost full = *self;
                    let hint = self.push_guessed(mc, item.clone(), &iter);
                    proof {
                        lemma_pushed(
                            s,
                            was,
                            n,
                            hints,
                            i as nat,
                            before,
                            full,
                            hint@,
                            mc@,
                            *self,
                        );
                        assert forall|j: int| 0 <= j < len + i implies self@[j] == full@[j] by {}
                        assert forall|j: int| 0 <= j < i implies #[trigger] self@[len + j]
                            == full@[len + j] by {}
                        hints = hints.push(hint@);
                        i = i + 1;
                    }
                },
            }
        }
        proof {
            lemma_all_guessed(s, was, n, hints, mc@, *self);
        }
    }
}

/// What holds after `i` of `n` items: either no guess exceeded the number of items that follow, or
/// there is room for all of them.
#[verifier::opaque]
spec fn guessed_so_far<T, P: Collect>(
    s: State<P>,
    was: Vec<T>,
    n: nat,
    hints: Seq<usize>,
    i: nat,
    t: State<P>,
    vec: Vec<T>,
) -> bool {
    &&& hints.len() == i <= n
    &&& room_to_extend::<T, P>(s, was@.len() as int, was.cap as int, n)
    &&& desugared::so_far(
        s,
        was.buf.ptr,
        was@.len() as int,
        was.cap as int,
        hints,
        i,
        t,
        vec,
    )
    &&& (forall|k: int| 0 <= k < i ==> #[trigger] hints[k] <= n - 1 - k) || vec.cap >= was@.len()
        + n
}

proof fn lemma_nothing_guessed<T, P: Collect>(s: State<P>, vec: Vec<T>, n: nat)
    requires
        room_to_extend::<T, P>(s, vec@.len() as int, vec.cap as int, n),
    ensures
        guessed_so_far(s, vec, n, Seq::empty(), 0, s, vec),
{
    reveal(guessed_so_far);
    reveal(desugared::so_far);
    desugared::no_buffers_added::<T, P>(s, vec.buf.ptr);
}

/// There is room for the next item.
proof fn lemma_may_push<T, P: Collect>(
    s: State<P>,
    was: Vec<T>,
    n: nat,
    hints: Seq<usize>,
    i: nat,
    t: State<P>,
    vec: Vec<T>,
)
    requires
        guessed_so_far(s, was, n, hints, i, t, vec),
        i < n,
        vec@.len() == was@.len() + i,
    ensures
        vec@.len() == vec.cap ==> desugared::can_grow::<T, P>(t, vec.cap as int, 0),
{
    reveal(guessed_so_far);
    reveal(desugared::so_far);
    if vec@.len() == vec.cap {
        let len = was@.len() as int;
        let cap = was.cap as int;
        let full = Seq::new(
            n,
            |k: int|
                if k < i {
                    hints[k]
                } else {
                    0usize
                },
        );
        assert(cautious(full, n));
        desugared::lemma_by_first_hints::<T, P>(s, len, cap, hints, full, i);
        assert(len + i == desugared::cap_after::<T>(len, cap, full, i));
        assert(desugared::can_extend::<T, P>(s, len, cap, full, n));
        desugared::lemma_room_by_brk::<T, P>(
            s.with_brk(t.heap.brk),
            t,
            desugared::grown::<T>(vec.cap as int, 0),
        );
    }
}

/// What holds after an item holds after the next.
proof fn lemma_pushed<T, P: Collect>(
    s: State<P>,
    was: Vec<T>,
    n: nat,
    hints: Seq<usize>,
    i: nat,
    m: State<P>,
    full: Vec<T>,
    hint: usize,
    t: State<P>,
    vec: Vec<T>,
)
    requires
        guessed_so_far(s, was, n, hints, i, m, full),
        i < n,
        full@.len() == was@.len() + i,
        if full@.len() == full.cap {
            &&& desugared::can_grow::<T, P>(m, full.cap as int, hint)
            &&& full.moved(vec, m, t, desugared::grown::<T>(full.cap as int, hint))
        } else {
            hint == 0 && t == m && vec.buf == full.buf && vec.cap == full.cap
        },
    ensures
        guessed_so_far(s, was, n, hints.push(hint), i + 1, t, vec),
{
    reveal(guessed_so_far);
    let len = was@.len() as int;
    let cap = was.cap as int;
    let longer = hints.push(hint);
    assert(desugared::so_far(s, was.buf.ptr, len, cap, longer, i, m, full)) by {
        reveal(desugared::so_far);
        desugared::lemma_by_first_hints::<T, P>(s, len, cap, hints, longer, i);
    }
    desugared::lemma_so_far(s, was.buf.ptr, len, cap, longer, i, m, full, t, vec);
}

/// What holds after all items.
proof fn lemma_all_guessed<T, P: Collect>(
    s: State<P>,
    was: Vec<T>,
    n: nat,
    hints: Seq<usize>,
    t: State<P>,
    vec: Vec<T>,
)
    requires
        guessed_so_far(s, was, n, hints, n, t, vec),
    ensures
        hints.len() == n,
        was.extended(vec, s, t, hints, n),
        was@.len() + n <= was.cap ==> t == s && vec.buf == was.buf && vec.cap == was.cap,
{
    reveal(guessed_so_far);
    reveal(desugared::so_far);
    if was@.len() + n <= was.cap {
        desugared::items_that_fit_add_no_buffer::<T, P>(
            s,
            was.buf.ptr,
            t,
            vec.buf.ptr,
            was@.len() as int,
            was.cap as int,
            hints,
            n,
        );
    }
}

/// The greatest capacity that a buffer grows to while it comes to hold `total` items and no guess
/// exceeds the number of items that follow.
pub open spec fn most_cap<T>(total: int) -> int {
    layout::max(
        2 * total,
        crate::vec::spec_min_non_zero_cap(vstd::layout::size_of::<T>()) as int,
    )
}

/// What each place of the capacity costs at most, with all the buffers that were left behind.
pub open spec fn place_cost<T>() -> int {
    let align = vstd::layout::align_of::<T>() as int;
    crate::state::box_align::<usize>(align) + types::value_offset(
        vstd::layout::size_of::<usize>() as int,
        align,
    ) + 2 * vstd::layout::size_of::<T>()
}

/// Whether there is more than enough room for `n` more items, as far as that can be told without
/// knowing the guesses.
pub open spec fn plenty_of_room<T, P: Collect>(s: State<P>, len: int, cap: int, n: nat) -> bool {
    let most = most_cap::<T>(len + n);
    let end = s.heap.brk + most * place_cost::<T>();
    len + n <= cap || {
        &&& most <= usize::MAX
        &&& end <= usize::MAX
        &&& crate::vec::room_for_buffer::<T, P>(s.with_brk(end as usize), most)
    }
}

/// Room for a buffer is room for a smaller one that begins earlier.
proof fn lemma_less_room<T, P: Collect>(s: State<P>, a: usize, b: usize, cap: int, most: int)
    requires
        a <= b,
        0 <= cap <= most,
        crate::vec::room_for_buffer::<T, P>(s.with_brk(b), most),
    ensures
        crate::vec::room_for_buffer::<T, P>(s.with_brk(a), cap),
        crate::state::box_align::<usize>(vstd::layout::align_of::<T>() as int) > 0,
{
    let size = vstd::layout::size_of::<T>() as int;
    let align = vstd::layout::align_of::<T>() as int;
    let whole = crate::state::box_align::<usize>(align);
    assert(0 <= cap * size <= most * size) by (nonlinear_arith)
        requires
            0 <= cap <= most,
            0 <= size,
    ;
    layout::round_up_is_least_multiple(a as int, whole);
    layout::round_up_is_least_multiple(b as int, whole);
    assert(layout::round_up(b as int, whole) % whole == 0);
}

/// A buffer that at least doubles pays for itself and for its box by the places that it gains.
proof fn lemma_growth_pays(cap: int, new: int, size: int, over: int)
    requires
        0 <= cap,
        2 * cap <= new,
        cap < new,
        0 <= size,
        0 <= over,
    ensures
        over + new * size <= (new - cap) * (over + 2 * size),
{
    assert(over <= (new - cap) * over) by (nonlinear_arith)
        requires
            1 <= new - cap,
            0 <= over,
    ;
    assert(new * size <= (2 * (new - cap)) * size) by (nonlinear_arith)
        requires
            new <= 2 * (new - cap),
            0 <= size,
    ;
    assert((new - cap) * (over + 2 * size) == (new - cap) * over + (2 * (new - cap)) * size)
        by (nonlinear_arith);
}

/// How large the buffer and the part of the address range in use can become by `m` of `n` items.
#[verifier::spinoff_prover]
proof fn lemma_bounded<T, P: Collect>(
    s: State<P>,
    len: int,
    cap: int,
    hints: Seq<usize>,
    n: nat,
    m: nat,
)
    requires
        0 <= len <= cap < len + n,
        m <= n,
        cautious(hints, n),
        plenty_of_room::<T, P>(s, len, cap, n),
    ensures
        ({
            let now = desugared::cap_after::<T>(len, cap, hints, m);
            let brk = desugared::brk_after::<T, P>(s, len, cap, hints, m);
            &&& cap <= now <= most_cap::<T>(len + n)
            &&& len + m <= now
            &&& 0 <= brk <= s.heap.brk + (now - cap) * place_cost::<T>()
            &&& s.heap.brk + (now - cap) * place_cost::<T>() <= s.heap.brk + most_cap::<T>(len + n)
                * place_cost::<T>()
            &&& m < n && len + m == now ==> desugared::can_grow::<T, P>(
                s.with_brk(brk as usize),
                now,
                hints[m as int],
            )
        }),
    decreases m,
{
    let most = most_cap::<T>(len + n);
    let cost = place_cost::<T>();
    let size = vstd::layout::size_of::<T>() as int;
    let align = vstd::layout::align_of::<T>() as int;
    let whole = crate::state::box_align::<usize>(align);
    let offset = types::value_offset(vstd::layout::size_of::<usize>() as int, align);
    let end = (s.heap.brk + most * cost) as usize;
    lemma_less_room::<T, P>(s, 0, end, 0, most);
    lemma_offset_is_positive::<T, P>(s, end, most);
    let now = desugared::cap_after::<T>(len, cap, hints, m);
    let brk = desugared::brk_after::<T, P>(s, len, cap, hints, m);
    if m > 0 {
        let k = (m - 1) as nat;
        lemma_bounded::<T, P>(s, len, cap, hints, n, k);
        let before = desugared::cap_after::<T>(len, cap, hints, k);
        let from = desugared::brk_after::<T, P>(s, len, cap, hints, k);
        assert(hints[k as int] <= n - 1 - k);
        if len + k == before {
            lemma_growth_pays(before, now, size, whole + offset);
            layout::round_up_is_least_multiple(from, whole);
            assert((now - cap) * cost == (before - cap) * cost + (now - before) * cost)
                by (nonlinear_arith);
        }
    } else {
        assert((cap - cap) * cost == 0) by (nonlinear_arith);
    }
    assert((now - cap) * cost <= most * cost) by (nonlinear_arith)
        requires
            now - cap <= most,
            0 <= cost,
    ;
    if m < n && len + m == now {
        let hint = hints[m as int];
        assert(hint <= n - 1 - m);
        lemma_less_room::<T, P>(s, brk as usize, end, desugared::grown::<T>(now, hint), most);
    }
}

/// A value does not stand at the beginning of its box.
proof fn lemma_offset_is_positive<T, P: Collect>(s: State<P>, brk: usize, cap: int)
    requires
        crate::vec::room_for_buffer::<T, P>(s.with_brk(brk), cap),
    ensures
        0 < types::value_offset(
            vstd::layout::size_of::<usize>() as int,
            vstd::layout::align_of::<T>() as int,
        ),
{
    broadcast use vstd::layout::layout_of_primitives;

    let word = types::word();
    vstd::layout::usize_size_pow2();
    layout::round_up_is_least_multiple(word, word);
    layout::round_up_is_least_multiple(
        layout::round_up(word, word) + types::HEADER_WORDS * word,
        vstd::layout::align_of::<T>() as int,
    );
}

/// Where there is plenty of room there is room however few items are guessed to follow each.
pub proof fn plenty_is_enough<T, P: Collect>(s: State<P>, len: int, cap: int, n: nat)
    requires
        0 <= len <= cap,
        plenty_of_room::<T, P>(s, len, cap, n),
    ensures
        room_to_extend::<T, P>(s, len, cap, n),
{
    assert forall|hints: Seq<usize>| #[trigger] cautious(hints, n) implies desugared::can_extend::<
        T,
        P,
    >(s, len, cap, hints, n) by {
        assert forall|m: nat|
            m < n && len + m == #[trigger] desugared::cap_after::<T>(
                len,
                cap,
                hints,
                m,
            ) implies desugared::can_grow::<T, P>(
            s.with_brk(desugared::brk_after::<T, P>(s, len, cap, hints, m) as usize),
            len + m,
            hints[m as int],
        ) by {
            if len + n <= cap {
                desugared::items_that_fit_add_no_buffer::<T, P>(
                    s,
                    GcBox { addr: 0 },
                    s,
                    GcBox { addr: 0 },
                    len,
                    cap,
                    hints,
                    m,
                );
            } else {
                lemma_bounded::<T, P>(s, len, cap, hints, n, m);
            }
        }
    }
}

impl<T> Vec<T> {
    /// Whether there is more than enough room for `n` more items, however few of them are guessed
    /// to follow each.
    pub fn has_plenty_of_room<P: Collect>(&self, mc: &Mutation<P>, n: usize) -> (b: bool)
        requires
            self.wf(),
        ensures
            b == plenty_of_room::<T, P>(mc@, self@.len() as int, self.cap as int, n as nat),
            b ==> room_to_extend::<T, P>(mc@, self@.len() as int, self.cap as int, n as nat),
    {
        let b: bool = self.plenty(mc, n);
        proof {
            if b {
                plenty_is_enough::<T, P>(mc@, self@.len() as int, self.cap as int, n as nat);
            }
        }
        b
    }

    fn plenty<P: Collect>(&self, mc: &Mutation<P>, n: usize) -> (b: bool)
        requires
            self.wf(),
        ensures
            b == plenty_of_room::<T, P>(mc@, self@.len() as int, self.cap as int, n as nat),
    {
        let ghost s = mc@;
        let ghost cost = place_cost::<T>();
        let total: usize = match self.len().checked_add(n) {
            Some(total) => total,
            None => {
                return false;
            },
        };
        if total <= self.capacity() {
            return true;
        }
        let size: usize = core::mem::size_of::<T>();
        let least: usize = crate::vec::min_non_zero_cap(size);
        let double: usize = match total.checked_mul(2) {
            Some(double) => double,
            None => {
                return false;
            },
        };
        let most: usize = if double < least {
            least
        } else {
            double
        };
        let (row, empty) = match (Layout::array::<T>(most), Layout::array::<T>(0)) {
            (Ok(row), Ok(empty)) => (row, empty),
            _ => {
                proof {
                    lemma_no_plenty::<T, P>(s, self@.len() + n, most as int);
                }
                return false;
            },
        };
        let (whole, offset) = match types::box_layout::<usize>(empty) {
            Ok((whole, offset)) => (whole.align(), offset),
            Err(_) => {
                proof {
                    lemma_no_plenty::<T, P>(s, self@.len() + n, most as int);
                }
                return false;
            },
        };
        assert(whole + offset + 2 * size == cost);
        assert(most * cost >= cost) by (nonlinear_arith)
            requires
                most >= 1,
                cost >= 0,
        ;
        let cost: usize = match whole.checked_add(offset) {
            Some(over) => match size.checked_mul(2) {
                Some(twice) => match over.checked_add(twice) {
                    Some(cost) => cost,
                    None => {
                        return false;
                    },
                },
                None => {
                    return false;
                },
            },
            None => {
                return false;
            },
        };
        match most.checked_mul(cost) {
            Some(all) => match mc.brk().checked_add(all) {
                Some(end) => mc.end_of_box::<usize>(end, row).is_some(),
                None => false,
            },
            None => false,
        }
    }
}

/// Without a layout for a row of no elements there is none for a longer one.
proof fn lemma_no_plenty<T, P: Collect>(s: State<P>, total: int, most: int)
    requires
        most == most_cap::<T>(total),
        0 <= most,
    ensures
        ({
            let end = s.heap.brk + most * place_cost::<T>();
            end <= usize::MAX && crate::vec::room_for_buffer::<T, P>(
                s.with_brk(end as usize),
                most,
            ) ==> {
                &&& layout::fits(
                    layout::row_size::<T>(most),
                    vstd::layout::align_of::<T>() as int,
                )
                &&& crate::vec::room_for_buffer::<T, P>(s.with_brk(0), 0)
            }
        }),
{
    let end = s.heap.brk + most * place_cost::<T>();
    if end <= usize::MAX && crate::vec::room_for_buffer::<T, P>(s.with_brk(end as usize), most) {
        lemma_less_room::<T, P>(s, 0, end as usize, 0, most);
    }
}

} // verus!
