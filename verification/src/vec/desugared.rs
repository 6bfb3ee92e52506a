//! Vectors from iterators that only guess how many items they have left.

use crate::collect::Collect;
use crate::layout::{self, Layout};
use crate::mutation::Mutation;
use crate::state::State;
use crate::types::{GcBox, GcColor};
use crate::vec::Vec;
use vstd::prelude::*;
use vstd::std_specs::iter::IteratorSpec;

verus! {

/// A guess and one more, as far as that can be counted.
pub open spec fn one_more(hint: usize) -> int {
    if hint < usize::MAX {
        hint + 1
    } else {
        usize::MAX as int
    }
}

/// The capacity of a full vector after room was made for one item and as many as were guessed to
/// follow.
pub open spec fn grown<T>(cap: int, hint: usize) -> int {
    layout::max(
        layout::max(2 * cap, cap + one_more(hint)),
        crate::vec::spec_min_non_zero_cap(vstd::layout::size_of::<T>()) as int,
    )
}

/// The capacity after `n` items were appended to `len` others, the buffer growing by the guesses.
pub open spec fn cap_after<T>(len: int, cap: int, hints: Seq<usize>, n: nat) -> int
    decreases n,
{
    if n == 0 {
        cap
    } else {
        let before = cap_after::<T>(len, cap, hints, (n - 1) as nat);
        if len + n - 1 == before {
            grown::<T>(before, hints[n - 1])
        } else {
            before
        }
    }
}

/// The end of the address range in use after that.
pub open spec fn brk_after<T, P: Collect>(
    s: State<P>,
    len: int,
    cap: int,
    hints: Seq<usize>,
    n: nat,
) -> int
    decreases n,
{
    if n == 0 {
        s.heap.brk as int
    } else {
        let m = (n - 1) as nat;
        let before = cap_after::<T>(len, cap, hints, m);
        let brk = brk_after::<T, P>(s, len, cap, hints, m);
        if len + m == before {
            s.with_brk(brk as usize).next_brk::<usize>(
                layout::row_size::<T>(grown::<T>(before, hints[m as int])),
                vstd::layout::align_of::<T>() as int,
            )
        } else {
            brk
        }
    }
}

/// Whether there is room whenever the buffer grows.
pub open spec fn can_extend<T, P: Collect>(
    s: State<P>,
    len: int,
    cap: int,
    hints: Seq<usize>,
    n: nat,
) -> bool {
    forall|m: nat|
        m < n && len + m == #[trigger] cap_after::<T>(len, cap, hints, m) ==> can_grow::<T, P>(
            s.with_brk(brk_after::<T, P>(s, len, cap, hints, m) as usize),
            len + m,
            hints[m as int],
        )
}

/// The capacities that the buffer grows to, one after the other.
pub open spec fn growths<T>(len: int, cap: int, hints: Seq<usize>, n: nat) -> Seq<int>
    decreases n,
{
    if n == 0 {
        Seq::empty()
    } else {
        let m = (n - 1) as nat;
        let before = growths::<T>(len, cap, hints, m);
        if len + m == cap_after::<T>(len, cap, hints, m) {
            before.push(cap_after::<T>(len, cap, hints, n))
        } else {
            before
        }
    }
}

/// Whether `t` is `s` with new buffers of these capacities. The buffer in use is at `first` before
/// them and at `last` after them.
#[verifier::opaque]
pub open spec fn buffers_added<T, P: Collect>(
    s: State<P>,
    first: GcBox,
    t: State<P>,
    last: GcBox,
    caps: Seq<int>,
) -> bool
    decreases caps.len(),
{
    if caps.len() == 0 {
        t == s && last == first
    } else {
        exists|m: State<P>, b: GcBox|
            {
                &&& #[trigger] in_use_at(m, b)
                &&& buffers_added::<T, P>(s, first, m, b, caps.drop_last())
                &&& crate::vec::new_buffer::<T, P>(m, t, last, caps.last())
            }
    }
}

/// A state in between and the buffer in use there; any will do.
pub open spec fn in_use_at<P: Collect>(m: State<P>, b: GcBox) -> bool {
    true
}

/// No buffer was added to a state that is as it was.
pub proof fn no_buffers_added<T, P: Collect>(s: State<P>, first: GcBox)
    ensures
        buffers_added::<T, P>(s, first, s, first, Seq::empty()),
{
    reveal(buffers_added);
}

/// One more buffer was added.
pub proof fn one_more_buffer_added<T, P: Collect>(
    s: State<P>,
    first: GcBox,
    m: State<P>,
    b: GcBox,
    t: State<P>,
    last: GcBox,
    caps: Seq<int>,
    cap: int,
)
    requires
        buffers_added::<T, P>(s, first, m, b, caps),
        crate::vec::new_buffer::<T, P>(m, t, last, cap),
    ensures
        buffers_added::<T, P>(s, first, t, last, caps.push(cap)),
{
    reveal(buffers_added);
    assert(caps.push(cap).drop_last() =~= caps);
    assert(in_use_at(m, b));
}

/// Whether `t` has all boxes of `s` as they were, and perhaps more.
pub open spec fn only_adds<P: Collect>(s: State<P>, t: State<P>) -> bool {
    &&& t.heap.phase == s.heap.phase
    &&& t.heap.root_needs_trace == s.heap.root_needs_trace
    &&& t.heap.gray == s.heap.gray
    &&& t.heap.gray_again == s.heap.gray_again
    &&& t.heap.unswept == s.heap.unswept
    &&& forall|b: GcBox| #[trigger]
        s.heap.has(b) ==> {
            &&& t.heap.has(b)
            &&& t.heap.boxes[b] == s.heap.boxes[b]
            &&& t.values.contains_key(b) == s.values.contains_key(b)
            &&& t.values[b] == s.values[b]
        }
}

/// Whether a full buffer can grow by one item and as many as are guessed to follow.
pub open spec fn can_grow<T, P: Collect>(s: State<P>, cap: int, hint: usize) -> bool {
    &&& 2 * cap <= usize::MAX
    &&& cap + one_more(hint) <= usize::MAX
    &&& crate::vec::room_for_buffer::<T, P>(s, grown::<T>(cap, hint))
}

impl<T> Vec<T> {
    /// Appends an item. A full buffer grows by the item and as many as are guessed to follow.
    pub fn push_hinted<P: Collect>(&mut self, mc: &mut Mutation<P>, element: T, hint: usize)
        requires
            old(mc).wf(),
            old(self).stands_in(old(mc)@),
            old(self)@.len() == old(self).cap ==> can_grow::<T, P>(
                old(mc)@,
                old(self).cap as int,
                hint,
            ),
        ensures
            final(mc).wf(),
            final(self).stands_in(final(mc)@),
            final(self)@ == old(self)@.push(element),
            if old(self)@.len() == old(self).cap {
                old(self).moved(
                    *final(self),
                    old(mc)@,
                    final(mc)@,
                    grown::<T>(old(self).cap as int, hint),
                )
            } else {
                &&& final(mc)@ == old(mc)@
                &&& final(self).buf == old(self).buf
                &&& final(self).cap == old(self).cap
                &&& old(self).keeps_places(*final(self), (old(self)@.len() + 1) as int)
            },
            old(self).spare@.len() == 0 ==> final(self).spare@.len() == 0,
    {
        if self.len() == self.capacity() {
            self.reserve(mc, hint.saturating_add(1));
        }
        self.push_element(element);
    }

    /// Appends the items of an iterator one by one. Whenever the buffer is full it grows by the
    /// item at hand and as many as are guessed to follow: `hints` holds the lower bound that the
    /// iterator gives after each of its items.
    pub fn extend_desugared<P: Collect, I: Iterator<Item = T>>(
        &mut self,
        mc: &mut Mutation<P>,
        iterator: I,
        hints: &[usize],
    )
        requires
            old(mc).wf(),
            old(self).stands_in(old(mc)@),
            iterator.obeys_prophetic_iter_laws(),
            iterator.decrease() is Some,
            hints@.len() >= iterator.remaining().len(),
            can_extend::<T, P>(
                old(mc)@,
                old(self)@.len() as int,
                old(self).cap as int,
                hints@,
                iterator.remaining().len(),
            ),
        ensures
            final(mc).wf(),
            final(self).stands_in(final(mc)@),
            final(self)@ == old(self)@ + iterator.remaining(),
            final(self).cap == cap_after::<T>(
                old(self)@.len() as int,
                old(self).cap as int,
                hints@,
                iterator.remaining().len(),
            ),
            buffers_added::<T, P>(
                old(mc)@,
                old(self).buf.ptr,
                final(mc)@,
                final(self).buf.ptr,
                growths::<T>(
                    old(self)@.len() as int,
                    old(self).cap as int,
                    hints@,
                    iterator.remaining().len(),
                ),
            ),
            final(mc)@.heap.brk == brk_after::<T, P>(
                old(mc)@,
                old(self)@.len() as int,
                old(self).cap as int,
                hints@,
                iterator.remaining().len(),
            ),
            only_adds(old(mc)@, final(mc)@),
            if old(self)@.len() + iterator.remaining().len() <= old(self).cap {
                old(self).keeps_places(
                    *final(self),
                    (old(self)@.len() + iterator.remaining().len()) as int,
                )
            } else {
                final(self).spare@.len() == 0
            },
    {
        let mut iterator = iterator;
        let ghost all = iterator.remaining();
        let ghost s = mc@;
        let ghost first = self@;
        let ghost len = self@.len() as int;
        let ghost cap = self.cap as int;
        let ghost start = self.buf.ptr;
        let mut i: usize = 0;
        proof {
            assert(first + all.take(0) =~= first);
            no_buffers_added::<T, P>(s, start);
            reveal(so_far);
        }
        loop
            invariant
                mc.wf(),
                self.stands_in(mc@),
                iterator.obeys_prophetic_iter_laws(),
                iterator.decrease() is Some,
                i <= all.len() <= hints@.len(),
                iterator.remaining() == all.skip(i as int),
                len == first.len(),
                self@ == first + all.take(i as int),
                so_far(s, start, len, cap, hints@, i as nat, mc@, *self),
                can_extend::<T, P>(s, len, cap, hints@, all.len()),
                cap == old(self).cap <= self.cap,
                if self.cap == cap {
                    old(self).keeps_places(*self, len + i)
                } else {
                    self.spare@.len() == 0
                },
            ensures
                i == all.len(),
            decreases iterator.decrease()->0,
        {
            let ghost left = iterator.remaining();
            match iterator.next() {
                None => {
                    assert(left.len() == all.len() - i);
                    break;
                },
                Some(element) => {
                    assert(element == all[i as int]);
                    assert(left.drop_first() =~= all.skip(i + 1));
                    let ghost before = mc@;
                    let ghost was = *self;
                    proof {
                        lemma_may_grow(
                            s,
                            start,
                            len,
                            cap,
                            hints@,
                            i as nat,
                            all.len(),
                            before,
                            was,
                        );
                    }
                    self.push_hinted(mc, element, hints[i]);
                    proof {
                        lemma_so_far(
                            s,
                            start,
                            len,
                            cap,
                            hints@,
                            i as nat,
                            before,
                            was,
                            mc@,
                            *self,
                        );
                    }
                    assert(self@ =~= first + all.take(i + 1));
                    i += 1;
                },
            }
        }
        proof {
            assert(all.take(i as int) =~= all);
            reveal(so_far);
            if len + i <= cap {
                items_that_fit_add_no_buffer::<T, P>(
                    s,
                    start,
                    mc@,
                    self.buf.ptr,
                    len,
                    cap,
                    hints@,
                    i as nat,
                );
            }
        }
    }
}

/// The capacity after `n` items were appended, and where the address range in use would end if it
/// ended at `brk` before. None if there were no room when the buffer grows.
fn extended_end<T, P: Collect>(
    mc: &Mutation<P>,
    brk: usize,
    len: usize,
    cap: usize,
    hints: &[usize],
    n: usize,
) -> (r: Option<(usize, usize)>)
    requires
        len <= cap,
        n <= hints@.len(),
    ensures
        ({
            let s = mc@.with_brk(brk);
            match r {
                Some((now, end)) => {
                    &&& can_extend::<T, P>(s, len as int, cap as int, hints@, n as nat)
                    &&& now == cap_after::<T>(len as int, cap as int, hints@, n as nat)
                    &&& end == brk_after::<T, P>(s, len as int, cap as int, hints@, n as nat)
                },
                None => !can_extend::<T, P>(s, len as int, cap as int, hints@, n as nat),
            }
        }),
{
    let ghost s = mc@.with_brk(brk);
    let mut now: usize = cap;
    let mut end: usize = brk;
    let mut i: usize = 0;
    assert(room_so_far::<T, P>(s, len as int, cap as int, hints@, 0, cap as int, brk as int)) by {
        reveal(room_so_far);
    }
    while i < n
        invariant
            s == mc@.with_brk(brk),
            i <= n <= hints@.len(),
            len + i <= now,
            room_so_far::<T, P>(
                s,
                len as int,
                cap as int,
                hints@,
                i as nat,
                now as int,
                end as int,
            ),
        decreases n - i,
    {
        assert(s.with_brk(end) =~= mc@.with_brk(end));
        proof {
            lemma_room_so_far::<T, P>(
                s,
                len as int,
                cap as int,
                hints@,
                i as nat,
                n as nat,
                now as int,
                end,
            );
        }
        if now - len == i {
            match grown_end::<T, P>(mc, end, now, hints[i]) {
                Some((grown, at)) => {
                    now = grown;
                    end = at;
                },
                None => {
                    return None;
                },
            }
        }
        i += 1;
    }
    proof {
        reveal(room_so_far);
    }
    Some((now, end))
}

/// What holds after `i` items if there was room whenever the buffer grew.
#[verifier::opaque]
spec fn room_so_far<T, P: Collect>(
    s: State<P>,
    len: int,
    cap: int,
    hints: Seq<usize>,
    i: nat,
    now: int,
    end: int,
) -> bool {
    &&& now == cap_after::<T>(len, cap, hints, i)
    &&& end == brk_after::<T, P>(s, len, cap, hints, i)
    &&& can_extend::<T, P>(s, len, cap, hints, i)
}

/// Whether there is room after the next item depends on whether a full buffer can grow.
#[verifier::spinoff_prover]
proof fn lemma_room_so_far<T, P: Collect>(
    s: State<P>,
    len: int,
    cap: int,
    hints: Seq<usize>,
    i: nat,
    n: nat,
    now: int,
    end: usize,
)
    requires
        i < n,
        room_so_far::<T, P>(s, len, cap, hints, i, now, end as int),
    ensures
        len + i != now ==> room_so_far::<T, P>(s, len, cap, hints, i + 1, now, end as int),
        len + i == now ==> {
            if can_grow::<T, P>(s.with_brk(end), now, hints[i as int]) {
                room_so_far::<T, P>(
                    s,
                    len,
                    cap,
                    hints,
                    i + 1,
                    grown::<T>(now, hints[i as int]),
                    s.with_brk(end).next_brk::<usize>(
                        layout::row_size::<T>(grown::<T>(now, hints[i as int])),
                        vstd::layout::align_of::<T>() as int,
                    ),
                )
            } else {
                !can_extend::<T, P>(s, len, cap, hints, n)
            }
        },
{
    reveal(room_so_far);
    let room = s.with_brk(end);
    if len + i == now && !can_grow::<T, P>(room, now, hints[i as int]) {
        lemma_cannot_extend::<T, P>(s, len, cap, hints, i, n);
    } else {
        lemma_can_extend_further::<T, P>(s, len, cap, hints, i);
    }
}

/// There is room for one more item if there is when the buffer has to grow for it.
proof fn lemma_can_extend_further<T, P: Collect>(
    s: State<P>,
    len: int,
    cap: int,
    hints: Seq<usize>,
    i: nat,
)
    requires
        can_extend::<T, P>(s, len, cap, hints, i),
        len + i == cap_after::<T>(len, cap, hints, i) ==> can_grow::<T, P>(
            s.with_brk(brk_after::<T, P>(s, len, cap, hints, i) as usize),
            len + i,
            hints[i as int],
        ),
    ensures
        can_extend::<T, P>(s, len, cap, hints, i + 1),
{
    assert forall|m: nat|
        m < i + 1 && len + m == #[trigger] cap_after::<T>(
            len,
            cap,
            hints,
            m,
        ) implies can_grow::<T, P>(
        s.with_brk(brk_after::<T, P>(s, len, cap, hints, m) as usize),
        len + m,
        hints[m as int],
    ) by {
        if m < i {
        } else {
            assert(m == i);
        }
    }
}

/// There is no room for the items if there is none when the buffer has to grow for one of them.
proof fn lemma_cannot_extend<T, P: Collect>(
    s: State<P>,
    len: int,
    cap: int,
    hints: Seq<usize>,
    i: nat,
    n: nat,
)
    requires
        i < n,
        len + i == cap_after::<T>(len, cap, hints, i),
        !can_grow::<T, P>(
            s.with_brk(brk_after::<T, P>(s, len, cap, hints, i) as usize),
            len + i,
            hints[i as int],
        ),
    ensures
        !can_extend::<T, P>(s, len, cap, hints, n),
{
}

/// The capacity of a full buffer after it grew by one item and as many as are guessed to follow,
/// and where the new buffer would end if the address range were in use up to `brk`. None if it
/// cannot grow.
pub(crate) fn grown_end<T, P: Collect>(mc: &Mutation<P>, brk: usize, cap: usize, hint: usize) -> (r: Option<
    (usize, usize),
>)
    ensures
        match r {
            Some((new, end)) => {
                &&& can_grow::<T, P>(mc@.with_brk(brk), cap as int, hint)
                &&& new == grown::<T>(cap as int, hint)
                &&& end == mc@.with_brk(brk).next_brk::<usize>(
                    layout::row_size::<T>(new as int),
                    vstd::layout::align_of::<T>() as int,
                )
            },
            None => !can_grow::<T, P>(mc@.with_brk(brk), cap as int, hint),
        },
{
    let double: usize = match cap.checked_mul(2) {
        Some(double) => double,
        None => {
            return None;
        },
    };
    let required: usize = match cap.checked_add(hint.saturating_add(1)) {
        Some(required) => required,
        None => {
            return None;
        },
    };
    let new: usize = crate::vec::grown_capacity(
        double,
        required,
        crate::vec::min_non_zero_cap(core::mem::size_of::<T>()),
    );
    match Layout::array::<T>(new) {
        Ok(layout) => match mc.end_of_box::<usize>(brk, layout) {
            Some(end) => Some((new, end)),
            None => None,
        },
        Err(_) => None,
    }
}

impl<T> Vec<T> {
    /// Whether there is room whenever the buffer grows while `n` items are appended whose number is
    /// guessed.
    pub fn can_extend_desugared<P: Collect>(&self, mc: &Mutation<P>, hints: &[usize], n: usize) -> (b:
        bool)
        requires
            self.wf(),
            n <= hints@.len(),
        ensures
            b == can_extend::<T, P>(mc@, self@.len() as int, self.cap as int, hints@, n as nat),
    {
        assert(mc@.with_brk(mc@.heap.brk) =~= mc@);
        extended_end::<T, P>(mc, mc.brk(), self.len(), self.cap, hints, n).is_some()
    }

    /// Whether there is room for a vector of `n` items whose number is guessed.
    pub fn can_collect_desugared<P: Collect>(mc: &Mutation<P>, hints: &[usize], n: usize) -> (b: bool)
        requires
            n <= hints@.len(),
        ensures
            b == can_collect::<T, P>(mc@, hints@, n as nat),
    {
        Vec::<T>::collected_end(mc, hints, n).is_some()
    }

    /// The capacity of a vector of `n` items whose number is guessed, and where the address range
    /// in use would end with it. None if there were no room for it.
    pub(crate) fn collected_end<P: Collect>(mc: &Mutation<P>, hints: &[usize], n: usize) -> (r: Option<
        (usize, usize),
    >)
        requires
            n <= hints@.len(),
        ensures
            match r {
                Some((cap, end)) => {
                    &&& can_collect::<T, P>(mc@, hints@, n as nat)
                    &&& cap == collected_cap::<T>(hints@, n as nat)
                    &&& end == collected_brk::<T, P>(mc@, hints@, n as nat)
                },
                None => !can_collect::<T, P>(mc@, hints@, n as nat),
            },
    {
        let size: usize = core::mem::size_of::<T>();
        let least: usize = crate::vec::min_non_zero_cap(size);
        let wanted: usize = if n == 0 {
            least
        } else {
            let hint: usize = hints[0].saturating_add(1);
            if least < hint {
                hint
            } else {
                least
            }
        };
        let cap: usize = if size == 0 {
            usize::MAX
        } else {
            wanted
        };
        let layout = match Layout::array::<T>(cap) {
            Ok(layout) => layout,
            Err(_) => {
                return None;
            },
        };
        assert(mc@.with_brk(mc@.heap.brk) =~= mc@);
        match mc.end_of_box::<usize>(mc.brk(), layout) {
            None => None,
            Some(end) => if n == 0 {
                Some((cap, end))
            } else {
                let rest = vstd::slice::slice_subrange(hints, 1, hints.len());
                assert(rest@ =~= hints@.skip(1));
                extended_end::<T, P>(mc, end, 1, cap, rest, n - 1)
            },
        }
    }
}

/// What holds of the state `t` and the vector after `i` items.
#[verifier::opaque]
pub(crate) open(crate) spec fn so_far<T, P: Collect>(
    s: State<P>,
    start: GcBox,
    len: int,
    cap: int,
    hints: Seq<usize>,
    i: nat,
    t: State<P>,
    vec: Vec<T>,
) -> bool {
    &&& vec.cap == cap_after::<T>(len, cap, hints, i)
    &&& t.heap.brk == brk_after::<T, P>(s, len, cap, hints, i)
    &&& only_adds(s, t)
    &&& buffers_added::<T, P>(s, start, t, vec.buf.ptr, growths::<T>(len, cap, hints, i))
}

/// There is room for the next item.
proof fn lemma_may_grow<T, P: Collect>(
    s: State<P>,
    start: GcBox,
    len: int,
    cap: int,
    hints: Seq<usize>,
    i: nat,
    n: nat,
    t: State<P>,
    vec: Vec<T>,
)
    requires
        so_far(s, start, len, cap, hints, i, t, vec),
        can_extend::<T, P>(s, len, cap, hints, n),
        i < n,
        vec@.len() == len + i,
    ensures
        vec@.len() == vec.cap ==> can_grow::<T, P>(t, vec.cap as int, hints[i as int]),
{
    reveal(so_far);
    if vec@.len() == vec.cap {
        assert(len + i == cap_after::<T>(len, cap, hints, i));
        lemma_room_by_brk::<T, P>(
            s.with_brk(t.heap.brk),
            t,
            grown::<T>(vec.cap as int, hints[i as int]),
        );
    }
}

/// What holds after an item holds after the next.
pub(crate) proof fn lemma_so_far<T, P: Collect>(
    s: State<P>,
    start: GcBox,
    len: int,
    cap: int,
    hints: Seq<usize>,
    i: nat,
    m: State<P>,
    was: Vec<T>,
    t: State<P>,
    vec: Vec<T>,
)
    requires
        so_far(s, start, len, cap, hints, i, m, was),
        was@.len() == len + i,
        if was@.len() == was.cap {
            was.moved(vec, m, t, grown::<T>(was.cap as int, hints[i as int]))
        } else {
            t == m && vec.buf == was.buf && vec.cap == was.cap
        },
    ensures
        so_far(s, start, len, cap, hints, i + 1, t, vec),
{
    reveal(so_far);
    if was@.len() == was.cap {
        lemma_room_by_brk::<T, P>(s.with_brk(m.heap.brk), m, vec.cap as int);
        lemma_allocation_only_adds::<T, P>(s, m, t, vec.buf.ptr, vec.cap as int);
        one_more_buffer_added::<T, P>(
            s,
            start,
            m,
            was.buf.ptr,
            t,
            vec.buf.ptr,
            growths::<T>(len, cap, hints, i),
            vec.cap as int,
        );
    }
}

/// The first capacity of a vector that is made from an iterator with items.
pub open spec fn first_hinted_cap<T>(hint: usize) -> usize {
    crate::vec::first_cap::<T>(
        layout::max(
            crate::vec::spec_min_non_zero_cap(vstd::layout::size_of::<T>()) as int,
            one_more(hint),
        ) as usize,
    )
}

/// Whether there is room for a vector of `n` items whose number is guessed.
pub open spec fn can_collect<T, P: Collect>(s: State<P>, hints: Seq<usize>, n: nat) -> bool {
    if n == 0 {
        crate::vec::room_for_buffer::<T, P>(
            s,
            crate::vec::first_cap::<T>(
                crate::vec::spec_min_non_zero_cap(vstd::layout::size_of::<T>()) as usize,
            ) as int,
        )
    } else {
        let cap = first_hinted_cap::<T>(hints[0]) as int;
        let brk = s.next_brk::<usize>(
            layout::row_size::<T>(cap),
            vstd::layout::align_of::<T>() as int,
        );
        &&& crate::vec::room_for_buffer::<T, P>(s, cap)
        &&& can_extend::<T, P>(s.with_brk(brk as usize), 1, cap, hints.skip(1), (n - 1) as nat)
    }
}

/// The capacity of a vector of `n` items whose number was guessed.
pub open spec fn collected_cap<T>(hints: Seq<usize>, n: nat) -> int {
    if n == 0 {
        crate::vec::first_cap::<T>(
            crate::vec::spec_min_non_zero_cap(vstd::layout::size_of::<T>()) as usize,
        ) as int
    } else {
        cap_after::<T>(
            1,
            first_hinted_cap::<T>(hints[0]) as int,
            hints.skip(1),
            (n - 1) as nat,
        )
    }
}

/// Where the address range in use ends after a vector of `n` items was made whose number was
/// guessed.
pub open spec fn collected_brk<T, P: Collect>(s: State<P>, hints: Seq<usize>, n: nat) -> int {
    let cap = if n == 0 {
        collected_cap::<T>(hints, n)
    } else {
        first_hinted_cap::<T>(hints[0]) as int
    };
    let brk = s.next_brk::<usize>(layout::row_size::<T>(cap), vstd::layout::align_of::<T>() as int);
    if n == 0 {
        brk
    } else {
        brk_after::<T, P>(s.with_brk(brk as usize), 1, cap, hints.skip(1), (n - 1) as nat)
    }
}

/// Whether `t` is `s` with the buffers of a vector of `n` items whose number was guessed, the one
/// in use at `last`.
pub open spec fn collected<T, P: Collect>(
    s: State<P>,
    t: State<P>,
    hints: Seq<usize>,
    n: nat,
    last: GcBox,
) -> bool {
    if n == 0 {
        crate::vec::new_buffer::<T, P>(s, t, last, collected_cap::<T>(hints, n))
    } else {
        let cap = first_hinted_cap::<T>(hints[0]) as int;
        exists|m: State<P>, b: GcBox| #[trigger]
            crate::vec::new_buffer::<T, P>(s, m, b, cap) && buffers_added::<T, P>(
                m,
                b,
                t,
                last,
                growths::<T>(1, cap, hints.skip(1), (n - 1) as nat),
            )
    }
}

impl<T> Vec<T> {
    /// Collects the items of an iterator one by one, beginning with room for the first item and as
    /// many as are guessed to follow: `hints` holds the lower bound that the iterator gives after
    /// each of its items.
    pub fn collect_desugared<P: Collect, I: Iterator<Item = T>>(
        mc: &mut Mutation<P>,
        iterator: I,
        hints: &[usize],
    ) -> (r: Vec<T>)
        requires
            old(mc).wf(),
            iterator.obeys_prophetic_iter_laws(),
            iterator.decrease() is Some,
            hints@.len() >= iterator.remaining().len(),
            can_collect::<T, P>(old(mc)@, hints@, iterator.remaining().len()),
        ensures
            final(mc).wf(),
            r.stands_in(final(mc)@),
            r@ == iterator.remaining(),
            r.cap == collected_cap::<T>(hints@, iterator.remaining().len()),
            collected::<T, P>(
                old(mc)@,
                final(mc)@,
                hints@,
                iterator.remaining().len(),
                r.buf.ptr,
            ),
            final(mc)@.heap.brk == collected_brk::<T, P>(
                old(mc)@,
                hints@,
                iterator.remaining().len(),
            ),
            only_adds(old(mc)@, final(mc)@),
    {
        let mut iterator = iterator;
        let ghost all = iterator.remaining();
        match iterator.next() {
            None => {
                let vec: Vec<T> = Vec::new(mc);
                assert(vec@ =~= all);
                proof {
                    lemma_allocation_only_adds::<T, P>(
                        old(mc)@,
                        old(mc)@,
                        mc@,
                        vec.buf.ptr,
                        vec.cap as int,
                    );
                }
                vec
            },
            Some(element) => {
                let vec = Vec::collect_after(mc, element, iterator, hints);
                assert(seq![element] + all.drop_first() =~= all);
                vec
            },
        }
    }

    /// Collects the first item of an iterator and those that follow.
    fn collect_after<P: Collect, I: Iterator<Item = T>>(
        mc: &mut Mutation<P>,
        element: T,
        iterator: I,
        hints: &[usize],
    ) -> (r: Vec<T>)
        requires
            old(mc).wf(),
            iterator.obeys_prophetic_iter_laws(),
            iterator.decrease() is Some,
            hints@.len() > iterator.remaining().len(),
            can_collect::<T, P>(old(mc)@, hints@, iterator.remaining().len() + 1),
        ensures
            final(mc).wf(),
            r.stands_in(final(mc)@),
            r@ == seq![element] + iterator.remaining(),
            r.cap == collected_cap::<T>(hints@, iterator.remaining().len() + 1),
            collected::<T, P>(
                old(mc)@,
                final(mc)@,
                hints@,
                iterator.remaining().len() + 1,
                r.buf.ptr,
            ),
            final(mc)@.heap.brk == collected_brk::<T, P>(
                old(mc)@,
                hints@,
                iterator.remaining().len() + 1,
            ),
            only_adds(old(mc)@, final(mc)@),
    {
        let ghost n = iterator.remaining().len();
        let ghost s = mc@;
        let hint: usize = hints[0].saturating_add(1);
        let least: usize = crate::vec::min_non_zero_cap(core::mem::size_of::<T>());
        let initial: usize = if least < hint {
            hint
        } else {
            least
        };
        let mut vec: Vec<T> = Vec::with_capacity(mc, initial);
        let ghost m = mc@;
        let ghost b = vec.buf.ptr;
        proof {
            lemma_can_extend_by_brk::<T, P>(
                s.with_brk(m.heap.brk),
                m,
                1,
                vec.cap as int,
                hints@.skip(1),
                n,
            );
        }
        vec.elems.push(element);
        assert(vec@ =~= seq![element]);
        let rest = vstd::slice::slice_subrange(hints, 1, hints.len());
        assert(rest@ =~= hints@.skip(1));
        vec.extend_desugared(mc, iterator, rest);
        proof {
            let cap = first_hinted_cap::<T>(hints@[0]) as int;
            assert(crate::vec::new_buffer::<T, P>(s, m, b, cap));
            lemma_brk_after_by_brk::<T, P>(s.with_brk(m.heap.brk), m, 1, cap, hints@.skip(1), n);
            lemma_allocation_only_adds::<T, P>(s, s, m, b, cap);
            lemma_only_adds_twice(s, m, mc@);
        }
        vec
    }
}

proof fn lemma_brk_after_by_brk<T, P: Collect>(
    s: State<P>,
    t: State<P>,
    len: int,
    cap: int,
    hints: Seq<usize>,
    n: nat,
)
    requires
        s.heap.brk == t.heap.brk,
    ensures
        brk_after::<T, P>(s, len, cap, hints, n) == brk_after::<T, P>(t, len, cap, hints, n),
    decreases n,
{
    if n > 0 {
        let m = (n - 1) as nat;
        lemma_brk_after_by_brk::<T, P>(s, t, len, cap, hints, m);
    }
}

/// Room for a vector to grow depends only on the part of the address range in use.
proof fn lemma_can_extend_by_brk<T, P: Collect>(
    s: State<P>,
    t: State<P>,
    len: int,
    cap: int,
    hints: Seq<usize>,
    n: nat,
)
    requires
        s.heap.brk == t.heap.brk,
        can_extend::<T, P>(s, len, cap, hints, n),
    ensures
        can_extend::<T, P>(t, len, cap, hints, n),
{
    assert forall|m: nat|
        m < n && len + m == #[trigger] cap_after::<T>(len, cap, hints, m) implies can_grow::<T, P>(
        t.with_brk(brk_after::<T, P>(t, len, cap, hints, m) as usize),
        len + m,
        hints[m as int],
    ) by {
        lemma_brk_after_by_brk::<T, P>(s, t, len, cap, hints, m);
        lemma_room_by_brk::<T, P>(
            s.with_brk(brk_after::<T, P>(s, len, cap, hints, m) as usize),
            t.with_brk(brk_after::<T, P>(t, len, cap, hints, m) as usize),
            grown::<T>(len + m, hints[m as int]),
        );
    }
}

/// If the guesses are right the buffer grows at most once, to the capacity that it has if room for
/// all items is made at the beginning.
pub proof fn right_guesses_grow_once<T>(len: int, cap: int, hints: Seq<usize>, n: nat, m: nat)
    requires
        0 <= len <= cap,
        n <= hints.len(),
        m <= n < usize::MAX,
        forall|k: int| 0 <= k < n ==> #[trigger] hints[k] == n - 1 - k,
    ensures
        cap_after::<T>(len, cap, hints, m) == if len + m <= cap {
            cap
        } else {
            layout::max(
                layout::max(2 * cap, len + n),
                crate::vec::spec_min_non_zero_cap(vstd::layout::size_of::<T>()) as int,
            )
        },
    decreases m,
{
    if m > 0 {
        right_guesses_grow_once::<T>(len, cap, hints, n, (m - 1) as nat);
        assert(hints[m - 1] == n - m);
    }
}

/// Room for a buffer, and where it ends, depend only on the part of the address range in use.
pub(crate) proof fn lemma_room_by_brk<T, P: Collect>(s: State<P>, t: State<P>, cap: int)
    requires
        s.heap.brk == t.heap.brk,
    ensures
        crate::vec::room_for_buffer::<T, P>(s, cap) == crate::vec::room_for_buffer::<T, P>(t, cap),
        s.next_brk::<usize>(
            layout::row_size::<T>(cap),
            vstd::layout::align_of::<T>() as int,
        ) == t.next_brk::<usize>(
            layout::row_size::<T>(cap),
            vstd::layout::align_of::<T>() as int,
        ),
{
}

/// New buffers leave all boxes as they were, and the last of them is new.
proof fn lemma_buffers_only_add<T, P: Collect>(
    s: State<P>,
    first: GcBox,
    t: State<P>,
    last: GcBox,
    caps: Seq<int>,
)
    requires
        buffers_added::<T, P>(s, first, t, last, caps),
    ensures
        only_adds(s, t),
        if caps.len() == 0 {
            last == first && t == s
        } else {
            !s.heap.has(last) && t.heap.color(last) == GcColor::White
        },
    decreases caps.len(),
{
    reveal(buffers_added);
    if caps.len() > 0 {
        let (m, b) = choose|m: State<P>, b: GcBox|
            {
                &&& #[trigger] in_use_at(m, b)
                &&& buffers_added::<T, P>(s, first, m, b, caps.drop_last())
                &&& crate::vec::new_buffer::<T, P>(m, t, last, caps.last())
            };
        lemma_buffers_only_add::<T, P>(s, first, m, b, caps.drop_last());
        lemma_allocation_only_adds::<T, P>(s, m, t, last, caps.last());
    }
}

/// The buffer of a new vector is new and white.
pub(crate) proof fn lemma_collected_is_new<T, P: Collect>(
    s: State<P>,
    t: State<P>,
    hints: Seq<usize>,
    n: nat,
    last: GcBox,
)
    requires
        collected::<T, P>(s, t, hints, n, last),
    ensures
        !s.heap.has(last),
        t.heap.color(last) == GcColor::White,
{
    if n > 0 {
        let cap = first_hinted_cap::<T>(hints[0]) as int;
        let caps = growths::<T>(1, cap, hints.skip(1), (n - 1) as nat);
        let (m, b) = choose|m: State<P>, b: GcBox| #[trigger]
            crate::vec::new_buffer::<T, P>(s, m, b, cap) && buffers_added::<T, P>(
                m,
                b,
                t,
                last,
                caps,
            );
        lemma_buffers_only_add::<T, P>(m, b, t, last, caps);
        lemma_allocation_only_adds::<T, P>(s, s, m, b, cap);
        if s.heap.has(last) {
            assert(m.heap.has(last));
        }
    }
}

/// What the buffer becomes depends only on the guesses that were made so far.
pub(crate) proof fn lemma_by_first_hints<T, P: Collect>(
    s: State<P>,
    len: int,
    cap: int,
    a: Seq<usize>,
    b: Seq<usize>,
    n: nat,
)
    requires
        n <= a.len(),
        n <= b.len(),
        forall|k: int| 0 <= k < n ==> a[k] == #[trigger] b[k],
    ensures
        cap_after::<T>(len, cap, a, n) == cap_after::<T>(len, cap, b, n),
        brk_after::<T, P>(s, len, cap, a, n) == brk_after::<T, P>(s, len, cap, b, n),
        growths::<T>(len, cap, a, n) == growths::<T>(len, cap, b, n),
    decreases n,
{
    if n > 0 {
        lemma_by_first_hints::<T, P>(s, len, cap, a, b, (n - 1) as nat);
        assert(a[n - 1] == b[n - 1]);
    }
}

/// Items that fit the buffer add no other.
pub proof fn items_that_fit_add_no_buffer<T, P: Collect>(
    s: State<P>,
    first: GcBox,
    t: State<P>,
    last: GcBox,
    len: int,
    cap: int,
    hints: Seq<usize>,
    n: nat,
)
    requires
        len + n <= cap,
    ensures
        cap_after::<T>(len, cap, hints, n) == cap,
        growths::<T>(len, cap, hints, n).len() == 0,
        buffers_added::<T, P>(s, first, t, last, growths::<T>(len, cap, hints, n)) ==> t == s
            && last == first,
    decreases n,
{
    reveal(buffers_added);
    if n > 0 {
        items_that_fit_add_no_buffer::<T, P>(s, first, t, last, len, cap, hints, (n - 1) as nat);
    }
}

/// What only adds to what only added has only added.
pub(crate) proof fn lemma_only_adds_twice<P: Collect>(s: State<P>, m: State<P>, t: State<P>)
    requires
        only_adds(s, m),
        only_adds(m, t),
    ensures
        only_adds(s, t),
{
    assert forall|b: GcBox| #[trigger] s.heap.has(b) implies {
        &&& t.heap.has(b)
        &&& t.heap.boxes[b] == s.heap.boxes[b]
        &&& t.values.contains_key(b) == s.values.contains_key(b)
        &&& t.values[b] == s.values[b]
    } by {
        assert(m.heap.has(b));
    }
}

/// A new buffer after others still leaves all boxes as they were.
pub(crate) proof fn lemma_allocation_only_adds<T, P: Collect>(
    s: State<P>,
    m: State<P>,
    t: State<P>,
    b: GcBox,
    cap: int,
)
    requires
        only_adds(s, m),
        crate::vec::new_buffer::<T, P>(m, t, b, cap),
    ensures
        only_adds(s, t),
{
    assert forall|x: GcBox| #[trigger] s.heap.has(x) implies {
        &&& t.heap.has(x)
        &&& t.heap.boxes[x] == s.heap.boxes[x]
        &&& t.values.contains_key(x) == s.values.contains_key(x)
        &&& t.values[x] == s.values[x]
    } by {
        assert(m.heap.has(x));
        assert(x != b);
    }
}

} // verus!
