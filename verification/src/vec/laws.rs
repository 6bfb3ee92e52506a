//! What holds of the capacities and the buffers of vectors.

use crate::access_laws;
use crate::collect::Collect;
use crate::contents::Value;
use crate::layout;
use crate::state::State;
use crate::types::{GcBox, GcColor, Meta};
use crate::vec::convert_vec;
use crate::vec::desugared;
use crate::vec::spec_from_iter;
use crate::vec::{IntoIter, Vec};
use vstd::prelude::*;

verus! {

/// The least capacity is eight for elements of one byte, four for others up to a kibibyte, and one
/// beyond.
pub proof fn least_capacity_by_size(size: nat)
    ensures
        crate::vec::spec_min_non_zero_cap(size) == 8 <==> size == 1,
        crate::vec::spec_min_non_zero_cap(size) == 4 <==> size != 1 && size <= 1024,
        crate::vec::spec_min_non_zero_cap(size) == 1 <==> size > 1024,
{
}

/// A vector is made with the capacity that was asked for, unless its elements have no size: then it has
/// room for as many as there can be.
pub proof fn first_capacity_is_what_was_asked_for<T>(capacity: usize)
    ensures
        vstd::layout::size_of::<T>() > 0 ==> crate::vec::first_cap::<T>(capacity) == capacity,
        vstd::layout::size_of::<T>() == 0 ==> crate::vec::first_cap::<T>(capacity) == usize::MAX,
        crate::vec::first_cap::<T>(capacity) >= capacity,
{
}

/// A vector that grows at least doubles, has room for what is to come, has at least the least
/// capacity, and is no larger than the largest of the three.
pub proof fn growing_at_least_doubles<T>(v: Vec<T>, additional: int)
    ensures
        v.grown_cap(additional) >= 2 * v.cap,
        v.grown_cap(additional) >= v@.len() + additional,
        v.grown_cap(additional) >= crate::vec::spec_min_non_zero_cap(vstd::layout::size_of::<T>()),
        v.grown_cap(additional) == 2 * v.cap || v.grown_cap(additional) == v@.len() + additional
            || v.grown_cap(additional) == crate::vec::spec_min_non_zero_cap(vstd::layout::size_of::<T>()),
{
}

/// Room can be made exactly if the length can be counted and either the buffer is large enough or
/// there is room for a larger one.
pub proof fn room_can_be_made<T, P: Collect>(v: Vec<T>, s: State<P>, additional: int)
    requires
        v.wf(),
        0 <= additional,
    ensures
        v@.len() + additional > usize::MAX ==> !v.can_reserve(s, additional),
        v@.len() + additional <= v.cap ==> v.can_reserve(s, additional),
        v.cap < v@.len() + additional <= usize::MAX ==> (v.can_reserve(s, additional) <==> 2 * v.cap
            <= usize::MAX && crate::vec::room_for_buffer::<T, P>(s, v.grown_cap(additional))),
{
}

/// There is room for a buffer exactly if it can be laid out and ends within the address range.
pub proof fn buffers_need_room<T, P: Collect>(s: State<P>, cap: int)
    requires
        crate::vec::room_for_buffer::<T, P>(s, cap),
    ensures
        layout::fits(cap * vstd::layout::size_of::<T>(), vstd::layout::align_of::<T>() as int),
        s.next_brk::<usize>(
            cap * vstd::layout::size_of::<T>(),
            vstd::layout::align_of::<T>() as int,
        ) <= usize::MAX,
{
}

/// A new buffer is a new white box that holds nothing to be traced and knows its capacity. Every other
/// box stays as it was.
pub proof fn new_buffer_is_a_new_box<T, P: Collect>(s: State<P>, t: State<P>, b: GcBox, cap: int)
    requires
        crate::vec::new_buffer::<T, P>(s, t, b, cap),
    ensures
        !s.heap.boxes.contains_key(b),
        t.heap.boxes.contains_key(b),
        t.values.contains_key(b) && t.values[b] is Buffer,
        t.values[b].edges().len() == 0,
        t.heap.boxes[b].meta == Meta::Len(cap as usize),
        t.heap.boxes[b].flags.color == GcColor::White,
        t.heap.boxes[b].flags.live,
        !t.heap.boxes[b].flags.needs_trace,
        b.addr as int % (vstd::layout::align_of::<T>() as int) == 0,
        t.heap.all == s.heap.all.push(b),
        access_laws::keeps_all(s, t),
        t.heap.phase == s.heap.phase && t.heap.unswept == s.heap.unswept,
        t.heap.gray == s.heap.gray && t.heap.gray_again == s.heap.gray_again,
{
    assert forall|x: GcBox| #[trigger] s.heap.boxes.contains_key(x) implies x != b by {
        assert(s.heap.has(x));
    }
}

/// After room was made the elements to come fit. If they fitted before nothing moved: the buffer, the
/// capacity, the places behind them and the arena are as they were. Otherwise the buffer is a new box
/// and the capacity at least doubled.
pub proof fn reserving_makes_room<T, P: Collect>(
    v: Vec<T>,
    new: Vec<T>,
    s: State<P>,
    t: State<P>,
    additional: int,
)
    requires
        0 <= additional,
        v.reserved(new, s, t, additional),
    ensures
        v@.len() + additional <= new.cap,
        v@.len() + additional <= v.cap ==> {
            &&& t == s && new.buf == v.buf && new.cap == v.cap
            &&& forall|i: int| v@.len() + additional <= i ==> #[trigger] new.place(i) == v.place(i)
        },
        v@.len() + additional > v.cap ==> {
            &&& new.cap >= 2 * v.cap
            &&& !s.heap.boxes.contains_key(new.buf.ptr)
            &&& t.values.contains_key(new.buf.ptr) && t.values[new.buf.ptr] is Buffer
            &&& t.heap.boxes[new.buf.ptr].meta == Meta::Len(new.cap)
            &&& access_laws::keeps_all(s, t)
            &&& t.heap.all.len() == s.heap.all.len() + 1
        },
{
    if v@.len() + additional > v.cap {
        growing_at_least_doubles(v, additional);
        new_buffer_is_a_new_box::<T, P>(s, t, new.buf.ptr, v.grown_cap(additional));
    }
}

/// A vector that moved has a new buffer of just the capacity that was asked for, with nothing behind
/// the elements.
pub proof fn moving_takes_a_new_buffer<T, P: Collect>(
    v: Vec<T>,
    new: Vec<T>,
    s: State<P>,
    t: State<P>,
    cap: int,
)
    requires
        v.moved(new, s, t, cap),
    ensures
        new.cap == cap,
        !s.heap.boxes.contains_key(new.buf.ptr),
        t.values[new.buf.ptr] is Buffer,
        t.heap.boxes[new.buf.ptr].meta == Meta::Len(new.cap),
        access_laws::keeps_all(s, t),
        forall|i: int| new@.len() <= i ==> #[trigger] new.place(i) is None,
{
    new_buffer_is_a_new_box::<T, P>(s, t, new.buf.ptr, cap);
}

/// A vector that stands in an arena has a buffer there that knows its capacity, and its elements fit.
pub proof fn vectors_fit_their_buffers<T, P: Collect>(v: Vec<T>, iter: IntoIter<T>, s: State<P>)
    ensures
        v.stands_in(s) ==> {
            &&& v@.len() <= v.cap
            &&& s.values.contains_key(v.buf.ptr) && s.values[v.buf.ptr] == Value::<P>::Buffer
            &&& s.heap.boxes[v.buf.ptr].meta == Meta::Len(v.cap)
            &&& vstd::layout::size_of::<T>() == 0 ==> v.cap == usize::MAX
        },
        iter.stands_in(s) ==> {
            &&& iter@.len() <= iter.cap
            &&& s.values.contains_key(iter.buf.ptr) && s.values[iter.buf.ptr] == Value::<P>::Buffer
            &&& s.heap.boxes[iter.buf.ptr].meta == Meta::Len(iter.cap)
            &&& vstd::layout::size_of::<T>() == 0 ==> iter.cap == usize::MAX
        },
        v@ == v.elems@,
        iter@ == iter.rest@,
{
}

/// The places of a buffer hold the elements in order, then what else was written to them.
pub proof fn places_hold_the_elements<T>(v: Vec<T>, w: Vec<T>, from: int)
    ensures
        forall|i: int| 0 <= i < v@.len() ==> #[trigger] v.place(i) == Some(v@[i]),
        forall|i: int| v@.len() + v.spare@.len() <= i ==> #[trigger] v.place(i) is None,
        v.spare@.len() > 0 ==> v.place(v@.len() as int) == v.spare@.last(),
        v.keeps_places(w, from) <==> forall|i: int| from <= i ==> #[trigger] w.place(i) == v.place(i),
        v.keeps_places(w, 0) && v@.len() == w@.len() ==> v@ == w@,
{
    if v.keeps_places(w, 0) && v@.len() == w@.len() {
        assert forall|i: int| 0 <= i < v@.len() implies v@[i] == w@[i] by {
            assert(w.place(i) == v.place(i));
        }
        assert(v@ =~= w@);
    }
}

// ---- clones ----
/// Clones of a row stand where their originals stand.
pub proof fn clones_stand_in_order<T: Clone>(from: Seq<T>, to: Seq<T>)
    ensures
        convert_vec::all_cloned(from, to) <==> from.len() == to.len() && forall|i: int|
            0 <= i < from.len() ==> #[trigger] cloned(from[i], to[i]),
{
}

/// A vector that clones were put into has room for them: its old buffer if they fit it, with the places
/// behind them as they were, and a new one of at least twice the capacity otherwise.
pub proof fn clones_fit_the_vector<T, P: Collect>(
    n: nat,
    target: Vec<T>,
    new: Vec<T>,
    s: State<P>,
    t: State<P>,
)
    requires
        convert_vec::cloned_into(n, target, new, s, t),
    ensures
        n <= new.cap,
        n <= target.cap ==> t == s && new.buf == target.buf && new.cap == target.cap && forall|i: int|
            n <= i ==> #[trigger] new.place(i) == target.place(i),
        n > target.cap ==> new.cap >= 2 * target.cap && !s.heap.boxes.contains_key(new.buf.ptr)
            && access_laws::keeps_all(s, t),
{
    if n > target.cap {
        new_buffer_is_a_new_box::<T, P>(s, t, new.buf.ptr, convert_vec::grown(n, target));
    }
}

/// Clones can be put into a vector exactly if they fit it or there is room for a larger buffer.
pub proof fn clones_need_room<T, P: Collect>(n: nat, target: Vec<T>, s: State<P>)
    ensures
        n <= target.cap ==> convert_vec::can_clone_into(n, target, s),
        target.cap < n ==> (convert_vec::can_clone_into(n, target, s) <==> n <= usize::MAX && 2
            * target.cap <= usize::MAX && crate::vec::room_for_buffer::<T, P>(
            s,
            convert_vec::grown(n, target),
        )),
        convert_vec::grown(n, target) >= n,
        convert_vec::grown(n, target) >= 2 * target.cap,
{
}

/// The items of a slice are its elements.
pub proof fn items_of_a_slice<T: Clone>(slice: &[T])
    ensures
        <[T] as convert_vec::ConvertVec>::items(slice) == slice@,
{
}

// ---- items whose number is guessed ----
/// A full buffer can grow exactly if its capacities can be counted and there is room for a larger one.
pub proof fn growing_needs_room<T, P: Collect>(s: State<P>, cap: int, hint: usize)
    requires
        hint < usize::MAX,
    ensures
        desugared::can_grow::<T, P>(s, cap, hint) <==> 2 * cap <= usize::MAX && cap + hint + 1
            <= usize::MAX && crate::vec::room_for_buffer::<T, P>(s, desugared::grown::<T>(cap, hint)),
{
}

/// There is room for items exactly if there is whenever the buffer is full; so there is for items that
/// fit it, and for fewer items wherever there is for more.
pub proof fn extending_needs_room_when_full<T, P: Collect>(
    s: State<P>,
    len: int,
    cap: int,
    hints: Seq<usize>,
    n: nat,
    m: nat,
)
    requires
        0 <= len <= cap,
        n <= hints.len(),
        m <= n,
    ensures
        len + n <= cap ==> desugared::can_extend::<T, P>(s, len, cap, hints, n),
        desugared::can_extend::<T, P>(s, len, cap, hints, n) ==> desugared::can_extend::<T, P>(
            s,
            len,
            cap,
            hints,
            m,
        ),
        len == cap && n > 0 && desugared::can_extend::<T, P>(s, len, cap, hints, n)
            ==> crate::vec::room_for_buffer::<T, P>(
            s.with_brk(s.heap.brk),
            desugared::grown::<T>(cap, hints[0]),
        ),
{
    if len + n <= cap {
        assert forall|k: nat|
            k < n && len + k == #[trigger] desugared::cap_after::<T>(
                len,
                cap,
                hints,
                k,
            ) implies desugared::can_grow::<T, P>(
            s.with_brk(desugared::brk_after::<T, P>(s, len, cap, hints, k) as usize),
            len + k,
            hints[k as int],
        ) by {
            items_always_fit::<T>(len, cap, hints, k);
        }
    }
    if len == cap && n > 0 && desugared::can_extend::<T, P>(s, len, cap, hints, n) {
        assert(len + 0nat == desugared::cap_after::<T>(len, cap, hints, 0));
    }
}

/// There is room for a vector or a row of items exactly if there is whether or not their number is told.
pub proof fn collecting_needs_room<T: Collect>(s: State<T>, hints: Seq<usize>, n: nat)
    ensures
        spec_from_iter::room_for_items::<T, T>(s, n) <==> n <= usize::MAX
            && crate::vec::room_for_buffer::<T, T>(s, crate::vec::first_cap::<T>(n as usize) as int)
            && desugared::can_collect::<T, T>(s, spec_from_iter::no_guesses(n), n),
        spec_from_iter::room_for_item_row(s, n) <==> n <= usize::MAX && s.room_for_row(n)
            && spec_from_iter::can_collect_row(s, spec_from_iter::no_guesses(n), n),
        spec_from_iter::can_collect_row(s, hints, n) ==> desugared::can_collect::<T, T>(s, hints, n),
        spec_from_iter::has_excess::<T>(hints, n) <==> vstd::layout::size_of::<T>() > 0
            && desugared::collected_cap::<T>(hints, n) > n,
        n == 0 ==> (desugared::can_collect::<T, T>(s, hints, n) <==> crate::vec::room_for_buffer::<
            T,
            T,
        >(s, desugared::collected_cap::<T>(hints, n))),
        n > 0 && desugared::can_collect::<T, T>(s, hints, n) ==> crate::vec::room_for_buffer::<T, T>(
            s,
            desugared::first_hinted_cap::<T>(hints[0]) as int,
        ),
{
}

/// A full buffer grows to at least twice its capacity, to room for the item at hand and for as many as
/// are guessed to follow, and to at least the least capacity; it is no larger than the largest of these.
pub proof fn guesses_count_when_full<T>(cap: int, hint: usize)
    requires
        0 <= cap,
    ensures
        desugared::grown::<T>(cap, hint) > cap,
        desugared::grown::<T>(cap, hint) >= 2 * cap,
        hint < usize::MAX ==> desugared::grown::<T>(cap, hint) >= cap + 1 + hint,
        desugared::grown::<T>(cap, hint) >= crate::vec::spec_min_non_zero_cap(
            vstd::layout::size_of::<T>(),
        ),
        desugared::grown::<T>(cap, hint) <= 2 * cap || desugared::grown::<T>(cap, hint) <= cap + 1
            + hint || desugared::grown::<T>(cap, hint) <= crate::vec::spec_min_non_zero_cap(
            vstd::layout::size_of::<T>(),
        ),
{
}

/// However many items come one by one, they fit the buffer. It grows only when it is full, and then to
/// at least twice its capacity and to room for what is guessed to follow.
pub proof fn items_always_fit<T>(len: int, cap: int, hints: Seq<usize>, n: nat)
    requires
        0 <= len <= cap,
        n <= hints.len(),
    ensures
        desugared::cap_after::<T>(len, cap, hints, 0) == cap,
        desugared::cap_after::<T>(len, cap, hints, n) >= len + n,
        desugared::cap_after::<T>(len, cap, hints, n) >= cap,
        desugared::cap_after::<T>(len, cap, hints, n) == cap <==> len + n <= cap,
        n > 0 ==> {
            let before = desugared::cap_after::<T>(len, cap, hints, (n - 1) as nat);
            let after = desugared::cap_after::<T>(len, cap, hints, n);
            if len + n - 1 < before {
                after == before
            } else {
                &&& after >= 2 * before
                &&& hints[n - 1] < usize::MAX ==> after >= len + n + hints[n - 1]
            }
        },
    decreases n,
{
    if n > 0 {
        let m = (n - 1) as nat;
        items_always_fit::<T>(len, cap, hints, m);
        let before = desugared::cap_after::<T>(len, cap, hints, m);
        guesses_count_when_full::<T>(before, hints[m as int]);
    }
}

/// The capacities that the buffer grows to increase, and the last of them is the capacity at the end.
pub proof fn growths_lead_to_the_capacity<T>(len: int, cap: int, hints: Seq<usize>, n: nat)
    requires
        0 <= len <= cap,
        n <= hints.len(),
    ensures
        ({
            let caps = desugared::growths::<T>(len, cap, hints, n);
            let end = desugared::cap_after::<T>(len, cap, hints, n);
            &&& caps.len() == 0 <==> len + n <= cap
            &&& caps.len() > 0 ==> caps.last() == end
            &&& forall|i: int| 0 <= i < caps.len() ==> cap < #[trigger] caps[i] <= end
            &&& forall|i: int, j: int| 0 <= i < j < caps.len() ==> (#[trigger] caps[i]) < (#[trigger] caps[j])
        }),
    decreases n,
{
    items_always_fit::<T>(len, cap, hints, n);
    if n > 0 {
        let m = (n - 1) as nat;
        let before = desugared::growths::<T>(len, cap, hints, m);
        let all = desugared::growths::<T>(len, cap, hints, n);
        growths_lead_to_the_capacity::<T>(len, cap, hints, m);
        items_always_fit::<T>(len, cap, hints, m);
        guesses_count_when_full::<T>(
            desugared::cap_after::<T>(len, cap, hints, m),
            hints[m as int],
        );
        if all.len() > before.len() {
            assert(all == before.push(desugared::cap_after::<T>(len, cap, hints, n)));
        } else {
            assert(all == before);
        }
    }
}

/// Each growth makes one new box; the buffer in use is the last of them and knows its capacity, or the
/// first buffer if there was none. Every other box stays as it was.
pub proof fn each_growth_makes_one_box<T, P: Collect>(
    s: State<P>,
    first: GcBox,
    t: State<P>,
    last: GcBox,
    caps: Seq<int>,
)
    requires
        desugared::buffers_added::<T, P>(s, first, t, last, caps),
    ensures
        t.heap.all.len() == s.heap.all.len() + caps.len(),
        access_laws::keeps_all(s, t),
        caps.len() == 0 ==> t == s && last == first,
        caps.len() > 0 ==> {
            &&& !s.heap.boxes.contains_key(last)
            &&& t.values.contains_key(last) && t.values[last] is Buffer
            &&& t.heap.boxes[last].meta == Meta::Len(caps.last() as usize)
        },
    decreases caps.len(),
{
    reveal(desugared::buffers_added);
    if caps.len() > 0 {
        let (m, b) = choose|m: State<P>, b: GcBox|
            {
                &&& #[trigger] desugared::in_use_at(m, b)
                &&& desugared::buffers_added::<T, P>(s, first, m, b, caps.drop_last())
                &&& crate::vec::new_buffer::<T, P>(m, t, last, caps.last())
            };
        each_growth_makes_one_box::<T, P>(s, first, m, b, caps.drop_last());
        new_buffer_is_a_new_box::<T, P>(m, t, last, caps.last());
        lemma_keeps_all_twice(s, m, t);
        if s.heap.boxes.contains_key(last) {
            assert(m.heap.boxes.contains_key(last));
        }
    }
}

proof fn lemma_keeps_all_twice<P: Collect>(s: State<P>, m: State<P>, t: State<P>)
    requires
        access_laws::keeps_all(s, m),
        access_laws::keeps_all(m, t),
    ensures
        access_laws::keeps_all(s, t),
{
    assert forall|x: GcBox| #[trigger] s.heap.boxes.contains_key(x) implies {
        &&& t.heap.boxes.contains_key(x)
        &&& t.heap.boxes[x] == s.heap.boxes[x]
        &&& t.values.contains_key(x) == s.values.contains_key(x)
        &&& t.values[x] == s.values[x]
    } by {
        assert(m.heap.boxes.contains_key(x));
    }
}

/// Where boxes were only added every box is as it was, and the collector goes on where it was.
pub proof fn added_boxes_change_no_others<P: Collect>(s: State<P>, t: State<P>)
    requires
        desugared::only_adds(s, t),
    ensures
        access_laws::keeps_all(s, t),
        t.heap.phase == s.heap.phase,
        t.heap.unswept == s.heap.unswept,
        t.heap.gray == s.heap.gray && t.heap.gray_again == s.heap.gray_again,
        t.heap.root_needs_trace == s.heap.root_needs_trace,
{
    assert forall|x: GcBox| #[trigger] s.heap.boxes.contains_key(x) implies {
        &&& t.heap.boxes.contains_key(x)
        &&& t.heap.boxes[x] == s.heap.boxes[x]
        &&& t.values.contains_key(x) == s.values.contains_key(x)
        &&& t.values[x] == s.values[x]
    } by {
        assert(s.heap.has(x));
    }
}

/// A vector that was extended by guesses has room for its items; if they fitted before it kept its
/// buffer, and otherwise its buffer is new.
pub proof fn extended_vectors_fit<T, P: Collect>(
    v: Vec<T>,
    new: Vec<T>,
    s: State<P>,
    t: State<P>,
    hints: Seq<usize>,
    n: nat,
)
    requires
        v.wf(),
        n <= hints.len(),
        v.extended(new, s, t, hints, n),
    ensures
        v@.len() + n <= new.cap,
        v@.len() + n <= v.cap ==> t == s && new.buf.ptr == v.buf.ptr && new.cap == v.cap,
        v@.len() + n > v.cap ==> !s.heap.boxes.contains_key(new.buf.ptr) && t.values[new.buf.ptr] is Buffer
            && t.heap.boxes[new.buf.ptr].meta == Meta::Len(new.cap),
        access_laws::keeps_all(s, t),
{
    let len = v@.len() as int;
    let cap = v.cap as int;
    items_always_fit::<T>(len, cap, hints, n);
    growths_lead_to_the_capacity::<T>(len, cap, hints, n);
    each_growth_makes_one_box::<T, P>(
        s,
        v.buf.ptr,
        t,
        new.buf.ptr,
        desugared::growths::<T>(len, cap, hints, n),
    );
}

/// A vector made from items whose number is guessed begins with room for the first and those guessed to
/// follow, but with no less than the least capacity, and has room for all of them at the end.
pub proof fn collected_items_fit<T>(hints: Seq<usize>, n: nat)
    requires
        n <= hints.len(),
        n <= usize::MAX,
    ensures
        desugared::collected_cap::<T>(hints, n) >= n,
        desugared::collected_cap::<T>(hints, n) >= crate::vec::spec_min_non_zero_cap(
            vstd::layout::size_of::<T>(),
        ),
        n > 0 && hints[0] < usize::MAX ==> desugared::collected_cap::<T>(hints, n) >= hints[0] + 1,
        n == 0 && vstd::layout::size_of::<T>() > 0 ==> desugared::collected_cap::<T>(hints, n)
            == crate::vec::spec_min_non_zero_cap(vstd::layout::size_of::<T>()),
        n == 1 && vstd::layout::size_of::<T>() > 0 && hints[0] < usize::MAX
            ==> desugared::collected_cap::<T>(hints, n) == layout::max(
            crate::vec::spec_min_non_zero_cap(vstd::layout::size_of::<T>()) as int,
            hints[0] + 1,
        ),
        forall|h: usize|
            h < usize::MAX ==> #[trigger] desugared::first_hinted_cap::<T>(h) >= h + 1,
{
    if n > 0 {
        let cap = desugared::first_hinted_cap::<T>(hints[0]) as int;
        assert(cap >= 1);
        items_always_fit::<T>(1, cap, hints.skip(1), (n - 1) as nat);
    }
}

/// The buffer of a vector made from guessed items is new and knows its capacity. Every other box stays as
/// it was.
pub proof fn collected_vectors_are_new<T, P: Collect>(
    s: State<P>,
    t: State<P>,
    hints: Seq<usize>,
    n: nat,
    last: GcBox,
)
    requires
        n <= hints.len(),
        n <= usize::MAX,
        desugared::collected::<T, P>(s, t, hints, n, last),
    ensures
        !s.heap.boxes.contains_key(last),
        t.values.contains_key(last) && t.values[last] is Buffer,
        t.heap.boxes[last].meta == Meta::Len(desugared::collected_cap::<T>(hints, n) as usize),
        access_laws::keeps_all(s, t),
{
    if n == 0 {
        new_buffer_is_a_new_box::<T, P>(s, t, last, desugared::collected_cap::<T>(hints, n));
    } else {
        let cap = desugared::first_hinted_cap::<T>(hints[0]) as int;
        let m = (n - 1) as nat;
        let caps = desugared::growths::<T>(1, cap, hints.skip(1), m);
        let (mid, b) = choose|mid: State<P>, b: GcBox| #[trigger]
            crate::vec::new_buffer::<T, P>(s, mid, b, cap) && desugared::buffers_added::<T, P>(
                mid,
                b,
                t,
                last,
                caps,
            );
        collected_items_fit::<T>(hints, n);
        assert(cap >= 1);
        new_buffer_is_a_new_box::<T, P>(s, mid, b, cap);
        each_growth_makes_one_box::<T, P>(mid, b, t, last, caps);
        growths_lead_to_the_capacity::<T>(1, cap, hints.skip(1), m);
        items_always_fit::<T>(1, cap, hints.skip(1), m);
        lemma_keeps_all_twice(s, mid, t);
        if s.heap.boxes.contains_key(last) {
            assert(mid.heap.boxes.contains_key(last));
        }
    }
}

/// A number of items was told exactly if both bounds are that number.
pub proof fn exact_bounds_tell_the_number(bounds: (usize, Option<usize>), n: nat, m: nat)
    ensures
        spec_from_iter::is_exact(bounds, n) <==> bounds.0 == n && (bounds.1 matches Some(upper) && upper
            == n),
        spec_from_iter::is_exact(bounds, n) && spec_from_iter::is_exact(bounds, m) ==> n == m,
{
}

/// Without guesses nothing is guessed to follow any item.
pub proof fn no_guesses_guess_nothing<T, P: Collect>(s: State<P>, hints: Seq<usize>, n: nat)
    ensures
        spec_from_iter::no_guesses(n).len() == n,
        forall|i: int| 0 <= i < n ==> #[trigger] spec_from_iter::no_guesses(n)[i] == 0,
        desugared::can_collect::<T, P>(s, hints, n) ==> spec_from_iter::usable::<T, P>(s, hints, n)
            == hints,
        !desugared::can_collect::<T, P>(s, hints, n) ==> spec_from_iter::usable::<T, P>(s, hints, n)
            == spec_from_iter::no_guesses(n),
{
}

/// A vector that was collected has room for its items: for just these if their number was told exactly,
/// and a buffer that is new either way.
pub proof fn collecting_makes_room<T, P: Collect>(
    v: Vec<T>,
    s: State<P>,
    t: State<P>,
    bounds: (usize, Option<usize>),
    hints: Seq<usize>,
    n: nat,
)
    requires
        n == hints.len(),
        n <= usize::MAX,
        v.collected(s, t, bounds, hints, n),
    ensures
        n <= v.cap,
        spec_from_iter::is_exact(bounds, n) && vstd::layout::size_of::<T>() > 0 ==> v.cap == n,
        spec_from_iter::is_exact(bounds, n) ==> t.heap.all.len() == s.heap.all.len() + 1,
        !s.heap.boxes.contains_key(v.buf.ptr),
        t.values[v.buf.ptr] is Buffer,
        t.heap.boxes[v.buf.ptr].meta == Meta::Len(v.cap),
        access_laws::keeps_all(s, t),
{
    if spec_from_iter::is_exact(bounds, n) {
        new_buffer_is_a_new_box::<T, P>(s, t, v.buf.ptr, v.cap as int);
    } else {
        let used = spec_from_iter::usable::<T, P>(s, hints, n);
        collected_items_fit::<T>(used, n);
        collected_vectors_are_new::<T, P>(s, t, used, n, v.buf.ptr);
    }
}

/// What was collected into a row is read from it: as many values as there were items, in order, in a box
/// that is new.
pub proof fn collected_row_is_read_back<T: Collect>(s: State<T>, t: State<T>, b: GcBox, row: Seq<T>)
    requires
        spec_from_iter::holds_new_row(s, t, b, row),
    ensures
        t.holds_row(b),
        t.row(b) == row,
        t.row(b).len() == row.len(),
        t.heap.boxes[b].meta == Meta::Len(row.len() as usize),
        !s.heap.boxes.contains_key(b),
        access_laws::keeps_all(s, t),
{
    added_boxes_change_no_others(s, t);
}

/// A row whose number of items was told exactly takes one new box.
pub proof fn exact_rows_take_one_box<T: Collect>(
    s: State<T>,
    t: State<T>,
    b: GcBox,
    row: Seq<T>,
    bounds: (usize, Option<usize>),
    hints: Seq<usize>,
)
    requires
        spec_from_iter::row_collected(s, t, b, row, bounds, hints),
        spec_from_iter::is_exact(bounds, row.len()),
    ensures
        t.holds_row(b) && t.row(b) == row,
        t.heap.all == s.heap.all.push(b),
        !s.heap.boxes.contains_key(b),
{
}

/// What was collected into a vector is what the iterator gave.
pub proof fn collected_vector_holds_the_items<P: Collect, T, I: Iterator<Item = T>>(
    v: Vec<T>,
    s: State<P>,
    t: State<P>,
    items: Seq<T>,
)
    requires
        <Vec<T> as spec_from_iter::SpecFromIter<P, T, I>>::made(v, s, t, items),
    ensures
        v@ == items,
        v.stands_in(t),
        !s.heap.boxes.contains_key(v.buf.ptr),
        access_laws::keeps_all(s, t),
{
    added_boxes_change_no_others(s, t);
}

} // verus!
