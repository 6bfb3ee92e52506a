//! Every step of the collector keeps the invariant of the heap.

use crate::heap_view::{BoxView, HeapView, Phase};
use crate::types::{Flags, GcBox, GcColor};
use vstd::prelude::*;

verus! {

/// Changing the colour of a box without touching the queues keeps the invariant, as long as the
/// colour agrees with the queues and the phase.
pub proof fn recolor_keeps_inv(s: HeapView, b: GcBox, flags: Flags)
    requires
        s.inv(),
        s.has(b),
        !s.queued(b),
        flags.color != GcColor::Gray,
        flags.color == GcColor::Black ==> flags.live,
        s.phase != Phase::Mark && !s.is_unswept(b) ==> flags.color == GcColor::White,
    ensures
        s.with_flags(b, flags).inv(),
{
    let t = s.with_flags(b, flags);
    assert forall|i: int|
        (t.phase == Phase::Sweep || t.phase == Phase::Sleep) && t.unswept <= i
            < t.all.len() implies t.color(#[trigger] t.all[i]) == GcColor::White by {
        if t.all[i] == b {
            if s.is_unswept(b) {
                let j = choose|j: int| 0 <= j < s.unswept && s.all[j] == b;
                assert(s.all[i] != s.all[j]);
            }
        } else {
            assert(s.color(s.all[i]) == GcColor::White);
        }
    }
}

/// Finding a strong pointer keeps the invariant.
pub proof fn trace_keeps_inv(s: HeapView, b: GcBox)
    requires
        s.inv(),
        s.phase == Phase::Mark,
        s.has(b),
        s.live(b),
    ensures
        s.trace(b).inv(),
{
    if s.is_white(b) {
        assert(!s.queued(b));
        push_gray_keeps_inv(s, b);
        recolor_keeps_inv(s, b, Flags { color: GcColor::Black, ..s.boxes[b].flags });
    }
}

/// Queueing a white box keeps the invariant.
pub proof fn push_gray_keeps_inv(s: HeapView, b: GcBox)
    requires
        s.inv(),
        s.phase == Phase::Mark,
        s.has(b),
        s.live(b),
        !s.queued(b),
    ensures
        (HeapView { gray: s.gray.push(b), ..s.with_color(b, GcColor::Gray) }).inv(),
        (HeapView { gray_again: s.gray_again.push(b), ..s.with_color(b, GcColor::Gray) }).inv(),
{
    broadcast use vstd::seq_lib::group_seq_properties;

    let t = HeapView { gray: s.gray.push(b), ..s.with_color(b, GcColor::Gray) };
    let u = HeapView { gray_again: s.gray_again.push(b), ..s.with_color(b, GcColor::Gray) };
    assert forall|x: GcBox| s.gray.push(b).contains(x) <==> (s.gray.contains(x) || x == b) by {
        assert(s.gray.push(b)[s.gray.len() as int] == b);
    }
    assert forall|x: GcBox| s.gray_again.push(b).contains(x) <==> (s.gray_again.contains(x) || x
        == b) by {
        assert(s.gray_again.push(b)[s.gray_again.len() as int] == b);
    }
}

/// Finding a weak pointer keeps the invariant.
pub proof fn trace_weak_keeps_inv(s: HeapView, b: GcBox)
    requires
        s.inv(),
        s.phase == Phase::Mark,
        s.has(b),
    ensures
        s.trace_weak(b).inv(),
{
    if s.color(b) == GcColor::White {
        recolor_keeps_inv(s, b, Flags { color: GcColor::WhiteWeak, ..s.boxes[b].flags });
    }
}

/// Queueing a black box again keeps the invariant.
pub proof fn make_gray_again_keeps_inv(s: HeapView, b: GcBox)
    requires
        s.inv(),
        s.phase == Phase::Mark,
        s.has(b),
        s.color(b) == GcColor::Black,
    ensures
        s.make_gray_again(b).inv(),
{
    push_gray_keeps_inv(s, b);
}

/// Resurrecting a box keeps the invariant.
pub proof fn resurrect_keeps_inv(s: HeapView, b: GcBox)
    requires
        s.inv(),
        s.phase == Phase::Mark,
        s.has(b),
        s.live(b),
    ensures
        s.resurrect(b).inv(),
{
    if s.is_white(b) {
        push_gray_keeps_inv(s, b);
    }
}

/// Taking a box off the queues keeps the invariant.
pub proof fn take_gray_keeps_inv(s: HeapView)
    requires
        s.inv(),
        s.next_gray() is Some,
    ensures
        s.has(s.next_gray()->0),
        s.live(s.next_gray()->0),
        s.color(s.next_gray()->0) == GcColor::Gray,
        s.phase == Phase::Mark,
        s.take_gray().inv(),
{
    take_from_keeps_inv(s, s.gray.len() > 0);
}

/// Taking a box off one of the queues keeps the invariant.
pub proof fn take_from_keeps_inv(s: HeapView, first: bool)
    requires
        s.inv(),
        if first {
            s.gray.len() > 0
        } else {
            s.gray_again.len() > 0
        },
    ensures
        ({
            let b = if first {
                s.gray.last()
            } else {
                s.gray_again.last()
            };
            &&& s.has(b)
            &&& s.live(b)
            &&& s.color(b) == GcColor::Gray
            &&& s.all.contains(b)
        }),
        s.phase == Phase::Mark,
        s.take_from(first).inv(),
{
    broadcast use vstd::seq_lib::group_seq_properties;

    let b = if first {
        s.gray.last()
    } else {
        s.gray_again.last()
    };
    let t = s.take_from(first);
    if first {
        assert(s.gray.contains(b));
        assert(s.queued(b));
        assert forall|x: GcBox| t.gray.contains(x) <==> (s.gray.contains(x) && x != b) by {
            lemma_drop_last_contains(s.gray, x);
        }
    } else {
        assert(s.gray_again.contains(b));
        assert(s.queued(b));
        assert forall|x: GcBox| t.gray_again.contains(x) <==> (s.gray_again.contains(x) && x
            != b) by {
            lemma_drop_last_contains(s.gray_again, x);
        }
    }
}

/// Without duplicates, dropping the last element takes away exactly that one.
pub proof fn lemma_drop_last_contains(s: Seq<GcBox>, x: GcBox)
    requires
        s.no_duplicates(),
        s.len() > 0,
    ensures
        s.drop_last().contains(x) <==> (s.contains(x) && x != s.last()),
        s.drop_last().no_duplicates(),
{
    if s.drop_last().contains(x) {
        let i = choose|i: int| 0 <= i < s.drop_last().len() && s.drop_last()[i] == x;
        assert(s[i] == x);
    }
    if s.contains(x) && x != s.last() {
        let i = choose|i: int| 0 <= i < s.len() && s[i] == x;
        assert(s.drop_last()[i] == x);
    }
}

/// Without duplicates, removing an element takes away exactly that one.
pub proof fn lemma_remove_contains(s: Seq<GcBox>, k: int, x: GcBox)
    requires
        s.no_duplicates(),
        0 <= k < s.len(),
    ensures
        s.remove(k).contains(x) <==> (s.contains(x) && x != s[k]),
        s.remove(k).no_duplicates(),
{
    s.remove_ensures(k);
    let t = s.remove(k);
    if t.contains(x) {
        let i = choose|i: int| 0 <= i < t.len() && t[i] == x;
        if i < k {
            assert(s[i] == x);
        } else {
            assert(s[i + 1] == x);
        }
    }
    if s.contains(x) && x != s[k] {
        let i = choose|i: int| 0 <= i < s.len() && s[i] == x;
        if i < k {
            assert(t[i] == x);
        } else {
            assert(t[i - 1] == x);
        }
    }
    assert forall|i: int, j: int| 0 <= i < j < t.len() implies t[i] != t[j] by {
        let p = if i < k {
            i
        } else {
            i + 1
        };
        let q = if j < k {
            j
        } else {
            j + 1
        };
        assert(s[p] != s[q]);
    }
}

/// With nothing left to trace, the sweep may begin.
pub proof fn start_sweep_keeps_inv(s: HeapView)
    requires
        s.inv(),
        s.phase == Phase::Mark,
        s.gray.len() == 0,
        s.gray_again.len() == 0,
    ensures
        s.start_sweep().inv(),
{
}

/// A visit of the sweep keeps the invariant.
pub proof fn sweep_next_keeps_inv(s: HeapView)
    requires
        s.inv(),
        s.phase == Phase::Sweep,
        s.unswept > 0,
    ensures
        s.has(s.next_unswept()->0),
        s.color(s.next_unswept()->0) != GcColor::Gray,
        s.sweep_next().inv(),
{
    let k = s.unswept - 1;
    let b = s.all[k];
    let t = s.sweep_next();
    assert(s.all.contains(b));
    assert(s.has(b));
    assert(!s.queued(b));
    if s.color(b) == GcColor::White {
        assert forall|x: GcBox| t.all.contains(x) <==> (s.all.contains(x) && x != b) by {
            lemma_remove_contains(s.all, k, x);
        }
        lemma_remove_contains(s.all, k, b);
        s.all.remove_ensures(k);
        assert forall|i: int| t.unswept <= i < t.all.len() implies t.color(#[trigger] t.all[i])
            == GcColor::White by {
            assert(t.all[i] == s.all[i + 1]);
            assert(s.all[i + 1] != s.all[k]);
            assert(s.color(s.all[i + 1]) == GcColor::White);
        }
    } else {
        assert forall|i: int| t.unswept <= i < t.all.len() implies t.color(#[trigger] t.all[i])
            == GcColor::White by {
            if i > k {
                assert(s.all[i] != s.all[k]);
                assert(s.color(s.all[i]) == GcColor::White);
            }
        }
    }
}

/// The end of a cycle keeps the invariant.
pub proof fn finish_cycle_keeps_inv(s: HeapView, has_slept: bool)
    requires
        s.inv(),
        s.phase == Phase::Sweep,
        s.unswept == 0,
    ensures
        s.finish_cycle(has_slept).inv(),
{
}

/// A new white box above all others keeps the invariant.
pub proof fn allocate_keeps_inv(s: HeapView, b: GcBox, new: BoxView, brk: usize)
    requires
        s.inv(),
        s.brk < b.addr <= brk,
        new.flags.color == GcColor::White,
    ensures
        !s.has(b),
        s.allocate(b, new, brk).inv(),
{
    let t = s.allocate(b, new, brk);
    assert forall|x: GcBox| t.all.contains(x) <==> (s.all.contains(x) || x == b) by {
        if s.all.contains(x) {
            let i = choose|i: int| 0 <= i < s.all.len() && s.all[i] == x;
            assert(t.all[i] == x);
        }
        assert(t.all[s.all.len() as int] == b);
    }
    assert(!s.queued(b)) by {
        assert(!s.has(b));
    }
    assert(!s.all.contains(b));
    assert forall|i: int|
        (t.phase == Phase::Sweep || t.phase == Phase::Sleep) && t.unswept <= i
            < t.all.len() implies t.color(#[trigger] t.all[i]) == GcColor::White by {
        if i < s.all.len() {
            assert(s.all.contains(s.all[i]));
            assert(s.color(s.all[i]) == GcColor::White);
        }
    }
}

/// Dropping the youngest box keeps the invariant.
pub proof fn drop_next_keeps_inv(s: HeapView)
    requires
        s.inv(),
        s.phase == Phase::Drop,
        s.all.len() > 0,
    ensures
        s.drop_next().inv(),
{
    let t = s.drop_next();
    let n = (s.all.len() - 1) as int;
    assert forall|b: GcBox|
        #![trigger t.boxes.contains_key(b)]
        #![trigger t.all.contains(b)]
        t.boxes.contains_key(b) <==> t.all.contains(b) by {
        if t.all.contains(b) {
            let i = choose|i: int| 0 <= i < t.all.len() && t.all[i] == b;
            assert(s.all[i] == b && s.all[i] != s.all[n]);
            assert(s.all.contains(b));
        }
        if t.boxes.contains_key(b) {
            assert(s.all.contains(b));
            let i = choose|i: int| 0 <= i < s.all.len() && s.all[i] == b;
            assert(t.all[i] == b);
        }
    }
}

} // verus!
