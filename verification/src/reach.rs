//! What a collection keeps and what it frees.

use crate::collect::{self, Collect, Edge};
use crate::collection::{self, Progress, RunUntil, Stop};
use crate::heap::Heap;
use crate::heap_view::Phase;
use crate::marking;
use crate::metrics::Metrics;
use crate::soundness;
use crate::state::State;
use crate::types::{GcBox, GcColor};
use vstd::prelude::*;

verus! {

/// Whether strong pointers lead from the root along a row of boxes.
pub open spec fn is_path<T: Collect>(s: State<T>, root: Seq<Edge>, path: Seq<GcBox>) -> bool {
    &&& path.len() > 0
    &&& marking::points_strongly(root, path[0])
    &&& forall|i: int|
        0 < i < path.len() ==> marking::points_strongly(s.edges(path[i - 1]), #[trigger] path[i])
}

/// Whether strong pointers lead from the root to a box.
pub open spec fn reachable<T: Collect>(s: State<T>, root: Seq<Edge>, b: GcBox) -> bool {
    exists|path: Seq<GcBox>| #[trigger] is_path(s, root, path) && path.last() == b
}

/// Whether a weak pointer to a box lies in the root or in a reachable box.
pub open spec fn weakly_held<T: Collect>(s: State<T>, root: Seq<Edge>, b: GcBox) -> bool {
    ||| marking::points_weakly(root, b)
    ||| exists|a: GcBox| #[trigger]
        reachable(s, root, a) && marking::points_weakly(s.edges(a), b)
}

/// What the root points to is reachable, what a reachable box points to is reachable, and nothing else
/// is: whatever holds of the targets of the root, and of all that is pointed to by what it holds of,
/// holds of every reachable box.
pub proof fn reachable_is_what_pointers_lead_to<T: Collect>(
    s: State<T>,
    root: Seq<Edge>,
    a: GcBox,
    b: GcBox,
    closed: Set<GcBox>,
)
    ensures
        root.contains(Edge::Strong(b)) ==> reachable(s, root, b),
        reachable(s, root, a) && s.edges(a).contains(Edge::Strong(b)) ==> reachable(s, root, b),
        (forall|x: GcBox| #[trigger] root.contains(Edge::Strong(x)) ==> closed.contains(x)) && (forall|
            x: GcBox,
            y: GcBox,
        |
            closed.contains(x) && s.edges(x).contains(Edge::Strong(y)) ==> closed.contains(y))
            && reachable(s, root, b) ==> closed.contains(b),
{
    if root.contains(Edge::Strong(b)) {
        let i = choose|i: int| 0 <= i < root.len() && root[i] == Edge::Strong(b);
        assert(root[i] == Edge::Strong(b));
        assert(marking::points_strongly(root, b));
        let path = seq![b];
        assert(is_path(s, root, path));
        assert(path.last() == b);
    }
    if reachable(s, root, a) && s.edges(a).contains(Edge::Strong(b)) {
        let i = choose|i: int| 0 <= i < s.edges(a).len() && s.edges(a)[i] == Edge::Strong(b);
        assert(s.edges(a)[i] == Edge::Strong(b));
        assert(marking::points_strongly(s.edges(a), b));
        lemma_extend_path(s, root, a, b);
    }
    if (forall|x: GcBox| #[trigger] root.contains(Edge::Strong(x)) ==> closed.contains(x)) && (forall|
        x: GcBox,
        y: GcBox,
    |
        closed.contains(x) && s.edges(x).contains(Edge::Strong(y)) ==> closed.contains(y))
        && reachable(s, root, b) {
        let path = choose|path: Seq<GcBox>| #[trigger]
            is_path(s, root, path) && path.last() == b;
        lemma_path_is_closed(s, root, path, closed, path.len());
    }
}

proof fn lemma_path_is_closed<T: Collect>(
    s: State<T>,
    root: Seq<Edge>,
    path: Seq<GcBox>,
    closed: Set<GcBox>,
    n: nat,
)
    requires
        is_path(s, root, path),
        0 < n <= path.len(),
        forall|x: GcBox| #[trigger] root.contains(Edge::Strong(x)) ==> closed.contains(x),
        forall|x: GcBox, y: GcBox|
            closed.contains(x) && s.edges(x).contains(Edge::Strong(y)) ==> closed.contains(y),
    ensures
        closed.contains(path[n - 1]),
    decreases n,
{
    if n == 1 {
        let i = choose|i: int| 0 <= i < root.len() && #[trigger] root[i] == Edge::Strong(path[0]);
        assert(root.contains(root[i]));
    } else {
        lemma_path_is_closed(s, root, path, closed, (n - 1) as nat);
        let a = path[n - 2];
        let b = path[n - 1];
        assert(marking::points_strongly(s.edges(path[n - 1 - 1]), path[n - 1]));
        let i = choose|i: int| 0 <= i < s.edges(a).len() && #[trigger] s.edges(a)[i] == Edge::Strong(b);
        assert(s.edges(a).contains(s.edges(a)[i]));
    }
}

/// A box is held weakly exactly if a weak pointer to it lies in the root or in a reachable box.
pub proof fn weakly_held_is_pointed_to_weakly<T: Collect>(s: State<T>, root: Seq<Edge>, b: GcBox)
    ensures
        weakly_held(s, root, b) <==> root.contains(Edge::Weak(b)) || exists|a: GcBox| #[trigger]
            reachable(s, root, a) && s.edges(a).contains(Edge::Weak(b)),
{
    assert forall|edges: Seq<Edge>| #[trigger] marking::points_weakly(edges, b) <==> edges.contains(
        Edge::Weak(b),
    ) by {
        if edges.contains(Edge::Weak(b)) {
            let i = choose|i: int| 0 <= i < edges.len() && edges[i] == Edge::Weak(b);
            assert(edges[i] == Edge::Weak(b));
        }
        if marking::points_weakly(edges, b) {
            let i = choose|i: int| 0 <= i < edges.len() && #[trigger] edges[i] == Edge::Weak(b);
            assert(edges.contains(edges[i]));
        }
    }
    assert(marking::points_weakly(root, b) == root.contains(Edge::Weak(b)));
    if weakly_held(s, root, b) && !root.contains(Edge::Weak(b)) {
        let a = choose|a: GcBox| #[trigger]
            reachable(s, root, a) && marking::points_weakly(s.edges(a), b);
        assert(s.edges(a).contains(Edge::Weak(b)));
    }
    if exists|a: GcBox| #[trigger] reachable(s, root, a) && s.edges(a).contains(Edge::Weak(b)) {
        let a = choose|a: GcBox| #[trigger]
            reachable(s, root, a) && s.edges(a).contains(Edge::Weak(b));
        assert(marking::points_weakly(s.edges(a), b));
    }
}

/// Whether `t` has only lost contents since `s`: what is left is as it was.
pub open spec fn retained<T: Collect>(s: State<T>, t: State<T>) -> bool {
    forall|b: GcBox| #[trigger]
        t.values.contains_key(b) ==> {
            &&& s.values.contains_key(b)
            &&& t.values[b] == s.values[b]
            &&& t.heap.boxes[b].meta == s.heap.boxes[b].meta
            &&& t.heap.boxes[b].layout == s.heap.boxes[b].layout
            &&& t.edges(b) == s.edges(b)
        }
}

/// A pointer in a reachable box leads to a reachable box.
pub(crate) proof fn lemma_extend_path<T: Collect>(s: State<T>, root: Seq<Edge>, a: GcBox, b: GcBox)
    requires
        reachable(s, root, a),
        marking::points_strongly(s.edges(a), b),
    ensures
        reachable(s, root, b),
{
    let path = choose|path: Seq<GcBox>| #[trigger] is_path(s, root, path) && path.last() == a;
    let longer = path.push(b);
    assert forall|i: int| 0 < i < longer.len() implies marking::points_strongly(
        s.edges(longer[i - 1]),
        #[trigger] longer[i],
    ) by {
        if i < path.len() {
            assert(longer[i] == path[i]);
        }
    }
    assert(is_path(s, root, longer));
    assert(longer.last() == b);
}

/// A pointer in the root leads to a reachable box.
proof fn lemma_root_path<T: Collect>(s: State<T>, root: Seq<Edge>, b: GcBox)
    requires
        marking::points_strongly(root, b),
    ensures
        reachable(s, root, b),
{
    let path = seq![b];
    assert(is_path(s, root, path));
    assert(path.last() == b);
}

/// No step of a collection changes contents.
proof fn lemma_step_retains<T: Collect>(p: Progress<T>, root: Seq<Edge>, stop: Stop)
    requires
        p.state.sound(root, Seq::empty()),
    ensures
        retained(p.state, p.step(root, stop).state),
{
    let s = p.state;
    let heap = s.heap;
    let t = p.step(root, stop).state;
    match heap.phase {
        Phase::Sleep => {},
        Phase::Mark => if heap.next_gray() is Some {
            let b = heap.next_gray()->0;
            soundness::mark_box_is_sound(s, root, Seq::empty());
            crate::heap_laws::take_gray_keeps_inv(heap);
            assert(heap.queued(b));
            marking::trace_all_marks(heap.take_gray(), s.edges(b));
            assert forall|x: GcBox| #[trigger] t.values.contains_key(x) implies {
                &&& t.heap.boxes[x].meta == s.heap.boxes[x].meta
                &&& t.heap.boxes[x].layout == s.heap.boxes[x].layout
                &&& t.heap.boxes[x].flags.vtable == s.heap.boxes[x].flags.vtable
            } by {
                assert(heap.take_gray().boxes.contains_key(x));
            }
        } else if heap.root_needs_trace {
            soundness::mark_root_is_sound(s, root, Seq::empty());
            marking::trace_all_marks(heap, root);
            assert forall|x: GcBox| #[trigger] t.values.contains_key(x) implies {
                &&& t.heap.boxes[x].meta == s.heap.boxes[x].meta
                &&& t.heap.boxes[x].layout == s.heap.boxes[x].layout
                &&& t.heap.boxes[x].flags.vtable == s.heap.boxes[x].flags.vtable
            } by {
                assert(heap.boxes.contains_key(x));
            }
        },
        Phase::Sweep => {
            if heap.unswept > 0 {
                soundness::sweep_one_keeps_inv(s);
            }
        },
        Phase::Drop => {},
    }
}

/// However far a collection goes, it stays sound and only loses contents.
pub proof fn steps_retain<T: Collect>(s: State<T>, root: Seq<Edge>, stop: Stop, n: nat)
    requires
        s.sound(root, Seq::empty()),
        forall|k: nat| k < n ==> !(#[trigger] Progress::start(s).after(root, stop, k)).done,
    ensures
        ({
            let p = Progress::start(s).after(root, stop, n);
            &&& p.state.sound(root, Seq::empty())
            &&& retained(s, p.state)
            &&& !p.done && p.state.heap.phase == Phase::Sleep ==> !p.has_slept
        }),
    decreases n,
{
    if n > 0 {
        let m = (n - 1) as nat;
        steps_retain(s, root, stop, m);
        let p = Progress::start(s).after(root, stop, m);
        collection::step_is_sound(p, root, stop);
        lemma_step_retains(p, root, stop);
    }
}

/// In a sound state that retains `s`, what safe pointers led to in `s` is there and not doomed.
pub(crate) proof fn lemma_path_survives<T: Collect>(
    s: State<T>,
    t: State<T>,
    root: Seq<Edge>,
    from: Seq<Edge>,
    path: Seq<GcBox>,
)
    requires
        t.sound(root, Seq::empty()),
        t.all_safe(from),
        retained(s, t),
        is_path(s, from, path),
    ensures
        is_path(t, from, path),
        t.values.contains_key(path.last()),
        !t.doomed(path.last()),
    decreases path.len(),
{
    if path.len() == 1 {
        let i = choose|i: int| 0 <= i < from.len() && #[trigger] from[i] == Edge::Strong(path[0]);
        assert(t.safe(from[i]));
    } else {
        let front = path.drop_last();
        assert forall|i: int| 0 < i < front.len() implies marking::points_strongly(
            s.edges(front[i - 1]),
            #[trigger] front[i],
        ) by {
            assert(front[i] == path[i]);
        }
        lemma_path_survives(s, t, root, from, front);
        let n = path.len() - 1;
        let a = path[n - 1];
        assert(front.last() == a);
        assert(marking::points_strongly(s.edges(path[n - 1]), path[n]));
        assert(t.edges(a) == s.edges(a));
        let i = choose|i: int|
            0 <= i < t.edges(a).len() && #[trigger] t.edges(a)[i] == Edge::Strong(path[n]);
        assert(t.all_safe(t.edges(a)));
        assert(t.safe(t.edges(a)[i]));
        assert forall|i: int| 0 < i < path.len() implies marking::points_strongly(
            t.edges(path[i - 1]),
            #[trigger] path[i],
        ) by {
            if i < n {
                assert(front[i] == path[i]);
            }
        }
    }
}

/// A collection keeps everything that strong pointers lead to from the root, with the contents
/// unchanged, wherever it stops.
pub proof fn collection_keeps_reachable<T: Collect, F: Fn(&Metrics) -> bool>(
    s: State<T>,
    end: Progress<T>,
    n: nat,
    root: Seq<Edge>,
    run_until: RunUntil,
    stop: Stop,
    owes: F,
)
    requires
        s.sound(root, Seq::empty()),
        Progress::start(s).ends_after(end, n, root, run_until, stop, owes),
    ensures
        forall|b: GcBox| #[trigger]
            reachable(s, root, b) ==> {
                &&& end.state.heap.has(b)
                &&& end.state.heap.live(b)
                &&& end.state.values[b] == s.values[b]
                &&& reachable(end.state, root, b)
            },
        forall|b: GcBox| #[trigger]
            end.state.values.contains_key(b) ==> s.values.contains_key(b) && end.state.values[b]
                == s.values[b],
{
    steps_retain(s, root, stop, n);
    assert forall|b: GcBox| #[trigger] reachable(s, root, b) implies {
        &&& end.state.heap.has(b)
        &&& end.state.heap.live(b)
        &&& end.state.values[b] == s.values[b]
        &&& reachable(end.state, root, b)
    } by {
        let path = choose|path: Seq<GcBox>| #[trigger] is_path(s, root, path) && path.last() == b;
        lemma_path_survives(s, end.state, root, root, path);
        assert(end.state.values.contains_key(b));
    }
}

/// What is known of the boxes in a cycle that this collection did from its beginning.
spec fn exact<T: Collect>(s: State<T>, root: Seq<Edge>, p: Progress<T>) -> bool {
    let heap = p.state.heap;
    p.has_slept ==> forall|b: GcBox| #[trigger]
        heap.boxes.contains_key(b) ==> if heap.phase == Phase::Mark || heap.is_unswept(b) {
            &&& !heap.is_white(b) ==> reachable(s, root, b)
            &&& heap.color(b) == GcColor::WhiteWeak ==> weakly_held(s, root, b)
        } else {
            &&& heap.live(b) ==> reachable(s, root, b)
            &&& !heap.live(b) ==> weakly_held(s, root, b)
        }
}

proof fn lemma_step_exact<T: Collect>(s: State<T>, root: Seq<Edge>, stop: Stop, p: Progress<T>)
    requires
        p.state.sound(root, Seq::empty()),
        retained(s, p.state),
        !p.done,
        p.state.heap.phase == Phase::Sleep ==> !p.has_slept,
        exact(s, root, p),
    ensures
        exact(s, root, p.step(root, stop)),
{
    let heap = p.state.heap;
    let q = p.step(root, stop);
    let next = q.state.heap;
    match heap.phase {
        Phase::Sleep => {
            assert forall|b: GcBox| #[trigger] next.boxes.contains_key(b) implies next.color(b)
                == GcColor::White by {
                assert(heap.all.contains(b));
                let i = choose|i: int| 0 <= i < heap.all.len() && heap.all[i] == b;
                assert(heap.color(heap.all[i]) == GcColor::White);
            }
        },
        Phase::Mark => if heap.next_gray() is Some {
            let b = heap.next_gray()->0;
            let h = heap.take_gray();
            soundness::mark_box_is_sound(p.state, root, Seq::empty());
            crate::heap_laws::take_gray_keeps_inv(heap);
            assert(heap.queued(b));
            assert(heap.boxes.contains_key(b));
            let edges = p.state.edges(b);
            assert(edges == s.edges(b));
            marking::trace_all_marks(h, edges);
            if p.has_slept {
                assert forall|x: GcBox| #[trigger] next.boxes.contains_key(x) implies {
                    &&& !next.is_white(x) ==> reachable(s, root, x)
                    &&& next.color(x) == GcColor::WhiteWeak ==> weakly_held(s, root, x)
                } by {
                    assert(h.boxes.dom().contains(x));
                    assert(heap.boxes.contains_key(x));
                    if marking::points_strongly(edges, x) {
                        lemma_extend_path(s, root, b, x);
                    }
                }
            }
        } else if heap.root_needs_trace {
            soundness::mark_root_is_sound(p.state, root, Seq::empty());
            marking::trace_all_marks(heap, root);
            let h = collect::trace_all::<Heap>(heap, root);
            if p.has_slept {
                assert forall|x: GcBox| #[trigger] next.boxes.contains_key(x) implies {
                    &&& !next.is_white(x) ==> reachable(s, root, x)
                    &&& next.color(x) == GcColor::WhiteWeak ==> weakly_held(s, root, x)
                } by {
                    assert(h.boxes.contains_key(x));
                    assert(heap.boxes.dom().contains(x));
                    if marking::points_strongly(root, x) {
                        lemma_root_path(s, root, x);
                    }
                }
            }
        } else if !stop.before_sweep() {
            assert forall|b: GcBox| #[trigger] next.boxes.contains_key(b) implies next.is_unswept(
                b,
            ) by {
                assert(heap.all.contains(b));
                let i = choose|i: int| 0 <= i < heap.all.len() && heap.all[i] == b;
                assert(next.all[i] == b);
            }
        },
        Phase::Sweep => if !stop.before_free() && heap.unswept > 0 {
            let b = heap.next_unswept()->0;
            soundness::sweep_one_keeps_inv(p.state);
            soundness::lemma_unswept_after(p.state);
            assert(heap.all.contains(b));
            assert(heap.boxes.contains_key(b));
            assert(!heap.queued(b));
            if p.has_slept {
                assert forall|x: GcBox| #[trigger]
                    next.boxes.contains_key(x) implies if next.is_unswept(x) {
                    &&& !next.is_white(x) ==> reachable(s, root, x)
                    &&& next.color(x) == GcColor::WhiteWeak ==> weakly_held(s, root, x)
                } else {
                    &&& next.live(x) ==> reachable(s, root, x)
                    &&& !next.live(x) ==> weakly_held(s, root, x)
                } by {
                    assert(heap.boxes.contains_key(x));
                    assert(next.is_unswept(x) <==> heap.is_unswept(x) && x != b);
                }
            }
        },
        Phase::Drop => {},
    }
}

proof fn lemma_steps_exact<T: Collect>(s: State<T>, root: Seq<Edge>, stop: Stop, n: nat)
    requires
        s.sound(root, Seq::empty()),
        forall|k: nat| k < n ==> !(#[trigger] Progress::start(s).after(root, stop, k)).done,
    ensures
        exact(s, root, Progress::start(s).after(root, stop, n)),
    decreases n,
{
    if n > 0 {
        let m = (n - 1) as nat;
        lemma_steps_exact(s, root, stop, m);
        steps_retain(s, root, stop, m);
        lemma_step_exact(s, root, stop, Progress::start(s).after(root, stop, m));
    }
}

/// What a collection leaves behind that did the last cycle from its beginning to its end.
proof fn lemma_entire_cycle_is_exact<T: Collect, F: Fn(&Metrics) -> bool>(
    s: State<T>,
    end: Progress<T>,
    n: nat,
    root: Seq<Edge>,
    run_until: RunUntil,
    stop: Stop,
    owes: F,
)
    requires
        s.sound(root, Seq::empty()),
        Progress::start(s).ends_after(end, n, root, run_until, stop, owes),
        end.has_slept,
        end.state.heap.phase == Phase::Sleep,
    ensures
        forall|b: GcBox| #[trigger]
            end.state.values.contains_key(b) <==> reachable(s, root, b),
        forall|b: GcBox| #[trigger]
            end.state.heap.has(b) && !end.state.heap.live(b) ==> weakly_held(s, root, b),
{
    collection_keeps_reachable(s, end, n, root, run_until, stop, owes);
    steps_retain(s, root, stop, n);
    lemma_steps_exact(s, root, stop, n);
    assert forall|b: GcBox| #[trigger] end.state.values.contains_key(b) implies reachable(
        s,
        root,
        b,
    ) by {
        assert(end.state.heap.boxes.contains_key(b));
    }
    assert forall|b: GcBox| #[trigger] reachable(
        s,
        root,
        b,
    ) implies end.state.values.contains_key(b) by {
        assert(end.state.heap.has(b));
    }
    assert forall|b: GcBox| #[trigger]
        end.state.heap.has(b) && !end.state.heap.live(b) implies weakly_held(s, root, b) by {
        assert(end.state.heap.boxes.contains_key(b));
    }
}

/// A collection that began asleep does every cycle from its beginning.
proof fn lemma_slept_from_the_beginning<T: Collect>(
    s: State<T>,
    root: Seq<Edge>,
    stop: Stop,
    n: nat,
)
    requires
        s.heap.phase == Phase::Sleep,
        n > 0,
    ensures
        Progress::start(s).after(root, stop, n).has_slept,
    decreases n,
{
    let m = (n - 1) as nat;
    if m > 0 {
        lemma_slept_from_the_beginning(s, root, stop, m);
    } else {
        assert(Progress::start(s).after(root, stop, 0) == Progress::start(s));
    }
}

/// A collection that began asleep and finished the cycle is exact, as a full one is: a box is alive
/// afterwards if and only if strong pointers lead to it from the root, and a box whose contents are
/// gone is kept only for a weak pointer that lies in the root or in a reachable box.
pub proof fn finished_cycle_is_exact<T: Collect, F: Fn(&Metrics) -> bool>(
    s: State<T>,
    end: Progress<T>,
    n: nat,
    root: Seq<Edge>,
    run_until: RunUntil,
    owes: F,
)
    requires
        s.sound(root, Seq::empty()),
        s.heap.phase == Phase::Sleep,
        Progress::start(s).ends_after(end, n, root, run_until, Stop::FinishCycle, owes),
        end.done,
    ensures
        end.state.heap.phase == Phase::Sleep,
        forall|b: GcBox| #[trigger]
            end.state.values.contains_key(b) <==> reachable(s, root, b),
        forall|b: GcBox| #[trigger]
            end.state.heap.has(b) && !end.state.heap.live(b) ==> weakly_held(s, root, b),
{
    assert(n > 0);
    lemma_slept_from_the_beginning(s, root, Stop::FinishCycle, n);
    stops_asleep(s, end, n, root, run_until, Stop::FinishCycle, owes);
    lemma_entire_cycle_is_exact(s, end, n, root, run_until, Stop::FinishCycle, owes);
}

/// A full collection is exact: a box is alive afterwards if and only if strong pointers lead to it
/// from the root, and a box whose contents are gone is kept only for a weak pointer that lies in
/// the root or in a reachable box.
pub proof fn full_collection_is_exact<T: Collect, F: Fn(&Metrics) -> bool>(
    s: State<T>,
    end: Progress<T>,
    n: nat,
    root: Seq<Edge>,
    run_until: RunUntil,
    owes: F,
)
    requires
        s.sound(root, Seq::empty()),
        Progress::start(s).ends_after(end, n, root, run_until, Stop::Full, owes),
        end.done,
    ensures
        end.state.heap.phase == Phase::Sleep,
        forall|b: GcBox| #[trigger]
            end.state.values.contains_key(b) <==> reachable(s, root, b),
        forall|b: GcBox| #[trigger]
            end.state.heap.has(b) && !end.state.heap.live(b) ==> weakly_held(s, root, b),
{
    assert(n > 0);
    let m = (n - 1) as nat;
    let last = Progress::start(s).after(root, Stop::Full, m);
    steps_retain(s, root, Stop::Full, m);
    assert(end == last.step(root, Stop::Full));
    assert(!last.done);
    lemma_entire_cycle_is_exact(s, end, n, root, run_until, Stop::Full, owes);
}

/// Once everything is marked, no box that strong pointers lead to from the root is white: in
/// finalization it is not dead.
pub proof fn reachable_is_not_dead<T: Collect>(s: State<T>, root: Seq<Edge>, b: GcBox)
    requires
        s.sound(root, Seq::empty()),
        s.heap.phase == Phase::Mark,
        !s.heap.gray_remaining(),
        reachable(s, root, b),
    ensures
        s.heap.color(b) == GcColor::Black,
{
    let path = choose|path: Seq<GcBox>| #[trigger] is_path(s, root, path) && path.last() == b;
    lemma_path_black(s, root, path);
}

proof fn lemma_path_black<T: Collect>(s: State<T>, root: Seq<Edge>, path: Seq<GcBox>)
    requires
        s.sound(root, Seq::empty()),
        s.heap.phase == Phase::Mark,
        !s.heap.gray_remaining(),
        is_path(s, root, path),
    ensures
        s.values.contains_key(path.last()),
        s.heap.color(path.last()) == GcColor::Black,
    decreases path.len(),
{
    let b = path.last();
    lemma_path_survives(s, s, root, root, path);
    assert(s.heap.boxes.contains_key(b));
    assert(!s.heap.queued(b));
    if path.len() == 1 {
        let i = choose|i: int| 0 <= i < root.len() && #[trigger] root[i] == Edge::Strong(path[0]);
        assert(marking::marked(s.heap, root[i]));
    } else {
        let front = path.drop_last();
        assert forall|i: int| 0 < i < front.len() implies marking::points_strongly(
            s.edges(front[i - 1]),
            #[trigger] front[i],
        ) by {
            assert(front[i] == path[i]);
        }
        lemma_path_black(s, root, front);
        let n = path.len() - 1;
        let a = path[n - 1];
        assert(front.last() == a);
        assert(marking::points_strongly(s.edges(path[n - 1]), path[n]));
        let i = choose|i: int|
            0 <= i < s.edges(a).len() && #[trigger] s.edges(a)[i] == Edge::Strong(path[n]);
        assert(s.all_marked(s.edges(a)));
        assert(marking::marked(s.heap, s.edges(a)[i]));
    }
}

/// Marking a box by hand keeps the arena sound, and the box is held for the rest of the cycle.
pub proof fn resurrect_is_sound<T: Collect>(
    s: State<T>,
    root: Seq<Edge>,
    held: Seq<Edge>,
    b: GcBox,
)
    requires
        s.sound(root, held),
        s.heap.phase == Phase::Mark,
        s.heap.has(b),
        s.heap.live(b),
    ensures
        s.with_heap(s.heap.resurrect(b)).sound(root, held.push(Edge::Strong(b))),
{
    let heap = s.heap.resurrect(b);
    let t = s.with_heap(heap);
    let longer = held.push(Edge::Strong(b));
    soundness::lemma_nothing_doomed(s);
    if s.heap.is_white(b) {
        crate::heap_laws::resurrect_keeps_inv(s.heap, b);
    }
    assert(heap.boxes.dom() =~= s.heap.boxes.dom());
    soundness::recolor_is_sound(s, root, held, heap);
    assert forall|i: int| 0 <= i < longer.len() implies t.safe(#[trigger] longer[i])
        && marking::marked(t.heap, longer[i]) by {
        if i < held.len() {
            assert(longer[i] == held[i]);
        } else {
            assert(s.safe(Edge::Strong(b)));
        }
    }
}

/// Until the cycle ends, a collection stays sound with what is held.
proof fn lemma_steps_hold<T: Collect>(
    s: State<T>,
    root: Seq<Edge>,
    held: Seq<Edge>,
    stop: Stop,
    n: nat,
)
    requires
        s.sound(root, held),
        s.heap.phase != Phase::Sleep,
        stop != Stop::Full,
        forall|k: nat| k < n ==> !(#[trigger] Progress::start(s).after(root, stop, k)).done,
    ensures
        ({
            let p = Progress::start(s).after(root, stop, n);
            &&& p.state.sound(root, held)
            &&& !p.done ==> p.state.heap.phase != Phase::Sleep
            &&& !p.has_slept
        }),
    decreases n,
{
    if n > 0 {
        let m = (n - 1) as nat;
        lemma_steps_hold(s, root, held, stop, m);
        let p = Progress::start(s).after(root, stop, m);
        let heap = p.state.heap;
        match heap.phase {
            Phase::Sleep => {},
            Phase::Mark => if heap.next_gray() is Some {
                soundness::mark_box_is_sound(p.state, root, held);
                crate::heap_laws::take_gray_keeps_inv(heap);
                marking::trace_all_marks(heap.take_gray(), p.state.edges(heap.next_gray()->0));
            } else if heap.root_needs_trace {
                soundness::mark_root_is_sound(p.state, root, held);
                marking::trace_all_marks(heap, root);
            } else if !stop.before_sweep() {
                soundness::start_sweep_is_sound(p.state, root, held);
            },
            Phase::Sweep => if !stop.before_free() {
                if heap.unswept > 0 {
                    soundness::sweep_one_is_sound(p.state, root, held);
                } else {
                    soundness::finish_cycle_is_sound(p.state, root, held, p.has_slept);
                }
            },
            Phase::Drop => {},
        }
    }
}

/// A box marked by hand, and all that strong pointers lead to from it, outlives the cycle,
/// whether or not the root leads there.
pub proof fn resurrected_survives<T: Collect, F: Fn(&Metrics) -> bool>(
    s: State<T>,
    b: GcBox,
    end: Progress<T>,
    n: nat,
    root: Seq<Edge>,
    run_until: RunUntil,
    stop: Stop,
    owes: F,
)
    requires
        s.sound(root, Seq::empty()),
        s.heap.phase == Phase::Mark,
        s.heap.has(b),
        s.heap.live(b),
        stop != Stop::Full,
        Progress::start(s.with_heap(s.heap.resurrect(b))).ends_after(
            end,
            n,
            root,
            run_until,
            stop,
            owes,
        ),
    ensures
        forall|x: GcBox| #[trigger]
            reachable(s, seq![Edge::Strong(b)], x) ==> end.state.heap.has(x) && end.state.heap.live(x)
                && end.state.values[x] == s.values[x],
        end.state.heap.has(b),
        end.state.heap.live(b),
{
    let r = s.with_heap(s.heap.resurrect(b));
    let held = seq![Edge::Strong(b)];
    assert(Seq::<Edge>::empty().push(Edge::Strong(b)) =~= held);
    resurrect_is_sound(s, root, Seq::empty(), b);
    lemma_steps_hold(r, root, held, stop, n);
    steps_retain(r, root, stop, n);
    let t = end.state;
    assert forall|x: GcBox| #[trigger] t.values.contains_key(x) implies s.values.contains_key(x)
        && t.values[x] == s.values[x] && t.edges(x) == s.edges(x) && t.heap.boxes[x].meta
        == s.heap.boxes[x].meta && t.heap.boxes[x].layout == s.heap.boxes[x].layout by {
        assert(r.values.contains_key(x));
        assert(r.edges(x) == s.edges(x));
    }
    assert(retained(s, t));
    assert forall|x: GcBox| #[trigger] reachable(s, held, x) implies t.heap.has(x) && t.heap.live(x)
        && t.values[x] == s.values[x] by {
        let path = choose|path: Seq<GcBox>| #[trigger] is_path(s, held, path) && path.last() == x;
        lemma_path_survives(s, t, root, held, path);
        assert(t.values.contains_key(x));
    }
    assert(held[0] == Edge::Strong(b));
    assert(marking::points_strongly(held, b));
    lemma_root_path(s, held, b);
}

/// Whether two states have the same boxes with the same contents.
pub open spec fn same_contents<T: Collect>(s: State<T>, t: State<T>) -> bool {
    &&& t.heap.boxes.dom() == s.heap.boxes.dom()
    &&& t.heap.all == s.heap.all
    &&& t.values == s.values
}

/// A collection that stops before anything is freed keeps every box and all contents. It stops in
/// the mark phase with nothing left to trace, or else in the sweep phase, at its very beginning
/// unless it began there.
pub proof fn stops_before_free<T: Collect, F: Fn(&Metrics) -> bool>(
    s: State<T>,
    end: Progress<T>,
    n: nat,
    root: Seq<Edge>,
    run_until: RunUntil,
    stop: Stop,
    owes: F,
)
    requires
        s.sound(root, Seq::empty()),
        Progress::start(s).ends_after(end, n, root, run_until, stop, owes),
        stop.before_free(),
    ensures
        same_contents(s, end.state),
        s.heap.phase == Phase::Sweep ==> end.state == s,
        s.heap.phase != Phase::Sweep && end.done && stop == Stop::FullyMarked
            ==> end.state.heap.phase == Phase::Mark && !end.state.heap.gray_remaining(),
        s.heap.phase != Phase::Sweep && end.done && stop == Stop::AtSweep ==> end.state.heap.phase
            == Phase::Sweep && end.state.heap.unswept == s.heap.all.len(),
{
    lemma_steps_before_free(s, root, stop, n);
    if n > 0 {
        let m = (n - 1) as nat;
        lemma_steps_before_free(s, root, stop, m);
        steps_retain(s, root, stop, m);
        assert(!Progress::start(s).after(root, stop, m).done);
    }
}

proof fn lemma_steps_before_free<T: Collect>(s: State<T>, root: Seq<Edge>, stop: Stop, n: nat)
    requires
        s.sound(root, Seq::empty()),
        stop.before_free(),
        forall|k: nat| k < n ==> !(#[trigger] Progress::start(s).after(root, stop, k)).done,
    ensures
        ({
            let p = Progress::start(s).after(root, stop, n);
            let heap = p.state.heap;
            &&& same_contents(s, p.state)
            &&& s.heap.phase == Phase::Sweep ==> p.state == s
            &&& heap.phase == Phase::Sweep && s.heap.phase != Phase::Sweep ==> stop == Stop::AtSweep
                && heap.unswept == s.heap.all.len()
            &&& heap.phase == Phase::Sleep ==> s.heap.phase == Phase::Sleep && !p.done
            &&& heap.phase == Phase::Mark && p.done ==> !heap.gray_remaining() && stop
                == Stop::FullyMarked
        }),
    decreases n,
{
    if n > 0 {
        let m = (n - 1) as nat;
        lemma_steps_before_free(s, root, stop, m);
        steps_retain(s, root, stop, m);
        let p = Progress::start(s).after(root, stop, m);
        let heap = p.state.heap;
        assert(!p.done);
        if heap.phase == Phase::Mark {
            if heap.next_gray() is Some {
                soundness::mark_box_is_sound(p.state, root, Seq::empty());
                crate::heap_laws::take_gray_keeps_inv(heap);
                assert(heap.queued(heap.next_gray()->0));
                let h = heap.take_gray();
                assert(h.boxes.dom() =~= heap.boxes.dom());
                marking::trace_all_marks(h, p.state.edges(heap.next_gray()->0));
            } else if heap.root_needs_trace {
                soundness::mark_root_is_sound(p.state, root, Seq::empty());
                marking::trace_all_marks(heap, root);
            }
        }
    }
}

/// A collection that runs to the end of a cycle leaves the collector asleep.
pub proof fn stops_asleep<T: Collect, F: Fn(&Metrics) -> bool>(
    s: State<T>,
    end: Progress<T>,
    n: nat,
    root: Seq<Edge>,
    run_until: RunUntil,
    stop: Stop,
    owes: F,
)
    requires
        s.sound(root, Seq::empty()),
        Progress::start(s).ends_after(end, n, root, run_until, stop, owes),
        !stop.before_free(),
        end.done,
    ensures
        end.state.heap.phase == Phase::Sleep,
{
    assert(n > 0);
    let m = (n - 1) as nat;
    steps_retain(s, root, stop, m);
    assert(!Progress::start(s).after(root, stop, m).done);
}

/// A collection that only pays debt does nothing if there is none.
pub proof fn no_debt_no_work<T: Collect, F: Fn(&Metrics) -> bool>(
    s: State<T>,
    end: Progress<T>,
    n: nat,
    root: Seq<Edge>,
    stop: Stop,
    owes: F,
)
    requires
        Progress::start(s).ends_after(end, n, root, RunUntil::PayDebt, stop, owes),
        !call_ensures(owes, (&s.heap.metrics,), true),
    ensures
        end.state == s,
{
    if n > 0 {
        assert(call_ensures(
            owes,
            (&Progress::start(s).after(root, stop, 0).state.heap.metrics,),
            true,
        ));
    }
}

} // verus!
