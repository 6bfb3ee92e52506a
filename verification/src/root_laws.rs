//! What holds of root sets whatever they are used for.

use crate::barriers;
use crate::collect::{self, Collect, Edge};
use crate::collection::{Progress, RunUntil, Stop};
use crate::contents::{RootsView, Value};
use crate::gc::Gc;
use crate::heap_view::Phase;
use crate::marking;
use crate::metrics::Metrics;
use crate::reach;
use crate::root::{self, Slot};
use crate::state::State;
use crate::types::{GcBox, GcColor};
use vstd::prelude::*;

verus! {

/// A root that was stashed is fetched by its handle, and no other handle is affected: the new
/// place was vacant, and every other root stays where it is with as many handles.
pub proof fn stash_then_fetch(view: RootsView, gc: Gc<()>)
    requires
        view.wf(),
        view.stash(gc).slots.len() <= usize::MAX,
    ensures
        !view.occupied(view.next_index()),
        view.stash(gc).occupied(view.next_index()),
        view.stash(gc).root(view.next_index()) == gc,
        view.stash(gc).ref_count(view.next_index()) == 1,
        forall|i: usize| #[trigger]
            view.occupied(i) ==> {
                &&& view.stash(gc).occupied(i)
                &&& view.stash(gc).root(i) == view.root(i)
                &&& view.stash(gc).ref_count(i) == view.ref_count(i)
            },
{
    root::stash_keeps_wf(view, gc, view.buf, usize::MAX);
}

/// Cloning a handle and dropping the clone leaves the set as it was.
pub proof fn clone_then_drop(view: RootsView, index: usize)
    requires
        view.wf(),
        view.occupied(index),
        view.ref_count(index) < usize::MAX,
    ensures
        view.retain(index).occupied(index),
        view.retain(index).root(index) == view.root(index),
        view.retain(index).release(index) == view,
{
    assert(view.slots[index as int] is Occupied);
    assert(view.retain(index).release(index).slots =~= view.slots);
}

/// A root goes with the last of its handles and not before, and no other root is affected.
pub proof fn drop_affects_one(view: RootsView, index: usize)
    requires
        view.wf(),
        view.occupied(index),
    ensures
        view.release(index).occupied(index) <==> view.ref_count(index) > 1,
        view.ref_count(index) > 1 ==> view.release(index).root(index) == view.root(index)
            && view.release(index).ref_count(index) == view.ref_count(index) - 1,
        forall|i: usize|
            i != index ==> {
                &&& #[trigger] view.release(index).occupied(i) <==> view.occupied(i)
                &&& view.occupied(i) ==> view.release(index).root(i) == view.root(i)
                    && view.release(index).ref_count(i) == view.ref_count(i)
            },
{
    assert(view.slots[index as int] is Occupied);
}

/// The place of a root that went is the first to be used again.
pub proof fn vacated_place_is_reused(view: RootsView, index: usize, gc: Gc<()>)
    requires
        view.wf(),
        view.occupied(index),
        view.ref_count(index) == 1,
    ensures
        view.release(index).next_index() == index,
        view.release(index).stash(gc).slots == view.slots.update(
            index as int,
            Slot::Occupied { root: gc, ref_count: 1 },
        ),
        view.release(index).stash(gc).free_next == view.free_next,
{
    assert(view.release(index).stash(gc).slots =~= view.slots.update(
        index as int,
        Slot::Occupied { root: gc, ref_count: 1 },
    ));
}

/// The pointers that the table of a root set holds: its buffer and its roots.
proof fn lemma_table_edges<P: Collect>(view: RootsView, e: Edge)
    ensures
        Value::<P>::Roots(view).edges().contains(e) <==> e == Edge::Strong(view.buf) || exists|
            i: int,
        |
            0 <= i < view.slots.len() && (#[trigger] view.slots[i]).edges().contains(e),
{
    let edges = Value::<P>::Roots(view).edges();
    let row = collect::row_edges(view.slots);
    collect::lemma_row_edges_contains(view.slots, e);
    if edges.contains(e) {
        let k = choose|k: int| 0 <= k < edges.len() && edges[k] == e;
        if k > 0 {
            assert(row[k - 1] == e);
        }
    }
    if e == Edge::Strong(view.buf) {
        assert(edges[0] == e);
    }
    if row.contains(e) {
        let k = choose|k: int| 0 <= k < row.len() && row[k] == e;
        assert(edges[k + 1] == e);
    }
}

/// After a root was stashed its set points to it.
pub proof fn stash_is_traced<P: Collect>(
    s: State<P>,
    t: State<P>,
    b: GcBox,
    gc: GcBox,
    new: RootsView,
)
    requires
        root::holds_roots(s, b),
        root::stashed(s, t, b, gc, new),
        !root::must_grow(root::roots(s, b)) || root::roots(s, b).slots.len() < usize::MAX,
    ensures
        t.values[b] == Value::<P>::Roots(new),
        marking::points_strongly(t.edges(b), gc),
{
    let view = root::roots(s, b);
    let e = Edge::Strong(gc);
    root::stash_keeps_wf(view, Gc::at(gc), new.buf, usize::MAX);
    let i = view.next_index() as int;
    assert(new.slots[i] == Slot::Occupied { root: Gc::at(gc), ref_count: 1 });
    assert(new.slots[i].edges()[0] == e);
    assert(new.slots[i].edges().contains(e));
    lemma_table_edges::<P>(new, e);
    let edges = Value::<P>::Roots(new).edges();
    let k = choose|k: int| 0 <= k < edges.len() && edges[k] == e;
    assert(t.edges(b) == edges);
    assert(t.edges(b)[k] == e);
}

/// Stashing a root keeps the arena sound, whether or not the buffer of the set has to grow.
pub proof fn stash_is_sound<P: Collect>(
    s: State<P>,
    t: State<P>,
    root_edges: Seq<Edge>,
    b: GcBox,
    gc: GcBox,
    new: RootsView,
)
    requires
        s.sound(root_edges, Seq::empty()),
        root::holds_roots(s, b),
        !s.doomed(b),
        s.safe(Edge::Strong(gc)),
        root::stashed(s, t, b, gc, new),
    ensures
        t.sound(root_edges, Seq::empty()),
{
    let view = root::roots(s, b);
    let value = Value::<P>::Roots(new);
    let child = root::adopted(view, gc);
    let marked = s.with_heap(s.heap.backward_barrier(b, child));
    barriers::backward_barrier_is_sound(s, root_edges, b, child);
    assert(s.edges(b) == Value::<P>::Roots(view).edges());
    assert(s.all_safe(s.edges(b)));
    if root::must_grow(view) {
        let cap = root::grown_slots(view);
        let m = choose|m: State<P>|
            {
                &&& #[trigger] crate::vec::new_buffer::<Slot, P>(marked, m, new.buf, cap)
                &&& t == root::with_roots(m, b, new)
            };
        let bx = m.heap.boxes[new.buf];
        barriers::allocate_is_sound(
            marked,
            root_edges,
            Seq::empty(),
            new.buf,
            bx,
            Value::Buffer,
            m.heap.brk,
        );
        assert(b != new.buf);
        assert(m.heap.color(b) != GcColor::Black || m.heap.phase != Phase::Mark);
        assert forall|i: int| 0 <= i < value.edges().len() implies m.safe(
            #[trigger] value.edges()[i],
        ) by {
            let e = value.edges()[i];
            lemma_new_edge::<P>(view, new, gc, e);
            if e != Edge::Strong(new.buf) {
                assert(s.safe(e)) by {
                    if e != Edge::Strong(gc) {
                        lemma_contained_is_safe(s, s.edges(b), e);
                    }
                }
                assert(marked.safe(e));
            }
        }
        barriers::adopt_is_sound(m, root_edges, Seq::empty(), b, value);
    } else {
        assert forall|i: int| 0 <= i < value.edges().len() implies marked.safe(
            #[trigger] value.edges()[i],
        ) by {
            let e = value.edges()[i];
            lemma_new_edge::<P>(view, new, gc, e);
            lemma_table_edges::<P>(view, e);
            if e != Edge::Strong(gc) {
                lemma_contained_is_safe(s, s.edges(b), e);
            }
            assert(s.safe(e));
        }
        if marked.heap.phase == Phase::Mark && marked.heap.color(b) == GcColor::Black {
            assert(marked.all_marked(marked.edges(b)));
            assert forall|i: int| 0 <= i < value.edges().len() implies marking::marked(
                marked.heap,
                #[trigger] value.edges()[i],
            ) by {
                let e = value.edges()[i];
                lemma_new_edge::<P>(view, new, gc, e);
                lemma_table_edges::<P>(view, e);
                if e != Edge::Strong(gc) {
                    let k = choose|k: int|
                        0 <= k < marked.edges(b).len() && marked.edges(b)[k] == e;
                    assert(marking::marked(marked.heap, marked.edges(b)[k]));
                }
            }
        }
        barriers::adopt_is_sound(marked, root_edges, Seq::empty(), b, value);
    }
}

/// A path to a box leads there also if only the contents of that box have changed.
proof fn lemma_path_to_changed<P: Collect>(
    s: State<P>,
    t: State<P>,
    root_edges: Seq<Edge>,
    b: GcBox,
    path: Seq<GcBox>,
)
    requires
        reach::is_path(s, root_edges, path),
        path.last() == b,
        forall|x: GcBox| x != b ==> t.edges(x) == #[trigger] s.edges(x),
    ensures
        reach::reachable(t, root_edges, b),
    decreases path.len(),
{
    if exists|i: int| 0 <= i < path.len() - 1 && path[i] == b {
        let i = choose|i: int| 0 <= i < path.len() - 1 && path[i] == b;
        let front = path.take(i + 1);
        assert forall|j: int| 0 < j < front.len() implies marking::points_strongly(
            s.edges(front[j - 1]),
            #[trigger] front[j],
        ) by {
            assert(front[j] == path[j]);
        }
        lemma_path_to_changed(s, t, root_edges, b, front);
    } else {
        assert forall|j: int| 0 < j < path.len() implies marking::points_strongly(
            t.edges(path[j - 1]),
            #[trigger] path[j],
        ) by {
            assert(path[j - 1] != b);
            assert(t.edges(path[j - 1]) == s.edges(path[j - 1]));
        }
        assert(reach::is_path(t, root_edges, path));
    }
}

/// A collection keeps a root set that the root of the arena leads to: its table, and every root in
/// it with its contents.
pub proof fn collection_keeps_roots<P: Collect, F: Fn(&Metrics) -> bool>(
    s: State<P>,
    root_edges: Seq<Edge>,
    b: GcBox,
    end: Progress<P>,
    n: nat,
    run_until: RunUntil,
    stop: Stop,
    owes: F,
)
    requires
        s.sound(root_edges, Seq::empty()),
        root::holds_roots(s, b),
        reach::reachable(s, root_edges, b),
        Progress::start(s).ends_after(end, n, root_edges, run_until, stop, owes),
    ensures
        root::holds_roots(end.state, b),
        root::roots(end.state, b) == root::roots(s, b),
        forall|i: usize| #[trigger]
            root::roots(s, b).occupied(i) ==> {
                let target = root::roots(s, b).root(i).ptr;
                &&& end.state.heap.has(target)
                &&& end.state.heap.live(target)
                &&& end.state.values[target] == s.values[target]
            },
{
    let view = root::roots(s, b);
    reach::steps_retain(s, root_edges, stop, n);
    reach::collection_keeps_reachable(s, end, n, root_edges, run_until, stop, owes);
    let edges = Value::<P>::Roots(view).edges();
    assert(s.edges(b) == edges);
    assert(edges[0] == Edge::Strong(view.buf));
    assert(marking::points_strongly(s.edges(b), view.buf));
    reach::lemma_extend_path(s, root_edges, b, view.buf);
    assert(end.state.values.contains_key(b));
    assert(end.state.values.contains_key(view.buf));
    assert forall|i: usize| #[trigger] view.occupied(i) implies {
        let target = view.root(i).ptr;
        &&& end.state.heap.has(target)
        &&& end.state.heap.live(target)
        &&& end.state.values[target] == s.values[target]
    } by {
        let target = view.root(i).ptr;
        let e = Edge::Strong(target);
        assert(view.slots[i as int].edges()[0] == e);
        assert(view.slots[i as int].edges().contains(e));
        lemma_table_edges::<P>(view, e);
        let k = choose|k: int| 0 <= k < edges.len() && edges[k] == e;
        assert(s.edges(b)[k] == e);
        assert(marking::points_strongly(s.edges(b), target));
        reach::lemma_extend_path(s, root_edges, b, target);
    }
}

/// What was stashed outlives a collection, and so does what was stashed before: every handle still
/// gives its root, and the root still has its contents. This holds at any time, also while the
/// collector marks and the table has to grow.
pub proof fn stash_outlives_collection<P: Collect, F: Fn(&Metrics) -> bool>(
    s: State<P>,
    t: State<P>,
    root_edges: Seq<Edge>,
    b: GcBox,
    gc: GcBox,
    end: Progress<P>,
    n: nat,
    run_until: RunUntil,
    stop: Stop,
    owes: F,
)
    requires
        s.sound(root_edges, Seq::empty()),
        root::holds_roots(s, b),
        reach::reachable(s, root_edges, b),
        s.safe(Edge::Strong(gc)),
        root::holds_roots(t, b),
        root::stashed(s, t, b, gc, root::roots(t, b)),
        Progress::start(t).ends_after(end, n, root_edges, run_until, stop, owes),
    ensures
        root::holds_roots(end.state, b),
        root::roots(end.state, b).occupied(root::roots(s, b).next_index()),
        root::roots(end.state, b).root(root::roots(s, b).next_index()).ptr == gc,
        end.state.heap.has(gc),
        end.state.heap.live(gc),
        end.state.values[gc] == t.values[gc],
        forall|i: usize| #[trigger]
            root::roots(s, b).occupied(i) ==> {
                let target = root::roots(s, b).root(i).ptr;
                &&& root::roots(end.state, b).occupied(i)
                &&& root::roots(end.state, b).root(i).ptr == target
                &&& end.state.heap.has(target)
                &&& end.state.heap.live(target)
                &&& end.state.values[target] == t.values[target]
            },
{
    let view = root::roots(s, b);
    let new = root::roots(t, b);
    let path = choose|path: Seq<GcBox>| #[trigger]
        reach::is_path(s, root_edges, path) && path.last() == b;
    reach::lemma_path_survives(s, s, root_edges, root_edges, path);
    stash_is_sound(s, t, root_edges, b, gc, new);
    assert forall|x: GcBox| x != b implies t.edges(x) == #[trigger] s.edges(x) by {
        if root::must_grow(view) && x == new.buf {
            assert(!s.heap.has(x));
            assert(!s.values.contains_key(x));
        }
    }
    lemma_path_to_changed(s, t, root_edges, b, path);
    stash_then_fetch(view, Gc::at(gc));
    collection_keeps_roots(t, root_edges, b, end, n, run_until, stop, owes);
    assert(new.occupied(view.next_index()));
    assert forall|i: usize| #[trigger] view.occupied(i) implies new.occupied(i) && new.root(i)
        == view.root(i) by {
        assert(view.stash(Gc::at(gc)).occupied(i));
    }
}

/// Cloning a handle keeps the arena sound.
pub proof fn clone_is_sound<P: Collect>(
    s: State<P>,
    root_edges: Seq<Edge>,
    b: GcBox,
    index: usize,
)
    requires
        s.sound(root_edges, Seq::empty()),
        root::holds_roots(s, b),
        !s.doomed(b),
        root::roots(s, b).occupied(index),
    ensures
        root::with_roots(s, b, root::roots(s, b).retain(index)).sound(root_edges, Seq::empty()),
{
    lemma_fewer_edges_is_sound(s, root_edges, b, root::roots(s, b).retain(index));
}

/// Dropping a handle keeps the arena sound.
pub proof fn drop_is_sound<P: Collect>(
    s: State<P>,
    root_edges: Seq<Edge>,
    b: GcBox,
    index: usize,
)
    requires
        s.sound(root_edges, Seq::empty()),
        root::holds_roots(s, b),
        !s.doomed(b),
        root::roots(s, b).occupied(index),
    ensures
        root::with_roots(s, b, root::roots(s, b).release(index)).sound(root_edges, Seq::empty()),
{
    lemma_fewer_edges_is_sound(s, root_edges, b, root::roots(s, b).release(index));
}

/// A table that holds no new pointers keeps the arena sound.
proof fn lemma_fewer_edges_is_sound<P: Collect>(
    s: State<P>,
    root_edges: Seq<Edge>,
    b: GcBox,
    new: RootsView,
)
    requires
        s.sound(root_edges, Seq::empty()),
        root::holds_roots(s, b),
        !s.doomed(b),
        new.buf == root::roots(s, b).buf,
        new.slots.len() == root::roots(s, b).slots.len(),
        forall|i: int, e: Edge|
            0 <= i < new.slots.len() && (#[trigger] new.slots[i].edges().contains(e))
                ==> root::roots(s, b).slots[i].edges().contains(e),
    ensures
        root::with_roots(s, b, new).sound(root_edges, Seq::empty()),
{
    let view = root::roots(s, b);
    let value = Value::<P>::Roots(new);
    let was = s.edges(b);
    assert(was == Value::<P>::Roots(view).edges());
    assert(s.all_safe(was));
    assert forall|k: int| 0 <= k < value.edges().len() implies was.contains(
        #[trigger] value.edges()[k],
    ) by {
        let e = value.edges()[k];
        lemma_table_edges::<P>(new, e);
        lemma_table_edges::<P>(view, e);
        if e != Edge::Strong(new.buf) {
            let i = choose|i: int|
                0 <= i < new.slots.len() && (#[trigger] new.slots[i]).edges().contains(e);
            assert(new.slots[i].edges().contains(e));
            assert(view.slots[i].edges().contains(e));
        }
    }
    assert forall|k: int| 0 <= k < value.edges().len() implies s.safe(
        #[trigger] value.edges()[k],
    ) && (s.all_marked(was) ==> marking::marked(s.heap, value.edges()[k])) by {
        assert(was.contains(value.edges()[k]));
        let j = choose|j: int| 0 <= j < was.len() && was[j] == value.edges()[k];
        assert(s.safe(was[j]));
    }
    barriers::adopt_is_sound(s, root_edges, Seq::empty(), b, value);
}

/// A pointer in the table after a stash is the buffer, the new root or an old pointer.
proof fn lemma_new_edge<P: Collect>(view: RootsView, new: RootsView, gc: GcBox, e: Edge)
    requires
        view.wf(),
        new.slots == view.stash(Gc::at(gc)).slots,
        Value::<P>::Roots(new).edges().contains(e),
    ensures
        e == Edge::Strong(new.buf) || e == Edge::Strong(gc) || Value::<P>::Roots(
            view,
        ).edges().contains(e),
{
    lemma_table_edges::<P>(new, e);
    lemma_table_edges::<P>(view, e);
    if e != Edge::Strong(new.buf) {
        let i = choose|i: int|
            0 <= i < new.slots.len() && (#[trigger] new.slots[i]).edges().contains(e);
        if i == view.next_index() {
            assert(new.slots[i].edges() =~= seq![Edge::Strong(gc)]);
        } else {
            assert(new.slots[i] == view.slots[i]);
        }
    }
}

proof fn lemma_contained_is_safe<P: Collect>(s: State<P>, edges: Seq<Edge>, e: Edge)
    requires
        s.all_safe(edges),
        edges.contains(e),
    ensures
        s.safe(e),
{
    let k = choose|k: int| 0 <= k < edges.len() && edges[k] == e;
    assert(s.safe(edges[k]));
}

} // verus!
