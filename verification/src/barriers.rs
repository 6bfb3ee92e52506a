//! What the write barriers are for: after one, the mutator may store a pointer without the
//! collector losing sight of it.

use crate::collect::{Collect, Edge};
use crate::contents::{self, Value};
use crate::gc::unique;
use crate::heap_view::{BoxView, Phase};
use crate::marking;
use crate::soundness;
use crate::state::State;
use crate::types::{CollectVTable, GcBox, GcColor, Meta};
use vstd::prelude::*;

verus! {

/// Whether contents may stand in a box as far as its kind is concerned.
pub open spec fn may_hold<T: Collect>(s: State<T>, b: GcBox, value: Value<T>) -> bool {
    &&& s.values.contains_key(b)
    &&& value.fits(
        s.heap.boxes[b].flags.vtable,
        s.heap.boxes[b].flags.needs_trace,
        s.heap.boxes[b].meta,
    )
}

/// Whether each pointer in `edges` is safe and stood in `was` or is `added`.
pub open spec fn adopts_one<T: Collect>(
    s: State<T>,
    edges: Seq<Edge>,
    was: Seq<Edge>,
    added: Edge,
) -> bool {
    &&& s.safe(added)
    &&& forall|i: int|
        0 <= i < edges.len() ==> (#[trigger] edges[i]) == added || was.contains(edges[i])
}

/// Changing the contents of a box keeps the arena valid.
pub proof fn change_keeps_inv<T: Collect>(s: State<T>, b: GcBox, value: Value<T>)
    requires
        s.inv(),
        may_hold(s, b, value),
    ensures
        s.with_value(b, value).inv(),
        s.with_value(b, value).edges(b) == value.edges(),
        forall|x: GcBox| x != b ==> #[trigger] s.with_value(b, value).edges(x) == s.edges(x),
{
    let t = s.with_value(b, value);
    if !s.heap.boxes[b].flags.needs_trace {
        value.untraced_has_no_edges(s.heap.boxes[b].flags.vtable, s.heap.boxes[b].meta);
    }
    assert forall|x: GcBox| #[trigger] t.values.contains_key(x) <==> t.heap.has(x) && t.heap.live(
        x,
    ) by {
        assert(s.values.contains_key(x) <==> s.heap.has(x) && s.heap.live(x));
    }
    assert forall|x: GcBox| #[trigger] t.values.contains_key(x) implies t.values[x].fits(
        t.heap.boxes[x].flags.vtable,
        t.heap.boxes[x].flags.needs_trace,
        t.heap.boxes[x].meta,
    ) && (!t.heap.boxes[x].flags.needs_trace ==> t.edges(x).len() == 0) by {
        assert(s.values.contains_key(x));
    }
}

/// New contents of a box keep the arena sound if their pointers are safe and, where the collector
/// has already traced the box, marked.
pub proof fn adopt_is_sound<T: Collect>(
    s: State<T>,
    root: Seq<Edge>,
    held: Seq<Edge>,
    b: GcBox,
    value: Value<T>,
)
    requires
        s.sound(root, held),
        may_hold(s, b, value),
        s.all_safe(value.edges()),
        s.heap.phase == Phase::Mark && s.heap.color(b) == GcColor::Black ==> s.all_marked(
            value.edges(),
        ),
    ensures
        s.with_value(b, value).sound(root, held),
{
    let t = s.with_value(b, value);
    change_keeps_inv(s, b, value);
    assert forall|x: GcBox| #[trigger] t.values.contains_key(x) && !t.doomed(x) implies t.all_safe(
        t.edges(x),
    ) by {
        assert(s.values.contains_key(x));
        assert(t.doomed(x) == s.doomed(x));
        lemma_same_safe(s, t, if x == b {
            value.edges()
        } else {
            s.edges(x)
        });
    }
    assert forall|x: GcBox| #[trigger]
        t.values.contains_key(x) && t.heap.phase == Phase::Mark && t.heap.color(x)
            == GcColor::Black implies t.all_marked(t.edges(x)) by {
        assert(s.values.contains_key(x));
        if x != b {
            assert(s.all_marked(s.edges(x)));
        }
    }
    lemma_same_safe(s, t, root);
    lemma_same_safe(s, t, held);
}

/// Changing the contents of a box and their kind keeps the arena valid.
pub proof fn convert_keeps_inv<T: Collect>(
    s: State<T>,
    b: GcBox,
    vtable: CollectVTable,
    needs_trace: bool,
    meta: Meta,
    value: Value<T>,
)
    requires
        s.inv(),
        s.values.contains_key(b),
        value.fits(vtable, needs_trace, meta),
    ensures
        s.convert(b, vtable, needs_trace, meta, value).inv(),
        s.convert(b, vtable, needs_trace, meta, value).edges(b) == value.edges(),
        forall|x: GcBox|
            x != b ==> #[trigger] s.convert(b, vtable, needs_trace, meta, value).edges(x) == s.edges(x),
{
    let t = s.convert(b, vtable, needs_trace, meta, value);
    if !needs_trace {
        value.untraced_has_no_edges(vtable, meta);
    }
    assert(s.heap.has(b) && s.heap.live(b));
    assert(t.heap.boxes.dom() =~= s.heap.boxes.dom());
    assert forall|x: GcBox| #[trigger] t.heap.boxes.contains_key(x) implies t.heap.color(x)
        == s.heap.color(x) && t.heap.live(x) == s.heap.live(x) by {}
    assert forall|x: GcBox| #[trigger] t.values.contains_key(x) <==> t.heap.has(x) && t.heap.live(
        x,
    ) by {
        assert(s.values.contains_key(x) <==> s.heap.has(x) && s.heap.live(x));
    }
    assert forall|x: GcBox| #[trigger] t.values.contains_key(x) implies t.values[x].fits(
        t.heap.boxes[x].flags.vtable,
        t.heap.boxes[x].flags.needs_trace,
        t.heap.boxes[x].meta,
    ) && (!t.heap.boxes[x].flags.needs_trace ==> t.edges(x).len() == 0) by {
        assert(s.values.contains_key(x));
    }
    assert forall|i: int| 0 <= i < t.heap.all.len() implies t.heap.color(#[trigger] t.heap.all[i])
        == s.heap.color(s.heap.all[i]) by {
        assert(s.heap.all.contains(s.heap.all[i]));
    }
}

/// New contents of another kind keep the arena sound under the same conditions.
pub proof fn convert_is_sound<T: Collect>(
    s: State<T>,
    root: Seq<Edge>,
    held: Seq<Edge>,
    b: GcBox,
    vtable: CollectVTable,
    needs_trace: bool,
    meta: Meta,
    value: Value<T>,
)
    requires
        s.sound(root, held),
        s.values.contains_key(b),
        value.fits(vtable, needs_trace, meta),
        s.all_safe(value.edges()),
        s.heap.phase == Phase::Mark && s.heap.color(b) == GcColor::Black ==> s.all_marked(
            value.edges(),
        ),
    ensures
        s.convert(b, vtable, needs_trace, meta, value).sound(root, held),
        forall|e: Edge| #[trigger]
            s.safe(e) ==> s.convert(b, vtable, needs_trace, meta, value).safe(e),
{
    let t = s.convert(b, vtable, needs_trace, meta, value);
    convert_keeps_inv(s, b, vtable, needs_trace, meta, value);
    assert(s.heap.has(b) && s.heap.live(b));
    assert forall|x: GcBox| #[trigger] t.heap.is_unswept(x) == s.heap.is_unswept(x) by {}
    assert forall|e: Edge| #[trigger] s.safe(e) implies t.safe(e) by {
        assert(t.heap.is_unswept(e.target()) == s.heap.is_unswept(e.target()));
    }
    assert forall|e: Edge| #[trigger] marking::marked(s.heap, e) implies marking::marked(
        t.heap,
        e,
    ) by {}
    assert forall|x: GcBox| #[trigger] t.values.contains_key(x) && !t.doomed(x) implies t.all_safe(
        t.edges(x),
    ) by {
        assert(s.values.contains_key(x));
        assert(t.heap.is_unswept(x) == s.heap.is_unswept(x));
        assert(t.doomed(x) == s.doomed(x));
        lemma_safe_kept(s, t, if x == b {
            value.edges()
        } else {
            s.edges(x)
        });
    }
    assert forall|x: GcBox| #[trigger]
        t.values.contains_key(x) && t.heap.phase == Phase::Mark && t.heap.color(x)
            == GcColor::Black implies t.all_marked(t.edges(x)) by {
        assert(s.values.contains_key(x));
        lemma_marked_kept(s, t, if x == b {
            value.edges()
        } else {
            s.edges(x)
        });
    }
    lemma_safe_kept(s, t, root);
    lemma_safe_kept(s, t, held);
    if s.heap.phase == Phase::Mark {
        lemma_marked_kept(s, t, held);
        if !s.heap.root_needs_trace {
            lemma_marked_kept(s, t, root);
        }
    }
}

proof fn lemma_marked_kept<T: Collect>(s: State<T>, t: State<T>, edges: Seq<Edge>)
    requires
        forall|e: Edge| #[trigger] marking::marked(s.heap, e) ==> marking::marked(t.heap, e),
        s.all_marked(edges),
    ensures
        t.all_marked(edges),
{
    assert forall|i: int| 0 <= i < edges.len() implies marking::marked(
        t.heap,
        #[trigger] edges[i],
    ) by {
        assert(marking::marked(s.heap, edges[i]));
    }
}

proof fn lemma_same_safe<T: Collect>(s: State<T>, t: State<T>, edges: Seq<Edge>)
    requires
        t.heap == s.heap,
        s.all_safe(edges),
    ensures
        t.all_safe(edges),
{
    assert forall|i: int| 0 <= i < edges.len() implies t.safe(#[trigger] edges[i]) by {
        assert(s.safe(edges[i]));
    }
}

/// Pointers that were safe stay so, and marked ones marked, if one is added that is both.
proof fn lemma_adopts<T: Collect>(s: State<T>, edges: Seq<Edge>, was: Seq<Edge>, added: Edge)
    requires
        s.all_safe(was),
        adopts_one(s, edges, was, added),
    ensures
        s.all_safe(edges),
        s.all_marked(was) && marking::marked(s.heap, added) ==> s.all_marked(edges),
{
    assert forall|i: int| 0 <= i < edges.len() implies s.safe(#[trigger] edges[i]) && (
    s.all_marked(was) && marking::marked(s.heap, added) ==> marking::marked(s.heap, edges[i])) by {
        if edges[i] != added {
            let j = choose|j: int| 0 <= j < was.len() && was[j] == edges[i];
            assert(s.safe(was[j]));
        }
    }
}

/// A black box that becomes gray again keeps the arena sound.
pub proof fn make_gray_again_is_sound<T: Collect>(
    s: State<T>,
    root: Seq<Edge>,
    held: Seq<Edge>,
    b: GcBox,
)
    requires
        s.sound(root, held),
        s.heap.phase == Phase::Mark,
        s.heap.has(b),
        s.heap.color(b) == GcColor::Black,
    ensures
        s.with_heap(s.heap.make_gray_again(b)).sound(root, held),
        forall|e: Edge| #[trigger] s.safe(e) ==> s.with_heap(s.heap.make_gray_again(b)).safe(e),
        forall|x: GcBox| s.with_heap(s.heap.make_gray_again(b)).edges(x) == #[trigger] s.edges(x),
{
    let heap = s.heap.make_gray_again(b);
    crate::heap_laws::make_gray_again_keeps_inv(s.heap, b);
    assert(heap.boxes.dom() =~= s.heap.boxes.dom());
    soundness::recolor_is_sound(s, root, held, heap);
}

/// Marking a box keeps the arena sound.
pub proof fn trace_is_sound<T: Collect>(
    s: State<T>,
    root: Seq<Edge>,
    held: Seq<Edge>,
    b: GcBox,
)
    requires
        s.sound(root, held),
        s.heap.phase == Phase::Mark,
        s.heap.has(b),
        s.heap.live(b),
    ensures
        s.with_heap(s.heap.trace(b)).sound(root, held),
        forall|e: Edge| #[trigger] s.safe(e) ==> s.with_heap(s.heap.trace(b)).safe(e),
        forall|x: GcBox| s.with_heap(s.heap.trace(b)).edges(x) == #[trigger] s.edges(x),
{
    let heap = s.heap.trace(b);
    if s.heap.is_white(b) {
        crate::heap_laws::trace_keeps_inv(s.heap, b);
    }
    assert(heap.boxes.dom() =~= s.heap.boxes.dom());
    soundness::recolor_is_sound(s, root, held, heap);
}

/// Marking a box weakly keeps the arena sound.
pub proof fn trace_weak_is_sound<T: Collect>(
    s: State<T>,
    root: Seq<Edge>,
    held: Seq<Edge>,
    b: GcBox,
)
    requires
        s.sound(root, held),
        s.heap.phase == Phase::Mark,
        s.heap.has(b),
    ensures
        s.with_heap(s.heap.trace_weak(b)).sound(root, held),
        forall|e: Edge| #[trigger] s.safe(e) ==> s.with_heap(s.heap.trace_weak(b)).safe(e),
        forall|x: GcBox| s.with_heap(s.heap.trace_weak(b)).edges(x) == #[trigger] s.edges(x),
{
    let heap = s.heap.trace_weak(b);
    if s.heap.color(b) == GcColor::White {
        crate::heap_laws::trace_weak_keeps_inv(s.heap, b);
    }
    assert(heap.boxes.dom() =~= s.heap.boxes.dom());
    soundness::recolor_is_sound(s, root, held, heap);
}

/// A backward barrier keeps the arena sound and every pointer safe. While the collector marks, the
/// parent is black afterwards only if a child was given that is marked.
pub proof fn backward_barrier_is_sound<T: Collect>(
    s: State<T>,
    root: Seq<Edge>,
    parent: GcBox,
    child: Option<GcBox>,
)
    requires
        s.sound(root, Seq::empty()),
        s.heap.has(parent),
    ensures
        ({
            let t = s.with_heap(s.heap.backward_barrier(parent, child));
            &&& t.sound(root, Seq::empty())
            &&& forall|e: Edge| #[trigger] s.safe(e) ==> t.safe(e)
            &&& forall|x: GcBox| t.edges(x) == #[trigger] s.edges(x)
            &&& t.heap.phase == s.heap.phase
            &&& t.heap.phase == Phase::Mark && t.heap.color(parent) == GcColor::Black ==> child
                is Some && !t.heap.is_white(child->0)
        }),
{
    if s.heap.phase == Phase::Mark && s.heap.color(parent) == GcColor::Black && (child is None
        || s.heap.is_white(child->0)) {
        make_gray_again_is_sound(s, root, Seq::empty(), parent);
    } else {
        assert(s.with_heap(s.heap.backward_barrier(parent, child)) == s);
    }
}

/// A backward barrier without a child: the parent may then hold any safe pointers.
pub proof fn backward_barrier_allows_any<T: Collect>(
    s: State<T>,
    root: Seq<Edge>,
    parent: GcBox,
    value: Value<T>,
)
    requires
        s.sound(root, Seq::empty()),
        may_hold(s, parent, value),
        s.all_safe(value.edges()),
    ensures
        s.with_heap(s.heap.backward_barrier(parent, None)).sound(root, Seq::empty()),
        s.with_heap(s.heap.backward_barrier(parent, None)).with_value(parent, value).sound(
            root,
            Seq::empty(),
        ),
{
    let t = s.with_heap(s.heap.backward_barrier(parent, None));
    if s.heap.phase == Phase::Mark && s.heap.color(parent) == GcColor::Black {
        make_gray_again_is_sound(s, root, Seq::empty(), parent);
        lemma_safe_kept(s, t, value.edges());
    } else {
        assert(t == s);
    }
    adopt_is_sound(t, root, Seq::empty(), parent, value);
}

/// A backward barrier with a child: the parent may then hold the child besides what it held.
pub proof fn backward_barrier_allows_child<T: Collect>(
    s: State<T>,
    root: Seq<Edge>,
    parent: GcBox,
    child: GcBox,
    value: Value<T>,
)
    requires
        s.sound(root, Seq::empty()),
        may_hold(s, parent, value),
        !s.doomed(parent),
        adopts_one(s, value.edges(), s.edges(parent), Edge::Strong(child)),
    ensures
        s.with_heap(s.heap.backward_barrier(parent, Some(child))).sound(root, Seq::empty()),
        s.with_heap(s.heap.backward_barrier(parent, Some(child))).with_value(parent, value).sound(
            root,
            Seq::empty(),
        ),
{
    let t = s.with_heap(s.heap.backward_barrier(parent, Some(child)));
    lemma_adopts(s, value.edges(), s.edges(parent), Edge::Strong(child));
    if s.heap.phase == Phase::Mark && s.heap.color(parent) == GcColor::Black && s.heap.is_white(
        child,
    ) {
        make_gray_again_is_sound(s, root, Seq::empty(), parent);
        lemma_safe_kept(s, t, value.edges());
    } else {
        assert(t == s);
    }
    adopt_is_sound(t, root, Seq::empty(), parent, value);
}

/// A weak backward barrier: the parent may then hold the child weakly besides what it held.
pub proof fn backward_barrier_weak_allows_child<T: Collect>(
    s: State<T>,
    root: Seq<Edge>,
    parent: GcBox,
    child: GcBox,
    value: Value<T>,
)
    requires
        s.sound(root, Seq::empty()),
        may_hold(s, parent, value),
        !s.doomed(parent),
        adopts_one(s, value.edges(), s.edges(parent), Edge::Weak(child)),
    ensures
        s.with_heap(s.heap.backward_barrier_weak(parent, child)).sound(root, Seq::empty()),
        s.with_heap(s.heap.backward_barrier_weak(parent, child)).with_value(parent, value).sound(
            root,
            Seq::empty(),
        ),
{
    let t = s.with_heap(s.heap.backward_barrier_weak(parent, child));
    lemma_adopts(s, value.edges(), s.edges(parent), Edge::Weak(child));
    if s.heap.phase == Phase::Mark && s.heap.color(parent) == GcColor::Black && s.heap.color(child)
        == GcColor::White {
        make_gray_again_is_sound(s, root, Seq::empty(), parent);
        lemma_safe_kept(s, t, value.edges());
    } else {
        assert(t == s);
    }
    adopt_is_sound(t, root, Seq::empty(), parent, value);
}

/// A forward barrier: the parent, or any box if none was given, may then hold the child besides
/// what it held.
pub proof fn forward_barrier_allows_child<T: Collect>(
    s: State<T>,
    root: Seq<Edge>,
    given: Option<GcBox>,
    parent: GcBox,
    child: GcBox,
    value: Value<T>,
)
    requires
        s.sound(root, Seq::empty()),
        given is None || given == Some(parent),
        may_hold(s, parent, value),
        !s.doomed(parent),
        adopts_one(s, value.edges(), s.edges(parent), Edge::Strong(child)),
    ensures
        s.with_heap(s.heap.forward_barrier(given, child)).sound(root, Seq::empty()),
        s.with_heap(s.heap.forward_barrier(given, child)).with_value(parent, value).sound(
            root,
            Seq::empty(),
        ),
{
    let t = s.with_heap(s.heap.forward_barrier(given, child));
    let was = s.edges(parent);
    let edges = value.edges();
    if s.heap.phase == Phase::Mark && (given is None || s.heap.color(given->0) == GcColor::Black) {
        trace_is_sound(s, root, Seq::empty(), child);
        lemma_safe_kept(s, t, was);
        assert(t.edges(parent) == was);
        assert(t.values.contains_key(parent));
        lemma_adopts(t, edges, was, Edge::Strong(child));
    } else {
        assert(t == s);
        lemma_adopts(s, edges, was, Edge::Strong(child));
    }
    adopt_is_sound(t, root, Seq::empty(), parent, value);
}

/// A weak forward barrier: the parent, or any box if none was given, may then hold the child
/// weakly besides what it held.
pub proof fn forward_barrier_weak_allows_child<T: Collect>(
    s: State<T>,
    root: Seq<Edge>,
    given: Option<GcBox>,
    parent: GcBox,
    child: GcBox,
    value: Value<T>,
)
    requires
        s.sound(root, Seq::empty()),
        given is None || given == Some(parent),
        may_hold(s, parent, value),
        !s.doomed(parent),
        adopts_one(s, value.edges(), s.edges(parent), Edge::Weak(child)),
    ensures
        s.with_heap(s.heap.forward_barrier_weak(given, child)).sound(root, Seq::empty()),
        s.with_heap(s.heap.forward_barrier_weak(given, child)).with_value(parent, value).sound(
            root,
            Seq::empty(),
        ),
{
    let t = s.with_heap(s.heap.forward_barrier_weak(given, child));
    let was = s.edges(parent);
    let edges = value.edges();
    if s.heap.phase == Phase::Mark && (given is None || s.heap.color(given->0) == GcColor::Black) {
        trace_weak_is_sound(s, root, Seq::empty(), child);
        lemma_safe_kept(s, t, was);
        assert(t.edges(parent) == was);
        assert(t.values.contains_key(parent));
        lemma_adopts(t, edges, was, Edge::Weak(child));
    } else {
        assert(t == s);
        lemma_adopts(s, edges, was, Edge::Weak(child));
    }
    adopt_is_sound(t, root, Seq::empty(), parent, value);
}

proof fn lemma_safe_kept<T: Collect>(s: State<T>, t: State<T>, edges: Seq<Edge>)
    requires
        forall|e: Edge| #[trigger] s.safe(e) ==> t.safe(e),
        s.all_safe(edges),
    ensures
        t.all_safe(edges),
{
    assert forall|i: int| 0 <= i < edges.len() implies t.safe(#[trigger] edges[i]) by {
        assert(s.safe(edges[i]));
    }
}

/// The root barrier: the root may then hold any safe pointers.
pub proof fn root_barrier_allows_any<T: Collect>(s: State<T>, root: Seq<Edge>, new_root: Seq<Edge>)
    requires
        s.sound(root, Seq::empty()),
        s.all_safe(new_root),
    ensures
        s.with_heap(s.heap.root_barrier()).sound(new_root, Seq::empty()),
{
    let t = s.with_heap(s.heap.root_barrier());
    assert forall|b: GcBox| t.edges(b) == #[trigger] s.edges(b) by {}
    assert forall|e: Edge| #[trigger] s.safe(e) implies t.safe(e) by {}
    assert forall|x: GcBox| #[trigger] t.values.contains_key(x) && !t.doomed(x) implies t.all_safe(
        t.edges(x),
    ) by {
        assert(s.values.contains_key(x));
        assert(!s.doomed(x));
        lemma_safe_kept(s, t, s.edges(x));
    }
    assert forall|x: GcBox| #[trigger]
        t.values.contains_key(x) && t.heap.phase == Phase::Mark && t.heap.color(x)
            == GcColor::Black implies t.all_marked(t.edges(x)) by {
        assert(s.values.contains_key(x));
        assert(s.all_marked(s.edges(x)));
    }
    lemma_safe_kept(s, t, new_root);
}

/// A weak pointer that can be upgraded is a strong pointer that may be used.
pub proof fn upgrade_is_safe<T: Collect>(s: State<T>, b: GcBox)
    requires
        s.inv(),
        s.safe(Edge::Weak(b)),
        s.heap.upgrade(b),
    ensures
        s.safe(Edge::Strong(b)),
{
}

/// A weak pointer that cannot be upgraded points to contents that are gone or about to go.
pub proof fn no_upgrade_is_final<T: Collect>(s: State<T>, b: GcBox)
    requires
        s.inv(),
        s.heap.has(b),
        !s.heap.upgrade(b),
    ensures
        !s.safe(Edge::Strong(b)),
{
    if s.heap.phase == Phase::Sweep && s.heap.color(b) == GcColor::WhiteWeak {
        assert(s.heap.all.contains(b));
        let i = choose|i: int| 0 <= i < s.heap.all.len() && s.heap.all[i] == b;
        assert(i < s.heap.unswept);
        assert(s.heap.is_unswept(b));
    }
}

/// A new box keeps the arena sound, whatever the collector is doing, and the pointer to it may be
/// used. All other pointers stay as they were.
pub proof fn allocate_is_sound<T: Collect>(
    s: State<T>,
    root: Seq<Edge>,
    held: Seq<Edge>,
    b: GcBox,
    new: BoxView,
    value: Value<T>,
    brk: usize,
)
    requires
        s.sound(root, held),
        s.heap.brk < b.addr <= brk,
        new.flags.color == GcColor::White,
        new.flags.live,
        value.fits(new.flags.vtable, new.flags.needs_trace, new.meta),
        s.all_safe(value.edges()),
    ensures
        s.allocate(b, new, value, brk).sound(root, held),
        s.allocate(b, new, value, brk).safe(Edge::Strong(b)),
        forall|e: Edge| #[trigger] s.safe(e) ==> s.allocate(b, new, value, brk).safe(e),
        forall|x: GcBox| #[trigger]
            s.values.contains_key(x) ==> s.allocate(b, new, value, brk).edges(x) == s.edges(x),
{
    let t = s.allocate(b, new, value, brk);
    allocate_keeps_inv(s, b, new, value, brk);
    assert(t.heap.all.len() == s.heap.all.len() + 1);
    assert forall|x: GcBox| x != b implies #[trigger] t.heap.is_unswept(x) == s.heap.is_unswept(
        x,
    ) by {
        if s.heap.is_unswept(x) {
            let i = choose|i: int| 0 <= i < s.heap.unswept && s.heap.all[i] == x;
            assert(t.heap.all[i] == x);
        }
        if t.heap.is_unswept(x) {
            let i = choose|i: int| 0 <= i < t.heap.unswept && t.heap.all[i] == x;
            assert(s.heap.all[i] == x);
        }
    }
    assert(!t.heap.is_unswept(b)) by {
        if t.heap.is_unswept(b) {
            let i = choose|i: int| 0 <= i < t.heap.unswept && t.heap.all[i] == b;
            assert(s.heap.all[i] == b);
            assert(s.heap.all.contains(b));
        }
    }
    assert forall|e: Edge| #[trigger] s.safe(e) implies t.safe(e) by {
        assert(e.target() != b);
        assert(t.heap.is_unswept(e.target()) == s.heap.is_unswept(e.target()));
    }
    assert forall|x: GcBox| #[trigger] t.values.contains_key(x) && !t.doomed(x) implies t.all_safe(
        t.edges(x),
    ) by {
        if x == b {
            lemma_safe_kept(s, t, value.edges());
        } else {
            assert(s.values.contains_key(x));
            assert(t.heap.is_unswept(x) == s.heap.is_unswept(x));
            assert(!s.doomed(x));
            lemma_safe_kept(s, t, s.edges(x));
        }
    }
    assert forall|x: GcBox| #[trigger]
        t.values.contains_key(x) && t.heap.phase == Phase::Mark && t.heap.color(x)
            == GcColor::Black implies t.all_marked(t.edges(x)) by {
        assert(s.values.contains_key(x));
        assert(s.all_marked(s.edges(x)));
        assert(s.all_safe(s.edges(x))) by {
            soundness::lemma_nothing_doomed(s);
        }
        lemma_marks_kept(s, t, b, s.edges(x));
    }
    lemma_safe_kept(s, t, root);
    lemma_safe_kept(s, t, held);
    if s.heap.phase == Phase::Mark {
        lemma_marks_kept(s, t, b, held);
        if !s.heap.root_needs_trace {
            lemma_marks_kept(s, t, b, root);
        }
    }
}

proof fn lemma_marks_kept<T: Collect>(s: State<T>, t: State<T>, b: GcBox, edges: Seq<Edge>)
    requires
        !s.heap.has(b),
        forall|x: GcBox| x != b ==> #[trigger] t.heap.boxes[x] == s.heap.boxes[x],
        s.all_safe(edges),
        s.all_marked(edges),
    ensures
        t.all_marked(edges),
{
    assert forall|i: int| 0 <= i < edges.len() implies marking::marked(
        t.heap,
        #[trigger] edges[i],
    ) by {
        assert(s.safe(edges[i]));
        assert(marking::marked(s.heap, edges[i]));
        assert(edges[i].target() != b);
        assert(t.heap.boxes[edges[i].target()] == s.heap.boxes[edges[i].target()]);
    }
}

/// A new box keeps the arena valid.
pub proof fn allocate_keeps_inv<T: Collect>(
    s: State<T>,
    b: GcBox,
    new: BoxView,
    value: Value<T>,
    brk: usize,
)
    requires
        s.inv(),
        s.heap.brk < b.addr <= brk,
        new.flags.color == GcColor::White,
        new.flags.live,
        value.fits(new.flags.vtable, new.flags.needs_trace, new.meta),
    ensures
        s.allocate(b, new, value, brk).inv(),
        !s.heap.has(b),
        s.allocate(b, new, value, brk).edges(b) == value.edges(),
        forall|x: GcBox| #[trigger]
            s.values.contains_key(x) ==> s.allocate(b, new, value, brk).edges(x) == s.edges(x),
{
    let t = s.allocate(b, new, value, brk);
    crate::heap_laws::allocate_keeps_inv(s.heap, b, new, brk);
    if !new.flags.needs_trace {
        value.untraced_has_no_edges(new.flags.vtable, new.meta);
    }
    assert forall|x: GcBox| #[trigger] t.values.contains_key(x) <==> t.heap.has(x) && t.heap.live(
        x,
    ) by {
        assert(s.values.contains_key(x) <==> s.heap.has(x) && s.heap.live(x));
    }
    assert forall|x: GcBox| #[trigger] t.values.contains_key(x) implies t.values[x].fits(
        t.heap.boxes[x].flags.vtable,
        t.heap.boxes[x].flags.needs_trace,
        t.heap.boxes[x].meta,
    ) && (!t.heap.boxes[x].flags.needs_trace ==> t.edges(x).len() == 0) by {
        if x != b {
            assert(s.values.contains_key(x));
        }
    }
}

/// Every allocation of the library keeps the arena sound if the pointers in the new contents are
/// safe, and the pointer to the new box may be used.
pub proof fn allocated_is_sound<T: Collect, M>(
    s: State<T>,
    t: State<T>,
    root: Seq<Edge>,
    held: Seq<Edge>,
    b: GcBox,
    size: int,
    align: int,
    vtable: CollectVTable,
    needs_trace: bool,
    meta: Meta,
    value: Value<T>,
)
    requires
        s.sound(root, held),
        s.allocated::<M>(t, b, size, align, vtable, needs_trace, meta, value),
        0 <= size,
        value.fits(vtable, needs_trace, meta),
        s.all_safe(value.edges()),
    ensures
        t.sound(root, held),
        t.safe(Edge::Strong(b)),
        forall|e: Edge| #[trigger] s.safe(e) ==> t.safe(e),
{
    allocate_is_sound(s, root, held, b, t.heap.boxes[b], value, t.heap.brk);
}

/// Writing any safe pointers to the contents of a unique pointer keeps the arena sound, whether or
/// not the collector has traced them: what is written to one value or to one of a row.
pub proof fn unique_write_is_sound<T: Collect>(
    s: State<T>,
    root: Seq<Edge>,
    b: GcBox,
    row: Seq<T>,
)
    requires
        s.sound(root, Seq::empty()),
        may_hold(s, b, Value::Values(row)),
        s.all_safe(Value::Values(row).edges()),
    ensures
        s.with_heap(s.heap.backward_barrier(b, None)).with_row(b, row).sound(root, Seq::empty()),
{
    backward_barrier_allows_any(s, root, b, Value::Values(row));
}

/// What was written to memory is not traced before the memory is taken to be initialized, so that
/// writing it keeps the arena sound.
pub proof fn slot_write_is_sound<T: Collect>(
    s: State<T>,
    root: Seq<Edge>,
    b: GcBox,
    slots: Seq<Option<T>>,
)
    requires
        s.sound(root, Seq::empty()),
        may_hold(s, b, Value::Uninit(slots)),
    ensures
        s.with_value(b, Value::Uninit(slots)).sound(root, Seq::empty()),
{
    adopt_is_sound(s, root, Seq::empty(), b, Value::Uninit(slots));
}

/// Contents of another kind keep the arena sound after a write barrier if their pointers are safe.
pub proof fn reopened_convert_is_sound<T: Collect>(
    s: State<T>,
    root: Seq<Edge>,
    b: GcBox,
    vtable: CollectVTable,
    needs_trace: bool,
    meta: Meta,
    value: Value<T>,
)
    requires
        s.sound(root, Seq::empty()),
        s.values.contains_key(b),
        value.fits(vtable, needs_trace, meta),
        s.all_safe(value.edges()),
    ensures
        s.reopened(b).convert(b, vtable, needs_trace, meta, value).sound(root, Seq::empty()),
{
    let t = s.reopened(b);
    assert(s.heap.has(b));
    if s.heap.phase == Phase::Mark && s.heap.color(b) == GcColor::Black {
        make_gray_again_is_sound(s, root, Seq::empty(), b);
        lemma_safe_kept(s, t, value.edges());
    } else {
        assert(t == s);
    }
    convert_is_sound(t, root, Seq::empty(), b, vtable, needs_trace, meta, value);
}

/// Taking memory to be initialized keeps the arena sound if the pointers in it are safe.
pub proof fn initialize_is_sound<T: Collect>(s: State<T>, root: Seq<Edge>, b: GcBox, row: Seq<T>)
    requires
        s.sound(root, Seq::empty()),
        s.holds_slots(b),
        row.len() == s.slots(b).len(),
        s.all_safe(Value::Values(row).edges()),
    ensures
        s.initialized(b, row).sound(root, Seq::empty()),
{
    reopened_convert_is_sound(
        s,
        root,
        b,
        CollectVTable::Traced,
        T::spec_needs_trace(),
        s.heap.boxes[b].meta,
        Value::Values(row),
    );
}

/// Taking the contents of a unique pointer to be initialized keeps the arena sound if the pointers
/// that were written are safe.
pub proof fn assume_init_is_sound<T: Collect>(s: State<T>, root: Seq<Edge>, b: GcBox)
    requires
        s.sound(root, Seq::empty()),
        unique::may_assume_init(s, b),
        s.values[b] is Uninit ==> s.all_safe(
            Value::Values(contents::written(s.slots(b))).edges(),
        ),
    ensures
        unique::assumed_init(s, b).sound(root, Seq::empty()),
{
    if s.values[b] is Uninit {
        initialize_is_sound(s, root, b, contents::written(s.slots(b)));
    }
}

/// Turning a vector into a row in its buffer keeps the arena sound if the pointers of the elements
/// are safe.
pub proof fn fill_is_sound<T: Collect>(s: State<T>, root: Seq<Edge>, b: GcBox, row: Seq<T>)
    requires
        s.sound(root, Seq::empty()),
        s.values.contains_key(b),
        s.values[b] == Value::<T>::Buffer,
        row.len() <= usize::MAX,
        s.all_safe(Value::Values(row).edges()),
    ensures
        s.filled(b, row).sound(root, Seq::empty()),
{
    reopened_convert_is_sound(
        s,
        root,
        b,
        CollectVTable::Traced,
        T::spec_needs_trace(),
        Meta::Len(row.len() as usize),
        Value::Values(row),
    );
}

/// Turning a row into the buffer of a vector keeps the arena sound.
pub proof fn emptied_is_sound<T: Collect>(s: State<T>, root: Seq<Edge>, b: GcBox, cap: usize)
    requires
        s.sound(root, Seq::empty()),
        s.values.contains_key(b),
    ensures
        s.emptied(b, cap).sound(root, Seq::empty()),
{
    convert_is_sound(
        s,
        root,
        Seq::empty(),
        b,
        CollectVTable::Opaque,
        false,
        Meta::Len(cap),
        Value::Buffer,
    );
}

/// Turning a row into a vector and the vector back into a row changes nothing, but that the
/// collector traces the row again if it had already.
pub proof fn row_to_vector_and_back<T: Collect>(s: State<T>, b: GcBox, cap: usize)
    requires
        s.inv(),
        s.holds_row(b),
        s.heap.boxes[b].meta is Len,
    ensures
        s.emptied(b, cap).filled(b, s.row(b)) == s.reopened(b),
{
    let t = s.emptied(b, cap).filled(b, s.row(b));
    let r = s.reopened(b);
    assert(s.heap.has(b));
    assert(t.heap.boxes =~= r.heap.boxes);
    assert(t.values =~= r.values);
    assert(t =~= r);
}

} // verus!
