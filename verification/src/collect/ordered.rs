//! The pointers held by the ordered collections of the standard library.

use crate::collect::{self, Collect, Edge, Trace};
use std::collections::{BTreeMap, BTreeSet};
use vstd::laws_cmp::obeys_cmp;
use vstd::prelude::*;
use vstd::relations;
use vstd::std_specs::cmp::OrdSpec;
use vstd::std_specs::iter::IteratorSpec;

verus! {

/// A key that is ordered as a number is.
pub trait OrderedKey: Collect + Ord {
    /// The number by which the key is ordered.
    spec fn rank(&self) -> int;

    /// The order of the keys is that of their numbers, which are different for different keys.
    proof fn ordered_by_rank(&self, other: &Self)
        ensures
            obeys_cmp::<Self>(),
            self.cmp_spec(other) is Less <==> self.rank() < other.rank(),
            self.rank() == other.rank() ==> *self == *other,
    ;
}

impl OrderedKey for u8 {
    open spec fn rank(&self) -> int {
        *self as int
    }

    proof fn ordered_by_rank(&self, other: &u8) {
        broadcast use vstd::laws_cmp::group_laws_cmp;

    }
}

impl OrderedKey for u16 {
    open spec fn rank(&self) -> int {
        *self as int
    }

    proof fn ordered_by_rank(&self, other: &u16) {
        broadcast use vstd::laws_cmp::group_laws_cmp;

    }
}

impl OrderedKey for u32 {
    open spec fn rank(&self) -> int {
        *self as int
    }

    proof fn ordered_by_rank(&self, other: &u32) {
        broadcast use vstd::laws_cmp::group_laws_cmp;

    }
}

impl OrderedKey for u64 {
    open spec fn rank(&self) -> int {
        *self as int
    }

    proof fn ordered_by_rank(&self, other: &u64) {
        broadcast use vstd::laws_cmp::group_laws_cmp;

    }
}

impl OrderedKey for usize {
    open spec fn rank(&self) -> int {
        *self as int
    }

    proof fn ordered_by_rank(&self, other: &usize) {
        broadcast use vstd::laws_cmp::group_laws_cmp;

    }
}

impl OrderedKey for i8 {
    open spec fn rank(&self) -> int {
        *self as int
    }

    proof fn ordered_by_rank(&self, other: &i8) {
        broadcast use vstd::laws_cmp::group_laws_cmp;

    }
}

impl OrderedKey for i16 {
    open spec fn rank(&self) -> int {
        *self as int
    }

    proof fn ordered_by_rank(&self, other: &i16) {
        broadcast use vstd::laws_cmp::group_laws_cmp;

    }
}

impl OrderedKey for i32 {
    open spec fn rank(&self) -> int {
        *self as int
    }

    proof fn ordered_by_rank(&self, other: &i32) {
        broadcast use vstd::laws_cmp::group_laws_cmp;

    }
}

impl OrderedKey for i64 {
    open spec fn rank(&self) -> int {
        *self as int
    }

    proof fn ordered_by_rank(&self, other: &i64) {
        broadcast use vstd::laws_cmp::group_laws_cmp;

    }
}

impl OrderedKey for isize {
    open spec fn rank(&self) -> int {
        *self as int
    }

    proof fn ordered_by_rank(&self, other: &isize) {
        broadcast use vstd::laws_cmp::group_laws_cmp;

    }
}

/// The members of a finite set of keys from the least to the greatest.
pub open spec fn in_order<K: OrderedKey>(keys: Set<K>) -> Seq<K> {
    keys.to_sorted_seq(|a: K, b: K| a.rank() <= b.rank())
}

/// The entries of a map from the least key to the greatest.
pub open spec fn entries<K: OrderedKey, V>(map: Map<K, V>) -> Seq<(K, V)> {
    in_order(map.dom()).map_values(|k: K| (k, map[k]))
}

proof fn lemma_rank_is_total<K: OrderedKey>()
    ensures
        relations::total_ordering(|a: K, b: K| a.rank() <= b.rank()),
{
    let leq = |a: K, b: K| a.rank() <= b.rank();
    assert forall|a: K, b: K| #[trigger] leq(a, b) && #[trigger] leq(b, a) implies a == b by {
        a.ordered_by_rank(&b);
    }
}

/// A set as a row has each member once.
proof fn lemma_to_seq<K>(keys: Set<K>)
    requires
        keys.finite(),
    ensures
        keys.to_seq().no_duplicates(),
        keys.to_seq().to_set() == keys,
    decreases keys.len(),
{
    broadcast use vstd::set_lib::group_set_properties;

    keys.lemma_to_seq_to_set_id();
    if keys.len() > 0 {
        let x = keys.choose();
        let rest = keys.remove(x).to_seq();
        lemma_to_seq(keys.remove(x));
        assert(!rest.to_set().contains(x));
        assert(!rest.contains(x));
        assert(keys.to_seq() =~= seq![x] + rest);
        assert forall|i: int, j: int|
            0 <= i < j < keys.to_seq().len() implies keys.to_seq()[i] != keys.to_seq()[j] by {
            if i == 0 {
                assert(rest.contains(rest[j - 1]));
            }
        }
    }
}

/// Rows that have the same members once each have the same members as often.
proof fn lemma_same_members<K>(a: Seq<K>, b: Seq<K>)
    requires
        a.no_duplicates(),
        b.no_duplicates(),
        a.to_set() == b.to_set(),
    ensures
        a.to_multiset() == b.to_multiset(),
{
    a.lemma_multiset_has_no_duplicates();
    b.lemma_multiset_has_no_duplicates();
    a.to_multiset_ensures();
    b.to_multiset_ensures();
    assert forall|x: K| a.to_multiset().count(x) == b.to_multiset().count(x) by {
        assert(a.contains(x) == a.to_set().contains(x));
        assert(b.contains(x) == b.to_set().contains(x));
        assert(a.to_multiset().contains(x) == (a.to_multiset().count(x) > 0));
        assert(b.to_multiset().contains(x) == (b.to_multiset().count(x) > 0));
    }
    assert(a.to_multiset() =~= b.to_multiset());
}

/// The row of the members of a set in order has each of them once.
pub proof fn in_order_has_all<K: OrderedKey>(keys: Set<K>)
    requires
        keys.finite(),
    ensures
        in_order(keys).no_duplicates(),
        in_order(keys).to_set() == keys,
        forall|i: int, j: int|
            0 <= i < j < in_order(keys).len() ==> (#[trigger] in_order(keys)[i]).rank() < (
            #[trigger] in_order(keys)[j]).rank(),
{
    let leq = |a: K, b: K| a.rank() <= b.rank();
    let row = keys.to_seq();
    let sorted = in_order(keys);
    lemma_rank_is_total::<K>();
    lemma_to_seq(keys);
    row.lemma_sort_by_ensures(leq);
    row.lemma_multiset_has_no_duplicates();
    sorted.lemma_multiset_has_no_duplicates_conv();
    row.to_multiset_ensures();
    sorted.to_multiset_ensures();
    assert forall|x: K| sorted.to_set().contains(x) == keys.contains(x) by {
        assert(row.contains(x) == row.to_set().contains(x));
        assert(sorted.contains(x) == sorted.to_set().contains(x));
        assert(row.contains(x) == (row.to_multiset().count(x) > 0));
        assert(sorted.contains(x) == (sorted.to_multiset().count(x) > 0));
    }
    assert(sorted.to_set() =~= keys);
    assert forall|i: int, j: int| 0 <= i < j < sorted.len() implies (#[trigger] sorted[i]).rank()
        < (#[trigger] sorted[j]).rank() by {
        assert(leq(sorted[i], sorted[j]));
        sorted[i].ordered_by_rank(&sorted[j]);
    }
}

/// A row of keys that increases is the row of its members in order.
proof fn lemma_increasing_is_in_order<K: OrderedKey>(row: Seq<K>)
    requires
        forall|i: int, j: int|
            0 <= i < j < row.len() ==> (#[trigger] row[i]).rank() < (#[trigger] row[j]).rank(),
    ensures
        in_order(row.to_set()) == row,
{
    let leq = |a: K, b: K| a.rank() <= b.rank();
    let keys = row.to_set();
    assert forall|i: int, j: int| 0 <= i < row.len() && 0 <= j < row.len() && i != j implies row[i]
        != row[j] by {
        if i < j {
            assert(row[i].rank() < row[j].rank());
        } else {
            assert(row[j].rank() < row[i].rank());
        }
    }
    lemma_rank_is_total::<K>();
    vstd::seq_lib::seq_to_set_is_finite(row);
    in_order_has_all(keys);
    lemma_same_members(row, in_order(keys));
    keys.to_seq().lemma_sort_by_ensures(leq);
    assert(relations::sorted_by(row, leq)) by {
        assert forall|i: int, j: int| 0 <= i < j < row.len() implies leq(row[i], row[j]) by {
            assert(row[i].rank() < row[j].rank());
        }
    }
    vstd::seq_lib::lemma_sorted_unique(row, in_order(keys), leq);
}

/// A map holds a pointer exactly if one of its entries does.
pub proof fn map_holds_what_its_entries_hold<K: OrderedKey, V: Collect>(map: Map<K, V>, e: Edge)
    requires
        map.dom().finite(),
    ensures
        collect::row_edges(entries(map)).contains(e) <==> exists|k: K| #[trigger]
            map.contains_key(k) && (k.edges().contains(e) || map[k].edges().contains(e)),
{
    let row = in_order(map.dom());
    let all = entries(map);
    in_order_has_all(map.dom());
    collect::lemma_row_edges_contains(all, e);
    if exists|i: int| 0 <= i < all.len() && (#[trigger] all[i]).edges().contains(e) {
        let i = choose|i: int| 0 <= i < all.len() && (#[trigger] all[i]).edges().contains(e);
        let k = row[i];
        assert(row.to_set().contains(k));
        assert(all[i] == (k, map[k]));
        let both = k.edges() + map[k].edges();
        let n = choose|n: int| 0 <= n < both.len() && both[n] == e;
        if n < k.edges().len() {
            assert(k.edges()[n] == e);
        } else {
            assert(map[k].edges()[n - k.edges().len()] == e);
        }
        assert(map.contains_key(k));
    }
    if exists|k: K| #[trigger]
        map.contains_key(k) && (k.edges().contains(e) || map[k].edges().contains(e)) {
        let k = choose|k: K| #[trigger]
            map.contains_key(k) && (k.edges().contains(e) || map[k].edges().contains(e));
        assert(row.to_set().contains(k));
        assert(row.contains(k));
        let i = choose|i: int| 0 <= i < row.len() && row[i] == k;
        let both = k.edges() + map[k].edges();
        if k.edges().contains(e) {
            let n = choose|n: int| 0 <= n < k.edges().len() && k.edges()[n] == e;
            assert(both[n] == e);
        } else {
            let n = choose|n: int| 0 <= n < map[k].edges().len() && map[k].edges()[n] == e;
            assert(both[k.edges().len() + n] == e);
        }
        assert(all[i] == (k, map[k]));
        assert(all[i].edges().contains(e));
    }
}

/// A set holds a pointer exactly if one of its members does.
pub proof fn set_holds_what_its_members_hold<K: OrderedKey>(keys: Set<K>, e: Edge)
    requires
        keys.finite(),
    ensures
        collect::row_edges(in_order(keys)).contains(e) <==> exists|k: K| #[trigger]
            keys.contains(k) && k.edges().contains(e),
{
    let row = in_order(keys);
    in_order_has_all(keys);
    collect::lemma_row_edges_contains(row, e);
    if exists|i: int| 0 <= i < row.len() && (#[trigger] row[i]).edges().contains(e) {
        let i = choose|i: int| 0 <= i < row.len() && (#[trigger] row[i]).edges().contains(e);
        assert(row.to_set().contains(row[i]));
    }
    if exists|k: K| #[trigger] keys.contains(k) && k.edges().contains(e) {
        let k = choose|k: K| #[trigger] keys.contains(k) && k.edges().contains(e);
        assert(row.to_set().contains(k));
        assert(row.contains(k));
        let i = choose|i: int| 0 <= i < row.len() && row[i] == k;
        assert(row[i].edges().contains(e));
    }
}

impl<K: OrderedKey, V: Collect> Collect for BTreeMap<K, V> {
    open spec fn edges(&self) -> Seq<Edge> {
        collect::row_edges(entries(self@))
    }

    open spec fn spec_needs_trace() -> bool {
        K::spec_needs_trace() || V::spec_needs_trace()
    }

    open spec fn spec_zeroed() -> Option<Self> {
        None
    }

    proof fn untraced_has_no_edges(&self) {
        collect::lemma_row_untraced(entries(self@));
    }

    fn needs_trace() -> (b: bool) {
        K::needs_trace() || V::needs_trace()
    }

    fn zeroed() -> (t: Option<Self>) {
        None
    }

    fn trace<C: Trace>(&self, cc: &mut C) {
        proof {
            lemma_keys_are_walked::<K>();
        }
        let iter = self.iter();
        proof {
            lemma_map_is_walked_in_order(self, iter.remaining());
        }
        trace_entries(cc, iter);
    }
}

impl<K: OrderedKey> Collect for BTreeSet<K> {
    open spec fn edges(&self) -> Seq<Edge> {
        collect::row_edges(in_order(self@))
    }

    open spec fn spec_needs_trace() -> bool {
        K::spec_needs_trace()
    }

    open spec fn spec_zeroed() -> Option<Self> {
        None
    }

    proof fn untraced_has_no_edges(&self) {
        collect::lemma_row_untraced(in_order(self@));
    }

    fn needs_trace() -> (b: bool) {
        K::needs_trace()
    }

    fn zeroed() -> (t: Option<Self>) {
        None
    }

    fn trace<C: Trace>(&self, cc: &mut C) {
        proof {
            lemma_keys_are_walked::<K>();
        }
        let iter = self.iter();
        proof {
            lemma_set_is_walked_in_order(self, iter.remaining());
        }
        trace_members(cc, iter);
    }
}

/// Shows the pointers of the entries that an iterator gives to a visitor.
fn trace_entries<'a, C: Trace, K: Collect + 'a, V: Collect + 'a, I: Iterator<Item = (&'a K, &'a V)>>(
    cc: &mut C,
    iter: I,
)
    requires
        old(cc).wf(),
        iter.obeys_prophetic_iter_laws(),
        iter.decrease() is Some,
        collect::all_ready::<C>(old(cc).state(), collect::row_edges(iter.remaining().unref())),
    ensures
        final(cc).wf(),
        final(cc).state() == collect::trace_all::<C>(
            old(cc).state(),
            collect::row_edges(iter.remaining().unref()),
        ),
{
    let mut iter = iter;
    let ghost start = cc.state();
    let ghost all = iter.remaining();
    let ghost row = all.unref();
    let ghost mut i: int = 0;
    proof {
        assert(row.take(0) =~= Seq::<(K, V)>::empty());
        assert(all.skip(0) =~= all);
    }
    loop
        invariant
            iter.obeys_prophetic_iter_laws(),
            iter.decrease() is Some,
            0 <= i <= row.len(),
            row == all.unref(),
            iter.remaining() == all.skip(i),
            cc.wf(),
            cc.state() == collect::trace_all::<C>(start, collect::row_edges(row.take(i))),
            collect::all_ready::<C>(start, collect::row_edges(row)),
        ensures
            i == row.len(),
        decreases iter.decrease()->0,
    {
        let ghost left = iter.remaining();
        match iter.next() {
            None => {
                assert(left.len() == all.len() - i);
                break;
            },
            Some((key, value)) => {
                proof {
                    assert((key, value) == all[i]);
                    assert(row[i] == (*key, *value));
                    assert(left.drop_first() =~= all.skip(i + 1));
                    collect::lemma_trace_next::<C, (K, V)>(start, row, i);
                    collect::lemma_two_parts::<C>(cc.state(), key.edges(), value.edges());
                    i = i + 1;
                }
                collect::trace(cc, key);
                collect::trace(cc, value);
            },
        }
    }
    assert(row.take(i) =~= row);
}

/// Shows the pointers of the values that an iterator gives to a visitor.
fn trace_members<'a, C: Trace, K: Collect + 'a, I: Iterator<Item = &'a K>>(cc: &mut C, iter: I)
    requires
        old(cc).wf(),
        iter.obeys_prophetic_iter_laws(),
        iter.decrease() is Some,
        collect::all_ready::<C>(old(cc).state(), collect::row_edges(iter.remaining().unref())),
    ensures
        final(cc).wf(),
        final(cc).state() == collect::trace_all::<C>(
            old(cc).state(),
            collect::row_edges(iter.remaining().unref()),
        ),
{
    let mut iter = iter;
    let ghost start = cc.state();
    let ghost all = iter.remaining();
    let ghost row = all.unref();
    let ghost mut i: int = 0;
    proof {
        assert(row.take(0) =~= Seq::<K>::empty());
        assert(all.skip(0) =~= all);
    }
    loop
        invariant
            iter.obeys_prophetic_iter_laws(),
            iter.decrease() is Some,
            0 <= i <= row.len(),
            row == all.unref(),
            iter.remaining() == all.skip(i),
            cc.wf(),
            cc.state() == collect::trace_all::<C>(start, collect::row_edges(row.take(i))),
            collect::all_ready::<C>(start, collect::row_edges(row)),
        ensures
            i == row.len(),
        decreases iter.decrease()->0,
    {
        let ghost left = iter.remaining();
        match iter.next() {
            None => {
                assert(left.len() == all.len() - i);
                break;
            },
            Some(key) => {
                proof {
                    assert(key == all[i]);
                    assert(left.drop_first() =~= all.skip(i + 1));
                    collect::lemma_trace_next::<C, K>(start, row, i);
                    i = i + 1;
                }
                collect::trace(cc, key);
            },
        }
    }
    assert(row.take(i) =~= row);
}

/// The order of the keys is one that maps and sets can walk by.
proof fn lemma_keys_are_walked<K: OrderedKey>()
    ensures
        obeys_cmp::<K>(),
        obeys_cmp::<&K>(),
        vstd::std_specs::btree::key_obeys_cmp_spec::<K>(),
{
    broadcast use vstd::laws_cmp::group_laws_cmp;
    broadcast use vstd::std_specs::btree::group_btree_axioms;

    let k: K = arbitrary();
    k.ordered_by_rank(&k);
}

/// The iterator of a map gives its entries in order.
proof fn lemma_map_is_walked_in_order<K: OrderedKey, V>(map: &BTreeMap<K, V>, all: Seq<(&K, &V)>)
    requires
        all.unref().to_set() == map@.kv_pairs(),
        vstd::std_specs::btree::increasing_seq(all.map_values(|kv: (&K, &V)| *kv.0)),
    ensures
        entries(map@) == all.unref(),
{
    broadcast use vstd::std_specs::btree::group_btree_axioms;

    lemma_keys_are_walked::<K>();
    let row = all.map_values(|kv: (&K, &V)| *kv.0);
    let pairs = all.unref();
    assert forall|i: int, j: int| 0 <= i < j < row.len() implies (#[trigger] row[i]).rank() < (
    #[trigger] row[j]).rank() by {
        row[i].ordered_by_rank(&row[j]);
    }
    assert forall|i: int| 0 <= i < pairs.len() implies map@.contains_key(row[i])
        && #[trigger] pairs[i] == (row[i], map@[row[i]]) by {
        assert(pairs.contains(pairs[i]));
        assert(pairs.to_set().contains(pairs[i]));
        assert(map@.kv_pairs().contains(pairs[i]));
    }
    assert forall|k: K| row.to_set().contains(k) == map@.dom().contains(k) by {
        if map@.dom().contains(k) {
            assert(map@.kv_pairs().contains((k, map@[k])));
            assert(pairs.to_set().contains((k, map@[k])));
            let i = choose|i: int| 0 <= i < pairs.len() && pairs[i] == (k, map@[k]);
            assert(row[i] == k);
        }
        if row.to_set().contains(k) {
            let i = choose|i: int| 0 <= i < row.len() && row[i] == k;
            assert(pairs[i] == (row[i], map@[row[i]]));
        }
    }
    assert(row.to_set() =~= map@.dom());
    lemma_increasing_is_in_order(row);
    assert(entries(map@) =~= pairs);
}

/// The iterator of a set gives its members in order.
proof fn lemma_set_is_walked_in_order<K: OrderedKey>(set: &BTreeSet<K>, all: Seq<&K>)
    requires
        all.unref().to_set() == set@,
        vstd::std_specs::btree::increasing_seq(all),
    ensures
        in_order(set@) == all.unref(),
{
    broadcast use vstd::std_specs::btree::group_btree_axioms;

    lemma_keys_are_walked::<K>();
    let row = all.unref();
    assert forall|i: int, j: int| 0 <= i < j < row.len() implies (#[trigger] row[i]).rank() < (
    #[trigger] row[j]).rank() by {
        assert(OrdSpec::cmp_spec(&all[i], &all[j]) is Less);
        row[i].ordered_by_rank(&row[j]);
    }
    lemma_increasing_is_in_order(row);
}

} // verus!
