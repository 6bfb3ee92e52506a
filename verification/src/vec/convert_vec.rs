//! Vectors from slices.

use crate::collect::Collect;
use crate::layout;
use crate::mutation::Mutation;
use crate::vec::Vec;
use vstd::prelude::*;

verus! {

/// Forbids implementations outside this module.
pub trait Sealed {

}

/// A row of values that can be cloned into a vector.
pub trait ConvertVec: Sealed {
    type Item: Clone;

    spec fn items(&self) -> Seq<Self::Item>;

    /// A new vector with clones of the values.
    fn to_vec<P: Collect>(&self, mc: &mut Mutation<P>) -> (r: Vec<Self::Item>)
        requires
            old(mc).wf(),
            self.items().len() <= usize::MAX,
            crate::vec::room_for_buffer::<Self::Item, P>(
                old(mc)@,
                crate::vec::first_cap::<Self::Item>(self.items().len() as usize) as int,
            ),
        ensures
            final(mc).wf(),
            r.stands_in(final(mc)@),
            all_cloned(self.items(), r@),
            r.cap == crate::vec::first_cap::<Self::Item>(self.items().len() as usize),
            crate::vec::new_buffer::<Self::Item, P>(
                old(mc)@,
                final(mc)@,
                r.buf.ptr,
                r.cap as int,
            ),
    ;

    /// Makes a vector hold clones of the values.
    fn clone_into_vec<P: Collect>(&self, mc: &mut Mutation<P>, target: &mut Vec<Self::Item>)
        requires
            old(mc).wf(),
            old(target).stands_in(old(mc)@),
            can_clone_into(self.items().len(), *old(target), old(mc)@),
        ensures
            final(mc).wf(),
            final(target).stands_in(final(mc)@),
            all_cloned(self.items(), final(target)@),
            cloned_into(
                self.items().len(),
                *old(target),
                *final(target),
                old(mc)@,
                final(mc)@,
            ),
    ;
}

/// Whether each value of a row is a clone of the one at the same place of another.
pub open spec fn all_cloned<T: Clone>(from: Seq<T>, to: Seq<T>) -> bool {
    &&& from.len() == to.len()
    &&& forall|i: int| 0 <= i < from.len() ==> #[trigger] cloned(from[i], to[i])
}

/// Whether a vector can be made to hold `n` values.
pub open spec fn can_clone_into<T, P: Collect>(
    n: nat,
    target: Vec<T>,
    s: crate::state::State<P>,
) -> bool {
    n > target.cap ==> {
        &&& 2 * target.cap <= usize::MAX
        &&& n <= usize::MAX
        &&& crate::vec::room_for_buffer::<T, P>(s, grown(n, target))
    }
}

/// The capacity of a vector that had to grow to hold `n` values.
pub open spec fn grown<T>(n: nat, target: Vec<T>) -> int {
    layout::max(
        layout::max(2 * target.cap, n as int),
        crate::vec::spec_min_non_zero_cap(vstd::layout::size_of::<T>()) as int,
    )
}

/// Whether the buffer of a vector is the old one if it is large enough, and a new one otherwise.
pub open spec fn cloned_into<T, P: Collect>(
    n: nat,
    target: Vec<T>,
    new: Vec<T>,
    s: crate::state::State<P>,
    t: crate::state::State<P>,
) -> bool {
    if n <= target.cap {
        &&& t == s
        &&& new.buf == target.buf
        &&& new.cap == target.cap
        &&& target.keeps_places(new, n as int)
    } else {
        target.moved(new, s, t, grown(n, target))
    }
}

impl<T> Sealed for [T] {

}

impl<T: Clone> ConvertVec for [T] {
    type Item = T;

    open spec fn items(&self) -> Seq<T> {
        self@
    }

    fn to_vec<P: Collect>(&self, mc: &mut Mutation<P>) -> (r: Vec<T>) {
        let n: usize = self.len();
        let mut vec: Vec<T> = Vec::with_capacity(mc, n);
        let mut i: usize = 0;
        while i < n
            invariant
                mc.wf(),
                vec.stands_in(mc@),
                n == self@.len(),
                i <= n <= vec.cap,
                vec@.len() == i,
                forall|j: int| 0 <= j < i ==> #[trigger] cloned(self@[j], vec@[j]),
                vec.cap == crate::vec::first_cap::<T>(n),
                crate::vec::new_buffer::<T, P>(old(mc)@, mc@, vec.buf.ptr, vec.cap as int),
            decreases n - i,
        {
            let ghost before = vec@;
            let _ = vec.push_within_capacity(self[i].clone());
            assert forall|j: int| 0 <= j < i implies vec@[j] == before[j] by {}
            i += 1;
        }
        vec
    }

    fn clone_into_vec<P: Collect>(&self, mc: &mut Mutation<P>, target: &mut Vec<T>) {
        // What is not overwritten goes first.
        target.truncate(self.len());
        let kept: usize = target.len();
        let (init, tail) = self.split_at(kept);
        let mut i: usize = 0;
        while i < kept
            invariant
                mc.wf(),
                mc@ == old(mc)@,
                target.stands_in(mc@),
                target.buf == old(target).buf,
                target.cap == old(target).cap,
                i <= kept == init@.len() == target@.len(),
                old(target).keeps_places(*target, kept as int),
                forall|j: int| 0 <= j < i ==> #[trigger] cloned(init@[j], target@[j]),
            decreases kept - i,
        {
            let ghost before = *target;
            let element = init[i].clone();
            *target.index_mut(i) = element;
            proof {
                assert forall|j: int| 0 <= j < i implies target@[j] == before@[j] by {}
                assert forall|j: int| kept <= j implies #[trigger] target.place(j) == old(target).place(j) by {
                    assert(before.place(j) == old(target).place(j));
                }
            }
            i += 1;
        }
        let ghost front = target@;
        let ghost part = *target;
        target.extend_from_slice(mc, tail);
        proof {
            if self@.len() <= old(target).cap {
                assert forall|j: int| self@.len() <= j implies #[trigger] target.place(j) == old(target).place(j) by {
                    assert(target.place(j) == part.place(j));
                }
            }
            assert forall|j: int| 0 <= j < self@.len() implies #[trigger] cloned(
                self@[j],
                target@[j],
            ) by {
                if j < kept {
                    assert(init@[j] == self@[j]);
                    assert(cloned(init@[j], front[j]));
                    assert(target@[j] == front[j]);
                } else {
                    assert(tail@[j - kept] == self@[j]);
                    assert(cloned(tail@[j - kept], target@[kept + (j - kept)]));
                }
            }
        }
    }
}

} // verus!
