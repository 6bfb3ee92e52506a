//! The pointers held by values of the basic types.

use crate::collect::{self, Collect, Edge, Trace};
use core::marker::PhantomData;
use core::mem::MaybeUninit;
use std::collections::VecDeque;
use std::rc::Rc;
use std::sync::Arc;
use vstd::prelude::*;

verus! {

// Types that cannot hold pointers.
impl Collect for bool {
    open spec fn edges(&self) -> Seq<Edge> {
        Seq::empty()
    }

    open spec fn spec_needs_trace() -> bool {
        false
    }

    open spec fn spec_zeroed() -> Option<Self> {
        Some(false)
    }

    proof fn untraced_has_no_edges(&self) {
    }

    fn needs_trace() -> (b: bool) {
        false
    }

    fn zeroed() -> (t: Option<Self>) {
        Some(false)
    }

    fn trace<C: Trace>(&self, cc: &mut C) {
    }
}

impl Collect for char {
    open spec fn edges(&self) -> Seq<Edge> {
        Seq::empty()
    }

    open spec fn spec_needs_trace() -> bool {
        false
    }

    open spec fn spec_zeroed() -> Option<Self> {
        Some('\0')
    }

    proof fn untraced_has_no_edges(&self) {
    }

    fn needs_trace() -> (b: bool) {
        false
    }

    fn zeroed() -> (t: Option<Self>) {
        Some('\0')
    }

    fn trace<C: Trace>(&self, cc: &mut C) {
    }
}

impl Collect for u8 {
    open spec fn edges(&self) -> Seq<Edge> {
        Seq::empty()
    }

    open spec fn spec_needs_trace() -> bool {
        false
    }

    open spec fn spec_zeroed() -> Option<Self> {
        Some(0)
    }

    proof fn untraced_has_no_edges(&self) {
    }

    fn needs_trace() -> (b: bool) {
        false
    }

    fn zeroed() -> (t: Option<Self>) {
        Some(0)
    }

    fn trace<C: Trace>(&self, cc: &mut C) {
    }
}

impl Collect for u16 {
    open spec fn edges(&self) -> Seq<Edge> {
        Seq::empty()
    }

    open spec fn spec_needs_trace() -> bool {
        false
    }

    open spec fn spec_zeroed() -> Option<Self> {
        Some(0)
    }

    proof fn untraced_has_no_edges(&self) {
    }

    fn needs_trace() -> (b: bool) {
        false
    }

    fn zeroed() -> (t: Option<Self>) {
        Some(0)
    }

    fn trace<C: Trace>(&self, cc: &mut C) {
    }
}

impl Collect for u32 {
    open spec fn edges(&self) -> Seq<Edge> {
        Seq::empty()
    }

    open spec fn spec_needs_trace() -> bool {
        false
    }

    open spec fn spec_zeroed() -> Option<Self> {
        Some(0)
    }

    proof fn untraced_has_no_edges(&self) {
    }

    fn needs_trace() -> (b: bool) {
        false
    }

    fn zeroed() -> (t: Option<Self>) {
        Some(0)
    }

    fn trace<C: Trace>(&self, cc: &mut C) {
    }
}

impl Collect for u64 {
    open spec fn edges(&self) -> Seq<Edge> {
        Seq::empty()
    }

    open spec fn spec_needs_trace() -> bool {
        false
    }

    open spec fn spec_zeroed() -> Option<Self> {
        Some(0)
    }

    proof fn untraced_has_no_edges(&self) {
    }

    fn needs_trace() -> (b: bool) {
        false
    }

    fn zeroed() -> (t: Option<Self>) {
        Some(0)
    }

    fn trace<C: Trace>(&self, cc: &mut C) {
    }
}

impl Collect for usize {
    open spec fn edges(&self) -> Seq<Edge> {
        Seq::empty()
    }

    open spec fn spec_needs_trace() -> bool {
        false
    }

    open spec fn spec_zeroed() -> Option<Self> {
        Some(0)
    }

    proof fn untraced_has_no_edges(&self) {
    }

    fn needs_trace() -> (b: bool) {
        false
    }

    fn zeroed() -> (t: Option<Self>) {
        Some(0)
    }

    fn trace<C: Trace>(&self, cc: &mut C) {
    }
}

impl Collect for i8 {
    open spec fn edges(&self) -> Seq<Edge> {
        Seq::empty()
    }

    open spec fn spec_needs_trace() -> bool {
        false
    }

    open spec fn spec_zeroed() -> Option<Self> {
        Some(0)
    }

    proof fn untraced_has_no_edges(&self) {
    }

    fn needs_trace() -> (b: bool) {
        false
    }

    fn zeroed() -> (t: Option<Self>) {
        Some(0)
    }

    fn trace<C: Trace>(&self, cc: &mut C) {
    }
}

impl Collect for i16 {
    open spec fn edges(&self) -> Seq<Edge> {
        Seq::empty()
    }

    open spec fn spec_needs_trace() -> bool {
        false
    }

    open spec fn spec_zeroed() -> Option<Self> {
        Some(0)
    }

    proof fn untraced_has_no_edges(&self) {
    }

    fn needs_trace() -> (b: bool) {
        false
    }

    fn zeroed() -> (t: Option<Self>) {
        Some(0)
    }

    fn trace<C: Trace>(&self, cc: &mut C) {
    }
}

impl Collect for i32 {
    open spec fn edges(&self) -> Seq<Edge> {
        Seq::empty()
    }

    open spec fn spec_needs_trace() -> bool {
        false
    }

    open spec fn spec_zeroed() -> Option<Self> {
        Some(0)
    }

    proof fn untraced_has_no_edges(&self) {
    }

    fn needs_trace() -> (b: bool) {
        false
    }

    fn zeroed() -> (t: Option<Self>) {
        Some(0)
    }

    fn trace<C: Trace>(&self, cc: &mut C) {
    }
}

impl Collect for i64 {
    open spec fn edges(&self) -> Seq<Edge> {
        Seq::empty()
    }

    open spec fn spec_needs_trace() -> bool {
        false
    }

    open spec fn spec_zeroed() -> Option<Self> {
        Some(0)
    }

    proof fn untraced_has_no_edges(&self) {
    }

    fn needs_trace() -> (b: bool) {
        false
    }

    fn zeroed() -> (t: Option<Self>) {
        Some(0)
    }

    fn trace<C: Trace>(&self, cc: &mut C) {
    }
}

impl Collect for isize {
    open spec fn edges(&self) -> Seq<Edge> {
        Seq::empty()
    }

    open spec fn spec_needs_trace() -> bool {
        false
    }

    open spec fn spec_zeroed() -> Option<Self> {
        Some(0)
    }

    proof fn untraced_has_no_edges(&self) {
    }

    fn needs_trace() -> (b: bool) {
        false
    }

    fn zeroed() -> (t: Option<Self>) {
        Some(0)
    }

    fn trace<C: Trace>(&self, cc: &mut C) {
    }
}

impl Collect for String {
    open spec fn edges(&self) -> Seq<Edge> {
        Seq::empty()
    }

    open spec fn spec_needs_trace() -> bool {
        false
    }

    open spec fn spec_zeroed() -> Option<Self> {
        None
    }

    proof fn untraced_has_no_edges(&self) {
    }

    fn needs_trace() -> (b: bool) {
        false
    }

    fn zeroed() -> (t: Option<Self>) {
        None
    }

    fn trace<C: Trace>(&self, cc: &mut C) {
    }
}

impl Collect for () {
    open spec fn edges(&self) -> Seq<Edge> {
        Seq::empty()
    }

    open spec fn spec_needs_trace() -> bool {
        false
    }

    open spec fn spec_zeroed() -> Option<Self> {
        Some(())
    }

    proof fn untraced_has_no_edges(&self) {
    }

    fn needs_trace() -> (b: bool) {
        false
    }

    fn zeroed() -> (t: Option<Self>) {
        Some(())
    }

    fn trace<C: Trace>(&self, cc: &mut C) {
    }
}

impl<T> Collect for PhantomData<T> {
    open spec fn edges(&self) -> Seq<Edge> {
        Seq::empty()
    }

    open spec fn spec_needs_trace() -> bool {
        false
    }

    open spec fn spec_zeroed() -> Option<Self> {
        Some(PhantomData)
    }

    proof fn untraced_has_no_edges(&self) {
    }

    fn needs_trace() -> (b: bool) {
        false
    }

    fn zeroed() -> (t: Option<Self>) {
        Some(PhantomData)
    }

    fn trace<C: Trace>(&self, cc: &mut C) {
    }
}

// What was written to uninitialized memory is not traced.
impl<T> Collect for MaybeUninit<T> {
    open spec fn edges(&self) -> Seq<Edge> {
        Seq::empty()
    }

    open spec fn spec_needs_trace() -> bool {
        false
    }

    open spec fn spec_zeroed() -> Option<Self> {
        None
    }

    proof fn untraced_has_no_edges(&self) {
    }

    fn needs_trace() -> (b: bool) {
        false
    }

    fn zeroed() -> (t: Option<Self>) {
        None
    }

    fn trace<C: Trace>(&self, cc: &mut C) {
    }
}

// Types that hold what their parts hold.
impl<T: Collect> Collect for Option<T> {
    open spec fn edges(&self) -> Seq<Edge> {
        match self {
            Some(t) => t.edges(),
            None => Seq::empty(),
        }
    }

    open spec fn spec_needs_trace() -> bool {
        T::spec_needs_trace()
    }

    open spec fn spec_zeroed() -> Option<Self> {
        None
    }

    proof fn untraced_has_no_edges(&self) {
        if let Some(t) = self {
            t.untraced_has_no_edges();
        }
    }

    fn needs_trace() -> (b: bool) {
        T::needs_trace()
    }

    fn zeroed() -> (t: Option<Self>) {
        None
    }

    fn trace<C: Trace>(&self, cc: &mut C) {
        if let Some(t) = self {
            collect::trace(cc, t);
        }
    }
}

impl<T: Collect, E: Collect> Collect for Result<T, E> {
    open spec fn edges(&self) -> Seq<Edge> {
        match self {
            Ok(t) => t.edges(),
            Err(e) => e.edges(),
        }
    }

    open spec fn spec_needs_trace() -> bool {
        T::spec_needs_trace() || E::spec_needs_trace()
    }

    open spec fn spec_zeroed() -> Option<Self> {
        None
    }

    proof fn untraced_has_no_edges(&self) {
        match self {
            Ok(t) => t.untraced_has_no_edges(),
            Err(e) => e.untraced_has_no_edges(),
        }
    }

    fn needs_trace() -> (b: bool) {
        T::needs_trace() || E::needs_trace()
    }

    fn zeroed() -> (t: Option<Self>) {
        None
    }

    fn trace<C: Trace>(&self, cc: &mut C) {
        match self {
            Ok(t) => collect::trace(cc, t),
            Err(e) => collect::trace(cc, e),
        }
    }
}

impl<'a, T: Collect> Collect for &'a T {
    open spec fn edges(&self) -> Seq<Edge> {
        T::edges(*self)
    }

    open spec fn spec_needs_trace() -> bool {
        T::spec_needs_trace()
    }

    open spec fn spec_zeroed() -> Option<Self> {
        None
    }

    proof fn untraced_has_no_edges(&self) {
        T::untraced_has_no_edges(*self);
    }

    fn needs_trace() -> (b: bool) {
        T::needs_trace()
    }

    fn zeroed() -> (t: Option<Self>) {
        None
    }

    fn trace<C: Trace>(&self, cc: &mut C) {
        collect::trace(cc, *self);
    }
}

impl<T: Collect> Collect for Box<T> {
    open spec fn edges(&self) -> Seq<Edge> {
        (**self).edges()
    }

    open spec fn spec_needs_trace() -> bool {
        T::spec_needs_trace()
    }

    open spec fn spec_zeroed() -> Option<Self> {
        None
    }

    proof fn untraced_has_no_edges(&self) {
        (**self).untraced_has_no_edges();
    }

    fn needs_trace() -> (b: bool) {
        T::needs_trace()
    }

    fn zeroed() -> (t: Option<Self>) {
        None
    }

    fn trace<C: Trace>(&self, cc: &mut C) {
        collect::trace(cc, &**self);
    }
}

impl<T: Collect> Collect for Rc<T> {
    open spec fn edges(&self) -> Seq<Edge> {
        (**self).edges()
    }

    open spec fn spec_needs_trace() -> bool {
        T::spec_needs_trace()
    }

    open spec fn spec_zeroed() -> Option<Self> {
        None
    }

    proof fn untraced_has_no_edges(&self) {
        (**self).untraced_has_no_edges();
    }

    fn needs_trace() -> (b: bool) {
        T::needs_trace()
    }

    fn zeroed() -> (t: Option<Self>) {
        None
    }

    fn trace<C: Trace>(&self, cc: &mut C) {
        collect::trace(cc, &**self);
    }
}

impl<T: Collect> Collect for Arc<T> {
    open spec fn edges(&self) -> Seq<Edge> {
        (**self).edges()
    }

    open spec fn spec_needs_trace() -> bool {
        T::spec_needs_trace()
    }

    open spec fn spec_zeroed() -> Option<Self> {
        None
    }

    proof fn untraced_has_no_edges(&self) {
        (**self).untraced_has_no_edges();
    }

    fn needs_trace() -> (b: bool) {
        T::needs_trace()
    }

    fn zeroed() -> (t: Option<Self>) {
        None
    }

    fn trace<C: Trace>(&self, cc: &mut C) {
        collect::trace(cc, &**self);
    }
}

impl<T: Collect> Collect for Vec<T> {
    open spec fn edges(&self) -> Seq<Edge> {
        collect::row_edges(self@)
    }

    open spec fn spec_needs_trace() -> bool {
        T::spec_needs_trace()
    }

    open spec fn spec_zeroed() -> Option<Self> {
        None
    }

    proof fn untraced_has_no_edges(&self) {
        collect::lemma_row_untraced(self@);
    }

    fn needs_trace() -> (b: bool) {
        T::needs_trace()
    }

    fn zeroed() -> (t: Option<Self>) {
        None
    }

    fn trace<C: Trace>(&self, cc: &mut C) {
        collect::trace_slice(cc, self.as_slice());
    }
}

impl<T: Collect> Collect for VecDeque<T> {
    open spec fn edges(&self) -> Seq<Edge> {
        collect::row_edges(self@)
    }

    open spec fn spec_needs_trace() -> bool {
        T::spec_needs_trace()
    }

    open spec fn spec_zeroed() -> Option<Self> {
        None
    }

    proof fn untraced_has_no_edges(&self) {
        collect::lemma_row_untraced(self@);
    }

    fn needs_trace() -> (b: bool) {
        T::needs_trace()
    }

    fn zeroed() -> (t: Option<Self>) {
        None
    }

    fn trace<C: Trace>(&self, cc: &mut C) {
        collect::trace_deque(cc, self);
    }
}

impl<T: Collect, const N: usize> Collect for [T; N] {
    open spec fn edges(&self) -> Seq<Edge> {
        collect::row_edges(self@)
    }

    open spec fn spec_needs_trace() -> bool {
        T::spec_needs_trace()
    }

    open spec fn spec_zeroed() -> Option<Self> {
        if N == 0 || T::spec_zeroed() is Some {
            Some(choose|array: [T; N]| array@ == zeros::<T>(N as nat))
        } else {
            None
        }
    }

    proof fn untraced_has_no_edges(&self) {
        collect::lemma_row_untraced(self@);
    }

    fn needs_trace() -> (b: bool) {
        T::needs_trace()
    }

    fn zeroed() -> (t: Option<Self>) {
        let mut row: Vec<T> = Vec::new();
        while row.len() < N
            invariant
                row@.len() <= N,
                row@.len() > 0 ==> T::spec_zeroed() is Some,
                row@ == zeros::<T>(row@.len()),
            decreases N - row@.len(),
        {
            match T::zeroed() {
                Some(t) => {
                    row.push(t);
                    assert(row@ =~= zeros::<T>(row@.len()));
                },
                None => {
                    return None;
                },
            }
        }
        match crate::vec::array_from_vec::<T, N>(row) {
            Ok(array) => {
                proof {
                    let zero = choose|array: [T; N]| array@ == zeros::<T>(N as nat);
                    assert(zero@ == array@);
                    assert(zero =~= array);
                }
                Some(array)
            },
            Err(_) => vstd::pervasive::unreached(),
        }
    }

    fn trace<C: Trace>(&self, cc: &mut C) {
        collect::trace_slice(cc, self.as_slice());
    }
}

/// A row of zeroed values of a type that has one.
pub open spec fn zeros<T: Collect>(n: nat) -> Seq<T> {
    Seq::new(n, |i: int| T::spec_zeroed()->0)
}

} // verus!
