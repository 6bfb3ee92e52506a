//! The pointers held by tuples: those of their parts, in order.

use crate::collect::{self, Collect, Edge, Trace};
use vstd::prelude::*;

verus! {

impl<A: Collect> Collect for (A,) {
    open spec fn edges(&self) -> Seq<Edge> {
        self.0.edges()
    }

    open spec fn spec_needs_trace() -> bool {
        A::spec_needs_trace()
    }

    open spec fn spec_zeroed() -> Option<Self> {
        match A::spec_zeroed() {
            Some(a) => Some((a,)),
            None => None,
        }
    }

    proof fn untraced_has_no_edges(&self) {
        self.0.untraced_has_no_edges();
    }

    fn needs_trace() -> (b: bool) {
        A::needs_trace()
    }

    fn zeroed() -> (t: Option<Self>) {
        match A::zeroed() {
            Some(a) => Some((a,)),
            None => None,
        }
    }

    fn trace<C: Trace>(&self, cc: &mut C) {
        collect::trace(cc, &self.0);
    }
}

impl<A: Collect, B: Collect> Collect for (A, B) {
    open spec fn edges(&self) -> Seq<Edge> {
        self.0.edges() + self.1.edges()
    }

    open spec fn spec_needs_trace() -> bool {
        A::spec_needs_trace() || B::spec_needs_trace()
    }

    open spec fn spec_zeroed() -> Option<Self> {
        match (
            A::spec_zeroed(),
            B::spec_zeroed(),
        ) {
            (Some(a), Some(b)) => Some((a, b)),
            _ => None,
        }
    }

    proof fn untraced_has_no_edges(&self) {
        self.0.untraced_has_no_edges();
        self.1.untraced_has_no_edges();
    }

    fn needs_trace() -> (b: bool) {
        A::needs_trace() || B::needs_trace()
    }

    fn zeroed() -> (t: Option<Self>) {
        match (
            A::zeroed(),
            B::zeroed(),
        ) {
            (Some(a), Some(b)) => Some((a, b)),
            _ => None,
        }
    }

    fn trace<C: Trace>(&self, cc: &mut C) {
        proof {
            let s = cc.state();
            let e0 = self.0.edges();
            collect::lemma_two_parts::<C>(s, e0, self.1.edges());
        }
        collect::trace(cc, &self.0);
        collect::trace(cc, &self.1);
    }
}

impl<A: Collect, B: Collect, D: Collect> Collect for (A, B, D) {
    open spec fn edges(&self) -> Seq<Edge> {
        self.0.edges() + self.1.edges() + self.2.edges()
    }

    open spec fn spec_needs_trace() -> bool {
        A::spec_needs_trace() || B::spec_needs_trace() || D::spec_needs_trace()
    }

    open spec fn spec_zeroed() -> Option<Self> {
        match (
            A::spec_zeroed(),
            B::spec_zeroed(),
            D::spec_zeroed(),
        ) {
            (Some(a), Some(b), Some(d)) => Some((a, b, d)),
            _ => None,
        }
    }

    proof fn untraced_has_no_edges(&self) {
        self.0.untraced_has_no_edges();
        self.1.untraced_has_no_edges();
        self.2.untraced_has_no_edges();
    }

    fn needs_trace() -> (b: bool) {
        A::needs_trace() || B::needs_trace() || D::needs_trace()
    }

    fn zeroed() -> (t: Option<Self>) {
        match (
            A::zeroed(),
            B::zeroed(),
            D::zeroed(),
        ) {
            (Some(a), Some(b), Some(d)) => Some((a, b, d)),
            _ => None,
        }
    }

    fn trace<C: Trace>(&self, cc: &mut C) {
        proof {
            let s = cc.state();
            let e0 = self.0.edges();
            let e1 = e0 + self.1.edges();
            collect::lemma_two_parts::<C>(s, e1, self.2.edges());
            collect::lemma_two_parts::<C>(s, e0, self.1.edges());
        }
        collect::trace(cc, &self.0);
        collect::trace(cc, &self.1);
        collect::trace(cc, &self.2);
    }
}

impl<A: Collect, B: Collect, D: Collect, E: Collect> Collect for (A, B, D, E) {
    open spec fn edges(&self) -> Seq<Edge> {
        self.0.edges() + self.1.edges() + self.2.edges() + self.3.edges()
    }

    open spec fn spec_needs_trace() -> bool {
        A::spec_needs_trace() || B::spec_needs_trace() || D::spec_needs_trace()
            || E::spec_needs_trace()
    }

    open spec fn spec_zeroed() -> Option<Self> {
        match (
            A::spec_zeroed(),
            B::spec_zeroed(),
            D::spec_zeroed(),
            E::spec_zeroed(),
        ) {
            (Some(a), Some(b), Some(d), Some(e)) => Some((a, b, d, e)),
            _ => None,
        }
    }

    proof fn untraced_has_no_edges(&self) {
        self.0.untraced_has_no_edges();
        self.1.untraced_has_no_edges();
        self.2.untraced_has_no_edges();
        self.3.untraced_has_no_edges();
    }

    fn needs_trace() -> (b: bool) {
        A::needs_trace() || B::needs_trace() || D::needs_trace() || E::needs_trace()
    }

    fn zeroed() -> (t: Option<Self>) {
        match (
            A::zeroed(),
            B::zeroed(),
            D::zeroed(),
            E::zeroed(),
        ) {
            (Some(a), Some(b), Some(d), Some(e)) => Some((a, b, d, e)),
            _ => None,
        }
    }

    fn trace<C: Trace>(&self, cc: &mut C) {
        proof {
            let s = cc.state();
            let e0 = self.0.edges();
            let e1 = e0 + self.1.edges();
            let e2 = e1 + self.2.edges();
            collect::lemma_two_parts::<C>(s, e2, self.3.edges());
            collect::lemma_two_parts::<C>(s, e1, self.2.edges());
            collect::lemma_two_parts::<C>(s, e0, self.1.edges());
        }
        collect::trace(cc, &self.0);
        collect::trace(cc, &self.1);
        collect::trace(cc, &self.2);
        collect::trace(cc, &self.3);
    }
}

impl<A: Collect, B: Collect, D: Collect, E: Collect, F: Collect> Collect for (A, B, D, E, F) {
    open spec fn edges(&self) -> Seq<Edge> {
        self.0.edges() + self.1.edges() + self.2.edges() + self.3.edges() + self.4.edges()
    }

    open spec fn spec_needs_trace() -> bool {
        A::spec_needs_trace() || B::spec_needs_trace() || D::spec_needs_trace()
            || E::spec_needs_trace() || F::spec_needs_trace()
    }

    open spec fn spec_zeroed() -> Option<Self> {
        match (
            A::spec_zeroed(),
            B::spec_zeroed(),
            D::spec_zeroed(),
            E::spec_zeroed(),
            F::spec_zeroed(),
        ) {
            (Some(a), Some(b), Some(d), Some(e), Some(f)) => Some((a, b, d, e, f)),
            _ => None,
        }
    }

    proof fn untraced_has_no_edges(&self) {
        self.0.untraced_has_no_edges();
        self.1.untraced_has_no_edges();
        self.2.untraced_has_no_edges();
        self.3.untraced_has_no_edges();
        self.4.untraced_has_no_edges();
    }

    fn needs_trace() -> (b: bool) {
        A::needs_trace() || B::needs_trace() || D::needs_trace() || E::needs_trace()
            || F::needs_trace()
    }

    fn zeroed() -> (t: Option<Self>) {
        match (
            A::zeroed(),
            B::zeroed(),
            D::zeroed(),
            E::zeroed(),
            F::zeroed(),
        ) {
            (Some(a), Some(b), Some(d), Some(e), Some(f)) => Some((a, b, d, e, f)),
            _ => None,
        }
    }

    fn trace<C: Trace>(&self, cc: &mut C) {
        proof {
            let s = cc.state();
            let e0 = self.0.edges();
            let e1 = e0 + self.1.edges();
            let e2 = e1 + self.2.edges();
            let e3 = e2 + self.3.edges();
            collect::lemma_two_parts::<C>(s, e3, self.4.edges());
            collect::lemma_two_parts::<C>(s, e2, self.3.edges());
            collect::lemma_two_parts::<C>(s, e1, self.2.edges());
            collect::lemma_two_parts::<C>(s, e0, self.1.edges());
        }
        collect::trace(cc, &self.0);
        collect::trace(cc, &self.1);
        collect::trace(cc, &self.2);
        collect::trace(cc, &self.3);
        collect::trace(cc, &self.4);
    }
}

impl<
    A: Collect, B: Collect, D: Collect, E: Collect, F: Collect, G: Collect,
> Collect for (A, B, D, E, F, G) {
    open spec fn edges(&self) -> Seq<Edge> {
        self.0.edges() + self.1.edges() + self.2.edges() + self.3.edges() + self.4.edges()
            + self.5.edges()
    }

    open spec fn spec_needs_trace() -> bool {
        A::spec_needs_trace() || B::spec_needs_trace() || D::spec_needs_trace()
            || E::spec_needs_trace() || F::spec_needs_trace() || G::spec_needs_trace()
    }

    open spec fn spec_zeroed() -> Option<Self> {
        match (
            A::spec_zeroed(),
            B::spec_zeroed(),
            D::spec_zeroed(),
            E::spec_zeroed(),
            F::spec_zeroed(),
            G::spec_zeroed(),
        ) {
            (Some(a), Some(b), Some(d), Some(e), Some(f), Some(g)) => Some((a, b, d, e, f, g)),
            _ => None,
        }
    }

    proof fn untraced_has_no_edges(&self) {
        self.0.untraced_has_no_edges();
        self.1.untraced_has_no_edges();
        self.2.untraced_has_no_edges();
        self.3.untraced_has_no_edges();
        self.4.untraced_has_no_edges();
        self.5.untraced_has_no_edges();
    }

    fn needs_trace() -> (b: bool) {
        A::needs_trace() || B::needs_trace() || D::needs_trace() || E::needs_trace()
            || F::needs_trace() || G::needs_trace()
    }

    fn zeroed() -> (t: Option<Self>) {
        match (
            A::zeroed(),
            B::zeroed(),
            D::zeroed(),
            E::zeroed(),
            F::zeroed(),
            G::zeroed(),
        ) {
            (Some(a), Some(b), Some(d), Some(e), Some(f), Some(g)) => Some((a, b, d, e, f, g)),
            _ => None,
        }
    }

    fn trace<C: Trace>(&self, cc: &mut C) {
        proof {
            let s = cc.state();
            let e0 = self.0.edges();
            let e1 = e0 + self.1.edges();
            let e2 = e1 + self.2.edges();
            let e3 = e2 + self.3.edges();
            let e4 = e3 + self.4.edges();
            collect::lemma_two_parts::<C>(s, e4, self.5.edges());
            collect::lemma_two_parts::<C>(s, e3, self.4.edges());
            collect::lemma_two_parts::<C>(s, e2, self.3.edges());
            collect::lemma_two_parts::<C>(s, e1, self.2.edges());
            collect::lemma_two_parts::<C>(s, e0, self.1.edges());
        }
        collect::trace(cc, &self.0);
        collect::trace(cc, &self.1);
        collect::trace(cc, &self.2);
        collect::trace(cc, &self.3);
        collect::trace(cc, &self.4);
        collect::trace(cc, &self.5);
    }
}

impl<
    A: Collect, B: Collect, D: Collect, E: Collect, F: Collect, G: Collect, H: Collect,
> Collect for (A, B, D, E, F, G, H) {
    open spec fn edges(&self) -> Seq<Edge> {
        self.0.edges() + self.1.edges() + self.2.edges() + self.3.edges() + self.4.edges()
            + self.5.edges() + self.6.edges()
    }

    open spec fn spec_needs_trace() -> bool {
        A::spec_needs_trace() || B::spec_needs_trace() || D::spec_needs_trace()
            || E::spec_needs_trace() || F::spec_needs_trace() || G::spec_needs_trace()
            || H::spec_needs_trace()
    }

    open spec fn spec_zeroed() -> Option<Self> {
        match (
            A::spec_zeroed(),
            B::spec_zeroed(),
            D::spec_zeroed(),
            E::spec_zeroed(),
            F::spec_zeroed(),
            G::spec_zeroed(),
            H::spec_zeroed(),
        ) {
            (Some(a), Some(b), Some(d), Some(e), Some(f), Some(g), Some(h)) => Some((a, b, d, e, f, g, h)),
            _ => None,
        }
    }

    proof fn untraced_has_no_edges(&self) {
        self.0.untraced_has_no_edges();
        self.1.untraced_has_no_edges();
        self.2.untraced_has_no_edges();
        self.3.untraced_has_no_edges();
        self.4.untraced_has_no_edges();
        self.5.untraced_has_no_edges();
        self.6.untraced_has_no_edges();
    }

    fn needs_trace() -> (b: bool) {
        A::needs_trace() || B::needs_trace() || D::needs_trace() || E::needs_trace()
            || F::needs_trace() || G::needs_trace() || H::needs_trace()
    }

    fn zeroed() -> (t: Option<Self>) {
        match (
            A::zeroed(),
            B::zeroed(),
            D::zeroed(),
            E::zeroed(),
            F::zeroed(),
            G::zeroed(),
            H::zeroed(),
        ) {
            (Some(a), Some(b), Some(d), Some(e), Some(f), Some(g), Some(h)) => Some((a, b, d, e, f, g, h)),
            _ => None,
        }
    }

    fn trace<C: Trace>(&self, cc: &mut C) {
        proof {
            let s = cc.state();
            let e0 = self.0.edges();
            let e1 = e0 + self.1.edges();
            let e2 = e1 + self.2.edges();
            let e3 = e2 + self.3.edges();
            let e4 = e3 + self.4.edges();
            let e5 = e4 + self.5.edges();
            collect::lemma_two_parts::<C>(s, e5, self.6.edges());
            collect::lemma_two_parts::<C>(s, e4, self.5.edges());
            collect::lemma_two_parts::<C>(s, e3, self.4.edges());
            collect::lemma_two_parts::<C>(s, e2, self.3.edges());
            collect::lemma_two_parts::<C>(s, e1, self.2.edges());
            collect::lemma_two_parts::<C>(s, e0, self.1.edges());
        }
        collect::trace(cc, &self.0);
        collect::trace(cc, &self.1);
        collect::trace(cc, &self.2);
        collect::trace(cc, &self.3);
        collect::trace(cc, &self.4);
        collect::trace(cc, &self.5);
        collect::trace(cc, &self.6);
    }
}

impl<
    A: Collect, B: Collect, D: Collect, E: Collect, F: Collect, G: Collect, H: Collect, I: Collect,
> Collect for (A, B, D, E, F, G, H, I) {
    open spec fn edges(&self) -> Seq<Edge> {
        self.0.edges() + self.1.edges() + self.2.edges() + self.3.edges() + self.4.edges()
            + self.5.edges() + self.6.edges() + self.7.edges()
    }

    open spec fn spec_needs_trace() -> bool {
        A::spec_needs_trace() || B::spec_needs_trace() || D::spec_needs_trace()
            || E::spec_needs_trace() || F::spec_needs_trace() || G::spec_needs_trace()
            || H::spec_needs_trace() || I::spec_needs_trace()
    }

    open spec fn spec_zeroed() -> Option<Self> {
        match (
            A::spec_zeroed(),
            B::spec_zeroed(),
            D::spec_zeroed(),
            E::spec_zeroed(),
            F::spec_zeroed(),
            G::spec_zeroed(),
            H::spec_zeroed(),
            I::spec_zeroed(),
        ) {
            (Some(a), Some(b), Some(d), Some(e), Some(f), Some(g), Some(h), Some(i)) => Some((a, b, d, e, f, g, h, i)),
            _ => None,
        }
    }

    proof fn untraced_has_no_edges(&self) {
        self.0.untraced_has_no_edges();
        self.1.untraced_has_no_edges();
        self.2.untraced_has_no_edges();
        self.3.untraced_has_no_edges();
        self.4.untraced_has_no_edges();
        self.5.untraced_has_no_edges();
        self.6.untraced_has_no_edges();
        self.7.untraced_has_no_edges();
    }

    fn needs_trace() -> (b: bool) {
        A::needs_trace() || B::needs_trace() || D::needs_trace() || E::needs_trace()
            || F::needs_trace() || G::needs_trace() || H::needs_trace() || I::needs_trace()
    }

    fn zeroed() -> (t: Option<Self>) {
        match (
            A::zeroed(),
            B::zeroed(),
            D::zeroed(),
            E::zeroed(),
            F::zeroed(),
            G::zeroed(),
            H::zeroed(),
            I::zeroed(),
        ) {
            (Some(a), Some(b), Some(d), Some(e), Some(f), Some(g), Some(h), Some(i)) => Some((a, b, d, e, f, g, h, i)),
            _ => None,
        }
    }

    fn trace<C: Trace>(&self, cc: &mut C) {
        proof {
            let s = cc.state();
            let e0 = self.0.edges();
            let e1 = e0 + self.1.edges();
            let e2 = e1 + self.2.edges();
            let e3 = e2 + self.3.edges();
            let e4 = e3 + self.4.edges();
            let e5 = e4 + self.5.edges();
            let e6 = e5 + self.6.edges();
            collect::lemma_two_parts::<C>(s, e6, self.7.edges());
            collect::lemma_two_parts::<C>(s, e5, self.6.edges());
            collect::lemma_two_parts::<C>(s, e4, self.5.edges());
            collect::lemma_two_parts::<C>(s, e3, self.4.edges());
            collect::lemma_two_parts::<C>(s, e2, self.3.edges());
            collect::lemma_two_parts::<C>(s, e1, self.2.edges());
            collect::lemma_two_parts::<C>(s, e0, self.1.edges());
        }
        collect::trace(cc, &self.0);
        collect::trace(cc, &self.1);
        collect::trace(cc, &self.2);
        collect::trace(cc, &self.3);
        collect::trace(cc, &self.4);
        collect::trace(cc, &self.5);
        collect::trace(cc, &self.6);
        collect::trace(cc, &self.7);
    }
}

impl<
    A: Collect, B: Collect, D: Collect, E: Collect, F: Collect, G: Collect, H: Collect, I: Collect,
    J: Collect,
> Collect for (A, B, D, E, F, G, H, I, J) {
    open spec fn edges(&self) -> Seq<Edge> {
        self.0.edges() + self.1.edges() + self.2.edges() + self.3.edges() + self.4.edges()
            + self.5.edges() + self.6.edges() + self.7.edges() + self.8.edges()
    }

    open spec fn spec_needs_trace() -> bool {
        A::spec_needs_trace() || B::spec_needs_trace() || D::spec_needs_trace()
            || E::spec_needs_trace() || F::spec_needs_trace() || G::spec_needs_trace()
            || H::spec_needs_trace() || I::spec_needs_trace() || J::spec_needs_trace()
    }

    open spec fn spec_zeroed() -> Option<Self> {
        match (
            A::spec_zeroed(),
            B::spec_zeroed(),
            D::spec_zeroed(),
            E::spec_zeroed(),
            F::spec_zeroed(),
            G::spec_zeroed(),
            H::spec_zeroed(),
            I::spec_zeroed(),
            J::spec_zeroed(),
        ) {
            (Some(a), Some(b), Some(d), Some(e), Some(f), Some(g), Some(h), Some(i), Some(j)) => Some((a, b, d, e, f, g, h, i, j)),
            _ => None,
        }
    }

    proof fn untraced_has_no_edges(&self) {
        self.0.untraced_has_no_edges();
        self.1.untraced_has_no_edges();
        self.2.untraced_has_no_edges();
        self.3.untraced_has_no_edges();
        self.4.untraced_has_no_edges();
        self.5.untraced_has_no_edges();
        self.6.untraced_has_no_edges();
        self.7.untraced_has_no_edges();
        self.8.untraced_has_no_edges();
    }

    fn needs_trace() -> (b: bool) {
        A::needs_trace() || B::needs_trace() || D::needs_trace() || E::needs_trace()
            || F::needs_trace() || G::needs_trace() || H::needs_trace() || I::needs_trace()
            || J::needs_trace()
    }

    fn zeroed() -> (t: Option<Self>) {
        match (
            A::zeroed(),
            B::zeroed(),
            D::zeroed(),
            E::zeroed(),
            F::zeroed(),
            G::zeroed(),
            H::zeroed(),
            I::zeroed(),
            J::zeroed(),
        ) {
            (Some(a), Some(b), Some(d), Some(e), Some(f), Some(g), Some(h), Some(i), Some(j)) => Some((a, b, d, e, f, g, h, i, j)),
            _ => None,
        }
    }

    fn trace<C: Trace>(&self, cc: &mut C) {
        proof {
            let s = cc.state();
            let e0 = self.0.edges();
            let e1 = e0 + self.1.edges();
            let e2 = e1 + self.2.edges();
            let e3 = e2 + self.3.edges();
            let e4 = e3 + self.4.edges();
            let e5 = e4 + self.5.edges();
            let e6 = e5 + self.6.edges();
            let e7 = e6 + self.7.edges();
            collect::lemma_two_parts::<C>(s, e7, self.8.edges());
            collect::lemma_two_parts::<C>(s, e6, self.7.edges());
            collect::lemma_two_parts::<C>(s, e5, self.6.edges());
            collect::lemma_two_parts::<C>(s, e4, self.5.edges());
            collect::lemma_two_parts::<C>(s, e3, self.4.edges());
            collect::lemma_two_parts::<C>(s, e2, self.3.edges());
            collect::lemma_two_parts::<C>(s, e1, self.2.edges());
            collect::lemma_two_parts::<C>(s, e0, self.1.edges());
        }
        collect::trace(cc, &self.0);
        collect::trace(cc, &self.1);
        collect::trace(cc, &self.2);
        collect::trace(cc, &self.3);
        collect::trace(cc, &self.4);
        collect::trace(cc, &self.5);
        collect::trace(cc, &self.6);
        collect::trace(cc, &self.7);
        collect::trace(cc, &self.8);
    }
}

impl<
    A: Collect, B: Collect, D: Collect, E: Collect, F: Collect, G: Collect, H: Collect, I: Collect,
    J: Collect, K: Collect,
> Collect for (A, B, D, E, F, G, H, I, J, K) {
    open spec fn edges(&self) -> Seq<Edge> {
        self.0.edges() + self.1.edges() + self.2.edges() + self.3.edges() + self.4.edges()
            + self.5.edges() + self.6.edges() + self.7.edges() + self.8.edges() + self.9.edges()
    }

    open spec fn spec_needs_trace() -> bool {
        A::spec_needs_trace() || B::spec_needs_trace() || D::spec_needs_trace()
            || E::spec_needs_trace() || F::spec_needs_trace() || G::spec_needs_trace()
            || H::spec_needs_trace() || I::spec_needs_trace() || J::spec_needs_trace()
            || K::spec_needs_trace()
    }

    open spec fn spec_zeroed() -> Option<Self> {
        match (
            A::spec_zeroed(),
            B::spec_zeroed(),
            D::spec_zeroed(),
            E::spec_zeroed(),
            F::spec_zeroed(),
            G::spec_zeroed(),
            H::spec_zeroed(),
            I::spec_zeroed(),
            J::spec_zeroed(),
            K::spec_zeroed(),
        ) {
            (Some(a), Some(b), Some(d), Some(e), Some(f), Some(g), Some(h), Some(i), Some(j), Some(k)) => Some((a, b, d, e, f, g, h, i, j, k)),
            _ => None,
        }
    }

    proof fn untraced_has_no_edges(&self) {
        self.0.untraced_has_no_edges();
        self.1.untraced_has_no_edges();
        self.2.untraced_has_no_edges();
        self.3.untraced_has_no_edges();
        self.4.untraced_has_no_edges();
        self.5.untraced_has_no_edges();
        self.6.untraced_has_no_edges();
        self.7.untraced_has_no_edges();
        self.8.untraced_has_no_edges();
        self.9.untraced_has_no_edges();
    }

    fn needs_trace() -> (b: bool) {
        A::needs_trace() || B::needs_trace() || D::needs_trace() || E::needs_trace()
            || F::needs_trace() || G::needs_trace() || H::needs_trace() || I::needs_trace()
            || J::needs_trace() || K::needs_trace()
    }

    fn zeroed() -> (t: Option<Self>) {
        match (
            A::zeroed(),
            B::zeroed(),
            D::zeroed(),
            E::zeroed(),
            F::zeroed(),
            G::zeroed(),
            H::zeroed(),
            I::zeroed(),
            J::zeroed(),
            K::zeroed(),
        ) {
            (Some(a), Some(b), Some(d), Some(e), Some(f), Some(g), Some(h), Some(i), Some(j), Some(k)) => Some((a, b, d, e, f, g, h, i, j, k)),
            _ => None,
        }
    }

    fn trace<C: Trace>(&self, cc: &mut C) {
        proof {
            let s = cc.state();
            let e0 = self.0.edges();
            let e1 = e0 + self.1.edges();
            let e2 = e1 + self.2.edges();
            let e3 = e2 + self.3.edges();
            let e4 = e3 + self.4.edges();
            let e5 = e4 + self.5.edges();
            let e6 = e5 + self.6.edges();
            let e7 = e6 + self.7.edges();
            let e8 = e7 + self.8.edges();
            collect::lemma_two_parts::<C>(s, e8, self.9.edges());
            collect::lemma_two_parts::<C>(s, e7, self.8.edges());
            collect::lemma_two_parts::<C>(s, e6, self.7.edges());
            collect::lemma_two_parts::<C>(s, e5, self.6.edges());
            collect::lemma_two_parts::<C>(s, e4, self.5.edges());
            collect::lemma_two_parts::<C>(s, e3, self.4.edges());
            collect::lemma_two_parts::<C>(s, e2, self.3.edges());
            collect::lemma_two_parts::<C>(s, e1, self.2.edges());
            collect::lemma_two_parts::<C>(s, e0, self.1.edges());
        }
        collect::trace(cc, &self.0);
        collect::trace(cc, &self.1);
        collect::trace(cc, &self.2);
        collect::trace(cc, &self.3);
        collect::trace(cc, &self.4);
        collect::trace(cc, &self.5);
        collect::trace(cc, &self.6);
        collect::trace(cc, &self.7);
        collect::trace(cc, &self.8);
        collect::trace(cc, &self.9);
    }
}

impl<
    A: Collect, B: Collect, D: Collect, E: Collect, F: Collect, G: Collect, H: Collect, I: Collect,
    J: Collect, K: Collect, L: Collect,
> Collect for (A, B, D, E, F, G, H, I, J, K, L) {
    open spec fn edges(&self) -> Seq<Edge> {
        self.0.edges() + self.1.edges() + self.2.edges() + self.3.edges() + self.4.edges()
            + self.5.edges() + self.6.edges() + self.7.edges() + self.8.edges() + self.9.edges()
            + self.10.edges()
    }

    open spec fn spec_needs_trace() -> bool {
        A::spec_needs_trace() || B::spec_needs_trace() || D::spec_needs_trace()
            || E::spec_needs_trace() || F::spec_needs_trace() || G::spec_needs_trace()
            || H::spec_needs_trace() || I::spec_needs_trace() || J::spec_needs_trace()
            || K::spec_needs_trace() || L::spec_needs_trace()
    }

    open spec fn spec_zeroed() -> Option<Self> {
        match (
            A::spec_zeroed(),
            B::spec_zeroed(),
            D::spec_zeroed(),
            E::spec_zeroed(),
            F::spec_zeroed(),
            G::spec_zeroed(),
            H::spec_zeroed(),
            I::spec_zeroed(),
            J::spec_zeroed(),
            K::spec_zeroed(),
            L::spec_zeroed(),
        ) {
            (Some(a), Some(b), Some(d), Some(e), Some(f), Some(g), Some(h), Some(i), Some(j), Some(k), Some(l)) => Some((a, b, d, e, f, g, h, i, j, k, l)),
            _ => None,
        }
    }

    proof fn untraced_has_no_edges(&self) {
        self.0.untraced_has_no_edges();
        self.1.untraced_has_no_edges();
        self.2.untraced_has_no_edges();
        self.3.untraced_has_no_edges();
        self.4.untraced_has_no_edges();
        self.5.untraced_has_no_edges();
        self.6.untraced_has_no_edges();
        self.7.untraced_has_no_edges();
        self.8.untraced_has_no_edges();
        self.9.untraced_has_no_edges();
        self.10.untraced_has_no_edges();
    }

    fn needs_trace() -> (b: bool) {
        A::needs_trace() || B::needs_trace() || D::needs_trace() || E::needs_trace()
            || F::needs_trace() || G::needs_trace() || H::needs_trace() || I::needs_trace()
            || J::needs_trace() || K::needs_trace() || L::needs_trace()
    }

    fn zeroed() -> (t: Option<Self>) {
        match (
            A::zeroed(),
            B::zeroed(),
            D::zeroed(),
            E::zeroed(),
            F::zeroed(),
            G::zeroed(),
            H::zeroed(),
            I::zeroed(),
            J::zeroed(),
            K::zeroed(),
            L::zeroed(),
        ) {
            (Some(a), Some(b), Some(d), Some(e), Some(f), Some(g), Some(h), Some(i), Some(j), Some(k), Some(l)) => Some((a, b, d, e, f, g, h, i, j, k, l)),
            _ => None,
        }
    }

    fn trace<C: Trace>(&self, cc: &mut C) {
        proof {
            let s = cc.state();
            let e0 = self.0.edges();
            let e1 = e0 + self.1.edges();
            let e2 = e1 + self.2.edges();
            let e3 = e2 + self.3.edges();
            let e4 = e3 + self.4.edges();
            let e5 = e4 + self.5.edges();
            let e6 = e5 + self.6.edges();
            let e7 = e6 + self.7.edges();
            let e8 = e7 + self.8.edges();
            let e9 = e8 + self.9.edges();
            collect::lemma_two_parts::<C>(s, e9, self.10.edges());
            collect::lemma_two_parts::<C>(s, e8, self.9.edges());
            collect::lemma_two_parts::<C>(s, e7, self.8.edges());
            collect::lemma_two_parts::<C>(s, e6, self.7.edges());
            collect::lemma_two_parts::<C>(s, e5, self.6.edges());
            collect::lemma_two_parts::<C>(s, e4, self.5.edges());
            collect::lemma_two_parts::<C>(s, e3, self.4.edges());
            collect::lemma_two_parts::<C>(s, e2, self.3.edges());
            collect::lemma_two_parts::<C>(s, e1, self.2.edges());
            collect::lemma_two_parts::<C>(s, e0, self.1.edges());
        }
        collect::trace(cc, &self.0);
        collect::trace(cc, &self.1);
        collect::trace(cc, &self.2);
        collect::trace(cc, &self.3);
        collect::trace(cc, &self.4);
        collect::trace(cc, &self.5);
        collect::trace(cc, &self.6);
        collect::trace(cc, &self.7);
        collect::trace(cc, &self.8);
        collect::trace(cc, &self.9);
        collect::trace(cc, &self.10);
    }
}

impl<
    A: Collect, B: Collect, D: Collect, E: Collect, F: Collect, G: Collect, H: Collect, I: Collect,
    J: Collect, K: Collect, L: Collect, M: Collect,
> Collect for (A, B, D, E, F, G, H, I, J, K, L, M) {
    open spec fn edges(&self) -> Seq<Edge> {
        self.0.edges() + self.1.edges() + self.2.edges() + self.3.edges() + self.4.edges()
            + self.5.edges() + self.6.edges() + self.7.edges() + self.8.edges() + self.9.edges()
            + self.10.edges() + self.11.edges()
    }

    open spec fn spec_needs_trace() -> bool {
        A::spec_needs_trace() || B::spec_needs_trace() || D::spec_needs_trace()
            || E::spec_needs_trace() || F::spec_needs_trace() || G::spec_needs_trace()
            || H::spec_needs_trace() || I::spec_needs_trace() || J::spec_needs_trace()
            || K::spec_needs_trace() || L::spec_needs_trace() || M::spec_needs_trace()
    }

    open spec fn spec_zeroed() -> Option<Self> {
        match (
            A::spec_zeroed(),
            B::spec_zeroed(),
            D::spec_zeroed(),
            E::spec_zeroed(),
            F::spec_zeroed(),
            G::spec_zeroed(),
            H::spec_zeroed(),
            I::spec_zeroed(),
            J::spec_zeroed(),
            K::spec_zeroed(),
            L::spec_zeroed(),
            M::spec_zeroed(),
        ) {
            (Some(a), Some(b), Some(d), Some(e), Some(f), Some(g), Some(h), Some(i), Some(j), Some(k), Some(l), Some(m)) => Some((a, b, d, e, f, g, h, i, j, k, l, m)),
            _ => None,
        }
    }

    proof fn untraced_has_no_edges(&self) {
        self.0.untraced_has_no_edges();
        self.1.untraced_has_no_edges();
        self.2.untraced_has_no_edges();
        self.3.untraced_has_no_edges();
        self.4.untraced_has_no_edges();
        self.5.untraced_has_no_edges();
        self.6.untraced_has_no_edges();
        self.7.untraced_has_no_edges();
        self.8.untraced_has_no_edges();
        self.9.untraced_has_no_edges();
        self.10.untraced_has_no_edges();
        self.11.untraced_has_no_edges();
    }

    fn needs_trace() -> (b: bool) {
        A::needs_trace() || B::needs_trace() || D::needs_trace() || E::needs_trace()
            || F::needs_trace() || G::needs_trace() || H::needs_trace() || I::needs_trace()
            || J::needs_trace() || K::needs_trace() || L::needs_trace() || M::needs_trace()
    }

    fn zeroed() -> (t: Option<Self>) {
        match (
            A::zeroed(),
            B::zeroed(),
            D::zeroed(),
            E::zeroed(),
            F::zeroed(),
            G::zeroed(),
            H::zeroed(),
            I::zeroed(),
            J::zeroed(),
            K::zeroed(),
            L::zeroed(),
            M::zeroed(),
        ) {
            (Some(a), Some(b), Some(d), Some(e), Some(f), Some(g), Some(h), Some(i), Some(j), Some(k), Some(l), Some(m)) => Some((a, b, d, e, f, g, h, i, j, k, l, m)),
            _ => None,
        }
    }

    fn trace<C: Trace>(&self, cc: &mut C) {
        proof {
            let s = cc.state();
            let e0 = self.0.edges();
            let e1 = e0 + self.1.edges();
            let e2 = e1 + self.2.edges();
            let e3 = e2 + self.3.edges();
            let e4 = e3 + self.4.edges();
            let e5 = e4 + self.5.edges();
            let e6 = e5 + self.6.edges();
            let e7 = e6 + self.7.edges();
            let e8 = e7 + self.8.edges();
            let e9 = e8 + self.9.edges();
            let e10 = e9 + self.10.edges();
            collect::lemma_two_parts::<C>(s, e10, self.11.edges());
            collect::lemma_two_parts::<C>(s, e9, self.10.edges());
            collect::lemma_two_parts::<C>(s, e8, self.9.edges());
            collect::lemma_two_parts::<C>(s, e7, self.8.edges());
            collect::lemma_two_parts::<C>(s, e6, self.7.edges());
            collect::lemma_two_parts::<C>(s, e5, self.6.edges());
            collect::lemma_two_parts::<C>(s, e4, self.5.edges());
            collect::lemma_two_parts::<C>(s, e3, self.4.edges());
            collect::lemma_two_parts::<C>(s, e2, self.3.edges());
            collect::lemma_two_parts::<C>(s, e1, self.2.edges());
            collect::lemma_two_parts::<C>(s, e0, self.1.edges());
        }
        collect::trace(cc, &self.0);
        collect::trace(cc, &self.1);
        collect::trace(cc, &self.2);
        collect::trace(cc, &self.3);
        collect::trace(cc, &self.4);
        collect::trace(cc, &self.5);
        collect::trace(cc, &self.6);
        collect::trace(cc, &self.7);
        collect::trace(cc, &self.8);
        collect::trace(cc, &self.9);
        collect::trace(cc, &self.10);
        collect::trace(cc, &self.11);
    }
}

impl<
    A: Collect, B: Collect, D: Collect, E: Collect, F: Collect, G: Collect, H: Collect, I: Collect,
    J: Collect, K: Collect, L: Collect, M: Collect, N: Collect,
> Collect for (A, B, D, E, F, G, H, I, J, K, L, M, N) {
    open spec fn edges(&self) -> Seq<Edge> {
        self.0.edges() + self.1.edges() + self.2.edges() + self.3.edges() + self.4.edges()
            + self.5.edges() + self.6.edges() + self.7.edges() + self.8.edges() + self.9.edges()
            + self.10.edges() + self.11.edges() + self.12.edges()
    }

    open spec fn spec_needs_trace() -> bool {
        A::spec_needs_trace() || B::spec_needs_trace() || D::spec_needs_trace()
            || E::spec_needs_trace() || F::spec_needs_trace() || G::spec_needs_trace()
            || H::spec_needs_trace() || I::spec_needs_trace() || J::spec_needs_trace()
            || K::spec_needs_trace() || L::spec_needs_trace() || M::spec_needs_trace()
            || N::spec_needs_trace()
    }

    open spec fn spec_zeroed() -> Option<Self> {
        match (
            A::spec_zeroed(),
            B::spec_zeroed(),
            D::spec_zeroed(),
            E::spec_zeroed(),
            F::spec_zeroed(),
            G::spec_zeroed(),
            H::spec_zeroed(),
            I::spec_zeroed(),
            J::spec_zeroed(),
            K::spec_zeroed(),
            L::spec_zeroed(),
            M::spec_zeroed(),
            N::spec_zeroed(),
        ) {
            (Some(a), Some(b), Some(d), Some(e), Some(f), Some(g), Some(h), Some(i), Some(j), Some(k), Some(l), Some(m), Some(n)) => Some((a, b, d, e, f, g, h, i, j, k, l, m, n)),
            _ => None,
        }
    }

    proof fn untraced_has_no_edges(&self) {
        self.0.untraced_has_no_edges();
        self.1.untraced_has_no_edges();
        self.2.untraced_has_no_edges();
        self.3.untraced_has_no_edges();
        self.4.untraced_has_no_edges();
        self.5.untraced_has_no_edges();
        self.6.untraced_has_no_edges();
        self.7.untraced_has_no_edges();
        self.8.untraced_has_no_edges();
        self.9.untraced_has_no_edges();
        self.10.untraced_has_no_edges();
        self.11.untraced_has_no_edges();
        self.12.untraced_has_no_edges();
    }

    fn needs_trace() -> (b: bool) {
        A::needs_trace() || B::needs_trace() || D::needs_trace() || E::needs_trace()
            || F::needs_trace() || G::needs_trace() || H::needs_trace() || I::needs_trace()
            || J::needs_trace() || K::needs_trace() || L::needs_trace() || M::needs_trace()
            || N::needs_trace()
    }

    fn zeroed() -> (t: Option<Self>) {
        match (
            A::zeroed(),
            B::zeroed(),
            D::zeroed(),
            E::zeroed(),
            F::zeroed(),
            G::zeroed(),
            H::zeroed(),
            I::zeroed(),
            J::zeroed(),
            K::zeroed(),
            L::zeroed(),
            M::zeroed(),
            N::zeroed(),
        ) {
            (Some(a), Some(b), Some(d), Some(e), Some(f), Some(g), Some(h), Some(i), Some(j), Some(k), Some(l), Some(m), Some(n)) => Some((a, b, d, e, f, g, h, i, j, k, l, m, n)),
            _ => None,
        }
    }

    fn trace<C: Trace>(&self, cc: &mut C) {
        proof {
            let s = cc.state();
            let e0 = self.0.edges();
            let e1 = e0 + self.1.edges();
            let e2 = e1 + self.2.edges();
            let e3 = e2 + self.3.edges();
            let e4 = e3 + self.4.edges();
            let e5 = e4 + self.5.edges();
            let e6 = e5 + self.6.edges();
            let e7 = e6 + self.7.edges();
            let e8 = e7 + self.8.edges();
            let e9 = e8 + self.9.edges();
            let e10 = e9 + self.10.edges();
            let e11 = e10 + self.11.edges();
            collect::lemma_two_parts::<C>(s, e11, self.12.edges());
            collect::lemma_two_parts::<C>(s, e10, self.11.edges());
            collect::lemma_two_parts::<C>(s, e9, self.10.edges());
            collect::lemma_two_parts::<C>(s, e8, self.9.edges());
            collect::lemma_two_parts::<C>(s, e7, self.8.edges());
            collect::lemma_two_parts::<C>(s, e6, self.7.edges());
            collect::lemma_two_parts::<C>(s, e5, self.6.edges());
            collect::lemma_two_parts::<C>(s, e4, self.5.edges());
            collect::lemma_two_parts::<C>(s, e3, self.4.edges());
            collect::lemma_two_parts::<C>(s, e2, self.3.edges());
            collect::lemma_two_parts::<C>(s, e1, self.2.edges());
            collect::lemma_two_parts::<C>(s, e0, self.1.edges());
        }
        collect::trace(cc, &self.0);
        collect::trace(cc, &self.1);
        collect::trace(cc, &self.2);
        collect::trace(cc, &self.3);
        collect::trace(cc, &self.4);
        collect::trace(cc, &self.5);
        collect::trace(cc, &self.6);
        collect::trace(cc, &self.7);
        collect::trace(cc, &self.8);
        collect::trace(cc, &self.9);
        collect::trace(cc, &self.10);
        collect::trace(cc, &self.11);
        collect::trace(cc, &self.12);
    }
}

impl<
    A: Collect, B: Collect, D: Collect, E: Collect, F: Collect, G: Collect, H: Collect, I: Collect,
    J: Collect, K: Collect, L: Collect, M: Collect, N: Collect, O: Collect,
> Collect for (A, B, D, E, F, G, H, I, J, K, L, M, N, O) {
    open spec fn edges(&self) -> Seq<Edge> {
        self.0.edges() + self.1.edges() + self.2.edges() + self.3.edges() + self.4.edges()
            + self.5.edges() + self.6.edges() + self.7.edges() + self.8.edges() + self.9.edges()
            + self.10.edges() + self.11.edges() + self.12.edges() + self.13.edges()
    }

    open spec fn spec_needs_trace() -> bool {
        A::spec_needs_trace() || B::spec_needs_trace() || D::spec_needs_trace()
            || E::spec_needs_trace() || F::spec_needs_trace() || G::spec_needs_trace()
            || H::spec_needs_trace() || I::spec_needs_trace() || J::spec_needs_trace()
            || K::spec_needs_trace() || L::spec_needs_trace() || M::spec_needs_trace()
            || N::spec_needs_trace() || O::spec_needs_trace()
    }

    open spec fn spec_zeroed() -> Option<Self> {
        match (
            A::spec_zeroed(),
            B::spec_zeroed(),
            D::spec_zeroed(),
            E::spec_zeroed(),
            F::spec_zeroed(),
            G::spec_zeroed(),
            H::spec_zeroed(),
            I::spec_zeroed(),
            J::spec_zeroed(),
            K::spec_zeroed(),
            L::spec_zeroed(),
            M::spec_zeroed(),
            N::spec_zeroed(),
            O::spec_zeroed(),
        ) {
            (Some(a), Some(b), Some(d), Some(e), Some(f), Some(g), Some(h), Some(i), Some(j), Some(k), Some(l), Some(m), Some(n), Some(o)) => Some((a, b, d, e, f, g, h, i, j, k, l, m, n, o)),
            _ => None,
        }
    }

    proof fn untraced_has_no_edges(&self) {
        self.0.untraced_has_no_edges();
        self.1.untraced_has_no_edges();
        self.2.untraced_has_no_edges();
        self.3.untraced_has_no_edges();
        self.4.untraced_has_no_edges();
        self.5.untraced_has_no_edges();
        self.6.untraced_has_no_edges();
        self.7.untraced_has_no_edges();
        self.8.untraced_has_no_edges();
        self.9.untraced_has_no_edges();
        self.10.untraced_has_no_edges();
        self.11.untraced_has_no_edges();
        self.12.untraced_has_no_edges();
        self.13.untraced_has_no_edges();
    }

    fn needs_trace() -> (b: bool) {
        A::needs_trace() || B::needs_trace() || D::needs_trace() || E::needs_trace()
            || F::needs_trace() || G::needs_trace() || H::needs_trace() || I::needs_trace()
            || J::needs_trace() || K::needs_trace() || L::needs_trace() || M::needs_trace()
            || N::needs_trace() || O::needs_trace()
    }

    fn zeroed() -> (t: Option<Self>) {
        match (
            A::zeroed(),
            B::zeroed(),
            D::zeroed(),
            E::zeroed(),
            F::zeroed(),
            G::zeroed(),
            H::zeroed(),
            I::zeroed(),
            J::zeroed(),
            K::zeroed(),
            L::zeroed(),
            M::zeroed(),
            N::zeroed(),
            O::zeroed(),
        ) {
            (Some(a), Some(b), Some(d), Some(e), Some(f), Some(g), Some(h), Some(i), Some(j), Some(k), Some(l), Some(m), Some(n), Some(o)) => Some((a, b, d, e, f, g, h, i, j, k, l, m, n, o)),
            _ => None,
        }
    }

    fn trace<C: Trace>(&self, cc: &mut C) {
        proof {
            let s = cc.state();
            let e0 = self.0.edges();
            let e1 = e0 + self.1.edges();
            let e2 = e1 + self.2.edges();
            let e3 = e2 + self.3.edges();
            let e4 = e3 + self.4.edges();
            let e5 = e4 + self.5.edges();
            let e6 = e5 + self.6.edges();
            let e7 = e6 + self.7.edges();
            let e8 = e7 + self.8.edges();
            let e9 = e8 + self.9.edges();
            let e10 = e9 + self.10.edges();
            let e11 = e10 + self.11.edges();
            let e12 = e11 + self.12.edges();
            collect::lemma_two_parts::<C>(s, e12, self.13.edges());
            collect::lemma_two_parts::<C>(s, e11, self.12.edges());
            collect::lemma_two_parts::<C>(s, e10, self.11.edges());
            collect::lemma_two_parts::<C>(s, e9, self.10.edges());
            collect::lemma_two_parts::<C>(s, e8, self.9.edges());
            collect::lemma_two_parts::<C>(s, e7, self.8.edges());
            collect::lemma_two_parts::<C>(s, e6, self.7.edges());
            collect::lemma_two_parts::<C>(s, e5, self.6.edges());
            collect::lemma_two_parts::<C>(s, e4, self.5.edges());
            collect::lemma_two_parts::<C>(s, e3, self.4.edges());
            collect::lemma_two_parts::<C>(s, e2, self.3.edges());
            collect::lemma_two_parts::<C>(s, e1, self.2.edges());
            collect::lemma_two_parts::<C>(s, e0, self.1.edges());
        }
        collect::trace(cc, &self.0);
        collect::trace(cc, &self.1);
        collect::trace(cc, &self.2);
        collect::trace(cc, &self.3);
        collect::trace(cc, &self.4);
        collect::trace(cc, &self.5);
        collect::trace(cc, &self.6);
        collect::trace(cc, &self.7);
        collect::trace(cc, &self.8);
        collect::trace(cc, &self.9);
        collect::trace(cc, &self.10);
        collect::trace(cc, &self.11);
        collect::trace(cc, &self.12);
        collect::trace(cc, &self.13);
    }
}

impl<
    A: Collect, B: Collect, D: Collect, E: Collect, F: Collect, G: Collect, H: Collect, I: Collect,
    J: Collect, K: Collect, L: Collect, M: Collect, N: Collect, O: Collect, P: Collect,
> Collect for (A, B, D, E, F, G, H, I, J, K, L, M, N, O, P) {
    open spec fn edges(&self) -> Seq<Edge> {
        self.0.edges() + self.1.edges() + self.2.edges() + self.3.edges() + self.4.edges()
            + self.5.edges() + self.6.edges() + self.7.edges() + self.8.edges() + self.9.edges()
            + self.10.edges() + self.11.edges() + self.12.edges() + self.13.edges()
            + self.14.edges()
    }

    open spec fn spec_needs_trace() -> bool {
        A::spec_needs_trace() || B::spec_needs_trace() || D::spec_needs_trace()
            || E::spec_needs_trace() || F::spec_needs_trace() || G::spec_needs_trace()
            || H::spec_needs_trace() || I::spec_needs_trace() || J::spec_needs_trace()
            || K::spec_needs_trace() || L::spec_needs_trace() || M::spec_needs_trace()
            || N::spec_needs_trace() || O::spec_needs_trace() || P::spec_needs_trace()
    }

    open spec fn spec_zeroed() -> Option<Self> {
        match (
            A::spec_zeroed(),
            B::spec_zeroed(),
            D::spec_zeroed(),
            E::spec_zeroed(),
            F::spec_zeroed(),
            G::spec_zeroed(),
            H::spec_zeroed(),
            I::spec_zeroed(),
            J::spec_zeroed(),
            K::spec_zeroed(),
            L::spec_zeroed(),
            M::spec_zeroed(),
            N::spec_zeroed(),
            O::spec_zeroed(),
            P::spec_zeroed(),
        ) {
            (Some(a), Some(b), Some(d), Some(e), Some(f), Some(g), Some(h), Some(i), Some(j), Some(k), Some(l), Some(m), Some(n), Some(o), Some(p)) => Some((a, b, d, e, f, g, h, i, j, k, l, m, n, o, p)),
            _ => None,
        }
    }

    proof fn untraced_has_no_edges(&self) {
        self.0.untraced_has_no_edges();
        self.1.untraced_has_no_edges();
        self.2.untraced_has_no_edges();
        self.3.untraced_has_no_edges();
        self.4.untraced_has_no_edges();
        self.5.untraced_has_no_edges();
        self.6.untraced_has_no_edges();
        self.7.untraced_has_no_edges();
        self.8.untraced_has_no_edges();
        self.9.untraced_has_no_edges();
        self.10.untraced_has_no_edges();
        self.11.untraced_has_no_edges();
        self.12.untraced_has_no_edges();
        self.13.untraced_has_no_edges();
        self.14.untraced_has_no_edges();
    }

    fn needs_trace() -> (b: bool) {
        A::needs_trace() || B::needs_trace() || D::needs_trace() || E::needs_trace()
            || F::needs_trace() || G::needs_trace() || H::needs_trace() || I::needs_trace()
            || J::needs_trace() || K::needs_trace() || L::needs_trace() || M::needs_trace()
            || N::needs_trace() || O::needs_trace() || P::needs_trace()
    }

    fn zeroed() -> (t: Option<Self>) {
        match (
            A::zeroed(),
            B::zeroed(),
            D::zeroed(),
            E::zeroed(),
            F::zeroed(),
            G::zeroed(),
            H::zeroed(),
            I::zeroed(),
            J::zeroed(),
            K::zeroed(),
            L::zeroed(),
            M::zeroed(),
            N::zeroed(),
            O::zeroed(),
            P::zeroed(),
        ) {
            (Some(a), Some(b), Some(d), Some(e), Some(f), Some(g), Some(h), Some(i), Some(j), Some(k), Some(l), Some(m), Some(n), Some(o), Some(p)) => Some((a, b, d, e, f, g, h, i, j, k, l, m, n, o, p)),
            _ => None,
        }
    }

    fn trace<C: Trace>(&self, cc: &mut C) {
        proof {
            let s = cc.state();
            let e0 = self.0.edges();
            let e1 = e0 + self.1.edges();
            let e2 = e1 + self.2.edges();
            let e3 = e2 + self.3.edges();
            let e4 = e3 + self.4.edges();
            let e5 = e4 + self.5.edges();
            let e6 = e5 + self.6.edges();
            let e7 = e6 + self.7.edges();
            let e8 = e7 + self.8.edges();
            let e9 = e8 + self.9.edges();
            let e10 = e9 + self.10.edges();
            let e11 = e10 + self.11.edges();
            let e12 = e11 + self.12.edges();
            let e13 = e12 + self.13.edges();
            collect::lemma_two_parts::<C>(s, e13, self.14.edges());
            collect::lemma_two_parts::<C>(s, e12, self.13.edges());
            collect::lemma_two_parts::<C>(s, e11, self.12.edges());
            collect::lemma_two_parts::<C>(s, e10, self.11.edges());
            collect::lemma_two_parts::<C>(s, e9, self.10.edges());
            collect::lemma_two_parts::<C>(s, e8, self.9.edges());
            collect::lemma_two_parts::<C>(s, e7, self.8.edges());
            collect::lemma_two_parts::<C>(s, e6, self.7.edges());
            collect::lemma_two_parts::<C>(s, e5, self.6.edges());
            collect::lemma_two_parts::<C>(s, e4, self.5.edges());
            collect::lemma_two_parts::<C>(s, e3, self.4.edges());
            collect::lemma_two_parts::<C>(s, e2, self.3.edges());
            collect::lemma_two_parts::<C>(s, e1, self.2.edges());
            collect::lemma_two_parts::<C>(s, e0, self.1.edges());
        }
        collect::trace(cc, &self.0);
        collect::trace(cc, &self.1);
        collect::trace(cc, &self.2);
        collect::trace(cc, &self.3);
        collect::trace(cc, &self.4);
        collect::trace(cc, &self.5);
        collect::trace(cc, &self.6);
        collect::trace(cc, &self.7);
        collect::trace(cc, &self.8);
        collect::trace(cc, &self.9);
        collect::trace(cc, &self.10);
        collect::trace(cc, &self.11);
        collect::trace(cc, &self.12);
        collect::trace(cc, &self.13);
        collect::trace(cc, &self.14);
    }
}

impl<
    A: Collect, B: Collect, D: Collect, E: Collect, F: Collect, G: Collect, H: Collect, I: Collect,
    J: Collect, K: Collect, L: Collect, M: Collect, N: Collect, O: Collect, P: Collect, Q: Collect,
> Collect for (A, B, D, E, F, G, H, I, J, K, L, M, N, O, P, Q) {
    open spec fn edges(&self) -> Seq<Edge> {
        self.0.edges() + self.1.edges() + self.2.edges() + self.3.edges() + self.4.edges()
            + self.5.edges() + self.6.edges() + self.7.edges() + self.8.edges() + self.9.edges()
            + self.10.edges() + self.11.edges() + self.12.edges() + self.13.edges()
            + self.14.edges() + self.15.edges()
    }

    open spec fn spec_needs_trace() -> bool {
        A::spec_needs_trace() || B::spec_needs_trace() || D::spec_needs_trace()
            || E::spec_needs_trace() || F::spec_needs_trace() || G::spec_needs_trace()
            || H::spec_needs_trace() || I::spec_needs_trace() || J::spec_needs_trace()
            || K::spec_needs_trace() || L::spec_needs_trace() || M::spec_needs_trace()
            || N::spec_needs_trace() || O::spec_needs_trace() || P::spec_needs_trace()
            || Q::spec_needs_trace()
    }

    open spec fn spec_zeroed() -> Option<Self> {
        match (
            A::spec_zeroed(),
            B::spec_zeroed(),
            D::spec_zeroed(),
            E::spec_zeroed(),
            F::spec_zeroed(),
            G::spec_zeroed(),
            H::spec_zeroed(),
            I::spec_zeroed(),
            J::spec_zeroed(),
            K::spec_zeroed(),
            L::spec_zeroed(),
            M::spec_zeroed(),
            N::spec_zeroed(),
            O::spec_zeroed(),
            P::spec_zeroed(),
            Q::spec_zeroed(),
        ) {
            (Some(a), Some(b), Some(d), Some(e), Some(f), Some(g), Some(h), Some(i), Some(j), Some(k), Some(l), Some(m), Some(n), Some(o), Some(p), Some(q)) => Some((a, b, d, e, f, g, h, i, j, k, l, m, n, o, p, q)),
            _ => None,
        }
    }

    proof fn untraced_has_no_edges(&self) {
        self.0.untraced_has_no_edges();
        self.1.untraced_has_no_edges();
        self.2.untraced_has_no_edges();
        self.3.untraced_has_no_edges();
        self.4.untraced_has_no_edges();
        self.5.untraced_has_no_edges();
        self.6.untraced_has_no_edges();
        self.7.untraced_has_no_edges();
        self.8.untraced_has_no_edges();
        self.9.untraced_has_no_edges();
        self.10.untraced_has_no_edges();
        self.11.untraced_has_no_edges();
        self.12.untraced_has_no_edges();
        self.13.untraced_has_no_edges();
        self.14.untraced_has_no_edges();
        self.15.untraced_has_no_edges();
    }

    fn needs_trace() -> (b: bool) {
        A::needs_trace() || B::needs_trace() || D::needs_trace() || E::needs_trace()
            || F::needs_trace() || G::needs_trace() || H::needs_trace() || I::needs_trace()
            || J::needs_trace() || K::needs_trace() || L::needs_trace() || M::needs_trace()
            || N::needs_trace() || O::needs_trace() || P::needs_trace() || Q::needs_trace()
    }

    fn zeroed() -> (t: Option<Self>) {
        match (
            A::zeroed(),
            B::zeroed(),
            D::zeroed(),
            E::zeroed(),
            F::zeroed(),
            G::zeroed(),
            H::zeroed(),
            I::zeroed(),
            J::zeroed(),
            K::zeroed(),
            L::zeroed(),
            M::zeroed(),
            N::zeroed(),
            O::zeroed(),
            P::zeroed(),
            Q::zeroed(),
        ) {
            (Some(a), Some(b), Some(d), Some(e), Some(f), Some(g), Some(h), Some(i), Some(j), Some(k), Some(l), Some(m), Some(n), Some(o), Some(p), Some(q)) => Some((a, b, d, e, f, g, h, i, j, k, l, m, n, o, p, q)),
            _ => None,
        }
    }

    fn trace<C: Trace>(&self, cc: &mut C) {
        proof {
            let s = cc.state();
            let e0 = self.0.edges();
            let e1 = e0 + self.1.edges();
            let e2 = e1 + self.2.edges();
            let e3 = e2 + self.3.edges();
            let e4 = e3 + self.4.edges();
            let e5 = e4 + self.5.edges();
            let e6 = e5 + self.6.edges();
            let e7 = e6 + self.7.edges();
            let e8 = e7 + self.8.edges();
            let e9 = e8 + self.9.edges();
            let e10 = e9 + self.10.edges();
            let e11 = e10 + self.11.edges();
            let e12 = e11 + self.12.edges();
            let e13 = e12 + self.13.edges();
            let e14 = e13 + self.14.edges();
            collect::lemma_two_parts::<C>(s, e14, self.15.edges());
            collect::lemma_two_parts::<C>(s, e13, self.14.edges());
            collect::lemma_two_parts::<C>(s, e12, self.13.edges());
            collect::lemma_two_parts::<C>(s, e11, self.12.edges());
            collect::lemma_two_parts::<C>(s, e10, self.11.edges());
            collect::lemma_two_parts::<C>(s, e9, self.10.edges());
            collect::lemma_two_parts::<C>(s, e8, self.9.edges());
            collect::lemma_two_parts::<C>(s, e7, self.8.edges());
            collect::lemma_two_parts::<C>(s, e6, self.7.edges());
            collect::lemma_two_parts::<C>(s, e5, self.6.edges());
            collect::lemma_two_parts::<C>(s, e4, self.5.edges());
            collect::lemma_two_parts::<C>(s, e3, self.4.edges());
            collect::lemma_two_parts::<C>(s, e2, self.3.edges());
            collect::lemma_two_parts::<C>(s, e1, self.2.edges());
            collect::lemma_two_parts::<C>(s, e0, self.1.edges());
        }
        collect::trace(cc, &self.0);
        collect::trace(cc, &self.1);
        collect::trace(cc, &self.2);
        collect::trace(cc, &self.3);
        collect::trace(cc, &self.4);
        collect::trace(cc, &self.5);
        collect::trace(cc, &self.6);
        collect::trace(cc, &self.7);
        collect::trace(cc, &self.8);
        collect::trace(cc, &self.9);
        collect::trace(cc, &self.10);
        collect::trace(cc, &self.11);
        collect::trace(cc, &self.12);
        collect::trace(cc, &self.13);
        collect::trace(cc, &self.14);
        collect::trace(cc, &self.15);
    }
}

} // verus!
