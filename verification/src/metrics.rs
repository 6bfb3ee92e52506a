//! Counters of what the collector has done.

use vstd::prelude::*;

verus! {

/// Counts of the work of a collector, in bytes of boxes. Every counter stops at `usize::MAX`.
///
/// Whether the work done pays for what was allocated is for a pacing policy to decide from these.
#[derive(Clone, Copy, Debug, PartialEq, Eq, Structural)]
pub struct Metrics {
    /// Boxes that exist.
    pub total_gcs: usize,
    /// Bytes of the boxes that exist.
    pub total_gc_bytes: usize,
    /// Bytes allocated in this cycle.
    pub allocated: usize,
    /// Bytes of boxes first reached in this cycle.
    pub marked: usize,
    /// Bytes of boxes traced in this cycle, without those that a barrier made gray again.
    pub traced: usize,
    /// Bytes of boxes whose contents were dropped in this cycle.
    pub dropped: usize,
    /// Bytes of boxes freed in this cycle.
    pub freed: usize,
    /// Bytes of boxes that the sweep of this cycle has kept.
    pub remembered: usize,
    /// Cycles finished.
    pub cycles: usize,
    /// Whether the last finished cycle ran in one piece, so that no debt is carried over.
    pub debt_reset: bool,
}

/// The sum of two counters, stopping at the greatest value.
pub open spec fn sum(a: usize, b: usize) -> usize {
    if a + b > usize::MAX {
        usize::MAX
    } else {
        (a + b) as usize
    }
}

/// The difference of two counters, stopping at zero.
pub open spec fn difference(a: usize, b: usize) -> usize {
    if a < b {
        0
    } else {
        (a - b) as usize
    }
}

impl Metrics {
    pub open spec fn zero() -> Metrics {
        Metrics {
            total_gcs: 0,
            total_gc_bytes: 0,
            allocated: 0,
            marked: 0,
            traced: 0,
            dropped: 0,
            freed: 0,
            remembered: 0,
            cycles: 0,
            debt_reset: false,
        }
    }

    pub open spec fn after_allocated(self, size: usize) -> Metrics {
        Metrics {
            total_gcs: sum(self.total_gcs, 1),
            total_gc_bytes: sum(self.total_gc_bytes, size),
            allocated: sum(self.allocated, size),
            ..self
        }
    }

    pub open spec fn after_marked(self, size: usize) -> Metrics {
        Metrics { marked: sum(self.marked, size), ..self }
    }

    pub open spec fn after_traced(self, size: usize) -> Metrics {
        Metrics { traced: sum(self.traced, size), ..self }
    }

    pub open spec fn after_untraced(self, size: usize) -> Metrics {
        Metrics { traced: difference(self.traced, size), ..self }
    }

    pub open spec fn after_dropped(self, size: usize) -> Metrics {
        Metrics { dropped: sum(self.dropped, size), ..self }
    }

    pub open spec fn after_freed(self, size: usize) -> Metrics {
        Metrics {
            total_gcs: difference(self.total_gcs, 1),
            total_gc_bytes: difference(self.total_gc_bytes, size),
            freed: sum(self.freed, size),
            ..self
        }
    }

    pub open spec fn after_remembered(self, size: usize) -> Metrics {
        Metrics { remembered: sum(self.remembered, size), ..self }
    }

    pub open spec fn after_cycle(self, reset_debt: bool) -> Metrics {
        Metrics {
            allocated: 0,
            marked: 0,
            traced: 0,
            dropped: 0,
            freed: 0,
            remembered: 0,
            cycles: sum(self.cycles, 1),
            debt_reset: reset_debt,
            ..self
        }
    }

    pub fn new() -> (m: Metrics)
        ensures
            m == Metrics::zero(),
    {
        Metrics {
            total_gcs: 0,
            total_gc_bytes: 0,
            allocated: 0,
            marked: 0,
            traced: 0,
            dropped: 0,
            freed: 0,
            remembered: 0,
            cycles: 0,
            debt_reset: false,
        }
    }

    /// The bytes of all the boxes that exist.
    pub fn total_allocation(&self) -> (bytes: usize)
        ensures
            bytes == self.total_gc_bytes,
    {
        self.total_gc_bytes
    }

    pub(crate) fn mark_gc_allocated(&mut self, size: usize)
        ensures
            *final(self) == old(self).after_allocated(size),
    {
        self.total_gcs = self.total_gcs.saturating_add(1);
        self.total_gc_bytes = self.total_gc_bytes.saturating_add(size);
        self.allocated = self.allocated.saturating_add(size);
    }

    pub(crate) fn mark_gc_marked(&mut self, size: usize)
        ensures
            *final(self) == old(self).after_marked(size),
    {
        self.marked = self.marked.saturating_add(size);
    }

    pub(crate) fn mark_gc_traced(&mut self, size: usize)
        ensures
            *final(self) == old(self).after_traced(size),
    {
        self.traced = self.traced.saturating_add(size);
    }

    pub(crate) fn mark_gc_untraced(&mut self, size: usize)
        ensures
            *final(self) == old(self).after_untraced(size),
    {
        self.traced = self.traced.saturating_sub(size);
    }

    pub(crate) fn mark_gc_dropped(&mut self, size: usize)
        ensures
            *final(self) == old(self).after_dropped(size),
    {
        self.dropped = self.dropped.saturating_add(size);
    }

    pub(crate) fn mark_gc_freed(&mut self, size: usize)
        ensures
            *final(self) == old(self).after_freed(size),
    {
        self.total_gcs = self.total_gcs.saturating_sub(1);
        self.total_gc_bytes = self.total_gc_bytes.saturating_sub(size);
        self.freed = self.freed.saturating_add(size);
    }

    pub(crate) fn mark_gc_remembered(&mut self, size: usize)
        ensures
            *final(self) == old(self).after_remembered(size),
    {
        self.remembered = self.remembered.saturating_add(size);
    }

    /// Starts the counts of a new cycle.
    pub(crate) fn finish_cycle(&mut self, reset_debt: bool)
        ensures
            *final(self) == old(self).after_cycle(reset_debt),
    {
        self.allocated = 0;
        self.marked = 0;
        self.traced = 0;
        self.dropped = 0;
        self.freed = 0;
        self.remembered = 0;
        self.cycles = self.cycles.saturating_add(1);
        self.debt_reset = reset_debt;
    }
}

} // verus!
