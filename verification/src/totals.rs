//! The running totals of a clean-up: items deleted, items that could not be
//! deleted, and bytes freed.

use vstd::prelude::*;

verus! {

/// Totals as unbounded numbers, for stating what a clean-up amounts to.
pub struct Tally {
    pub deleted: nat,
    pub failed: nat,
    pub bytes: nat,
}

impl Tally {
    /// Nothing deleted, nothing failed, nothing freed.
    pub open spec fn zero() -> Tally {
        Tally { deleted: 0, failed: 0, bytes: 0 }
    }

    /// The totals of two clean-ups taken together.
    pub open spec fn plus(self, other: Tally) -> Tally {
        Tally {
            deleted: self.deleted + other.deleted,
            failed: self.failed + other.failed,
            bytes: self.bytes + other.bytes,
        }
    }

    /// The totals after one more attempt: a success frees `size` bytes, a
    /// failure frees none.
    pub open spec fn after(self, removed: bool, size: nat) -> Tally {
        if removed {
            Tally { deleted: self.deleted + 1, failed: self.failed, bytes: self.bytes + size }
        } else {
            Tally { deleted: self.deleted, failed: self.failed + 1, bytes: self.bytes }
        }
    }

    /// No component of `self` is above that of `other`.
    pub open spec fn le(self, other: Tally) -> bool {
        self.deleted <= other.deleted && self.failed <= other.failed && self.bytes <= other.bytes
    }

    /// The totals fit the machine's counters.
    pub open spec fn fits(self) -> bool {
        self.deleted <= usize::MAX && self.failed <= usize::MAX && self.bytes <= u64::MAX
    }
}

/// The totals of a clean-up.
#[derive(Clone, Copy, Debug, PartialEq, Eq, Structural)]
pub struct ScanTotals {
    /// Items deleted.
    pub deleted: usize,
    /// Items that could not be deleted.
    pub failed: usize,
    /// Bytes that the deleted items held.
    pub bytes: u64,
}

impl View for ScanTotals {
    type V = Tally;

    open spec fn view(&self) -> Tally {
        Tally { deleted: self.deleted as nat, failed: self.failed as nat, bytes: self.bytes as nat }
    }
}

impl ScanTotals {
    /// Totals with nothing counted.
    pub fn new() -> (totals: ScanTotals)
        ensures
            totals@ == Tally::zero(),
    {
        ScanTotals { deleted: 0, failed: 0, bytes: 0 }
    }

    /// The totals of two clean-ups taken together.
    pub fn combine(self, other: ScanTotals) -> (sum: ScanTotals)
        requires
            self@.plus(other@).fits(),
        ensures
            sum@ == self@.plus(other@),
    {
        ScanTotals {
            deleted: self.deleted + other.deleted,
            failed: self.failed + other.failed,
            bytes: self.bytes + other.bytes,
        }
    }

    /// The totals after one more attempt.
    pub fn record(self, removed: bool, size: u64) -> (next: ScanTotals)
        requires
            self@.after(removed, size as nat).fits(),
        ensures
            next@ == self@.after(removed, size as nat),
    {
        if removed {
            ScanTotals { deleted: self.deleted + 1, failed: self.failed, bytes: self.bytes + size }
        } else {
            ScanTotals { deleted: self.deleted, failed: self.failed + 1, bytes: self.bytes }
        }
    }
}

/// Adding totals up does not depend on how the sum is grouped.
pub proof fn lemma_plus_associative(a: Tally, b: Tally, c: Tally)
    ensures
        a.plus(b).plus(c) == a.plus(b.plus(c)),
{
}

} // verus!
