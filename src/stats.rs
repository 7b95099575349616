//! The tallies of a deletion run, updated once per deleted directory.
use vstd::prelude::*;

verus! {

pub open spec fn sat_add(a: nat, b: nat) -> nat {
    if a + b > u64::MAX { u64::MAX as nat } else { a + b }
}

pub open spec fn sat_mul(a: nat, b: nat) -> nat {
    if a * b > u64::MAX { u64::MAX as nat } else { a * b }
}

/// The tallies as numbers.
pub struct StatsModel {
    pub folders_found: nat,
    pub total_size: nat,
    pub folders_processed: nat,
    pub size_freed: nat,
    pub elapsed_nanos: nat,
}

impl StatsModel {
    /// Never more directories processed than found.
    pub open spec fn wf(self) -> bool {
        self.folders_processed <= self.folders_found
    }

    /// The expected time left: the mean time per processed directory times
    /// the number still to go, saturating at the largest 64-bit value.
    pub open spec fn eta(self) -> nat {
        if self.folders_processed == 0 {
            0
        } else {
            sat_mul(
                self.elapsed_nanos / self.folders_processed,
                (self.folders_found - self.folders_processed) as nat,
            )
        }
    }
}

/// Counters shared by the workers of a deletion run. They only grow, and only
/// through [`Stats::record_deletion`].
pub struct Stats {
    folders_found: usize,
    total_size: u64,
    folders_processed: usize,
    size_freed: u64,
    elapsed_nanos: u64,
}

impl View for Stats {
    type V = StatsModel;

    closed spec fn view(&self) -> StatsModel {
        StatsModel {
            folders_found: self.folders_found as nat,
            total_size: self.total_size as nat,
            folders_processed: self.folders_processed as nat,
            size_freed: self.size_freed as nat,
            elapsed_nanos: self.elapsed_nanos as nat,
        }
    }
}

impl Stats {
    /// Empty tallies for a run over `folders_found` directories holding
    /// `total_size` bytes in all.
    pub fn new(folders_found: usize, total_size: u64) -> (r: Self)
        ensures
            r@.folders_found == folders_found,
            r@.total_size == total_size,
            r@.folders_processed == 0,
            r@.size_freed == 0,
            r@.elapsed_nanos == 0,
            r@.wf(),
    {
        Stats { folders_found, total_size, folders_processed: 0, size_freed: 0, elapsed_nanos: 0 }
    }

    /// Records one deleted directory of `size` bytes that took `nanos`
    /// nanoseconds. When every directory found is already counted nothing
    /// changes and `false` comes back.
    pub fn record_deletion(&mut self, size: u64, nanos: u64) -> (r: bool)
        requires
            old(self)@.wf(),
        ensures
            final(self)@.wf(),
            r == (old(self)@.folders_processed < old(self)@.folders_found),
            r ==> final(self)@ == (StatsModel {
                folders_processed: old(self)@.folders_processed + 1,
                size_freed: sat_add(old(self)@.size_freed, size as nat),
                elapsed_nanos: sat_add(old(self)@.elapsed_nanos, nanos as nat),
                ..old(self)@
            }),
            !r ==> final(self)@ == old(self)@,
    {
        if self.folders_processed >= self.folders_found {
            return false;
        }
        self.folders_processed = self.folders_processed + 1;
        self.size_freed = self.size_freed.saturating_add(size);
        self.elapsed_nanos = self.elapsed_nanos.saturating_add(nanos);
        true
    }

    /// Expected nanoseconds until the remaining directories are done.
    pub fn eta_nanos(&self) -> (r: u64)
        requires
            self@.wf(),
        ensures
            r == self@.eta(),
    {
        if self.folders_processed == 0 {
            return 0;
        }
        let avg: u64 = self.elapsed_nanos / (self.folders_processed as u64);
        let remaining: u64 = (self.folders_found - self.folders_processed) as u64;
        if remaining != 0 && avg > u64::MAX / remaining {
            assert(avg * remaining > u64::MAX) by (nonlinear_arith)
                requires
                    remaining > 0,
                    avg > u64::MAX / remaining,
            ;
            u64::MAX
        } else {
            assert(avg * remaining <= u64::MAX) by (nonlinear_arith)
                requires
                    remaining == 0 || avg <= u64::MAX / remaining,
            ;
            avg * remaining
        }
    }

    pub fn folders_found(&self) -> (r: usize)
        ensures
            r == self@.folders_found,
    {
        self.folders_found
    }

    pub fn total_size(&self) -> (r: u64)
        ensures
            r == self@.total_size,
    {
        self.total_size
    }

    pub fn folders_processed(&self) -> (r: usize)
        ensures
            r == self@.folders_processed,
    {
        self.folders_processed
    }

    pub fn size_freed(&self) -> (r: u64)
        ensures
            r == self@.size_freed,
    {
        self.size_freed
    }
}

} // verus!
