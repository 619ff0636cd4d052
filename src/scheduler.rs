//! Admission of many jobs under a bound on how many run at once, with the run's
//! shared counters. A failed job frees its place like a finished one and touches
//! no other job.
use vstd::prelude::*;
use crate::progress::{ProgressCounters, cap_u64};

verus! {

/// The bookkeeping of a run of `total` jobs, admitted in index order, at most
/// `parallel` of them running at once.
#[derive(Clone, Copy, Debug, PartialEq, Eq, Structural)]
pub struct JobScheduler {
    pub parallel: usize,
    pub total: usize,
    /// Jobs admitted so far: indices `0..next`.
    pub next: usize,
    pub running: usize,
    pub succeeded: usize,
    pub failed: usize,
    pub counters: ProgressCounters,
}

impl JobScheduler {
    pub open spec fn wf(&self) -> bool {
        &&& self.parallel >= 1
        &&& self.next <= self.total
        &&& self.running <= self.parallel
        &&& self.succeeded + self.failed + self.running == self.next
        &&& self.counters.files_total == self.total
        &&& self.counters.files_finished == self.succeeded + self.failed
    }

    /// A run of `total` jobs with at most `parallel` at once; nothing admitted yet.
    pub fn new(total: usize, parallel: usize) -> (r: Self)
        requires
            parallel >= 1,
        ensures
            r.wf(),
            r.parallel == parallel,
            r.total == total,
            r.next == 0,
            r.running == 0,
            r.counters == ProgressCounters::new_spec(total),
    {
        JobScheduler {
            parallel,
            total,
            next: 0,
            running: 0,
            succeeded: 0,
            failed: 0,
            counters: ProgressCounters::new(total),
        }
    }

    /// Admits the next job when one is waiting and a place is free, and returns its
    /// index; otherwise changes nothing.
    pub fn start_next(&mut self) -> (r: Option<usize>)
        requires
            old(self).wf(),
        ensures
            final(self).wf(),
            old(self).running < old(self).parallel && old(self).next < old(self).total ==> r
                == Some(old(self).next) && *final(self) == (JobScheduler {
                next: (old(self).next + 1) as usize,
                running: (old(self).running + 1) as usize,
                ..*old(self)
            }),
            !(old(self).running < old(self).parallel && old(self).next < old(self).total) ==> r
                is None && *final(self) == *old(self),
    {
        if self.running < self.parallel && self.next < self.total {
            let i = self.next;
            self.next = self.next + 1;
            self.running = self.running + 1;
            Some(i)
        } else {
            None
        }
    }

    /// Records that one running job ended, well or not, freeing its place.
    pub fn complete(&mut self, success: bool)
        requires
            old(self).wf(),
            old(self).running > 0,
        ensures
            final(self).wf(),
            final(self).running == old(self).running - 1,
            final(self).next == old(self).next,
            final(self).succeeded == old(self).succeeded + (if success { 1int } else { 0 }),
            final(self).failed == old(self).failed + (if success { 0int } else { 1 }),
            final(self).counters.files_finished == old(self).counters.files_finished + 1,
            final(self).counters.bytes_done == old(self).counters.bytes_done,
            final(self).counters.bytes_total == old(self).counters.bytes_total,
            final(self).parallel == old(self).parallel,
            final(self).total == old(self).total,
    {
        self.running = self.running - 1;
        if success {
            self.succeeded = self.succeeded + 1;
        } else {
            self.failed = self.failed + 1;
        }
        self.counters.finish_file();
    }

    /// Adds the size that a job's probe found to the run's total.
    pub fn add_size(&mut self, k: u64)
        requires
            old(self).wf(),
        ensures
            final(self).wf(),
            *final(self) == (JobScheduler {
                counters: ProgressCounters {
                    bytes_total: cap_u64(old(self).counters.bytes_total + k),
                    ..old(self).counters
                },
                ..*old(self)
            }),
    {
        self.counters.add_total(k);
    }

    /// Counts `k` bytes that some worker wrote.
    pub fn add_done(&mut self, k: u64)
        requires
            old(self).wf(),
        ensures
            final(self).wf(),
            *final(self) == (JobScheduler {
                counters: ProgressCounters {
                    bytes_done: cap_u64(old(self).counters.bytes_done + k),
                    ..old(self).counters
                },
                ..*old(self)
            }),
    {
        self.counters.add_done(k);
    }

    /// Every job has been admitted and has ended.
    pub fn is_done(&self) -> (r: bool)
        requires
            self.wf(),
        ensures
            r == (self.next == self.total && self.running == 0),
            r ==> self.succeeded + self.failed == self.total,
    {
        self.next == self.total && self.running == 0
    }
}

} // verus!
