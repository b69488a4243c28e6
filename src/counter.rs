use std::sync::atomic::{AtomicU64, Ordering};
use vstd::prelude::*;

verus! {

/// A 64-bit counter that many workers may increment at once. Every operation on
/// it is sequentially consistent, so all increments and reads form one total order.
pub struct SharedCounter {
    value: AtomicU64,
}

impl SharedCounter {
    /// A counter that holds zero.
    pub fn new() -> (r: SharedCounter) {
        SharedCounter { value: AtomicU64::new(0) }
    }

    /// Sets the counter back to zero.
    pub fn reset(&self) {
        self.value.store(0, Ordering::SeqCst);
    }

    /// Adds one to the counter in a single atomic read-modify-write.
    pub fn increment(&self) {
        let _ = self.value.fetch_add(1, Ordering::SeqCst);
    }

    /// The work of one campaign worker: `increments` atomic increments.
    pub fn run_worker(&self, increments: u64) {
        let mut done: u64 = 0;
        while done < increments
            invariant
                done <= increments,
            decreases increments - done,
        {
            self.increment();
            done = done + 1;
        }
    }
}

/// Reads the counter. While a campaign runs, this is some value of the single
/// total order of increments; once every worker has been joined, it is the final one.
pub fn read_after_sleep(counter: &SharedCounter) -> u64 {
    counter.value.load(Ordering::SeqCst)
}

/// What a campaign driver must do next.
#[derive(Debug, Clone, Copy, PartialEq, Eq, Structural)]
pub enum CampaignStep {
    /// Start one more worker.
    Spawn,
    /// Wait for one more started worker to finish.
    Join,
    /// Every worker has finished: read the final value.
    Read,
}

/// Progress of one campaign: reset, `worker_count` workers of
/// `increments_per_worker` increments each started and then joined, one final read.
#[derive(Debug, Clone, Copy)]
pub struct Campaign {
    pub worker_count: u64,
    pub increments_per_worker: u64,
    pub spawned: u64,
    pub joined: u64,
}

impl Campaign {
    /// Workers are joined only after they were started, and never more than planned.
    pub open spec fn wf(&self) -> bool {
        self.joined <= self.spawned <= self.worker_count
    }

    /// Resets `counter` and starts a campaign with no worker started yet.
    pub fn begin(counter: &SharedCounter, worker_count: u64, increments_per_worker: u64) -> (r: Campaign)
        ensures
            r.wf(),
            r.worker_count == worker_count,
            r.increments_per_worker == increments_per_worker,
            r.spawned == 0,
            r.joined == 0,
    {
        counter.reset();
        Campaign { worker_count, increments_per_worker, spawned: 0, joined: 0 }
    }

    /// The next action: start every worker, then join every worker, then read.
    /// The read comes only once no started worker is left unjoined.
    pub fn next_step(&self) -> (r: CampaignStep)
        requires
            self.wf(),
        ensures
            r == CampaignStep::Spawn <==> self.spawned < self.worker_count,
            r == CampaignStep::Join <==> (self.spawned == self.worker_count && self.joined < self.spawned),
            r == CampaignStep::Read <==> self.joined == self.worker_count,
    {
        if self.spawned < self.worker_count {
            CampaignStep::Spawn
        } else if self.joined < self.spawned {
            CampaignStep::Join
        } else {
            CampaignStep::Read
        }
    }

    /// Records that one more worker was started.
    pub fn record_spawned(&mut self)
        requires
            old(self).wf(),
            old(self).spawned < old(self).worker_count,
        ensures
            final(self).wf(),
            *final(self) == (Campaign { spawned: (old(self).spawned + 1) as u64, ..*old(self) }),
    {
        self.spawned = self.spawned + 1;
    }

    /// Records that one more started worker has finished.
    pub fn record_joined(&mut self)
        requires
            old(self).wf(),
            old(self).joined < old(self).spawned,
        ensures
            final(self).wf(),
            *final(self) == (Campaign { joined: (old(self).joined + 1) as u64, ..*old(self) }),
    {
        self.joined = self.joined + 1;
    }
}

} // verus!
