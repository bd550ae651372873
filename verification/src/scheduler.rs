//! The refresh scheduler: when to run discovery, and what a finished cycle does to the
//! snapshot store.

use vstd::prelude::*;
use crate::accounts::UpstreamError;
use crate::record::{records_view, PullRequestRecord};
use crate::snapshot::{titles, SnapshotStore};

verus! {

/// Seconds between the end of one refresh cycle and the start of the next.
pub const REFRESH_INTERVAL_SECS: u64 = 600;

/// Where the scheduler stands.
#[derive(Debug, Clone, Copy, PartialEq, Eq, Structural)]
pub enum SchedulerPhase {
    /// A discovery cycle is to be run now.
    RefreshDue,
    /// The next cycle starts when the interval has passed.
    Waiting,
}

/// What the scheduler asks for next.
#[derive(Debug, Clone, Copy, PartialEq, Eq, Structural)]
pub enum SchedulerAction {
    /// Run one discovery cycle.
    Refresh,
    /// Let this many seconds pass.
    Wait(u64),
}

/// How a refresh cycle ended.
#[derive(Debug, Clone, Copy, PartialEq, Eq, Structural)]
pub enum CycleReport {
    /// The discovered records are the new snapshot.
    Installed {
        /// Number of records in the new snapshot.
        records: usize,
        /// Number of different titles among them.
        distinct_titles: usize,
    },
    /// Discovery failed; the previous snapshot stays in use.
    Failed(UpstreamError),
}

/// Drives discovery: once at startup, then again after every interval.
#[derive(Debug, Clone, Copy)]
pub struct RefreshScheduler {
    pub interval_secs: u64,
    pub phase: SchedulerPhase,
}

impl RefreshScheduler {
    /// A scheduler at startup: the first cycle is due at once.
    pub fn new(interval_secs: u64) -> (scheduler: RefreshScheduler)
        ensures
            scheduler.interval_secs == interval_secs,
            scheduler.phase == SchedulerPhase::RefreshDue,
    {
        RefreshScheduler { interval_secs, phase: SchedulerPhase::RefreshDue }
    }

    /// What is to be done in the phase `self.phase`.
    pub open spec fn spec_pending(self) -> SchedulerAction {
        match self.phase {
            SchedulerPhase::RefreshDue => SchedulerAction::Refresh,
            SchedulerPhase::Waiting => SchedulerAction::Wait(self.interval_secs),
        }
    }

    /// What the scheduler asks for next.
    pub fn pending(&self) -> (action: SchedulerAction)
        ensures
            action == self.spec_pending(),
    {
        match self.phase {
            SchedulerPhase::RefreshDue => SchedulerAction::Refresh,
            SchedulerPhase::Waiting => SchedulerAction::Wait(self.interval_secs),
        }
    }

    /// The interval has passed: the next cycle is due.
    pub fn interval_elapsed(&mut self)
        ensures
            final(self).phase == SchedulerPhase::RefreshDue,
            final(self).interval_secs == old(self).interval_secs,
    {
        self.phase = SchedulerPhase::RefreshDue;
    }

    /// Ends a refresh cycle. Discovered records replace the snapshot as a whole. After a
    /// failure the store is left as it was, so the previous snapshot stays in use. Either
    /// way the scheduler goes on to wait for the next interval.
    pub fn finish_cycle(
        &mut self,
        store: &mut SnapshotStore,
        outcome: Result<Vec<PullRequestRecord>, UpstreamError>,
    ) -> (report: CycleReport)
        ensures
            final(self).phase == SchedulerPhase::Waiting,
            final(self).interval_secs == old(self).interval_secs,
            match outcome {
                Ok(records) => {
                    &&& final(store)@ == records_view(records@)
                    &&& report == (CycleReport::Installed {
                        records: records.len(),
                        distinct_titles: titles(records_view(records@)).to_set().len() as usize,
                    })
                },
                Err(e) => final(store)@ == old(store)@ && report == CycleReport::Failed(e),
            },
    {
        self.phase = SchedulerPhase::Waiting;
        match outcome {
            Ok(records) => {
                let total = records.len();
                store.replace(records);
                let distinct_titles = store.distinct_titles();
                CycleReport::Installed { records: total, distinct_titles }
            },
            Err(e) => CycleReport::Failed(e),
        }
    }
}

} // verus!
