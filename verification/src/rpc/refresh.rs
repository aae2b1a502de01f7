//! Keeps the leader schedules up to date as epochs progress.

use crate::rpc::schedule::{
    CompactSortedSchedule, InnerManagedLeaderSchedule, ScheduleWriter, DEFAULT_SLOTS_PER_EPOCH,
};
use crate::sync::LockWrite;
use vstd::prelude::*;

verus! {

/// What came of asking for a schedule: the schedule, the answer that there is none, or a
/// failed request.
pub enum ScheduleFetch {
    Found(CompactSortedSchedule),
    Unavailable,
    Failed,
}

/// What the background update does next.
#[derive(Debug, Clone, Copy, PartialEq, Eq, Structural)]
pub enum RefreshStep {
    /// Sleep for the check interval, then ask for the epoch.
    Wait,
    /// Ask for the schedule of the next epoch, which starts at this slot.
    FetchNext { next_first_slot: u64 },
    /// The epoch has changed: ask for the schedules of `epoch` and of the one after it.
    FetchBoth { epoch: u64, current_first_slot: u64, next_first_slot: u64 },
    /// End: the schedules can no longer be updated.
    Stop,
}

/// The step after an answer to the question for the epoch, which is `None` where the request
/// failed.
pub open spec fn refresh_plan(current_epoch: u64, epoch: Option<u64>) -> RefreshStep {
    match epoch {
        None => RefreshStep::Wait,
        Some(epoch) => {
            let next_first_slot = ((epoch + 1) * DEFAULT_SLOTS_PER_EPOCH) as u64;
            if epoch == current_epoch {
                RefreshStep::FetchNext { next_first_slot }
            } else {
                RefreshStep::FetchBoth {
                    epoch,
                    current_first_slot: (epoch * DEFAULT_SLOTS_PER_EPOCH) as u64,
                    next_first_slot,
                }
            }
        },
    }
}

/// Keeps the managed schedules up to date as epochs progress.
///
/// A failed request, or one that finds no schedule, keeps the previous schedules.
pub struct ScheduleRefresher {
    pub writer: ScheduleWriter,
    pub current_epoch: u64,
}

impl ScheduleRefresher {
    /// Starts from the epoch of the current schedule; `None` where the lock is poisoned.
    pub fn start(writer: ScheduleWriter) -> (r: Option<Self>)
        requires
            writer.wf(),
        ensures
            exists|shown: Option<InnerManagedLeaderSchedule>|
                #![trigger writer.shared().reads(shown)]
                writer.shared().reads(shown) && r == match shown {
                    Some(_) => Some(
                        ScheduleRefresher {
                            writer,
                            current_epoch: writer.schedules().current.epoch(),
                        },
                    ),
                    None => None,
                },
    {
        if writer.reader().current_epoch().is_none() {
            return None;
        }
        let current_epoch: u64 = writer.current_epoch();
        Some(ScheduleRefresher { writer, current_epoch })
    }

    /// Decides what to ask for once the current epoch is known; `None` stands for a failed
    /// request.
    pub fn on_epoch(&self, epoch: Option<u64>) -> (r: RefreshStep)
        requires
            epoch matches Some(epoch) ==> (epoch + 1) * DEFAULT_SLOTS_PER_EPOCH <= u64::MAX,
        ensures
            r == refresh_plan(self.current_epoch, epoch),
    {
        match epoch {
            None => RefreshStep::Wait,
            Some(epoch) => {
                let next_first_slot: u64 = (epoch + 1) * DEFAULT_SLOTS_PER_EPOCH;
                if epoch == self.current_epoch {
                    RefreshStep::FetchNext { next_first_slot }
                } else {
                    RefreshStep::FetchBoth {
                        epoch,
                        current_first_slot: epoch * DEFAULT_SLOTS_PER_EPOCH,
                        next_first_slot,
                    }
                }
            },
        }
    }

    /// Takes the schedule of the next epoch. Where it is missing, nothing is changed.
    pub fn on_next_schedule(&mut self, next: ScheduleFetch) -> (r: RefreshStep)
        requires
            old(self).writer.wf(),
        ensures
            final(self).writer.wf(),
            final(self).current_epoch == old(self).current_epoch,
            match next {
                ScheduleFetch::Found(next) => {
                    &&& r == RefreshStep::Wait || r == RefreshStep::Stop
                    &&& final(self).writer.continues(
                        old(self).writer,
                        seq![LockWrite {
                            value: old(self).writer.schedules().with_next(next),
                            done: r == RefreshStep::Wait,
                        }],
                    )
                },
                _ => {
                    &&& r == RefreshStep::Wait
                    &&& final(self).writer == old(self).writer
                },
            },
    {
        match next {
            ScheduleFetch::Found(next) => {
                if self.writer.publish_next(next) {
                    RefreshStep::Wait
                } else {
                    RefreshStep::Stop
                }
            },
            _ => RefreshStep::Wait,
        }
    }

    /// Takes the schedules of the changed epoch and of the one after it. Both are needed:
    /// where one is missing, the previous schedules and the previous epoch stay.
    pub fn on_both_schedules(&mut self, epoch: u64, current: ScheduleFetch, next: ScheduleFetch)
        -> (r: RefreshStep)
        requires
            old(self).writer.wf(),
        ensures
            final(self).writer.wf(),
            match (current, next) {
                (ScheduleFetch::Found(current), ScheduleFetch::Found(next)) => {
                    &&& r == RefreshStep::Wait || r == RefreshStep::Stop
                    &&& final(self).current_epoch == if r == RefreshStep::Wait {
                        epoch
                    } else {
                        old(self).current_epoch
                    }
                    &&& final(self).writer.continues(
                        old(self).writer,
                        seq![LockWrite {
                            value: old(self).writer.schedules().with_both(current, next),
                            done: r == RefreshStep::Wait,
                        }],
                    )
                },
                _ => {
                    &&& r == RefreshStep::Wait
                    &&& *final(self) == *old(self)
                },
            },
    {
        let current = match current {
            ScheduleFetch::Found(current) => current,
            _ => return RefreshStep::Wait,
        };
        let next = match next {
            ScheduleFetch::Found(next) => next,
            _ => return RefreshStep::Wait,
        };
        if self.writer.publish_both(current, next) {
            self.current_epoch = epoch;
            RefreshStep::Wait
        } else {
            RefreshStep::Stop
        }
    }
}

} // verus!
