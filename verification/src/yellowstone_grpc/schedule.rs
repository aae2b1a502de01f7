//! Predicts the upcoming leaders from the tracked slot and the managed leader schedule.
//!
//! There is no prediction while the slot is unavailable, nor after the background task that
//! updates the schedule has failed.

use crate::pubkey::Pubkey;
use crate::rpc::schedule::{ManagedLeaderSchedule, PoisonError, LEADER_STRIDE};
use crate::slot::AtomicSlotTracker;
use std::sync::Arc;
use vstd::prelude::*;

verus! {

/// Predicts upcoming leaders. It is cheap to clone and can be shared between threads.
pub struct YellowstoneUpcomingLeader {
    pub slot_tracker: Arc<AtomicSlotTracker>,
    pub managed_schedule: ManagedLeaderSchedule,
}

impl Clone for YellowstoneUpcomingLeader {
    fn clone(&self) -> (r: Self)
        ensures
            r == *self,
    {
        YellowstoneUpcomingLeader {
            slot_tracker: self.slot_tracker.clone(),
            managed_schedule: self.managed_schedule.clone(),
        }
    }
}

/// The first slot of the round of `slot`.
pub open spec fn leader_boundary(slot: u64) -> int {
    slot - slot % LEADER_STRIDE
}

/// The leaders that are predicted once the schedule has answered for one more round: a known
/// leader is added, an unknown one is passed over, and nothing is left where updating the
/// schedule has failed.
pub open spec fn after_answer(
    leaders: Seq<Pubkey>,
    answer: Result<Option<Pubkey>, PoisonError>,
) -> Seq<Pubkey> {
    match answer {
        Ok(Some(leader)) => leaders.push(leader),
        Ok(None) => leaders,
        Err(PoisonError) => Seq::empty(),
    }
}

/// The leaders that are predicted from the answers of the schedule, round by round.
pub open spec fn predicted(answers: Seq<Result<Option<Pubkey>, PoisonError>>) -> Seq<Pubkey>
    decreases answers.len(),
{
    if answers.len() == 0 {
        Seq::empty()
    } else {
        after_answer(predicted(answers.drop_last()), answers.last())
    }
}

/// What a prediction of `n` leaders from `slot` on comes to. It ends with the first failed
/// answer, with the last of the `n` rounds, or, without a result, where the next round would
/// begin after the last slot that there is.
pub open spec fn concludes(
    slot: u64,
    n: usize,
    answers: Seq<Result<Option<Pubkey>, PoisonError>>,
    result: Option<Seq<Pubkey>>,
) -> bool {
    &&& answers.len() <= n
    &&& forall|k: int| 0 <= k < answers.len() - 1 ==> (#[trigger] answers[k]) is Ok
    &&& if answers.len() == n || answers.last() is Err && answers.len() > 0 {
        result == Some(predicted(answers))
    } else {
        &&& leader_boundary(slot) + answers.len() * LEADER_STRIDE > u64::MAX
        &&& result is None
    }
}

/// Takes the answer of the schedule for one more round; `false` where the prediction ends
/// with it.
pub fn take_answer(
    leaders: &mut Vec<Pubkey>,
    answer: Result<Option<Pubkey>, PoisonError>,
) -> (r: bool)
    ensures
        final(leaders)@ == after_answer(old(leaders)@, answer),
        r == (answer is Ok),
{
    match answer {
        Ok(Some(leader)) => {
            leaders.push(leader);
            true
        },
        Ok(None) => true,
        Err(_) => {
            leaders.clear();
            false
        },
    }
}

impl YellowstoneUpcomingLeader {
    /// Asked for the leaders of the round of `slot` and of those after it, one schedule read
    /// for each, the schedule gave these answers.
    pub open spec fn answered(
        &self,
        slot: u64,
        answers: Seq<Result<Option<Pubkey>, PoisonError>>,
    ) -> bool {
        forall|k: int|
            0 <= k < answers.len() ==> {
                &&& leader_boundary(slot) + k * LEADER_STRIDE <= u64::MAX
                &&& self.managed_schedule.leader_read(
                    (leader_boundary(slot) + k * LEADER_STRIDE) as u64,
                    #[trigger] answers[k],
                )
            }
    }

    /// Predicts the leader of the current slot and those of the `n - 1` rounds after it, in the
    /// order of their slots. Slots without a known leader are passed over.
    ///
    /// `None` where one of these rounds would begin after the last slot that there is.
    pub fn try_predict_next_n_leaders(&self, n: usize) -> (r: Option<Vec<Pubkey>>)
        ensures
            ({
                let result = match r {
                    Some(leaders) => Some(leaders@),
                    None => None,
                };
                ||| {
                    &&& self.slot_tracker.closed_loaded(true)
                    &&& result == Some(Seq::<Pubkey>::empty())
                }
                ||| {
                    &&& self.slot_tracker.closed_loaded(false)
                    &&& exists|slot: u64, answers: Seq<Result<Option<Pubkey>, PoisonError>>|
                        {
                            &&& self.slot_tracker.slot_loaded(slot)
                            &&& #[trigger] self.answered(slot, answers)
                            &&& concludes(slot, n, answers, result)
                        }
                }
            }),
    {
        let slot: u64 = match self.slot_tracker.load() {
            Ok(slot) => slot,
            Err(_) => return Some(Vec::new()),
        };
        let current_leader_boundary: u64 = slot - slot % LEADER_STRIDE;
        let mut leaders: Vec<Pubkey> = Vec::new();
        let ghost mut answers: Seq<Result<Option<Pubkey>, PoisonError>> = Seq::empty();
        let mut i: usize = 0;
        while i < n
            invariant
                i <= n,
                answers.len() == i,
                current_leader_boundary == leader_boundary(slot),
                self.slot_tracker.closed_loaded(false),
                self.slot_tracker.slot_loaded(slot),
                self.answered(slot, answers),
                forall|k: int| 0 <= k < i ==> (#[trigger] answers[k]) is Ok,
                leaders@ == predicted(answers),
            decreases n - i,
        {
            if i as u64 > (u64::MAX - current_leader_boundary) / LEADER_STRIDE {
                assert(concludes(slot, n, answers, None));
                return None;
            }
            let leader_slot: u64 = current_leader_boundary + i as u64 * LEADER_STRIDE;
            let answer = self.managed_schedule.get_leader(leader_slot);
            let ghost more = answers.push(answer);
            assert(more.drop_last() =~= answers);
            assert forall|k: int| 0 <= k < more.len() implies {
                &&& leader_boundary(slot) + k * LEADER_STRIDE <= u64::MAX
                &&& self.managed_schedule.leader_read(
                    (leader_boundary(slot) + k * LEADER_STRIDE) as u64,
                    #[trigger] more[k],
                )
            } by {
                if k < i {
                    assert(more[k] == answers[k]);
                }
            }
            assert(self.answered(slot, more));
            if !take_answer(&mut leaders, answer) {
                assert(concludes(slot, n, more, Some(leaders@)));
                return Some(leaders);
            }
            proof {
                answers = more;
            }
            i = i + 1;
        }
        assert(concludes(slot, n, answers, Some(leaders@)));
        Some(leaders)
    }
}

} // verus!
