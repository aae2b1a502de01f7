//! What holds of the prediction of upcoming leaders.

use crate::pubkey::Pubkey;
use crate::rpc::schedule::{
    InnerManagedLeaderSchedule, ManagedLeaderSchedule, PoisonError, LEADER_STRIDE,
};
use crate::yellowstone_grpc::schedule::{take_answer, YellowstoneUpcomingLeader};
use vstd::prelude::*;

verus! {

/// The answers are those of one set of schedules: nothing was updated between the reads.
pub open spec fn steady(
    schedules: InnerManagedLeaderSchedule,
    slot: u64,
    answers: Seq<Result<Option<Pubkey>, PoisonError>>,
) -> bool {
    forall|k: int|
        0 <= k < answers.len() ==> {
            &&& crate::yellowstone_grpc::schedule::leader_boundary(slot) + k * LEADER_STRIDE
                <= u64::MAX
            &&& #[trigger] answers[k] == schedules.leader_answer(
                (crate::yellowstone_grpc::schedule::leader_boundary(slot) + k
                    * LEADER_STRIDE) as u64,
            )
        }
}

/// Where no answer has failed, every leader that was named is predicted.
pub proof fn law_every_named_leader_is_predicted(
    answers: Seq<Result<Option<Pubkey>, PoisonError>>,
    k: int,
)
    requires
        forall|j: int| 0 <= j < answers.len() ==> (#[trigger] answers[j]) is Ok,
        0 <= k < answers.len(),
        answers[k]->Ok_0 is Some,
    ensures
        crate::yellowstone_grpc::schedule::predicted(answers).contains(answers[k]->Ok_0->0),
    decreases answers.len(),
{
    let before = crate::yellowstone_grpc::schedule::predicted(answers.drop_last());
    let all = crate::yellowstone_grpc::schedule::predicted(answers);
    let leader = answers[k]->Ok_0->0;
    if k == answers.len() - 1 {
        assert(all[before.len() as int] == leader);
    } else {
        assert forall|j: int| 0 <= j < answers.drop_last().len() implies (
        #[trigger] answers.drop_last()[j]) is Ok by {
            assert(answers[j] is Ok);
        }
        law_every_named_leader_is_predicted(answers.drop_last(), k);
        let i = before.index_of(leader);
        assert(answers[answers.len() - 1] is Ok);
        assert(all[i] == leader);
    }
}

/// Nobody is predicted who was not named.
pub proof fn law_only_named_leaders_are_predicted(
    answers: Seq<Result<Option<Pubkey>, PoisonError>>,
    i: int,
)
    requires
        0 <= i < crate::yellowstone_grpc::schedule::predicted(answers).len(),
    ensures
        exists|k: int|
            0 <= k < answers.len() && #[trigger] answers[k] == Ok::<Option<Pubkey>, PoisonError>(
                Some(crate::yellowstone_grpc::schedule::predicted(answers)[i]),
            ),
    decreases answers.len(),
{
    let before = crate::yellowstone_grpc::schedule::predicted(answers.drop_last());
    if i < before.len() {
        law_only_named_leaders_are_predicted(answers.drop_last(), i);
        let k = choose|k: int|
            0 <= k < answers.drop_last().len() && #[trigger] answers.drop_last()[k] == Ok::<
                Option<Pubkey>,
                PoisonError,
            >(Some(before[i]));
        assert(answers[k] == answers.drop_last()[k]);
    } else {
        assert(answers[answers.len() - 1] == answers.last());
    }
}

/// A failed answer leaves no prediction.
pub proof fn law_a_failed_schedule_predicts_nobody(
    slot: u64,
    n: usize,
    answers: Seq<Result<Option<Pubkey>, PoisonError>>,
    result: Option<Seq<Pubkey>>,
    k: int,
)
    requires
        crate::yellowstone_grpc::schedule::concludes(slot, n, answers, result),
        0 <= k < answers.len(),
        answers[k] is Err,
    ensures
        result == Some(Seq::<Pubkey>::empty()),
{
    assert(answers.last() == answers[answers.len() - 1]);
}

/// The first leader that was named is predicted first.
proof fn lemma_named_first(answers: Seq<Result<Option<Pubkey>, PoisonError>>)
    requires
        forall|j: int| 0 <= j < answers.len() ==> (#[trigger] answers[j]) is Ok,
        answers.len() > 0,
        answers[0]->Ok_0 is Some,
    ensures
        crate::yellowstone_grpc::schedule::predicted(answers).len() > 0,
        crate::yellowstone_grpc::schedule::predicted(answers)[0] == answers[0]->Ok_0->0,
    decreases answers.len(),
{
    assert(answers[answers.len() - 1] is Ok);
    if answers.len() > 1 {
        assert forall|j: int| 0 <= j < answers.drop_last().len() implies (
        #[trigger] answers.drop_last()[j]) is Ok by {
            assert(answers[j] is Ok);
        }
        lemma_named_first(answers.drop_last());
    } else {
        assert(crate::yellowstone_grpc::schedule::predicted(answers.drop_last()) =~= Seq::empty());
    }
}

/// A prediction starts with the leader of the current slot.
pub proof fn law_prediction_starts_with_the_current_leader(
    schedules: InnerManagedLeaderSchedule,
    slot: u64,
    answers: Seq<Result<Option<Pubkey>, PoisonError>>,
)
    requires
        crate::rpc::schedule_laws::starts_with_a_round(schedules),
        !schedules.fail,
        steady(schedules, slot, answers),
        answers.len() > 0,
        schedules.leader_at(slot as int) is Some,
    ensures
        crate::yellowstone_grpc::schedule::predicted(answers).len() > 0,
        Some(crate::yellowstone_grpc::schedule::predicted(answers)[0]) == schedules.leader_at(
            slot as int,
        ),
{
    crate::rpc::schedule_laws::law_a_round_has_the_leader_of_its_first_slot(
        schedules,
        slot as int,
    );
    lemma_named_first(answers);
}

/// Connections are warmed up for whoever a transaction is sent to: a prediction for at least as
/// many rounds as a fanout looks at names every leader of the fanout.
#[verifier::spinoff_prover]
#[verifier::rlimit(40)]
pub proof fn law_prediction_names_every_leader_of_the_fanout(
    schedules: InnerManagedLeaderSchedule,
    slot: u64,
    fanout_slots: u64,
    answers: Seq<Result<Option<Pubkey>, PoisonError>>,
    i: int,
)
    requires
        crate::rpc::schedule_laws::starts_with_a_round(schedules),
        !schedules.fail,
        steady(schedules, slot, answers),
        crate::rpc::schedule::fanout_lookups(slot, fanout_slots) <= answers.len(),
        0 <= i < schedules.unique_leaders(
            slot as int,
            crate::rpc::schedule::fanout_lookups(slot, fanout_slots),
        ).len(),
    ensures
        crate::yellowstone_grpc::schedule::predicted(answers).contains(
            schedules.unique_leaders(
                slot as int,
                crate::rpc::schedule::fanout_lookups(slot, fanout_slots),
            )[i],
        ),
{
    let lookups = crate::rpc::schedule::fanout_lookups(slot, fanout_slots);
    let leader = schedules.unique_leaders(slot as int, lookups)[i];
    crate::rpc::schedule_laws::law_fanout_leaders_are_the_unique_leaders(
        schedules,
        slot as int,
        lookups,
    );
    let k = choose|k: int|
        0 <= k < lookups && #[trigger] schedules.leader_at(slot + k * LEADER_STRIDE) == Some(
            leader,
        );
    let boundary = crate::yellowstone_grpc::schedule::leader_boundary(slot);
    crate::rpc::schedule_laws::law_a_round_has_the_leader_of_its_first_slot(
        schedules,
        slot + k * LEADER_STRIDE,
    );
    assert(boundary + k * LEADER_STRIDE == (slot + k * LEADER_STRIDE) - (slot + k * LEADER_STRIDE)
        % 4);
    assert(answers[k] == Ok::<Option<Pubkey>, PoisonError>(Some(leader)));
    law_every_named_leader_is_predicted(answers, k);
}

/// The leaders that the answers name, in the order of the answers.
pub open spec fn named_in(answers: Seq<Result<Option<Pubkey>, PoisonError>>) -> Seq<Pubkey> {
    answers.filter(
        |answer: Result<Option<Pubkey>, PoisonError>| answer is Ok && answer->Ok_0 is Some,
    ).map_values(|answer: Result<Option<Pubkey>, PoisonError>| answer->Ok_0->0)
}

/// Without a failed answer, the leaders that the answers name are predicted, in their order.
pub proof fn law_predicted_leaders_come_in_the_order_of_the_answers(
    answers: Seq<Result<Option<Pubkey>, PoisonError>>,
)
    requires
        forall|k: int| 0 <= k < answers.len() ==> (#[trigger] answers[k]) is Ok,
    ensures
        crate::yellowstone_grpc::schedule::predicted(answers) == named_in(answers),
    decreases answers.len(),
{
    let named = |answer: Result<Option<Pubkey>, PoisonError>| answer is Ok && answer->Ok_0 is Some;
    reveal(Seq::filter);
    if answers.len() > 0 {
        let rest = answers.drop_last();
        let last = answers.len() - 1;
        assert forall|k: int| 0 <= k < rest.len() implies (#[trigger] rest[k]) is Ok by {
            assert(answers[k] is Ok);
        }
        law_predicted_leaders_come_in_the_order_of_the_answers(rest);
        assert(answers[last] is Ok);
        let kept = rest.filter(named);
        assert(answers.filter(named) == if named(answers.last()) {
            kept.push(answers.last())
        } else {
            kept
        });
    }
    assert(crate::yellowstone_grpc::schedule::predicted(answers) =~= named_in(answers));
}

/// An answer for the leader of a slot is what a read of the lock shows: who leads the slot, or an
/// error where updating has failed or the lock is poisoned.
pub open spec fn is_shown(
    shared: ManagedLeaderSchedule,
    slot: int,
    answer: Result<Option<Pubkey>, PoisonError>,
) -> bool {
    exists|shown: Option<InnerManagedLeaderSchedule>| #[trigger]
        shared.reads(shown) && match (shown, answer) {
            (Some(schedules), Ok(answer)) => !schedules.fail
                && crate::rpc::lookup_laws::tells_who_leads(schedules, slot, answer),
            (Some(schedules), Err(_)) => schedules.fail,
            (None, _) => answer is Err,
        }
}

/// A read of the schedule answers what the lock shows.
proof fn lemma_is_shown(
    shared: ManagedLeaderSchedule,
    slot: u64,
    answer: Result<Option<Pubkey>, PoisonError>,
)
    requires
        shared.leader_read(slot, answer),
    ensures
        is_shown(shared, slot as int, answer),
{
    let shown = choose|shown: Option<InnerManagedLeaderSchedule>|
        #![trigger shared.reads(shown)]
        shared.reads(shown) && answer == match shown {
            Some(schedules) => schedules.leader_answer(slot),
            None => Err(PoisonError),
        };
    if let Some(schedules) = shown {
        crate::rpc::lookup_laws::law_the_current_leader_of_a_slot_leads_it(schedules, slot as int);
        if let Ok(Some(leader)) = answer {
            assert(crate::rpc::lookup_laws::leads_now(schedules, slot as int, leader));
        }
    }
}

/// `start` is the first slot of the round that holds `slot`.
pub open spec fn is_round_of(start: int, slot: u64) -> bool {
    &&& start % 4 == 0
    &&& start <= slot < start + 4
}

/// What the prediction of `n` leaders comes to, where the rounds from `start` on are answered with
/// `answers`: the schedule is read for one round after the other, up to the first failed answer,
/// to the last of the `n` rounds or to the last slot.
pub open spec fn is_prediction(
    shared: ManagedLeaderSchedule,
    start: int,
    n: usize,
    answers: Seq<Result<Option<Pubkey>, PoisonError>>,
    result: Option<Seq<Pubkey>>,
) -> bool {
    &&& answers.len() <= n
    &&& forall|k: int|
        0 <= k < answers.len() ==> {
            &&& start + 4 * k <= u64::MAX
            &&& is_shown(shared, start + 4 * k, #[trigger] answers[k])
            &&& k < answers.len() - 1 ==> answers[k] is Ok
        }
    &&& if answers.len() > 0 && answers.last() is Err {
        result == Some(Seq::<Pubkey>::empty())
    } else if answers.len() == n {
        result == Some(named_in(answers))
    } else {
        start + 4 * answers.len() > u64::MAX && result is None
    }
}

/// The leaders that a prediction holds, where there is one.
pub open spec fn leaders_of(answer: Option<Vec<Pubkey>>) -> Option<Seq<Pubkey>> {
    match answer {
        Some(leaders) => Some(leaders@),
        None => None,
    }
}

/// A prediction names the leaders of the round of the current slot and of the rounds after it, as
/// the schedule answers for them. There is none while the slot is unavailable or once updating
/// has failed.
pub proof fn law_a_prediction_names_the_leaders_of_the_next_rounds(
    predictor: &YellowstoneUpcomingLeader,
    n: usize,
    answer: Option<Vec<Pubkey>>,
)
    requires
        call_ensures(YellowstoneUpcomingLeader::try_predict_next_n_leaders, (predictor, n), answer),
    ensures
        ({
            ||| {
                &&& predictor.slot_tracker.closed_loaded(true)
                &&& leaders_of(answer) == Some(Seq::<Pubkey>::empty())
            }
            ||| {
                &&& predictor.slot_tracker.closed_loaded(false)
                &&& exists|
                    slot: u64,
                    start: int,
                    answers: Seq<Result<Option<Pubkey>, PoisonError>>,
                |
                    {
                        &&& predictor.slot_tracker.slot_loaded(slot)
                        &&& #[trigger] is_round_of(start, slot)
                        &&& #[trigger] is_prediction(
                            predictor.managed_schedule,
                            start,
                            n,
                            answers,
                            leaders_of(answer),
                        )
                    }
            }
        }),
{
    let result = leaders_of(answer);
    if predictor.slot_tracker.closed_loaded(true) && result == Some(Seq::<Pubkey>::empty()) {
    } else {
        let (slot, answers) = choose|
            slot: u64,
            answers: Seq<Result<Option<Pubkey>, PoisonError>>,
        |
            {
                &&& predictor.slot_tracker.slot_loaded(slot)
                &&& #[trigger] predictor.answered(slot, answers)
                &&& crate::yellowstone_grpc::schedule::concludes(slot, n, answers, result)
            };
        let start = crate::yellowstone_grpc::schedule::leader_boundary(slot);
        assert(is_round_of(start, slot));
        assert forall|k: int| 0 <= k < answers.len() implies {
            &&& start + 4 * k <= u64::MAX
            &&& is_shown(predictor.managed_schedule, start + 4 * k, #[trigger] answers[k])
            &&& k < answers.len() - 1 ==> answers[k] is Ok
        } by {
            lemma_is_shown(predictor.managed_schedule, (start + 4 * k) as u64, answers[k]);
        }
        if answers.len() > 0 && answers.last() is Err {
            assert(answers[answers.len() - 1] is Err);
            law_a_failed_schedule_predicts_nobody(slot, n, answers, result, answers.len() - 1);
        } else {
            assert forall|k: int| 0 <= k < answers.len() implies (#[trigger] answers[k]) is Ok by {
                if k == answers.len() - 1 {
                    assert(answers.last() == answers[k]);
                }
            }
            law_predicted_leaders_come_in_the_order_of_the_answers(answers);
        }
        assert(is_prediction(predictor.managed_schedule, start, n, answers, result));
    }
}

/// A prediction goes on exactly with an answer that has not failed. It grows by the leader that
/// the answer names, and nothing of it is left after a failed one.
pub proof fn law_an_answer_adds_the_leader_that_it_names(
    answer: Result<Option<Pubkey>, PoisonError>,
    goes_on: bool,
)
    ensures
        forall|leaders: &mut Vec<Pubkey>| #[trigger]
            call_ensures(take_answer, (leaders, answer), goes_on) ==> {
                let before = leaders@;
                let after = final(leaders)@;
                &&& goes_on <==> answer is Ok
                &&& answer is Err ==> after.len() == 0
                &&& answer matches Ok(None) ==> after == before
                &&& answer matches Ok(Some(leader)) ==> {
                    &&& after.len() == before.len() + 1
                    &&& before.is_prefix_of(after)
                    &&& after.last() == leader
                }
            },
{
}

} // verus!
