//! What holds of the managed schedules as they are updated.
//!
//! The laws are stated of the writes that a [`ScheduleWriter`] makes.

use crate::pubkey::Pubkey;
use crate::rpc::refresh::{RefreshStep, ScheduleFetch, ScheduleRefresher};
use crate::rpc::schedule::{
    CompactSortedSchedule, InnerManagedLeaderSchedule, LeaderEntry, PoisonError, ScheduleWriter,
    DEFAULT_SLOTS_PER_EPOCH, ROUNDS_PER_EPOCH,
};
use crate::sync::LockWrite;
use vstd::prelude::*;

verus! {

/// The current schedule is that of `epoch`, and the next one is that of the epoch after it.
pub open spec fn covers_epoch(schedules: InnerManagedLeaderSchedule, epoch: int) -> bool {
    &&& schedules.current.first_slot == epoch * DEFAULT_SLOTS_PER_EPOCH
    &&& schedules.next.first_slot == (epoch + 1) * DEFAULT_SLOTS_PER_EPOCH
}

/// Where a schedule was found by asking at `first_slot`, it was unnested at that slot.
pub open spec fn fetched_at(fetch: ScheduleFetch, first_slot: u64) -> bool {
    fetch matches ScheduleFetch::Found(schedule) ==> exists|entries: Seq<LeaderEntry<'_>>|
        crate::rpc::schedule::unnests_to(first_slot, entries, schedule)
}

/// A schedule that was unnested at the first slot of an epoch starts there.
proof fn lemma_fetched_schedule_starts_there(fetch: ScheduleFetch, epoch: int, first_slot: u64)
    requires
        fetched_at(fetch, first_slot),
        first_slot == epoch * DEFAULT_SLOTS_PER_EPOCH,
    ensures
        fetch matches ScheduleFetch::Found(schedule) ==> schedule.first_slot == first_slot,
{
}

/// Taking the answer for the next schedule keeps two consecutive epochs in the schedules. The
/// answer is that for the slot which the refresh plan asks for.
pub proof fn law_refreshing_the_next_schedule_keeps_consecutive_epochs(
    before: ScheduleRefresher,
    next_first_slot: u64,
    next: ScheduleFetch,
    after: ScheduleRefresher,
)
    requires
        covers_epoch(before.writer.schedules(), before.current_epoch as int),
        (before.current_epoch + 1) * DEFAULT_SLOTS_PER_EPOCH <= u64::MAX,
        crate::rpc::refresh::refresh_plan(before.current_epoch, Some(before.current_epoch))
            == (RefreshStep::FetchNext { next_first_slot }),
        fetched_at(next, next_first_slot),
        after.current_epoch == before.current_epoch,
        after.writer == before.writer || (next matches ScheduleFetch::Found(next) && exists|
            done: bool,
        | #[trigger]
            after.writer.continues(
                before.writer,
                seq![LockWrite { value: before.writer.schedules().with_next(next), done }],
            )),
    ensures
        covers_epoch(after.writer.schedules(), after.current_epoch as int),
{
    lemma_fetched_schedule_starts_there(next, before.current_epoch + 1, next_first_slot);
    if after.writer != before.writer {
        assert(after.writer.writes().drop_last() =~= before.writer.writes());
    }
}

/// Taking the answers for both schedules keeps two consecutive epochs in the schedules: those of
/// the changed epoch where both were found, the previous ones where not. The answers are those
/// for the slots which the refresh plan asks for.
pub proof fn law_refreshing_both_schedules_keeps_consecutive_epochs(
    before: ScheduleRefresher,
    epoch: u64,
    current_first_slot: u64,
    next_first_slot: u64,
    current: ScheduleFetch,
    next: ScheduleFetch,
    after: ScheduleRefresher,
)
    requires
        covers_epoch(before.writer.schedules(), before.current_epoch as int),
        (epoch + 1) * DEFAULT_SLOTS_PER_EPOCH <= u64::MAX,
        crate::rpc::refresh::refresh_plan(before.current_epoch, Some(epoch))
            == (RefreshStep::FetchBoth { epoch, current_first_slot, next_first_slot }),
        fetched_at(current, current_first_slot),
        fetched_at(next, next_first_slot),
        after == before || (current matches ScheduleFetch::Found(current) && next matches
            ScheduleFetch::Found(next) && exists|done: bool|
            {
                &&& #[trigger] after.writer.continues(
                    before.writer,
                    seq![LockWrite {
                        value: before.writer.schedules().with_both(current, next),
                        done,
                    }],
                )
                &&& after.current_epoch == if done {
                    epoch
                } else {
                    before.current_epoch
                }
            }),
    ensures
        covers_epoch(after.writer.schedules(), after.current_epoch as int),
{
    lemma_fetched_schedule_starts_there(current, epoch as int, current_first_slot);
    lemma_fetched_schedule_starts_there(next, epoch + 1, next_first_slot);
    if after.writer != before.writer {
        assert(after.writer.writes().drop_last() =~= before.writer.writes());
    }
}

/// Knowing the epoch of the cluster, the refresher asks for the next schedule alone exactly where
/// it is still in that epoch, and for both exactly where it is not. The slots that it names are
/// those with which the epoch of the cluster and the epoch after it begin.
pub proof fn law_an_epoch_change_is_answered_by_asking_for_both(
    refresher: &ScheduleRefresher,
    epoch: u64,
    step: RefreshStep,
)
    requires
        (epoch + 1) * 432_000 <= u64::MAX,
        call_ensures(ScheduleRefresher::on_epoch, (refresher, Some(epoch)), step),
    ensures
        step is FetchNext <==> epoch == refresher.current_epoch,
        step is FetchBoth <==> epoch != refresher.current_epoch,
        step matches RefreshStep::FetchNext { next_first_slot } ==> {
            &&& next_first_slot % 432_000 == 0
            &&& next_first_slot / 432_000 == refresher.current_epoch + 1
        },
        step matches RefreshStep::FetchBoth { epoch: asked, current_first_slot, next_first_slot }
            ==> {
            &&& asked == epoch
            &&& current_first_slot % 432_000 == 0
            &&& current_first_slot / 432_000 == epoch
            &&& next_first_slot == current_first_slot + 432_000
        },
{
}

/// Where the question for the epoch failed, nothing is asked: the refresher waits.
pub proof fn law_without_an_epoch_nothing_is_asked(refresher: &ScheduleRefresher, step: RefreshStep)
    requires
        call_ensures(ScheduleRefresher::on_epoch, (refresher, None), step),
    ensures
        step == RefreshStep::Wait,
{
}

/// The refresher starts from the epoch in which the current schedule begins, with the writer as
/// it is. It does not start exactly where the lock shows that it is poisoned.
pub proof fn law_a_refresher_starts_in_the_epoch_of_the_current_schedule(
    writer: ScheduleWriter,
    refresher: Option<ScheduleRefresher>,
)
    requires
        writer.wf(),
        call_ensures(ScheduleRefresher::start, (writer,), refresher),
    ensures
        refresher matches Some(refresher) ==> {
            &&& refresher.writer == writer
            &&& refresher.current_epoch * 432_000 <= writer.schedules().current.first_slot < (
            refresher.current_epoch + 1) * 432_000
        },
        exists|shown: Option<InnerManagedLeaderSchedule>| #[trigger]
            writer.shared().reads(shown) && (shown is Some <==> refresher is Some),
{
}

/// The answer for the next schedule replaces that schedule and nothing else, where there is one
/// and the lock can be taken, and changes nothing where not. The refresher ends exactly where
/// there is a schedule that cannot be written.
pub proof fn law_the_answer_for_the_next_schedule_replaces_it(fetch: ScheduleFetch, step: RefreshStep)
    ensures
        forall|refresher: &mut ScheduleRefresher| #[trigger]
            call_ensures(ScheduleRefresher::on_next_schedule, (refresher, fetch), step)
                && refresher.writer.wf() ==> {
                let before = refresher.writer.schedules();
                let after = final(refresher).writer.schedules();
                &&& final(refresher).writer.wf()
                &&& final(refresher).writer.shared() == refresher.writer.shared()
                &&& final(refresher).current_epoch == refresher.current_epoch
                &&& after.current == before.current
                &&& after.fail == before.fail
                &&& step == RefreshStep::Wait || step == RefreshStep::Stop && fetch is Found
                &&& fetch is Found && step == RefreshStep::Wait ==> *after.next == fetch->Found_0
                &&& !(fetch is Found && step == RefreshStep::Wait) ==> after.next == before.next
                &&& final(refresher).writer.writes().len() == refresher.writer.writes().len() + (
                if fetch is Found {
                    1int
                } else {
                    0
                })
            },
{
    assert forall|refresher: &mut ScheduleRefresher| #[trigger]
        call_ensures(ScheduleRefresher::on_next_schedule, (refresher, fetch), step)
            && refresher.writer.wf() implies {
        let before = refresher.writer.schedules();
        let after = final(refresher).writer.schedules();
        &&& final(refresher).writer.wf()
        &&& final(refresher).writer.shared() == refresher.writer.shared()
        &&& final(refresher).current_epoch == refresher.current_epoch
        &&& after.current == before.current
        &&& after.fail == before.fail
        &&& step == RefreshStep::Wait || step == RefreshStep::Stop && fetch is Found
        &&& fetch is Found && step == RefreshStep::Wait ==> *after.next == fetch->Found_0
        &&& !(fetch is Found && step == RefreshStep::Wait) ==> after.next == before.next
        &&& final(refresher).writer.writes().len() == refresher.writer.writes().len() + (
        if fetch is Found {
            1int
        } else {
            0
        })
    } by {
        if fetch is Found {
            assert(final(refresher).writer.writes().drop_last() =~= refresher.writer.writes());
        }
    }
}

/// The answers for both schedules replace both and the epoch, where both are there and the lock
/// can be taken, and change nothing where not. The refresher ends exactly where there are two
/// schedules that cannot be written.
pub proof fn law_the_answers_for_both_schedules_replace_them(
    epoch: u64,
    current: ScheduleFetch,
    next: ScheduleFetch,
    step: RefreshStep,
)
    ensures
        forall|refresher: &mut ScheduleRefresher| #[trigger]
            call_ensures(
                ScheduleRefresher::on_both_schedules,
                (refresher, epoch, current, next),
                step,
            ) && refresher.writer.wf() ==> {
                let both = current is Found && next is Found;
                let before = refresher.writer.schedules();
                let after = final(refresher).writer.schedules();
                &&& final(refresher).writer.wf()
                &&& final(refresher).writer.shared() == refresher.writer.shared()
                &&& after.fail == before.fail
                &&& step == RefreshStep::Wait || step == RefreshStep::Stop && both
                &&& both && step == RefreshStep::Wait ==> {
                    &&& *after.current == current->Found_0
                    &&& *after.next == next->Found_0
                    &&& final(refresher).current_epoch == epoch
                }
                &&& !(both && step == RefreshStep::Wait) ==> {
                    &&& after == before
                    &&& final(refresher).current_epoch == refresher.current_epoch
                }
                &&& final(refresher).writer.writes().len() == refresher.writer.writes().len() + (
                if both {
                    1int
                } else {
                    0
                })
            },
{
    assert forall|refresher: &mut ScheduleRefresher| #[trigger]
        call_ensures(
            ScheduleRefresher::on_both_schedules,
            (refresher, epoch, current, next),
            step,
        ) && refresher.writer.wf() implies {
        let both = current is Found && next is Found;
        let before = refresher.writer.schedules();
        let after = final(refresher).writer.schedules();
        &&& final(refresher).writer.wf()
        &&& final(refresher).writer.shared() == refresher.writer.shared()
        &&& after.fail == before.fail
        &&& step == RefreshStep::Wait || step == RefreshStep::Stop && both
        &&& both && step == RefreshStep::Wait ==> {
            &&& *after.current == current->Found_0
            &&& *after.next == next->Found_0
            &&& final(refresher).current_epoch == epoch
        }
        &&& !(both && step == RefreshStep::Wait) ==> {
            &&& after == before
            &&& final(refresher).current_epoch == refresher.current_epoch
        }
        &&& final(refresher).writer.writes().len() == refresher.writer.writes().len() + (if both {
            1int
        } else {
            0
        })
    } by {
        if current is Found && next is Found {
            assert(final(refresher).writer.writes().drop_last() =~= refresher.writer.writes());
        }
    }
}

/// A round of updating, from the answer for the epoch to the answer for the next schedule: the
/// schedules cover the epoch of the cluster and the one after it, as they did before.
pub proof fn law_a_round_without_an_epoch_change_keeps_the_epochs(
    epoch: u64,
    next_first_slot: u64,
    next: ScheduleFetch,
    step: RefreshStep,
)
    requires
        (epoch + 1) * 432_000 <= u64::MAX,
        fetched_at(next, next_first_slot),
    ensures
        forall|refresher: &mut ScheduleRefresher|
            {
                &&& call_ensures(
                    ScheduleRefresher::on_epoch,
                    (&*refresher, Some(epoch)),
                    RefreshStep::FetchNext { next_first_slot },
                )
                &&& #[trigger] call_ensures(
                    ScheduleRefresher::on_next_schedule,
                    (refresher, next),
                    step,
                )
                &&& refresher.writer.wf()
                &&& covers_epoch(refresher.writer.schedules(), refresher.current_epoch as int)
            } ==> {
                &&& final(refresher).current_epoch == epoch
                &&& covers_epoch(final(refresher).writer.schedules(), epoch as int)
            },
{
    law_the_answer_for_the_next_schedule_replaces_it(next, step);
    assert forall|refresher: &mut ScheduleRefresher|
        {
            &&& call_ensures(
                ScheduleRefresher::on_epoch,
                (&*refresher, Some(epoch)),
                RefreshStep::FetchNext { next_first_slot },
            )
            &&& #[trigger] call_ensures(
                ScheduleRefresher::on_next_schedule,
                (refresher, next),
                step,
            )
            &&& refresher.writer.wf()
            &&& covers_epoch(refresher.writer.schedules(), refresher.current_epoch as int)
        } implies {
        &&& final(refresher).current_epoch == epoch
        &&& covers_epoch(final(refresher).writer.schedules(), epoch as int)
    } by {
        law_an_epoch_change_is_answered_by_asking_for_both(
            &*refresher,
            epoch,
            RefreshStep::FetchNext { next_first_slot },
        );
        lemma_fetched_schedule_starts_there(next, epoch + 1, next_first_slot);
    }
}

/// A round of updating, from the answer for the epoch to the answers for both schedules: where
/// these are found and written, the schedules cover the epoch of the cluster and the one after
/// it, and else what they covered before.
pub proof fn law_a_round_with_an_epoch_change_moves_the_epochs(
    epoch: u64,
    asked: u64,
    current_first_slot: u64,
    next_first_slot: u64,
    current: ScheduleFetch,
    next: ScheduleFetch,
    step: RefreshStep,
)
    requires
        (epoch + 1) * 432_000 <= u64::MAX,
        fetched_at(current, current_first_slot),
        fetched_at(next, next_first_slot),
    ensures
        forall|refresher: &mut ScheduleRefresher|
            {
                &&& call_ensures(
                    ScheduleRefresher::on_epoch,
                    (&*refresher, Some(epoch)),
                    RefreshStep::FetchBoth { epoch: asked, current_first_slot, next_first_slot },
                )
                &&& #[trigger] call_ensures(
                    ScheduleRefresher::on_both_schedules,
                    (refresher, asked, current, next),
                    step,
                )
                &&& refresher.writer.wf()
                &&& covers_epoch(refresher.writer.schedules(), refresher.current_epoch as int)
            } ==> {
                let moved = current is Found && next is Found && step == RefreshStep::Wait;
                &&& final(refresher).current_epoch == if moved {
                    epoch
                } else {
                    refresher.current_epoch
                }
                &&& covers_epoch(
                    final(refresher).writer.schedules(),
                    final(refresher).current_epoch as int,
                )
            },
{
    law_the_answers_for_both_schedules_replace_them(asked, current, next, step);
    assert forall|refresher: &mut ScheduleRefresher|
        {
            &&& call_ensures(
                ScheduleRefresher::on_epoch,
                (&*refresher, Some(epoch)),
                RefreshStep::FetchBoth { epoch: asked, current_first_slot, next_first_slot },
            )
            &&& #[trigger] call_ensures(
                ScheduleRefresher::on_both_schedules,
                (refresher, asked, current, next),
                step,
            )
            &&& refresher.writer.wf()
            &&& covers_epoch(refresher.writer.schedules(), refresher.current_epoch as int)
        } implies {
        let moved = current is Found && next is Found && step == RefreshStep::Wait;
        &&& final(refresher).current_epoch == if moved {
            epoch
        } else {
            refresher.current_epoch
        }
        &&& covers_epoch(
            final(refresher).writer.schedules(),
            final(refresher).current_epoch as int,
        )
    } by {
        law_an_epoch_change_is_answered_by_asking_for_both(
            &*refresher,
            epoch,
            RefreshStep::FetchBoth { epoch: asked, current_first_slot, next_first_slot },
        );
        lemma_fetched_schedule_starts_there(current, epoch as int, current_first_slot);
        lemma_fetched_schedule_starts_there(next, epoch + 1, next_first_slot);
    }
}

/// Once updating has failed, every lookup is answered with an error, for any slot.
pub proof fn law_a_failed_update_task_poisons_the_lookups(
    before: ScheduleWriter,
    after: ScheduleWriter,
    slot: u64,
)
    requires
        after.continues(
            before,
            seq![LockWrite { value: before.schedules().with_failure(), done: true }],
        ),
    ensures
        after.schedules().fail,
        after.schedules().leader_answer(slot) == Err::<Option<Pubkey>, PoisonError>(
            PoisonError,
        ),
        after.schedules().current == before.schedules().current,
        after.schedules().next == before.schedules().next,
{
    assert(after.writes().drop_last() =~= before.writes());
}

/// What can be published: other schedules, or that updating has failed.
pub open spec fn publishable(
    schedules: InnerManagedLeaderSchedule,
    value: InnerManagedLeaderSchedule,
) -> bool {
    ||| exists|next: CompactSortedSchedule| value == #[trigger] schedules.with_next(next)
    ||| exists|current: CompactSortedSchedule, next: CompactSortedSchedule|
        value == #[trigger] schedules.with_both(current, next)
    ||| value == schedules.with_failure()
}

/// A failure stays: nothing that can be published takes it back.
pub proof fn law_a_failure_stays(
    before: ScheduleWriter,
    value: InnerManagedLeaderSchedule,
    done: bool,
    after: ScheduleWriter,
)
    requires
        before.schedules().fail,
        publishable(before.schedules(), value),
        after.continues(before, seq![LockWrite { value, done }]),
    ensures
        after.schedules().fail,
{
    assert(after.writes().drop_last() =~= before.writes());
}

/// The schedules to start with cover the epoch that the refresher starts from: that of the first
/// schedule, where the second was unnested at the first slot of the epoch after it.
pub proof fn law_the_first_schedules_cover_their_epoch(
    slot: u64,
    current_entries: Seq<LeaderEntry<'_>>,
    current: CompactSortedSchedule,
    next_first_slot: u64,
    next_entries: Seq<LeaderEntry<'_>>,
    next: CompactSortedSchedule,
    writer: ScheduleWriter,
)
    requires
        crate::rpc::schedule::unnests_to(slot, current_entries, current),
        next_first_slot == crate::rpc::schedule::epoch_start(current.first_slot as int)
            + DEFAULT_SLOTS_PER_EPOCH,
        crate::rpc::schedule::unnests_to(next_first_slot, next_entries, next),
        writer.initial() == InnerManagedLeaderSchedule::fresh(current, next),
        writer.writes() == Seq::<LockWrite<InnerManagedLeaderSchedule>>::empty(),
    ensures
        covers_epoch(writer.schedules(), writer.schedules().current.epoch() as int),
{
}

/// Two complete schedules of consecutive epochs name a leader for every slot of both.
pub proof fn law_two_epochs_are_covered(
    schedules: InnerManagedLeaderSchedule,
    epoch: int,
    slot: int,
)
    requires
        covers_epoch(schedules, epoch),
        schedules.current.schedule@.len() == ROUNDS_PER_EPOCH,
        schedules.next.schedule@.len() == ROUNDS_PER_EPOCH,
    ensures
        schedules.leader_at(slot) is Some <==> epoch * DEFAULT_SLOTS_PER_EPOCH <= slot < (epoch
            + 2) * DEFAULT_SLOTS_PER_EPOCH,
{
}

} // verus!
