//! What a lookup in the leader schedules answers, in terms of slots and of the keys that the
//! schedules hold.
//!
//! An epoch has 432000 slots, and a leader leads four of them at a time.

use crate::pubkey::Pubkey;
use crate::rpc::schedule::{
    CompactSortedSchedule, InnerManagedLeaderSchedule, ManagedLeaderSchedule, PoisonError,
    ScheduleWriter, LEADER_STRIDE,
};
use vstd::prelude::*;

verus! {

/// `leader` leads `slot` according to the schedule: it stands at the place of the slot's round,
/// and the slot lies in the epoch.
pub open spec fn leads(schedule: CompactSortedSchedule, slot: int, leader: Pubkey) -> bool {
    exists|round: int, turn: int|
        {
            &&& 0 <= round < schedule.schedule@.len()
            &&& 0 <= turn < 4
            &&& slot == #[trigger] slot_of(schedule.first_slot as int, round, turn)
            &&& slot < schedule.first_slot + 432_000
            &&& schedule.schedule@[round] == leader
        }
}

/// The slot with number `turn` of the round `round` of the epoch that starts at `first_slot`.
pub open spec fn slot_of(first_slot: int, round: int, turn: int) -> int {
    first_slot + 4 * round + turn
}

/// `leader` leads `slot` according to the schedules of two epochs: the next schedule counts from
/// its first slot on, the current one before it.
pub open spec fn leads_now(
    schedules: InnerManagedLeaderSchedule,
    slot: int,
    leader: Pubkey,
) -> bool {
    if slot < schedules.next.first_slot {
        leads(*schedules.current, slot, leader)
    } else {
        leads(*schedules.next, slot, leader)
    }
}

/// `answer` names whoever leads `slot`, or nobody where nobody does.
pub open spec fn tells_who_leads(
    schedules: InnerManagedLeaderSchedule,
    slot: int,
    answer: Option<Pubkey>,
) -> bool {
    match answer {
        Some(leader) => leads_now(schedules, slot, leader),
        None => forall|leader: Pubkey| !leads_now(schedules, slot, leader),
    }
}

/// What a schedule looks up is who leads the slot.
pub proof fn law_the_leader_of_a_slot_leads_it(schedule: &CompactSortedSchedule, slot: int)
    ensures
        forall|leader: Pubkey|
            schedule.leader_at(slot) == Some(leader) <==> #[trigger] leads(*schedule, slot, leader),
{
    assert forall|leader: Pubkey|
        schedule.leader_at(slot) == Some(leader) <==> #[trigger] leads(
            *schedule,
            slot,
            leader,
        ) by {
        let round = (slot - schedule.first_slot) / 4;
        let turn = (slot - schedule.first_slot) % 4;
        if schedule.leader_at(slot) == Some(leader) {
            assert(slot == slot_of(schedule.first_slot as int, round, turn));
        }
        if leads(*schedule, slot, leader) {
            let (r, t) = choose|r: int, t: int|
                {
                    &&& 0 <= r < schedule.schedule@.len()
                    &&& 0 <= t < 4
                    &&& slot == #[trigger] slot_of(schedule.first_slot as int, r, t)
                    &&& slot < schedule.first_slot + 432_000
                    &&& schedule.schedule@[r] == leader
                };
            assert(r == round);
        }
    }
}

/// What the schedules of two epochs look up is who leads the slot.
pub proof fn law_the_current_leader_of_a_slot_leads_it(
    schedules: InnerManagedLeaderSchedule,
    slot: int,
)
    ensures
        forall|leader: Pubkey|
            schedules.leader_at(slot) == Some(leader) <==> #[trigger] leads_now(
                schedules,
                slot,
                leader,
            ),
{
    law_the_leader_of_a_slot_leads_it(&schedules.current, slot);
    law_the_leader_of_a_slot_leads_it(&schedules.next, slot);
    assert forall|leader: Pubkey|
        schedules.leader_at(slot) == Some(leader) <==> #[trigger] leads_now(
            schedules,
            slot,
            leader,
        ) by {
        assert(leads(*schedules.current, slot, leader) <==> schedules.current.leader_at(slot)
            == Some(leader));
        assert(leads(*schedules.next, slot, leader) <==> schedules.next.leader_at(slot) == Some(
            leader,
        ));
    }
}

/// [`CompactSortedSchedule::get`] answers with whoever leads the slot, and with nobody exactly
/// where nobody does.
pub proof fn law_get_answers_who_leads_the_slot(
    schedule: &CompactSortedSchedule,
    slot: u64,
    answer: Option<&Pubkey>,
)
    requires
        call_ensures(CompactSortedSchedule::get, (schedule, &slot), answer),
    ensures
        answer matches Some(leader) ==> leads(*schedule, slot as int, *leader),
        answer is None ==> forall|leader: Pubkey| !#[trigger]
            leads(*schedule, slot as int, leader),
{
    law_the_leader_of_a_slot_leads_it(schedule, slot as int);
    if let Some(leader) = answer {
        assert(leads(*schedule, slot as int, *leader));
    }
}

/// The last slot of an epoch is the last of its 432000 slots.
pub proof fn law_the_last_slot_ends_the_epoch(schedule: &CompactSortedSchedule, last_slot: u64)
    requires
        schedule.first_slot + 432_000 <= u64::MAX,
        call_ensures(CompactSortedSchedule::last_slot, (schedule,), last_slot),
    ensures
        last_slot - schedule.first_slot + 1 == 432_000,
{
}

/// The listing names every slot of the schedule once, in order, each with the key of its round.
pub proof fn law_the_listing_goes_through_the_rounds<'a>(
    schedule: &'a CompactSortedSchedule,
    listing: Vec<(u64, &'a Pubkey)>,
    round: int,
    turn: int,
)
    requires
        schedule.schedule@.len() > 0 ==> schedule.first_slot + schedule.schedule@.len() * 4 - 1
            <= u64::MAX,
        call_ensures(CompactSortedSchedule::iter_unnested_schedule, (schedule,), listing),
        0 <= round < schedule.schedule@.len(),
        0 <= turn < 4,
    ensures
        listing@.len() == 4 * schedule.schedule@.len(),
        listing@[4 * round + turn].0 == schedule.first_slot + 4 * round + turn,
        *listing@[4 * round + turn].1 == schedule.schedule@[round],
{
    assert((4 * round + turn) / 4 == round);
    let pair = listing@[4 * round + turn];
}

/// The schedules of two epochs answer with whoever leads the slot, with nobody exactly where
/// nobody does, and with an error exactly where updating has failed.
pub proof fn law_get_leader_answers_who_leads_the_slot(
    schedules: &InnerManagedLeaderSchedule,
    slot: u64,
    answer: Result<Option<Pubkey>, PoisonError>,
)
    requires
        call_ensures(InnerManagedLeaderSchedule::get_leader, (schedules, slot), answer),
    ensures
        answer is Err <==> schedules.fail,
        answer matches Ok(answer) ==> tells_who_leads(*schedules, slot as int, answer),
{
    law_the_current_leader_of_a_slot_leads_it(*schedules, slot as int);
    if let Ok(Some(leader)) = answer {
        assert(leads_now(*schedules, slot as int, leader));
    }
}

/// A lookup in given schedules answers with whoever leads the slot, whether or not updating has
/// failed.
pub proof fn law_get_leader_from_schedules_answers_who_leads_the_slot(
    schedules: &InnerManagedLeaderSchedule,
    slot: u64,
    answer: Option<Pubkey>,
)
    requires
        call_ensures(ManagedLeaderSchedule::get_leader_from_schedules, (schedules, slot), answer),
    ensures
        tells_who_leads(*schedules, slot as int, answer),
{
    law_the_current_leader_of_a_slot_leads_it(*schedules, slot as int);
    if let Some(leader) = answer {
        assert(leads_now(*schedules, slot as int, leader));
    }
}

/// A lookup of several slots answers for each what a lookup of that slot does.
pub proof fn law_several_slots_are_answered_one_by_one<const N: usize>(
    schedules: &InnerManagedLeaderSchedule,
    slots: [u64; N],
    answer: Result<[Option<Pubkey>; N], PoisonError>,
    i: int,
)
    requires
        call_ensures(
            InnerManagedLeaderSchedule::get_leaders_for_slots::<N>,
            (schedules, slots),
            answer,
        ),
        0 <= i < N,
    ensures
        answer is Err <==> schedules.fail,
        answer matches Ok(leaders) ==> tells_who_leads(
            *schedules,
            slots@[i] as int,
            leaders@[i],
        ),
{
    law_the_current_leader_of_a_slot_leads_it(*schedules, slots@[i] as int);
    if let Ok(leaders) = answer {
        assert(schedules.leader_answer(slots@[i]) == Ok::<Option<Pubkey>, PoisonError>(
            leaders@[i],
        ));
        if let Some(leader) = leaders@[i] {
            assert(leads_now(*schedules, slots@[i] as int, leader));
        }
    }
}

/// A fanout over `fanout_slots` slots from `current_slot` on looks at this slot: it is one in
/// every four of the window, from the first on, and the window ends with the last slot at the
/// latest.
pub open spec fn looked_at(current_slot: int, fanout_slots: int, slot: int) -> bool {
    &&& current_slot <= slot < current_slot + fanout_slots
    &&& slot < u64::MAX
    &&& (slot - current_slot) % 4 == 0
}

/// `leader` leads a slot that the fanout looks at before any slot that `other` leads.
pub open spec fn found_before(
    schedules: InnerManagedLeaderSchedule,
    current_slot: int,
    fanout_slots: int,
    leader: Pubkey,
    other: Pubkey,
) -> bool {
    exists|slot: int|
        {
            &&& looked_at(current_slot, fanout_slots, slot)
            &&& #[trigger] leads_now(schedules, slot, leader)
            &&& forall|earlier: int|
                looked_at(current_slot, fanout_slots, earlier) && earlier <= slot ==> !#[trigger]
                    leads_now(schedules, earlier, other)
        }
}

/// `leader` leads a slot that the fanout looks at.
pub open spec fn leads_in_the_window(
    schedules: InnerManagedLeaderSchedule,
    current_slot: int,
    fanout_slots: int,
    leader: Pubkey,
) -> bool {
    exists|slot: int|
        looked_at(current_slot, fanout_slots, slot) && #[trigger] leads_now(schedules, slot, leader)
}

/// `leaders` are those who lead the slots that a fanout looks at: each of them once, in the order
/// in which they are found, and nobody else.
pub open spec fn are_the_leaders_of_the_window(
    schedules: InnerManagedLeaderSchedule,
    current_slot: int,
    fanout_slots: int,
    leaders: Seq<Pubkey>,
) -> bool {
    &&& forall|i: int|
        0 <= i < leaders.len() ==> leads_in_the_window(
            schedules,
            current_slot,
            fanout_slots,
            #[trigger] leaders[i],
        )
    &&& forall|slot: int, leader: Pubkey|
        looked_at(current_slot, fanout_slots, slot) && #[trigger] leads_now(schedules, slot, leader)
            ==> leaders.contains(leader)
    &&& forall|i: int, j: int|
        0 <= i < j < leaders.len() ==> {
            &&& #[trigger] leaders[i] != #[trigger] leaders[j]
            &&& found_before(schedules, current_slot, fanout_slots, leaders[i], leaders[j])
        }
}

/// The unique leaders of a fanout are the leaders of its window.
pub proof fn law_unique_leaders_are_the_leaders_of_the_window(
    schedules: InnerManagedLeaderSchedule,
    current_slot: u64,
    fanout_slots: u64,
)
    ensures
        are_the_leaders_of_the_window(
            schedules,
            current_slot as int,
            fanout_slots as int,
            schedules.unique_leaders(
                current_slot as int,
                crate::rpc::schedule::fanout_lookups(current_slot, fanout_slots),
            ),
        ),
{
    let from = current_slot as int;
    let wide = fanout_slots as int;
    let lookups = crate::rpc::schedule::fanout_lookups(current_slot, fanout_slots);
    let leaders = schedules.unique_leaders(from, lookups);
    crate::rpc::schedule_laws::law_fanout_leaders_are_the_unique_leaders(schedules, from, lookups);
    assert forall|k: int| 0 <= k < lookups implies #[trigger] looked_at(from, wide, from + 4 * k) by {
        assert((4 * k) % 4 == 0);
    }
    assert forall|slot: int| #[trigger] looked_at(from, wide, slot) implies 0 <= (slot - from) / 4
        < lookups && slot == from + 4 * ((slot - from) / 4) by {}
    assert forall|i: int| 0 <= i < leaders.len() implies leads_in_the_window(
        schedules,
        from,
        wide,
        #[trigger] leaders[i],
    ) by {
        let k = choose|k: int|
            0 <= k < lookups && #[trigger] schedules.leader_at(from + k * LEADER_STRIDE) == Some(
                leaders[i],
            );
        law_the_current_leader_of_a_slot_leads_it(schedules, from + 4 * k);
        assert(leads_now(schedules, from + 4 * k, leaders[i]));
        assert(looked_at(from, wide, from + 4 * k));
    }
    assert forall|slot: int, leader: Pubkey|
        looked_at(from, wide, slot) && #[trigger] leads_now(
            schedules,
            slot,
            leader,
        ) implies leaders.contains(leader) by {
        let k = (slot - from) / 4;
        law_the_current_leader_of_a_slot_leads_it(schedules, slot);
        assert(schedules.leader_at(from + k * LEADER_STRIDE) == Some(leader));
    }
    assert forall|i: int, j: int| 0 <= i < j < leaders.len() implies {
        &&& #[trigger] leaders[i] != #[trigger] leaders[j]
        &&& found_before(schedules, from, wide, leaders[i], leaders[j])
    } by {
        lemma_found_before(schedules, current_slot, fanout_slots, i, j);
    }
}

/// A unique leader of a fanout is found before those that stand behind it.
proof fn lemma_found_before(
    schedules: InnerManagedLeaderSchedule,
    current_slot: u64,
    fanout_slots: u64,
    i: int,
    j: int,
)
    requires
        0 <= i < j < schedules.unique_leaders(
            current_slot as int,
            crate::rpc::schedule::fanout_lookups(current_slot, fanout_slots),
        ).len(),
    ensures
        ({
            let leaders = schedules.unique_leaders(
                current_slot as int,
                crate::rpc::schedule::fanout_lookups(current_slot, fanout_slots),
            );
            found_before(
                schedules,
                current_slot as int,
                fanout_slots as int,
                leaders[i],
                leaders[j],
            )
        }),
{
    let from = current_slot as int;
    let wide = fanout_slots as int;
    let lookups = crate::rpc::schedule::fanout_lookups(current_slot, fanout_slots);
    let leaders = schedules.unique_leaders(from, lookups);
    crate::rpc::schedule_laws::law_fanout_leaders_come_in_the_order_of_their_slots(
        schedules,
        from,
        lookups,
        i,
        j,
    );
    let k = choose|k: int|
        {
            &&& 0 <= k < lookups
            &&& #[trigger] schedules.leader_at(from + k * LEADER_STRIDE) == Some(leaders[i])
            &&& forall|m: int|
                0 <= m <= k ==> #[trigger] schedules.leader_at(from + m * LEADER_STRIDE) != Some(
                    leaders[j],
                )
        };
    let slot = from + 4 * k;
    assert((4 * k) % 4 == 0);
    law_the_current_leader_of_a_slot_leads_it(schedules, slot);
    assert(leads_now(schedules, slot, leaders[i]));
    assert forall|earlier: int| looked_at(from, wide, earlier) && earlier <= slot implies !#[trigger]
        leads_now(schedules, earlier, leaders[j]) by {
        let m = (earlier - from) / 4;
        law_the_current_leader_of_a_slot_leads_it(schedules, earlier);
        assert(schedules.leader_at(from + m * LEADER_STRIDE) != Some(leaders[j]));
    }
}

/// A fanout names the leaders of its window, and answers with an error exactly where updating
/// has failed.
pub proof fn law_a_fanout_names_the_leaders_of_its_window(
    schedules: &InnerManagedLeaderSchedule,
    current_slot: u64,
    fanout_slots: u64,
    answer: Result<Vec<Pubkey>, PoisonError>,
)
    requires
        call_ensures(
            InnerManagedLeaderSchedule::get_unique_leaders_for_slot_fanout,
            (schedules, current_slot, fanout_slots),
            answer,
        ),
    ensures
        answer is Err <==> schedules.fail,
        answer matches Ok(leaders) ==> are_the_leaders_of_the_window(
            *schedules,
            current_slot as int,
            fanout_slots as int,
            leaders@,
        ),
{
    law_unique_leaders_are_the_leaders_of_the_window(*schedules, current_slot, fanout_slots);
}

/// A lookup under the lock answers what a read of the lock shows: who leads the slot according
/// to the schedules, or an error where updating has failed or the lock is poisoned.
pub proof fn law_a_shared_lookup_answers_what_the_lock_shows(
    shared: &ManagedLeaderSchedule,
    slot: u64,
    answer: Result<Option<Pubkey>, PoisonError>,
)
    requires
        call_ensures(ManagedLeaderSchedule::get_leader, (shared, slot), answer),
    ensures
        exists|shown: Option<InnerManagedLeaderSchedule>| #[trigger]
            shared.reads(shown) && match (shown, answer) {
                (Some(schedules), Ok(answer)) => !schedules.fail && tells_who_leads(
                    schedules,
                    slot as int,
                    answer,
                ),
                (Some(schedules), Err(_)) => schedules.fail,
                (None, _) => answer is Err,
            },
{
    let shown = choose|shown: Option<InnerManagedLeaderSchedule>| #[trigger]
        shared.reads(shown) && answer == match shown {
            Some(schedules) => schedules.leader_answer(slot),
            None => Err(PoisonError),
        };
    if let Some(schedules) = shown {
        law_the_current_leader_of_a_slot_leads_it(schedules, slot as int);
        if let Ok(Some(leader)) = answer {
            assert(leads_now(schedules, slot as int, leader));
        }
    }
}

/// `answers` name whoever leads each of the slots.
pub open spec fn tells_who_leads_each(
    schedules: InnerManagedLeaderSchedule,
    slots: Seq<u64>,
    answers: Seq<Option<Pubkey>>,
) -> bool {
    &&& answers.len() == slots.len()
    &&& forall|i: int|
        0 <= i < slots.len() ==> tells_who_leads(
            schedules,
            slots[i] as int,
            #[trigger] answers[i],
        )
}

/// A lookup of several slots under the lock answers what one read of the lock shows for each of
/// them.
pub proof fn law_a_shared_lookup_of_several_slots_answers_what_the_lock_shows<const N: usize>(
    shared: &ManagedLeaderSchedule,
    slots: [u64; N],
    answer: Result<[Option<Pubkey>; N], PoisonError>,
)
    requires
        call_ensures(
            ManagedLeaderSchedule::get_leaders_for_slots::<N>,
            (shared, slots),
            answer,
        ),
    ensures
        exists|shown: Option<InnerManagedLeaderSchedule>| #[trigger]
            shared.reads(shown) && match (shown, answer) {
                (Some(schedules), Ok(leaders)) => !schedules.fail && tells_who_leads_each(
                    schedules,
                    slots@,
                    leaders@,
                ),
                (Some(schedules), Err(_)) => schedules.fail,
                (None, _) => answer is Err,
            },
{
    let shown = choose|shown: Option<InnerManagedLeaderSchedule>| #[trigger]
        shared.reads(shown) && match shown {
            Some(schedules) => {
                &&& answer is Err <==> schedules.fail
                &&& answer matches Ok(leaders) ==> forall|i: int|
                    0 <= i < N ==> schedules.leader_answer(slots@[i]) == Ok::<_, PoisonError>(
                        #[trigger] leaders@[i],
                    )
            },
            None => answer is Err,
        };
    if let (Some(schedules), Ok(leaders)) = (shown, answer) {
        assert forall|i: int| 0 <= i < N implies tells_who_leads(
            schedules,
            slots@[i] as int,
            #[trigger] leaders@[i],
        ) by {
            law_the_current_leader_of_a_slot_leads_it(schedules, slots@[i] as int);
            assert(schedules.leader_answer(slots@[i]) == Ok::<Option<Pubkey>, PoisonError>(
                leaders@[i],
            ));
            if let Some(leader) = leaders@[i] {
                assert(leads_now(schedules, slots@[i] as int, leader));
            }
        }
    }
}

/// A fanout under the lock names the leaders of its window according to what a read of the lock
/// shows.
pub proof fn law_a_shared_fanout_answers_what_the_lock_shows(
    shared: &ManagedLeaderSchedule,
    current_slot: u64,
    fanout_slots: u64,
    answer: Result<Vec<Pubkey>, PoisonError>,
)
    requires
        call_ensures(
            ManagedLeaderSchedule::get_unique_leaders_for_slot_fanout,
            (shared, current_slot, fanout_slots),
            answer,
        ),
    ensures
        exists|shown: Option<InnerManagedLeaderSchedule>| #[trigger]
            shared.reads(shown) && match (shown, answer) {
                (Some(schedules), Ok(leaders)) => !schedules.fail && are_the_leaders_of_the_window(
                    schedules,
                    current_slot as int,
                    fanout_slots as int,
                    leaders@,
                ),
                (Some(schedules), Err(_)) => schedules.fail,
                (None, _) => answer is Err,
            },
{
    let shown = choose|shown: Option<InnerManagedLeaderSchedule>| #[trigger]
        shared.reads(shown) && match shown {
            Some(schedules) => {
                &&& answer is Err <==> schedules.fail
                &&& answer matches Ok(leaders) ==> leaders@ == schedules.unique_leaders(
                    current_slot as int,
                    crate::rpc::schedule::fanout_lookups(current_slot, fanout_slots),
                )
            },
            None => answer is Err,
        };
    if let Some(schedules) = shown {
        law_unique_leaders_are_the_leaders_of_the_window(schedules, current_slot, fanout_slots);
    }
}

/// The epoch that a managed schedule or its writer reports is the one whose slots the current
/// schedule starts with.
pub proof fn law_the_reported_epoch_holds_the_first_slot(
    shared: &ManagedLeaderSchedule,
    shared_epoch: Option<u64>,
    writer: &ScheduleWriter,
    epoch: u64,
)
    requires
        call_ensures(ManagedLeaderSchedule::current_epoch, (shared,), shared_epoch),
        writer.wf(),
        call_ensures(ScheduleWriter::current_epoch, (writer,), epoch),
    ensures
        epoch * 432_000 <= writer.schedules().current.first_slot < (epoch + 1) * 432_000,
        exists|shown: Option<InnerManagedLeaderSchedule>| #[trigger]
            shared.reads(shown) && match (shown, shared_epoch) {
                (Some(schedules), Some(epoch)) => epoch * 432_000 <= schedules.current.first_slot < (
                epoch + 1) * 432_000,
                (None, None) => true,
                _ => false,
            },
{
    let shown = choose|shown: Option<InnerManagedLeaderSchedule>| #[trigger]
        shared.reads(shown) && shared_epoch == match shown {
            Some(schedules) => Some(schedules.current.epoch()),
            None => None,
        };
    assert(shared.reads(shown));
}

/// What a write under the lock leaves behind.
pub proof fn law_publishing_changes_what_it_names()
    ensures
        forall|writer: &mut ScheduleWriter, next: CompactSortedSchedule, done: bool| #[trigger]
            call_ensures(ScheduleWriter::publish_next, (writer, next), done) && writer.wf() ==> {
                let before = writer.schedules();
                let after = final(writer).schedules();
                &&& final(writer).wf()
                &&& final(writer).shared() == writer.shared()
                &&& final(writer).writes().len() == writer.writes().len() + 1
                &&& after.current == before.current
                &&& after.fail == before.fail
                &&& done ==> *after.next == next
                &&& !done ==> after.next == before.next
            },
        forall|
            writer: &mut ScheduleWriter,
            current: CompactSortedSchedule,
            next: CompactSortedSchedule,
            done: bool,
        | #[trigger]
            call_ensures(ScheduleWriter::publish_both, (writer, current, next), done)
                && writer.wf() ==> {
                let before = writer.schedules();
                let after = final(writer).schedules();
                &&& final(writer).wf()
                &&& final(writer).shared() == writer.shared()
                &&& final(writer).writes().len() == writer.writes().len() + 1
                &&& after.fail == before.fail
                &&& done ==> *after.current == current && *after.next == next
                &&& !done ==> after == before
            },
        forall|writer: &mut ScheduleWriter, done: bool| #[trigger]
            call_ensures(ScheduleWriter::mark_failed, (writer,), done) && writer.wf() ==> {
                let before = writer.schedules();
                let after = final(writer).schedules();
                &&& final(writer).wf()
                &&& final(writer).shared() == writer.shared()
                &&& final(writer).writes().len() == writer.writes().len() + 1
                &&& after.current == before.current
                &&& after.next == before.next
                &&& done ==> after.fail
                &&& !done ==> after.fail == before.fail
            },
{
    assert forall|writer: &mut ScheduleWriter, next: CompactSortedSchedule, done: bool| #[trigger]
        call_ensures(ScheduleWriter::publish_next, (writer, next), done)
            && writer.wf() implies {
        let before = writer.schedules();
        let after = final(writer).schedules();
        &&& final(writer).wf()
        &&& final(writer).shared() == writer.shared()
        &&& final(writer).writes().len() == writer.writes().len() + 1
        &&& after.current == before.current
        &&& after.fail == before.fail
        &&& done ==> *after.next == next
        &&& !done ==> after.next == before.next
    } by {
        assert(final(writer).writes().drop_last() =~= writer.writes());
    }
    assert forall|
        writer: &mut ScheduleWriter,
        current: CompactSortedSchedule,
        next: CompactSortedSchedule,
        done: bool,
    | #[trigger]
        call_ensures(ScheduleWriter::publish_both, (writer, current, next), done)
            && writer.wf() implies {
        let before = writer.schedules();
        let after = final(writer).schedules();
        &&& final(writer).wf()
        &&& final(writer).shared() == writer.shared()
        &&& final(writer).writes().len() == writer.writes().len() + 1
        &&& after.fail == before.fail
        &&& done ==> *after.current == current && *after.next == next
        &&& !done ==> after == before
    } by {
        assert(final(writer).writes().drop_last() =~= writer.writes());
    }
    assert forall|writer: &mut ScheduleWriter, done: bool| #[trigger]
        call_ensures(ScheduleWriter::mark_failed, (writer,), done) && writer.wf() implies {
        let before = writer.schedules();
        let after = final(writer).schedules();
        &&& final(writer).wf()
        &&& final(writer).shared() == writer.shared()
        &&& final(writer).writes().len() == writer.writes().len() + 1
        &&& after.current == before.current
        &&& after.next == before.next
        &&& done ==> after.fail
        &&& !done ==> after.fail == before.fail
    } by {
        assert(final(writer).writes().drop_last() =~= writer.writes());
    }
}

/// A schedule to be updated starts out with the given schedules, which are kept up to date, and
/// its reader reads the same lock.
pub proof fn law_a_writer_starts_with_the_given_schedules(
    current: CompactSortedSchedule,
    next: CompactSortedSchedule,
    writer: ScheduleWriter,
    reader: ManagedLeaderSchedule,
)
    requires
        call_ensures(ScheduleWriter::start, (current, next), writer),
        call_ensures(ScheduleWriter::reader, (&writer,), reader),
    ensures
        writer.wf(),
        reader == writer.shared(),
        *writer.schedules().current == current,
        *writer.schedules().next == next,
        !writer.schedules().fail,
        writer.shared().made_with(writer.schedules()),
{
}

/// What a managed schedule is made to hold: the given schedules, which are kept up to date.
pub proof fn law_a_managed_schedule_is_made_of_the_given_schedules(
    current: CompactSortedSchedule,
    next: CompactSortedSchedule,
    shared: ManagedLeaderSchedule,
)
    requires
        call_ensures(ManagedLeaderSchedule::new, (current, next), shared),
    ensures
        exists|schedules: InnerManagedLeaderSchedule|
            {
                &&& #[trigger] shared.made_with(schedules)
                &&& *schedules.current == current
                &&& *schedules.next == next
                &&& !schedules.fail
            },
{
    assert(shared.made_with(InnerManagedLeaderSchedule::fresh(current, next)));
}

/// A lock holds the value of the last write that was done, or what it was made to hold where
/// none was.
pub proof fn law_a_lock_holds_what_was_written_last<T>(
    initial: T,
    writes: Seq<crate::sync::LockWrite<T>>,
)
    ensures
        forall|i: int|
            0 <= i < writes.len() && (#[trigger] writes[i]).done && (forall|j: int|
                i < j < writes.len() ==> !(#[trigger] writes[j]).done) ==> crate::sync::held_after(
                initial,
                writes,
            ) == writes[i].value,
        (forall|i: int| 0 <= i < writes.len() ==> !(#[trigger] writes[i]).done)
            ==> crate::sync::held_after(initial, writes) == initial,
    decreases writes.len(),
{
    if writes.len() > 0 {
        let rest = writes.drop_last();
        let last = writes.len() - 1;
        law_a_lock_holds_what_was_written_last(initial, rest);
        assert(writes[last] == writes.last());
        if !writes.last().done {
            assert forall|i: int|
                0 <= i < writes.len() && (#[trigger] writes[i]).done && (forall|j: int|
                    i < j < writes.len() ==> !(
                    #[trigger] writes[j]).done) implies crate::sync::held_after(initial, writes)
                == writes[i].value by {
                assert(rest[i] == writes[i]);
                assert forall|j: int| i < j < rest.len() implies !(#[trigger] rest[j]).done by {
                    assert(rest[j] == writes[j]);
                }
            }
            if forall|i: int| 0 <= i < writes.len() ==> !(#[trigger] writes[i]).done {
                assert forall|i: int| 0 <= i < rest.len() implies !(#[trigger] rest[i]).done by {
                    assert(rest[i] == writes[i]);
                }
            }
        } else {
            assert forall|i: int|
                0 <= i < writes.len() && (#[trigger] writes[i]).done && (forall|j: int|
                    i < j < writes.len() ==> !(
                    #[trigger] writes[j]).done) implies crate::sync::held_after(initial, writes)
                == writes[i].value by {
                if i < last {
                    assert(!writes[last].done);
                }
            }
        }
    }
}

/// A clone of a schedule has the same leaders for the same slots.
pub proof fn law_a_cloned_schedule_has_the_same_leaders(
    schedule: &CompactSortedSchedule,
    copy: CompactSortedSchedule,
    slot: int,
    leader: Pubkey,
)
    requires
        call_ensures(CompactSortedSchedule::clone, (schedule,), copy),
    ensures
        leads(copy, slot, leader) <==> leads(*schedule, slot, leader),
{
}

} // verus!
