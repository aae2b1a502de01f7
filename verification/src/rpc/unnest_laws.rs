//! What unnesting makes of a leader schedule, in terms of the names and the slot indices that the
//! schedule lists.
//!
//! An epoch has 432000 slots, in 108000 rounds of four.

use crate::pubkey::Pubkey;
use crate::rpc::schedule::{
    accept_schedule, checked_unnest_rpc_get_leader_schedule_resp, leader_entries,
    next_epoch_first_slot, unnest_leader_entries, unnest_rpc_get_leader_schedule_resp,
    CompactSortedSchedule, LeaderEntry, SpawnManagedLeaderScheduleError,
};
use vstd::prelude::*;

verus! {

/// The schedule is that of the epoch which holds `slot`: it starts with the first slot of an
/// epoch, and `slot` is one of the 432000 slots from there on.
pub open spec fn is_of_the_epoch_of(schedule: CompactSortedSchedule, slot: u64) -> bool {
    &&& schedule.first_slot % 432_000 == 0
    &&& schedule.first_slot <= slot < schedule.first_slot + 432_000
}

/// The indices hold that of the first slot of the round.
pub open spec fn has_first_slot_of(slots: Seq<usize>, round: int) -> bool {
    exists|i: int| 0 <= i < slots.len() && #[trigger] slots[i] == 4 * round
}

/// The entry gives the round to `key`.
pub open spec fn gives_round_to<'a>(entry: LeaderEntry<'a>, round: int, key: Pubkey) -> bool {
    entry.leader == Some(key) && has_first_slot_of(entry.slots@, round)
}

/// The text is a name of the key.
pub open spec fn is_name_of(text: Seq<char>, key: Pubkey) -> bool {
    crate::pubkey::pubkey_from_base58(text) == Some(key.bytes@)
}

/// The line of an RPC response gives the round to `key`.
pub open spec fn line_gives_round_to(
    line: (String, Vec<usize>),
    round: int,
    key: Pubkey,
) -> bool {
    is_name_of(line.0@, key) && has_first_slot_of(line.1@, round)
}

/// The key of thirty-two zero bytes.
pub open spec fn is_zero(key: Pubkey) -> bool {
    forall|i: int| 0 <= i < 32 ==> #[trigger] key.bytes@[i] == 0
}

proof fn lemma_zero()
    ensures
        is_zero(Pubkey::zero()),
{
    let bytes = Seq::new(32, |i: int| 0u8);
    let key = Pubkey { bytes: vstd::array::spec_array_fill_for_copy_type::<u8, 32>(0u8) };
    broadcast use vstd::array::group_array_axioms;

    assert(key.bytes@ =~= bytes);
    Pubkey::lemma_of_bytes(key);
}

/// The leader of a round, from the entries that give it to somebody.
proof fn lemma_round_leader<'a>(entries: Seq<LeaderEntry<'a>>, round: int)
    ensures
        forall|e: int, key: Pubkey|
            0 <= e < entries.len() && #[trigger] gives_round_to(entries[e], round, key) && (forall|
                f: int,
                other: Pubkey,
            |
                e < f < entries.len() ==> !#[trigger] gives_round_to(entries[f], round, other))
                ==> crate::rpc::schedule::round_leader(entries, round) == key,
        (forall|e: int, key: Pubkey|
            0 <= e < entries.len() ==> !#[trigger] gives_round_to(entries[e], round, key))
            ==> is_zero(crate::rpc::schedule::round_leader(entries, round)),
    decreases entries.len(),
{
    if entries.len() == 0 {
        lemma_zero();
    } else {
        let rest = entries.drop_last();
        let last = entries.len() - 1;
        assert(entries[last] == entries.last());
        lemma_round_leader(rest, round);
        assert(entries[last].claims(round) <==> entries[last].leader is Some && has_first_slot_of(
            entries[last].slots@,
            round,
        )) by {
            if has_first_slot_of(entries[last].slots@, round) {
                let i = choose|i: int|
                    0 <= i < entries[last].slots@.len() && #[trigger] entries[last].slots@[i] == 4
                        * round;
                assert(entries[last].slots@[i] == round * 4);
            }
        }
        if entries[last].claims(round) {
            assert(gives_round_to(entries[last], round, entries[last].leader->0));
        } else {
            assert forall|e: int, key: Pubkey|
                0 <= e < entries.len() && #[trigger] gives_round_to(entries[e], round, key) && (
                forall|f: int, other: Pubkey|
                    e < f < entries.len() ==> !#[trigger] gives_round_to(
                        entries[f],
                        round,
                        other,
                    )) implies crate::rpc::schedule::round_leader(entries, round) == key by {
                assert(e < last);
                assert(gives_round_to(rest[e], round, key));
                assert forall|f: int, other: Pubkey| e < f < rest.len() implies !#[trigger]
                    gives_round_to(rest[f], round, other) by {
                    assert(!gives_round_to(entries[f], round, other));
                }
            }
            if forall|e: int, key: Pubkey|
                0 <= e < entries.len() ==> !#[trigger] gives_round_to(entries[e], round, key) {
                assert forall|e: int, key: Pubkey| 0 <= e < rest.len() implies !#[trigger]
                    gives_round_to(rest[e], round, key) by {
                    assert(!gives_round_to(entries[e], round, key));
                }
            }
        }
    }
}

/// Unnesting entries at `slot` makes the schedule of the epoch of that slot. Each round goes to
/// the key of the last entry that gives it to somebody, and to the zero key where none does.
pub proof fn law_unnested_entries_make_the_schedule_of_the_slot<'a>(
    slot: u64,
    entries: Vec<LeaderEntry<'a>>,
    schedule: CompactSortedSchedule,
    round: int,
)
    requires
        crate::rpc::schedule::entries_in_range(entries@),
        call_ensures(unnest_leader_entries, (slot, &entries), schedule),
        0 <= round < 108_000,
    ensures
        is_of_the_epoch_of(schedule, slot),
        schedule.schedule@.len() == 108_000,
        forall|e: int, key: Pubkey|
            0 <= e < entries@.len() && #[trigger] gives_round_to(entries@[e], round, key) && (
            forall|f: int, other: Pubkey|
                e < f < entries@.len() ==> !#[trigger] gives_round_to(entries@[f], round, other))
                ==> schedule.schedule@[round] == key,
        (forall|e: int, key: Pubkey|
            0 <= e < entries@.len() ==> !#[trigger] gives_round_to(entries@[e], round, key))
            ==> is_zero(schedule.schedule@[round]),
{
    lemma_round_leader(entries@, round);
    assert(schedule.schedule@[round] == crate::rpc::schedule::round_leader(entries@, round));
}

/// A schedule that was unnested at a slot is that of the slot's epoch, whatever the entries are.
pub proof fn law_an_unnested_schedule_holds_its_slot<'a>(
    slot: u64,
    entries: Seq<LeaderEntry<'a>>,
    schedule: CompactSortedSchedule,
)
    requires
        crate::rpc::schedule::unnests_to(slot, entries, schedule),
    ensures
        is_of_the_epoch_of(schedule, slot),
        schedule.schedule@.len() == 108_000,
        schedule.leader_at(slot as int) is Some,
{
}

/// Two schedules that were unnested at slots of one epoch start with the same slot, and those of
/// different epochs lie apart.
pub proof fn law_slots_of_one_epoch_have_one_schedule<'a>(
    slot: u64,
    other_slot: u64,
    entries: Seq<LeaderEntry<'a>>,
    schedule: CompactSortedSchedule,
    other: CompactSortedSchedule,
)
    requires
        crate::rpc::schedule::unnests_to(slot, entries, schedule),
        crate::rpc::schedule::unnests_to(other_slot, entries, other),
    ensures
        slot / 432_000 == other_slot / 432_000 <==> schedule.first_slot == other.first_slot,
        slot / 432_000 < other_slot / 432_000 <==> schedule.first_slot + 432_000
            <= other.first_slot,
{
}

/// Each line of an RPC response becomes an entry with the key that its name stands for, where it
/// stands for one, and with its slot indices.
pub proof fn law_entries_are_the_lines_of_the_response<'a>(
    resp: &'a Vec<(String, Vec<usize>)>,
    entries: Vec<LeaderEntry<'a>>,
    i: int,
)
    requires
        call_ensures(leader_entries, (resp,), entries),
        0 <= i < resp@.len(),
    ensures
        entries@.len() == resp@.len(),
        entries@[i].slots@ == resp@[i].1@,
        forall|key: Pubkey|
            entries@[i].leader == Some(key) <==> #[trigger] is_name_of(resp@[i].0@, key),
{
    lemma_parsed(resp@[i].0@);
}

/// What a text is parsed to.
proof fn lemma_parsed(text: Seq<char>)
    requires
        Pubkey::parsed(text) matches Some(key) ==> is_name_of(text, key),
    ensures
        forall|key: Pubkey|
            #[trigger] is_name_of(text, key) <==> Pubkey::parsed(text) == Some(key),
{
    assert forall|key: Pubkey| #[trigger] is_name_of(text, key) implies Pubkey::parsed(text) == Some(
        key,
    ) by {
        Pubkey::lemma_of_bytes(key);
    }
}

/// The entries of a response give a round to whom its lines give it.
proof fn lemma_lines(resp: &Vec<(String, Vec<usize>)>, round: int)
    requires
        crate::rpc::schedule::names_are_of_their_keys(resp),
    ensures
        forall|e: int, key: Pubkey|
            0 <= e < resp@.len() ==> (#[trigger] gives_round_to(
                crate::rpc::schedule::entries_of(resp)[e],
                round,
                key,
            ) <==> line_gives_round_to(resp@[e], round, key)),
{
    assert forall|e: int, key: Pubkey| 0 <= e < resp@.len() implies (#[trigger] gives_round_to(
        crate::rpc::schedule::entries_of(resp)[e],
        round,
        key,
    ) <==> line_gives_round_to(resp@[e], round, key)) by {
        lemma_parsed(resp@[e].0@);
        assert(is_name_of(resp@[e].0@, key) <==> Pubkey::parsed(resp@[e].0@) == Some(key));
    }
}

/// The schedule is what the lines of the response say of the epoch of `slot`: each round has the
/// key of the last line that gives it to somebody, and the zero key where none does.
pub open spec fn is_what_the_lines_say(
    slot: u64,
    resp: Seq<(String, Vec<usize>)>,
    schedule: CompactSortedSchedule,
) -> bool {
    &&& is_of_the_epoch_of(schedule, slot)
    &&& schedule.schedule@.len() == 108_000
    &&& forall|round: int|
        0 <= round < 108_000 ==> has_the_key_of_the_last_line(
            resp,
            round,
            #[trigger] schedule.schedule@[round],
        )
}

/// `leader` is the key of the last line that gives the round to somebody, or the zero key where
/// none does.
pub open spec fn has_the_key_of_the_last_line(
    resp: Seq<(String, Vec<usize>)>,
    round: int,
    leader: Pubkey,
) -> bool {
    &&& forall|e: int, key: Pubkey|
        0 <= e < resp.len() && #[trigger] line_gives_round_to(resp[e], round, key) && (forall|
            f: int,
            other: Pubkey,
        |
            e < f < resp.len() ==> !#[trigger] line_gives_round_to(resp[f], round, other))
            ==> leader == key
    &&& (forall|e: int, key: Pubkey|
        0 <= e < resp.len() ==> !#[trigger] line_gives_round_to(resp[e], round, key)) ==> is_zero(
        leader,
    )
}

/// The lines of a response make the schedule.
proof fn lemma_what_the_lines_say(
    slot: u64,
    resp: &Vec<(String, Vec<usize>)>,
    schedule: CompactSortedSchedule,
)
    requires
        crate::rpc::schedule::names_are_of_their_keys(resp),
        crate::rpc::schedule::unnests_to(
            slot,
            crate::rpc::schedule::entries_of(resp),
            schedule,
        ),
    ensures
        is_what_the_lines_say(slot, resp@, schedule),
{
    let entries = crate::rpc::schedule::entries_of(resp);
    assert forall|round: int| 0 <= round < 108_000 implies has_the_key_of_the_last_line(
        resp@,
        round,
        #[trigger] schedule.schedule@[round],
    ) by {
        lemma_lines(resp, round);
        lemma_round_leader(entries, round);
        let leader = schedule.schedule@[round];
        assert(leader == crate::rpc::schedule::round_leader(entries, round));
        assert forall|e: int, key: Pubkey|
            0 <= e < resp@.len() && #[trigger] line_gives_round_to(resp@[e], round, key) && (forall|
                f: int,
                other: Pubkey,
            |
                e < f < resp@.len() ==> !#[trigger] line_gives_round_to(
                    resp@[f],
                    round,
                    other,
                )) implies leader == key by {
            assert(gives_round_to(entries[e], round, key));
            assert forall|f: int, other: Pubkey| e < f < entries.len() implies !#[trigger]
                gives_round_to(entries[f], round, other) by {
                assert(!line_gives_round_to(resp@[f], round, other));
            }
        }
        if forall|e: int, key: Pubkey|
            0 <= e < resp@.len() ==> !#[trigger] line_gives_round_to(resp@[e], round, key) {
            assert forall|e: int, key: Pubkey| 0 <= e < entries.len() implies !#[trigger]
                gives_round_to(entries[e], round, key) by {
                assert(!line_gives_round_to(resp@[e], round, key));
            }
        }
    }
}

/// Unnesting an RPC response at `slot` makes what its lines say of the epoch of that slot.
pub proof fn law_an_unnested_response_is_what_its_lines_say(
    slot: u64,
    resp: &Vec<(String, Vec<usize>)>,
    schedule: CompactSortedSchedule,
)
    requires
        crate::rpc::schedule::entries_in_range(crate::rpc::schedule::entries_of(resp)),
        call_ensures(unnest_rpc_get_leader_schedule_resp, (slot, resp), schedule),
    ensures
        is_what_the_lines_say(slot, resp@, schedule),
{
    lemma_what_the_lines_say(slot, resp, schedule);
}

/// The line is one of the epoch: where its name is that of a key, the first slot of each round
/// that it lists is one of the 432000 slots.
pub open spec fn is_line_of_the_epoch(line: (String, Vec<usize>)) -> bool {
    forall|key: Pubkey, i: int|
        #[trigger] is_name_of(line.0@, key) && 0 <= i < line.1@.len() && (
        #[trigger] line.1@[i]) % 4 == 0 ==> line.1@[i] < 432_000
}

/// The checked unnesting refuses a response exactly where a line of it is not one of the epoch,
/// and makes of the others what their lines say.
pub proof fn law_a_checked_response_is_refused_or_what_its_lines_say(
    slot: u64,
    resp: &Vec<(String, Vec<usize>)>,
    answer: Option<CompactSortedSchedule>,
)
    requires
        call_ensures(checked_unnest_rpc_get_leader_schedule_resp, (slot, resp), answer),
    ensures
        answer is Some <==> forall|e: int|
            0 <= e < resp@.len() ==> is_line_of_the_epoch(#[trigger] resp@[e]),
        answer matches Some(schedule) ==> is_what_the_lines_say(slot, resp@, schedule),
{
    let entries = crate::rpc::schedule::entries_of(resp);
    if let Some(schedule) = answer {
        lemma_what_the_lines_say(slot, resp, schedule);
    }
    assert forall|e: int| 0 <= e < resp@.len() implies (is_line_of_the_epoch(#[trigger] resp@[e])
        <==> entries[e].in_range()) by {
        lemma_parsed(resp@[e].0@);
        if !entries[e].in_range() {
            let key = entries[e].leader->0;
            assert(is_name_of(resp@[e].0@, key));
            let i = choose|i: int|
                0 <= i < entries[e].slots@.len() && (#[trigger] entries[e].slots@[i]) % 4 == 0
                    && entries[e].slots@[i] >= 432_000;
            assert(resp@[e].1@[i] % 4 == 0);
            assert(!is_line_of_the_epoch(resp@[e]));
        }
        if !is_line_of_the_epoch(resp@[e]) {
            let (key, i) = choose|key: Pubkey, i: int|
                #[trigger] is_name_of(resp@[e].0@, key) && 0 <= i < resp@[e].1@.len() && (
                #[trigger] resp@[e].1@[i]) % 4 == 0 && resp@[e].1@[i] >= 432_000;
            assert(entries[e].leader == Some(key));
            assert(entries[e].slots@[i] % 4 == 0);
        }
    }
    if crate::rpc::schedule::entries_in_range(entries) {
        assert forall|e: int| 0 <= e < resp@.len() implies is_line_of_the_epoch(
            #[trigger] resp@[e],
        ) by {
            assert(entries[e].in_range());
        }
    }
    if forall|e: int| 0 <= e < resp@.len() ==> is_line_of_the_epoch(#[trigger] resp@[e]) {
        assert forall|e: int| 0 <= e < entries.len() implies (#[trigger] entries[e]).in_range() by {
            assert(is_line_of_the_epoch(resp@[e]));
        }
    }
}

/// The next epoch starts with the first slot of an epoch, which comes after every slot of the
/// epoch that the schedule starts in, and at once after them.
pub proof fn law_the_next_epoch_starts_where_the_current_one_ends(
    schedule: &CompactSortedSchedule,
    first_slot: u64,
)
    requires
        (schedule.first_slot / 432_000 + 1) * 432_000 <= u64::MAX,
        call_ensures(next_epoch_first_slot, (schedule,), first_slot),
    ensures
        first_slot % 432_000 == 0,
        first_slot - 432_000 <= schedule.first_slot < first_slot,
{
}

/// A schedule that was found is accepted as it is; where there is none, the error names the slot
/// that was asked for, and a failed request is handed on.
pub proof fn law_a_found_schedule_is_accepted<E>(
    slot_ctx: Option<u64>,
    fetched: Result<Option<CompactSortedSchedule>, E>,
    answer: Result<CompactSortedSchedule, SpawnManagedLeaderScheduleError<E>>,
)
    requires
        call_ensures(accept_schedule::<E>, (slot_ctx, fetched), answer),
    ensures
        answer is Ok <==> fetched is Ok && fetched->Ok_0 is Some,
        answer is Ok ==> Some(answer->Ok_0) == fetched->Ok_0,
        answer matches Err(SpawnManagedLeaderScheduleError::LeaderScheduleUnavailable(slot))
            ==> fetched is Ok && slot == slot_ctx,
        answer matches Err(SpawnManagedLeaderScheduleError::Client(error)) ==> fetched == Err::<
            Option<CompactSortedSchedule>,
            E,
        >(error),
{
}

} // verus!
