//! What holds of leader schedules as a whole.

use crate::pubkey::Pubkey;
use crate::rpc::schedule::{
    CompactSortedSchedule, InnerManagedLeaderSchedule, LeaderEntry, DEFAULT_SLOTS_PER_EPOCH, LEADER_STRIDE, ROUNDS_PER_EPOCH,
};
use vstd::prelude::*;

verus! {

/// The listing of a schedule and the lookup by slot agree: each listed slot is led by the
/// leader that stands beside it.
pub proof fn law_listing_agrees_with_lookup(schedule: CompactSortedSchedule, i: int)
    requires
        schedule.schedule@.len() <= ROUNDS_PER_EPOCH,
        schedule.first_slot + schedule.schedule@.len() * LEADER_STRIDE - 1 <= u64::MAX,
        0 <= i < schedule.unnested().len(),
    ensures
        schedule.leader_at(schedule.unnested()[i].0 as int) == Some(schedule.unnested()[i].1),
{
}

/// A leader leads four slots in a row: slots of one round have one leader.
pub proof fn law_rounds_share_a_leader(schedule: &CompactSortedSchedule, slot: int, other: int)
    requires
        schedule.first_slot <= slot,
        schedule.first_slot <= other,
        (slot - schedule.first_slot) / 4 == (other - schedule.first_slot) / 4,
    ensures
        schedule.leader_at(slot) == schedule.leader_at(other),
{
}

/// A schedule names no leader outside its epoch.
pub proof fn law_no_leader_outside_the_epoch(schedule: CompactSortedSchedule, slot: int)
    requires
        slot < schedule.first_slot || slot >= schedule.first_slot + DEFAULT_SLOTS_PER_EPOCH,
    ensures
        schedule.leader_at(slot) is None,
{
}

/// Where one entry claims a round and every other claim on it names the same leader, that is
/// the leader of the round.
proof fn lemma_claimed_round<'a>(entries: Seq<LeaderEntry<'a>>, e: int, round: int)
    requires
        0 <= e < entries.len(),
        entries[e].claims(round),
        forall|other: int|
            0 <= other < entries.len() && (#[trigger] entries[other]).claims(round)
                ==> entries[other].leader == entries[e].leader,
    ensures
        Some(crate::rpc::schedule::round_leader(entries, round)) == entries[e].leader,
    decreases entries.len(),
{
    let last = entries.len() - 1;
    assert(entries.last() == entries[last]);
    if !entries.last().claims(round) {
        let rest = entries.drop_last();
        assert forall|other: int|
            0 <= other < rest.len() && (#[trigger] rest[other]).claims(
                round,
            ) implies rest[other].leader == rest[e].leader by {
            assert(rest[other] == entries[other]);
        }
        lemma_claimed_round(rest, e, round);
    }
}

/// Unnesting keeps the assignment: where an entry with a valid key lists a whole round and no
/// entry of another key claims it, each of the round's slots is listed with that key.
pub proof fn law_unnesting_keeps_the_assignment<'a>(
    slot: u64,
    entries: Seq<LeaderEntry<'a>>,
    schedule: CompactSortedSchedule,
    e: int,
    slot_idx: int,
)
    requires
        crate::rpc::schedule::unnests_to(slot, entries, schedule),
        schedule.first_slot + DEFAULT_SLOTS_PER_EPOCH - 1 <= u64::MAX,
        0 <= e < entries.len(),
        0 <= slot_idx < DEFAULT_SLOTS_PER_EPOCH,
        entries[e].claims(slot_idx / 4),
        forall|other: int|
            0 <= other < entries.len() && (#[trigger] entries[other]).claims(slot_idx / 4)
                ==> entries[other].leader == entries[e].leader,
    ensures
        schedule.unnested()[slot_idx].0 == crate::rpc::schedule::epoch_start(slot as int)
            + slot_idx,
        Some(schedule.unnested()[slot_idx].1) == entries[e].leader,
{
    lemma_claimed_round(entries, e, slot_idx / 4);
    assert(schedule.schedule@[slot_idx / 4] == crate::rpc::schedule::round_leader(
        entries,
        slot_idx / 4,
    ));
}

/// Unnesting invents no leader: each round has the default key, or the key of an entry that
/// claims it.
pub proof fn law_unnesting_invents_no_leader<'a>(entries: Seq<LeaderEntry<'a>>, round: int)
    ensures
        ({
            let leader = crate::rpc::schedule::round_leader(entries, round);
            ||| leader == Pubkey::zero() && forall|e: int|
                0 <= e < entries.len() ==> !(#[trigger] entries[e]).claims(round)
            ||| exists|e: int|
                0 <= e < entries.len() && (#[trigger] entries[e]).claims(round)
                    && entries[e].leader == Some(leader)
        }),
    decreases entries.len(),
{
    if entries.len() > 0 {
        let last = entries.len() - 1;
        assert(entries[last] == entries.last());
        if !entries.last().claims(round) {
            let rest = entries.drop_last();
            law_unnesting_invents_no_leader(rest, round);
            let leader = crate::rpc::schedule::round_leader(rest, round);
            if exists|e: int|
                0 <= e < rest.len() && (#[trigger] rest[e]).claims(round) && rest[e].leader
                    == Some(leader) {
                let e = choose|e: int|
                    0 <= e < rest.len() && (#[trigger] rest[e]).claims(round) && rest[e].leader
                        == Some(leader);
                assert(entries[e] == rest[e]);
            } else {
                assert forall|e: int| 0 <= e < entries.len() implies !(
                #[trigger] entries[e]).claims(round) by {
                    if e < last {
                        assert(entries[e] == rest[e]);
                    }
                }
            }
        }
    }
}

/// Entries whose names are not valid keys change nothing: unnesting skips them all.
pub proof fn law_invalid_entries_are_skipped<'a>(entries: Seq<LeaderEntry<'a>>, round: int)
    ensures
        crate::rpc::schedule::round_leader(entries, round) == crate::rpc::schedule::round_leader(
            entries.filter(|entry: LeaderEntry<'a>| entry.leader is Some),
            round,
        ),
    decreases entries.len(),
{
    let valid = |entry: LeaderEntry<'a>| entry.leader is Some;
    reveal(Seq::filter);
    if entries.len() > 0 {
        let kept = entries.drop_last().filter(valid);
        law_invalid_entries_are_skipped(entries.drop_last(), round);
        if valid(entries.last()) {
            assert(kept.push(entries.last()).drop_last() =~= kept);
        }
    }
}

impl<'a> LeaderEntry<'a> {
    /// The entry lists the slot with this index.
    pub open spec fn lists(self, slot_idx: int) -> bool {
        exists|i: int| 0 <= i < self.slots@.len() && #[trigger] self.slots@[i] == slot_idx
    }
}

/// One of the entries lists the slot with this index.
pub open spec fn listed<'a>(entries: Seq<LeaderEntry<'a>>, slot_idx: int) -> bool {
    exists|e: int| 0 <= e < entries.len() && #[trigger] entries[e].lists(slot_idx)
}

/// The entries are a whole leader schedule: every key is valid and occurs once, every list is
/// ascending, together they list every slot of the epoch once, and the slots of a round are in
/// the same list.
pub open spec fn is_whole_schedule<'a>(entries: Seq<LeaderEntry<'a>>) -> bool {
    &&& forall|e: int| 0 <= e < entries.len() ==> (#[trigger] entries[e]).leader is Some
    &&& forall|e: int, f: int|
        0 <= e < entries.len() && 0 <= f < entries.len() && (#[trigger] entries[e]).leader == (
        #[trigger] entries[f]).leader ==> e == f
    &&& forall|e: int, i: int, j: int|
        0 <= e < entries.len() && 0 <= i < j < entries[e].slots@.len() ==> (
        #[trigger] entries[e].slots@[i]) < (#[trigger] entries[e].slots@[j])
    &&& forall|e: int, i: int|
        0 <= e < entries.len() && 0 <= i < entries[e].slots@.len() ==> (
        #[trigger] entries[e].slots@[i]) < DEFAULT_SLOTS_PER_EPOCH
    &&& forall|slot_idx: int|
        0 <= slot_idx < DEFAULT_SLOTS_PER_EPOCH ==> #[trigger] listed(entries, slot_idx)
    &&& forall|e: int, f: int, slot_idx: int|
        0 <= e < entries.len() && 0 <= f < entries.len() && #[trigger] entries[e].lists(slot_idx)
            && #[trigger] entries[f].lists(slot_idx) ==> e == f
    &&& forall|e: int, slot_idx: int|
        0 <= e < entries.len() && #[trigger] entries[e].lists(slot_idx) ==> entries[e].lists(
            slot_idx - slot_idx % 4,
        )
}

/// The slots that a listing names beside `key`, in order.
pub open spec fn slots_beside(listing: Seq<(u64, Pubkey)>, key: Pubkey) -> Seq<u64>
    decreases listing.len(),
{
    if listing.len() == 0 {
        Seq::empty()
    } else {
        let before = slots_beside(listing.drop_last(), key);
        if listing.last().1 == key {
            before.push(listing.last().0)
        } else {
            before
        }
    }
}

/// Each slot of a whole schedule is listed beside the key whose list holds it, and beside no
/// other.
#[verifier::spinoff_prover]
#[verifier::rlimit(40)]
proof fn lemma_listed_beside_its_key<'a>(
    slot: u64,
    entries: Seq<LeaderEntry<'a>>,
    schedule: CompactSortedSchedule,
    e: int,
    slot_idx: int,
)
    requires
        crate::rpc::schedule::unnests_to(slot, entries, schedule),
        schedule.first_slot + DEFAULT_SLOTS_PER_EPOCH - 1 <= u64::MAX,
        is_whole_schedule(entries),
        0 <= e < entries.len(),
        0 <= slot_idx < DEFAULT_SLOTS_PER_EPOCH,
    ensures
        schedule.unnested()[slot_idx].0 == schedule.first_slot + slot_idx,
        Some(schedule.unnested()[slot_idx].1) == entries[e].leader <==> entries[e].lists(slot_idx),
{
    assert(listed(entries, slot_idx));
    let f = choose|f: int| 0 <= f < entries.len() && #[trigger] entries[f].lists(slot_idx);
    let first = slot_idx - slot_idx % 4;
    assert(first == (slot_idx / 4) * LEADER_STRIDE);
    assert(entries[f].lists(first));
    assert(entries[f].leader is Some);
    let i = choose|i: int|
        0 <= i < entries[f].slots@.len() && #[trigger] entries[f].slots@[i] == first;
    assert(entries[f].slots@[i] == (slot_idx / 4) * LEADER_STRIDE);
    assert(entries[f].claims(slot_idx / 4));
    assert forall|other: int|
        0 <= other < entries.len() && (#[trigger] entries[other]).claims(
            slot_idx / 4,
        ) implies entries[other].leader == entries[f].leader by {
        let j = choose|j: int|
            0 <= j < entries[other].slots@.len() && #[trigger] entries[other].slots@[j] == (slot_idx
                / 4) * LEADER_STRIDE;
        assert(entries[other].slots@[j] == first);
        assert(entries[other].lists(first));
    }
    law_unnesting_keeps_the_assignment(slot, entries, schedule, f, slot_idx);
}

/// Among the first `n` slots, those beside the key of an entry are the first `c` of its list.
proof fn lemma_grouped_up_to<'a>(
    slot: u64,
    entries: Seq<LeaderEntry<'a>>,
    schedule: CompactSortedSchedule,
    e: int,
    n: int,
) -> (c: int)
    requires
        crate::rpc::schedule::unnests_to(slot, entries, schedule),
        schedule.first_slot + DEFAULT_SLOTS_PER_EPOCH - 1 <= u64::MAX,
        is_whole_schedule(entries),
        0 <= e < entries.len(),
        0 <= n <= DEFAULT_SLOTS_PER_EPOCH,
    ensures
        0 <= c <= entries[e].slots@.len(),
        slots_beside(schedule.unnested().take(n), entries[e].leader->0).len() == c,
        forall|i: int|
            0 <= i < c ==> #[trigger] slots_beside(
                schedule.unnested().take(n),
                entries[e].leader->0,
            )[i] == schedule.first_slot + entries[e].slots@[i],
        forall|i: int| 0 <= i < c ==> (#[trigger] entries[e].slots@[i]) < n,
        forall|i: int| c <= i < entries[e].slots@.len() ==> (#[trigger] entries[e].slots@[i]) >= n,
    decreases n,
{
    let key = entries[e].leader->0;
    let slots = entries[e].slots@;
    if n == 0 {
        assert(schedule.unnested().take(0) =~= Seq::empty());
        0
    } else {
        let c = lemma_grouped_up_to(slot, entries, schedule, e, n - 1);
        let listing = schedule.unnested().take(n);
        assert(listing.drop_last() =~= schedule.unnested().take(n - 1));
        assert(listing.last() == schedule.unnested()[n - 1]);
        assert(entries[e].leader is Some);
        lemma_listed_beside_its_key(slot, entries, schedule, e, n - 1);
        if entries[e].lists(n - 1) {
            let j = choose|j: int| 0 <= j < slots.len() && #[trigger] slots[j] == n - 1;
            assert(c <= j);
            assert(slots[c] == n - 1) by {
                if c < j {
                    assert(entries[e].slots@[c] < entries[e].slots@[j]);
                }
            }
            assert forall|i: int| c < i < slots.len() implies (#[trigger] entries[e].slots@[i])
                >= n by {
                assert(entries[e].slots@[c] < entries[e].slots@[i]);
            }
            c + 1
        } else {
            assert forall|i: int| c <= i < slots.len() implies (#[trigger] entries[e].slots@[i])
                >= n by {
                if slots[i] == n - 1 {
                    assert(entries[e].lists(n - 1));
                }
            }
            c
        }
    }
}

/// Unnesting a whole leader schedule loses nothing: grouping the listing by key gives the
/// entries back. Beside the key of each entry stand exactly the slots of its list, in order, and
/// every slot stands beside the key of an entry.
pub proof fn law_grouping_the_listing_gives_the_entries_back<'a>(
    slot: u64,
    entries: Seq<LeaderEntry<'a>>,
    schedule: CompactSortedSchedule,
    e: int,
)
    requires
        crate::rpc::schedule::unnests_to(slot, entries, schedule),
        schedule.first_slot + DEFAULT_SLOTS_PER_EPOCH - 1 <= u64::MAX,
        is_whole_schedule(entries),
        0 <= e < entries.len(),
    ensures
        slots_beside(schedule.unnested(), entries[e].leader->0) == Seq::new(
            entries[e].slots@.len(),
            |i: int| (schedule.first_slot + entries[e].slots@[i]) as u64,
        ),
        forall|i: int|
            0 <= i < schedule.unnested().len() ==> exists|f: int|
                0 <= f < entries.len() && (#[trigger] entries[f]).leader == Some(
                    (#[trigger] schedule.unnested()[i]).1,
                ),
{
    let n = DEFAULT_SLOTS_PER_EPOCH as int;
    let listing = schedule.unnested();
    assert(listing.len() == n);
    assert(listing.take(n) =~= listing);
    let c = lemma_grouped_up_to(slot, entries, schedule, e, n);
    assert(c == entries[e].slots@.len()) by {
        if c < entries[e].slots@.len() {
            assert(entries[e].slots@[c] >= n);
        }
    }
    assert(slots_beside(listing, entries[e].leader->0) =~= Seq::new(
        entries[e].slots@.len(),
        |i: int| (schedule.first_slot + entries[e].slots@[i]) as u64,
    ));
    assert forall|i: int| 0 <= i < listing.len() implies exists|f: int|
        0 <= f < entries.len() && (#[trigger] entries[f]).leader == Some(
            (#[trigger] schedule.unnested()[i]).1,
        ) by {
        assert(listed(entries, i));
        let f = choose|f: int| 0 <= f < entries.len() && #[trigger] entries[f].lists(i);
        lemma_listed_beside_its_key(slot, entries, schedule, f, i);
        assert(entries[f].leader == Some(schedule.unnested()[i].1));
    }
}

/// The leaders of a fanout are distinct, each leads one of the slots that were looked at, and
/// the leader of every such slot is among them.
pub proof fn law_fanout_leaders_are_the_unique_leaders(
    schedules: InnerManagedLeaderSchedule,
    start: int,
    lookups: nat,
)
    ensures
        schedules.unique_leaders(start, lookups).no_duplicates(),
        schedules.unique_leaders(start, lookups).len() <= lookups,
        forall|i: int|
            0 <= i < schedules.unique_leaders(start, lookups).len() ==> exists|k: int|
                0 <= k < lookups && #[trigger] schedules.leader_at(start + k * LEADER_STRIDE)
                    == Some(#[trigger] schedules.unique_leaders(start, lookups)[i]),
        forall|k: int|
            0 <= k < lookups && (#[trigger] schedules.leader_at(start + k * LEADER_STRIDE)) is Some
                ==> schedules.unique_leaders(start, lookups).contains(
                schedules.leader_at(start + k * LEADER_STRIDE)->0,
            ),
    decreases lookups,
{
    if lookups > 0 {
        let last = lookups - 1;
        let before = schedules.unique_leaders(start, last as nat);
        let all = schedules.unique_leaders(start, lookups);
        law_fanout_leaders_are_the_unique_leaders(schedules, start, last as nat);
        let found = schedules.leader_at(start + last * LEADER_STRIDE);
        assert forall|i: int| 0 <= i < all.len() implies exists|k: int|
            0 <= k < lookups && #[trigger] schedules.leader_at(start + k * LEADER_STRIDE) == Some(
                #[trigger] all[i],
            ) by {
            if i < before.len() {
                assert(all[i] == before[i]);
                let k = choose|k: int|
                    0 <= k < last && #[trigger] schedules.leader_at(start + k * LEADER_STRIDE)
                        == Some(before[i]);
                assert(schedules.leader_at(start + k * LEADER_STRIDE) == Some(all[i]));
            } else {
                assert(schedules.leader_at(start + last * LEADER_STRIDE) == Some(all[i]));
            }
        }
        assert forall|k: int|
            0 <= k < lookups && (#[trigger] schedules.leader_at(start + k * LEADER_STRIDE)) is Some
            implies all.contains(schedules.leader_at(start + k * LEADER_STRIDE)->0) by {
            let leader = schedules.leader_at(start + k * LEADER_STRIDE)->0;
            if k < last {
                assert(before.contains(leader));
                let i = before.index_of(leader);
                assert(all[i] == leader);
            } else if !before.contains(leader) {
                assert(all[before.len() as int] == leader);
            }
        }
    }
}

/// The leaders of a fanout come in the order in which they were found: where one stands before
/// another, it leads a slot that was looked at before any slot of the other.
pub proof fn law_fanout_leaders_come_in_the_order_of_their_slots(
    schedules: InnerManagedLeaderSchedule,
    start: int,
    lookups: nat,
    i: int,
    j: int,
)
    requires
        0 <= i < j < schedules.unique_leaders(start, lookups).len(),
    ensures
        exists|k: int|
            {
                &&& 0 <= k < lookups
                &&& #[trigger] schedules.leader_at(start + k * LEADER_STRIDE) == Some(
                    schedules.unique_leaders(start, lookups)[i],
                )
                &&& forall|m: int|
                    0 <= m <= k ==> #[trigger] schedules.leader_at(start + m * LEADER_STRIDE)
                        != Some(schedules.unique_leaders(start, lookups)[j])
            },
    decreases lookups,
{
    let last = lookups - 1;
    let before = schedules.unique_leaders(start, last as nat);
    let all = schedules.unique_leaders(start, lookups);
    if j < before.len() {
        law_fanout_leaders_come_in_the_order_of_their_slots(
            schedules,
            start,
            last as nat,
            i,
            j,
        );
        let k = choose|k: int|
            {
                &&& 0 <= k < last
                &&& #[trigger] schedules.leader_at(start + k * LEADER_STRIDE) == Some(before[i])
                &&& forall|m: int|
                    0 <= m <= k ==> #[trigger] schedules.leader_at(start + m * LEADER_STRIDE)
                        != Some(before[j])
            };
        assert(schedules.leader_at(start + k * LEADER_STRIDE) == Some(all[i]));
    } else {
        law_fanout_leaders_are_the_unique_leaders(schedules, start, last as nat);
        let k = choose|k: int|
            0 <= k < last && #[trigger] schedules.leader_at(start + k * LEADER_STRIDE) == Some(
                before[i],
            );
        assert(!before.contains(all[j]));
        assert forall|m: int| 0 <= m <= k implies #[trigger] schedules.leader_at(
            start + m * LEADER_STRIDE,
        ) != Some(all[j]) by {
            if schedules.leader_at(start + m * LEADER_STRIDE) == Some(all[j]) {
                assert(before.contains(schedules.leader_at(start + m * LEADER_STRIDE)->0));
            }
        }
        assert(schedules.leader_at(start + k * LEADER_STRIDE) == Some(all[i]));
    }
}

/// The leader of the current slot comes first in a fanout.
pub proof fn law_current_leader_comes_first(
    schedules: InnerManagedLeaderSchedule,
    start: int,
    lookups: nat,
)
    requires
        lookups > 0,
        schedules.leader_at(start) is Some,
    ensures
        schedules.unique_leaders(start, lookups).len() > 0,
        Some(schedules.unique_leaders(start, lookups)[0]) == schedules.leader_at(start),
    decreases lookups,
{
    if lookups > 1 {
        law_current_leader_comes_first(schedules, start, (lookups - 1) as nat);
    } else {
        assert(schedules.unique_leaders(start, 0) =~= Seq::empty());
    }
}

/// A wider fanout adds leaders behind those of a narrower one.
pub proof fn law_wider_fanout_extends_a_narrower_one(
    schedules: InnerManagedLeaderSchedule,
    start: int,
    fewer: nat,
    more: nat,
)
    requires
        fewer <= more,
    ensures
        schedules.unique_leaders(start, fewer).is_prefix_of(
            schedules.unique_leaders(start, more),
        ),
    decreases more,
{
    if fewer < more {
        law_wider_fanout_extends_a_narrower_one(schedules, start, fewer, (more - 1) as nat);
    }
}

/// From the first slot of a round on, a fanout reaches the leader of every slot of its window.
pub proof fn law_aligned_fanout_reaches_every_leader_of_the_window(
    schedules: InnerManagedLeaderSchedule,
    current_slot: u64,
    fanout_slots: u64,
    slot: int,
)
    requires
        current_slot % 4 == 0,
        starts_with_a_round(schedules),
        current_slot <= slot < current_slot + fanout_slots,
        slot < u64::MAX,
        schedules.leader_at(slot) is Some,
    ensures
        schedules.unique_leaders(
            current_slot as int,
            crate::rpc::schedule::fanout_lookups(current_slot, fanout_slots),
        ).contains(schedules.leader_at(slot)->0),
{
    let lookups = crate::rpc::schedule::fanout_lookups(current_slot, fanout_slots);
    let k = (slot - current_slot) / 4;
    let aligned = current_slot + k * LEADER_STRIDE;
    lemma_round_of_the_window(current_slot, fanout_slots, slot);
    law_a_round_has_the_leader_of_its_first_slot(schedules, slot);
    law_fanout_leaders_are_the_unique_leaders(schedules, current_slot as int, lookups);
}

/// A fanout from the first slot of a round on looks at the first slot of every round of its
/// window.
proof fn lemma_round_of_the_window(current_slot: u64, fanout_slots: u64, slot: int)
    requires
        current_slot % 4 == 0,
        current_slot <= slot < current_slot + fanout_slots,
        slot < u64::MAX,
    ensures
        ({
            let k = (slot - current_slot) / 4;
            let aligned = current_slot + k * LEADER_STRIDE;
            &&& 0 <= k < crate::rpc::schedule::fanout_lookups(current_slot, fanout_slots)
            &&& aligned == slot - slot % 4
        }),
{
}

/// Schedules that start with a round: the rounds are those of all slots, counted by fours.
pub open spec fn starts_with_a_round(schedules: InnerManagedLeaderSchedule) -> bool {
    &&& schedules.current.first_slot % 4 == 0
    &&& schedules.next.first_slot % 4 == 0
}

/// A slot has the leader of the first slot of its round.
pub proof fn law_a_round_has_the_leader_of_its_first_slot(schedules: InnerManagedLeaderSchedule, slot: int)
    requires
        starts_with_a_round(schedules),
    ensures
        schedules.leader_at(slot - slot % 4) == schedules.leader_at(slot),
{
    let aligned = slot - slot % 4;
    if slot >= schedules.next.first_slot {
        assert(aligned >= schedules.next.first_slot);
        law_rounds_share_a_leader(&schedules.next, slot, aligned);
    } else if slot >= schedules.current.first_slot {
        assert(aligned >= schedules.current.first_slot);
        law_rounds_share_a_leader(&schedules.current, slot, aligned);
    }
}

} // verus!
