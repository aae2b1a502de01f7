//! The leader schedule of the current and of the next epoch.

use crate::pubkey::Pubkey;
use crate::sync::{guarded, new_lock, overwrite, read_lock, LockWrite, LockWriter};
use std::sync::{Arc, RwLock, RwLockReadGuard};
use vstd::prelude::*;
use vstd::string::*;

verus! {

/// The number of slots of an epoch, as in `solana_clock::DEFAULT_SLOTS_PER_EPOCH`.
pub const DEFAULT_SLOTS_PER_EPOCH: u64 = 432_000;

/// The number of consecutive slots that a leader leads at a time.
pub const LEADER_STRIDE: u64 = 4;

/// The number of leader rounds of an epoch.
pub const ROUNDS_PER_EPOCH: usize = 108_000;

/// A compact representation of the leader schedule for an epoch, where each leader
/// appears once for every four consecutive slots that it leads.
#[derive(Debug)]
pub struct CompactSortedSchedule {
    /// The first slot of the epoch.
    pub first_slot: u64,
    /// The leader of each round of four slots, from `first_slot` on.
    pub schedule: Vec<Pubkey>,
}

impl Clone for CompactSortedSchedule {
    fn clone(&self) -> (r: Self)
        ensures
            r.first_slot == self.first_slot,
            r.schedule@ == self.schedule@,
    {
        let schedule = self.schedule.clone();
        assert(schedule@ =~= self.schedule@);
        CompactSortedSchedule { first_slot: self.first_slot, schedule }
    }
}

impl CompactSortedSchedule {
    /// The leader of `slot`: the leader of the round that holds it, where the slot lies in
    /// the epoch and the schedule reaches that far.
    pub open spec fn leader_at(&self, slot: int) -> Option<Pubkey> {
        let round = (slot - self.first_slot) / LEADER_STRIDE as int;
        if self.first_slot <= slot < self.first_slot + DEFAULT_SLOTS_PER_EPOCH && round
            < self.schedule@.len() {
            Some(self.schedule@[round])
        } else {
            None
        }
    }

    /// The epoch that the schedule is for.
    pub open spec fn epoch(&self) -> u64 {
        self.first_slot / DEFAULT_SLOTS_PER_EPOCH
    }

    /// Every slot of the schedule with its leader, in order.
    pub open spec fn unnested(&self) -> Seq<(u64, Pubkey)> {
        Seq::new(
            self.schedule@.len() * LEADER_STRIDE as nat,
            |i: int| ((self.first_slot + i) as u64, self.schedule@[i / LEADER_STRIDE as int]),
        )
    }

    /// The last slot of the epoch.
    pub fn last_slot(&self) -> (r: u64)
        requires
            self.first_slot + DEFAULT_SLOTS_PER_EPOCH <= u64::MAX,
        ensures
            r == self.first_slot + DEFAULT_SLOTS_PER_EPOCH - 1,
    {
        self.first_slot + DEFAULT_SLOTS_PER_EPOCH - 1
    }

    /// Get the leader pubkey for a given slot in the epoch.
    ///
    /// The slot is placed by its distance from the first slot, so the last epoch that a
    /// `u64` can number is served as well.
    pub fn get(&self, slot: &u64) -> (r: Option<&Pubkey>)
        ensures
            match r {
                Some(leader) => self.leader_at(*slot as int) == Some(*leader),
                None => self.leader_at(*slot as int) is None,
            },
    {
        if *slot < self.first_slot || *slot - self.first_slot >= DEFAULT_SLOTS_PER_EPOCH {
            return None;
        }
        let round: u64 = (*slot - self.first_slot) / LEADER_STRIDE;
        if round < self.schedule.len() as u64 {
            Some(&self.schedule[round as usize])
        } else {
            None
        }
    }

    /// The (slot, leader) pairs for the entire schedule.
    pub fn iter_unnested_schedule(&self) -> (r: Vec<(u64, &Pubkey)>)
        requires
            self.schedule@.len() > 0 ==> self.first_slot + self.schedule@.len() * LEADER_STRIDE - 1
                <= u64::MAX,
        ensures
            r@.len() == self.unnested().len(),
            forall|i: int|
                0 <= i < r@.len() ==> {
                    &&& (#[trigger] r@[i]).0 == self.unnested()[i].0
                    &&& *r@[i].1 == self.unnested()[i].1
                },
    {
        let mut pairs: Vec<(u64, &Pubkey)> = Vec::new();
        let mut round: usize = 0;
        while round < self.schedule.len()
            invariant
                round <= self.schedule.len(),
                pairs@.len() == round * LEADER_STRIDE,
                self.schedule@.len() > 0 ==> self.first_slot + self.schedule@.len() * LEADER_STRIDE
                    - 1 <= u64::MAX,
                forall|i: int|
                    0 <= i < pairs@.len() ==> {
                        &&& (#[trigger] pairs@[i]).0 == self.unnested()[i].0
                        &&& *pairs@[i].1 == self.unnested()[i].1
                    },
            decreases self.schedule.len() - round,
        {
            let mut i: u64 = 0;
            while i < LEADER_STRIDE
                invariant
                    i <= LEADER_STRIDE,
                    round < self.schedule.len(),
                    pairs@.len() == round * LEADER_STRIDE + i,
                    self.first_slot + self.schedule@.len() * LEADER_STRIDE - 1 <= u64::MAX,
                    forall|k: int|
                        0 <= k < pairs@.len() ==> {
                            &&& (#[trigger] pairs@[k]).0 == self.unnested()[k].0
                            &&& *pairs@[k].1 == self.unnested()[k].1
                        },
                decreases LEADER_STRIDE - i,
            {
                let slot: u64 = self.first_slot + round as u64 * LEADER_STRIDE + i;
                pairs.push((slot, &self.schedule[round]));
                i = i + 1;
            }
            round = round + 1;
        }
        pairs
    }
}

/// One entry of an RPC leader schedule: the leader, where its name is a valid key, and the
/// indices of the slots that it leads.
pub struct LeaderEntry<'a> {
    pub leader: Option<Pubkey>,
    pub slots: &'a Vec<usize>,
}

impl<'a> LeaderEntry<'a> {
    /// Whether a valid leader claims the round `round`: its first slot is listed.
    pub open spec fn claims(self, round: int) -> bool {
        self.leader is Some && exists|i: int|
            0 <= i < self.slots@.len() && #[trigger] self.slots@[i] == round * LEADER_STRIDE
    }

    /// Every round that the entry claims is one of the epoch.
    pub open spec fn in_range(self) -> bool {
        self.leader is Some ==> forall|i: int|
            0 <= i < self.slots@.len() && (#[trigger] self.slots@[i]) % 4 == 0 ==> self.slots@[i]
                < DEFAULT_SLOTS_PER_EPOCH
    }
}

/// The leader of a round: that of the last entry that claims it, or the default key where
/// no entry does.
pub open spec fn round_leader<'a>(entries: Seq<LeaderEntry<'a>>, round: int) -> Pubkey
    decreases entries.len(),
{
    if entries.len() == 0 {
        Pubkey::zero()
    } else if entries.last().claims(round) {
        entries.last().leader->0
    } else {
        round_leader(entries.drop_last(), round)
    }
}

/// Every entry claims rounds of the epoch only.
pub open spec fn entries_in_range<'a>(entries: Seq<LeaderEntry<'a>>) -> bool {
    forall|i: int| 0 <= i < entries.len() ==> (#[trigger] entries[i]).in_range()
}

/// The first slot of the epoch that holds `slot`.
pub open spec fn epoch_start(slot: int) -> int {
    slot - slot % DEFAULT_SLOTS_PER_EPOCH as int
}

/// An RPC response as leader entries: each name read as a base58 key.
pub open spec fn entries_of<'a>(resp: &'a Vec<(String, Vec<usize>)>) -> Seq<LeaderEntry<'a>> {
    Seq::new(
        resp@.len(),
        |i: int| LeaderEntry { leader: Pubkey::parsed(resp@[i].0@), slots: &resp@[i].1 },
    )
}

/// Each name of an RPC response that is read as a key is the name of that key.
pub open spec fn names_are_of_their_keys(resp: &Vec<(String, Vec<usize>)>) -> bool {
    forall|i: int|
        0 <= i < resp@.len() ==> (Pubkey::parsed((#[trigger] resp@[i]).0@) matches Some(key)
            ==> crate::pubkey::pubkey_from_base58(resp@[i].0@) == Some(key.bytes@))
}

/// Reads the names of an RPC leader schedule as keys.
pub fn leader_entries<'a>(resp: &'a Vec<(String, Vec<usize>)>) -> (r: Vec<LeaderEntry<'a>>)
    ensures
        r@ == entries_of(resp),
        names_are_of_their_keys(resp),
{
    let mut entries: Vec<LeaderEntry<'a>> = Vec::new();
    let mut i: usize = 0;
    while i < resp.len()
        invariant
            i <= resp.len(),
            entries@ == entries_of(resp).take(i as int),
            forall|j: int|
                0 <= j < i ==> (Pubkey::parsed((#[trigger] resp@[j]).0@) matches Some(key)
                    ==> crate::pubkey::pubkey_from_base58(resp@[j].0@) == Some(key.bytes@)),
        decreases resp.len() - i,
    {
        let entry = LeaderEntry {
            leader: Pubkey::from_base58(resp[i].0.as_str()),
            slots: &resp[i].1,
        };
        assert(entry == entries_of(resp)[i as int]);
        entries.push(entry);
        i = i + 1;
        assert(entries_of(resp).take(i as int) =~= entries_of(resp).take(i - 1).push(entry));
    }
    assert(entries_of(resp).take(i as int) =~= entries_of(resp));
    entries
}

/// What [`unnest_leader_entries`] makes of leader entries: the schedule of the epoch that
/// holds `slot`, with the leader of every round.
pub open spec fn unnests_to<'a>(
    slot: u64,
    entries: Seq<LeaderEntry<'a>>,
    r: CompactSortedSchedule,
) -> bool {
    &&& r.first_slot == epoch_start(slot as int)
    &&& r.schedule@.len() == ROUNDS_PER_EPOCH
    &&& forall|round: int|
        0 <= round < ROUNDS_PER_EPOCH ==> #[trigger] r.schedule@[round] == round_leader(
            entries,
            round,
        )
}

/// Whether the first `n` slot indices of `slots` hold the first slot of `round`.
spec fn claimed_within(slots: Seq<usize>, n: int, round: int) -> bool {
    exists|i: int| 0 <= i < n && #[trigger] slots[i] == round * LEADER_STRIDE
}

/// Unnests the entries of a leader schedule: each round gets the leader of the last entry
/// that lists the round's first slot.
pub fn unnest_leader_entries<'a>(slot: u64, entries: &Vec<LeaderEntry<'a>>) -> (r:
    CompactSortedSchedule)
    requires
        entries_in_range(entries@),
    ensures
        unnests_to(slot, entries@, r),
{
    let mut ret: Vec<Pubkey> = Vec::with_capacity(ROUNDS_PER_EPOCH);
    while ret.len() < ROUNDS_PER_EPOCH
        invariant
            ret@.len() <= ROUNDS_PER_EPOCH,
            forall|round: int| 0 <= round < ret@.len() ==> ret@[round] == Pubkey::zero(),
        decreases ROUNDS_PER_EPOCH - ret@.len(),
    {
        ret.push(Pubkey::default());
    }
    let mut i: usize = 0;
    while i < entries.len()
        invariant
            i <= entries.len(),
            entries_in_range(entries@),
            ret@.len() == ROUNDS_PER_EPOCH,
            forall|round: int|
                0 <= round < ROUNDS_PER_EPOCH ==> #[trigger] ret@[round] == round_leader(
                    entries@.take(i as int),
                    round,
                ),
        decreases entries.len() - i,
    {
        let ghost before = entries@.take(i as int);
        let entry = &entries[i];
        assert(entries@.take(i + 1).drop_last() =~= before);
        assert(entries@.take(i + 1).last() == *entry);
        assert(entries@[i as int].in_range());
        if let Some(leader) = entry.leader {
            let mut j: usize = 0;
            while j < entry.slots.len()
                invariant
                    j <= entry.slots@.len(),
                    entry.in_range(),
                    entry.leader == Some(leader),
                    ret@.len() == ROUNDS_PER_EPOCH,
                    forall|round: int|
                        0 <= round < ROUNDS_PER_EPOCH ==> #[trigger] ret@[round] == if claimed_within(
                            entry.slots@,
                            j as int,
                            round,
                        ) {
                            leader
                        } else {
                            round_leader(before, round)
                        },
                decreases entry.slots@.len() - j,
            {
                let slot_idx: usize = entry.slots[j];
                let ghost old_ret = ret@;
                if slot_idx % 4 == 0 {
                    assert(entry.slots@[j as int] < DEFAULT_SLOTS_PER_EPOCH);
                    ret[slot_idx / 4] = leader;
                }
                assert forall|round: int| 0 <= round < ROUNDS_PER_EPOCH implies #[trigger] ret@[round]
                    == if claimed_within(entry.slots@, j + 1, round) {
                    leader
                } else {
                    round_leader(before, round)
                } by {
                    assert(old_ret[round] == if claimed_within(entry.slots@, j as int, round) {
                        leader
                    } else {
                        round_leader(before, round)
                    });
                    if claimed_within(entry.slots@, j as int, round) {
                        let w = choose|w: int|
                            0 <= w < j && #[trigger] entry.slots@[w] == round * LEADER_STRIDE;
                        assert(0 <= w < j + 1 && entry.slots@[w] == round * LEADER_STRIDE);
                    }
                    if slot_idx == round * LEADER_STRIDE {
                        assert(entry.slots@[j as int] == round * LEADER_STRIDE);
                    }
                }
                j = j + 1;
            }
            assert(forall|round: int|
                claimed_within(entry.slots@, entry.slots@.len() as int, round) == entry.claims(
                    round,
                ));
        }
        i = i + 1;
    }
    assert(entries@.take(i as int) =~= entries@);
    let epoch: u64 = slot / DEFAULT_SLOTS_PER_EPOCH;
    CompactSortedSchedule { first_slot: epoch * DEFAULT_SLOTS_PER_EPOCH, schedule: ret }
}

/// Unnests an RPC leader schedule, taken at `slot`, into the schedule of that slot's epoch.
///
/// Entries whose name is not a valid key are skipped. The slot indices of the others have
/// to lie in the epoch.
pub fn unnest_rpc_get_leader_schedule_resp(slot: u64, resp: &Vec<(String, Vec<usize>)>) -> (r:
    CompactSortedSchedule)
    requires
        entries_in_range(entries_of(resp)),
    ensures
        unnests_to(slot, entries_of(resp), r),
        names_are_of_their_keys(resp),
{
    let entries = leader_entries(resp);
    unnest_leader_entries(slot, &entries)
}

/// Whether an entry with a valid leader claims rounds of the epoch only.
fn entry_in_range<'a>(entry: &LeaderEntry<'a>) -> (r: bool)
    ensures
        r == entry.in_range(),
{
    if entry.leader.is_none() {
        return true;
    }
    let mut i: usize = 0;
    while i < entry.slots.len()
        invariant
            i <= entry.slots@.len(),
            entry.leader is Some,
            forall|j: int|
                0 <= j < i && (#[trigger] entry.slots@[j]) % 4 == 0 ==> entry.slots@[j]
                    < DEFAULT_SLOTS_PER_EPOCH,
        decreases entry.slots@.len() - i,
    {
        let slot_idx: usize = entry.slots[i];
        if slot_idx % 4 == 0 && slot_idx as u64 >= DEFAULT_SLOTS_PER_EPOCH {
            assert(entry.slots@[i as int] % 4 == 0);
            return false;
        }
        i = i + 1;
    }
    true
}

/// Unnests an RPC leader schedule like [`unnest_rpc_get_leader_schedule_resp`], or returns
/// `None` where an entry with a valid key lists a slot that the epoch does not have.
pub fn checked_unnest_rpc_get_leader_schedule_resp(
    slot: u64,
    resp: &Vec<(String, Vec<usize>)>,
) -> (r: Option<CompactSortedSchedule>)
    ensures
        r is Some <==> entries_in_range(entries_of(resp)),
        r matches Some(schedule) ==> unnests_to(slot, entries_of(resp), schedule),
        names_are_of_their_keys(resp),
{
    let entries = leader_entries(resp);
    let mut i: usize = 0;
    while i < entries.len()
        invariant
            i <= entries.len(),
            entries@ == entries_of(resp),
            names_are_of_their_keys(resp),
            forall|j: int| 0 <= j < i ==> (#[trigger] entries@[j]).in_range(),
        decreases entries.len() - i,
    {
        if !entry_in_range(&entries[i]) {
            return None;
        }
        i = i + 1;
    }
    Some(unnest_rpc_get_leader_schedule_resp(slot, resp))
}

/// Error indicating that the background update task of the leader schedule has failed.
#[derive(Debug, Clone, Copy, PartialEq, Eq, Structural)]
pub struct PoisonError;

impl PoisonError {
    /// The error in words.
    pub fn message(&self) -> (r: String)
        ensures
            r@ == "auto leader schedule poisoned"@,
    {
        "auto leader schedule poisoned".to_string()
    }
}

/// The schedules of the current and of the next epoch, and whether updating them has failed.
#[derive(Debug)]
pub struct InnerManagedLeaderSchedule {
    pub current: Arc<CompactSortedSchedule>,
    pub next: Arc<CompactSortedSchedule>,
    pub fail: bool,
}

impl Clone for InnerManagedLeaderSchedule {
    fn clone(&self) -> (r: Self)
        ensures
            r == *self,
    {
        InnerManagedLeaderSchedule {
            current: self.current.clone(),
            next: self.next.clone(),
            fail: self.fail,
        }
    }
}

/// The number of slots that a fanout of `fanout_slots` from `current_slot` on looks at: one
/// in every four of the window, which ends where slots end.
pub open spec fn fanout_lookups(current_slot: u64, fanout_slots: u64) -> nat {
    let end = if current_slot + fanout_slots > u64::MAX {
        u64::MAX as int
    } else {
        current_slot + fanout_slots
    };
    ((end - current_slot + LEADER_STRIDE - 1) / LEADER_STRIDE as int) as nat
}

impl InnerManagedLeaderSchedule {
    /// The leader of `slot`: from the next schedule where that has begun, else from the
    /// current one.
    pub open spec fn leader_at(&self, slot: int) -> Option<Pubkey> {
        if slot >= self.next.first_slot {
            self.next.leader_at(slot)
        } else {
            self.current.leader_at(slot)
        }
    }

    /// The leaders of `start`, `start + 4` and so on, `lookups` slots in all, each leader where
    /// it comes first; slots without a leader are passed over.
    pub open spec fn unique_leaders(&self, start: int, lookups: nat) -> Seq<Pubkey>
        decreases lookups,
    {
        if lookups == 0 {
            Seq::empty()
        } else {
            let before = self.unique_leaders(start, (lookups - 1) as nat);
            match self.leader_at(start + (lookups - 1) * LEADER_STRIDE) {
                Some(leader) => if before.contains(leader) {
                    before
                } else {
                    before.push(leader)
                },
                None => before,
            }
        }
    }

    /// What [`Self::get_leader`] answers.
    pub open spec fn leader_answer(&self, slot: u64) -> Result<Option<Pubkey>, PoisonError> {
        if self.fail {
            Err(PoisonError)
        } else {
            Ok(self.leader_at(slot as int))
        }
    }

    /// Get the leader for a given slot.
    pub fn get_leader(&self, slot: u64) -> (r: Result<Option<Pubkey>, PoisonError>)
        ensures
            r == self.leader_answer(slot),
    {
        if self.fail {
            return Err(PoisonError);
        }
        Ok(ManagedLeaderSchedule::get_leader_from_schedules(self, slot))
    }

    /// Gets the unique leaders for the current slot and upcoming slots.
    pub fn get_unique_leaders_for_slot_fanout(&self, current_slot: u64, fanout_slots: u64) -> (r:
        Result<Vec<Pubkey>, PoisonError>)
        ensures
            r is Err <==> self.fail,
            r matches Ok(leaders) ==> leaders@ == self.unique_leaders(
                current_slot as int,
                fanout_lookups(current_slot, fanout_slots),
            ),
    {
        if self.fail {
            return Err(PoisonError);
        }
        let mut leaders: Vec<Pubkey> = Vec::new();
        let end_slot: u64 = current_slot.saturating_add(fanout_slots);
        let mut lookups: u64 = 0;
        let mut left: u64 = end_slot - current_slot;
        let mut leader_slot: u64 = current_slot;
        while left > 0
            invariant
                left > 0 ==> leader_slot == current_slot + lookups * LEADER_STRIDE,
                left > 0 ==> leader_slot + left == end_slot,
                lookups <= (end_slot - current_slot + LEADER_STRIDE - 1) / LEADER_STRIDE as int,
                left == 0 ==> lookups == (end_slot - current_slot + LEADER_STRIDE - 1)
                    / LEADER_STRIDE as int,
                end_slot >= current_slot,
                leaders@ == self.unique_leaders(current_slot as int, lookups as nat),
            decreases left,
        {
            if let Some(leader) = ManagedLeaderSchedule::get_leader_from_schedules(
                self,
                leader_slot,
            ) {
                if !contains_leader(&leaders, &leader) {
                    leaders.push(leader);
                }
            }
            lookups = lookups + 1;
            if left > LEADER_STRIDE {
                left = left - LEADER_STRIDE;
                leader_slot = leader_slot + LEADER_STRIDE;
            } else {
                left = 0;
            }
        }
        Ok(leaders)
    }

    /// Gets the leaders of several slots: for each what [`Self::get_leader`] answers.
    pub fn get_leaders_for_slots<const N: usize>(&self, slots: [u64; N]) -> (r: Result<
        [Option<Pubkey>; N],
        PoisonError,
    >)
        ensures
            r is Err <==> self.fail,
            r matches Ok(leaders) ==> forall|i: int|
                0 <= i < N ==> self.leader_answer(slots@[i]) == Ok::<_, PoisonError>(
                    #[trigger] leaders@[i],
                ),
    {
        if self.fail {
            return Err(PoisonError);
        }
        let mut leaders: [Option<Pubkey>; N] = [None; N];
        let mut i: usize = 0;
        while i < N
            invariant
                i <= N,
                !self.fail,
                forall|j: int|
                    0 <= j < i ==> self.leader_answer(slots@[j]) == Ok::<_, PoisonError>(
                        #[trigger] leaders@[j],
                    ),
            decreases N - i,
        {
            leaders[i] = ManagedLeaderSchedule::get_leader_from_schedules(self, slots[i]);
            i = i + 1;
        }
        Ok(leaders)
    }

    /// These two schedules, which are kept up to date.
    pub open spec fn fresh(current: CompactSortedSchedule, next: CompactSortedSchedule) -> Self {
        InnerManagedLeaderSchedule {
            current: Arc::new(current),
            next: Arc::new(next),
            fail: false,
        }
    }

    /// These schedules with another next schedule.
    pub open spec fn with_next(self, next: CompactSortedSchedule) -> Self {
        InnerManagedLeaderSchedule { next: Arc::new(next), ..self }
    }

    /// These schedules with another current and another next schedule.
    pub open spec fn with_both(self, current: CompactSortedSchedule, next: CompactSortedSchedule)
        -> Self {
        InnerManagedLeaderSchedule {
            current: Arc::new(current),
            next: Arc::new(next),
            ..self
        }
    }

    /// These schedules, no longer updated.
    pub open spec fn with_failure(self) -> Self {
        InnerManagedLeaderSchedule { fail: true, ..self }
    }

    /// Puts a fresh schedule in the place of the next one.
    pub fn install_next(&mut self, next: CompactSortedSchedule)
        ensures
            *final(self) == old(self).with_next(next),
    {
        self.next = Arc::new(next);
    }

    /// Puts fresh schedules in the place of both.
    pub fn install_both(&mut self, current: CompactSortedSchedule, next: CompactSortedSchedule)
        ensures
            *final(self) == old(self).with_both(current, next),
    {
        self.current = Arc::new(current);
        self.next = Arc::new(next);
    }

    /// Takes down that updating has failed.
    pub fn fail_updates(&mut self)
        ensures
            *final(self) == old(self).with_failure(),
    {
        self.fail = true;
    }
}

/// Whether `leader` is among `leaders`.
fn contains_leader(leaders: &Vec<Pubkey>, leader: &Pubkey) -> (r: bool)
    ensures
        r == leaders@.contains(*leader),
{
    let mut i: usize = 0;
    while i < leaders.len()
        invariant
            i <= leaders.len(),
            forall|j: int| 0 <= j < i ==> leaders@[j] != *leader,
        decreases leaders.len() - i,
    {
        if leaders[i] == *leader {
            assert(leaders@[i as int] == *leader);
            return true;
        }
        i = i + 1;
    }
    false
}

/// A managed leader schedule that automatically updates as epochs progress.
///
/// It can be cloned (cheaply) to share it across multiple tasks: every clone reads the same
/// schedules, under one lock. They are updated through a [`ScheduleWriter`].
pub struct ManagedLeaderSchedule {
    inner: Arc<RwLock<InnerManagedLeaderSchedule>>,
}

impl Clone for ManagedLeaderSchedule {
    fn clone(&self) -> (r: Self)
        ensures
            r == *self,
    {
        ManagedLeaderSchedule { inner: self.inner.clone() }
    }
}

impl ManagedLeaderSchedule {
    /// Taking the read lock can answer with `guard`, and the guard can show `schedules`.
    spec fn shown_by(
        &self,
        guard: RwLockReadGuard<'_, InnerManagedLeaderSchedule>,
        schedules: InnerManagedLeaderSchedule,
    ) -> bool {
        &&& call_ensures(
            read_lock::<InnerManagedLeaderSchedule>,
            (&*self.inner,),
            Some(guard),
        )
        &&& call_ensures(guarded::<InnerManagedLeaderSchedule>, (&guard,), &schedules)
    }

    /// What a read under the lock can show: the schedules, or `None` for a poisoned lock.
    pub closed spec fn reads(&self, shown: Option<InnerManagedLeaderSchedule>) -> bool {
        match shown {
            Some(schedules) => exists|guard: RwLockReadGuard<'_, InnerManagedLeaderSchedule>|
                self.shown_by(guard, schedules),
            None => call_ensures(
                read_lock::<InnerManagedLeaderSchedule>,
                (&*self.inner,),
                None,
            ),
        }
    }

    proof fn lemma_shown(
        &self,
        guard: RwLockReadGuard<'_, InnerManagedLeaderSchedule>,
        schedules: InnerManagedLeaderSchedule,
    )
        requires
            self.shown_by(guard, schedules),
        ensures
            self.reads(Some(schedules)),
    {
        let shown: Option<InnerManagedLeaderSchedule> = Some(schedules);
        assert(shown->Some_0 == schedules);
        assert(exists|g: RwLockReadGuard<'_, InnerManagedLeaderSchedule>|
            self.shown_by(g, schedules));
    }

    /// The lock can be made to hold `schedules`.
    pub closed spec fn made_with(&self, schedules: InnerManagedLeaderSchedule) -> bool {
        call_ensures(new_lock::<InnerManagedLeaderSchedule>, (schedules,), *self.inner)
    }

    /// The managed schedule that starts out with these schedules.
    pub fn new(current: CompactSortedSchedule, next: CompactSortedSchedule) -> (r: Self)
        ensures
            r.made_with(InnerManagedLeaderSchedule::fresh(current, next)),
    {
        let schedules = InnerManagedLeaderSchedule {
            current: Arc::new(current),
            next: Arc::new(next),
            fail: false,
        };
        ManagedLeaderSchedule { inner: Arc::new(new_lock(schedules)) }
    }

    /// The leader of `slot` according to `schedules`.
    pub fn get_leader_from_schedules(schedules: &InnerManagedLeaderSchedule, slot: u64) -> (r:
        Option<Pubkey>)
        ensures
            r == schedules.leader_at(slot as int),
    {
        let schedule = if slot >= schedules.next.first_slot {
            &schedules.next
        } else {
            &schedules.current
        };
        match schedule.get(&slot) {
            Some(leader) => Some(*leader),
            None => None,
        }
    }

    /// One schedule read can answer `answer` for the leader of `slot`.
    pub open spec fn leader_read(
        &self,
        slot: u64,
        answer: Result<Option<Pubkey>, PoisonError>,
    ) -> bool {
        exists|shown: Option<InnerManagedLeaderSchedule>|
            #![trigger self.reads(shown)]
            self.reads(shown) && answer == match shown {
                Some(schedules) => schedules.leader_answer(slot),
                None => Err(PoisonError),
            }
    }

    /// Get the leader for a given slot, in one schedule read.
    ///
    /// - `Ok(Some(Pubkey))` if the leader for the slot is found.
    /// - `Ok(None)` if the slot is out of range of the current schedules.
    /// - `Err(PoisonError)` if the background update task has failed.
    pub fn get_leader(&self, slot: u64) -> (r: Result<Option<Pubkey>, PoisonError>)
        ensures
            self.leader_read(slot, r),
    {
        match read_lock(&self.inner) {
            Some(guard) => {
                let schedules = guarded(&guard);
                proof {
                    self.lemma_shown(guard, *schedules);
                }
                schedules.get_leader(slot)
            },
            None => {
                assert(self.reads(None));
                Err(PoisonError)
            },
        }
    }

    /// Get leaders for multiple slots while taking the schedule read lock only once.
    ///
    /// This is useful on the transaction submission path where the current and next leader
    /// boundary are checked together near a slot boundary.
    pub fn get_leaders_for_slots<const N: usize>(&self, slots: [u64; N]) -> (r: Result<
        [Option<Pubkey>; N],
        PoisonError,
    >)
        ensures
            exists|shown: Option<InnerManagedLeaderSchedule>|
                #![trigger self.reads(shown)]
                self.reads(shown) && match shown {
                    Some(schedules) => {
                        &&& r is Err <==> schedules.fail
                        &&& r matches Ok(leaders) ==> forall|i: int|
                            0 <= i < N ==> schedules.leader_answer(slots@[i]) == Ok::<
                                _,
                                PoisonError,
                            >(#[trigger] leaders@[i])
                    },
                    None => r is Err,
                },
    {
        match read_lock(&self.inner) {
            Some(guard) => {
                let schedules = guarded(&guard);
                proof {
                    self.lemma_shown(guard, *schedules);
                }
                schedules.get_leaders_for_slots(slots)
            },
            None => {
                assert(self.reads(None));
                Err(PoisonError)
            },
        }
    }

    /// Gets unique leaders for the current slot and upcoming slots in one schedule read.
    ///
    /// `fanout_slots` follows the semantics of Solana's TPU client: the range starts at
    /// `current_slot` and advances by the four-slot leader stride until the window ends.
    pub fn get_unique_leaders_for_slot_fanout(&self, current_slot: u64, fanout_slots: u64) -> (r:
        Result<Vec<Pubkey>, PoisonError>)
        ensures
            exists|shown: Option<InnerManagedLeaderSchedule>|
                #![trigger self.reads(shown)]
                self.reads(shown) && match shown {
                    Some(schedules) => {
                        &&& r is Err <==> schedules.fail
                        &&& r matches Ok(leaders) ==> leaders@ == schedules.unique_leaders(
                            current_slot as int,
                            fanout_lookups(current_slot, fanout_slots),
                        )
                    },
                    None => r is Err,
                },
    {
        match read_lock(&self.inner) {
            Some(guard) => {
                let schedules = guarded(&guard);
                proof {
                    self.lemma_shown(guard, *schedules);
                }
                schedules.get_unique_leaders_for_slot_fanout(current_slot, fanout_slots)
            },
            None => {
                assert(self.reads(None));
                Err(PoisonError)
            },
        }
    }

    /// The epoch of the current schedule; `None` where the lock is poisoned.
    pub fn current_epoch(&self) -> (r: Option<u64>)
        ensures
            exists|shown: Option<InnerManagedLeaderSchedule>|
                #![trigger self.reads(shown)]
                self.reads(shown) && r == match shown {
                    Some(schedules) => Some(schedules.current.epoch()),
                    None => None,
                },
    {
        match read_lock(&self.inner) {
            Some(guard) => {
                let schedules = guarded(&guard);
                proof {
                    self.lemma_shown(guard, *schedules);
                }
                Some(schedules.current.first_slot / DEFAULT_SLOTS_PER_EPOCH)
            },
            None => {
                assert(self.reads(None));
                None
            },
        }
    }
}

/// The handle through which a managed schedule is updated. There is one for each managed
/// schedule that is updated at all.
pub struct ScheduleWriter {
    lock: LockWriter<InnerManagedLeaderSchedule>,
    latest: InnerManagedLeaderSchedule,
}

impl ScheduleWriter {
    /// The managed schedule that is updated.
    pub closed spec fn shared(&self) -> ManagedLeaderSchedule {
        ManagedLeaderSchedule { inner: Arc::new(self.lock.lock()) }
    }

    /// The schedules that the managed schedule was made to hold.
    pub closed spec fn initial(&self) -> InnerManagedLeaderSchedule {
        self.lock.initial()
    }

    /// The writes that were made.
    pub closed spec fn writes(&self) -> Seq<LockWrite<InnerManagedLeaderSchedule>> {
        self.lock.writes()
    }

    /// The schedules after these writes.
    pub open spec fn schedules(&self) -> InnerManagedLeaderSchedule {
        crate::sync::held_after(self.initial(), self.writes())
    }

    /// The handle knows the schedules.
    pub closed spec fn wf(&self) -> bool {
        self.latest == self.schedules()
    }

    /// This is a later state of the handle `before`: after its writes come `writes`.
    pub open spec fn continues(
        self,
        before: Self,
        writes: Seq<LockWrite<InnerManagedLeaderSchedule>>,
    ) -> bool {
        &&& self.shared() == before.shared()
        &&& self.initial() == before.initial()
        &&& self.writes() == before.writes() + writes
    }

    /// Makes a managed schedule that starts out with these schedules, to be updated through this
    /// handle.
    pub fn start(current: CompactSortedSchedule, next: CompactSortedSchedule) -> (r: Self)
        ensures
            r.wf(),
            r.initial() == InnerManagedLeaderSchedule::fresh(current, next),
            r.shared().made_with(r.initial()),
            r.writes() == Seq::<LockWrite<InnerManagedLeaderSchedule>>::empty(),
    {
        let latest = InnerManagedLeaderSchedule {
            current: Arc::new(current),
            next: Arc::new(next),
            fail: false,
        };
        ScheduleWriter { lock: LockWriter::start(latest.clone()), latest }
    }

    /// The managed schedule, to be read.
    pub fn reader(&self) -> (r: ManagedLeaderSchedule)
        ensures
            r == self.shared(),
    {
        ManagedLeaderSchedule { inner: self.lock.reader() }
    }

    /// The epoch of the current schedule.
    pub fn current_epoch(&self) -> (r: u64)
        requires
            self.wf(),
        ensures
            r == self.schedules().current.epoch(),
    {
        self.latest.current.first_slot / DEFAULT_SLOTS_PER_EPOCH
    }

    /// Puts these schedules in the place of those that the lock holds.
    fn publish(&mut self, fresh: InnerManagedLeaderSchedule) -> (r: bool)
        requires
            old(self).wf(),
        ensures
            final(self).wf(),
            final(self).continues(*old(self), seq![LockWrite { value: fresh, done: r }]),
    {
        let done = overwrite(&mut self.lock, fresh.clone());
        assert(self.writes().drop_last() =~= old(self).writes());
        assert(self.writes() =~= old(self).writes() + seq![LockWrite { value: fresh, done }]);
        if done {
            self.latest = fresh;
        }
        done
    }

    /// Puts a fresh schedule in the place of the next one, under the write lock, and changes
    /// nothing else; `false`, with nothing changed, where the lock is poisoned.
    pub fn publish_next(&mut self, next: CompactSortedSchedule) -> (r: bool)
        requires
            old(self).wf(),
        ensures
            final(self).wf(),
            final(self).continues(
                *old(self),
                seq![LockWrite { value: old(self).schedules().with_next(next), done: r }],
            ),
    {
        let mut fresh = self.latest.clone();
        fresh.install_next(next);
        self.publish(fresh)
    }

    /// Puts fresh schedules in the place of both, under the write lock, and changes nothing
    /// else; `false`, with nothing changed, where the lock is poisoned.
    pub fn publish_both(&mut self, current: CompactSortedSchedule, next: CompactSortedSchedule)
        -> (r: bool)
        requires
            old(self).wf(),
        ensures
            final(self).wf(),
            final(self).continues(
                *old(self),
                seq![LockWrite { value: old(self).schedules().with_both(current, next), done: r }],
            ),
    {
        let mut fresh = self.latest.clone();
        fresh.install_both(current, next);
        self.publish(fresh)
    }

    /// Marks the schedules as no longer updated, under the write lock, and changes nothing
    /// else: every later lookup is answered with [`PoisonError`]. `false`, with nothing changed,
    /// where the lock is poisoned, which answers every lookup in the same way.
    pub fn mark_failed(&mut self) -> (r: bool)
        requires
            old(self).wf(),
        ensures
            final(self).wf(),
            final(self).continues(
                *old(self),
                seq![LockWrite { value: old(self).schedules().with_failure(), done: r }],
            ),
    {
        let mut fresh = self.latest.clone();
        fresh.fail_updates();
        self.publish(fresh)
    }
}

/// How often the epoch is checked by default, in seconds.
pub const DEFAULT_AUTO_LEADER_SCHEDULE_CHECK_INTERVAL_SECS: u64 = 300;

/// Configuration for a managed leader schedule.
#[derive(Debug, Clone, Copy)]
pub struct ManagedLeaderScheduleConfig {
    /// How long to wait before checking for a new epoch schedule.
    pub check_interval: std::time::Duration,
}

impl ManagedLeaderScheduleConfig {
    /// Default check interval duration.
    pub fn default_check_interval() -> (r: std::time::Duration)
        ensures
            crate::time::duration_nanos(r) == 300 * 1_000_000_000,
    {
        crate::time::duration_from_secs(DEFAULT_AUTO_LEADER_SCHEDULE_CHECK_INTERVAL_SECS)
    }
}

impl Default for ManagedLeaderScheduleConfig {
    fn default() -> (r: Self)
        ensures
            crate::time::duration_nanos(r.check_interval) == 300 * 1_000_000_000,
    {
        ManagedLeaderScheduleConfig { check_interval: Self::default_check_interval() }
    }
}

/// Why a managed leader schedule could not be set up; `E` is the error of the RPC client.
#[derive(Debug)]
pub enum SpawnManagedLeaderScheduleError<E> {
    /// A request failed.
    Client(E),
    /// The cluster has no schedule for this slot, or for its current slot.
    LeaderScheduleUnavailable(Option<u64>),
}

/// Takes the schedule that a request for `slot_ctx` answered with, and says why there is none
/// where there is none.
pub fn accept_schedule<E>(
    slot_ctx: Option<u64>,
    fetched: Result<Option<CompactSortedSchedule>, E>,
) -> (r: Result<CompactSortedSchedule, SpawnManagedLeaderScheduleError<E>>)
    ensures
        r == match fetched {
            Ok(Some(schedule)) => Ok(schedule),
            Ok(None) => Err(SpawnManagedLeaderScheduleError::LeaderScheduleUnavailable(slot_ctx)),
            Err(error) => Err(SpawnManagedLeaderScheduleError::Client(error)),
        },
{
    match fetched {
        Ok(Some(schedule)) => Ok(schedule),
        Ok(None) => Err(SpawnManagedLeaderScheduleError::LeaderScheduleUnavailable(slot_ctx)),
        Err(error) => Err(SpawnManagedLeaderScheduleError::Client(error)),
    }
}

/// The first slot of the epoch after the one that `schedule` is for.
pub fn next_epoch_first_slot(schedule: &CompactSortedSchedule) -> (r: u64)
    requires
        epoch_start(schedule.first_slot as int) + DEFAULT_SLOTS_PER_EPOCH <= u64::MAX,
    ensures
        r == epoch_start(schedule.first_slot as int) + DEFAULT_SLOTS_PER_EPOCH,
{
    let current_epoch: u64 = schedule.first_slot / DEFAULT_SLOTS_PER_EPOCH;
    (current_epoch + 1) * DEFAULT_SLOTS_PER_EPOCH
}

/// What a read of a managed schedule shows is what its lock answers: the value behind the guard
/// that it gives, or that it is poisoned.
proof fn law_a_read_shows_what_the_lock_answers(
    shared: ManagedLeaderSchedule,
    schedules: InnerManagedLeaderSchedule,
)
    ensures
        shared.reads(None) ==> call_ensures(
            read_lock::<InnerManagedLeaderSchedule>,
            (&*shared.inner,),
            None,
        ),
        shared.reads(Some(schedules)) ==> exists|
            guard: RwLockReadGuard<'_, InnerManagedLeaderSchedule>,
        |
            {
                &&& #[trigger] call_ensures(
                    read_lock::<InnerManagedLeaderSchedule>,
                    (&*shared.inner,),
                    Some(guard),
                )
                &&& call_ensures(guarded::<InnerManagedLeaderSchedule>, (&guard,), &schedules)
            },
{
    if shared.reads(Some(schedules)) {
        let guard = choose|guard: RwLockReadGuard<'_, InnerManagedLeaderSchedule>|
            shared.shown_by(guard, schedules);
        assert(call_ensures(
            read_lock::<InnerManagedLeaderSchedule>,
            (&*shared.inner,),
            Some(guard),
        ));
    }
}

/// A managed schedule is made of a lock that is made to hold its schedules.
proof fn law_a_managed_schedule_is_a_lock_on_its_schedules(
    shared: ManagedLeaderSchedule,
    schedules: InnerManagedLeaderSchedule,
)
    ensures
        shared.made_with(schedules) ==> call_ensures(
            new_lock::<InnerManagedLeaderSchedule>,
            (schedules,),
            *shared.inner,
        ),
{
}

/// The schedules of a writer are those that its lock holds after its writes, and its reader reads
/// that lock.
proof fn law_a_writer_knows_its_lock(writer: ScheduleWriter)
    ensures
        writer.initial() == writer.lock.initial(),
        writer.writes() == writer.lock.writes(),
        *writer.shared().inner == writer.lock.lock(),
{
}

} // verus!
