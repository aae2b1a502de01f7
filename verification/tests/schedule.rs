use rand::distr::{weighted::WeightedIndex, Distribution};
use std::collections::BTreeMap;
use std::sync::Arc;
use tpu_client::pubkey::Pubkey;
use tpu_client::rpc::refresh::{RefreshStep, ScheduleFetch, ScheduleRefresher};
use tpu_client::rpc::schedule::{
    accept_schedule, checked_unnest_rpc_get_leader_schedule_resp, next_epoch_first_slot,
    unnest_leader_entries, unnest_rpc_get_leader_schedule_resp, CompactSortedSchedule,
    InnerManagedLeaderSchedule, LeaderEntry, ManagedLeaderSchedule, ManagedLeaderScheduleConfig,
    PoisonError, ScheduleWriter, SpawnManagedLeaderScheduleError, DEFAULT_SLOTS_PER_EPOCH,
    ROUNDS_PER_EPOCH,
};

fn new_unique() -> Pubkey {
    Pubkey::new_from_array(solana_pubkey::Pubkey::new_unique().to_bytes())
}

fn base58(key: &Pubkey) -> String {
    solana_pubkey::Pubkey::new_from_array(key.to_bytes()).to_string()
}

fn response(nested: &BTreeMap<String, Vec<usize>>) -> Vec<(String, Vec<usize>)> {
    nested
        .iter()
        .map(|(name, slots)| (name.clone(), slots.clone()))
        .collect()
}

fn schedule(first_slot: u64, schedule: Vec<Pubkey>) -> CompactSortedSchedule {
    CompactSortedSchedule {
        first_slot,
        schedule,
    }
}

fn managed(current: CompactSortedSchedule, next: CompactSortedSchedule) -> ManagedLeaderSchedule {
    ManagedLeaderSchedule::new(current, next)
}

fn exponential_distribution(n: usize, base: f64, r: f64) -> Vec<u64> {
    // returns a vector of stake weights
    (0..n).map(|i| (base * r.powi(i as i32)) as u64).collect()
}

#[test]
fn test_unnest_rpc_get_leader_schedule_resp() {
    let validator_rounds = DEFAULT_SLOTS_PER_EPOCH as usize / 4;
    const N: usize = 100;
    let stakes = exponential_distribution(N, 1_000_000.0, 0.97);
    let dist = WeightedIndex::new(&stakes).unwrap();

    let validator_keys = (0..N).map(|_| new_unique()).collect::<Vec<Pubkey>>();

    let mut rng = rand::rng();
    let mut nested_schedule: BTreeMap<String, Vec<usize>> = BTreeMap::new();
    for round in 0..validator_rounds {
        let chosen_idx = dist.sample(&mut rng);
        let chosen_key = &validator_keys[chosen_idx];
        let entries = nested_schedule.entry(base58(chosen_key)).or_default();

        for i in 0..4 {
            let slot_idx = round * 4 + i;
            entries.push(slot_idx);
        }
    }

    let compact_schedule = unnest_rpc_get_leader_schedule_resp(0, &response(&nested_schedule));

    assert!(compact_schedule.first_slot == 0);

    let mut actual: BTreeMap<String, Vec<usize>> = Default::default();

    for (slot, pubkey) in compact_schedule.iter_unnested_schedule() {
        let pubkey_str = base58(pubkey);
        assert!(
            nested_schedule.contains_key(&pubkey_str),
            "Unknown pubkey {pubkey_str}",
        );
        actual.entry(pubkey_str).or_default().push(slot as usize);
    }

    assert_eq!(nested_schedule.len(), actual.len());
    let diff = nested_schedule
        .keys()
        .filter(|k| !actual.contains_key(*k))
        .collect::<Vec<_>>();

    assert!(diff.is_empty(), "Mismatched keys: {diff:?}");
    assert_eq!(nested_schedule, actual);
}

#[test]
fn get_leaders_for_slots_matches_individual_lookup() {
    let leader_a = new_unique();
    let leader_b = new_unique();
    let managed = managed(
        schedule(0, vec![leader_a, leader_b]),
        schedule(DEFAULT_SLOTS_PER_EPOCH, vec![new_unique()]),
    );

    let batched = managed
        .get_leaders_for_slots([0, 4])
        .expect("batched lookup");

    assert_eq!(batched[0], managed.get_leader(0).expect("slot 0"));
    assert_eq!(batched[1], managed.get_leader(4).expect("slot 4"));
    assert_eq!(batched, [Some(leader_a), Some(leader_b)]);
}

#[test]
fn fanout_leader_lookup_avoids_hash_table_on_send_path() {
    // Leaders come in the order in which they first lead, as a linear search for duplicates
    // leaves them; a table of hashes would not keep that order.
    let leaders: Vec<Pubkey> = (0..16).map(|_| new_unique()).collect();
    let mut rounds = leaders.clone();
    rounds.extend(leaders.iter().rev());
    let managed = managed(
        schedule(0, rounds),
        schedule(DEFAULT_SLOTS_PER_EPOCH, vec![]),
    );

    assert_eq!(
        managed.get_unique_leaders_for_slot_fanout(0, 128),
        Ok(leaders)
    );
}

#[test]
fn epoch_length_is_that_of_the_cluster() {
    assert_eq!(
        DEFAULT_SLOTS_PER_EPOCH,
        solana_clock::DEFAULT_SLOTS_PER_EPOCH
    );
    assert_eq!(ROUNDS_PER_EPOCH as u64 * 4, DEFAULT_SLOTS_PER_EPOCH);
}

#[test]
fn keys_are_read_from_base58() {
    let text = "4Nd1mBQtrMJVYVfKf2PJy9NZUZdTAsp7D4xWLs4gDB4T";
    let expected: solana_pubkey::Pubkey = text.parse().unwrap();
    assert_eq!(
        Pubkey::from_base58(text).map(|key| key.to_bytes()),
        Some(expected.to_bytes())
    );
    assert_eq!(
        Pubkey::from_base58("11111111111111111111111111111111"),
        Some(Pubkey::default())
    );
    assert_eq!(Pubkey::from_base58(""), None);
    assert_eq!(Pubkey::from_base58("0OIl"), None);
    assert_eq!(Pubkey::default().to_bytes(), [0; 32]);
    assert!(Pubkey::from_base58(text) != Some(Pubkey::default()));
}

#[test]
fn unnesting_places_slots_in_their_epoch() {
    let key = new_unique();
    let resp = vec![(base58(&key), vec![8, 9, 10, 11])];
    let compact = unnest_rpc_get_leader_schedule_resp(2 * DEFAULT_SLOTS_PER_EPOCH + 17, &resp);
    assert_eq!(compact.first_slot, 864_000);
    assert_eq!(compact.last_slot(), 1_295_999);
    assert_eq!(compact.schedule.len(), ROUNDS_PER_EPOCH);
    assert_eq!(compact.get(&864_007), Some(&Pubkey::default()));
    for slot in 864_008..864_012 {
        assert_eq!(compact.get(&slot), Some(&key));
    }
    assert_eq!(compact.get(&864_012), Some(&Pubkey::default()));
    assert_eq!(compact.get(&863_999), None);
    assert_eq!(compact.get(&1_296_000), None);
}

#[test]
fn unnesting_skips_invalid_keys_and_lets_the_last_entry_win() {
    let first = new_unique();
    let second = new_unique();
    let resp = vec![
        (base58(&first), vec![0, 4]),
        (base58(&second), vec![4]),
        ("not a key".to_string(), vec![0, 4, 8, 432_000]),
    ];
    let compact = checked_unnest_rpc_get_leader_schedule_resp(0, &resp).expect("in range");
    assert_eq!(compact.get(&0), Some(&first));
    assert_eq!(compact.get(&4), Some(&second));
    assert_eq!(compact.get(&8), Some(&Pubkey::default()));
}

#[test]
fn unnesting_refuses_slots_outside_the_epoch() {
    let key = base58(&new_unique());
    let at = |slots: Vec<usize>| {
        checked_unnest_rpc_get_leader_schedule_resp(0, &vec![(key.clone(), slots)]).is_some()
    };
    assert!(at(vec![431_996]));
    assert!(!at(vec![432_000]));
    // only the first slot of a round claims it
    assert!(at(vec![432_001]));
}

#[test]
fn unnesting_goes_by_the_entries() {
    let key = new_unique();
    let slots = vec![1, 4, 5, 6, 7];
    let skipped = vec![0, 500_000];
    let entries = vec![
        LeaderEntry {
            leader: Some(key),
            slots: &slots,
        },
        LeaderEntry {
            leader: None,
            slots: &skipped,
        },
    ];
    let compact = unnest_leader_entries(5, &entries);
    assert_eq!(compact.schedule[0], Pubkey::default());
    assert_eq!(compact.schedule[1], key);
}

#[test]
fn listing_agrees_with_lookup() {
    let compact = schedule(40, vec![new_unique(), new_unique()]);
    let pairs = compact.iter_unnested_schedule();
    let slots: Vec<u64> = pairs.iter().map(|(slot, _)| *slot).collect();
    assert_eq!(slots, (40..48).collect::<Vec<u64>>());
    for (slot, leader) in pairs {
        assert_eq!(compact.get(&slot), Some(leader));
    }
    assert_eq!(compact.get(&48), None);
    assert!(schedule(40, vec![]).iter_unnested_schedule().is_empty());
}

#[test]
fn the_last_epoch_of_all_has_leaders() {
    let leader = new_unique();
    let compact = schedule(u64::MAX - 1, vec![leader]);
    assert_eq!(compact.get(&u64::MAX), Some(&leader));
    assert_eq!(compact.get(&0), None);
}

#[test]
fn the_next_schedule_takes_over_at_its_first_slot() {
    let current = new_unique();
    let next = new_unique();
    let managed = managed(
        schedule(0, vec![current; ROUNDS_PER_EPOCH]),
        schedule(DEFAULT_SLOTS_PER_EPOCH, vec![next]),
    );
    assert_eq!(managed.get_leader(431_999), Ok(Some(current)));
    assert_eq!(managed.get_leader(432_000), Ok(Some(next)));
    assert_eq!(managed.get_leader(432_004), Ok(None));
    assert_eq!(
        managed.get_unique_leaders_for_slot_fanout(431_997, 12),
        Ok(vec![current, next])
    );
}

#[test]
fn fanout_windows() {
    let leaders: Vec<Pubkey> = (0..4).map(|_| new_unique()).collect();
    let managed = managed(
        schedule(0, leaders.clone()),
        schedule(DEFAULT_SLOTS_PER_EPOCH, vec![]),
    );
    let fanout = |slot, slots| managed.get_unique_leaders_for_slot_fanout(slot, slots).unwrap();
    assert_eq!(fanout(0, 0), vec![]);
    assert_eq!(fanout(0, 1), leaders[..1].to_vec());
    assert_eq!(fanout(0, 4), leaders[..1].to_vec());
    assert_eq!(fanout(0, 5), leaders[..2].to_vec());
    // the stride is counted from the current slot, not from the round it is in
    assert_eq!(fanout(3, 2), leaders[..1].to_vec());
    assert_eq!(fanout(3, 5), leaders[..2].to_vec());
    assert_eq!(fanout(0, 100), leaders);
    assert_eq!(fanout(u64::MAX, 12), vec![]);
    assert_eq!(fanout(u64::MAX - 3, 12), vec![]);
}

#[test]
fn a_failed_update_task_poisons_lookups() {
    let inner = InnerManagedLeaderSchedule {
        current: Arc::new(schedule(0, vec![new_unique()])),
        next: Arc::new(schedule(DEFAULT_SLOTS_PER_EPOCH, vec![])),
        fail: true,
    };
    assert_eq!(inner.get_leader(0), Err(PoisonError));
    assert_eq!(inner.get_leaders_for_slots([0, 1]), Err(PoisonError));
    assert_eq!(
        inner.get_unique_leaders_for_slot_fanout(0, 12),
        Err(PoisonError)
    );
    assert_eq!(PoisonError.message(), "auto leader schedule poisoned");
}

#[test]
fn refresh_fetches_the_next_schedule_within_an_epoch() {
    let current = new_unique();
    let next = new_unique();
    let writer = ScheduleWriter::start(
        schedule(DEFAULT_SLOTS_PER_EPOCH, vec![current]),
        schedule(2 * DEFAULT_SLOTS_PER_EPOCH, vec![]),
    );
    let shared = writer.reader();
    let mut refresher = ScheduleRefresher::start(writer).expect("not poisoned");
    assert_eq!(refresher.current_epoch, 1);
    assert_eq!(refresher.on_epoch(None), RefreshStep::Wait);
    assert_eq!(
        refresher.on_epoch(Some(1)),
        RefreshStep::FetchNext {
            next_first_slot: 864_000
        }
    );
    assert_eq!(
        refresher.on_next_schedule(ScheduleFetch::Unavailable),
        RefreshStep::Wait
    );
    assert_eq!(
        refresher.on_next_schedule(ScheduleFetch::Failed),
        RefreshStep::Wait
    );
    assert_eq!(shared.get_leader(864_000), Ok(None));
    assert_eq!(
        refresher.on_next_schedule(ScheduleFetch::Found(schedule(864_000, vec![next]))),
        RefreshStep::Wait
    );
    assert_eq!(shared.get_leader(432_000), Ok(Some(current)));
    assert_eq!(shared.get_leader(864_000), Ok(Some(next)));
}

#[test]
fn refresh_replaces_both_schedules_when_the_epoch_changes() {
    let old = new_unique();
    let current = new_unique();
    let next = new_unique();
    let writer = ScheduleWriter::start(
        schedule(0, vec![old]),
        schedule(DEFAULT_SLOTS_PER_EPOCH, vec![old]),
    );
    let shared = writer.reader();
    let mut refresher = ScheduleRefresher::start(writer).expect("not poisoned");
    assert_eq!(
        refresher.on_epoch(Some(5)),
        RefreshStep::FetchBoth {
            epoch: 5,
            current_first_slot: 2_160_000,
            next_first_slot: 2_592_000
        }
    );
    let found = |first_slot, leader| ScheduleFetch::Found(schedule(first_slot, vec![leader]));
    assert_eq!(
        refresher.on_both_schedules(5, ScheduleFetch::Failed, found(2_592_000, next)),
        RefreshStep::Wait
    );
    assert_eq!(
        refresher.on_both_schedules(5, found(2_160_000, current), ScheduleFetch::Unavailable),
        RefreshStep::Wait
    );
    assert_eq!(refresher.current_epoch, 0);
    assert_eq!(shared.get_leader(0), Ok(Some(old)));
    assert_eq!(
        refresher.on_both_schedules(5, found(2_160_000, current), found(2_592_000, next)),
        RefreshStep::Wait
    );
    assert_eq!(refresher.current_epoch, 5);
    assert_eq!(shared.current_epoch(), Some(5));
    assert_eq!(shared.get_leader(0), Ok(None));
    assert_eq!(shared.get_leader(2_160_003), Ok(Some(current)));
    assert_eq!(shared.get_leader(2_592_000), Ok(Some(next)));
}

#[test]
fn a_missing_initial_schedule_is_an_error() {
    let found: Result<_, SpawnManagedLeaderScheduleError<u8>> =
        accept_schedule(None, Ok(Some(schedule(432_000, vec![]))));
    let found = found.expect("found");
    assert_eq!(next_epoch_first_slot(&found), 864_000);
    assert!(matches!(
        accept_schedule::<u8>(Some(864_000), Ok(None)),
        Err(SpawnManagedLeaderScheduleError::LeaderScheduleUnavailable(
            Some(864_000)
        ))
    ));
    assert!(matches!(
        accept_schedule::<u8>(None, Err(7)),
        Err(SpawnManagedLeaderScheduleError::Client(7))
    ));
}

#[test]
fn the_epoch_is_checked_every_five_minutes() {
    assert_eq!(
        ManagedLeaderScheduleConfig::default_check_interval(),
        std::time::Duration::from_secs(300)
    );
    assert_eq!(
        ManagedLeaderScheduleConfig::default().check_interval,
        std::time::Duration::from_secs(300)
    );
}

#[test]
fn clones_share_the_schedules() {
    let old_leader = new_unique();
    let new_leader = new_unique();
    let mut writer = ScheduleWriter::start(
        schedule(0, vec![old_leader]),
        schedule(DEFAULT_SLOTS_PER_EPOCH, vec![old_leader]),
    );
    let original = writer.reader();
    let clone = original.clone();

    assert!(writer.publish_next(schedule(DEFAULT_SLOTS_PER_EPOCH, vec![new_leader])));

    for handle in [original, clone] {
        assert_eq!(handle.get_leader(0), Ok(Some(old_leader)));
        assert_eq!(
            handle.get_leader(DEFAULT_SLOTS_PER_EPOCH),
            Ok(Some(new_leader))
        );
    }
}

#[test]
fn a_failed_update_task_poisons_every_clone() {
    let leader = new_unique();
    let writer = ScheduleWriter::start(
        schedule(0, vec![leader]),
        schedule(DEFAULT_SLOTS_PER_EPOCH, vec![leader]),
    );
    let shared = writer.reader();
    let mut refresher = ScheduleRefresher::start(writer).expect("not poisoned");
    assert_eq!(shared.get_leader(0), Ok(Some(leader)));

    assert!(refresher.writer.mark_failed());

    assert_eq!(shared.get_leader(0), Err(PoisonError));
    assert_eq!(shared.get_leaders_for_slots([0, 4]), Err(PoisonError));
    assert_eq!(
        shared.get_unique_leaders_for_slot_fanout(0, 12),
        Err(PoisonError)
    );
    let next = schedule(DEFAULT_SLOTS_PER_EPOCH, vec![leader]);
    assert_eq!(
        refresher.on_next_schedule(ScheduleFetch::Found(next)),
        RefreshStep::Wait
    );
    assert_eq!(shared.get_leader(0), Err(PoisonError));
}

#[test]
fn fanout_leaders_come_in_the_order_of_their_slots() {
    let first = new_unique();
    let second = new_unique();
    let third = new_unique();
    let shared = managed(
        schedule(0, vec![first, second, first, third, second]),
        schedule(DEFAULT_SLOTS_PER_EPOCH, vec![]),
    );
    assert_eq!(
        shared.get_unique_leaders_for_slot_fanout(4, 16),
        Ok(vec![second, first, third])
    );
}

#[test]
fn get_leaders_for_no_slots() {
    let shared = managed(
        schedule(0, vec![new_unique()]),
        schedule(DEFAULT_SLOTS_PER_EPOCH, vec![]),
    );
    assert_eq!(shared.get_leaders_for_slots([]), Ok([]));
}

#[test]
fn a_writer_keeps_the_half_that_it_does_not_replace() {
    let old = new_unique();
    let new = new_unique();
    let mut writer = ScheduleWriter::start(
        schedule(0, vec![old]),
        schedule(DEFAULT_SLOTS_PER_EPOCH, vec![old]),
    );
    let shared = writer.reader();
    assert_eq!(writer.current_epoch(), 0);

    assert!(writer.publish_next(schedule(DEFAULT_SLOTS_PER_EPOCH, vec![new])));
    assert_eq!(shared.get_leader(3), Ok(Some(old)));
    assert_eq!(shared.get_leader(DEFAULT_SLOTS_PER_EPOCH), Ok(Some(new)));

    assert!(writer.publish_both(
        schedule(DEFAULT_SLOTS_PER_EPOCH, vec![new]),
        schedule(2 * DEFAULT_SLOTS_PER_EPOCH, vec![old]),
    ));
    assert_eq!(writer.current_epoch(), 1);
    assert_eq!(shared.get_leader(3), Ok(None));
    assert_eq!(shared.get_leader(DEFAULT_SLOTS_PER_EPOCH), Ok(Some(new)));
}
