use std::sync::Arc;
use tpu_client::pubkey::Pubkey;
use tpu_client::rpc::schedule::{
    CompactSortedSchedule, ManagedLeaderSchedule, PoisonError, DEFAULT_SLOTS_PER_EPOCH,
};
use tpu_client::slot::{AtomicSlotTracker, SlotWriter};
use tpu_client::yellowstone_grpc::schedule::{take_answer, YellowstoneUpcomingLeader};
use tpu_client::yellowstone_grpc::slot_tracker::mark_tracker_unavailable;

fn new_unique() -> Pubkey {
    Pubkey::new_from_array(solana_pubkey::Pubkey::new_unique().to_bytes())
}

fn predictor(slot: u64, leaders: Vec<Pubkey>) -> YellowstoneUpcomingLeader {
    YellowstoneUpcomingLeader {
        slot_tracker: Arc::new(AtomicSlotTracker::new(slot)),
        managed_schedule: ManagedLeaderSchedule::new(
            CompactSortedSchedule {
                first_slot: 0,
                schedule: leaders.clone(),
            },
            CompactSortedSchedule {
                first_slot: DEFAULT_SLOTS_PER_EPOCH,
                schedule: leaders,
            },
        ),
    }
}

#[test]
fn prediction_includes_current_leader_first() {
    let current_leader = new_unique();
    let next_leader = new_unique();
    let third_leader = new_unique();
    let predictor = predictor(1, vec![current_leader, next_leader, third_leader]);

    let leaders = predictor.try_predict_next_n_leaders(2).expect("slots");

    assert_eq!(leaders, vec![current_leader, next_leader]);
}

#[test]
fn prediction_passes_over_unknown_leaders() {
    let leader = new_unique();
    let predictor = predictor(0, vec![leader, leader]);
    assert_eq!(
        predictor.try_predict_next_n_leaders(5),
        Some(vec![leader, leader])
    );
    assert_eq!(predictor.try_predict_next_n_leaders(0), Some(vec![]));
}

#[test]
fn there_is_no_prediction_without_a_slot() {
    let mut writer = SlotWriter::start(0);
    let mut predictor = predictor(0, vec![new_unique()]);
    predictor.slot_tracker = writer.reader();
    mark_tracker_unavailable(&mut writer);
    assert_eq!(predictor.try_predict_next_n_leaders(1), Some(vec![]));
}

#[test]
fn prediction_ends_where_slots_end() {
    let predictor = predictor(u64::MAX, vec![new_unique()]);
    assert_eq!(predictor.try_predict_next_n_leaders(1), Some(vec![]));
    assert_eq!(predictor.try_predict_next_n_leaders(2), None);
}

#[test]
fn prediction_names_every_leader_of_the_fanout() {
    let leaders: Vec<Pubkey> = (0..5).map(|_| new_unique()).collect();
    let predictor = predictor(3, leaders.clone());

    let fanout = predictor
        .managed_schedule
        .get_unique_leaders_for_slot_fanout(3, 12)
        .expect("schedule");
    let predicted = predictor.try_predict_next_n_leaders(3).expect("slots");

    assert_eq!(fanout, leaders[..3].to_vec());
    assert!(fanout.iter().all(|leader| predicted.contains(leader)));
}

#[test]
fn a_failed_answer_ends_the_prediction() {
    let leader = new_unique();
    let mut leaders = vec![];

    assert!(take_answer(&mut leaders, Ok(Some(leader))));
    assert!(take_answer(&mut leaders, Ok(None)));
    assert_eq!(leaders, vec![leader]);

    assert!(!take_answer(&mut leaders, Err(PoisonError)));
    assert_eq!(leaders, vec![]);
}
