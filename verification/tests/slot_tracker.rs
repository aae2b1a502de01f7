use tpu_client::slot::{AtomicSlotTracker, SlotTrackerClosed, SlotWriter};
use tpu_client::yellowstone_grpc::slot_tracker::{
    get_yellowstone_slot_tracker_subscribe_request, mark_tracker_unavailable, store_slot,
    wait_for_next_slot, Reconnect, SlotStream, SlotStreamEvent, SlotStreamStep,
    SlotTrackerStreamExit, SlotWait, SLOT_TRACKER_DM_FILTER_NAME,
};

/// Processes the events of a stream, and makes the slot unavailable when it is left.
fn atomic_slot_tracker_loop(events: Vec<SlotStreamEvent>, writer: &mut SlotWriter) {
    let mut stream = SlotStream::new(writer);
    for event in events {
        if stream.process(event, writer).is_some() {
            Reconnect::new().on_stream_exit(writer);
            return;
        }
    }
}

#[test]
fn test_atomic_slot_tracker_loop() {
    let mut writer = SlotWriter::start(0);
    let slot_tracker = writer.reader();
    let updates = vec![
        SlotStreamEvent::Slot(1),
        SlotStreamEvent::Slot(2),
        SlotStreamEvent::Slot(3),
    ];
    let expected_slot_views = [1, 2, 3];
    let mut stream = SlotStream::new(&writer);

    for (i, update) in updates.into_iter().enumerate() {
        assert_eq!(stream.process(update, &mut writer), None);
        let expected_slot = expected_slot_views[i];
        let current_slot = slot_tracker.load().expect("load");
        assert_eq!(current_slot, expected_slot);
    }

    mark_tracker_unavailable(&mut writer);
    assert!(slot_tracker.is_closed());
}

#[test]
fn test_it_should_poison_when_stream_empty() {
    let mut writer = SlotWriter::start(0);
    let slot_tracker = writer.reader();

    atomic_slot_tracker_loop(vec![SlotStreamEvent::Ended], &mut writer);

    assert!(slot_tracker.is_closed());
}

#[test]
fn test_it_should_poison_without_panicking_when_stream_errors() {
    let mut writer = SlotWriter::start(42);
    let slot_tracker = writer.reader();

    atomic_slot_tracker_loop(vec![SlotStreamEvent::Failed], &mut writer);

    assert!(slot_tracker.load().is_err());
    assert!(slot_tracker.is_closed());
}

#[test]
fn test_slot_tracker_becomes_available_again_when_new_slot_arrives() {
    let mut writer = SlotWriter::start(42);
    let slot_tracker = writer.reader();
    mark_tracker_unavailable(&mut writer);
    assert!(slot_tracker.load().is_err());

    let mut stream = SlotStream::new(&writer);
    assert_eq!(
        stream.process(SlotStreamEvent::Slot(43), &mut writer),
        None
    );
    let outcome = stream.process(SlotStreamEvent::Ended, &mut writer);

    assert!(matches!(outcome, Some(SlotTrackerStreamExit::Ended)));
    assert_eq!(slot_tracker.load().expect("load"), 43);
    assert!(!slot_tracker.is_closed());
}

#[test]
fn slot_tracker_bypasses_client_autoreconnect_filter_injection() {
    let request = get_yellowstone_slot_tracker_subscribe_request();

    assert_eq!(
        request.slots.len(),
        1,
        "slot tracker should send its one-filter request"
    );
    assert_eq!(request.slots[0].0, SLOT_TRACKER_DM_FILTER_NAME);
    assert_eq!(request.slots[0].0, "jet-tpu-client");
    assert_eq!(request.slots[0].1.interslot_updates, Some(true));
    assert_eq!(request.slots[0].1.filter_by_commitment, None);
}

#[test]
fn an_older_slot_is_ignored_and_keeps_the_tracker_unavailable() {
    let mut writer = SlotWriter::start(42);
    let slot_tracker = writer.reader();
    mark_tracker_unavailable(&mut writer);
    let mut stream = SlotStream::new(&writer);
    for event in [
        SlotStreamEvent::Slot(42),
        SlotStreamEvent::Slot(7),
        SlotStreamEvent::Empty,
        SlotStreamEvent::Other,
    ] {
        assert_eq!(stream.process(event, &mut writer), None);
    }
    assert_eq!(slot_tracker.load(), Err(SlotTrackerClosed));
    assert_eq!(slot_tracker.last_slot(), 42);
    assert_eq!(stream.current_slot, 42);
}

#[test]
fn each_event_has_its_step() {
    let mut stream = SlotStream { current_slot: 10 };
    assert_eq!(
        stream.step(SlotStreamEvent::Slot(11)),
        SlotStreamStep::Store(11)
    );
    assert_eq!(
        stream.step(SlotStreamEvent::Slot(11)),
        SlotStreamStep::Continue
    );
    assert_eq!(stream.step(SlotStreamEvent::Empty), SlotStreamStep::Continue);
    assert_eq!(stream.step(SlotStreamEvent::Other), SlotStreamStep::Continue);
    assert_eq!(
        stream.step(SlotStreamEvent::Ended),
        SlotStreamStep::Exit(SlotTrackerStreamExit::Ended)
    );
    assert_eq!(
        stream.step(SlotStreamEvent::Failed),
        SlotStreamStep::Exit(SlotTrackerStreamExit::Error)
    );
}

#[test]
fn a_stored_slot_is_available() {
    let mut writer = SlotWriter::start(5);
    let slot_tracker = writer.reader();
    mark_tracker_unavailable(&mut writer);
    store_slot(&mut writer, 6);
    assert_eq!(slot_tracker.load(), Ok(6));
}

#[test]
fn the_first_slot_is_awaited() {
    assert_eq!(wait_for_next_slot(SlotStreamEvent::Empty), SlotWait::Waiting);
    assert_eq!(wait_for_next_slot(SlotStreamEvent::Other), SlotWait::Waiting);
    assert_eq!(
        wait_for_next_slot(SlotStreamEvent::Slot(9)),
        SlotWait::Done(Some(9))
    );
    assert_eq!(
        wait_for_next_slot(SlotStreamEvent::Ended),
        SlotWait::Done(None)
    );
    assert_eq!(wait_for_next_slot(SlotStreamEvent::Failed), SlotWait::Failed);
}

#[test]
fn the_backoff_doubles_up_to_five_seconds_and_starts_over() {
    let mut writer = SlotWriter::start(5);
    let slot_tracker = writer.reader();
    let mut reconnect = Reconnect::new();
    assert_eq!(reconnect.on_stream_exit(&mut writer), 200);
    assert!(slot_tracker.is_closed());
    let waits: Vec<Option<u64>> = (0..7).map(|_| reconnect.on_subscribe(false)).collect();
    assert_eq!(
        waits,
        [400, 800, 1_600, 3_200, 5_000, 5_000, 5_000].map(Some)
    );
    assert_eq!(reconnect.on_subscribe(true), None);
    assert_eq!(reconnect.backoff_ms, 200);
}

#[test]
fn leaving_the_stream_changes_nothing_until_the_tracker_is_marked() {
    let mut writer = SlotWriter::start(5);
    let slot_tracker = writer.reader();
    let mut stream = SlotStream::new(&writer);
    assert_eq!(
        stream.process(SlotStreamEvent::Failed, &mut writer),
        Some(SlotTrackerStreamExit::Error)
    );
    assert_eq!(slot_tracker.load(), Ok(5));
    mark_tracker_unavailable(&mut writer);
    assert_eq!(slot_tracker.load(), Err(SlotTrackerClosed));
    assert_eq!(slot_tracker.last_slot(), 5);
    assert_eq!(writer.last_slot(), 5);
}

#[test]
fn a_new_tracker_is_open() {
    let slot_tracker = AtomicSlotTracker::new(11);
    assert_eq!(slot_tracker.load(), Ok(11));
    assert!(!slot_tracker.is_closed());
}

#[test]
fn the_writer_knows_the_published_slot() {
    let mut writer = SlotWriter::start(7);
    store_slot(&mut writer, 9);
    mark_tracker_unavailable(&mut writer);
    assert_eq!(writer.last_slot(), 9);
    assert_eq!(SlotStream::new(&writer).current_slot, 9);
    assert_eq!(writer.reader().last_slot(), 9);
}
