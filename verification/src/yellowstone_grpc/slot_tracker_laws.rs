//! What holds of slot tracking over whole streams and over many attempts to reconnect.
//!
//! The laws on what is published are stated of the stores that a [`SlotWriter`] records.

use crate::slot::{PublishedSlot, SlotStore, SlotWriter};
use crate::yellowstone_grpc::slot_tracker::{
    mark_tracker_unavailable, store_slot, wait_for_next_slot, Reconnect, SlotStream,
    SlotStreamEvent, SlotStreamStep, SlotTrackerStreamExit, SlotWait,
    SLOT_TRACKER_RECONNECT_INITIAL_BACKOFF_MS, SLOT_TRACKER_RECONNECT_MAX_BACKOFF_MS,
};
use vstd::prelude::*;

verus! {

/// Stores that follow one another can be taken together.
proof fn lemma_stores_in_two_parts(
    published: PublishedSlot,
    first: Seq<SlotStore>,
    second: Seq<SlotStore>,
)
    ensures
        published.after_stores(first + second) == published.after_stores(first).after_stores(
            second,
        ),
    decreases second.len(),
{
    if second.len() == 0 {
        assert(first + second =~= first);
    } else {
        assert((first + second).drop_last() =~= first + second.drop_last());
        lemma_stores_in_two_parts(published, first, second.drop_last());
    }
}

/// What the stores of an event publish.
proof fn lemma_event_publishes(published: PublishedSlot, event: SlotStreamEvent)
    ensures
        published.after_stores(
            crate::yellowstone_grpc::slot_tracker::stream_stores(published.slot, event),
        ) == match event {
            SlotStreamEvent::Slot(slot) if slot > published.slot => PublishedSlot {
                slot,
                closed: false,
            },
            _ => published,
        },
{
    let stores = crate::yellowstone_grpc::slot_tracker::stream_stores(published.slot, event);
    if stores.len() > 0 {
        assert(stores.drop_last().drop_last() =~= Seq::empty());
        assert(published.after_stores(stores.drop_last().drop_last()) == published);
        assert(published.after_stores(stores.drop_last()) == published.after_store(stores[0]));
    }
}

/// Processing the event, on a stream whose latest slot is `current_slot`, makes `after` of the
/// handle `before`.
pub open spec fn processed(
    before: SlotWriter,
    current_slot: u64,
    event: SlotStreamEvent,
    after: SlotWriter,
) -> bool {
    after.continues(
        before,
        crate::yellowstone_grpc::slot_tracker::stream_stores(current_slot, event),
    )
}

/// The slot that a stream keeps to itself is the one that is published, before an event and
/// after it.
pub proof fn law_stream_keeps_the_published_slot(
    before: SlotWriter,
    current_slot: u64,
    event: SlotStreamEvent,
    after: SlotWriter,
)
    requires
        before.published().slot == current_slot,
        processed(before, current_slot, event, after),
    ensures
        after.published().slot == crate::yellowstone_grpc::slot_tracker::slot_after(
            current_slot,
            event,
        ),
        after.published().slot >= before.published().slot,
{
    lemma_stores_in_two_parts(
        before.initial(),
        before.stores(),
        crate::yellowstone_grpc::slot_tracker::stream_stores(current_slot, event),
    );
    lemma_event_publishes(before.published(), event);
}

/// An unavailable slot becomes available again when a newer slot arrives, and by nothing else;
/// an available one stays so, whatever arrives.
pub proof fn law_only_a_newer_slot_makes_the_tracker_available(
    before: SlotWriter,
    current_slot: u64,
    event: SlotStreamEvent,
    after: SlotWriter,
)
    requires
        before.published().slot == current_slot,
        processed(before, current_slot, event, after),
    ensures
        after.published().closed <==> before.published().closed && !(event matches
            SlotStreamEvent::Slot(slot) && slot > current_slot),
{
    lemma_stores_in_two_parts(
        before.initial(),
        before.stores(),
        crate::yellowstone_grpc::slot_tracker::stream_stores(current_slot, event),
    );
    lemma_event_publishes(before.published(), event);
}

/// What is published does not change with an event that is no newer slot. In particular the
/// end and the failure of the stream leave it alone.
pub proof fn law_other_events_publish_nothing(
    before: SlotWriter,
    current_slot: u64,
    event: SlotStreamEvent,
    after: SlotWriter,
)
    requires
        processed(before, current_slot, event, after),
        !(event matches SlotStreamEvent::Slot(slot) && slot > current_slot),
    ensures
        after.stores() == before.stores(),
        after.published() == before.published(),
{
    assert(after.stores() =~= before.stores());
}

/// After the stream was left, the slot is unavailable and stays what it was: so it is after
/// leaving the stream to reconnect, and after the tracking task is gone.
pub proof fn law_leaving_the_stream_makes_the_tracker_unavailable(
    before: SlotWriter,
    after: SlotWriter,
)
    requires
        after.continues(before, seq![SlotStore::Closed(true)]),
    ensures
        after.published().closed,
        after.published().slot == before.published().slot,
{
    assert(after.stores().drop_last() =~= before.stores());
}

/// A published slot is available.
pub proof fn law_a_published_slot_is_available(
    before: SlotWriter,
    slot: u64,
    after: SlotWriter,
)
    requires
        after.continues(before, crate::yellowstone_grpc::slot_tracker::publishing(slot)),
    ensures
        after.published() == (PublishedSlot { slot, closed: false }),
{
    let stores = crate::yellowstone_grpc::slot_tracker::publishing(slot);
    let first = before.stores().push(stores[0]);
    assert(after.stores().drop_last() =~= first);
    assert(first.drop_last() =~= before.stores());
    assert(before.initial().after_stores(first) == before.published().after_store(stores[0]));
}

/// The latest slot after a sequence of events.
pub open spec fn slot_after_all(current_slot: u64, events: Seq<SlotStreamEvent>) -> u64
    decreases events.len(),
{
    if events.len() == 0 {
        current_slot
    } else {
        crate::yellowstone_grpc::slot_tracker::slot_after(
            slot_after_all(current_slot, events.drop_last()),
            events.last(),
        )
    }
}

/// One after the other, the events were processed by one stream that started at `current_slot`:
/// `writers` are the states of its handle, from before the first event to after the last.
pub open spec fn stream_processed(
    current_slot: u64,
    events: Seq<SlotStreamEvent>,
    writers: Seq<SlotWriter>,
) -> bool {
    &&& writers.len() == events.len() + 1
    &&& forall|i: int|
        0 <= i < events.len() ==> processed(
            writers[i],
            slot_after_all(current_slot, events.take(i)),
            #[trigger] events[i],
            writers[i + 1],
        )
}

/// The latest slot after a sequence of events is the highest one: no update is above it, and it
/// is the slot before or that of an update.
pub proof fn law_latest_slot_is_the_highest(current_slot: u64, events: Seq<SlotStreamEvent>)
    ensures
        slot_after_all(current_slot, events) >= current_slot,
        forall|i: int|
            0 <= i < events.len() ==> (#[trigger] events[i] matches SlotStreamEvent::Slot(slot)
                ==> slot <= slot_after_all(current_slot, events)),
        slot_after_all(current_slot, events) == current_slot || exists|i: int|
            0 <= i < events.len() && #[trigger] events[i] == SlotStreamEvent::Slot(
                slot_after_all(current_slot, events),
            ),
    decreases events.len(),
{
    if events.len() > 0 {
        let n = events.len() - 1;
        let rest = events.drop_last();
        let before = slot_after_all(current_slot, rest);
        let latest = slot_after_all(current_slot, events);
        law_latest_slot_is_the_highest(current_slot, rest);
        assert(events[n] == events.last());
        assert forall|i: int| 0 <= i < events.len() implies (
        #[trigger] events[i] matches SlotStreamEvent::Slot(slot) ==> slot <= latest) by {
            if i < n {
                assert(events[i] == rest[i]);
            }
        }
        if before != current_slot {
            let i = choose|i: int|
                0 <= i < rest.len() && #[trigger] rest[i] == SlotStreamEvent::Slot(before);
            assert(events[i] == SlotStreamEvent::Slot(before));
        }
    }
}

/// Over a whole stream what is published is the latest slot, which has become available where it
/// is a newer one. With [`law_latest_slot_is_the_highest`]: the published slot is the highest
/// one seen, and stale slots do not make it available.
pub proof fn law_a_stream_publishes_the_latest_slot(
    current_slot: u64,
    events: Seq<SlotStreamEvent>,
    writers: Seq<SlotWriter>,
)
    requires
        stream_processed(current_slot, events, writers),
        writers[0].published().slot == current_slot,
    ensures
        writers.last().published().slot == slot_after_all(current_slot, events),
        writers.last().published().closed <==> writers[0].published().closed
            && slot_after_all(current_slot, events) == current_slot,
    decreases events.len(),
{
    if events.len() > 0 {
        let n = events.len() - 1;
        let rest = events.drop_last();
        let before = writers.drop_last();
        lemma_processed_before_the_last(current_slot, events, writers);
        law_a_stream_publishes_the_latest_slot(current_slot, rest, before);
        law_latest_slot_is_the_highest(current_slot, rest);
        let latest = slot_after_all(current_slot, rest);
        law_stream_keeps_the_published_slot(writers[n], latest, events[n], writers[n + 1]);
        law_only_a_newer_slot_makes_the_tracker_available(
            writers[n],
            latest,
            events[n],
            writers[n + 1],
        );
    }
}

/// A stream that was processed was processed up to its last event, and then that event was.
proof fn lemma_processed_before_the_last(
    current_slot: u64,
    events: Seq<SlotStreamEvent>,
    writers: Seq<SlotWriter>,
)
    requires
        stream_processed(current_slot, events, writers),
        events.len() > 0,
    ensures
        stream_processed(current_slot, events.drop_last(), writers.drop_last()),
        processed(
            writers[events.len() - 1],
            slot_after_all(current_slot, events.drop_last()),
            events[events.len() - 1],
            writers[events.len() as int],
        ),
{
    let rest = events.drop_last();
    let before = writers.drop_last();
    assert forall|i: int| 0 <= i < rest.len() implies processed(
        before[i],
        slot_after_all(current_slot, rest.take(i)),
        #[trigger] rest[i],
        before[i + 1],
    ) by {
        assert(rest.take(i) =~= events.take(i));
        assert(rest[i] == events[i]);
    }
    let n = events.len() - 1;
    assert(events.take(n) =~= rest);
    assert(processed(
        writers[n],
        slot_after_all(current_slot, events.take(n)),
        events[n],
        writers[n + 1],
    ));
}

/// The published slot never goes back in the course of a stream.
pub proof fn law_the_published_slot_never_goes_back(
    current_slot: u64,
    events: Seq<SlotStreamEvent>,
    writers: Seq<SlotWriter>,
    i: int,
)
    requires
        stream_processed(current_slot, events, writers),
        writers[0].published().slot == current_slot,
        0 <= i < writers.len(),
    ensures
        writers[i].published().slot <= writers.last().published().slot,
    decreases events.len(),
{
    if i < events.len() {
        let n = events.len() - 1;
        let rest = events.drop_last();
        let before = writers.drop_last();
        lemma_processed_before_the_last(current_slot, events, writers);
        law_the_published_slot_never_goes_back(current_slot, rest, before, i);
        law_a_stream_publishes_the_latest_slot(current_slot, rest, before);
        law_stream_keeps_the_published_slot(
            writers[n],
            slot_after_all(current_slot, rest),
            events[n],
            writers[n + 1],
        );
    }
}

/// A stream is left with its end or with its failure, and at nothing else.
pub proof fn law_a_stream_is_left_where_it_ends_or_fails(current_slot: u64, event: SlotStreamEvent)
    ensures
        crate::yellowstone_grpc::slot_tracker::stream_step(current_slot, event)
            == SlotStreamStep::Exit(SlotTrackerStreamExit::Ended) <==> event
            == SlotStreamEvent::Ended,
        crate::yellowstone_grpc::slot_tracker::stream_step(current_slot, event)
            == SlotStreamStep::Exit(SlotTrackerStreamExit::Error) <==> event
            == SlotStreamEvent::Failed,
{
}

/// The wait after `failures` failed attempts to reconnect in a row.
pub open spec fn backoff_after_failures(failures: nat) -> u64
    decreases failures,
{
    if failures == 0 {
        SLOT_TRACKER_RECONNECT_INITIAL_BACKOFF_MS
    } else {
        crate::yellowstone_grpc::slot_tracker::backoff_after(
            backoff_after_failures((failures - 1) as nat),
            false,
        ) as u64
    }
}

/// The wait doubles with each failure until it reaches the longest, and stays within both
/// bounds.
pub proof fn law_backoff_doubles_up_to_the_longest(failures: nat)
    ensures
        backoff_after_failures(failures) == if SLOT_TRACKER_RECONNECT_INITIAL_BACKOFF_MS * vstd::arithmetic::power2::pow2(
            failures,
        ) < SLOT_TRACKER_RECONNECT_MAX_BACKOFF_MS {
            SLOT_TRACKER_RECONNECT_INITIAL_BACKOFF_MS * vstd::arithmetic::power2::pow2(failures)
        } else {
            SLOT_TRACKER_RECONNECT_MAX_BACKOFF_MS as int
        },
        SLOT_TRACKER_RECONNECT_INITIAL_BACKOFF_MS <= backoff_after_failures(failures)
            <= SLOT_TRACKER_RECONNECT_MAX_BACKOFF_MS,
    decreases failures,
{
    if failures == 0 {
        vstd::arithmetic::power2::lemma2_to64();
    } else {
        law_backoff_doubles_up_to_the_longest((failures - 1) as nat);
        vstd::arithmetic::power2::lemma_pow2_unfold(failures);
    }
}

/// A successful attempt brings the wait back to the initial one.
pub proof fn law_success_resets_the_backoff(backoff_ms: u64)
    ensures
        crate::yellowstone_grpc::slot_tracker::backoff_after(backoff_ms, true)
            == backoff_after_failures(0),
{
}

/// The slot that is published is that of the last store of a slot.
pub proof fn law_the_last_stored_slot_is_published(
    published: PublishedSlot,
    stores: Seq<SlotStore>,
    i: int,
)
    requires
        0 <= i < stores.len(),
        stores[i] is Slot,
        forall|j: int| i < j < stores.len() ==> !((#[trigger] stores[j]) is Slot),
    ensures
        published.after_stores(stores).slot == stores[i]->Slot_0,
    decreases stores.len(),
{
    let rest = stores.drop_last();
    let last = stores.len() - 1;
    assert(stores[last] == stores.last());
    if i < last {
        assert(rest[i] == stores[i]);
        assert(!(stores[last] is Slot));
        law_the_last_stored_slot_is_published(published, rest, i);
    }
}

/// Where no slot was stored, that which was published is published.
pub proof fn law_without_a_stored_slot_it_stays(
    published: PublishedSlot,
    stores: Seq<SlotStore>,
)
    requires
        forall|j: int| 0 <= j < stores.len() ==> !((#[trigger] stores[j]) is Slot),
    ensures
        published.after_stores(stores).slot == published.slot,
    decreases stores.len(),
{
    if stores.len() > 0 {
        let last = stores.len() - 1;
        assert(!(stores[last] is Slot));
        law_without_a_stored_slot_it_stays(published, stores.drop_last());
    }
}

/// The flag that is published is that of the last store of a flag.
pub proof fn law_the_last_stored_closed_is_published(
    published: PublishedSlot,
    stores: Seq<SlotStore>,
    i: int,
)
    requires
        0 <= i < stores.len(),
        stores[i] is Closed,
        forall|j: int| i < j < stores.len() ==> !((#[trigger] stores[j]) is Closed),
    ensures
        published.after_stores(stores).closed == stores[i]->Closed_0,
    decreases stores.len(),
{
    let rest = stores.drop_last();
    let last = stores.len() - 1;
    assert(stores[last] == stores.last());
    if i < last {
        assert(rest[i] == stores[i]);
        assert(!(stores[last] is Closed));
        law_the_last_stored_closed_is_published(published, rest, i);
    }
}

/// Where no flag was stored, that which was published is published.
pub proof fn law_without_a_stored_closed_it_stays(
    published: PublishedSlot,
    stores: Seq<SlotStore>,
)
    requires
        forall|j: int| 0 <= j < stores.len() ==> !((#[trigger] stores[j]) is Closed),
    ensures
        published.after_stores(stores).closed == published.closed,
    decreases stores.len(),
{
    if stores.len() > 0 {
        let last = stores.len() - 1;
        assert(!(stores[last] is Closed));
        law_without_a_stored_closed_it_stays(published, stores.drop_last());
    }
}

/// Publishing a slot ends with the slot available. On the way an unavailable tracker does not
/// become available with another slot than the new one, and it takes no more than two stores.
pub proof fn law_publishing_never_shows_a_stale_slot(slot: u64)
    ensures
        forall|writer: &mut SlotWriter| #[trigger]
            call_ensures(store_slot, (writer, slot), ()) && writer.wf() ==> {
                let added = final(writer).stores().len() - writer.stores().len();
                &&& final(writer).wf()
                &&& final(writer).tracker() == writer.tracker()
                &&& final(writer).initial() == writer.initial()
                &&& writer.stores().is_prefix_of(final(writer).stores())
                &&& added == 2
                &&& final(writer).published() == (PublishedSlot { slot, closed: false })
                &&& shows_no_stale_slot(*writer, *final(writer), slot)
            },
{
    assert forall|writer: &mut SlotWriter| #[trigger]
        call_ensures(store_slot, (writer, slot), ()) && writer.wf() implies {
        let added = final(writer).stores().len() - writer.stores().len();
        &&& final(writer).wf()
        &&& final(writer).tracker() == writer.tracker()
        &&& final(writer).initial() == writer.initial()
        &&& writer.stores().is_prefix_of(final(writer).stores())
        &&& added == 2
        &&& final(writer).published() == (PublishedSlot { slot, closed: false })
        &&& shows_no_stale_slot(*writer, *final(writer), slot)
    } by {
        let after = *final(writer);
        let stores = after.stores();
        let n = writer.stores().len() as int;
        law_a_published_slot_is_available(*writer, slot, after);
        assert forall|i: int| n <= i <= stores.len() && writer.published().closed implies {
            let shown = #[trigger] after.initial().after_stores(stores.take(i));
            shown.closed || shown.slot == slot
        } by {
            if i == n {
                assert(stores.take(i) =~= writer.stores());
            } else if i == n + 1 {
                assert(stores.take(i).drop_last() =~= writer.stores());
                assert(stores.take(i).last() == stores[n]);
            } else {
                assert(stores.take(i) =~= stores);
            }
        }
    }
}

/// Where the tracker was unavailable before, it shows at no time on the way to `after` an
/// available slot other than `slot`.
pub open spec fn shows_no_stale_slot(before: SlotWriter, after: SlotWriter, slot: u64) -> bool {
    forall|i: int|
        before.stores().len() <= i <= after.stores().len() && before.published().closed ==> {
            let shown = #[trigger] after.initial().after_stores(after.stores().take(i));
            shown.closed || shown.slot == slot
        }
}

/// Making the tracker unavailable takes one store and leaves the slot as it is, also where a
/// stream is left, after which the wait is the one that is due.
pub proof fn law_an_unavailable_tracker_keeps_its_slot()
    ensures
        forall|writer: &mut SlotWriter| #[trigger]
            call_ensures(mark_tracker_unavailable, (writer,), ()) && writer.wf() ==> {
                &&& final(writer).wf()
                &&& final(writer).tracker() == writer.tracker()
                &&& final(writer).stores().len() == writer.stores().len() + 1
                &&& final(writer).published().closed
                &&& final(writer).published().slot == writer.published().slot
            },
        forall|reconnect: &Reconnect, writer: &mut SlotWriter, wait: u64| #[trigger]
            call_ensures(Reconnect::on_stream_exit, (reconnect, writer), wait) && writer.wf() ==> {
                &&& wait == reconnect.backoff_ms
                &&& final(writer).wf()
                &&& final(writer).tracker() == writer.tracker()
                &&& final(writer).stores().len() == writer.stores().len() + 1
                &&& final(writer).published().closed
                &&& final(writer).published().slot == writer.published().slot
            },
{
    assert forall|writer: &mut SlotWriter| #[trigger]
        call_ensures(mark_tracker_unavailable, (writer,), ()) && writer.wf() implies {
        &&& final(writer).wf()
        &&& final(writer).tracker() == writer.tracker()
        &&& final(writer).stores().len() == writer.stores().len() + 1
        &&& final(writer).published().closed
        &&& final(writer).published().slot == writer.published().slot
    } by {
        law_leaving_the_stream_makes_the_tracker_unavailable(*writer, *final(writer));
    }
    assert forall|reconnect: &Reconnect, writer: &mut SlotWriter, wait: u64| #[trigger]
        call_ensures(Reconnect::on_stream_exit, (reconnect, writer), wait) && writer.wf() implies {
        &&& wait == reconnect.backoff_ms
        &&& final(writer).wf()
        &&& final(writer).tracker() == writer.tracker()
        &&& final(writer).stores().len() == writer.stores().len() + 1
        &&& final(writer).published().closed
        &&& final(writer).published().slot == writer.published().slot
    } by {
        law_leaving_the_stream_makes_the_tracker_unavailable(*writer, *final(writer));
    }
}

/// The event brings a newer slot.
pub open spec fn brings_newer_slot(event: SlotStreamEvent, current_slot: u64, slot: u64) -> bool {
    event == SlotStreamEvent::Slot(slot) && slot > current_slot
}

/// A step stores exactly a newer slot, leaves the stream exactly where it ends or fails, and goes
/// on at everything else. The stream keeps the higher one of its slot and that of the event.
pub proof fn law_a_step_stores_newer_slots_only(event: SlotStreamEvent, step: SlotStreamStep)
    ensures
        forall|stream: &mut SlotStream| #[trigger]
            call_ensures(SlotStream::step, (stream, event), step) ==> {
                &&& forall|slot: u64|
                    step == SlotStreamStep::Store(slot) <==> #[trigger] brings_newer_slot(
                        event,
                        stream.current_slot,
                        slot,
                    )
                &&& step == SlotStreamStep::Exit(SlotTrackerStreamExit::Ended) <==> event
                    == SlotStreamEvent::Ended
                &&& step == SlotStreamStep::Exit(SlotTrackerStreamExit::Error) <==> event
                    == SlotStreamEvent::Failed
                &&& final(stream).current_slot >= stream.current_slot
                &&& event matches SlotStreamEvent::Slot(slot) ==> final(stream).current_slot >= slot
                &&& final(stream).current_slot == stream.current_slot || event
                    == SlotStreamEvent::Slot(final(stream).current_slot)
            },
{
}

/// Processing an event publishes a newer slot as available, in two stores, and stores nothing at
/// any other event. It says that the stream is left exactly where it ends or fails.
pub proof fn law_processing_publishes_newer_slots_only(
    event: SlotStreamEvent,
    exit: Option<SlotTrackerStreamExit>,
)
    ensures
        forall|stream: &mut SlotStream, writer: &mut SlotWriter| #[trigger]
            call_ensures(SlotStream::process, (stream, event, writer), exit) && writer.wf() ==> {
                &&& final(writer).wf()
                &&& final(writer).tracker() == writer.tracker()
                &&& exit == Some(SlotTrackerStreamExit::Ended) <==> event == SlotStreamEvent::Ended
                &&& exit == Some(SlotTrackerStreamExit::Error) <==> event == SlotStreamEvent::Failed
                &&& forall|slot: u64| #[trigger]
                    brings_newer_slot(event, stream.current_slot, slot) ==> {
                        &&& final(stream).current_slot == slot
                        &&& final(writer).published() == (PublishedSlot { slot, closed: false })
                        &&& final(writer).stores().len() == writer.stores().len() + 2
                        &&& shows_no_stale_slot(*writer, *final(writer), slot)
                    }
                &&& (forall|slot: u64| !#[trigger]
                    brings_newer_slot(event, stream.current_slot, slot)) ==> {
                    &&& final(stream).current_slot == stream.current_slot
                    &&& final(writer).stores() == writer.stores()
                    &&& final(writer).published() == writer.published()
                }
            },
{
    assert forall|stream: &mut SlotStream, writer: &mut SlotWriter| #[trigger]
        call_ensures(SlotStream::process, (stream, event, writer), exit) && writer.wf() implies {
        &&& final(writer).wf()
        &&& final(writer).tracker() == writer.tracker()
        &&& exit == Some(SlotTrackerStreamExit::Ended) <==> event == SlotStreamEvent::Ended
        &&& exit == Some(SlotTrackerStreamExit::Error) <==> event == SlotStreamEvent::Failed
        &&& forall|slot: u64| #[trigger]
            brings_newer_slot(event, stream.current_slot, slot) ==> {
                &&& final(stream).current_slot == slot
                &&& final(writer).published() == (PublishedSlot { slot, closed: false })
                &&& final(writer).stores().len() == writer.stores().len() + 2
                &&& shows_no_stale_slot(*writer, *final(writer), slot)
            }
        &&& (forall|slot: u64| !#[trigger]
            brings_newer_slot(event, stream.current_slot, slot)) ==> {
            &&& final(stream).current_slot == stream.current_slot
            &&& final(writer).stores() == writer.stores()
            &&& final(writer).published() == writer.published()
        }
    } by {
        let current_slot = stream.current_slot;
        let before = *writer;
        let after = *final(writer);
        assert forall|slot: u64| #[trigger] brings_newer_slot(event, current_slot, slot) implies {
            &&& after.published() == (PublishedSlot { slot, closed: false })
            &&& after.stores().len() == before.stores().len() + 2
            &&& shows_no_stale_slot(before, after, slot)
        } by {
            law_a_published_slot_is_available(before, slot, after);
            lemma_no_stale_slot_on_the_way(before, after, slot);
        }
        if forall|slot: u64| !#[trigger] brings_newer_slot(event, current_slot, slot) {
            if let SlotStreamEvent::Slot(slot) = event {
                assert(!brings_newer_slot(event, current_slot, slot));
            }
            law_other_events_publish_nothing(before, current_slot, event, after);
        }
    }
}

/// Publishing a slot shows no stale slot on the way.
proof fn lemma_no_stale_slot_on_the_way(before: SlotWriter, after: SlotWriter, slot: u64)
    requires
        after.continues(before, crate::yellowstone_grpc::slot_tracker::publishing(slot)),
    ensures
        shows_no_stale_slot(before, after, slot),
{
    let stores = after.stores();
    let n = before.stores().len() as int;
    law_a_published_slot_is_available(before, slot, after);
    assert forall|i: int| n <= i <= stores.len() && before.published().closed implies {
        let shown = #[trigger] after.initial().after_stores(stores.take(i));
        shown.closed || shown.slot == slot
    } by {
        if i == n {
            assert(stores.take(i) =~= before.stores());
        } else if i == n + 1 {
            assert(stores.take(i).drop_last() =~= before.stores());
            assert(stores.take(i).last() == stores[n]);
        } else {
            assert(stores.take(i) =~= stores);
        }
    }
}

/// A stream starts with the slot that is published.
pub proof fn law_a_stream_starts_with_the_published_slot(writer: &SlotWriter, stream: SlotStream)
    requires
        writer.wf(),
        call_ensures(SlotStream::new, (writer,), stream),
    ensures
        stream.current_slot == writer.published().slot,
{
}

/// A new writer publishes the given slot as available, and its reader reads the same tracker.
pub proof fn law_a_writer_starts_with_the_given_slot(
    slot: u64,
    writer: SlotWriter,
    reader: std::sync::Arc<crate::slot::AtomicSlotTracker>,
    last_slot: u64,
)
    requires
        call_ensures(SlotWriter::start, (slot,), writer),
        call_ensures(SlotWriter::reader, (&writer,), reader),
        call_ensures(SlotWriter::last_slot, (&writer,), last_slot),
    ensures
        writer.wf(),
        writer.published() == (PublishedSlot { slot, closed: false }),
        writer.tracker().made_with(slot),
        *reader == writer.tracker(),
        last_slot == slot,
{
}

/// The wait for the first slot ends with a slot, with the end of the stream or with its failure,
/// and with nothing else.
pub proof fn law_the_first_slot_ends_the_wait(event: SlotStreamEvent, wait: SlotWait)
    requires
        call_ensures(wait_for_next_slot, (event,), wait),
    ensures
        event matches SlotStreamEvent::Slot(slot) ==> wait == SlotWait::Done(Some(slot)),
        wait matches SlotWait::Done(Some(slot)) ==> event == SlotStreamEvent::Slot(slot),
        wait == SlotWait::Done(None) <==> event == SlotStreamEvent::Ended,
        wait == SlotWait::Failed <==> event == SlotStreamEvent::Failed,
{
}

/// After a failed attempt the wait is twice as long, but never longer than five seconds; after a
/// successful one it is a fifth of a second again, and there is no wait.
pub proof fn law_the_wait_doubles_up_to_five_seconds(subscribed: bool, wait: Option<u64>)
    ensures
        forall|reconnect: &mut Reconnect| #[trigger]
            call_ensures(Reconnect::on_subscribe, (reconnect, subscribed), wait) ==> {
                let before = reconnect.backoff_ms;
                let after = final(reconnect).backoff_ms;
                &&& wait is None <==> subscribed
                &&& wait matches Some(ms) ==> ms == after
                &&& subscribed ==> after == 200
                &&& !subscribed ==> {
                    &&& after <= 5_000
                    &&& after <= 2 * before
                    &&& after == 5_000 || after == 2 * before
                }
            },
{
}

/// The first wait is a fifth of a second.
pub proof fn law_the_first_wait_is_short(reconnect: Reconnect)
    requires
        call_ensures(Reconnect::new, (), reconnect),
    ensures
        reconnect.backoff_ms == 200,
{
}

} // verus!
