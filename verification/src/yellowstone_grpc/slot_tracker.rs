//! Follows the slot updates of a Yellowstone gRPC stream.

use crate::slot::{SlotStore, SlotWriter};
use vstd::prelude::*;
use vstd::string::*;

verus! {

/// The name under which the tracker asks for slot updates.
pub const SLOT_TRACKER_DM_FILTER_NAME: &'static str = "jet-tpu-client";

/// How long to wait before the first attempt to subscribe again, in milliseconds.
pub const SLOT_TRACKER_RECONNECT_INITIAL_BACKOFF_MS: u64 = 200;

/// The longest wait between attempts to subscribe again, in milliseconds.
pub const SLOT_TRACKER_RECONNECT_MAX_BACKOFF_MS: u64 = 5_000;

/// A filter on slot updates; what is `None` is left to the server.
#[derive(Debug)]
pub struct SlotFilter {
    pub filter_by_commitment: Option<bool>,
    pub interslot_updates: Option<bool>,
}

/// A subscription to slot updates, by named filters. It asks for no other kind of update.
#[derive(Debug)]
pub struct SlotSubscription {
    pub slots: Vec<(String, SlotFilter)>,
}

/// The subscription of the slot tracker: one filter, which takes the updates within slots too.
pub fn get_yellowstone_slot_tracker_subscribe_request() -> (r: SlotSubscription)
    ensures
        r.slots@.len() == 1,
        r.slots@[0].0@ == "jet-tpu-client"@,
        r.slots@[0].1 == (SlotFilter { filter_by_commitment: None, interslot_updates: Some(true) }),
{
    let mut slots: Vec<(String, SlotFilter)> = Vec::new();
    slots.push(
        (
            SLOT_TRACKER_DM_FILTER_NAME.to_string(),
            SlotFilter { filter_by_commitment: None, interslot_updates: Some(true) },
        ),
    );
    SlotSubscription { slots }
}

/// Makes the tracked slot unavailable until a newer slot arrives.
pub fn mark_tracker_unavailable(writer: &mut SlotWriter)
    requires
        old(writer).wf(),
    ensures
        final(writer).wf(),
        final(writer).continues(*old(writer), seq![SlotStore::Closed(true)]),
{
    writer.set_closed(true);
}

/// The stores that publish a slot: the slot first, then that it is available.
pub open spec fn publishing(slot: u64) -> Seq<SlotStore> {
    seq![SlotStore::Slot(slot), SlotStore::Closed(false)]
}

/// Publishes a slot: the slot first, then that it is available.
pub fn store_slot(writer: &mut SlotWriter, slot: u64)
    requires
        old(writer).wf(),
    ensures
        final(writer).wf(),
        final(writer).continues(*old(writer), publishing(slot)),
{
    writer.set_slot(slot);
    writer.set_closed(false);
    assert(writer.stores() =~= old(writer).stores() + publishing(slot));
}

/// What arrives on a slot stream.
#[derive(Debug, Clone, Copy, PartialEq, Eq, Structural)]
pub enum SlotStreamEvent {
    /// The stream has ended.
    Ended,
    /// The stream has failed.
    Failed,
    /// An update without payload.
    Empty,
    /// An update of the slot.
    Slot(u64),
    /// An update of another kind.
    Other,
}

/// Why a slot stream is left.
#[derive(Debug, Clone, Copy, PartialEq, Eq, Structural)]
pub enum SlotTrackerStreamExit {
    Ended,
    Error,
}

/// What to do about an event of a slot stream.
#[derive(Debug, Clone, Copy, PartialEq, Eq, Structural)]
pub enum SlotStreamStep {
    /// Go on with the next event.
    Continue,
    /// Publish the slot, then go on.
    Store(u64),
    /// Leave the stream.
    Exit(SlotTrackerStreamExit),
}

/// The step for an event when `current_slot` is the latest slot seen: a newer slot is
/// published, an out-of-order or duplicate one is ignored, as is everything that is no slot.
pub open spec fn stream_step(current_slot: u64, event: SlotStreamEvent) -> SlotStreamStep {
    match event {
        SlotStreamEvent::Ended => SlotStreamStep::Exit(SlotTrackerStreamExit::Ended),
        SlotStreamEvent::Failed => SlotStreamStep::Exit(SlotTrackerStreamExit::Error),
        SlotStreamEvent::Slot(slot) => if slot > current_slot {
            SlotStreamStep::Store(slot)
        } else {
            SlotStreamStep::Continue
        },
        _ => SlotStreamStep::Continue,
    }
}

/// The latest slot seen after an event.
pub open spec fn slot_after(current_slot: u64, event: SlotStreamEvent) -> u64 {
    match event {
        SlotStreamEvent::Slot(slot) => if slot > current_slot {
            slot
        } else {
            current_slot
        },
        _ => current_slot,
    }
}

/// The stores that an event leads to: those that publish a newer slot, and none for any other
/// event.
pub open spec fn stream_stores(current_slot: u64, event: SlotStreamEvent) -> Seq<SlotStore> {
    match stream_step(current_slot, event) {
        SlotStreamStep::Store(slot) => publishing(slot),
        _ => Seq::empty(),
    }
}

/// A slot stream that is being processed.
pub struct SlotStream {
    /// The latest slot seen.
    pub current_slot: u64,
}

impl SlotStream {
    /// Starts on a stream, from the slot that was tracked last.
    pub fn new(writer: &SlotWriter) -> (r: Self)
        requires
            writer.wf(),
        ensures
            r.current_slot == writer.published().slot,
    {
        SlotStream { current_slot: writer.last_slot() }
    }

    /// Decides what to do about an event.
    pub fn step(&mut self, event: SlotStreamEvent) -> (r: SlotStreamStep)
        ensures
            r == stream_step(old(self).current_slot, event),
            final(self).current_slot == slot_after(old(self).current_slot, event),
    {
        match event {
            SlotStreamEvent::Ended => SlotStreamStep::Exit(SlotTrackerStreamExit::Ended),
            SlotStreamEvent::Failed => SlotStreamStep::Exit(SlotTrackerStreamExit::Error),
            SlotStreamEvent::Slot(slot) => {
                if slot <= self.current_slot {
                    return SlotStreamStep::Continue;
                }
                self.current_slot = slot;
                SlotStreamStep::Store(slot)
            },
            _ => SlotStreamStep::Continue,
        }
    }

    /// Takes an event of the stream and publishes the slot where it is newer; says when the
    /// stream is to be left. Nothing else is stored: neither an older slot nor the end of the
    /// stream changes what is published.
    pub fn process(&mut self, event: SlotStreamEvent, writer: &mut SlotWriter) -> (r: Option<
        SlotTrackerStreamExit,
    >)
        requires
            old(writer).wf(),
        ensures
            final(writer).wf(),
            final(self).current_slot == slot_after(old(self).current_slot, event),
            r == match stream_step(old(self).current_slot, event) {
                SlotStreamStep::Exit(exit) => Some(exit),
                _ => None,
            },
            final(writer).continues(
                *old(writer),
                stream_stores(old(self).current_slot, event),
            ),
    {
        assert(writer.stores() + Seq::<SlotStore>::empty() =~= writer.stores());
        match self.step(event) {
            SlotStreamStep::Exit(exit) => Some(exit),
            SlotStreamStep::Store(slot) => {
                store_slot(writer, slot);
                None
            },
            SlotStreamStep::Continue => None,
        }
    }
}

/// Where the wait for the first slot of a stream stands.
#[derive(Debug, Clone, Copy, PartialEq, Eq, Structural)]
pub enum SlotWait {
    /// Wait for the next event.
    Waiting,
    /// The first slot, or none where the stream ended before.
    Done(Option<u64>),
    /// The stream failed.
    Failed,
}

/// What an event means to someone who waits for the first slot.
pub fn wait_for_next_slot(event: SlotStreamEvent) -> (r: SlotWait)
    ensures
        r == match event {
            SlotStreamEvent::Ended => SlotWait::Done(None),
            SlotStreamEvent::Failed => SlotWait::Failed,
            SlotStreamEvent::Slot(slot) => SlotWait::Done(Some(slot)),
            _ => SlotWait::Waiting,
        },
{
    match event {
        SlotStreamEvent::Ended => SlotWait::Done(None),
        SlotStreamEvent::Failed => SlotWait::Failed,
        SlotStreamEvent::Slot(slot) => SlotWait::Done(Some(slot)),
        _ => SlotWait::Waiting,
    }
}

/// The wait after an attempt to subscribe: back to the initial one after a success, twice as
/// long after a failure, up to the longest.
pub open spec fn backoff_after(backoff_ms: u64, subscribed: bool) -> int {
    if subscribed {
        SLOT_TRACKER_RECONNECT_INITIAL_BACKOFF_MS as int
    } else if backoff_ms * 2 < SLOT_TRACKER_RECONNECT_MAX_BACKOFF_MS {
        backoff_ms * 2
    } else {
        SLOT_TRACKER_RECONNECT_MAX_BACKOFF_MS as int
    }
}

/// Subscribing again and again after the stream was left.
pub struct Reconnect {
    /// How long to wait before the next attempt, in milliseconds.
    pub backoff_ms: u64,
}

impl Reconnect {
    /// Starts with the initial wait.
    pub fn new() -> (r: Self)
        ensures
            r.backoff_ms == SLOT_TRACKER_RECONNECT_INITIAL_BACKOFF_MS,
    {
        Reconnect { backoff_ms: SLOT_TRACKER_RECONNECT_INITIAL_BACKOFF_MS }
    }

    /// The stream was left: makes the tracked slot unavailable and says how long to wait, in
    /// milliseconds, before the first attempt to subscribe again.
    pub fn on_stream_exit(&self, writer: &mut SlotWriter) -> (r: u64)
        requires
            old(writer).wf(),
        ensures
            r == self.backoff_ms,
            final(writer).wf(),
            final(writer).continues(*old(writer), seq![SlotStore::Closed(true)]),
    {
        mark_tracker_unavailable(writer);
        self.backoff_ms
    }

    /// An attempt to subscribe was made: `None` where it succeeded and the new stream is to be
    /// processed, else how long to wait, in milliseconds, before the next attempt.
    pub fn on_subscribe(&mut self, subscribed: bool) -> (r: Option<u64>)
        ensures
            final(self).backoff_ms == backoff_after(old(self).backoff_ms, subscribed),
            r == if subscribed {
                None
            } else {
                Some(final(self).backoff_ms)
            },
    {
        if subscribed {
            self.backoff_ms = SLOT_TRACKER_RECONNECT_INITIAL_BACKOFF_MS;
            return None;
        }
        self.backoff_ms = if self.backoff_ms < SLOT_TRACKER_RECONNECT_MAX_BACKOFF_MS / 2 {
            self.backoff_ms * 2
        } else {
            SLOT_TRACKER_RECONNECT_MAX_BACKOFF_MS
        };
        Some(self.backoff_ms)
    }
}

} // verus!
