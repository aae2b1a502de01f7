//! The cells behind the current slot.
//!
//! The cells are private to this module, whose functions are single calls on the atomics. So
//! everything that is ever stored in the cells of a tracker after it was made goes through
//! [`put_slot`] and [`put_closed`], and these two record it.

use std::sync::atomic::{AtomicBool, AtomicU64};
use std::sync::Arc;
use vstd::prelude::*;

verus! {

/// The latest slot, and whether it is out of date because nobody tracks it.
pub struct AtomicSlotTracker {
    slot: AtomicU64,
    closed: AtomicBool,
}

impl AtomicSlotTracker {
    /// The cells can be made to hold `slot` and an open tracker.
    pub closed spec fn made_with(&self, slot: u64) -> bool {
        &&& call_ensures(AtomicU64::new, (slot,), self.slot)
        &&& call_ensures(AtomicBool::new, (false,), self.closed)
    }

    /// An open tracker at `slot`.
    pub fn new(slot: u64) -> (r: Self)
        ensures
            r.made_with(slot),
    {
        AtomicSlotTracker { slot: AtomicU64::new(slot), closed: AtomicBool::new(false) }
    }
}

/// A store into the cells of a tracker.
pub enum SlotStore {
    /// The slot.
    Slot(u64),
    /// Whether the tracker is closed.
    Closed(bool),
}

/// What a tracker publishes: the slot and whether it is unavailable.
pub struct PublishedSlot {
    pub slot: u64,
    pub closed: bool,
}

impl PublishedSlot {
    /// What is published after a store.
    pub open spec fn after_store(self, store: SlotStore) -> Self {
        match store {
            SlotStore::Slot(slot) => PublishedSlot { slot, ..self },
            SlotStore::Closed(closed) => PublishedSlot { closed, ..self },
        }
    }

    /// What is published after these stores, one after the other.
    pub open spec fn after_stores(self, stores: Seq<SlotStore>) -> Self
        decreases stores.len(),
    {
        if stores.len() == 0 {
            self
        } else {
            self.after_stores(stores.drop_last()).after_store(stores.last())
        }
    }
}

/// The right to store into the cells of one tracker, with a record of every store, in order.
/// There is one for each tracker that is written at all.
pub struct CellWriter {
    shared: Arc<AtomicSlotTracker>,
    initial: Ghost<PublishedSlot>,
    stores: Ghost<Seq<SlotStore>>,
}

impl CellWriter {
    /// The tracker that is written.
    pub closed spec fn tracker(&self) -> AtomicSlotTracker {
        *self.shared
    }

    /// What the tracker was made to publish.
    pub closed spec fn initial(&self) -> PublishedSlot {
        self.initial@
    }

    /// The stores that were made.
    pub closed spec fn stores(&self) -> Seq<SlotStore> {
        self.stores@
    }

    /// This is a later state of `before`: after its stores come `stores`.
    pub open spec fn continues(self, before: Self, stores: Seq<SlotStore>) -> bool {
        &&& self.tracker() == before.tracker()
        &&& self.initial() == before.initial()
        &&& self.stores() == before.stores() + stores
    }

    /// Makes an open tracker at `slot`, to be written with this right.
    pub(crate) fn start(slot: u64) -> (r: Self)
        ensures
            r.tracker().made_with(slot),
            r.initial() == (PublishedSlot { slot, closed: false }),
            r.stores() == Seq::<SlotStore>::empty(),
    {
        CellWriter {
            shared: Arc::new(AtomicSlotTracker::new(slot)),
            initial: Ghost(PublishedSlot { slot, closed: false }),
            stores: Ghost(Seq::empty()),
        }
    }

    /// The tracker, to be read.
    pub(crate) fn reader(&self) -> (r: Arc<AtomicSlotTracker>)
        ensures
            *r == self.tracker(),
    {
        self.shared.clone()
    }
}

/// Calls `AtomicU64::load` on the slot, relaxed. What it answers depends on when the writer
/// stores, so nothing is promised of it.
#[verifier::external_body]
pub(crate) fn get_slot(tracker: &AtomicSlotTracker) -> (r: u64) {
    tracker.slot.load(std::sync::atomic::Ordering::Relaxed)
}

/// Calls `AtomicBool::load` on the closed flag: what was stored before the value that it answers
/// with is visible from then on. What it answers depends on when the writer stores, so nothing
/// is promised of it.
#[verifier::external_body]
pub(crate) fn get_closed(tracker: &AtomicSlotTracker) -> (r: bool) {
    tracker.closed.load(std::sync::atomic::Ordering::Acquire)
}

/// Calls `AtomicU64::store` on the slot, once, relaxed.
///
/// Trusted: this one store is made, and no other.
#[verifier::external_body]
pub(crate) fn put_slot(writer: &mut CellWriter, slot: u64)
    ensures
        final(writer).continues(*old(writer), seq![SlotStore::Slot(slot)]),
{
    writer.shared.slot.store(slot, std::sync::atomic::Ordering::Relaxed)
}

/// Calls `AtomicBool::store` on the closed flag, once: what was stored before is visible to a
/// task that loads the flag and finds this value.
///
/// Trusted: this one store is made, and no other.
#[verifier::external_body]
pub(crate) fn put_closed(writer: &mut CellWriter, closed: bool)
    ensures
        final(writer).continues(*old(writer), seq![SlotStore::Closed(closed)]),
{
    writer.shared.closed.store(closed, std::sync::atomic::Ordering::Release)
}

/// A tracker is made of cells that are made to hold the slot and an open tracker.
proof fn law_a_tracker_is_made_of_its_cells(tracker: AtomicSlotTracker, slot: u64)
    ensures
        tracker.made_with(slot) ==> {
            &&& call_ensures(AtomicU64::new, (slot,), tracker.slot)
            &&& call_ensures(AtomicBool::new, (false,), tracker.closed)
        },
{
}

} // verus!
