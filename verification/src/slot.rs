//! The current slot, shared between the task that tracks it and those that read it.
//!
//! Other threads read and write the slot, so a contract speaks of a value that a load can answer
//! with. What is stored is decided here: it is stored through a [`SlotWriter`], and contracts
//! state every store.

pub use crate::slot_cells::{AtomicSlotTracker, PublishedSlot, SlotStore};
use crate::slot_cells::{get_closed, get_slot, put_closed, put_slot, CellWriter};
use std::sync::Arc;
use vstd::prelude::*;

verus! {

/// Error indicating that the slot is not being tracked at the moment.
#[derive(Debug, Clone, Copy, PartialEq, Eq, Structural)]
pub struct SlotTrackerClosed;

impl AtomicSlotTracker {
    /// A load of the slot can answer `slot`.
    pub closed spec fn slot_loaded(&self, slot: u64) -> bool {
        call_ensures(get_slot, (self,), slot)
    }

    /// A load of the closed flag can answer `closed`.
    pub closed spec fn closed_loaded(&self, closed: bool) -> bool {
        call_ensures(get_closed, (self,), closed)
    }

    /// The latest slot, or an error where the tracker is closed.
    pub fn load(&self) -> (r: Result<u64, SlotTrackerClosed>)
        ensures
            match r {
                Ok(slot) => self.closed_loaded(false) && self.slot_loaded(slot),
                Err(SlotTrackerClosed) => self.closed_loaded(true),
            },
    {
        if self.is_closed() {
            Err(SlotTrackerClosed)
        } else {
            Ok(self.last_slot())
        }
    }

    /// The latest slot, even where the tracker is closed.
    pub fn last_slot(&self) -> (r: u64)
        ensures
            self.slot_loaded(r),
    {
        get_slot(self)
    }

    /// Whether the tracker is closed.
    pub fn is_closed(&self) -> (r: bool)
        ensures
            self.closed_loaded(r),
    {
        get_closed(self)
    }
}

/// The handle through which a tracker is written. There is one for each tracker that is
/// written at all.
pub struct SlotWriter {
    cells: CellWriter,
    latest_slot: u64,
}

impl SlotWriter {
    /// The tracker that is written.
    pub closed spec fn tracker(&self) -> AtomicSlotTracker {
        self.cells.tracker()
    }

    /// What the tracker was made to publish.
    pub closed spec fn initial(&self) -> PublishedSlot {
        self.cells.initial()
    }

    /// The stores that were made.
    pub closed spec fn stores(&self) -> Seq<SlotStore> {
        self.cells.stores()
    }

    /// What the tracker publishes after these stores.
    pub open spec fn published(&self) -> PublishedSlot {
        self.initial().after_stores(self.stores())
    }

    /// The handle knows the slot that is published.
    pub closed spec fn wf(&self) -> bool {
        self.latest_slot == self.published().slot
    }

    /// This is a later state of the handle `before`: after its stores come `stores`.
    pub open spec fn continues(self, before: Self, stores: Seq<SlotStore>) -> bool {
        &&& self.tracker() == before.tracker()
        &&& self.initial() == before.initial()
        &&& self.stores() == before.stores() + stores
    }

    /// Makes an open tracker at `slot`, to be written through this handle.
    pub fn start(slot: u64) -> (r: Self)
        ensures
            r.wf(),
            r.tracker().made_with(slot),
            r.initial() == (PublishedSlot { slot, closed: false }),
            r.stores() == Seq::<SlotStore>::empty(),
    {
        SlotWriter { cells: CellWriter::start(slot), latest_slot: slot }
    }

    /// The tracker, to be read.
    pub fn reader(&self) -> (r: Arc<AtomicSlotTracker>)
        ensures
            *r == self.tracker(),
    {
        self.cells.reader()
    }

    /// The slot that is published, even where the tracker is closed.
    pub fn last_slot(&self) -> (r: u64)
        requires
            self.wf(),
        ensures
            r == self.published().slot,
    {
        self.latest_slot
    }

    /// Stores the slot.
    pub fn set_slot(&mut self, slot: u64)
        requires
            old(self).wf(),
        ensures
            final(self).wf(),
            final(self).continues(*old(self), seq![SlotStore::Slot(slot)]),
    {
        put_slot(&mut self.cells, slot);
        self.latest_slot = slot;
        assert(self.stores().drop_last() =~= old(self).stores());
    }

    /// Stores the closed flag; what was stored before is visible to a task that loads the flag
    /// and finds this value.
    pub fn set_closed(&mut self, closed: bool)
        requires
            old(self).wf(),
        ensures
            final(self).wf(),
            final(self).continues(*old(self), seq![SlotStore::Closed(closed)]),
    {
        put_closed(&mut self.cells, closed);
        assert(self.stores().drop_last() =~= old(self).stores());
    }
}

/// Loading a tracker answers what its cells answer: the slot where the flag is not set, an error
/// where it is.
pub(crate) proof fn law_a_load_answers_what_the_cells_hold(
    tracker: &AtomicSlotTracker,
    answer: Result<u64, SlotTrackerClosed>,
    slot: u64,
    closed: bool,
)
    requires
        call_ensures(AtomicSlotTracker::load, (tracker,), answer),
        call_ensures(AtomicSlotTracker::last_slot, (tracker,), slot),
        call_ensures(AtomicSlotTracker::is_closed, (tracker,), closed),
    ensures
        answer matches Ok(slot) ==> call_ensures(get_closed, (tracker,), false) && call_ensures(
            get_slot,
            (tracker,),
            slot,
        ),
        answer is Err ==> call_ensures(get_closed, (tracker,), true),
        call_ensures(get_slot, (tracker,), slot),
        call_ensures(get_closed, (tracker,), closed),
{
}

/// Each store of a writer is one store into the cells, of the given value.
proof fn law_a_writer_stores_the_given_values(slot: u64, closed: bool)
    ensures
        forall|writer: &mut SlotWriter| #[trigger]
            call_ensures(SlotWriter::set_slot, (writer, slot), ()) && writer.wf() ==> {
                let stores = final(writer).cells.stores();
                &&& final(writer).wf()
                &&& stores.len() == writer.cells.stores().len() + 1
                &&& writer.cells.stores().is_prefix_of(stores)
                &&& stores.last() == SlotStore::Slot(slot)
            },
        forall|writer: &mut SlotWriter| #[trigger]
            call_ensures(SlotWriter::set_closed, (writer, closed), ()) && writer.wf() ==> {
                let stores = final(writer).cells.stores();
                &&& final(writer).wf()
                &&& stores.len() == writer.cells.stores().len() + 1
                &&& writer.cells.stores().is_prefix_of(stores)
                &&& stores.last() == SlotStore::Closed(closed)
            },
{
}

/// What a writer publishes is what its cells were made to publish, after their stores.
proof fn law_a_writer_knows_its_cells(writer: SlotWriter)
    ensures
        writer.tracker() == writer.cells.tracker(),
        writer.initial() == writer.cells.initial(),
        writer.stores() == writer.cells.stores(),
{
}

} // verus!
