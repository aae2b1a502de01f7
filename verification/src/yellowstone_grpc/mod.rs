//! Tracking the slot and sending transactions with the help of Yellowstone gRPC.

pub mod fanout_laws;
pub mod schedule;
pub mod schedule_laws;
pub mod sender;
pub mod sender_laws;
pub mod slot_tracker;
pub mod slot_tracker_laws;
