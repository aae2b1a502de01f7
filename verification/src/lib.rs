//! A TPU client that routes transactions to the current Solana leader and to the
//! upcoming unique leaders.
//!
//! The sender tracks the current slot and the leader schedule, looks up the leaders of
//! the configured slot window and enqueues each transaction once per unique leader. The
//! decisions are made here, and every one of them is proved against its contract; sockets,
//! timers and remote procedure calls belong to the program around this library.

pub mod config;
pub mod pubkey;
pub mod queue;
pub mod rpc;
pub mod sender;
pub mod slot;
mod slot_cells;
pub mod sync;
pub mod time;
pub mod tpu_info;
pub mod txn;
pub mod wire;
pub mod yellowstone_grpc;
