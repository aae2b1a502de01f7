//! What the client learns from a cluster's RPC service.

pub mod lookup_laws;
pub mod refresh;
pub mod refresh_laws;
pub mod schedule;
pub mod schedule_laws;
pub mod unnest_laws;
