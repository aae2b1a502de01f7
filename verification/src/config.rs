//! Configuration of the TPU sender.

use crate::tpu_info::TpuPortKind;
use vstd::prelude::*;

verus! {

/// How many slots ahead a transaction is sent by default, as in Solana's TPU client.
pub const DEFAULT_SEND_FANOUT_SLOTS: u64 = 12;

/// The most slots ahead that a transaction is sent, as in Solana's TPU client.
pub const MAX_SEND_FANOUT_SLOTS: u64 = 100;

/// Options of the TPU sender.
#[derive(Debug, Clone, Copy, PartialEq, Eq)]
pub struct TpuSenderConfig {
    /// Which of a leader's ports to send to.
    pub tpu_port: TpuPortKind,
    /// How many slots ahead a transaction is sent; not zero.
    pub send_fanout_slots: u64,
}

impl TpuSenderConfig {
    /// The slots ahead that a transaction is sent: what is configured, up to the most.
    pub open spec fn send_fanout_slots_in_effect(self) -> u64 {
        if self.send_fanout_slots < MAX_SEND_FANOUT_SLOTS {
            self.send_fanout_slots
        } else {
            MAX_SEND_FANOUT_SLOTS
        }
    }

    /// The slots ahead that a transaction is sent.
    pub fn effective_send_fanout_slots(&self) -> (r: u64)
        ensures
            r == self.send_fanout_slots_in_effect(),
    {
        if self.send_fanout_slots < MAX_SEND_FANOUT_SLOTS {
            self.send_fanout_slots
        } else {
            MAX_SEND_FANOUT_SLOTS
        }
    }
}

impl Default for TpuSenderConfig {
    fn default() -> (r: Self)
        ensures
            r.tpu_port == TpuPortKind::Normal,
            r.send_fanout_slots == DEFAULT_SEND_FANOUT_SLOTS,
    {
        TpuSenderConfig {
            tpu_port: TpuPortKind::Normal,
            send_fanout_slots: DEFAULT_SEND_FANOUT_SLOTS,
        }
    }
}

/// The slots ahead that a transaction is sent are those of the configuration, but never more than
/// a hundred.
pub proof fn law_no_more_than_a_hundred_slots_ahead(config: &TpuSenderConfig, slots: u64)
    requires
        call_ensures(TpuSenderConfig::effective_send_fanout_slots, (config,), slots),
    ensures
        slots <= 100,
        slots <= config.send_fanout_slots,
        slots == 100 || slots == config.send_fanout_slots,
{
}

/// By default a transaction is sent to the port for clients, over twelve slots.
pub proof fn law_the_default_is_twelve_slots_and_the_port_for_clients(config: TpuSenderConfig)
    requires
        call_ensures(TpuSenderConfig::default, (), config),
    ensures
        config.tpu_port is Normal,
        config.send_fanout_slots == 12,
{
}

} // verus!
