//! The sender that routes each transaction to the current and the upcoming unique leaders.

use crate::config::TpuSenderConfig;
use crate::pubkey::Pubkey;
use crate::rpc::schedule::{
    InnerManagedLeaderSchedule, ManagedLeaderSchedule, ManagedLeaderScheduleConfig,
};
use crate::sender::{
    create_base_tpu_client, DriverQueue, Handover, TpuSender, TpuSenderDriverSpawner,
    TpuSenderErrorKind,
};
use crate::slot::AtomicSlotTracker;
use crate::tpu_info::{
    AddrLookup, LeaderAddresses, LeaderTpuInfoService, SocketAddr, TpuPortKind,
};
use crate::txn::{Signature, TpuSenderTxn};
use crate::wire::wire_from_vec;
use bytes::Bytes;
use std::sync::Arc;
use vstd::prelude::*;
use vstd::string::*;

verus! {

/// Capacity of the queue to the TPU sender task by default.
pub const DEFAULT_TPU_SENDER_CHANNEL_CAPACITY: usize = 100_000;

/// Error case for the transaction sending API of [`YellowstoneTpuSender`].
#[derive(Debug, Clone, Copy, PartialEq, Eq, Structural)]
pub enum SendErrorKind {
    /// The queue to the TPU event-loop is closed.
    Closed,
    /// The queue to the TPU event-loop is full.
    Full,
    /// The slot is not being tracked.
    SlotTrackerDisconnected,
    /// The managed leader schedule is no longer updated.
    ManagedLeaderScheduleDisconnected,
    /// The leader schedule does not contain an entry for the target leader slots.
    UnknownLeader,
}

impl SendErrorKind {
    /// The words for an error of this kind.
    pub open spec fn words(self) -> Seq<char> {
        match self {
            SendErrorKind::Closed => "tpu sender disconnected"@,
            SendErrorKind::Full => "tpu sender queue full"@,
            SendErrorKind::SlotTrackerDisconnected => "slot tracker disconnected"@,
            SendErrorKind::ManagedLeaderScheduleDisconnected => {
                "managed leader schedule disconnected"@
            },
            SendErrorKind::UnknownLeader => "unknown leader"@,
        }
    }

    /// The error in words.
    pub fn message(&self) -> (r: String)
        ensures
            r@ == self.words(),
    {
        match self {
            SendErrorKind::Closed => "tpu sender disconnected".to_string(),
            SendErrorKind::Full => "tpu sender queue full".to_string(),
            SendErrorKind::SlotTrackerDisconnected => "slot tracker disconnected".to_string(),
            SendErrorKind::ManagedLeaderScheduleDisconnected => {
                "managed leader schedule disconnected".to_string()
            },
            SendErrorKind::UnknownLeader => "unknown leader".to_string(),
        }
    }

    /// The error of a send that the queue refused.
    pub open spec fn of_queue(kind: TpuSenderErrorKind) -> SendErrorKind {
        match kind {
            TpuSenderErrorKind::Closed => SendErrorKind::Closed,
            TpuSenderErrorKind::Full => SendErrorKind::Full,
        }
    }
}

/// Error returned when sending a transaction.
#[derive(Debug)]
pub struct SendError {
    /// Kind of send error.
    pub kind: SendErrorKind,
    /// The transaction that failed to be sent.
    pub txn: Bytes,
}

impl SendError {
    /// The result without the transaction that is handed back.
    pub open spec fn kind_of(result: Result<(), SendError>) -> Result<(), SendErrorKind> {
        match result {
            Ok(()) => Ok(()),
            Err(error) => Err(error.kind),
        }
    }

    /// The error in words.
    pub fn message(&self) -> (r: String)
        ensures
            r@ == self.kind.words() + " for transaction"@,
    {
        let mut message = self.kind.message();
        message.append(" for transaction");
        message
    }
}

/// One leader's turn in a fanout.
pub struct LeaderTurn {
    /// The leader.
    pub leader: Pubkey,
    /// What came of asking for the leader's address; `None` where it was not asked for.
    pub lookup: Option<Option<SocketAddr>>,
    /// The transaction that was handed to the queue for the leader; `None` where the leader was
    /// coalesced with the one for which the transaction was enqueued before.
    pub handed: Option<Handover>,
}

impl LeaderTurn {
    /// The leader's address, where it was asked for and is known.
    pub open spec fn addr(self) -> Option<SocketAddr> {
        match self.lookup {
            Some(addr) => addr,
            None => None,
        }
    }

    /// What the queue made of the transaction, where it was handed over.
    pub open spec fn answer(self) -> Option<Result<(), TpuSenderErrorKind>> {
        match self.handed {
            Some(handover) => Some(handover.answer),
            None => None,
        }
    }

    /// What is handed over in the turn: one transaction, or none.
    pub open spec fn handovers(self) -> Seq<Handover> {
        match self.handed {
            Some(handover) => seq![handover],
            None => Seq::empty(),
        }
    }

    /// What is asked in the turn: one address, or none.
    pub open spec fn lookups(self) -> Seq<AddrLookup> {
        match self.lookup {
            Some(addr) => seq![AddrLookup { leader: self.leader, addr }],
            None => Seq::empty(),
        }
    }
}

/// What is handed over in these turns, in order.
pub open spec fn handovers(turns: Seq<LeaderTurn>) -> Seq<Handover>
    decreases turns.len(),
{
    if turns.len() == 0 {
        Seq::empty()
    } else {
        handovers(turns.drop_last()) + turns.last().handovers()
    }
}

/// What is asked in these turns, in order.
pub open spec fn lookups(turns: Seq<LeaderTurn>) -> Seq<AddrLookup>
    decreases turns.len(),
{
    if turns.len() == 0 {
        Seq::empty()
    } else {
        lookups(turns.drop_last()) + turns.last().lookups()
    }
}

/// How far a fanout has come.
pub struct FanoutProgress {
    /// The address for which the transaction was enqueued last.
    pub sent_addr: Option<SocketAddr>,
    /// The first error.
    pub first_error: Option<SendErrorKind>,
    /// Whether the transaction is on its way to at least one leader.
    pub sent_any: bool,
}

impl FanoutProgress {
    /// The progress before the first turn.
    pub open spec fn start() -> Self {
        FanoutProgress { sent_addr: None, first_error: None, sent_any: false }
    }

    /// A leader at this address has no turn of its own: the transaction was enqueued for the
    /// same address last.
    pub open spec fn coalesces(self, addr: Option<SocketAddr>) -> bool {
        addr is Some && addr == self.sent_addr
    }

    /// The progress after the turn of a leader at `addr`, where the queue gave this answer, or
    /// none where the leader was coalesced.
    pub open spec fn after_answer(
        self,
        addr: Option<SocketAddr>,
        answer: Option<Result<(), TpuSenderErrorKind>>,
    ) -> Self {
        match answer {
            None => FanoutProgress { sent_any: true, ..self },
            Some(Ok(())) => FanoutProgress {
                sent_any: true,
                sent_addr: if addr is Some {
                    addr
                } else {
                    self.sent_addr
                },
                ..self
            },
            Some(Err(kind)) => FanoutProgress {
                first_error: if self.first_error is None {
                    Some(SendErrorKind::of_queue(kind))
                } else {
                    self.first_error
                },
                ..self
            },
        }
    }

    /// The progress after a turn.
    pub open spec fn after_turn(self, turn: LeaderTurn) -> Self {
        self.after_answer(turn.addr(), turn.answer())
    }

    /// The progress after all turns, from the first on.
    pub open spec fn after_turns(turns: Seq<LeaderTurn>) -> Self
        decreases turns.len(),
    {
        if turns.len() == 0 {
            Self::start()
        } else {
            Self::after_turns(turns.drop_last()).after_turn(turns.last())
        }
    }

    /// What a fanout that has come this far reports: success where the transaction is on its
    /// way to a leader, else the first error.
    pub open spec fn outcome(self) -> Result<(), SendErrorKind> {
        if self.sent_any {
            Ok(())
        } else if let Some(kind) = self.first_error {
            Err(kind)
        } else {
            Err(SendErrorKind::UnknownLeader)
        }
    }

    /// The progress before the first turn.
    pub fn new() -> (r: Self)
        ensures
            r == Self::start(),
    {
        FanoutProgress { sent_addr: None, first_error: None, sent_any: false }
    }

    /// Whether the transaction was enqueued for this address last.
    pub fn is_coalesced(&self, addr: Option<SocketAddr>) -> (r: bool)
        ensures
            r == self.coalesces(addr),
    {
        match (addr, self.sent_addr) {
            (Some(addr), Some(sent)) => addr == sent,
            _ => false,
        }
    }

    /// Takes down a turn.
    pub fn record(
        &mut self,
        addr: Option<SocketAddr>,
        answer: Option<Result<(), TpuSenderErrorKind>>,
    )
        ensures
            *final(self) == old(self).after_answer(addr, answer),
    {
        match answer {
            None => {
                self.sent_any = true;
            },
            Some(Ok(())) => {
                self.sent_any = true;
                if addr.is_some() {
                    self.sent_addr = addr;
                }
            },
            Some(Err(kind)) => {
                if self.first_error.is_none() {
                    self.first_error = Some(
                        match kind {
                            TpuSenderErrorKind::Closed => SendErrorKind::Closed,
                            TpuSenderErrorKind::Full => SendErrorKind::Full,
                        },
                    );
                }
            },
        }
    }

    /// What the fanout reports.
    pub fn finish(&self) -> (r: Result<(), SendErrorKind>)
        ensures
            r == self.outcome(),
    {
        if self.sent_any {
            return Ok(());
        }
        match self.first_error {
            Some(kind) => Err(kind),
            None => Err(SendErrorKind::UnknownLeader),
        }
    }
}

/// The turn of `leader` was taken: its address was asked for where transactions to one address
/// are to be coalesced; then the leader was either coalesced, and nothing was handed over, or
/// the transaction was handed to the queue, which gave this answer.
pub open spec fn turn_taken<L: LeaderTpuInfoService>(
    service: &L,
    kind: TpuPortKind,
    sig: Signature,
    wire_txn: Bytes,
    leader: Pubkey,
    dedupe_by_addr: bool,
    progress: FanoutProgress,
    turn: LeaderTurn,
) -> bool {
    &&& turn.leader == leader
    &&& match turn.lookup {
        Some(addr) => dedupe_by_addr && crate::tpu_info::dest_addr_answered(
            service,
            leader,
            kind,
            addr,
        ),
        None => !dedupe_by_addr,
    }
    &&& match turn.handed {
        None => progress.coalesces(turn.addr()),
        Some(handover) => {
            &&& !progress.coalesces(turn.addr())
            &&& handover.txn.carries(sig, leader, wire_txn)
        },
    }
}

/// Every leader's turn was taken, one after the other.
pub open spec fn turns_taken<L: LeaderTpuInfoService>(
    service: &L,
    kind: TpuPortKind,
    sig: Signature,
    wire_txn: Bytes,
    leaders: Seq<Pubkey>,
    turns: Seq<LeaderTurn>,
) -> bool {
    &&& turns.len() == leaders.len()
    &&& forall|i: int|
        0 <= i < turns.len() ==> turn_taken(
            service,
            kind,
            sig,
            wire_txn,
            leaders[i],
            leaders.len() > 1,
            FanoutProgress::after_turns(turns.take(i)),
            #[trigger] turns[i],
        )
}

/// Core Yellowstone TPU sender.
///
/// The sender tracks the current slot and the leader schedule, then routes each transaction to
/// the current leader and upcoming unique leaders in the configured fanout window.
///
/// It is cheap to clone; each producer task has a clone of its own.
pub struct YellowstoneTpuSender<L: LeaderTpuInfoService> {
    pub base_tpu_sender: TpuSender,
    pub atomic_slot_tracker: Arc<AtomicSlotTracker>,
    pub leader_schedule: ManagedLeaderSchedule,
    pub leader_tpu_info: LeaderAddresses<L>,
    pub send_fanout_slots: u64,
}

impl<L: LeaderTpuInfoService> YellowstoneTpuSender<L> {
    /// What was handed to the queue of the driver through this handle.
    pub open spec fn handed(&self) -> Seq<Handover> {
        self.base_tpu_sender.handed()
    }

    /// The addresses that were asked for through this handle.
    pub open spec fn asked(&self) -> Seq<AddrLookup> {
        self.leader_tpu_info.asked()
    }

    /// The other handle works on the same queue, slot, schedule and service, and in the same
    /// way.
    pub open spec fn alike(self, other: Self) -> bool {
        &&& self.base_tpu_sender.channel() == other.base_tpu_sender.channel()
        &&& self.atomic_slot_tracker == other.atomic_slot_tracker
        &&& self.leader_schedule == other.leader_schedule
        &&& self.leader_tpu_info.service() == other.leader_tpu_info.service()
        &&& self.leader_tpu_info.kind() == other.leader_tpu_info.kind()
        &&& self.send_fanout_slots == other.send_fanout_slots
    }

    /// Every leader's turn was taken by this sender.
    pub open spec fn took_turns(
        &self,
        sig: Signature,
        wire_txn: Bytes,
        leaders: Seq<Pubkey>,
        turns: Seq<LeaderTurn>,
    ) -> bool {
        turns_taken(
            &self.leader_tpu_info.service(),
            self.leader_tpu_info.kind(),
            sig,
            wire_txn,
            leaders,
            turns,
        )
    }

    /// Sent from `slot` on, the transaction met with `result` after these turns: one for each
    /// unique leader of the window, and none where the schedule is no longer updated.
    pub open spec fn sent_from(
        &self,
        sig: Signature,
        wire_txn: Bytes,
        slot: u64,
        turns: Seq<LeaderTurn>,
        result: Result<(), SendErrorKind>,
    ) -> bool {
        exists|shown: Option<InnerManagedLeaderSchedule>| #[trigger]
            self.leader_schedule.reads(shown) && match shown {
                Some(schedules) if !schedules.fail => {
                    &&& self.took_turns(
                        sig,
                        wire_txn,
                        schedules.unique_leaders(
                            slot as int,
                            crate::rpc::schedule::fanout_lookups(slot, self.send_fanout_slots),
                        ),
                        turns,
                    )
                    &&& result == FanoutProgress::after_turns(turns).outcome()
                },
                _ => {
                    &&& turns.len() == 0
                    &&& result == Err::<(), _>(SendErrorKind::ManagedLeaderScheduleDisconnected)
                },
            }
    }

    /// The transaction met with `result` after these turns; there are none where the slot is
    /// unavailable.
    pub open spec fn sent(
        &self,
        sig: Signature,
        wire_txn: Bytes,
        turns: Seq<LeaderTurn>,
        result: Result<(), SendErrorKind>,
    ) -> bool {
        ||| {
            &&& self.atomic_slot_tracker.closed_loaded(true)
            &&& turns.len() == 0
            &&& result == Err::<(), _>(SendErrorKind::SlotTrackerDisconnected)
        }
        ||| {
            &&& self.atomic_slot_tracker.closed_loaded(false)
            &&& exists|slot: u64| #[trigger]
                self.atomic_slot_tracker.slot_loaded(slot) && self.sent_from(
                    sig,
                    wire_txn,
                    slot,
                    turns,
                    result,
                )
        }
    }

    /// Sending the transaction made `after` of this handle and met with `result`: what was
    /// handed over and asked in the turns of the fanout was handed over and asked, in their
    /// order, and nothing else was through this handle. A transaction that could not be sent is
    /// handed back.
    pub open spec fn fanned_out(
        self,
        after: Self,
        sig: Signature,
        wire_txn: Bytes,
        result: Result<(), SendError>,
    ) -> bool {
        &&& after.alike(self)
        &&& result matches Err(error) ==> error.txn == wire_txn
        &&& exists|turns: Seq<LeaderTurn>|
            {
                &&& #[trigger] self.sent(sig, wire_txn, turns, SendError::kind_of(result))
                &&& after.handed() == self.handed() + handovers(turns)
                &&& after.asked() == self.asked() + lookups(turns)
            }
    }

    /// The sender with the fanout and the port of `config`.
    pub fn new(
        base_tpu_sender: TpuSender,
        atomic_slot_tracker: Arc<AtomicSlotTracker>,
        leader_schedule: ManagedLeaderSchedule,
        leader_tpu_info: Arc<L>,
        config: &TpuSenderConfig,
    ) -> (r: Self)
        ensures
            r.base_tpu_sender == base_tpu_sender,
            r.atomic_slot_tracker == atomic_slot_tracker,
            r.leader_schedule == leader_schedule,
            r.leader_tpu_info.service() == *leader_tpu_info,
            r.leader_tpu_info.kind() == config.tpu_port,
            r.asked() == Seq::<AddrLookup>::empty(),
            r.send_fanout_slots == config.send_fanout_slots_in_effect(),
    {
        YellowstoneTpuSender {
            base_tpu_sender,
            atomic_slot_tracker,
            leader_schedule,
            leader_tpu_info: LeaderAddresses::new(leader_tpu_info, config.tpu_port),
            send_fanout_slots: config.effective_send_fanout_slots(),
        }
    }

    /// Takes the turn of one leader in a fanout.
    fn send_txn_to_leader(
        addresses: &mut LeaderAddresses<L>,
        queue: &mut DriverQueue,
        sig: Signature,
        wire_txn: &Bytes,
        leader: Pubkey,
        dedupe_by_addr: bool,
        progress: &mut FanoutProgress,
    )
        ensures
            final(addresses).service() == old(addresses).service(),
            final(addresses).kind() == old(addresses).kind(),
            final(queue).channel() == old(queue).channel(),
            exists|turn: LeaderTurn|
                {
                    &&& #[trigger] turn_taken(
                        &old(addresses).service(),
                        old(addresses).kind(),
                        sig,
                        *wire_txn,
                        leader,
                        dedupe_by_addr,
                        *old(progress),
                        turn,
                    )
                    &&& *final(progress) == old(progress).after_turn(turn)
                    &&& final(queue).handed() == old(queue).handed() + turn.handovers()
                    &&& final(addresses).asked() == old(addresses).asked() + turn.lookups()
                },
    {
        let ghost mut turn = LeaderTurn { leader, lookup: None, handed: None };
        let addr = if dedupe_by_addr {
            let addr = addresses.get(&leader);
            proof {
                turn = LeaderTurn { lookup: Some(addr), ..turn };
            }
            addr
        } else {
            None
        };
        if progress.is_coalesced(addr) {
            progress.record(addr, None);
        } else {
            let txn = TpuSenderTxn { tx_sig: sig, remote_peer: leader, wire: wire_txn.clone() };
            let ghost given = txn;
            let answer = queue.hand_over(txn);
            proof {
                turn = LeaderTurn { handed: Some(Handover { txn: given, answer }), ..turn };
            }
            progress.record(addr, Some(answer));
        }
        assert(turn_taken(
            &old(addresses).service(),
            old(addresses).kind(),
            sig,
            *wire_txn,
            leader,
            dedupe_by_addr,
            *old(progress),
            turn,
        ));
        assert(queue.handed() =~= old(queue).handed() + turn.handovers());
        assert(addresses.asked() =~= old(addresses).asked() + turn.lookups());
    }

    /// Sends a transaction to the given leaders: one turn for each, in order, and nothing is
    /// handed over or asked beside them.
    fn send_txn_to_leaders(
        addresses: &mut LeaderAddresses<L>,
        queue: &mut DriverQueue,
        sig: Signature,
        wire_txn: &Bytes,
        leaders: &Vec<Pubkey>,
    ) -> (r: Result<(), SendErrorKind>)
        ensures
            final(addresses).service() == old(addresses).service(),
            final(addresses).kind() == old(addresses).kind(),
            final(queue).channel() == old(queue).channel(),
            exists|turns: Seq<LeaderTurn>|
                {
                    &&& #[trigger] turns_taken(
                        &old(addresses).service(),
                        old(addresses).kind(),
                        sig,
                        *wire_txn,
                        leaders@,
                        turns,
                    )
                    &&& r == FanoutProgress::after_turns(turns).outcome()
                    &&& final(queue).handed() == old(queue).handed() + handovers(turns)
                    &&& final(addresses).asked() == old(addresses).asked() + lookups(turns)
                },
    {
        let ghost service = addresses.service();
        let ghost kind = addresses.kind();
        let dedupe_by_addr = leaders.len() > 1;
        let mut progress = FanoutProgress::new();
        let ghost mut turns: Seq<LeaderTurn> = Seq::empty();
        assert(queue.handed() =~= queue.handed() + handovers(turns));
        assert(addresses.asked() =~= addresses.asked() + lookups(turns));
        let mut i: usize = 0;
        while i < leaders.len()
            invariant
                i <= leaders.len(),
                turns.len() == i,
                dedupe_by_addr == (leaders@.len() > 1),
                progress == FanoutProgress::after_turns(turns),
                service == old(addresses).service(),
                kind == old(addresses).kind(),
                addresses.service() == service,
                addresses.kind() == kind,
                queue.channel() == old(queue).channel(),
                queue.handed() == old(queue).handed() + handovers(turns),
                addresses.asked() == old(addresses).asked() + lookups(turns),
                forall|k: int|
                    0 <= k < i ==> turn_taken(
                        &service,
                        kind,
                        sig,
                        *wire_txn,
                        leaders@[k],
                        leaders@.len() > 1,
                        FanoutProgress::after_turns(turns.take(k)),
                        #[trigger] turns[k],
                    ),
            decreases leaders.len() - i,
        {
            let ghost before = progress;
            let ghost handed = queue.handed();
            let ghost asked = addresses.asked();
            Self::send_txn_to_leader(
                addresses,
                queue,
                sig,
                wire_txn,
                leaders[i],
                dedupe_by_addr,
                &mut progress,
            );
            proof {
                let turn = choose|turn: LeaderTurn|
                    {
                        &&& #[trigger] turn_taken(
                            &service,
                            kind,
                            sig,
                            *wire_txn,
                            leaders@[i as int],
                            dedupe_by_addr,
                            before,
                            turn,
                        )
                        &&& progress == before.after_turn(turn)
                        &&& queue.handed() == handed + turn.handovers()
                        &&& addresses.asked() == asked + turn.lookups()
                    };
                let more = turns.push(turn);
                assert(more.drop_last() =~= turns);
                assert(old(queue).handed() + handovers(more) =~= handed + turn.handovers());
                assert(old(addresses).asked() + lookups(more) =~= asked + turn.lookups());
                assert forall|k: int| 0 <= k < i + 1 implies turn_taken(
                    &service,
                    kind,
                    sig,
                    *wire_txn,
                    leaders@[k],
                    leaders@.len() > 1,
                    FanoutProgress::after_turns(more.take(k)),
                    #[trigger] more[k],
                ) by {
                    assert(more.take(k) =~= turns.take(k));
                    if k < i {
                        assert(more[k] == turns[k]);
                    } else {
                        assert(turns.take(k) =~= turns);
                    }
                }
                turns = more;
            }
            i = i + 1;
        }
        assert(turns_taken(&service, kind, sig, *wire_txn, leaders@, turns));
        progress.finish()
    }

    /// Enqueues a transaction to the current and upcoming unique leaders.
    #[verifier::spinoff_prover]
    #[verifier::rlimit(40)]
    pub fn send_txn_fanout(&mut self, sig: Signature, wire_txn: Bytes) -> (r: Result<(), SendError>)
        ensures
            old(self).fanned_out(*final(self), sig, wire_txn, r),
    {
        let ghost mut turns: Seq<LeaderTurn> = Seq::empty();
        assert(self.handed() =~= self.handed() + handovers(turns));
        assert(self.asked() =~= self.asked() + lookups(turns));
        let result = match self.atomic_slot_tracker.load() {
            Ok(current_slot) => {
                let result = match self.leader_schedule.get_unique_leaders_for_slot_fanout(
                    current_slot,
                    self.send_fanout_slots,
                ) {
                    Ok(leaders) => {
                        let result = Self::send_txn_to_leaders(
                            &mut self.leader_tpu_info,
                            &mut self.base_tpu_sender.driver,
                            sig,
                            &wire_txn,
                            &leaders,
                        );
                        proof {
                            turns = choose|turns: Seq<LeaderTurn>|
                                {
                                    &&& #[trigger] turns_taken(
                                        &old(self).leader_tpu_info.service(),
                                        old(self).leader_tpu_info.kind(),
                                        sig,
                                        wire_txn,
                                        leaders@,
                                        turns,
                                    )
                                    &&& result == FanoutProgress::after_turns(turns).outcome()
                                    &&& self.handed() == old(self).handed() + handovers(turns)
                                    &&& self.asked() == old(self).asked() + lookups(turns)
                                };
                            assert(old(self).took_turns(sig, wire_txn, leaders@, turns));
                        }
                        result
                    },
                    Err(_) => Err(SendErrorKind::ManagedLeaderScheduleDisconnected),
                };
                assert(old(self).sent_from(sig, wire_txn, current_slot, turns, result));
                result
            },
            Err(_) => Err(SendErrorKind::SlotTrackerDisconnected),
        };
        assert(old(self).sent(sig, wire_txn, turns, result));
        match result {
            Ok(()) => Ok(()),
            Err(kind) => Err(SendError { kind, txn: wire_txn }),
        }
    }

    /// Enqueues a transaction to the current and upcoming unique leaders, without waiting.
    pub fn try_send_txn(&mut self, sig: Signature, txn: Vec<u8>) -> (r: Result<(), SendError>)
        ensures
            exists|wire_txn: Bytes|
                crate::wire::wire_bytes(wire_txn) == txn@ && #[trigger] old(self).fanned_out(
                    *final(self),
                    sig,
                    wire_txn,
                    r,
                ),
    {
        self.send_txn_fanout(sig, wire_from_vec(txn))
    }
}

impl<L: LeaderTpuInfoService> Clone for YellowstoneTpuSender<L> {
    /// A handle that works alike, with records of its own.
    fn clone(&self) -> (r: Self)
        ensures
            r.alike(*self),
            r.handed() == Seq::<Handover>::empty(),
            r.asked() == Seq::<AddrLookup>::empty(),
    {
        YellowstoneTpuSender {
            base_tpu_sender: self.base_tpu_sender.clone(),
            atomic_slot_tracker: self.atomic_slot_tracker.clone(),
            leader_schedule: self.leader_schedule.clone(),
            leader_tpu_info: self.leader_tpu_info.clone(),
            send_fanout_slots: self.send_fanout_slots,
        }
    }
}

/// Configuration of a [`YellowstoneTpuSender`] and of the services around it: `I` is the
/// configuration of the TPU info service, `S` that of the stake info service.
#[derive(Debug)]
pub struct YellowstoneTpuSenderConfig<I, S> {
    /// TPU event-loop configuration options.
    pub tpu: TpuSenderConfig,
    /// Configuration of the service that knows the TPU addresses of leaders.
    pub tpu_info: I,
    /// Configuration of the managed leader schedule.
    pub schedule: ManagedLeaderScheduleConfig,
    /// Configuration of the service that knows the stakes of validators.
    pub stake: S,
    /// Capacity of the queue to the TPU sender task.
    pub channel_capacity: usize,
}

impl<I: Default, S: Default> Default for YellowstoneTpuSenderConfig<I, S> {
    fn default() -> (r: Self)
        ensures
            r.tpu.tpu_port == TpuPortKind::Normal,
            r.tpu.send_fanout_slots == crate::config::DEFAULT_SEND_FANOUT_SLOTS,
            call_ensures(I::default, (), r.tpu_info),
            crate::time::duration_nanos(r.schedule.check_interval) == 300 * 1_000_000_000,
            call_ensures(S::default, (), r.stake),
            r.channel_capacity == DEFAULT_TPU_SENDER_CHANNEL_CAPACITY,
    {
        YellowstoneTpuSenderConfig {
            tpu: TpuSenderConfig::default(),
            tpu_info: I::default(),
            schedule: ManagedLeaderScheduleConfig::default(),
            stake: S::default(),
            channel_capacity: DEFAULT_TPU_SENDER_CHANNEL_CAPACITY,
        }
    }
}

/// Endpoints required to connect to Yellowstone services.
pub struct Endpoints {
    /// RPC endpoint URL.
    pub rpc: String,
    /// gRPC endpoint URL.
    pub grpc: String,
    /// Optional X-Token for authentication.
    pub grpc_x_token: Option<String>,
}

/// The type of a response callback that is never there.
pub struct Nothing;

/// What the background services of a sender have learned so far.
pub struct SenderServices<L> {
    pub atomic_slot_tracker: Arc<AtomicSlotTracker>,
    pub leader_schedule: ManagedLeaderSchedule,
    pub leader_tpu_info: Arc<L>,
}

/// The sender that is built on these services, with the queue of the driver that was started
/// with this callback.
pub open spec fn built_sender<L: LeaderTpuInfoService, CB, D: TpuSenderDriverSpawner<CB>, I, S>(
    config: &YellowstoneTpuSenderConfig<I, S>,
    spawner: &D,
    services: SenderServices<L>,
    callback: Option<CB>,
    sender: YellowstoneTpuSender<L>,
) -> bool {
    &&& call_ensures(
        D::spawn,
        (spawner, &config.tpu, callback, config.channel_capacity),
        sender.base_tpu_sender.channel(),
    )
    &&& sender.atomic_slot_tracker == services.atomic_slot_tracker
    &&& sender.leader_schedule == services.leader_schedule
    &&& sender.leader_tpu_info.service() == *services.leader_tpu_info
    &&& sender.leader_tpu_info.kind() == config.tpu.tpu_port
    &&& sender.handed() == Seq::<Handover>::empty()
    &&& sender.asked() == Seq::<AddrLookup>::empty()
    &&& sender.send_fanout_slots == config.tpu.send_fanout_slots_in_effect()
}

/// Starts a driver and builds a sender on the given services.
fn create_yellowstone_tpu_sender_with_services<
    L: LeaderTpuInfoService,
    CB,
    D: TpuSenderDriverSpawner<CB>,
    I,
    S,
>(
    config: &YellowstoneTpuSenderConfig<I, S>,
    spawner: &D,
    services: SenderServices<L>,
    callback: Option<CB>,
) -> (r: YellowstoneTpuSender<L>)
    ensures
        built_sender(config, spawner, services, callback, r),
{
    let base_tpu_sender = create_base_tpu_client(
        spawner,
        &config.tpu,
        callback,
        config.channel_capacity,
    );
    YellowstoneTpuSender::new(
        base_tpu_sender,
        services.atomic_slot_tracker,
        services.leader_schedule,
        services.leader_tpu_info,
        &config.tpu,
    )
}

/// Creates a sender whose driver reports to nobody.
pub fn create_yellowstone_tpu_sender<
    L: LeaderTpuInfoService,
    D: TpuSenderDriverSpawner<Nothing>,
    I,
    S,
>(
    config: &YellowstoneTpuSenderConfig<I, S>,
    spawner: &D,
    services: SenderServices<L>,
) -> (r: YellowstoneTpuSender<L>)
    ensures
        built_sender(config, spawner, services, None::<Nothing>, r),
{
    create_yellowstone_tpu_sender_with_services(config, spawner, services, None)
}

/// Creates a sender whose driver reports its responses to `callback`.
pub fn create_yellowstone_tpu_sender_with_callback<
    L: LeaderTpuInfoService,
    CB,
    D: TpuSenderDriverSpawner<CB>,
    I,
    S,
>(
    config: &YellowstoneTpuSenderConfig<I, S>,
    spawner: &D,
    services: SenderServices<L>,
    callback: CB,
) -> (r: YellowstoneTpuSender<L>)
    ensures
        built_sender(config, spawner, services, Some(callback), r),
{
    create_yellowstone_tpu_sender_with_services(config, spawner, services, Some(callback))
}

/// The background tasks that a sender depends on.
pub fn dependency_task_names() -> (r: Vec<&'static str>)
    ensures
        r@.len() == 4,
        r@[0]@ == "tpu-info-service"@,
        r@[1]@ == "managed-leader-schedule"@,
        r@[2]@ == "stake-info-service"@,
        r@[3]@ == "slot-tracker"@,
{
    let mut names: Vec<&'static str> = Vec::new();
    names.push("tpu-info-service");
    names.push("managed-leader-schedule");
    names.push("stake-info-service");
    names.push("slot-tracker");
    names
}

/// The name of the task with the given number.
pub fn finished_task_name(names: &Vec<&'static str>, i: usize) -> (r: &'static str)
    ensures
        r@ == if i < names@.len() {
            names@[i as int]@
        } else {
            "unknown"@
        },
{
    if i < names.len() {
        names[i]
    } else {
        "unknown"
    }
}

} // verus!
