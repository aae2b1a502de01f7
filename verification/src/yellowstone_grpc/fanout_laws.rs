//! What a send does, in terms of the slot and the schedules that it finds, of the addresses that
//! it is told and of the answers of the queue.

use crate::config::TpuSenderConfig;
use crate::pubkey::Pubkey;
use crate::rpc::schedule::{InnerManagedLeaderSchedule, ManagedLeaderSchedule};
use crate::sender::{Handover, TpuSender, TpuSenderDriverSpawner, TpuSenderErrorKind};
use crate::slot::AtomicSlotTracker;
use crate::tpu_info::{AddrLookup, LeaderTpuInfoService, SocketAddr, TpuPortKind};
use crate::txn::Signature;
use crate::yellowstone_grpc::sender::{
    create_yellowstone_tpu_sender, create_yellowstone_tpu_sender_with_callback,
    finished_task_name, FanoutProgress, LeaderTurn, Nothing, SendError, SendErrorKind,
    SenderServices, YellowstoneTpuSender, YellowstoneTpuSenderConfig,
};
use bytes::Bytes;
use std::sync::Arc;
use vstd::prelude::*;

verus! {

/// The leaders of the turns.
pub open spec fn leaders_of(turns: Seq<LeaderTurn>) -> Seq<Pubkey> {
    Seq::new(turns.len(), |i: int| turns[i].leader)
}

/// The transactions that are handed over in the turns.
pub open spec fn handed_in(turns: Seq<LeaderTurn>) -> Seq<Handover> {
    turns.filter(|turn: LeaderTurn| turn.handed is Some).map_values(
        |turn: LeaderTurn| turn.handed->0,
    )
}

/// The addresses that are asked for in the turns.
pub open spec fn asked_in(turns: Seq<LeaderTurn>) -> Seq<AddrLookup> {
    turns.filter(|turn: LeaderTurn| turn.lookup is Some).map_values(
        |turn: LeaderTurn| AddrLookup { leader: turn.leader, addr: turn.lookup->0 },
    )
}

/// The leader's address is known in the turn: it was asked for, and there is one.
pub open spec fn known_addr(turn: LeaderTurn, addr: SocketAddr) -> bool {
    turn.lookup == Some(Some(addr))
}

/// The queue took the transaction in the turn.
pub open spec fn was_taken(turn: LeaderTurn) -> bool {
    turn.handed is Some && turn.handed->0.answer is Ok
}

/// Of the turns before the one with number `i`, that with number `j` is the last in which the
/// queue took the transaction for a leader whose address is known, and that address is `addr`.
pub open spec fn sent_last_to(turns: Seq<LeaderTurn>, i: int, j: int, addr: SocketAddr) -> bool {
    &&& 0 <= j < i
    &&& was_taken(turns[j])
    &&& known_addr(turns[j], addr)
    &&& forall|k: int, other: SocketAddr|
        j < k < i && was_taken(turns[k]) ==> !#[trigger] known_addr(turns[k], other)
}

/// The turn with number `i` shares the address of the last leader before it that was sent to.
pub open spec fn shares_the_last_address(turns: Seq<LeaderTurn>, i: int) -> bool {
    exists|j: int, addr: SocketAddr| #[trigger]
        sent_last_to(turns, i, j, addr) && known_addr(turns[i], addr)
}

/// Asked for the port of the leader that is sent to, the service can answer `addr`.
pub open spec fn service_answers<L: LeaderTpuInfoService>(
    service: &L,
    kind: TpuPortKind,
    leader: Pubkey,
    addr: Option<SocketAddr>,
) -> bool {
    &&& kind is Normal ==> call_ensures(L::get_quic_tpu_socket_addr, (service, &leader), addr)
    &&& kind is Forwards ==> call_ensures(
        L::get_quic_tpu_fwd_socket_addr,
        (service, &leader),
        addr,
    )
}

/// What the turn with number `i` of a fanout is: the leader's address is asked for exactly where
/// there are several leaders; the leader is left out exactly where it shares the address of the
/// last one that was sent to; and else it is handed the transaction.
pub open spec fn is_turn<L: LeaderTpuInfoService>(
    service: &L,
    kind: TpuPortKind,
    sig: Signature,
    wire_txn: Bytes,
    turns: Seq<LeaderTurn>,
    i: int,
) -> bool {
    &&& turns[i].lookup is Some <==> turns.len() > 1
    &&& turns[i].lookup matches Some(addr) ==> service_answers(
        service,
        kind,
        turns[i].leader,
        addr,
    )
    &&& turns[i].handed is None <==> shares_the_last_address(turns, i)
    &&& turns[i].handed matches Some(handover) ==> {
        &&& handover.txn.tx_sig == sig
        &&& handover.txn.remote_peer == turns[i].leader
        &&& crate::wire::wire_bytes(handover.txn.wire) == crate::wire::wire_bytes(wire_txn)
    }
}

/// What a fanout with these turns reports: success where the queue took the transaction in one of
/// them, the queue's first answer where it never did, and that there is no leader where there is
/// none.
pub open spec fn is_outcome(turns: Seq<LeaderTurn>, result: Result<(), SendErrorKind>) -> bool {
    &&& result is Ok <==> exists|i: int| 0 <= i < turns.len() && was_taken(#[trigger] turns[i])
    &&& result matches Err(kind) ==> if turns.len() == 0 {
        kind == SendErrorKind::UnknownLeader
    } else {
        match turns[0].handed->0.answer->Err_0 {
            TpuSenderErrorKind::Full => kind == SendErrorKind::Full,
            TpuSenderErrorKind::Closed => kind == SendErrorKind::Closed,
        }
    }
}

/// Everything that a send does and reports, where `before` is the sender before it and `after`
/// the sender after it.
pub open spec fn is_send<L: LeaderTpuInfoService>(
    before: YellowstoneTpuSender<L>,
    after: YellowstoneTpuSender<L>,
    sig: Signature,
    wire_txn: Bytes,
    result: Result<(), SendError>,
) -> bool {
    &&& after.base_tpu_sender.channel() == before.base_tpu_sender.channel()
    &&& after.atomic_slot_tracker == before.atomic_slot_tracker
    &&& after.leader_schedule == before.leader_schedule
    &&& after.leader_tpu_info.service() == before.leader_tpu_info.service()
    &&& after.leader_tpu_info.kind() == before.leader_tpu_info.kind()
    &&& after.send_fanout_slots == before.send_fanout_slots
    &&& result matches Err(error) ==> error.txn == wire_txn
    &&& {
        ||| {
            &&& before.atomic_slot_tracker.closed_loaded(true)
            &&& did_nothing(before, after)
            &&& result is Err
            &&& result->Err_0.kind == SendErrorKind::SlotTrackerDisconnected
        }
        ||| {
            &&& before.atomic_slot_tracker.closed_loaded(false)
            &&& exists|slot: u64, shown: Option<InnerManagedLeaderSchedule>|
                {
                    &&& #[trigger] before.atomic_slot_tracker.slot_loaded(slot)
                    &&& #[trigger] before.leader_schedule.reads(shown)
                    &&& is_send_from(before, after, sig, wire_txn, slot, shown, result)
                }
        }
    }
}

/// Nothing was handed over and nothing was asked.
pub open spec fn did_nothing<L: LeaderTpuInfoService>(
    before: YellowstoneTpuSender<L>,
    after: YellowstoneTpuSender<L>,
) -> bool {
    &&& after.base_tpu_sender.handed() == before.base_tpu_sender.handed()
    &&& after.leader_tpu_info.asked() == before.leader_tpu_info.asked()
}

/// Everything that a send does and reports which finds the tracker at `slot` and the lock as
/// `shown`.
pub open spec fn is_send_from<L: LeaderTpuInfoService>(
    before: YellowstoneTpuSender<L>,
    after: YellowstoneTpuSender<L>,
    sig: Signature,
    wire_txn: Bytes,
    slot: u64,
    shown: Option<InnerManagedLeaderSchedule>,
    result: Result<(), SendError>,
) -> bool {
    if shown is None || shown->0.fail {
        &&& did_nothing(before, after)
        &&& result is Err
        &&& result->Err_0.kind == SendErrorKind::ManagedLeaderScheduleDisconnected
    } else {
        exists|turns: Seq<LeaderTurn>|
            {
                &&& #[trigger] crate::rpc::lookup_laws::are_the_leaders_of_the_window(
                    shown->0,
                    slot as int,
                    before.send_fanout_slots as int,
                    leaders_of(turns),
                )
                &&& forall|i: int|
                    0 <= i < turns.len() ==> #[trigger] is_turn(
                        &before.leader_tpu_info.service(),
                        before.leader_tpu_info.kind(),
                        sig,
                        wire_txn,
                        turns,
                        i,
                    )
                &&& after.base_tpu_sender.handed() == before.base_tpu_sender.handed() + handed_in(
                    turns,
                )
                &&& after.leader_tpu_info.asked() == before.leader_tpu_info.asked() + asked_in(turns)
                &&& is_outcome(turns, SendError::kind_of(result))
            }
    }
}

/// The two ways to collect what is handed over in the turns agree.
proof fn lemma_handed_in(turns: Seq<LeaderTurn>)
    ensures
        crate::yellowstone_grpc::sender::handovers(turns) == handed_in(turns),
    decreases turns.len(),
{
    let some = |turn: LeaderTurn| turn.handed is Some;
    reveal(Seq::filter);
    if turns.len() > 0 {
        let rest = turns.drop_last();
        lemma_handed_in(rest);
        let kept = rest.filter(some);
        assert(turns.filter(some) == if turns.last().handed is Some {
            kept.push(turns.last())
        } else {
            kept
        });
    }
    assert(crate::yellowstone_grpc::sender::handovers(turns) =~= handed_in(turns));
}

/// The two ways to collect what is asked in the turns agree.
proof fn lemma_asked_in(turns: Seq<LeaderTurn>)
    ensures
        crate::yellowstone_grpc::sender::lookups(turns) == asked_in(turns),
    decreases turns.len(),
{
    let some = |turn: LeaderTurn| turn.lookup is Some;
    reveal(Seq::filter);
    if turns.len() > 0 {
        let rest = turns.drop_last();
        lemma_asked_in(rest);
        let kept = rest.filter(some);
        assert(turns.filter(some) == if turns.last().lookup is Some {
            kept.push(turns.last())
        } else {
            kept
        });
    }
    assert(crate::yellowstone_grpc::sender::lookups(turns) =~= asked_in(turns));
}

/// The turn that a fanout took is one as described.
proof fn lemma_is_turn<L: LeaderTpuInfoService>(
    sender: YellowstoneTpuSender<L>,
    sig: Signature,
    wire_txn: Bytes,
    leaders: Seq<Pubkey>,
    turns: Seq<LeaderTurn>,
    i: int,
)
    requires
        sender.took_turns(sig, wire_txn, leaders, turns),
        0 <= i < turns.len(),
    ensures
        is_turn(
            &sender.leader_tpu_info.service(),
            sender.leader_tpu_info.kind(),
            sig,
            wire_txn,
            turns,
            i,
        ),
        turns[i].leader == leaders[i],
{
    let service = sender.leader_tpu_info.service();
    let kind = sender.leader_tpu_info.kind();
    let before = turns.take(i);
    assert(crate::yellowstone_grpc::sender::turn_taken(
        &service,
        kind,
        sig,
        wire_txn,
        leaders[i],
        leaders.len() > 1,
        FanoutProgress::after_turns(before),
        turns[i],
    ));
    crate::yellowstone_grpc::sender_laws::law_a_leader_is_left_out_where_it_shares_the_last_address(
        sender,
        sig,
        wire_txn,
        leaders,
        turns,
        i,
    );
    assert(turns[i].handed is None <==> shares_the_last_address(turns, i)) by {
        if turns[i].handed is None {
            let j = choose|j: int| #[trigger]
                crate::yellowstone_grpc::sender_laws::last_known(before, j) && turns[j].addr()
                    == turns[i].addr();
            let addr = turns[i].addr()->0;
            assert(before[j] == turns[j]);
            assert forall|k: int, other: SocketAddr| j < k < i && was_taken(turns[k]) implies !(
            #[trigger] known_addr(turns[k], other)) by {
                assert(before[k] == turns[k]);
                assert(!before[k].enqueued_at_known_addr());
            }
            assert(sent_last_to(turns, i, j, addr) && known_addr(turns[i], addr));
        }
        if shares_the_last_address(turns, i) {
            let (j, addr) = choose|j: int, addr: SocketAddr| #[trigger]
                sent_last_to(turns, i, j, addr) && known_addr(turns[i], addr);
            assert(before[j] == turns[j]);
            assert forall|k: int| j < k < before.len() implies !(
            #[trigger] before[k]).enqueued_at_known_addr() by {
                assert(before[k] == turns[k]);
                if before[k].enqueued_at_known_addr() {
                    assert(known_addr(turns[k], turns[k].addr()->0));
                }
            }
            assert(crate::yellowstone_grpc::sender_laws::last_known(before, j));
            assert(turns[j].addr() == turns[i].addr());
        }
    }
}

/// A fanout reports what its turns come to.
proof fn lemma_is_outcome<L: LeaderTpuInfoService>(
    sender: YellowstoneTpuSender<L>,
    sig: Signature,
    wire_txn: Bytes,
    leaders: Seq<Pubkey>,
    turns: Seq<LeaderTurn>,
)
    requires
        sender.took_turns(sig, wire_txn, leaders, turns),
    ensures
        is_outcome(turns, FanoutProgress::after_turns(turns).outcome()),
{
    let outcome = FanoutProgress::after_turns(turns).outcome();
    crate::yellowstone_grpc::sender_laws::law_a_reached_leader_means_an_enqueued_transaction(
        sender,
        sig,
        wire_txn,
        leaders,
        turns,
    );
    crate::yellowstone_grpc::sender_laws::law_one_reached_leader_is_enough(turns);
    if exists|i: int| 0 <= i < turns.len() && was_taken(#[trigger] turns[i]) {
        let i = choose|i: int| 0 <= i < turns.len() && was_taken(#[trigger] turns[i]);
        assert(turns[i].enqueued());
    }
    if exists|i: int| 0 <= i < turns.len() && (#[trigger] turns[i]).enqueued() {
        let i = choose|i: int| 0 <= i < turns.len() && (#[trigger] turns[i]).enqueued();
        assert(was_taken(turns[i]));
    }
    if outcome is Err {
        if turns.len() == 0 {
            assert(FanoutProgress::after_turns(turns) == FanoutProgress::start());
        } else {
            assert forall|i: int| 0 <= i < turns.len() implies !(#[trigger] turns[i]).reached() by {}
            crate::yellowstone_grpc::sender_laws::law_the_first_error_is_reported(turns);
            assert(!turns[0].reached());
        }
    }
}

/// A fanout is a send as described.
proof fn lemma_is_send<L: LeaderTpuInfoService>(
    before: YellowstoneTpuSender<L>,
    after: YellowstoneTpuSender<L>,
    sig: Signature,
    wire_txn: Bytes,
    result: Result<(), SendError>,
)
    requires
        before.fanned_out(after, sig, wire_txn, result),
    ensures
        is_send(before, after, sig, wire_txn, result),
{
    let kind = SendError::kind_of(result);
    let turns = choose|turns: Seq<LeaderTurn>|
        {
            &&& #[trigger] before.sent(sig, wire_txn, turns, kind)
            &&& after.handed() == before.handed() + crate::yellowstone_grpc::sender::handovers(
                turns,
            )
            &&& after.asked() == before.asked() + crate::yellowstone_grpc::sender::lookups(turns)
        };
    lemma_handed_in(turns);
    lemma_asked_in(turns);
    if turns.len() == 0 {
        assert(crate::yellowstone_grpc::sender::handovers(turns) =~= Seq::empty());
        assert(crate::yellowstone_grpc::sender::lookups(turns) =~= Seq::empty());
        assert(after.handed() =~= before.handed());
        assert(after.asked() =~= before.asked());
    }
    if before.atomic_slot_tracker.closed_loaded(true) && turns.len() == 0 && kind == Err::<(), _>(
        SendErrorKind::SlotTrackerDisconnected,
    ) {
    } else {
        let slot = choose|slot: u64| #[trigger]
            before.atomic_slot_tracker.slot_loaded(slot) && before.sent_from(
                sig,
                wire_txn,
                slot,
                turns,
                kind,
            );
        let shown = choose|shown: Option<InnerManagedLeaderSchedule>| #[trigger]
            before.leader_schedule.reads(shown) && match shown {
                Some(schedules) if !schedules.fail => {
                    &&& before.took_turns(
                        sig,
                        wire_txn,
                        schedules.unique_leaders(
                            slot as int,
                            crate::rpc::schedule::fanout_lookups(slot, before.send_fanout_slots),
                        ),
                        turns,
                    )
                    &&& kind == FanoutProgress::after_turns(turns).outcome()
                },
                _ => {
                    &&& turns.len() == 0
                    &&& kind == Err::<(), _>(SendErrorKind::ManagedLeaderScheduleDisconnected)
                },
            };
        if shown is Some && !shown->0.fail {
            let leaders = shown->0.unique_leaders(
                slot as int,
                crate::rpc::schedule::fanout_lookups(slot, before.send_fanout_slots),
            );
            crate::rpc::lookup_laws::law_unique_leaders_are_the_leaders_of_the_window(
                shown->0,
                slot,
                before.send_fanout_slots,
            );
            assert forall|i: int| 0 <= i < turns.len() implies #[trigger] is_turn(
                &before.leader_tpu_info.service(),
                before.leader_tpu_info.kind(),
                sig,
                wire_txn,
                turns,
                i,
            ) && turns[i].leader == leaders[i] by {
                lemma_is_turn(before, sig, wire_txn, leaders, turns, i);
            }
            assert(leaders_of(turns) =~= leaders) by {
                assert forall|i: int| 0 <= i < turns.len() implies turns[i].leader == leaders[i] by {
                    assert(is_turn(
                        &before.leader_tpu_info.service(),
                        before.leader_tpu_info.kind(),
                        sig,
                        wire_txn,
                        turns,
                        i,
                    ));
                }
            }
            lemma_is_outcome(before, sig, wire_txn, leaders, turns);
            assert(crate::rpc::lookup_laws::are_the_leaders_of_the_window(
                shown->0,
                slot as int,
                before.send_fanout_slots as int,
                leaders_of(turns),
            ));
        }
        assert(is_send_from(before, after, sig, wire_txn, slot, shown, result));
    }
}

/// A send hands the transaction to the leaders of the window that starts with the current slot,
/// each once and in their order, except for those at the address that was sent to last, and does
/// nothing else. It reports success exactly where the queue took the transaction, and hands the
/// transaction back where it did not.
pub proof fn law_a_send_goes_to_the_leaders_of_the_window<L: LeaderTpuInfoService>(
    sig: Signature,
    wire_txn: Bytes,
    result: Result<(), SendError>,
)
    ensures
        forall|sender: &mut YellowstoneTpuSender<L>| #[trigger]
            call_ensures(
                YellowstoneTpuSender::<L>::send_txn_fanout,
                (sender, sig, wire_txn),
                result,
            ) ==> is_send(*sender, *final(sender), sig, wire_txn, result),
{
    assert forall|sender: &mut YellowstoneTpuSender<L>| #[trigger]
        call_ensures(
            YellowstoneTpuSender::<L>::send_txn_fanout,
            (sender, sig, wire_txn),
            result,
        ) implies is_send(*sender, *final(sender), sig, wire_txn, result) by {
        lemma_is_send(*sender, *final(sender), sig, wire_txn, result);
    }
}

/// Sending a vector is a send of a buffer with its bytes.
pub proof fn law_a_vector_is_sent_as_its_bytes<L: LeaderTpuInfoService>(
    sig: Signature,
    txn: Vec<u8>,
    result: Result<(), SendError>,
)
    ensures
        forall|sender: &mut YellowstoneTpuSender<L>| #[trigger]
            call_ensures(YellowstoneTpuSender::<L>::try_send_txn, (sender, sig, txn), result)
                ==> is_send_of_bytes(*sender, *final(sender), sig, txn@, result),
{
    assert forall|sender: &mut YellowstoneTpuSender<L>| #[trigger]
        call_ensures(
            YellowstoneTpuSender::<L>::try_send_txn,
            (sender, sig, txn),
            result,
        ) implies is_send_of_bytes(*sender, *final(sender), sig, txn@, result) by {
        let before = *sender;
        let after = *final(sender);
        let wire_txn = choose|wire_txn: Bytes|
            crate::wire::wire_bytes(wire_txn) == txn@ && #[trigger] before.fanned_out(
                after,
                sig,
                wire_txn,
                result,
            );
        lemma_is_send(before, after, sig, wire_txn, result);
    }
}

/// The send is one of a buffer with these bytes.
pub open spec fn is_send_of_bytes<L: LeaderTpuInfoService>(
    before: YellowstoneTpuSender<L>,
    after: YellowstoneTpuSender<L>,
    sig: Signature,
    bytes: Seq<u8>,
    result: Result<(), SendError>,
) -> bool {
    exists|wire_txn: Bytes|
        crate::wire::wire_bytes(wire_txn) == bytes && #[trigger] is_send(
            before,
            after,
            sig,
            wire_txn,
            result,
        )
}

/// The sender works with the port of the configuration and over as many slots as it says, up to a
/// hundred, on the given services, and nothing was done through it yet.
pub open spec fn is_built_for<L: LeaderTpuInfoService>(
    sender: YellowstoneTpuSender<L>,
    tpu: TpuSenderConfig,
    atomic_slot_tracker: Arc<AtomicSlotTracker>,
    leader_schedule: ManagedLeaderSchedule,
    leader_tpu_info: Arc<L>,
) -> bool {
    &&& sender.atomic_slot_tracker == atomic_slot_tracker
    &&& sender.leader_schedule == leader_schedule
    &&& sender.leader_tpu_info.service() == *leader_tpu_info
    &&& sender.leader_tpu_info.kind() == tpu.tpu_port
    &&& sender.leader_tpu_info.asked() == Seq::<AddrLookup>::empty()
    &&& sender.send_fanout_slots <= 100
    &&& sender.send_fanout_slots <= tpu.send_fanout_slots
    &&& sender.send_fanout_slots == 100 || sender.send_fanout_slots == tpu.send_fanout_slots
}

/// A sender is built for its configuration, on the given handle.
pub proof fn law_a_sender_is_built_for_its_configuration<L: LeaderTpuInfoService>(
    base_tpu_sender: TpuSender,
    atomic_slot_tracker: Arc<AtomicSlotTracker>,
    leader_schedule: ManagedLeaderSchedule,
    leader_tpu_info: Arc<L>,
    config: &TpuSenderConfig,
    sender: YellowstoneTpuSender<L>,
)
    requires
        call_ensures(
            YellowstoneTpuSender::<L>::new,
            (base_tpu_sender, atomic_slot_tracker, leader_schedule, leader_tpu_info, config),
            sender,
        ),
    ensures
        sender.base_tpu_sender == base_tpu_sender,
        is_built_for(sender, *config, atomic_slot_tracker, leader_schedule, leader_tpu_info),
{
}

/// The factory hands the driver its configuration, no callback and the capacity of the queue, and
/// builds the sender for the configuration on the driver's queue and on the services.
pub proof fn law_a_factory_starts_the_driver_without_a_callback<
    L: LeaderTpuInfoService,
    D: TpuSenderDriverSpawner<Nothing>,
    I,
    S,
>(
    config: &YellowstoneTpuSenderConfig<I, S>,
    spawner: &D,
    services: SenderServices<L>,
    sender: YellowstoneTpuSender<L>,
)
    requires
        call_ensures(
            create_yellowstone_tpu_sender::<L, D, I, S>,
            (config, spawner, services),
            sender,
        ),
    ensures
        call_ensures(
            D::spawn,
            (spawner, &config.tpu, None::<Nothing>, config.channel_capacity),
            sender.base_tpu_sender.channel(),
        ),
        sender.base_tpu_sender.handed() == Seq::<Handover>::empty(),
        is_built_for(
            sender,
            config.tpu,
            services.atomic_slot_tracker,
            services.leader_schedule,
            services.leader_tpu_info,
        ),
{
}

/// The factory with a callback hands the driver that callback, and is else like the one without.
pub proof fn law_a_factory_starts_the_driver_with_the_callback<
    L: LeaderTpuInfoService,
    CB,
    D: TpuSenderDriverSpawner<CB>,
    I,
    S,
>(
    config: &YellowstoneTpuSenderConfig<I, S>,
    spawner: &D,
    services: SenderServices<L>,
    callback: CB,
    sender: YellowstoneTpuSender<L>,
)
    requires
        call_ensures(
            create_yellowstone_tpu_sender_with_callback::<L, CB, D, I, S>,
            (config, spawner, services, callback),
            sender,
        ),
    ensures
        call_ensures(
            D::spawn,
            (spawner, &config.tpu, Some(callback), config.channel_capacity),
            sender.base_tpu_sender.channel(),
        ),
        sender.base_tpu_sender.handed() == Seq::<Handover>::empty(),
        is_built_for(
            sender,
            config.tpu,
            services.atomic_slot_tracker,
            services.leader_schedule,
            services.leader_tpu_info,
        ),
{
}

/// A clone works on the same queue, slot, schedule and service and over as many slots, and nothing
/// was done through it yet.
pub proof fn law_a_clone_works_alike<L: LeaderTpuInfoService>(
    sender: &YellowstoneTpuSender<L>,
    copy: YellowstoneTpuSender<L>,
)
    requires
        call_ensures(YellowstoneTpuSender::<L>::clone, (sender,), copy),
    ensures
        copy.base_tpu_sender.channel() == sender.base_tpu_sender.channel(),
        copy.atomic_slot_tracker == sender.atomic_slot_tracker,
        copy.leader_schedule == sender.leader_schedule,
        copy.leader_tpu_info.service() == sender.leader_tpu_info.service(),
        copy.leader_tpu_info.kind() == sender.leader_tpu_info.kind(),
        copy.send_fanout_slots == sender.send_fanout_slots,
        copy.base_tpu_sender.handed() == Seq::<Handover>::empty(),
        copy.leader_tpu_info.asked() == Seq::<AddrLookup>::empty(),
{
}

/// An address is coalesced exactly where it is known and was sent to last.
pub proof fn law_the_last_address_is_coalesced(
    progress: &FanoutProgress,
    addr: Option<SocketAddr>,
    coalesced: bool,
)
    requires
        call_ensures(FanoutProgress::is_coalesced, (progress, addr), coalesced),
    ensures
        coalesced <==> addr is Some && progress.sent_addr is Some && addr->0
            == progress.sent_addr->0,
{
}

/// Taking down a turn: it counts as sent exactly where the queue took the transaction or the
/// leader was left out, the address is kept exactly where the queue took the transaction for a
/// known one, and an error is kept exactly where it is the first.
pub proof fn law_a_turn_is_taken_down(
    addr: Option<SocketAddr>,
    answer: Option<Result<(), TpuSenderErrorKind>>,
)
    ensures
        forall|progress: &mut FanoutProgress| #[trigger]
            call_ensures(FanoutProgress::record, (progress, addr, answer), ()) ==> {
                let after = *final(progress);
                let refused = answer is Some && answer->0 is Err;
                let took = answer is Some && answer->0 is Ok;
                &&& after.sent_any <==> progress.sent_any || !refused
                &&& took && addr is Some ==> after.sent_addr == addr
                &&& !(took && addr is Some) ==> after.sent_addr == progress.sent_addr
                &&& progress.first_error is Some || !refused ==> after.first_error
                    == progress.first_error
                &&& progress.first_error is None && refused ==> match answer->0->Err_0 {
                    TpuSenderErrorKind::Full => after.first_error == Some(SendErrorKind::Full),
                    TpuSenderErrorKind::Closed => after.first_error == Some(SendErrorKind::Closed),
                }
            },
{
}

/// A fanout starts with nothing sent and reports success exactly where something was sent, and
/// else its first error, or that there is no leader.
pub proof fn law_a_fanout_reports_its_progress(
    start: FanoutProgress,
    progress: &FanoutProgress,
    result: Result<(), SendErrorKind>,
)
    requires
        call_ensures(FanoutProgress::new, (), start),
        call_ensures(FanoutProgress::finish, (progress,), result),
    ensures
        !start.sent_any,
        start.sent_addr is None,
        start.first_error is None,
        result is Ok <==> progress.sent_any,
        result matches Err(kind) ==> {
            ||| progress.first_error == Some(kind)
            ||| progress.first_error is None && kind == SendErrorKind::UnknownLeader
        },
{
}

/// The words of an error are those of its kind, and that they are about a transaction.
pub proof fn law_the_words_of_an_error_name_its_kind(
    error: &SendError,
    words: String,
    kind_words: String,
)
    requires
        call_ensures(SendError::message, (error,), words),
        call_ensures(SendErrorKind::message, (&error.kind,), kind_words),
    ensures
        words@ == kind_words@ + " for transaction"@,
{
}

/// A task is named by its number, and by a stand-in where there is none with that number.
pub proof fn law_a_task_is_named_by_its_number(
    names: &Vec<&'static str>,
    i: usize,
    name: &'static str,
)
    requires
        call_ensures(finished_task_name, (names, i), name),
    ensures
        i < names@.len() ==> name@ == names@[i as int]@,
        i >= names@.len() ==> name@ == "unknown"@,
{
}

/// By default a sender has the default options, checks for a new epoch every five minutes, and has
/// a queue for a hundred thousand transactions; the configurations of the services are theirs.
pub proof fn law_the_default_configuration<I: Default, S: Default>(
    config: YellowstoneTpuSenderConfig<I, S>,
)
    requires
        call_ensures(YellowstoneTpuSenderConfig::<I, S>::default, (), config),
    ensures
        config.tpu.tpu_port is Normal,
        config.tpu.send_fanout_slots == 12,
        call_ensures(I::default, (), config.tpu_info),
        crate::time::duration_nanos(config.schedule.check_interval) == 5 * 60 * 1_000_000_000,
        call_ensures(S::default, (), config.stake),
        config.channel_capacity == 100_000,
{
}

} // verus!
