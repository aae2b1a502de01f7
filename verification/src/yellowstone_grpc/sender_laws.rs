//! What holds of a fanout as a whole.

use crate::pubkey::Pubkey;
use crate::rpc::schedule::{InnerManagedLeaderSchedule, LEADER_STRIDE};
use crate::sender::Handover;
use crate::tpu_info::{AddrLookup, LeaderTpuInfoService, SocketAddr};
use crate::txn::Signature;
use crate::yellowstone_grpc::sender::{
    FanoutProgress, LeaderTurn, SendError, SendErrorKind, YellowstoneTpuSender,
};
use bytes::Bytes;
use vstd::prelude::*;

verus! {

impl LeaderTurn {
    /// The transaction is on its way to the leader: it was enqueued, or coalesced with one that
    /// was.
    pub open spec fn reached(self) -> bool {
        self.handed is None || self.enqueued()
    }

    /// The transaction was enqueued for the leader.
    pub open spec fn enqueued(self) -> bool {
        self.handed is Some && self.handed->0.answer is Ok
    }

    /// The transaction was enqueued for the leader, whose address is known.
    pub open spec fn enqueued_at_known_addr(self) -> bool {
        self.enqueued() && self.addr() is Some
    }
}

/// A fanout succeeds exactly when the transaction is on its way to at least one leader.
pub proof fn law_one_reached_leader_is_enough(turns: Seq<LeaderTurn>)
    ensures
        FanoutProgress::after_turns(turns).outcome() is Ok <==> exists|i: int|
            0 <= i < turns.len() && (#[trigger] turns[i]).reached(),
    decreases turns.len(),
{
    if turns.len() > 0 {
        let rest = turns.drop_last();
        let last = turns.len() - 1;
        law_one_reached_leader_is_enough(rest);
        assert(turns[last] == turns.last());
        if exists|i: int| 0 <= i < rest.len() && (#[trigger] rest[i]).reached() {
            let i = choose|i: int| 0 <= i < rest.len() && (#[trigger] rest[i]).reached();
            assert(turns[i].reached());
        }
        if exists|i: int| 0 <= i < turns.len() && (#[trigger] turns[i]).reached() {
            let i = choose|i: int| 0 <= i < turns.len() && (#[trigger] turns[i]).reached();
            if i < last {
                assert(rest[i].reached());
            }
        }
    }
}

/// A fanout that reaches no leader reports the error of the first leader.
pub proof fn law_the_first_error_is_reported(turns: Seq<LeaderTurn>)
    requires
        turns.len() > 0,
        forall|i: int| 0 <= i < turns.len() ==> !(#[trigger] turns[i]).reached(),
    ensures
        FanoutProgress::after_turns(turns).outcome() == Err::<(), _>(
            SendErrorKind::of_queue(turns[0].handed->0.answer->Err_0),
        ),
        FanoutProgress::after_turns(turns).first_error == Some(
            SendErrorKind::of_queue(turns[0].handed->0.answer->Err_0),
        ),
    decreases turns.len(),
{
    let rest = turns.drop_last();
    let last = turns.len() - 1;
    assert(turns[last] == turns.last());
    assert(!turns[last].reached());
    if rest.len() > 0 {
        assert forall|i: int| 0 <= i < rest.len() implies !(#[trigger] rest[i]).reached() by {
            assert(rest[i] == turns[i]);
        }
        law_the_first_error_is_reported(rest);
        assert(rest[0] == turns[0]);
    } else {
        assert(FanoutProgress::after_turns(rest) == FanoutProgress::start());
    }
}

/// `j` is the last of the turns in which the transaction was enqueued for a known address.
pub open spec fn last_known(turns: Seq<LeaderTurn>, j: int) -> bool {
    &&& 0 <= j < turns.len()
    &&& turns[j].enqueued_at_known_addr()
    &&& forall|k: int| j < k < turns.len() ==> !(#[trigger] turns[k]).enqueued_at_known_addr()
}

/// The address that a fanout keeps is that of the last turn in which the transaction was
/// enqueued for a known address.
proof fn lemma_sent_addr_is_the_last_known(turns: Seq<LeaderTurn>, addr: SocketAddr)
    ensures
        FanoutProgress::after_turns(turns).sent_addr == Some(addr) <==> exists|j: int| #[trigger]
            last_known(turns, j) && turns[j].addr() == Some(addr),
    decreases turns.len(),
{
    if turns.len() > 0 {
        let rest = turns.drop_last();
        let last = turns.len() - 1;
        lemma_sent_addr_is_the_last_known(rest, addr);
        assert(turns[last] == turns.last());
        if turns[last].enqueued_at_known_addr() {
            assert(last_known(turns, last));
            assert forall|j: int| #[trigger] last_known(turns, j) implies j == last by {
                if j < last {
                    assert(!turns[last].enqueued_at_known_addr());
                }
            }
        } else {
            assert forall|j: int| last_known(rest, j) <==> #[trigger] last_known(turns, j) by {
                if last_known(rest, j) {
                    assert(turns[j] == rest[j]);
                    assert forall|k: int| j < k < turns.len() implies !(
                    #[trigger] turns[k]).enqueued_at_known_addr() by {
                        if k < last {
                            assert(turns[k] == rest[k]);
                        }
                    }
                }
                if last_known(turns, j) {
                    assert(j < last);
                    assert(turns[j] == rest[j]);
                    assert forall|k: int| j < k < rest.len() implies !(
                    #[trigger] rest[k]).enqueued_at_known_addr() by {
                        assert(turns[k] == rest[k]);
                    }
                }
            }
            if exists|j: int| #[trigger] last_known(rest, j) && rest[j].addr() == Some(addr) {
                let j = choose|j: int| #[trigger]
                    last_known(rest, j) && rest[j].addr() == Some(addr);
                assert(last_known(turns, j) && turns[j].addr() == Some(addr));
            }
            if exists|j: int| #[trigger] last_known(turns, j) && turns[j].addr() == Some(addr) {
                let j = choose|j: int| #[trigger]
                    last_known(turns, j) && turns[j].addr() == Some(addr);
                assert(last_known(rest, j) && rest[j].addr() == Some(addr));
            }
        }
    }
}

/// A leader is left out exactly where its known address is that of the last leader before it for
/// which the transaction was enqueued at a known address. A leader whose address is not known is
/// never left out.
pub proof fn law_a_leader_is_left_out_where_it_shares_the_last_address<L: LeaderTpuInfoService>(
    sender: YellowstoneTpuSender<L>,
    sig: Signature,
    wire_txn: Bytes,
    leaders: Seq<Pubkey>,
    turns: Seq<LeaderTurn>,
    i: int,
)
    requires
        sender.took_turns(sig, wire_txn, leaders, turns),
        0 <= i < turns.len(),
    ensures
        turns[i].handed is None <==> turns[i].addr() is Some && exists|j: int| #[trigger]
            last_known(turns.take(i), j) && turns[j].addr() == turns[i].addr(),
{
    lemma_turn(sender, sig, wire_txn, leaders, turns, i);
    let before = turns.take(i);
    if let Some(addr) = turns[i].addr() {
        lemma_sent_addr_is_the_last_known(before, addr);
        if exists|j: int| #[trigger] last_known(before, j) && before[j].addr() == Some(addr) {
            let j = choose|j: int| #[trigger]
                last_known(before, j) && before[j].addr() == Some(addr);
            assert(turns[j] == before[j]);
        }
        if exists|j: int| #[trigger] last_known(before, j) && turns[j].addr() == Some(addr) {
            let j = choose|j: int| #[trigger]
                last_known(before, j) && turns[j].addr() == Some(addr);
            assert(turns[j] == before[j]);
        }
    }
}

/// What the turns of a fanout say of each of them.
proof fn lemma_turn<L: LeaderTpuInfoService>(
    sender: YellowstoneTpuSender<L>,
    sig: Signature,
    wire_txn: Bytes,
    leaders: Seq<Pubkey>,
    turns: Seq<LeaderTurn>,
    i: int,
)
    requires
        sender.took_turns(sig, wire_txn, leaders, turns),
        0 <= i < turns.len(),
    ensures
        turns.len() == leaders.len(),
        turns[i].leader == leaders[i],
        turns[i].lookup is Some <==> leaders.len() > 1,
        turns[i].handed is None <==> FanoutProgress::after_turns(turns.take(i)).coalesces(
            turns[i].addr(),
        ),
        turns[i].handed matches Some(handover) ==> handover.txn.carries(sig, leaders[i], wire_txn),
{
    assert(crate::yellowstone_grpc::sender::turn_taken(
        &sender.leader_tpu_info.service(),
        sender.leader_tpu_info.kind(),
        sig,
        wire_txn,
        leaders[i],
        leaders.len() > 1,
        FanoutProgress::after_turns(turns.take(i)),
        turns[i],
    ));
}

/// What the queue took of two rows of transactions is what it took of each.
proof fn lemma_taken_in_two_parts(first: Seq<Handover>, second: Seq<Handover>)
    ensures
        crate::queue::taken(first + second) == crate::queue::taken(first) + crate::queue::taken(
            second,
        ),
    decreases second.len(),
{
    if second.len() == 0 {
        assert(first + second =~= first);
        assert(crate::queue::taken(second) =~= Seq::empty());
        assert(crate::queue::taken(first) + crate::queue::taken(second)
            =~= crate::queue::taken(first));
    } else {
        assert((first + second).drop_last() =~= first + second.drop_last());
        assert((first + second).last() == second.last());
        lemma_taken_in_two_parts(first, second.drop_last());
        assert(crate::queue::taken(first + second) =~= crate::queue::taken(first)
            + crate::queue::taken(second));
    }
}

/// The queue took a transaction exactly where it was enqueued in a turn.
proof fn lemma_taken_in_a_turn(turns: Seq<LeaderTurn>)
    ensures
        crate::queue::taken(crate::yellowstone_grpc::sender::handovers(turns)).len() > 0
            <==> exists|i: int| 0 <= i < turns.len() && (#[trigger] turns[i]).enqueued(),
    decreases turns.len(),
{
    if turns.len() > 0 {
        let rest = turns.drop_last();
        let last = turns.len() - 1;
        let before = crate::yellowstone_grpc::sender::handovers(rest);
        let added = turns.last().handovers();
        lemma_taken_in_a_turn(rest);
        lemma_taken_in_two_parts(before, added);
        assert(turns[last] == turns.last());
        assert(crate::queue::taken(added).len() == if turns.last().enqueued() {
            1int
        } else {
            0
        }) by {
            if added.len() > 0 {
                assert(added.drop_last() =~= Seq::empty());
                assert(crate::queue::taken(added.drop_last()).len() == 0);
            }
        }
        if exists|i: int| 0 <= i < rest.len() && (#[trigger] rest[i]).enqueued() {
            let i = choose|i: int| 0 <= i < rest.len() && (#[trigger] rest[i]).enqueued();
            assert(turns[i].enqueued());
        }
        if exists|i: int| 0 <= i < turns.len() && (#[trigger] turns[i]).enqueued() {
            let i = choose|i: int| 0 <= i < turns.len() && (#[trigger] turns[i]).enqueued();
            if i < last {
                assert(rest[i].enqueued());
            }
        }
    } else {
        assert(crate::yellowstone_grpc::sender::handovers(turns) =~= Seq::empty());
    }
}

/// A fanout succeeds exactly when the queue took the transaction in one of its turns.
pub proof fn law_a_reached_leader_means_an_enqueued_transaction<L: LeaderTpuInfoService>(
    sender: YellowstoneTpuSender<L>,
    sig: Signature,
    wire_txn: Bytes,
    leaders: Seq<Pubkey>,
    turns: Seq<LeaderTurn>,
)
    requires
        sender.took_turns(sig, wire_txn, leaders, turns),
    ensures
        FanoutProgress::after_turns(turns).outcome() is Ok <==> exists|i: int|
            0 <= i < turns.len() && (#[trigger] turns[i]).enqueued(),
{
    law_one_reached_leader_is_enough(turns);
    if exists|i: int| 0 <= i < turns.len() && (#[trigger] turns[i]).reached() {
        let i = choose|i: int| 0 <= i < turns.len() && (#[trigger] turns[i]).reached();
        if turns[i].handed is None {
            law_a_leader_is_left_out_where_it_shares_the_last_address(
                sender,
                sig,
                wire_txn,
                leaders,
                turns,
                i,
            );
            let j = choose|j: int| #[trigger]
                last_known(turns.take(i), j) && turns[j].addr() == turns[i].addr();
            assert(turns[j] == turns.take(i)[j]);
            assert(turns[j].enqueued());
        }
    }
    if exists|i: int| 0 <= i < turns.len() && (#[trigger] turns[i]).enqueued() {
        let i = choose|i: int| 0 <= i < turns.len() && (#[trigger] turns[i]).enqueued();
        assert(turns[i].reached());
    }
}

/// A send succeeds exactly when the queue took at least one transaction from it. After a send
/// that fails, the queue holds what it held, and the caller has the transaction back.
pub proof fn law_a_failed_send_leaves_nothing_in_the_queue<L: LeaderTpuInfoService>(
    before: YellowstoneTpuSender<L>,
    after: YellowstoneTpuSender<L>,
    sig: Signature,
    wire_txn: Bytes,
    result: Result<(), SendError>,
)
    requires
        before.fanned_out(after, sig, wire_txn, result),
    ensures
        result is Ok <==> crate::queue::taken(after.handed()).len() > crate::queue::taken(
            before.handed(),
        ).len(),
        result matches Err(error) ==> {
            &&& crate::queue::taken(after.handed()) == crate::queue::taken(before.handed())
            &&& error.txn == wire_txn
        },
{
    let kind = SendError::kind_of(result);
    let turns = choose|turns: Seq<LeaderTurn>|
        {
            &&& #[trigger] before.sent(sig, wire_txn, turns, kind)
            &&& after.handed() == before.handed() + crate::yellowstone_grpc::sender::handovers(
                turns,
            )
            &&& after.asked() == before.asked() + crate::yellowstone_grpc::sender::lookups(turns)
        };
    let added = crate::yellowstone_grpc::sender::handovers(turns);
    lemma_taken_in_two_parts(before.handed(), added);
    lemma_taken_in_a_turn(turns);
    lemma_sent_by_turns(before, sig, wire_txn, turns, kind);
    assert(crate::queue::taken(before.handed()) + Seq::empty() =~= crate::queue::taken(
        before.handed(),
    ));
    if result is Err {
        assert(crate::queue::taken(added) =~= Seq::empty());
    }
}

/// However a send went, it succeeded exactly where the transaction was enqueued in a turn.
proof fn lemma_sent_by_turns<L: LeaderTpuInfoService>(
    sender: YellowstoneTpuSender<L>,
    sig: Signature,
    wire_txn: Bytes,
    turns: Seq<LeaderTurn>,
    result: Result<(), SendErrorKind>,
)
    requires
        sender.sent(sig, wire_txn, turns, result),
    ensures
        result is Ok <==> exists|i: int| 0 <= i < turns.len() && (#[trigger] turns[i]).enqueued(),
{
    if turns.len() > 0 {
        let slot = choose|slot: u64| #[trigger]
            sender.atomic_slot_tracker.slot_loaded(slot) && sender.sent_from(
                sig,
                wire_txn,
                slot,
                turns,
                result,
            );
        let shown = choose|shown: Option<InnerManagedLeaderSchedule>| #[trigger]
            sender.leader_schedule.reads(shown) && match shown {
                Some(schedules) if !schedules.fail => {
                    &&& sender.took_turns(
                        sig,
                        wire_txn,
                        schedules.unique_leaders(
                            slot as int,
                            crate::rpc::schedule::fanout_lookups(slot, sender.send_fanout_slots),
                        ),
                        turns,
                    )
                    &&& result == FanoutProgress::after_turns(turns).outcome()
                },
                _ => {
                    &&& turns.len() == 0
                    &&& result == Err::<(), _>(SendErrorKind::ManagedLeaderScheduleDisconnected)
                },
            };
        law_a_reached_leader_means_an_enqueued_transaction(
            sender,
            sig,
            wire_txn,
            shown->0.unique_leaders(
                slot as int,
                crate::rpc::schedule::fanout_lookups(slot, sender.send_fanout_slots),
            ),
            turns,
        );
    } else {
        assert(FanoutProgress::after_turns(turns) == FanoutProgress::start());
    }
}

/// Leaders whose addresses are not known, or not asked for, are handed one transaction each, in
/// their order, and nobody else is.
pub proof fn law_leaders_without_addresses_get_one_transaction_each<L: LeaderTpuInfoService>(
    sender: YellowstoneTpuSender<L>,
    sig: Signature,
    wire_txn: Bytes,
    leaders: Seq<Pubkey>,
    turns: Seq<LeaderTurn>,
)
    requires
        sender.took_turns(sig, wire_txn, leaders, turns),
        forall|i: int| 0 <= i < turns.len() ==> (#[trigger] turns[i]).addr() is None,
    ensures
        crate::yellowstone_grpc::sender::handovers(turns).len() == leaders.len(),
        forall|i: int|
            0 <= i < leaders.len() ==> (#[trigger] crate::yellowstone_grpc::sender::handovers(
                turns,
            )[i]).txn.carries(sig, leaders[i], wire_txn),
{
    assert forall|i: int| 0 <= i < turns.len() implies {
        &&& (#[trigger] turns[i]).handed is Some
        &&& turns[i].handed->0.txn.carries(sig, leaders[i], wire_txn)
    } by {
        lemma_turn(sender, sig, wire_txn, leaders, turns, i);
    }
    lemma_one_handover_each(turns);
}

/// Where every turn hands a transaction over, these are the transactions of the turns.
proof fn lemma_one_handover_each(turns: Seq<LeaderTurn>)
    requires
        forall|i: int| 0 <= i < turns.len() ==> (#[trigger] turns[i]).handed is Some,
    ensures
        crate::yellowstone_grpc::sender::handovers(turns).len() == turns.len(),
        forall|i: int|
            0 <= i < turns.len() ==> #[trigger] crate::yellowstone_grpc::sender::handovers(turns)[i]
                == turns[i].handed->0,
    decreases turns.len(),
{
    if turns.len() > 0 {
        let rest = turns.drop_last();
        let last = turns.len() - 1;
        assert forall|i: int| 0 <= i < rest.len() implies (#[trigger] rest[i]).handed is Some by {
            assert(rest[i] == turns[i]);
        }
        lemma_one_handover_each(rest);
        assert(turns[last] == turns.last());
        assert(turns[last].handed is Some);
        assert forall|i: int| 0 <= i < turns.len() implies
            #[trigger] crate::yellowstone_grpc::sender::handovers(turns)[i] == turns[i].handed->0 by {
            if i < last {
                assert(rest[i] == turns[i]);
                assert(crate::yellowstone_grpc::sender::handovers(rest)[i] == rest[i].handed->0);
            }
        }
    }
}

/// Two leaders at one address share one copy: only the first is handed the transaction, where
/// the queue takes it.
pub proof fn law_two_leaders_at_one_address_share_one_copy<L: LeaderTpuInfoService>(
    sender: YellowstoneTpuSender<L>,
    sig: Signature,
    wire_txn: Bytes,
    leaders: Seq<Pubkey>,
    turns: Seq<LeaderTurn>,
)
    requires
        sender.took_turns(sig, wire_txn, leaders, turns),
        leaders.len() == 2,
        turns[0].addr() is Some,
        turns[1].addr() == turns[0].addr(),
        turns[0].enqueued(),
    ensures
        crate::yellowstone_grpc::sender::handovers(turns).len() == 1,
        crate::yellowstone_grpc::sender::handovers(turns)[0].txn.carries(
            sig,
            leaders[0],
            wire_txn,
        ),
{
    lemma_turn(sender, sig, wire_txn, leaders, turns, 0);
    law_neighbours_at_one_address_are_coalesced(sender, sig, wire_txn, leaders, turns, 0);
    let first = turns.drop_last();
    assert(turns.last() == turns[1]);
    assert(first.last() == turns[0]);
    assert(first.drop_last() =~= Seq::empty());
    assert(crate::yellowstone_grpc::sender::handovers(first.drop_last()) =~= Seq::empty());
    assert(crate::yellowstone_grpc::sender::handovers(first) =~= turns[0].handovers());
    assert(crate::yellowstone_grpc::sender::handovers(turns) =~= turns[0].handovers());
}

/// A leader at the address for which the transaction was just enqueued gets no second copy.
pub proof fn law_neighbours_at_one_address_are_coalesced<L: LeaderTpuInfoService>(
    sender: YellowstoneTpuSender<L>,
    sig: Signature,
    wire_txn: Bytes,
    leaders: Seq<Pubkey>,
    turns: Seq<LeaderTurn>,
    i: int,
)
    requires
        sender.took_turns(sig, wire_txn, leaders, turns),
        0 <= i < turns.len() - 1,
        turns[i].reached(),
        turns[i].addr() is Some,
        turns[i + 1].addr() == turns[i].addr(),
    ensures
        turns[i + 1].handed is None,
{
    lemma_turn(sender, sig, wire_txn, leaders, turns, i);
    lemma_turn(sender, sig, wire_txn, leaders, turns, i + 1);
    assert(turns.take(i + 1).drop_last() =~= turns.take(i));
    assert(turns.take(i + 1).last() == turns[i]);
}

/// A single leader's address is not asked for, and the leader is handed the transaction once.
pub proof fn law_a_single_leader_needs_no_address<L: LeaderTpuInfoService>(
    sender: YellowstoneTpuSender<L>,
    sig: Signature,
    wire_txn: Bytes,
    leaders: Seq<Pubkey>,
    turns: Seq<LeaderTurn>,
)
    requires
        sender.took_turns(sig, wire_txn, leaders, turns),
        leaders.len() == 1,
    ensures
        crate::yellowstone_grpc::sender::lookups(turns) == Seq::<AddrLookup>::empty(),
        crate::yellowstone_grpc::sender::handovers(turns).len() == 1,
        crate::yellowstone_grpc::sender::handovers(turns)[0].txn.carries(
            sig,
            leaders[0],
            wire_txn,
        ),
{
    lemma_turn(sender, sig, wire_txn, leaders, turns, 0);
    law_leaders_without_addresses_get_one_transaction_each(sender, sig, wire_txn, leaders, turns);
    assert(turns.last() == turns[0]);
    assert(turns.drop_last() =~= Seq::empty());
    assert(crate::yellowstone_grpc::sender::lookups(turns.drop_last()) =~= Seq::empty());
    assert(crate::yellowstone_grpc::sender::lookups(turns) =~= Seq::empty());
}

/// Of several leaders each is asked about once, in their order.
pub proof fn law_several_leaders_are_asked_about_once_each<L: LeaderTpuInfoService>(
    sender: YellowstoneTpuSender<L>,
    sig: Signature,
    wire_txn: Bytes,
    leaders: Seq<Pubkey>,
    turns: Seq<LeaderTurn>,
)
    requires
        sender.took_turns(sig, wire_txn, leaders, turns),
        leaders.len() > 1,
    ensures
        crate::yellowstone_grpc::sender::lookups(turns).len() == leaders.len(),
        forall|i: int|
            0 <= i < leaders.len() ==> #[trigger] crate::yellowstone_grpc::sender::lookups(turns)[i]
                == (AddrLookup { leader: leaders[i], addr: turns[i].addr() }),
{
    assert forall|i: int| 0 <= i < turns.len() implies {
        &&& (#[trigger] turns[i]).lookup is Some
        &&& turns[i].leader == leaders[i]
    } by {
        lemma_turn(sender, sig, wire_txn, leaders, turns, i);
    }
    lemma_one_lookup_each(turns);
}

/// Where every turn asks for an address, these are the questions of the turns.
proof fn lemma_one_lookup_each(turns: Seq<LeaderTurn>)
    requires
        forall|i: int| 0 <= i < turns.len() ==> (#[trigger] turns[i]).lookup is Some,
    ensures
        crate::yellowstone_grpc::sender::lookups(turns).len() == turns.len(),
        forall|i: int|
            0 <= i < turns.len() ==> #[trigger] crate::yellowstone_grpc::sender::lookups(turns)[i]
                == (AddrLookup { leader: turns[i].leader, addr: turns[i].addr() }),
    decreases turns.len(),
{
    if turns.len() > 0 {
        let rest = turns.drop_last();
        let last = turns.len() - 1;
        assert forall|i: int| 0 <= i < rest.len() implies (#[trigger] rest[i]).lookup is Some by {
            assert(rest[i] == turns[i]);
        }
        lemma_one_lookup_each(rest);
        assert(turns[last] == turns.last());
        assert(turns[last].lookup is Some);
        assert forall|i: int| 0 <= i < turns.len() implies
            #[trigger] crate::yellowstone_grpc::sender::lookups(turns)[i] == (AddrLookup {
            leader: turns[i].leader,
            addr: turns[i].addr(),
        }) by {
            if i < last {
                assert(rest[i] == turns[i]);
                assert(crate::yellowstone_grpc::sender::lookups(rest)[i] == (AddrLookup {
                    leader: rest[i].leader,
                    addr: rest[i].addr(),
                }));
            }
        }
    }
}

/// Every leader of the fanout window has one turn: whoever leads one of the slots that the
/// window looks at has a turn, and nobody has two.
pub proof fn law_every_leader_of_the_window_has_one_turn<L: LeaderTpuInfoService>(
    sender: YellowstoneTpuSender<L>,
    sig: Signature,
    wire_txn: Bytes,
    schedules: InnerManagedLeaderSchedule,
    slot: u64,
    turns: Seq<LeaderTurn>,
    k: int,
)
    requires
        sender.took_turns(
            sig,
            wire_txn,
            schedules.unique_leaders(
                slot as int,
                crate::rpc::schedule::fanout_lookups(slot, sender.send_fanout_slots),
            ),
            turns,
        ),
        0 <= k < crate::rpc::schedule::fanout_lookups(slot, sender.send_fanout_slots),
        schedules.leader_at(slot + k * LEADER_STRIDE) is Some,
    ensures
        exists|i: int|
            0 <= i < turns.len() && Some((#[trigger] turns[i]).leader) == schedules.leader_at(
                slot + k * LEADER_STRIDE,
            ),
        forall|i: int, j: int|
            0 <= i < j < turns.len() ==> (#[trigger] turns[i]).leader != (
            #[trigger] turns[j]).leader,
{
    let window = crate::rpc::schedule::fanout_lookups(slot, sender.send_fanout_slots);
    let leaders = schedules.unique_leaders(slot as int, window);
    let leader = schedules.leader_at(slot + k * LEADER_STRIDE)->0;
    crate::rpc::schedule_laws::law_fanout_leaders_are_the_unique_leaders(
        schedules,
        slot as int,
        window,
    );
    assert(leaders.contains(leader));
    let i = leaders.index_of(leader);
    lemma_turn(sender, sig, wire_txn, leaders, turns, i);
    assert(Some(turns[i].leader) == schedules.leader_at(slot + k * LEADER_STRIDE));
    assert forall|i: int, j: int| 0 <= i < j < turns.len() implies (#[trigger] turns[i]).leader != (
    #[trigger] turns[j]).leader by {
        lemma_turn(sender, sig, wire_txn, leaders, turns, i);
        lemma_turn(sender, sig, wire_txn, leaders, turns, j);
    }
}

} // verus!
