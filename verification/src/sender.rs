//! The handle that enqueues transactions into the QUIC driver.

use crate::config::TpuSenderConfig;
use crate::queue::enqueue;
pub use crate::queue::{DriverQueue, Handover, QueueRefusal, TpuSender};
use crate::txn::TpuSenderTxn;
use tokio::sync::mpsc;
use vstd::prelude::*;
use vstd::string::*;

verus! {

/// Why a transaction could not be enqueued.
#[derive(Debug, Clone, Copy, PartialEq, Eq, Structural)]
pub enum TpuSenderErrorKind {
    /// The queue of the driver is full.
    Full,
    /// The driver is gone.
    Closed,
}

impl TpuSenderErrorKind {
    /// The error in words.
    pub fn message(&self) -> (r: String)
        ensures
            r@ == match *self {
                TpuSenderErrorKind::Full => "driver queue full"@,
                TpuSenderErrorKind::Closed => "disconnected"@,
            },
    {
        match self {
            TpuSenderErrorKind::Full => "driver queue full".to_string(),
            TpuSenderErrorKind::Closed => "disconnected".to_string(),
        }
    }
}

/// Reports what the queue answers.
pub fn report(answer: Result<(), QueueRefusal>) -> (r: Result<(), TpuSenderErrorKind>)
    ensures
        r == crate::queue::reported(answer),
{
    match answer {
        Ok(()) => Ok(()),
        Err(QueueRefusal::Full(_)) => Err(TpuSenderErrorKind::Full),
        Err(QueueRefusal::Closed(_)) => Err(TpuSenderErrorKind::Closed),
    }
}

impl DriverQueue {
    /// Hands a transaction to the queue, without waiting.
    pub fn hand_over(&mut self, txn: TpuSenderTxn) -> (r: Result<(), TpuSenderErrorKind>)
        ensures
            final(self).channel() == old(self).channel(),
            final(self).handed() == old(self).handed().push(Handover { txn, answer: r }),
    {
        report(enqueue(self, txn))
    }
}

impl TpuSender {
    /// Sends a transaction to the TPU sender task, without waiting.
    pub fn try_send_txn(&mut self, txn: TpuSenderTxn) -> (r: Result<(), TpuSenderErrorKind>)
        ensures
            final(self).channel() == old(self).channel(),
            final(self).handed() == old(self).handed().push(Handover { txn, answer: r }),
    {
        self.driver.hand_over(txn)
    }
}

/// Starts the driver of a TPU sender: the task that takes transactions out of a queue and sends
/// them over QUIC. `CB` is the type of the callback for its responses.
pub trait TpuSenderDriverSpawner<CB> {
    /// Starts a driver with a queue of the given capacity, and returns the queue.
    fn spawn(
        &self,
        config: &TpuSenderConfig,
        callback: Option<CB>,
        driver_tx_channel_capacity: usize,
    ) -> mpsc::Sender<TpuSenderTxn>;
}

/// Base factory function to create the internal TPU sender handle: starts a driver and takes
/// hold of its queue.
pub fn create_base_tpu_client<CB, D: TpuSenderDriverSpawner<CB>>(
    spawner: &D,
    config: &TpuSenderConfig,
    callback: Option<CB>,
    txn_capacity: usize,
) -> (r: TpuSender)
    ensures
        call_ensures(D::spawn, (spawner, config, callback, txn_capacity), r.channel()),
        r.handed() == Seq::<Handover>::empty(),
{
    TpuSender::new(spawner.spawn(config, callback, txn_capacity))
}

/// A report is a success exactly where the queue took the transaction, and names the reason
/// for which it did not.
pub proof fn law_a_report_names_the_answer_of_the_queue(
    answer: Result<(), QueueRefusal>,
    result: Result<(), TpuSenderErrorKind>,
)
    requires
        call_ensures(report, (answer,), result),
    ensures
        result is Ok <==> answer is Ok,
        result matches Err(kind) ==> {
            &&& kind == TpuSenderErrorKind::Full <==> answer->Err_0 is Full
            &&& kind == TpuSenderErrorKind::Closed <==> answer->Err_0 is Closed
        },
{
}

/// A send hands the given transaction over, once, and reports what the queue made of it. It does
/// so through the sender and through its queue alike.
pub proof fn law_a_send_hands_over_one_transaction(
    txn: TpuSenderTxn,
    result: Result<(), TpuSenderErrorKind>,
)
    ensures
        forall|sender: &mut TpuSender| #[trigger]
            call_ensures(TpuSender::try_send_txn, (sender, txn), result) ==> {
                let handed = final(sender).driver.handed();
                &&& final(sender).driver.channel() == sender.driver.channel()
                &&& handed.len() == sender.driver.handed().len() + 1
                &&& sender.driver.handed().is_prefix_of(handed)
                &&& handed.last().txn == txn
                &&& handed.last().answer == result
            },
        forall|queue: &mut DriverQueue| #[trigger]
            call_ensures(DriverQueue::hand_over, (queue, txn), result) ==> {
                let handed = final(queue).handed();
                &&& final(queue).channel() == queue.channel()
                &&& handed.len() == queue.handed().len() + 1
                &&& queue.handed().is_prefix_of(handed)
                &&& handed.last().txn == txn
                &&& handed.last().answer == result
            },
{
}

/// What the queue took of two rows of transactions is what it took of the one, and then what it
/// took of the other. Of one transaction it took that one where it answered with success.
pub proof fn law_the_queue_takes_one_transaction_after_the_other(
    first: Seq<Handover>,
    second: Seq<Handover>,
    one: Handover,
)
    ensures
        crate::queue::taken(first + second) == crate::queue::taken(first) + crate::queue::taken(
            second,
        ),
        one.answer is Ok ==> crate::queue::taken(seq![one]) == seq![one.txn],
        one.answer is Err ==> crate::queue::taken(seq![one]).len() == 0,
    decreases second.len(),
{
    assert(seq![one].drop_last() =~= Seq::empty());
    assert(crate::queue::taken(seq![one].drop_last()) =~= Seq::empty());
    if second.len() == 0 {
        assert(first + second =~= first);
        assert(crate::queue::taken(second) =~= Seq::empty());
        assert(crate::queue::taken(first) + crate::queue::taken(second) =~= crate::queue::taken(
            first,
        ));
    } else {
        assert((first + second).drop_last() =~= first + second.drop_last());
        assert((first + second).last() == second.last());
        law_the_queue_takes_one_transaction_after_the_other(first, second.drop_last(), one);
        assert(crate::queue::taken(first + second) =~= crate::queue::taken(first)
            + crate::queue::taken(second));
    }
}

/// The base sender holds the queue of the driver that was started with the given configuration,
/// callback and capacity, and nothing was handed over through it yet.
pub proof fn law_a_base_sender_holds_the_queue_of_its_driver<CB, D: TpuSenderDriverSpawner<CB>>(
    spawner: &D,
    config: &TpuSenderConfig,
    callback: Option<CB>,
    txn_capacity: usize,
    sender: TpuSender,
)
    requires
        call_ensures(
            create_base_tpu_client::<CB, D>,
            (spawner, config, callback, txn_capacity),
            sender,
        ),
    ensures
        call_ensures(
            D::spawn,
            (spawner, config, callback, txn_capacity),
            sender.driver.channel(),
        ),
        sender.driver.handed().len() == 0,
{
}

} // verus!
