//! The queue of the QUIC driver.
//!
//! The channel of a [`DriverQueue`] is private to this module, so everything that is ever handed
//! over through one goes through [`enqueue`], which records it.

use crate::sender::TpuSenderErrorKind;
use crate::txn::TpuSenderTxn;
use tokio::sync::mpsc;
use vstd::prelude::*;

verus! {

#[verifier::external_type_specification]
#[verifier::external_body]
#[verifier::reject_recursive_types(T)]
pub struct ExSender<T>(mpsc::Sender<T>);

/// Clones a `tokio::sync::mpsc::Sender`.
///
/// Trusted: the clone is a handle on the same channel.
pub assume_specification<T>[ <mpsc::Sender<T> as Clone>::clone ](tx: &mpsc::Sender<T>) -> (r:
    mpsc::Sender<T>)
    ensures
        r == *tx,
;

/// Why the queue of the driver did not take a transaction, with that transaction.
pub enum QueueRefusal {
    Full(TpuSenderTxn),
    Closed(TpuSenderTxn),
}

impl QueueRefusal {
    /// The transaction that was not taken.
    pub open spec fn txn(self) -> TpuSenderTxn {
        match self {
            QueueRefusal::Full(txn) => txn,
            QueueRefusal::Closed(txn) => txn,
        }
    }
}

/// What a sender reports when the queue answers `answer`.
pub open spec fn reported(answer: Result<(), QueueRefusal>) -> Result<(), TpuSenderErrorKind> {
    match answer {
        Ok(()) => Ok(()),
        Err(QueueRefusal::Full(_)) => Err(TpuSenderErrorKind::Full),
        Err(QueueRefusal::Closed(_)) => Err(TpuSenderErrorKind::Closed),
    }
}

/// A transaction that was handed to the queue of the driver, and what the queue made of it.
pub struct Handover {
    pub txn: TpuSenderTxn,
    pub answer: Result<(), TpuSenderErrorKind>,
}

/// The transactions that the queue took, in order.
pub open spec fn taken(handed: Seq<Handover>) -> Seq<TpuSenderTxn>
    decreases handed.len(),
{
    if handed.len() == 0 {
        Seq::empty()
    } else {
        let before = taken(handed.drop_last());
        match handed.last().answer {
            Ok(()) => before.push(handed.last().txn),
            Err(_) => before,
        }
    }
}

/// A handle on the queue of the driver, with a record of every transaction that is handed over
/// through it, in order.
pub struct DriverQueue {
    channel: mpsc::Sender<TpuSenderTxn>,
    handed: Ghost<Seq<Handover>>,
}

impl DriverQueue {
    /// The queue of the driver.
    pub closed spec fn channel(&self) -> mpsc::Sender<TpuSenderTxn> {
        self.channel
    }

    /// What was handed over through this handle.
    pub closed spec fn handed(&self) -> Seq<Handover> {
        self.handed@
    }
}

/// Calls `tokio::sync::mpsc::Sender::try_send`, once.
///
/// Trusted: the one transaction is handed over, and no other, and a transaction that is not
/// taken is handed back. Whether it is taken depends on the receiver and on the other senders.
#[verifier::external_body]
pub(crate) fn enqueue(queue: &mut DriverQueue, txn: TpuSenderTxn) -> (r: Result<(), QueueRefusal>)
    ensures
        r matches Err(refusal) ==> refusal.txn() == txn,
        final(queue).channel() == old(queue).channel(),
        final(queue).handed() == old(queue).handed().push(Handover { txn, answer: reported(r) }),
{
    match queue.channel.try_send(txn) {
        Ok(()) => Ok(()),
        Err(mpsc::error::TrySendError::Full(txn)) => Err(QueueRefusal::Full(txn)),
        Err(mpsc::error::TrySendError::Closed(txn)) => Err(QueueRefusal::Closed(txn)),
    }
}

/// A TPU sender handle that enqueues transactions into the QUIC driver.
///
/// The handle is cheap to clone; each producer task has a clone of its own.
pub struct TpuSender {
    pub driver: DriverQueue,
}

impl TpuSender {
    /// The queue of the driver.
    pub open spec fn channel(&self) -> mpsc::Sender<TpuSenderTxn> {
        self.driver.channel()
    }

    /// What was handed over through this handle.
    pub open spec fn handed(&self) -> Seq<Handover> {
        self.driver.handed()
    }

    /// The handle on the given queue.
    pub fn new(txn_tx: mpsc::Sender<TpuSenderTxn>) -> (r: Self)
        ensures
            r.channel() == txn_tx,
            r.handed() == Seq::<Handover>::empty(),
    {
        TpuSender { driver: DriverQueue { channel: txn_tx, handed: Ghost(Seq::empty()) } }
    }
}

impl Clone for TpuSender {
    /// A handle on the same queue, with a record of its own.
    fn clone(&self) -> (r: Self)
        ensures
            r.channel() == self.channel(),
            r.handed() == Seq::<Handover>::empty(),
    {
        TpuSender::new(self.driver.channel.clone())
    }
}

} // verus!
