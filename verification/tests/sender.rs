use tokio::sync::mpsc;
use tpu_client::pubkey::Pubkey;
use tpu_client::config::TpuSenderConfig;
use tpu_client::sender::{
    create_base_tpu_client, report, QueueRefusal, TpuSender, TpuSenderDriverSpawner,
    TpuSenderErrorKind,
};
use tpu_client::txn::{Signature, TpuSenderTxn};

fn test_sender_with_capacity(capacity: usize) -> (TpuSender, mpsc::Receiver<TpuSenderTxn>) {
    let (txn_tx, txn_rx) = mpsc::channel(capacity);
    let sender = TpuSender::new(txn_tx);
    (sender, txn_rx)
}

fn test_txn() -> TpuSenderTxn {
    TpuSenderTxn::from_bytes(
        Signature::default(),
        Pubkey::new_from_array(solana_pubkey::Pubkey::new_unique().to_bytes()),
        bytes::Bytes::from_static(b"txn"),
    )
}

#[test]
fn send_txn_returns_full_without_waiting_when_driver_queue_is_full() {
    let (mut sender, _rx) = test_sender_with_capacity(1);

    sender.try_send_txn(test_txn()).expect("first send");
    let err = sender
        .try_send_txn(test_txn())
        .expect_err("full channel should fail fast");

    assert_eq!(err, TpuSenderErrorKind::Full);
}

#[test]
fn send_txn_reports_closed_when_driver_queue_is_closed() {
    let (mut sender, rx) = test_sender_with_capacity(1);
    drop(rx);

    let err = sender
        .try_send_txn(test_txn())
        .expect_err("closed channel should fail");

    assert_eq!(err, TpuSenderErrorKind::Closed);
}

#[test]
fn an_enqueued_transaction_arrives_unchanged() {
    let (sender, mut rx) = test_sender_with_capacity(1);
    let txn = test_txn();
    sender.clone().try_send_txn(txn.clone()).expect("send");
    let received = rx.try_recv().expect("queued");
    assert_eq!(received.tx_sig, txn.tx_sig);
    assert_eq!(received.remote_peer, txn.remote_peer);
    assert_eq!(&received.wire[..], b"txn");
}

#[test]
fn refusals_are_reported_by_kind() {
    assert_eq!(report(Ok(())), Ok(()));
    assert_eq!(
        report(Err(QueueRefusal::Full(test_txn()))),
        Err(TpuSenderErrorKind::Full)
    );
    assert_eq!(
        report(Err(QueueRefusal::Closed(test_txn()))),
        Err(TpuSenderErrorKind::Closed)
    );
    assert_eq!(TpuSenderErrorKind::Full.message(), "driver queue full");
    assert_eq!(TpuSenderErrorKind::Closed.message(), "disconnected");
}

struct KeepingSpawner {
    receiver: std::sync::Mutex<Option<mpsc::Receiver<TpuSenderTxn>>>,
}

impl TpuSenderDriverSpawner<()> for KeepingSpawner {
    fn spawn(
        &self,
        _config: &TpuSenderConfig,
        _callback: Option<()>,
        driver_tx_channel_capacity: usize,
    ) -> mpsc::Sender<TpuSenderTxn> {
        let (tx, rx) = mpsc::channel(driver_tx_channel_capacity);
        *self.receiver.lock().unwrap() = Some(rx);
        tx
    }
}

#[test]
fn the_queue_takes_as_many_transactions_as_its_capacity() {
    let spawner = KeepingSpawner {
        receiver: std::sync::Mutex::new(None),
    };
    let mut sender = create_base_tpu_client(&spawner, &TpuSenderConfig::default(), None, 3);
    let mut clone = sender.clone();

    assert_eq!(sender.try_send_txn(test_txn()), Ok(()));
    assert_eq!(clone.try_send_txn(test_txn()), Ok(()));
    assert_eq!(sender.try_send_txn(test_txn()), Ok(()));
    assert_eq!(
        clone.try_send_txn(test_txn()),
        Err(TpuSenderErrorKind::Full)
    );

    let mut receiver = spawner.receiver.lock().unwrap().take().unwrap();
    let mut received = 0;
    while receiver.try_recv().is_ok() {
        received += 1;
    }
    assert_eq!(received, 3);
}
