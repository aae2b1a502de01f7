use std::collections::HashMap;
use std::sync::atomic::{AtomicUsize, Ordering};
use std::sync::{Arc, Mutex};
use tokio::sync::mpsc;
use tpu_client::config::{TpuSenderConfig, MAX_SEND_FANOUT_SLOTS};
use tpu_client::pubkey::Pubkey;
use tpu_client::rpc::schedule::{
    CompactSortedSchedule, ManagedLeaderSchedule, ScheduleWriter, DEFAULT_SLOTS_PER_EPOCH,
};
use tpu_client::sender::{TpuSender, TpuSenderDriverSpawner, TpuSenderErrorKind};
use tpu_client::slot::{AtomicSlotTracker, SlotWriter};
use tpu_client::tpu_info::{get_quic_dest_addr, LeaderTpuInfoService, SocketAddr, TpuPortKind};
use tpu_client::txn::{Signature, TpuSenderTxn};
use tpu_client::yellowstone_grpc::sender::{
    create_yellowstone_tpu_sender, create_yellowstone_tpu_sender_with_callback,
    dependency_task_names, finished_task_name, FanoutProgress, Nothing, SendErrorKind,
    SenderServices, YellowstoneTpuSender, YellowstoneTpuSenderConfig,
};
use tpu_client::yellowstone_grpc::slot_tracker::mark_tracker_unavailable;

struct CountingTpuInfo {
    lookup_count: AtomicUsize,
    addrs: HashMap<Pubkey, SocketAddr>,
}

impl CountingTpuInfo {
    fn new(addrs: HashMap<Pubkey, SocketAddr>) -> Self {
        Self {
            lookup_count: AtomicUsize::new(0),
            addrs,
        }
    }

    fn lookup_count(&self) -> usize {
        self.lookup_count.load(Ordering::Relaxed)
    }
}

impl LeaderTpuInfoService for CountingTpuInfo {
    fn get_quic_tpu_socket_addr(&self, leader_pubkey: &Pubkey) -> Option<SocketAddr> {
        self.lookup_count.fetch_add(1, Ordering::Relaxed);
        self.addrs.get(leader_pubkey).copied()
    }

    fn get_quic_tpu_fwd_socket_addr(&self, leader_pubkey: &Pubkey) -> Option<SocketAddr> {
        self.lookup_count.fetch_add(1, Ordering::Relaxed);
        self.addrs.get(leader_pubkey).copied()
    }
}

fn new_unique() -> Pubkey {
    Pubkey::new_from_array(solana_pubkey::Pubkey::new_unique().to_bytes())
}

fn localhost(port: u16) -> SocketAddr {
    SocketAddr::V4 {
        ip: 0x7f00_0001,
        port,
    }
}

fn test_schedule(leaders: Vec<Pubkey>) -> ManagedLeaderSchedule {
    ManagedLeaderSchedule::new(
        CompactSortedSchedule {
            first_slot: 0,
            schedule: leaders.clone(),
        },
        CompactSortedSchedule {
            first_slot: DEFAULT_SLOTS_PER_EPOCH,
            schedule: leaders,
        },
    )
}

type TestSender = YellowstoneTpuSender<CountingTpuInfo>;

fn test_sender(
    slot: u64,
    leaders: Vec<Pubkey>,
    tpu_info: Arc<CountingTpuInfo>,
) -> (TestSender, mpsc::Receiver<TpuSenderTxn>) {
    test_sender_with_capacity_and_config(slot, leaders, tpu_info, 8, TpuSenderConfig::default())
}

fn test_sender_with_capacity(
    slot: u64,
    leaders: Vec<Pubkey>,
    tpu_info: Arc<CountingTpuInfo>,
    capacity: usize,
) -> (TestSender, mpsc::Receiver<TpuSenderTxn>) {
    test_sender_with_capacity_and_config(
        slot,
        leaders,
        tpu_info,
        capacity,
        TpuSenderConfig::default(),
    )
}

fn test_sender_with_capacity_and_config(
    slot: u64,
    leaders: Vec<Pubkey>,
    tpu_info: Arc<CountingTpuInfo>,
    capacity: usize,
    config: TpuSenderConfig,
) -> (TestSender, mpsc::Receiver<TpuSenderTxn>) {
    let (txn_tx, txn_rx) = mpsc::channel(capacity);
    let sender = YellowstoneTpuSender::new(
        TpuSender::new(txn_tx),
        Arc::new(AtomicSlotTracker::new(slot)),
        test_schedule(leaders),
        tpu_info,
        &config,
    );
    (sender, txn_rx)
}

fn one_slot() -> TpuSenderConfig {
    TpuSenderConfig {
        send_fanout_slots: 1,
        ..TpuSenderConfig::default()
    }
}

#[test]
fn single_leader_send_skips_tpu_addr_lookup() {
    let current_leader = new_unique();
    let next_leader = new_unique();
    let tpu_info = Arc::new(CountingTpuInfo::new(HashMap::new()));
    let (mut sender, mut txn_rx) = test_sender_with_capacity_and_config(
        1,
        vec![current_leader, next_leader],
        Arc::clone(&tpu_info),
        8,
        one_slot(),
    );

    sender
        .send_txn_fanout(
            Signature::default(),
            bytes::Bytes::from_owner(vec![1_u8, 2, 3]),
        )
        .expect("send txn");

    let txn = txn_rx.try_recv().expect("one queued transaction");
    assert_eq!(txn.remote_peer, current_leader);
    assert!(txn_rx.try_recv().is_err());
    assert_eq!(tpu_info.lookup_count(), 0);
}

struct RecordingSpawner<CB> {
    capacity: Mutex<Option<usize>>,
    callback: Mutex<Option<CB>>,
    receiver: Mutex<Option<mpsc::Receiver<TpuSenderTxn>>>,
}

impl<CB> RecordingSpawner<CB> {
    fn new() -> Self {
        Self {
            capacity: Mutex::new(None),
            callback: Mutex::new(None),
            receiver: Mutex::new(None),
        }
    }
}

impl<CB> TpuSenderDriverSpawner<CB> for RecordingSpawner<CB> {
    fn spawn(
        &self,
        _config: &TpuSenderConfig,
        callback: Option<CB>,
        driver_tx_channel_capacity: usize,
    ) -> mpsc::Sender<TpuSenderTxn> {
        let (tx, rx) = mpsc::channel(driver_tx_channel_capacity);
        *self.capacity.lock().unwrap() = Some(driver_tx_channel_capacity);
        *self.callback.lock().unwrap() = callback;
        *self.receiver.lock().unwrap() = Some(rx);
        tx
    }
}

fn test_services(leader: Pubkey) -> SenderServices<CountingTpuInfo> {
    SenderServices {
        atomic_slot_tracker: Arc::new(AtomicSlotTracker::new(0)),
        leader_schedule: test_schedule(vec![leader]),
        leader_tpu_info: Arc::new(CountingTpuInfo::new(HashMap::new())),
    }
}

#[test]
fn exposes_sender_factory_with_response_callback() {
    let config: YellowstoneTpuSenderConfig<(), ()> = Default::default();
    let spawner: RecordingSpawner<&'static str> = RecordingSpawner::new();
    let leader = new_unique();

    let mut sender = create_yellowstone_tpu_sender_with_callback(
        &config,
        &spawner,
        test_services(leader),
        "callback",
    );

    assert_eq!(*spawner.callback.lock().unwrap(), Some("callback"));
    assert_eq!(*spawner.capacity.lock().unwrap(), Some(100_000));
    assert_eq!(sender.send_fanout_slots, 12);
    sender
        .try_send_txn(Signature::default(), vec![1])
        .expect("send txn");
    let mut receiver = spawner.receiver.lock().unwrap().take().unwrap();
    assert_eq!(receiver.try_recv().unwrap().remote_peer, leader);
}

#[test]
fn sender_factory_without_callback_installs_none() {
    let config: YellowstoneTpuSenderConfig<(), ()> = YellowstoneTpuSenderConfig {
        tpu: TpuSenderConfig {
            tpu_port: TpuPortKind::Forwards,
            send_fanout_slots: 1_000,
        },
        channel_capacity: 3,
        ..Default::default()
    };
    let spawner: RecordingSpawner<Nothing> = RecordingSpawner::new();

    let sender = create_yellowstone_tpu_sender(&config, &spawner, test_services(new_unique()));

    assert!(spawner.callback.lock().unwrap().is_none());
    assert_eq!(*spawner.capacity.lock().unwrap(), Some(3));
    assert_eq!(sender.send_fanout_slots, MAX_SEND_FANOUT_SLOTS);
    assert_eq!(sender.leader_tpu_info.port_kind(), TpuPortKind::Forwards);
}

#[test]
fn single_leader_try_send_txn_uses_sync_hot_path() {
    let current_leader = new_unique();
    let next_leader = new_unique();
    let tpu_info = Arc::new(CountingTpuInfo::new(HashMap::new()));
    let (mut sender, mut txn_rx) = test_sender_with_capacity_and_config(
        1,
        vec![current_leader, next_leader],
        Arc::clone(&tpu_info),
        8,
        one_slot(),
    );

    sender
        .try_send_txn(Signature::default(), vec![1_u8, 2, 3])
        .expect("send txn");

    let txn = txn_rx.try_recv().expect("one queued transaction");
    assert_eq!(txn.remote_peer, current_leader);
    assert_eq!(&txn.wire[..], &[1, 2, 3]);
    assert!(txn_rx.try_recv().is_err());
    assert_eq!(tpu_info.lookup_count(), 0);
}

#[test]
fn boundary_fanout_coalesces_duplicate_tpu_addr() {
    let current_leader = new_unique();
    let next_leader = new_unique();
    let shared_addr = localhost(9000);
    let tpu_info = Arc::new(CountingTpuInfo::new(HashMap::from([
        (current_leader, shared_addr),
        (next_leader, shared_addr),
    ])));
    let (mut sender, mut txn_rx) =
        test_sender(2, vec![current_leader, next_leader], Arc::clone(&tpu_info));

    sender
        .try_send_txn(Signature::default(), vec![1_u8, 2, 3])
        .expect("send txn");

    let txn = txn_rx.try_recv().expect("one queued transaction");
    assert_eq!(txn.remote_peer, current_leader);
    assert!(txn_rx.try_recv().is_err());
    assert_eq!(tpu_info.lookup_count(), 2);
}

#[test]
fn boundary_fanout_succeeds_when_at_least_one_leader_is_enqueued() {
    let current_leader = new_unique();
    let next_leader = new_unique();
    let current_addr = localhost(9000);
    let next_addr = localhost(9001);
    let tpu_info = Arc::new(CountingTpuInfo::new(HashMap::from([
        (current_leader, current_addr),
        (next_leader, next_addr),
    ])));
    let (mut sender, mut txn_rx) =
        test_sender_with_capacity(2, vec![current_leader, next_leader], tpu_info, 1);

    sender
        .try_send_txn(Signature::default(), vec![1_u8, 2, 3])
        .expect("current leader enqueue should make fanout usable");

    let txn = txn_rx.try_recv().expect("current leader transaction");
    assert_eq!(txn.remote_peer, current_leader);
    assert!(txn_rx.try_recv().is_err());
}

#[test]
fn default_send_fanout_targets_current_and_upcoming_leaders() {
    let current_leader = new_unique();
    let next_leader = new_unique();
    let third_leader = new_unique();
    let fourth_leader = new_unique();
    let tpu_info = Arc::new(CountingTpuInfo::new(HashMap::new()));
    let (mut sender, mut txn_rx) = test_sender(
        1,
        vec![current_leader, next_leader, third_leader, fourth_leader],
        tpu_info,
    );

    sender
        .try_send_txn(Signature::default(), vec![1_u8, 2, 3])
        .expect("send txn");

    let queued = [
        txn_rx.try_recv().expect("current leader transaction"),
        txn_rx.try_recv().expect("next leader transaction"),
        txn_rx.try_recv().expect("third leader transaction"),
    ];
    assert_eq!(
        queued.map(|txn| txn.remote_peer),
        [current_leader, next_leader, third_leader,]
    );
    assert!(txn_rx.try_recv().is_err());
}

#[test]
fn a_full_queue_gives_the_transaction_back() {
    let tpu_info = Arc::new(CountingTpuInfo::new(HashMap::new()));
    let (mut sender, mut txn_rx) = test_sender_with_capacity(0, vec![new_unique()], tpu_info, 1);
    sender
        .clone()
        .try_send_txn(Signature::default(), vec![1])
        .expect("first");

    let error = sender
        .try_send_txn(Signature::default(), vec![4, 5])
        .expect_err("full");
    assert_eq!(error.kind, SendErrorKind::Full);
    assert_eq!(&error.txn[..], &[4, 5]);
    assert_eq!(error.message(), "tpu sender queue full for transaction");

    txn_rx.close();
    let error = sender
        .try_send_txn(Signature::default(), vec![6])
        .expect_err("closed");
    assert_eq!(error.kind, SendErrorKind::Closed);
    assert_eq!(&error.txn[..], &[6]);
}

#[test]
fn sending_needs_a_slot_and_leaders() {
    let tpu_info = Arc::new(CountingTpuInfo::new(HashMap::new()));
    let (mut sender, _txn_rx) = test_sender(40, vec![new_unique()], Arc::clone(&tpu_info));
    let mut writer = SlotWriter::start(40);
    sender.atomic_slot_tracker = writer.reader();
    let error = sender
        .try_send_txn(Signature::default(), vec![1])
        .expect_err("no leader");
    assert_eq!(error.kind, SendErrorKind::UnknownLeader);

    mark_tracker_unavailable(&mut writer);
    let error = sender
        .try_send_txn(Signature::default(), vec![1])
        .expect_err("no slot");
    assert_eq!(error.kind, SendErrorKind::SlotTrackerDisconnected);
    assert_eq!(&error.txn[..], &[1]);
}

#[test]
fn errors_have_words() {
    let words = [
        (SendErrorKind::Closed, "tpu sender disconnected"),
        (SendErrorKind::Full, "tpu sender queue full"),
        (
            SendErrorKind::SlotTrackerDisconnected,
            "slot tracker disconnected",
        ),
        (
            SendErrorKind::ManagedLeaderScheduleDisconnected,
            "managed leader schedule disconnected",
        ),
        (SendErrorKind::UnknownLeader, "unknown leader"),
    ];
    for (kind, expected) in words {
        assert_eq!(kind.message(), expected);
    }
}

#[test]
fn only_the_last_address_is_coalesced() {
    let leaders: Vec<Pubkey> = (0..3).map(|_| new_unique()).collect();
    let tpu_info = Arc::new(CountingTpuInfo::new(HashMap::from([
        (leaders[0], localhost(9000)),
        (leaders[1], localhost(9001)),
        (leaders[2], localhost(9000)),
    ])));
    let (mut sender, mut txn_rx) = test_sender(0, leaders.clone(), tpu_info);
    sender
        .try_send_txn(Signature::default(), vec![1])
        .expect("send txn");
    for leader in leaders {
        assert_eq!(txn_rx.try_recv().expect("queued").remote_peer, leader);
    }
}

#[test]
fn fanout_progress_keeps_the_first_error() {
    let mut progress = FanoutProgress::new();
    assert_eq!(progress.finish(), Err(SendErrorKind::UnknownLeader));
    progress.record(Some(localhost(1)), Some(Err(TpuSenderErrorKind::Full)));
    progress.record(Some(localhost(2)), Some(Err(TpuSenderErrorKind::Closed)));
    assert_eq!(progress.finish(), Err(SendErrorKind::Full));
    assert!(!progress.is_coalesced(Some(localhost(1))));
    progress.record(Some(localhost(1)), Some(Ok(())));
    assert!(progress.is_coalesced(Some(localhost(1))));
    assert!(!progress.is_coalesced(Some(localhost(2))));
    assert!(!progress.is_coalesced(None));
    progress.record(None, Some(Ok(())));
    assert!(progress.is_coalesced(Some(localhost(1))));
    assert_eq!(progress.finish(), Ok(()));
}

struct PortsByKind;

impl LeaderTpuInfoService for PortsByKind {
    fn get_quic_tpu_socket_addr(&self, _leader_pubkey: &Pubkey) -> Option<SocketAddr> {
        Some(localhost(1))
    }

    fn get_quic_tpu_fwd_socket_addr(&self, _leader_pubkey: &Pubkey) -> Option<SocketAddr> {
        Some(localhost(2))
    }
}

#[test]
fn the_port_kind_picks_the_address() {
    let leader = new_unique();
    assert_eq!(
        get_quic_dest_addr(&PortsByKind, &leader, TpuPortKind::Normal),
        Some(localhost(1))
    );
    assert_eq!(
        get_quic_dest_addr(&PortsByKind, &leader, TpuPortKind::Forwards),
        Some(localhost(2))
    );
}

#[test]
fn dependency_tasks_have_names() {
    let names = dependency_task_names();
    assert_eq!(
        names,
        vec![
            "tpu-info-service",
            "managed-leader-schedule",
            "stake-info-service",
            "slot-tracker"
        ]
    );
    assert_eq!(finished_task_name(&names, 3), "slot-tracker");
    assert_eq!(finished_task_name(&names, 4), "unknown");
}

#[test]
fn clones_share_the_queue_and_the_slot() {
    let leader = new_unique();
    let tpu_info = Arc::new(CountingTpuInfo::new(HashMap::new()));
    let (mut sender, mut rx) = test_sender(0, vec![leader], tpu_info);
    let mut writer = SlotWriter::start(0);
    sender.atomic_slot_tracker = writer.reader();
    let mut clone = sender.clone();

    clone
        .try_send_txn(Signature::default(), vec![7, 8])
        .expect("send");
    let txn = rx.try_recv().expect("transaction");
    assert_eq!(txn.remote_peer, leader);
    assert_eq!(&txn.wire[..], &[7, 8]);

    mark_tracker_unavailable(&mut writer);
    let error = clone
        .try_send_txn(Signature::default(), vec![9])
        .expect_err("closed");
    assert_eq!(error.kind, SendErrorKind::SlotTrackerDisconnected);
    assert_eq!(&error.txn[..], &[9]);
}

#[test]
fn a_poisoned_schedule_stops_sending() {
    let tpu_info = Arc::new(CountingTpuInfo::new(HashMap::new()));
    let (mut sender, mut txn_rx) = test_sender(0, vec![new_unique()], tpu_info);
    let mut writer = ScheduleWriter::start(
        CompactSortedSchedule {
            first_slot: 0,
            schedule: vec![new_unique()],
        },
        CompactSortedSchedule {
            first_slot: DEFAULT_SLOTS_PER_EPOCH,
            schedule: vec![],
        },
    );
    sender.leader_schedule = writer.reader();
    assert!(writer.mark_failed());

    let error = sender
        .try_send_txn(Signature::default(), vec![3])
        .expect_err("poisoned");
    assert_eq!(error.kind, SendErrorKind::ManagedLeaderScheduleDisconnected);
    assert_eq!(&error.txn[..], &[3]);
    assert!(txn_rx.try_recv().is_err());
}

#[test]
fn a_leader_without_an_address_does_not_change_the_last_one() {
    let leaders: Vec<Pubkey> = (0..3).map(|_| new_unique()).collect();
    let tpu_info = Arc::new(CountingTpuInfo::new(HashMap::from([
        (leaders[0], localhost(9000)),
        (leaders[2], localhost(9000)),
    ])));
    let (mut sender, mut txn_rx) = test_sender(0, leaders.clone(), Arc::clone(&tpu_info));
    sender
        .try_send_txn(Signature::default(), vec![1])
        .expect("send txn");
    assert_eq!(txn_rx.try_recv().expect("queued").remote_peer, leaders[0]);
    assert_eq!(txn_rx.try_recv().expect("queued").remote_peer, leaders[1]);
    assert!(txn_rx.try_recv().is_err());
    assert_eq!(tpu_info.lookup_count(), 3);
}
