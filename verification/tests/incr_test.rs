use clipboard_rs::error::ClipboardError;
use clipboard_rs::incr::{IncrReceiver, IncrSender, ReceivePhase, SendAction, SendPhase};

fn payload(n: usize) -> Vec<u8> {
    (0..n).map(|i| (i * 31 + 7) as u8).collect()
}

fn run(data: &[u8], threshold: usize, limits: &[usize]) -> (Vec<u8>, usize) {
    let mut sender = IncrSender::new(data.to_vec());
    let mut receiver = IncrReceiver::new();
    let mut chunks = 0usize;
    match sender.begin(threshold, 0, 1000) {
        SendAction::Announce { total } => assert_eq!(total, data.len()),
        other => panic!("unexpected: {:?}", other),
    }
    assert_eq!(sender.phase(), SendPhase::Serving);
    let mut turn = 0usize;
    loop {
        let limit = limits[turn % limits.len()];
        turn += 1;
        match sender.on_property_deleted(limit, 1) {
            SendAction::WriteChunk(chunk) => {
                assert!(chunk.len() <= limit.max(1));
                chunks += 1;
                let last = chunk.is_empty();
                receiver.on_chunk(&chunk);
                if last {
                    break;
                }
                assert_eq!(sender.phase(), SendPhase::AwaitingPropertyDelete);
            }
            other => panic!("unexpected: {:?}", other),
        }
    }
    assert_eq!(sender.phase(), SendPhase::Done);
    assert_eq!(sender.offset(), data.len());
    assert_eq!(receiver.phase(), ReceivePhase::Complete);
    (receiver.finish().unwrap(), chunks)
}

#[test]
fn small_payload_goes_out_whole() {
    let mut sender = IncrSender::new(vec![1, 2, 3]);
    assert_eq!(sender.phase(), SendPhase::Idle);
    match sender.begin(3, 0, 1000) {
        SendAction::WriteAll(bytes) => assert_eq!(bytes, vec![1, 2, 3]),
        other => panic!("unexpected: {:?}", other),
    }
    assert_eq!(sender.phase(), SendPhase::Done);
    assert_eq!(sender.offset(), 3);
    assert!(matches!(sender.begin(3, 0, 1000), SendAction::Ignore));
    assert!(matches!(sender.on_property_deleted(1, 1), SendAction::Ignore));
    assert!(matches!(sender.on_tick(5000), SendAction::Ignore));
    assert_eq!(sender.phase(), SendPhase::Done);
}

#[test]
fn empty_payload_goes_out_whole() {
    let mut sender = IncrSender::new(Vec::new());
    match sender.begin(0, 0, 1000) {
        SendAction::WriteAll(bytes) => assert!(bytes.is_empty()),
        other => panic!("unexpected: {:?}", other),
    }
}

#[test]
fn large_payload_is_announced_then_chunked() {
    let data = payload(10);
    let mut sender = IncrSender::new(data.clone());
    match sender.begin(9, 0, 1000) {
        SendAction::Announce { total } => assert_eq!(total, 10),
        other => panic!("unexpected: {:?}", other),
    }
    assert_eq!(sender.offset(), 0);
    match sender.on_property_deleted(4, 1) {
        SendAction::WriteChunk(c) => assert_eq!(c, data[0..4].to_vec()),
        other => panic!("unexpected: {:?}", other),
    }
    assert_eq!(sender.offset(), 4);
    match sender.on_property_deleted(4, 1) {
        SendAction::WriteChunk(c) => assert_eq!(c, data[4..8].to_vec()),
        other => panic!("unexpected: {:?}", other),
    }
    match sender.on_property_deleted(4, 1) {
        SendAction::WriteChunk(c) => assert_eq!(c, data[8..10].to_vec()),
        other => panic!("unexpected: {:?}", other),
    }
    assert_eq!(sender.phase(), SendPhase::AwaitingPropertyDelete);
    match sender.on_property_deleted(4, 1) {
        SendAction::WriteChunk(c) => assert!(c.is_empty()),
        other => panic!("unexpected: {:?}", other),
    }
    assert_eq!(sender.phase(), SendPhase::Done);
    assert!(matches!(sender.on_property_deleted(4, 1), SendAction::Ignore));
}

#[test]
fn chunks_reassemble_wherever_the_boundaries_fall() {
    let data = payload(1000);
    for limits in [
        vec![1usize],
        vec![7],
        vec![999],
        vec![1000],
        vec![4096],
        vec![1, 2, 3, 500],
        vec![333, 1, 0, 17],
        vec![0],
    ] {
        let (back, _) = run(&data, 64, &limits);
        assert_eq!(back, data);
    }
    let (back, chunks) = run(&data, 64, &[100]);
    assert_eq!(back, data);
    assert_eq!(chunks, 11);
    let (back, chunks) = run(&data, 64, &[300]);
    assert_eq!(back, data);
    assert_eq!(chunks, 5);
}

#[test]
fn a_limit_of_zero_counts_as_one() {
    let mut sender = IncrSender::new(vec![5, 6]);
    sender.begin(0, 0, 1000);
    match sender.on_property_deleted(0, 1) {
        SendAction::WriteChunk(c) => assert_eq!(c, vec![5]),
        other => panic!("unexpected: {:?}", other),
    }
}

#[test]
fn sender_timeout_abandons_the_transfer() {
    let mut sender = IncrSender::new(payload(20));
    assert!(matches!(sender.on_tick(u64::MAX), SendAction::Ignore));
    assert_eq!(sender.phase(), SendPhase::Idle);
    assert_eq!(sender.time_left(0), 0);
    sender.begin(5, 100, 50);
    assert_eq!(sender.time_left(100), 50);
    assert_eq!(sender.time_left(149), 1);
    assert_eq!(sender.time_left(150), 0);
    match sender.on_property_deleted(8, 149) {
        SendAction::WriteChunk(c) => assert_eq!(c.len(), 8),
        other => panic!("unexpected: {:?}", other),
    }
    assert_eq!(sender.time_left(149), 50);
    assert!(matches!(sender.on_tick(198), SendAction::Ignore));
    assert_eq!(sender.phase(), SendPhase::AwaitingPropertyDelete);
    assert!(matches!(sender.on_tick(199), SendAction::Abandon));
    assert_eq!(sender.phase(), SendPhase::TimedOut);
    assert_eq!(sender.offset(), 8);
    assert!(matches!(sender.on_property_deleted(8, 200), SendAction::Ignore));
    assert!(matches!(sender.on_tick(300), SendAction::Ignore));
    let mut announced = IncrSender::new(payload(20));
    announced.begin(5, 0, 10);
    assert!(matches!(announced.on_tick(9), SendAction::Ignore));
    assert!(matches!(announced.on_tick(10), SendAction::Abandon));
    assert_eq!(announced.phase(), SendPhase::TimedOut);
}

#[test]
fn a_late_deletion_ends_the_transfer() {
    let mut sender = IncrSender::new(payload(20));
    sender.begin(5, 0, 10);
    assert!(matches!(sender.on_property_deleted(8, 10), SendAction::Abandon));
    assert_eq!(sender.phase(), SendPhase::TimedOut);
    assert_eq!(sender.offset(), 0);
    let mut slow = IncrSender::new(payload(20));
    slow.begin(5, u64::MAX - 1, 5);
    assert_eq!(slow.time_left(u64::MAX - 1), 1);
    assert!(matches!(slow.on_property_deleted(8, u64::MAX), SendAction::Abandon));
}

#[test]
fn receiver_collects_in_arrival_order() {
    let mut receiver = IncrReceiver::new();
    assert_eq!(receiver.phase(), ReceivePhase::Collecting);
    receiver.on_chunk(&[1, 2]);
    receiver.on_chunk(&[3]);
    assert_eq!(receiver.phase(), ReceivePhase::Collecting);
    receiver.on_chunk(&[]);
    assert_eq!(receiver.phase(), ReceivePhase::Complete);
    receiver.on_chunk(&[9, 9]);
    receiver.on_timeout();
    assert_eq!(receiver.phase(), ReceivePhase::Complete);
    assert_eq!(receiver.finish().unwrap(), vec![1, 2, 3]);
}

#[test]
fn receiver_timeout_gives_timeout() {
    let mut receiver = IncrReceiver::new();
    receiver.on_chunk(&[1, 2]);
    receiver.on_timeout();
    assert_eq!(receiver.phase(), ReceivePhase::TimedOut);
    receiver.on_chunk(&[]);
    assert_eq!(receiver.phase(), ReceivePhase::TimedOut);
    assert!(matches!(receiver.finish(), Err(ClipboardError::Timeout)));
    let unfinished = IncrReceiver::new();
    assert!(matches!(unfinished.finish(), Err(ClipboardError::Timeout)));
}
