use tcp_tunnel::stream::{ChannelPoll, ReadOutcome, ReceiverStream, SenderStream, WriteOutcome};

#[test]
fn accepted_write_counts_every_byte() {
    let (tx, mut rx) = tokio::sync::mpsc::channel::<Vec<u8>>(2);
    let mut s = SenderStream::new(tx);
    assert!(!s.has_backlog());
    assert_eq!(s.write_chunk(b"abc"), WriteOutcome::Written(3));
    assert!(!s.has_backlog());
    assert_eq!(rx.try_recv().unwrap(), b"abc".to_vec());
}

#[test]
fn refused_writes_pile_up_in_order() {
    let (tx, mut rx) = tokio::sync::mpsc::channel::<Vec<u8>>(1);
    let mut s = SenderStream::new(tx);
    assert_eq!(s.write_chunk(b"one"), WriteOutcome::Written(3));
    assert_eq!(s.write_chunk(b"two"), WriteOutcome::Pending);
    assert!(s.has_backlog());
    assert_eq!(s.failed(), &b"two".to_vec());
    assert_eq!(s.write_chunk(b"three"), WriteOutcome::Pending);
    assert_eq!(s.failed(), &b"twothree".to_vec());
    assert_eq!(rx.try_recv().unwrap(), b"one".to_vec());
    assert!(rx.try_recv().is_err());
    assert_eq!(s.write_chunk(b"four"), WriteOutcome::Written(4));
    assert_eq!(s.failed(), &b"twothree".to_vec());
    assert_eq!(rx.try_recv().unwrap(), b"four".to_vec());
}

#[test]
fn accepted_writes_are_read_in_order() {
    let (tx, mut rx) = tokio::sync::mpsc::channel::<Vec<u8>>(4);
    let mut s = SenderStream::new(tx);
    assert_eq!(s.write_chunk(b"hi"), WriteOutcome::Written(2));
    assert_eq!(s.write_chunk(b""), WriteOutcome::Written(0));
    assert_eq!(s.write_chunk(b"ab"), WriteOutcome::Written(2));
    assert_eq!(rx.try_recv().unwrap(), b"hi".to_vec());
    assert_eq!(rx.try_recv().unwrap(), Vec::<u8>::new());
    assert_eq!(rx.try_recv().unwrap(), b"ab".to_vec());
    assert!(rx.try_recv().is_err());
}

#[test]
fn settled_write_follows_the_channel_answer() {
    let (tx, _rx) = tokio::sync::mpsc::channel::<Vec<u8>>(1);
    let mut s = SenderStream::new(tx);
    assert_eq!(s.settle_write(true, b"abc"), WriteOutcome::Written(3));
    assert!(!s.has_backlog());
    assert_eq!(s.settle_write(false, b"de"), WriteOutcome::Pending);
    assert_eq!(s.failed(), &b"de".to_vec());
    assert_eq!(s.settle_write(false, b"f"), WriteOutcome::Pending);
    assert_eq!(s.failed(), &b"def".to_vec());
    assert_eq!(s.settle_write(true, b"gh"), WriteOutcome::Written(2));
    assert_eq!(s.failed(), &b"def".to_vec());
}

#[test]
fn write_to_closed_channel_is_pending() {
    let (tx, rx) = tokio::sync::mpsc::channel::<Vec<u8>>(4);
    drop(rx);
    let mut s = SenderStream::new(tx);
    assert_eq!(s.write_chunk(b"x"), WriteOutcome::Pending);
    assert_eq!(s.failed(), &b"x".to_vec());
}

#[test]
fn delivered_chunk_is_handed_over_whole() {
    match ReceiverStream::deliver(ChannelPoll::Message(b"hello".to_vec()), 5) {
        ReadOutcome::Filled(d) => assert_eq!(d, b"hello".to_vec()),
        other => panic!("unexpected {:?}", other),
    }
    assert!(matches!(ReceiverStream::deliver(ChannelPoll::Closed, 0), ReadOutcome::ChannelClosed));
    assert!(matches!(ReceiverStream::deliver(ChannelPoll::Pending, 8), ReadOutcome::Pending));
}

#[test]
fn receiver_stream_keeps_its_channel() {
    let (tx, rx) = tokio::sync::mpsc::channel::<Vec<u8>>(1);
    let mut r = ReceiverStream::new(rx);
    tx.try_send(b"z".to_vec()).unwrap();
    assert_eq!(r.receiver.try_recv().unwrap(), b"z".to_vec());
}
