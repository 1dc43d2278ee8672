use channel_bridge::channel::{
    nil_receiver, nil_sender, FifoChannel, Mapper, RecvPoll, Receiver, SendPoll, Sender, Threshold,
};

#[test]
fn nil_sender_always_succeeds() {
    let mut s = nil_sender::<u32, ()>();
    for i in 0..10u32 {
        assert!(matches!(s.send(i), SendPoll::Sent));
    }
}

#[test]
fn nil_receiver_never_resolves() {
    let mut r = nil_receiver::<u32, ()>();
    for _ in 0..100 {
        assert!(matches!(r.recv(), RecvPoll::Pending));
    }
}

#[test]
fn fifo_delivers_in_arrival_order() {
    let mut c: FifoChannel<u32> = FifoChannel::new(4);
    assert!(matches!(c.send(1), SendPoll::Sent));
    assert!(matches!(c.send(2), SendPoll::Sent));
    assert!(matches!(c.send(3), SendPoll::Sent));
    assert!(matches!(c.recv(), RecvPoll::Received(1)));
    assert!(matches!(c.recv(), RecvPoll::Received(2)));
    assert!(matches!(c.recv(), RecvPoll::Received(3)));
    assert!(matches!(c.recv(), RecvPoll::Pending));
}

#[test]
fn fifo_full_send_is_pending_with_item_back() {
    let mut c: FifoChannel<u32> = FifoChannel::new(2);
    assert!(matches!(c.send(10), SendPoll::Sent));
    assert!(matches!(c.send(11), SendPoll::Sent));
    match c.send(12) {
        SendPoll::Pending(v) => assert_eq!(v, 12),
        _ => panic!("a send on a full channel must hand the item back"),
    }
    assert!(matches!(c.recv(), RecvPoll::Received(10)));
    assert!(matches!(c.send(12), SendPoll::Sent));
}

#[test]
fn mapper_send_filters_silently() {
    // limit 10: values above 10 are filtered out
    let inner: FifoChannel<u32> = FifoChannel::new(8);
    let mut m = Mapper::new(inner, Threshold { limit: 10 });
    // a filtered item still reports success
    assert!(matches!(Sender::send(&mut m, 99), SendPoll::Sent));
    // a kept item reaches the inner channel
    assert!(matches!(Sender::send(&mut m, 7), SendPoll::Sent));
    let (mut inner, _) = m.into_parts();
    // the filtered value never reached the inner channel
    assert!(matches!(inner.recv(), RecvPoll::Received(7)));
    assert!(matches!(inner.recv(), RecvPoll::Pending));
}

#[test]
fn mapper_recv_skips_filtered_items() {
    // inner holds [200 (filtered), 300 (filtered), 7 (kept)]
    let mut inner: FifoChannel<u32> = FifoChannel::new(8);
    assert!(matches!(inner.send(200), SendPoll::Sent));
    assert!(matches!(inner.send(300), SendPoll::Sent));
    assert!(matches!(inner.send(7), SendPoll::Sent));
    let mut m = Mapper::new(inner, Threshold { limit: 10 });
    // the kept item comes out exactly once; the filtered ones never appear
    assert!(matches!(Receiver::recv(&mut m), RecvPoll::Received(7)));
    assert!(matches!(Receiver::recv(&mut m), RecvPoll::Pending));
}

#[test]
fn mapper_recv_preserves_order_of_kept_items() {
    let mut inner: FifoChannel<u32> = FifoChannel::new(8);
    for v in [1u32, 50, 2, 60, 3] {
        assert!(matches!(inner.send(v), SendPoll::Sent));
    }
    let mut m = Mapper::new(inner, Threshold { limit: 10 });
    assert!(matches!(Receiver::recv(&mut m), RecvPoll::Received(1)));
    assert!(matches!(Receiver::recv(&mut m), RecvPoll::Received(2)));
    assert!(matches!(Receiver::recv(&mut m), RecvPoll::Received(3)));
    assert!(matches!(Receiver::recv(&mut m), RecvPoll::Pending));
}

#[test]
fn mapper_send_pending_hands_item_back() {
    let inner: FifoChannel<u32> = FifoChannel::new(0);
    let mut m = Mapper::new(inner, Threshold { limit: 10 });
    match Sender::send(&mut m, 5) {
        SendPoll::Pending(v) => assert_eq!(v, 5),
        _ => panic!("a kept item on a full inner channel must be pending"),
    }
    // a filtered item still succeeds even when the inner channel is full
    assert!(matches!(Sender::send(&mut m, 99), SendPoll::Sent));
}
