use channel_bridge::acceptor::Acceptor;
use channel_bridge::channel::SendPoll;

#[test]
fn backpressure_with_one_worker_one_slot() {
    // one worker, one queue slot
    let mut pool: Acceptor<u32, 1, 16, 1> = Acceptor::new();
    // the first connection is enqueued and dispatched to the only worker
    assert!(matches!(pool.enqueue(1), SendPoll::Sent));
    assert_eq!(pool.dispatch(), Some((0, 1)));
    // while its handler runs, a second connection is enqueued but not served
    assert!(matches!(pool.enqueue(2), SendPoll::Sent));
    assert_eq!(pool.dispatch(), None);
    // the queue is full: the accept loop suspends before a third goes in
    match pool.enqueue(3) {
        SendPoll::Pending(c) => assert_eq!(c, 3),
        _ => panic!("a full queue must stall the accept loop"),
    }
    // the second starts serving only after the first handler returns
    pool.complete(0, true);
    assert_eq!(pool.dispatch(), Some((0, 2)));
    // and now there is room for the third
    assert!(matches!(pool.enqueue(3), SendPoll::Sent));
}

#[test]
fn two_workers_serve_concurrently_third_waits() {
    // two workers, two queue slots; three connections arrive in order
    let mut pool: Acceptor<u32, 2, 8, 2> = Acceptor::new();
    assert!(matches!(pool.enqueue(1), SendPoll::Sent));
    assert_eq!(pool.dispatch(), Some((0, 1)));
    assert!(matches!(pool.enqueue(2), SendPoll::Sent));
    assert!(matches!(pool.enqueue(3), SendPoll::Sent));
    // the first two run concurrently on the two workers
    assert_eq!(pool.dispatch(), Some((1, 2)));
    // the third is held in the queue while both workers serve
    assert_eq!(pool.dispatch(), None);
    // it begins serving once either worker frees up
    pool.complete(1, false);
    assert_eq!(pool.dispatch(), Some((1, 3)));
}

#[test]
fn dispatch_follows_arrival_order() {
    let mut pool: Acceptor<u32, 1, 8, 4> = Acceptor::new();
    for c in [10, 11, 12] {
        assert!(matches!(pool.enqueue(c), SendPoll::Sent));
    }
    assert_eq!(pool.dispatch(), Some((0, 10)));
    pool.complete(0, true);
    assert_eq!(pool.dispatch(), Some((0, 11)));
    pool.complete(0, true);
    assert_eq!(pool.dispatch(), Some((0, 12)));
}

#[test]
fn empty_queue_dispatches_nothing() {
    let mut pool: Acceptor<u32, 2, 8, 2> = Acceptor::new();
    assert_eq!(pool.dispatch(), None);
}

#[test]
fn accept_errors_are_recorded_and_not_fatal() {
    let mut pool: Acceptor<u32, 1, 8, 1> = Acceptor::new();
    pool.record_accept_error();
    pool.record_accept_error();
    // the pool still accepts and serves connections afterwards
    assert!(matches!(pool.enqueue(5), SendPoll::Sent));
    assert_eq!(pool.dispatch(), Some((0, 5)));
}

#[test]
fn handler_error_frees_the_worker() {
    let mut pool: Acceptor<u32, 1, 8, 2> = Acceptor::new();
    assert!(matches!(pool.enqueue(1), SendPoll::Sent));
    assert!(matches!(pool.enqueue(2), SendPoll::Sent));
    assert_eq!(pool.dispatch(), Some((0, 1)));
    // the handler fails; only that connection ends, the worker lives on
    pool.complete(0, false);
    assert_eq!(pool.dispatch(), Some((0, 2)));
}

#[test]
fn shutdown_refuses_new_connections_but_drains() {
    let mut pool: Acceptor<u32, 1, 8, 2> = Acceptor::new();
    assert!(matches!(pool.enqueue(1), SendPoll::Sent));
    assert!(matches!(pool.enqueue(2), SendPoll::Sent));
    pool.shut_down();
    // no new connection enters the pool once it is closing
    assert!(matches!(pool.enqueue(3), SendPoll::Failed(())));
    // but the queued ones are still dispatched and served
    assert_eq!(pool.dispatch(), Some((0, 1)));
    pool.complete(0, true);
    assert_eq!(pool.dispatch(), Some((0, 2)));
}

#[test]
fn buffers_are_reserved_per_worker() {
    let pool: Acceptor<u32, 3, 64, 2> = Acceptor::new();
    for w in 0..3 {
        let (tx_buf, rx_buf) = pool.buffer_pair(w);
        assert_eq!(tx_buf.len(), 64);
        assert_eq!(rx_buf.len(), 64);
    }
}
