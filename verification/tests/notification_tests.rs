use channel_bridge::notification::Notification;

#[test]
fn coalesced_notifies_resolve_one_wait() {
    let mut n = Notification::new();
    n.notify();
    n.notify();
    n.notify();
    assert!(n.triggered());
    assert!(n.wait());
    assert!(!n.wait());
}

#[test]
fn single_notify_resolves_one_wait() {
    let mut n = Notification::new();
    n.notify();
    assert!(n.wait());
    assert!(!n.triggered());
    assert!(!n.wait());
}

#[test]
fn wait_without_notify_stays_pending() {
    let mut n = Notification::new();
    n.notify();
    n.reset();
    for _ in 0..100 {
        assert!(!n.wait());
    }
    assert!(!n.triggered());
}

#[test]
fn reset_clears_trigger_without_waking() {
    let mut n = Notification::new();
    n.notify();
    assert!(n.triggered());
    n.reset();
    assert!(!n.triggered());
    assert!(!n.wait());
}

#[test]
fn triggered_read_is_not_consuming() {
    let mut n = Notification::new();
    n.notify();
    assert!(n.triggered());
    assert!(n.triggered());
    assert!(n.wait());
}

#[test]
fn notify_after_wait_resolves_again() {
    let mut n = Notification::default();
    assert!(!n.wait());
    n.notify();
    assert!(n.wait());
    assert!(!n.wait());
}
