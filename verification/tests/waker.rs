use rift::waker::Waker;

#[test]
fn test_waker() {
    let mut waker = Waker::default();
    assert_eq!(0, waker.len());

    let first: u128 = 1;
    let second: u128 = 2;
    waker.register(first, futures::task::noop_waker());
    waker.register(first, futures::task::noop_waker());
    waker.register(second, futures::task::noop_waker());

    assert!(waker.wake());
    assert!(waker.wake());
    assert!(!waker.wake());
}

#[test]
fn test_waker_fifo_fairness() {
    // Parked consumers are woken in registration order, one per wake; a
    // re-registration keeps the original position.
    let mut waker = Waker::with_capacity(4);
    waker.register(10, futures::task::noop_waker());
    waker.register(20, futures::task::noop_waker());
    waker.register(30, futures::task::noop_waker());
    waker.register(10, futures::task::noop_waker());
    assert_eq!(3, waker.len());

    let (id1, _) = waker.wake_oldest().unwrap();
    let (id2, _) = waker.wake_oldest().unwrap();
    let (id3, _) = waker.wake_oldest().unwrap();
    assert_eq!(id1, 10);
    assert_eq!(id2, 20);
    assert_eq!(id3, 30);
    assert!(waker.wake_oldest().is_none());
}
