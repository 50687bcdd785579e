use rift::queue::Queue;

#[test]
fn test_builder() {
    Queue::<usize>::builder()
        .with_message_capacity(1024)
        .with_subscription_capacity(1023)
        .with_ttl(100_000_000)
        .build::<usize>();
}

#[test]
fn queue_test_queue() {
    let mut queue = Queue::<usize>::default();

    let msg = 1000 as usize;
    queue.push(msg).unwrap();
    let actual = queue.next();
    assert!(actual.is_some());
    let (first_lease_tag, first_idx, actual) = actual.unwrap();
    assert_eq!(actual, msg);

    let res = queue.nack(first_lease_tag.id, first_idx);
    assert!(res.is_ok());

    let actual = queue.next();
    assert!(actual.is_some());
    let (second_lease_tag, second_idx, actual) = actual.unwrap();
    assert_eq!(actual, msg);

    let res = queue.ack(second_lease_tag.id, second_idx);
    assert!(res.is_ok());

    let actual = queue.next();
    assert!(actual.is_none());
}

#[test]
fn unbounded_test_queue() {
    let mut queue = Queue::<usize>::new();

    let msg = 1000 as usize;
    queue.push(msg).unwrap();
    let actual = queue.next();
    assert!(actual.is_some());
    let (first_lease_tag, first_idx, actual) = actual.unwrap();
    assert_eq!(actual, msg);

    let res = queue.nack(first_lease_tag.id, first_idx);
    assert!(res.is_ok());

    let actual = queue.next();
    assert!(actual.is_some());
    let (second_lease_tag, second_idx, actual) = actual.unwrap();
    assert_eq!(actual, msg);
    assert_eq!(second_idx, first_idx);

    let res = queue.ack(second_lease_tag.id, second_idx);
    assert!(res.is_ok());

    let actual = queue.next();
    assert!(actual.is_none());
}

#[test]
fn test_push_grows_by_one() {
    // With no empty slot left, each push occupies one fresh index.
    let mut queue = Queue::<u8>::new();
    queue.push(10).unwrap();
    queue.push(20).unwrap();
    let (_, i0, v0) = queue.next().unwrap();
    let (_, i1, v1) = queue.next().unwrap();
    assert_eq!((i0, v0), (0, 10));
    assert_eq!((i1, v1), (1, 20));
}

#[test]
fn test_bounded_queue_full_and_reuse() {
    let mut queue = Queue::<u8>::builder().with_message_capacity(1).build::<u8>();
    queue.push(1).unwrap();
    // At capacity with no empty slot: the push is rejected.
    assert_eq!(queue.push(2), Err(rift::Error::QueueFull));
    // After an ack the slot is reusable.
    let (tag, idx, _) = queue.next().unwrap();
    queue.ack(tag.id, idx).unwrap();
    assert!(queue.push(3).is_ok());
    let (_, idx2, v) = queue.next().unwrap();
    assert_eq!((idx2, v), (0, 3));
}

#[test]
fn test_zero_ttl_redelivery() {
    // A TTL of zero expires immediately: the next observation redelivers.
    let mut queue = Queue::<u8>::builder().with_ttl(0).build::<u8>();
    queue.push(9).unwrap();
    let (tag1, i1, v1) = queue.next().unwrap();
    let (tag2, i2, v2) = queue.next().unwrap();
    assert_eq!((i1, v1), (0, 9));
    assert_eq!((i2, v2), (0, 9));
    assert_ne!(tag1.id, tag2.id);
}

#[test]
fn test_ack_out_of_range() {
    let mut queue = Queue::<u8>::new();
    assert_eq!(queue.ack(0, 0), Err(rift::Error::IndexOutOfRange));
    assert_eq!(queue.nack(0, 5), Err(rift::Error::IndexOutOfRange));
}

#[test]
fn test_ack_is_final() {
    let mut queue = Queue::<u8>::new();
    queue.push(4).unwrap();
    let (tag, idx, _) = queue.next().unwrap();
    queue.ack(tag.id, idx).unwrap();
    // A repeated ack or a nack of the same lease fails: the slot is empty.
    assert_eq!(queue.ack(tag.id, idx), Err(rift::Error::MustBeLocked));
    assert_eq!(queue.nack(tag.id, idx), Err(rift::Error::MustBeLocked));
}

#[test]
fn test_push_drain_round_trip() {
    // The multiset of drained values equals the multiset pushed.
    let mut queue = Queue::<u32>::new();
    let pushed = vec![5u32, 3, 3, 8, 1];
    for v in &pushed {
        queue.push(*v).unwrap();
    }
    let mut drained: Vec<u32> = Vec::new();
    while let Some((tag, idx, v)) = queue.next() {
        queue.ack(tag.id, idx).unwrap();
        drained.push(v);
    }
    let mut expected = pushed.clone();
    expected.sort();
    drained.sort();
    assert_eq!(drained, expected);
}

#[test]
fn test_lease_tag_deadline() {
    // The advertised deadline is the lease start plus the TTL.
    let tag = rift::LeaseTag::new(7, 5, 1000);
    assert_eq!(tag.id, 7);
    assert_eq!(tag.ttl, 5);
    assert_eq!(tag.leased_at, 1000);
    assert_eq!(tag.deadline, 1005);
    let saturated = rift::LeaseTag::new(1, u64::MAX, 10);
    assert_eq!(saturated.deadline, u64::MAX);
}
