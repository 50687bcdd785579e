use rift::slot::Slot;

#[test]
fn test_filled() {
    let mut slot = Slot::<usize>::Empty;

    let val = 0;
    let res = slot.fill(val);
    assert!(res.is_ok());

    // Check we have a filled slot now.
    assert!(!slot.is_empty());
    assert!(slot.is_filled());
    assert!(!slot.is_locked());

    // Lock the slot and then test the value is correct.
    let res = slot.lock(10_000_000_000, 0, 7);
    assert!(res.is_ok());

    let (orig_lease_id, actual) = res.unwrap();
    assert_eq!(val, actual);

    // Nack the slot which should mean we have a filled slot again.
    let res = slot.nack(orig_lease_id);
    assert!(res.is_ok());
    assert!(slot.is_filled());

    // Lock the slot again.
    let res = slot.lock(10_000_000_000, 1, 8);
    assert!(res.is_ok());

    let (new_lease_id, actual) = res.unwrap();
    assert_eq!(val, actual);
    assert_ne!(orig_lease_id, new_lease_id);

    // Now ack the slot which should mean we have a empty slot.
    let res = slot.ack(new_lease_id);
    assert!(res.is_ok());
    assert!(slot.is_empty());
}

#[test]
fn test_slot_errors() {
    let mut slot = Slot::<usize>::Empty;

    // Nothing to lock, ack or nack in an empty slot.
    assert_eq!(slot.lock(10, 0, 1), Err(rift::Error::MustBeFilled));
    assert_eq!(slot.ack(1), Err(rift::Error::MustBeLocked));
    assert_eq!(slot.nack(1), Err(rift::Error::MustBeLocked));

    // A filled slot cannot be filled again.
    assert!(slot.fill(7).is_ok());
    assert_eq!(slot.fill(8), Err(rift::Error::MustBeEmpty));

    // A mismatched lease id is rejected.
    let (id, _) = slot.lock(10, 0, 42).unwrap();
    assert_eq!(slot.ack(id + 1), Err(rift::Error::InvalidOrExpiredLease));
    assert_eq!(slot.nack(id + 1), Err(rift::Error::InvalidOrExpiredLease));
    assert!(slot.ack(id).is_ok());
}

#[test]
fn test_slot_expiry() {
    let mut slot = Slot::<usize>::Empty;
    slot.fill(3).unwrap();

    // Lock with a TTL of 5 at monotonic reading 100.
    let (_, value) = slot.lock(5, 100, 9).unwrap();
    assert_eq!(value, 3);

    // Not expired before the deadline, expired at it.
    assert!(!slot.is_expired(104));
    assert!(slot.is_expired(105));

    // The expiry check performs the internal nack.
    assert_eq!(slot.expired(105), Ok(true));
    assert!(slot.is_filled());
}

#[test]
fn test_zero_ttl_expires_immediately() {
    let mut slot = Slot::<usize>::Empty;
    slot.fill(1).unwrap();
    let (_, _) = slot.lock(0, 50, 2).unwrap();
    // A lease with TTL zero is expired at the very next observation.
    assert!(slot.is_expired(50));
    assert_eq!(slot.expired(50), Ok(true));
    assert!(slot.is_filled());
}
