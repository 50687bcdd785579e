use std::time::{SystemTime, UNIX_EPOCH};

use rift::queue::Queue;
use rift::registry::Registry;
use rift::sub::Sub;
use rift::topic::Topic;

fn now_ns() -> u64 {
    match SystemTime::now().duration_since(UNIX_EPOCH) {
        Ok(d) => u64::try_from(d.as_nanos()).unwrap_or(u64::MAX),
        Err(_) => 0,
    }
}

#[test]
fn test_subscription() {
    let first = Sub::<u32>::default();
    assert!(now_ns() >= first.created);
    let queue = Queue::default();
    let second = Sub::<u32>::with_queue(queue);
    assert_ne!(first.created, second.created);
}

#[test]
fn test_topic() {
    let default_topic = Topic::<u32>::default();
    assert!(now_ns() >= default_topic.created);
    assert!(default_topic.updated.is_none());

    let mut topic = Topic::<u32>::with_capacity(1024);

    let first = String::from("first");
    let second = String::from("second");

    let first_sub = topic.create(first.clone());
    let second_sub = topic.create(first.clone());
    assert_eq!(first_sub.created, second_sub.created);

    let third_sub = topic.create(second.clone());
    assert_ne!(first_sub.created, third_sub.created);

    let actual = topic.get(&first);
    assert!(actual.is_some());

    let actual = actual.unwrap();
    assert_eq!(first_sub.created, actual.created);

    let count = topic.len();
    assert_eq!(count, 2);

    let removed = topic.remove(&second);
    assert!(removed.is_some());
    let removed = removed.unwrap();
    assert_eq!(third_sub.created, removed.created);

    let count = topic.len();
    assert_eq!(count, 1);

    assert!(topic.push(0).is_ok());

    let removed = topic.remove(&first);
    assert!(removed.is_some());
    let removed = removed.unwrap();
    assert_eq!(first_sub.created, removed.created);

    assert!(topic.push(0).is_err());
}

#[test]
fn test_registry_happy_path() {
    let mut reg = Registry::<usize>::with_capacity(1);

    let topic_name = "test".to_string();
    let new_topic_name = "woot".to_string();

    let first_topic = reg.create(topic_name.clone());
    let second_topic = reg.create(topic_name.clone());
    assert_eq!(first_topic.created, second_topic.created);

    let actual = reg.get(&topic_name);
    assert!(actual.is_some());

    let actual = actual.unwrap();
    assert_eq!(first_topic.created, actual.created);

    let new_topic = reg.create(new_topic_name.clone());
    assert_ne!(first_topic.created, new_topic.created);

    let count = reg.len();
    assert_eq!(count, 2);

    let deleted = reg.delete(&new_topic_name);
    assert!(deleted.is_some());
    let deleted = deleted.unwrap();
    assert_eq!(new_topic.created, deleted.created);

    let count = reg.len();
    assert_eq!(count, 1);
}

#[test]
fn test_topic_fanout_delivers_to_every_subscription() {
    let mut topic = Topic::<u8>::new();
    topic.create(String::from("a"));
    topic.create(String::from("b"));
    assert!(topic.push(7).is_ok());

    // Both subscriptions received their own copy of the message.
    for name in ["a", "b"] {
        let mut sub = topic.remove(&String::from(name)).unwrap();
        let (_, idx, value) = sub.queue.next().unwrap();
        assert_eq!((idx, value), (0, 7));
    }
}

#[test]
fn test_no_subscriptions_then_late_subscriber() {
    let mut topic = Topic::<u8>::new();
    // No subscriptions: the publish is rejected.
    assert_eq!(topic.push(1), Err(rift::Error::NoSubscriptions));
    // Adding a subscription afterwards does not retroactively deliver it.
    topic.create(String::from("late"));
    let mut sub = topic.remove(&String::from("late")).unwrap();
    assert!(sub.queue.next().is_none());
}

#[test]
fn test_registry_create_delete_get() {
    let mut reg = Registry::<u8>::default();
    reg.create(String::from("t"));
    assert!(reg.delete(&String::from("t")).is_some());
    assert!(reg.get(&String::from("t")).is_none());
}
