use rift::message::{Confirmation, LeaseRef, Message};
use rift::service::{Broker, Code, PollOutcome};

fn message(topic: &str, data: Vec<u8>) -> Message {
    Message { topic: String::from(topic), data, attributes: Vec::new(), published: None }
}

fn empty_lease(topic: &str, subscription: &str) -> LeaseRef {
    LeaseRef {
        id: 0,
        topic: String::from(topic),
        subscription: String::from(subscription),
        index: 0,
        ttl: 0,
        leased_at: 0,
        deadline: 0,
    }
}

#[test]
fn test_topic_not_found() {
    let err = rift::service::topic_not_found("woot");
    assert_eq!(err.message(), "the supplied topic 'woot' does not exist");
    assert_eq!(err.code(), Code::NotFound);
}

#[test]
fn test_sub_not_found() {
    let err = rift::service::sub_not_found("woot", "testing");
    assert_eq!(
        err.message(),
        "the supplied subscription 'woot' is not assoicated with the given topic 'testing'"
    );
    assert_eq!(err.code(), Code::NotFound);
}

#[test]
fn test_ack() {
    let mut broker = Broker::new();

    let topic_name = String::from("woot");
    let sub_name = String::from("sub");
    let nope = String::from("nope");

    broker.create_topic(topic_name.clone());
    broker.create_subscription(&topic_name, sub_name.clone()).unwrap();

    let lease = empty_lease(&nope, &sub_name);
    let res = broker.ack(&lease);
    assert!(res.is_err());

    let lease = empty_lease(&topic_name, &nope);
    let res = broker.ack(&lease);
    assert!(res.is_err());

    let lease = empty_lease(&topic_name, &sub_name);
    let res = broker.ack(&lease);
    assert!(res.is_err());
}

#[test]
fn test_nack() {
    let mut broker = Broker::new();

    let topic_name = String::from("woot");
    let sub_name = String::from("sub");
    let nope = String::from("nope");

    broker.create_topic(topic_name.clone());
    broker.create_subscription(&topic_name, sub_name.clone()).unwrap();

    let lease = empty_lease(&nope, &sub_name);
    let res = broker.nack(&lease);
    assert!(res.is_err());

    let lease = empty_lease(&topic_name, &nope);
    let res = broker.nack(&lease);
    assert!(res.is_err());

    let lease = empty_lease(&topic_name, &sub_name);
    let res = broker.nack(&lease);
    assert!(res.is_err());
}

#[test]
fn test_subscribe() {
    let mut broker = Broker::new();

    let topic_name = String::from("woot");
    let sub_name = String::from("sub");

    broker.create_topic(topic_name.clone());
    broker.create_subscription(&topic_name, sub_name.clone()).unwrap();

    let res = broker.publish(message(&topic_name, vec![0x01]));
    assert!(res.is_ok());
    assert_eq!(res.unwrap(), Confirmation::Committed);

    let res = broker.publish(message(&topic_name, vec![0x02]));
    assert!(res.is_ok());
    assert_eq!(res.unwrap(), Confirmation::Committed);

    let stream = broker.subscribe(&String::from("nope"), &sub_name);
    assert!(stream.is_err());

    let stream = broker.subscribe(&topic_name, &String::from("nope"));
    assert!(stream.is_err());

    let stream = broker.subscribe(&topic_name, &sub_name);
    assert!(stream.is_ok());
    let handle = stream.unwrap();

    // First delivery: the first published payload under a fresh lease.
    let actual = broker.poll(&handle, futures::task::noop_waker());
    let first = match actual {
        PollOutcome::Ready(leased) => leased,
        _ => panic!("expected a ready message"),
    };
    assert_eq!(first.lease.topic, topic_name);
    assert_eq!(first.lease.subscription, sub_name);
    assert_eq!(first.lease.index, 0);
    assert_eq!(first.message.data.len(), 1);
    assert_eq!(first.message.data[0], 0x01);
    let first_id = first.lease.id;

    // Nack it: committed, and the message becomes redeliverable.
    let res = broker.nack(&first.lease);
    assert!(res.is_ok());
    assert_eq!(res.unwrap(), Confirmation::Committed);

    // Redelivery: same payload, same index, a fresh lease identity.
    let actual = broker.poll(&handle, futures::task::noop_waker());
    let second = match actual {
        PollOutcome::Ready(leased) => leased,
        _ => panic!("expected a redelivered message"),
    };
    assert_eq!(second.lease.topic, topic_name);
    assert_eq!(second.lease.subscription, sub_name);
    assert_eq!(second.lease.index, 0);
    assert_eq!(second.message.data.len(), 1);
    assert_eq!(second.message.data[0], 0x01);
    assert_ne!(second.lease.id, first_id);

    // The second message follows at the next index.
    let actual = broker.poll(&handle, futures::task::noop_waker());
    let third = match actual {
        PollOutcome::Ready(leased) => leased,
        _ => panic!("expected the second message"),
    };
    assert_eq!(third.lease.index, 1);
    assert_eq!(third.message.data.len(), 1);
    assert_eq!(third.message.data[0], 0x02);

    let res = broker.ack(&third.lease);
    assert!(res.is_ok());
    assert_eq!(res.unwrap(), Confirmation::Committed);

    // Only the nacked-then-leased message remains outstanding: pending.
    let res = broker.ack(&second.lease);
    assert!(res.is_ok());
    let actual = broker.poll(&handle, futures::task::noop_waker());
    assert!(matches!(actual, PollOutcome::Pending));
}

#[test]
fn test_happy_path() {
    let mut broker = Broker::new();
    let topic_name = String::from("topic");
    let second_topic_name = String::from("second");

    let res = broker.create_topic(topic_name.clone());
    assert_eq!(topic_name, res.name);

    let res = broker.create_topic(second_topic_name.clone());
    assert_eq!(second_topic_name, res.name);

    let actual = broker.get_topic(&topic_name);
    assert!(actual.is_ok());
    let actual = actual.unwrap();
    assert_eq!(topic_name, actual.name);

    // The listing is ascending by name; the wire stream pops from the end.
    let mut listed = broker.list_topics();
    let actual = listed.pop();
    assert!(actual.is_some());
    let actual = actual.unwrap();
    assert_eq!(actual.name, topic_name);

    let actual = listed.pop();
    assert!(actual.is_some());
    let actual = actual.unwrap();
    assert_eq!(actual.name, second_topic_name);

    assert!(listed.pop().is_none());

    let actual = broker.delete_topic(&topic_name);
    assert!(actual.is_ok());
}

#[test]
fn test_create() {
    let mut broker = Broker::new();
    let topic_name = String::from("topic");
    let sub_name = String::from("first");
    let second_sub_name = String::from("second");

    broker.create_topic(topic_name.clone());

    let res = broker.create_subscription(&topic_name, sub_name.clone());
    assert!(res.is_ok());
    let res = res.unwrap();
    assert_eq!(res.name, sub_name);
    assert_eq!(res.topic, topic_name);

    let res = broker.create_subscription(&String::from("nope"), sub_name.clone());
    assert!(res.is_err());

    let res = broker.create_subscription(&topic_name, second_sub_name.clone());
    assert!(res.is_ok());
    let res = res.unwrap();
    assert_eq!(res.name, second_sub_name);
    assert_eq!(res.topic, topic_name);
}

#[test]
fn test_delete() {
    let topic_name = String::from("topic");
    let sub_name = String::from("first");

    let mut broker = Broker::new();
    broker.create_topic(topic_name.clone());

    let res = broker.create_subscription(&topic_name, sub_name.clone());
    assert!(res.is_ok());

    let res = broker.delete_subscription(&String::from("nope"), &sub_name);
    assert!(res.is_err());

    let res = broker.delete_subscription(&topic_name, &String::from("nope"));
    assert!(res.is_err());

    let res = broker.delete_subscription(&topic_name, &sub_name);
    assert!(res.is_ok());
    let res = res.unwrap();
    assert_eq!(res.name, sub_name);
    assert_eq!(res.topic, topic_name);
}

#[test]
fn test_get_request() {
    let topic_name = String::from("topic");
    let sub_name = String::from("first");

    let mut broker = Broker::new();
    broker.create_topic(topic_name.clone());

    let res = broker.create_subscription(&topic_name, sub_name.clone());
    assert!(res.is_ok());

    let res = broker.get_subscription(&topic_name, &sub_name);
    assert!(res.is_ok());
    let res = res.unwrap();
    assert_eq!(res.name, sub_name);
    assert_eq!(res.topic, topic_name);

    let res = broker.get_subscription(&String::from("nope"), &sub_name);
    assert!(res.is_err());

    let res = broker.get_subscription(&topic_name, &String::from("nope"));
    assert!(res.is_err());
}

#[test]
fn test_list() {
    let topic_name = String::from("topic");
    let sub_name = String::from("first");
    let second_sub_name = String::from("second");

    let mut broker = Broker::new();
    broker.create_topic(topic_name.clone());

    let res = broker.create_subscription(&topic_name, sub_name.clone());
    assert!(res.is_ok());

    let res = broker.create_subscription(&topic_name, second_sub_name.clone());
    assert!(res.is_ok());

    let stream = broker.list_subscriptions(&String::from("nope"));
    assert!(stream.is_err());

    let stream = broker.list_subscriptions(&topic_name);
    assert!(stream.is_ok());
    let mut listed = stream.unwrap();

    // The listing is ascending by name; the wire stream pops from the end.
    let actual = listed.pop();
    assert!(actual.is_some());
    let actual = actual.unwrap();
    assert_eq!(actual.name, second_sub_name);
    assert_eq!(actual.topic, topic_name);

    let actual = listed.pop();
    assert!(actual.is_some());
    let actual = actual.unwrap();
    assert_eq!(actual.name, sub_name);
    assert_eq!(actual.topic, topic_name);

    assert!(listed.pop().is_none());
}

#[test]
fn test_publish_validation() {
    // Empty topic and empty payload are rejected as invalid arguments.
    let mut broker = Broker::new();
    broker.create_topic(String::from("t"));

    let res = broker.publish(message("", vec![0x01]));
    assert_eq!(res.unwrap_err().code(), Code::InvalidArgument);

    let res = broker.publish(message("t", vec![]));
    let err = res.unwrap_err();
    assert_eq!(err.code(), Code::InvalidArgument);
    assert_eq!(err.message(), "data payload must be non-empty.");
}

#[test]
fn test_publish_no_subscriptions() {
    // A topic without subscriptions reports an internal failure.
    let mut broker = Broker::new();
    broker.create_topic(String::from("t"));
    let res = broker.publish(message("t", vec![0x01]));
    let err = res.unwrap_err();
    assert_eq!(err.code(), Code::Internal);
    assert_eq!(err.message(), "queue is full or otherwise invalid: no subscriptions....");
}

#[test]
fn test_publish_unknown_topic() {
    let mut broker = Broker::new();
    let res = broker.publish(message("missing", vec![0x01]));
    let err = res.unwrap_err();
    assert_eq!(err.code(), Code::NotFound);
    assert_eq!(err.message(), "the supplied topic 'missing' does not exist");
}

#[test]
fn test_list_ordering() {
    // Topics created as b, a, c list as a, b, c.
    let mut broker = Broker::new();
    broker.create_topic(String::from("b"));
    broker.create_topic(String::from("a"));
    broker.create_topic(String::from("c"));
    let listed = broker.list_topics();
    let names: Vec<&str> = listed.iter().map(|t| t.name.as_str()).collect();
    assert_eq!(names, ["a", "b", "c"]);
}

#[test]
fn test_create_delete_get_topic() {
    // Create, delete, get: the name is gone.
    let mut broker = Broker::new();
    broker.create_topic(String::from("n"));
    assert!(broker.delete_topic(&String::from("n")).is_ok());
    let res = broker.get_topic(&String::from("n"));
    assert_eq!(res.unwrap_err().code(), Code::NotFound);
}

#[test]
fn test_delete_propagation() {
    // Deleting a topic invalidates leases addressed through it.
    let mut broker = Broker::new();
    let topic_name = String::from("t");
    let sub_name = String::from("s");
    broker.create_topic(topic_name.clone());
    broker.create_subscription(&topic_name, sub_name.clone()).unwrap();
    broker.publish(message("t", vec![0x01])).unwrap();

    let handle = broker.subscribe(&topic_name, &sub_name).unwrap();
    let leased = match broker.poll(&handle, futures::task::noop_waker()) {
        PollOutcome::Ready(leased) => leased,
        _ => panic!("expected a message"),
    };

    broker.delete_topic(&topic_name).unwrap();
    let res = broker.ack(&leased.lease);
    assert_eq!(res.unwrap_err().code(), Code::NotFound);

    // The stream reports that its subscription is gone.
    let actual = broker.poll(&handle, futures::task::noop_waker());
    assert!(matches!(actual, PollOutcome::Gone(_)));
}

#[test]
fn test_update_unimplemented() {
    let mut broker = Broker::new();
    broker.create_topic(String::from("t"));
    let res = broker.update_topic(&String::from("t"));
    assert_eq!(res.unwrap_err().code(), Code::Unimplemented);
    let res = broker.update_subscription(&String::from("t"), &String::from("s"));
    assert_eq!(res.unwrap_err().code(), Code::Unimplemented);
}

#[test]
fn test_lease_ref_from_tag() {
    let tag = rift::LeaseTag::new(3, 10, 100);
    let lease = LeaseRef::from_tag(tag, String::from("t"), String::from("s"), 4);
    assert_eq!(lease.id, 3);
    assert_eq!(lease.topic, "t");
    assert_eq!(lease.subscription, "s");
    assert_eq!(lease.index, 4);
    assert_eq!(lease.ttl, 10);
    assert_eq!(lease.leased_at, 100);
    assert_eq!(lease.deadline, 110);
}

#[test]
fn test_create_topic_idempotent() {
    let mut broker = Broker::new();
    let first = broker.create_topic(String::from("same"));
    let second = broker.create_topic(String::from("same"));
    assert_eq!(first.created, second.created);
    assert_eq!(broker.list_topics().len(), 1);
}
