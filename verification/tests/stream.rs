use rift::queue::Queue;
use rift::stream::Stream;

#[test]
fn test_stream_happy_path() {
    let msg1 = 0;
    let msg2 = 1;
    let msg3 = 2;
    let mut queue = Queue::default();
    queue.push(msg1).expect("failed to push message");
    queue.push(msg2).expect("failed to push message");
    queue.push(msg3).expect("failed to push message");

    let mut stream = Stream::new(queue);

    let first = stream.poll(futures::task::noop_waker());
    assert!(first.is_some());
    let first = first.unwrap();
    assert_eq!(msg1, first.2);

    let second = stream.poll(futures::task::noop_waker());
    assert!(second.is_some());
    let second = second.unwrap();
    assert_eq!(msg2, second.2);

    let third = stream.poll(futures::task::noop_waker());
    assert!(third.is_some());
    let third = third.unwrap();
    assert_eq!(msg3, third.2);

    // Nothing left: the stream parks the caller and reports pending.
    assert!(stream.poll(futures::task::noop_waker()).is_none());
}
