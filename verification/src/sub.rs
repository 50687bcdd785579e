//! A subscription: a named consumer lane within a topic.

use vstd::prelude::*;

use crate::ext::nanos_since_epoch;
use crate::queue::Queue;
use crate::slot::{clone_faithful, Slot};

verus! {

/// A subscription represents a single consumer of a given topic: creation
/// bookkeeping plus the backing queue. Timestamps are wall-clock nanoseconds
/// since the Unix epoch.
#[derive(Debug)]
pub struct Sub<T> {
    /// The last time this particular subscription was updated.
    pub updated: Option<u64>,
    /// The time when this subscription was created.
    pub created: u64,
    /// The backing queue for this subscription.
    pub queue: Queue<T>,
}

impl<T> Sub<T> {
    /// Create a new subscription with a predefined backing queue.
    pub fn with_queue(queue: Queue<T>) -> (r: Self)
        ensures
            r.updated is None,
            r.queue == queue,
    {
        Self { updated: None, created: nanos_since_epoch(std::time::SystemTime::now()), queue }
    }
}

impl<T> Default for Sub<T> {
    /// A fresh subscription over a fresh unbounded queue.
    fn default() -> (r: Self)
        ensures
            r.updated is None,
            r.queue.slots_view() == Seq::<Slot<T>>::empty(),
            r.queue.waker_ids() == Seq::<u128>::empty(),
            r.queue.ttl_spec() == crate::queue::DEFAULT_TTL,
            r.queue.cap_spec() == crate::queue::NO_CAPACITY,
            r.queue.wf(),
    {
        Self {
            updated: None,
            created: nanos_since_epoch(std::time::SystemTime::now()),
            queue: Queue::new(),
        }
    }
}

impl<T> Clone for Sub<T> where T: Clone {
    /// A clone is a snapshot: same bookkeeping, a snapshot of the queue (see
    /// the queue's own clone).
    fn clone(&self) -> (r: Self)
        ensures
            r.created == self.created,
            r.updated == self.updated,
            r.queue.ttl_spec() == self.queue.ttl_spec(),
            r.queue.cap_spec() == self.queue.cap_spec(),
            clone_faithful::<T>() ==> r.queue.slots_view() == self.queue.slots_view(),
            r.queue.waker_ids() == Seq::<u128>::empty(),
            self.queue.wf() ==> r.queue.wf(),
    {
        Sub { updated: self.updated, created: self.created, queue: self.queue.clone() }
    }
}

} // verus!
