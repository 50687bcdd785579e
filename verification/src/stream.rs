//! The stream adapter: turns a queue into a lazy sequence of leased messages
//! for one consumer.

use vstd::prelude::*;

use crate::ext::fresh_consumer_id;
use crate::lease::LeaseTag;
use crate::queue::{next_post, Queue};
use crate::waker::register_one;

verus! {

/// A single-consumer adapter over a [Queue]: each poll either yields the next
/// leased message or parks the caller's wake handle in the queue's waker
/// registry under this adapter's stable consumer identity, so that repeated
/// parks replace the prior handle rather than occupying several FIFO slots.
#[derive(Debug)]
pub struct Stream<T> {
    id: u128,
    queue: Queue<T>,
}

impl<T> Stream<T> {
    /// This adapter's stable consumer identity.
    pub closed spec fn id_spec(&self) -> u128 {
        self.id
    }

    /// The wrapped queue.
    pub closed spec fn queue_spec(&self) -> Queue<T> {
        self.queue
    }

    /// Well-formed: the wrapped queue is.
    pub open spec fn wf(&self) -> bool {
        self.queue_spec().wf()
    }

    /// Wrap a queue, drawing a fresh consumer identity for this adapter.
    pub fn new(queue: Queue<T>) -> (r: Self)
        requires
            queue.wf(),
        ensures
            r.wf(),
            r.queue_spec() == queue,
    {
        Self { id: fresh_consumer_id(), queue }
    }
}

impl<T> Stream<T> where T: Clone {
    /// Poll this stream once: either the next leased message is returned, or
    /// the supplied wake handle is registered with the queue's waker registry
    /// under this adapter's consumer identity and `None` ("pending") is
    /// reported.
    pub fn poll(&mut self, handle: std::task::Waker) -> (r: Option<(LeaseTag, usize, T)>)
        requires
            old(self).wf(),
        ensures
            final(self).wf(),
            final(self).id_spec() == old(self).id_spec(),
            final(self).queue_spec().ttl_spec() == old(self).queue_spec().ttl_spec(),
            final(self).queue_spec().cap_spec() == old(self).queue_spec().cap_spec(),
            exists|now: u64, wall: u64, id: u64|
                next_post(
                    old(self).queue_spec().slots_view(),
                    old(self).queue_spec().ttl_spec(),
                    now,
                    wall,
                    id,
                    final(self).queue_spec().slots_view(),
                    r,
                ),
            r is Some ==> final(self).queue_spec().waker_ids() == old(
                self,
            ).queue_spec().waker_ids(),
            r is None ==> final(self).queue_spec().waker_ids() == register_one(
                old(self).queue_spec().waker_ids(),
                old(self).id_spec(),
            ),
    {
        let next = self.queue.next();
        if next.is_none() {
            self.queue.register_task_waker(self.id, handle);
            None
        } else {
            next
        }
    }
}

} // verus!
