//! A topic: a named fan-out point owning a set of subscriptions.

use vstd::prelude::*;

use crate::error::{Error, Result};
use crate::ext::nanos_since_epoch;
use crate::names::{has_name, index_of_name, sorted_names, NameMap};
use crate::queue::{push_post, push_status, Queue};
use crate::slot::Slot;
use crate::sub::Sub;

verus! {

/// What one topic publish does to the subscription at position `i`: its
/// bookkeeping, configuration and position are kept, and a clone of `msg` is
/// pushed into its queue (whose success is decided by its state and bound
/// alone). On success the queue's oldest parked consumer is woken.
pub open spec fn fanout_at<T: Clone>(
    pre: (String, Sub<T>),
    post: (String, Sub<T>),
    msg: T,
) -> bool {
    &&& post.0 == pre.0
    &&& post.1.created == pre.1.created
    &&& post.1.updated == pre.1.updated
    &&& post.1.queue.ttl_spec() == pre.1.queue.ttl_spec()
    &&& post.1.queue.cap_spec() == pre.1.queue.cap_spec()
    &&& post.1.queue.wf()
    &&& exists|m: T|
        cloned::<T>(msg, m) && push_post(
            pre.1.queue.slots_view(),
            pre.1.queue.cap_spec(),
            m,
            post.1.queue.slots_view(),
            push_status(pre.1.queue.slots_view(), pre.1.queue.cap_spec()),
        )
    &&& post.1.queue.waker_ids() == (if push_status(
        pre.1.queue.slots_view(),
        pre.1.queue.cap_spec(),
    ) is Ok && pre.1.queue.waker_ids().len() > 0 {
        pre.1.queue.waker_ids().drop_first()
    } else {
        pre.1.queue.waker_ids()
    })
}

/// True when a push would succeed on every subscription's queue: none is
/// bounded and full.
pub open spec fn all_pushable<T: Clone>(subs: Seq<(String, Sub<T>)>) -> bool {
    forall|i: int|
        0 <= i < subs.len() ==> push_status(
            (#[trigger] subs[i]).1.queue.slots_view(),
            subs[i].1.queue.cap_spec(),
        ) is Ok
}

/// A topic represents a configured data flow through the rift system: a
/// fan-out point owning its subscriptions, keyed and ordered by name.
#[derive(Debug)]
pub struct Topic<T> {
    /// The last time this particular topic was updated.
    pub updated: Option<u64>,
    /// The time when this topic was created (wall-clock nanoseconds since the
    /// Unix epoch).
    pub created: u64,
    /// The subscriptions of this topic, keyed and ordered by name.
    pub subscriptions: NameMap<Sub<T>>,
}

impl<T> Topic<T> {
    /// The subscriptions of this topic, ascending by name.
    pub open spec fn subs(&self) -> Seq<(String, Sub<T>)> {
        self.subscriptions.entries_view()
    }

    /// Well-formed: subscription names are strictly ascending, and every
    /// subscription's queue is well-formed.
    pub open spec fn wf(&self) -> bool {
        &&& sorted_names(self.subs())
        &&& forall|i: int| 0 <= i < self.subs().len() ==> (#[trigger] self.subs()[i]).1.queue.wf()
    }

    /// Create a new default topic.
    pub fn new() -> (r: Self)
        ensures
            r.subs() == Seq::<(String, Sub<T>)>::empty(),
            r.updated is None,
            r.wf(),
    {
        Self {
            updated: None,
            created: nanos_since_epoch(std::time::SystemTime::now()),
            subscriptions: NameMap::new(),
        }
    }

    /// Create a new topic with a predefined capacity for subscriptions.
    pub fn with_capacity(cap: usize) -> (r: Self)
        ensures
            r.subs() == Seq::<(String, Sub<T>)>::empty(),
            r.updated is None,
            r.wf(),
    {
        Self {
            updated: None,
            created: nanos_since_epoch(std::time::SystemTime::now()),
            subscriptions: NameMap::with_capacity(cap),
        }
    }

    /// The number of subscriptions in this topic.
    pub fn len(&self) -> (n: usize)
        ensures
            n == self.subs().len(),
    {
        self.subscriptions.len()
    }

    /// The names of this topic's subscriptions, in ascending lexicographic
    /// order.
    pub fn names(&self) -> (r: Vec<String>)
        requires
            self.wf(),
        ensures
            r@.len() == self.subs().len(),
            forall|i: int| 0 <= i < r@.len() ==> #[trigger] r@[i] == self.subs()[i].0,
    {
        let n = self.subscriptions.len();
        let mut names: Vec<String> = Vec::with_capacity(n);
        let mut i: usize = 0;
        while i < n
            invariant
                n == self.subs().len(),
                0 <= i <= n,
                names@.len() == i,
                forall|j: int| 0 <= j < i ==> #[trigger] names@[j] == self.subs()[j].0,
            decreases n - i,
        {
            names.push(self.subscriptions.name_at(i).clone());
            i += 1;
        }
        names
    }
}

impl<T> Default for Topic<T> {
    /// A fresh topic without subscriptions.
    fn default() -> (r: Self)
        ensures
            r.subs() == Seq::<(String, Sub<T>)>::empty(),
            r.updated is None,
            r.wf(),
    {
        Self::new()
    }
}

impl<T> Topic<T> where T: Clone {
    /// Create a new subscription within this topic. Creation is idempotent:
    /// if the name is already present, the topic is unchanged and a snapshot
    /// of the existing subscription (same creation timestamp) is returned;
    /// otherwise a fresh subscription over a fresh empty queue is inserted at
    /// the position that keeps the names ascending, and a snapshot of it is
    /// returned. A fresh subscription starts with an empty backlog: earlier
    /// publishes to this topic are not delivered to it retroactively.
    pub fn create(&mut self, name: String) -> (r: Sub<T>)
        requires
            old(self).wf(),
        ensures
            final(self).wf(),
            final(self).created == old(self).created,
            final(self).updated == old(self).updated,
            has_name(old(self).subs(), name@) ==> {
                let i = index_of_name(old(self).subs(), name@);
                &&& *final(self) == *old(self)
                &&& r.created == old(self).subs()[i].1.created
                &&& r.updated == old(self).subs()[i].1.updated
            },
            !has_name(old(self).subs(), name@) ==> {
                &&& exists|p: int|
                    {
                        &&& 0 <= p <= old(self).subs().len()
                        &&& final(self).subs() == old(self).subs().insert(
                            p,
                            (name, final(self).subs()[p].1),
                        )
                        &&& final(self).subs()[p].1.queue.slots_view() == Seq::<
                            Slot<T>,
                        >::empty()
                        &&& final(self).subs()[p].1.queue.waker_ids() == Seq::<u128>::empty()
                        &&& final(self).subs()[p].1.created == r.created
                        &&& final(self).subs()[p].1.updated is None
                    }
                &&& has_name(final(self).subs(), name@)
                &&& r.updated is None
            },
    {
        match self.subscriptions.find(&name) {
            Some(i) => {
                let r = self.subscriptions.value_at(i).clone();
                proof {
                    crate::names::lemma_sorted_names_unique(
                        self.subs(),
                        i as int,
                        index_of_name(self.subs(), name@),
                    );
                }
                r
            },
            None => {
                let queue = Queue::<T>::builder().build();
                let sub = Sub::with_queue(queue);
                let snapshot = sub.clone();
                self.subscriptions.insert_new(name, sub);
                snapshot
            },
        }
    }

    /// Remove the supplied subscription if it exists.
    pub fn remove(&mut self, name: &String) -> (r: Option<Sub<T>>)
        requires
            old(self).wf(),
        ensures
            final(self).wf(),
            final(self).created == old(self).created,
            final(self).updated == old(self).updated,
            !has_name(old(self).subs(), name@) ==> r is None && *final(self) == *old(self),
            has_name(old(self).subs(), name@) ==> {
                let i = index_of_name(old(self).subs(), name@);
                &&& r == Some(old(self).subs()[i].1)
                &&& final(self).subs() == old(self).subs().remove(i)
            },
    {
        self.subscriptions.remove(name)
    }

    /// Retrieve a snapshot of the specified subscription if it exists,
    /// otherwise returning [None].
    pub fn get(&self, name: &String) -> (r: Option<Sub<T>>)
        requires
            self.wf(),
        ensures
            !has_name(self.subs(), name@) ==> r is None,
            has_name(self.subs(), name@) ==> {
                let i = index_of_name(self.subs(), name@);
                &&& r is Some
                &&& r.unwrap().created == self.subs()[i].1.created
                &&& r.unwrap().updated == self.subs()[i].1.updated
            },
    {
        match self.subscriptions.find(name) {
            Some(i) => Some(self.subscriptions.value_at(i).clone()),
            None => None,
        }
    }

    /// Publish the supplied message to this topic: a clone of it is pushed to
    /// every subscription's queue (fan-out), each push waking that queue's
    /// oldest parked consumer. Fails with [Error::NoSubscriptions] when the
    /// topic has no subscriptions; when some queue is bounded and full, every
    /// other subscription is still attempted and the first failure
    /// ([Error::QueueFull]) is reported.
    pub fn push(&mut self, msg: T) -> (r: Result<()>)
        requires
            old(self).wf(),
        ensures
            final(self).wf(),
            final(self).created == old(self).created,
            final(self).updated == old(self).updated,
            old(self).subs().len() == 0 ==> r == Err::<(), Error>(Error::NoSubscriptions)
                && *final(self) == *old(self),
            old(self).subs().len() > 0 ==> {
                &&& final(self).subs().len() == old(self).subs().len()
                &&& forall|i: int|
                    0 <= i < old(self).subs().len() ==> fanout_at(
                        #[trigger] old(self).subs()[i],
                        final(self).subs()[i],
                        msg,
                    )
                &&& (r is Ok <==> all_pushable(old(self).subs()))
                &&& (r is Err ==> r == Err::<(), Error>(Error::QueueFull))
            },
    {
        let n = self.subscriptions.len();
        if n == 0 {
            return Err(Error::NoSubscriptions);
        }
        let mut first_err: Result<()> = Ok(());
        let mut i: usize = 0;
        while i < n
            invariant
                old(self).wf(),
                n == old(self).subs().len(),
                self.subs().len() == n,
                self.created == old(self).created,
                self.updated == old(self).updated,
                0 <= i <= n,
                forall|j: int| i <= j < n ==> self.subs()[j] == old(self).subs()[j],
                forall|j: int|
                    0 <= j < i ==> fanout_at(#[trigger] old(self).subs()[j], self.subs()[j], msg),
                first_err is Ok <==> forall|j: int|
                    0 <= j < i ==> push_status(
                        (#[trigger] old(self).subs()[j]).1.queue.slots_view(),
                        old(self).subs()[j].1.queue.cap_spec(),
                    ) is Ok,
                first_err is Err ==> first_err == Err::<(), Error>(Error::QueueFull),
            decreases n - i,
        {
            let m = msg.clone();
            let ghost gm = m;
            let sub = self.subscriptions.value_at_mut(i);
            let res = sub.queue.push(m);
            if res.is_err() && first_err.is_ok() {
                first_err = res;
            }
            proof {
                let pre_entry = old(self).subs()[i as int];
                let post_entry = self.subs()[i as int];
                assert(cloned::<T>(msg, gm));
                assert(push_post(
                    pre_entry.1.queue.slots_view(),
                    pre_entry.1.queue.cap_spec(),
                    gm,
                    post_entry.1.queue.slots_view(),
                    res,
                ));
                assert(res == push_status(
                    pre_entry.1.queue.slots_view(),
                    pre_entry.1.queue.cap_spec(),
                ));
                assert(fanout_at(pre_entry, post_entry, msg));
            }
            i += 1;
        }
        proof {
            assert forall|a: int, b: int|
                0 <= a < b < self.subs().len() implies crate::order::chars_lt(
                self.subs()[a].0@,
                self.subs()[b].0@,
            ) by {
                assert(fanout_at(old(self).subs()[a], self.subs()[a], msg));
                assert(fanout_at(old(self).subs()[b], self.subs()[b], msg));
            }
            assert forall|j: int|
                0 <= j < self.subs().len() implies (#[trigger] self.subs()[j]).1.queue.wf() by {
                assert(fanout_at(old(self).subs()[j], self.subs()[j], msg));
            }
        }
        first_err
    }
}

impl<T> Clone for Topic<T> where T: Clone {
    /// A clone is a snapshot: same bookkeeping, same subscription names in
    /// the same order, a snapshot of each subscription.
    fn clone(&self) -> (r: Self)
        ensures
            r.created == self.created,
            r.updated == self.updated,
            r.subs().len() == self.subs().len(),
            forall|i: int|
                0 <= i < self.subs().len() ==> (#[trigger] r.subs()[i]).0 == self.subs()[i].0
                    && r.subs()[i].1.created == self.subs()[i].1.created,
            self.wf() ==> r.wf(),
    {
        let r = Topic {
            updated: self.updated,
            created: self.created,
            subscriptions: self.subscriptions.clone(),
        };
        proof {
            assert forall|i: int|
                0 <= i < self.subs().len() implies (#[trigger] r.subs()[i]).0 == self.subs()[i].0
                && r.subs()[i].1.created == self.subs()[i].1.created && (self.subs()[i].1.queue.wf()
                ==> r.subs()[i].1.queue.wf()) by {
                assert(cloned::<Sub<T>>(self.subs()[i].1, r.subs()[i].1));
            }
        }
        r
    }
}

} // verus!
