//! The per-subscription slot queue: an ordered sequence of slots plus a FIFO
//! waker registry, with push / next / ack / nack and lease expiry.

use vstd::prelude::*;
use vstd::multiset::Multiset;
use vstd::pervasive::VecAdditionalExecFns;

use crate::error::{Error, Result};
use crate::ext::{fresh_lease_id, nanos_since, nanos_since_epoch};
use crate::lease::{Lease, LeaseTag};
use crate::slot::{clone_faithful, Slot};
use crate::waker::{register_one, Waker};

verus! {

/// The default lease TTL, in nanoseconds (ten seconds).
pub const DEFAULT_TTL: u64 = 10_000_000_000;

/// The capacity value that means "no bound configured".
pub const NO_CAPACITY: usize = 0;

/// The least index of an empty slot in `s`, or `s.len()` if every slot is
/// occupied.
pub open spec fn first_empty<T>(s: Seq<Slot<T>>) -> int
    decreases s.len(),
{
    if s.len() == 0 {
        0
    } else if s[0] is Empty {
        0
    } else {
        1 + first_empty(s.drop_first())
    }
}

/// What `first_empty` finds: an index within bounds, pointing at an empty slot
/// unless every slot is occupied, with no empty slot before it.
pub proof fn lemma_first_empty<T>(s: Seq<Slot<T>>)
    ensures
        0 <= first_empty(s) <= s.len(),
        first_empty(s) < s.len() ==> s[first_empty(s)] is Empty,
        forall|j: int| 0 <= j < first_empty(s) ==> !(#[trigger] s[j] is Empty),
    decreases s.len(),
{
    if s.len() > 0 && !(s[0] is Empty) {
        lemma_first_empty(s.drop_first());
        assert forall|j: int| 0 <= j < first_empty(s) implies !(#[trigger] s[j] is Empty) by {
            if j > 0 {
                assert(s.drop_first()[j - 1] == s[j]);
            }
        }
    }
}

/// True when a slot can be handed to the next `next()` at the monotonic
/// reading `now`: it is filled, or locked under a lease that has expired.
pub open spec fn deliverable<T>(slot: Slot<T>, now: u64) -> bool {
    slot is Filled || slot.is_expired_spec(now)
}

/// The least index of a deliverable slot in `s` at `now`, or `s.len()` if
/// there is none.
pub open spec fn first_deliverable<T>(s: Seq<Slot<T>>, now: u64) -> int
    decreases s.len(),
{
    if s.len() == 0 {
        0
    } else if deliverable(s[0], now) {
        0
    } else {
        1 + first_deliverable(s.drop_first(), now)
    }
}

/// What `first_deliverable` finds: an index within bounds, pointing at a
/// deliverable slot unless there is none, with no deliverable slot before it.
pub proof fn lemma_first_deliverable<T>(s: Seq<Slot<T>>, now: u64)
    ensures
        0 <= first_deliverable(s, now) <= s.len(),
        first_deliverable(s, now) < s.len() ==> deliverable(s[first_deliverable(s, now)], now),
        forall|j: int| 0 <= j < first_deliverable(s, now) ==> !deliverable(#[trigger] s[j], now),
    decreases s.len(),
{
    if s.len() > 0 && !deliverable(s[0], now) {
        lemma_first_deliverable(s.drop_first(), now);
        assert forall|j: int| 0 <= j < first_deliverable(s, now) implies !deliverable(
            #[trigger] s[j],
            now,
        ) by {
            if j > 0 {
                assert(s.drop_first()[j - 1] == s[j]);
            }
        }
    }
}

/// The slot sequence and result that one `push` of `msg` leaves behind, given
/// the configured bound `cap` (zero for unbounded): the first empty slot is
/// filled, a fresh slot is appended when none is empty and the bound allows,
/// and the push fails with `QueueFull` when the bound is exhausted.
pub open spec fn push_post<T>(
    pre: Seq<Slot<T>>,
    cap: usize,
    msg: T,
    post: Seq<Slot<T>>,
    r: Result<()>,
) -> bool {
    let i = first_empty(pre);
    if i < pre.len() {
        post == pre.update(i, Slot::Filled(msg)) && r == Ok::<(), Error>(())
    } else if cap == NO_CAPACITY || pre.len() < cap {
        post == pre.push(Slot::Filled(msg)) && r == Ok::<(), Error>(())
    } else {
        post == pre && r == Err::<(), Error>(Error::QueueFull)
    }
}

/// The result that one `push` into slots `pre` under bound `cap` has: it
/// fails with `QueueFull` exactly when no slot is empty and the bound is
/// exhausted. Together with `pre` and `cap` this determines the whole push
/// transition (see `push_post`).
pub open spec fn push_status<T>(pre: Seq<Slot<T>>, cap: usize) -> Result<()> {
    if first_empty(pre) < pre.len() || cap == NO_CAPACITY || pre.len() < cap {
        Ok(())
    } else {
        Err(Error::QueueFull)
    }
}

/// The slot sequence and result that one `next` leaves behind, at monotonic
/// reading `now`, wall-clock reading `wall`, with fresh lease identity `id`:
/// the earliest deliverable slot (an expired one is first returned to filled)
/// is locked under a fresh lease and its value is returned with its index.
/// The value stored in the lease is a clone of the delivered one; for types
/// whose clones are faithful the slot afterwards is exactly
/// `Locked(Lease { ttl, leased_at: now, id, inner: value })`.
pub open spec fn next_post<T: Clone>(
    pre: Seq<Slot<T>>,
    ttl: u64,
    now: u64,
    wall: u64,
    id: u64,
    post: Seq<Slot<T>>,
    r: Option<(LeaseTag, usize, T)>,
) -> bool {
    let i = first_deliverable(pre, now);
    if i == pre.len() {
        post == pre && r is None
    } else {
        let v = pre[i].value_of();
        &&& r == Some((LeaseTag::new_spec(id, ttl, wall), i as usize, v))
        &&& post.len() == pre.len()
        &&& forall|j: int| 0 <= j < pre.len() && j != i ==> post[j] == pre[j]
        &&& post[i] is Locked
        &&& post[i].lease_of().ttl == ttl
        &&& post[i].lease_of().leased_at == now
        &&& post[i].lease_of().id == id
        &&& cloned::<T>(v, post[i].lease_of().inner)
        &&& (clone_faithful::<T>() ==> post == pre.update(
            i,
            Slot::Locked(Lease { ttl, leased_at: now, id, inner: v }),
        ))
    }
}

/// The slot sequence and result that one `ack` of `(lease_id, index)` leaves
/// behind: the locked slot at `index` becomes empty when the lease matches,
/// and nothing changes on any error.
pub open spec fn ack_post<T: Clone>(
    pre: Seq<Slot<T>>,
    lease_id: u64,
    index: usize,
    post: Seq<Slot<T>>,
    r: Result<()>,
) -> bool {
    if index >= pre.len() {
        post == pre && r == Err::<(), Error>(Error::IndexOutOfRange)
    } else if !(pre[index as int] is Locked) {
        post == pre && r == Err::<(), Error>(Error::MustBeLocked)
    } else if pre[index as int].lease_of().id != lease_id {
        post == pre && r == Err::<(), Error>(Error::InvalidOrExpiredLease)
    } else {
        post == pre.update(index as int, Slot::Empty) && r == Ok::<(), Error>(())
    }
}

/// The result that one `ack` — or one `nack`, which checks the same
/// conditions — of `(lease_id, index)` against slots `pre` has. Together with
/// `pre` this determines the whole transition (see `ack_post`, `nack_post`).
pub open spec fn ack_status<T: Clone>(pre: Seq<Slot<T>>, lease_id: u64, index: usize) -> Result<
    (),
> {
    if index >= pre.len() {
        Err(Error::IndexOutOfRange)
    } else if !(pre[index as int] is Locked) {
        Err(Error::MustBeLocked)
    } else if pre[index as int].lease_of().id != lease_id {
        Err(Error::InvalidOrExpiredLease)
    } else {
        Ok(())
    }
}

/// The slot sequence and result that one `nack` of `(lease_id, index)` leaves
/// behind: the locked slot at `index` returns to filled with its original
/// value when the lease matches, and nothing changes on any error.
pub open spec fn nack_post<T: Clone>(
    pre: Seq<Slot<T>>,
    lease_id: u64,
    index: usize,
    post: Seq<Slot<T>>,
    r: Result<()>,
) -> bool {
    if index >= pre.len() {
        post == pre && r == Err::<(), Error>(Error::IndexOutOfRange)
    } else if !(pre[index as int] is Locked) {
        post == pre && r == Err::<(), Error>(Error::MustBeLocked)
    } else if pre[index as int].lease_of().id != lease_id {
        post == pre && r == Err::<(), Error>(Error::InvalidOrExpiredLease)
    } else {
        post == pre.update(index as int, Slot::Filled(pre[index as int].value_of())) && r == Ok::<
            (),
            Error,
        >(())
    }
}

/// The queue builder enables simple setting of various configuration options
/// on a [Queue] instance.
#[derive(Debug)]
pub struct QueueBuilder {
    message_cap: Option<usize>,
    subscription_cap: Option<usize>,
    ttl: Option<u64>,
}

impl Default for QueueBuilder {
    fn default() -> (r: Self)
        ensures
            r.message_cap_spec() is None,
            r.subscription_cap_spec() is None,
            r.ttl_spec() is None,
    {
        QueueBuilder { message_cap: None, subscription_cap: None, ttl: None }
    }
}

impl QueueBuilder {
    /// The configured message capacity, if any.
    pub closed spec fn message_cap_spec(&self) -> Option<usize> {
        self.message_cap
    }

    /// The configured subscription capacity, if any.
    pub closed spec fn subscription_cap_spec(&self) -> Option<usize> {
        self.subscription_cap
    }

    /// The configured lease TTL, if any.
    pub closed spec fn ttl_spec(&self) -> Option<u64> {
        self.ttl
    }

    /// Set the message capacity of the [Queue]: the queue is bounded at `cap`
    /// slots (zero leaves it unbounded).
    pub fn with_message_capacity(self, cap: usize) -> (r: Self)
        ensures
            r.message_cap_spec() == Some(cap),
            r.subscription_cap_spec() == self.subscription_cap_spec(),
            r.ttl_spec() == self.ttl_spec(),
    {
        QueueBuilder { message_cap: Some(cap), ..self }
    }

    /// Set the initial subscription capacity of the [Queue]'s waker registry.
    pub fn with_subscription_capacity(self, cap: usize) -> (r: Self)
        ensures
            r.subscription_cap_spec() == Some(cap),
            r.message_cap_spec() == self.message_cap_spec(),
            r.ttl_spec() == self.ttl_spec(),
    {
        QueueBuilder { subscription_cap: Some(cap), ..self }
    }

    /// Set the message ttl of the [Queue], in nanoseconds.
    pub fn with_ttl(self, ttl: u64) -> (r: Self)
        ensures
            r.ttl_spec() == Some(ttl),
            r.message_cap_spec() == self.message_cap_spec(),
            r.subscription_cap_spec() == self.subscription_cap_spec(),
    {
        QueueBuilder { ttl: Some(ttl), ..self }
    }

    /// Build the resulting [Queue].
    pub fn build<T>(self) -> (r: Queue<T>)
        ensures
            r.slots_view() == Seq::<Slot<T>>::empty(),
            r.waker_ids() == Seq::<u128>::empty(),
            r.ttl_spec() == self.ttl_spec().unwrap_or(DEFAULT_TTL),
            r.cap_spec() == self.message_cap_spec().unwrap_or(NO_CAPACITY),
            r.wf(),
    {
        Queue::build(self)
    }
}

/// A basic queue implementation: an ordered sequence of slots plus a FIFO
/// waker registry, internally keeping its own monotonic epoch for lease
/// expiry.
#[derive(Debug)]
pub struct Queue<T> {
    ttl: u64,
    cap: usize,
    slots: Vec<Slot<T>>,
    waker: Waker,
    epoch: std::time::Instant,
}

impl<T> Default for Queue<T> {
    /// A fresh unbounded queue with the default lease TTL.
    fn default() -> (r: Self)
        ensures
            r.slots_view() == Seq::<Slot<T>>::empty(),
            r.waker_ids() == Seq::<u128>::empty(),
            r.ttl_spec() == DEFAULT_TTL,
            r.cap_spec() == NO_CAPACITY,
            r.wf(),
    {
        Self::new()
    }
}

impl<T> Clone for Queue<T> where T: Clone {
    /// A clone is a snapshot: it starts from the same configuration and
    /// slots, measures time from the same epoch, and has a fresh waker
    /// registry — parked consumers stay with the queue they parked on.
    fn clone(&self) -> (r: Self)
        ensures
            r.ttl_spec() == self.ttl_spec(),
            r.cap_spec() == self.cap_spec(),
            r.slots_view().len() == self.slots_view().len(),
            forall|i: int|
                0 <= i < self.slots_view().len() ==> cloned::<Slot<T>>(
                    self.slots_view()[i],
                    #[trigger] r.slots_view()[i],
                ),
            clone_faithful::<T>() ==> r.slots_view() == self.slots_view(),
            r.waker_ids() == Seq::<u128>::empty(),
            self.wf() ==> r.wf(),
    {
        let r = Queue {
            ttl: self.ttl,
            cap: self.cap,
            slots: self.slots.clone(),
            waker: Waker::new(),
            epoch: self.epoch.clone(),
        };
        proof {
            if clone_faithful::<T>() {
                assert forall|i: int|
                    0 <= i < self.slots_view().len() implies r.slots_view()[i]
                    == self.slots_view()[i] by {
                    assert(cloned::<Slot<T>>(self.slots_view()[i], r.slots_view()[i]));
                }
                assert(r.slots_view() =~= self.slots_view());
            }
        }
        r
    }
}

impl<T> Queue<T> {
    /// The slots of this queue, in insertion order.
    pub closed spec fn slots_view(&self) -> Seq<Slot<T>> {
        self.slots@
    }

    /// The configured lease TTL, in nanoseconds.
    pub closed spec fn ttl_spec(&self) -> u64 {
        self.ttl
    }

    /// The configured bound on the number of slots (zero for unbounded).
    pub closed spec fn cap_spec(&self) -> usize {
        self.cap
    }

    /// The identities parked in the waker registry, oldest first.
    pub closed spec fn waker_ids(&self) -> Seq<u128> {
        self.waker.ids()
    }

    /// Well-formed: the waker registry holds each identity once, and a
    /// configured bound is respected by the slot sequence.
    pub closed spec fn wf(&self) -> bool {
        &&& self.waker.wf()
        &&& self.cap != NO_CAPACITY ==> self.slots@.len() <= self.cap
    }

    fn build(builder: QueueBuilder) -> (r: Self)
        ensures
            r.slots_view() == Seq::<Slot<T>>::empty(),
            r.waker_ids() == Seq::<u128>::empty(),
            r.ttl_spec() == builder.ttl_spec().unwrap_or(DEFAULT_TTL),
            r.cap_spec() == builder.message_cap_spec().unwrap_or(NO_CAPACITY),
            r.wf(),
    {
        let cap = match builder.message_cap {
            Some(cap) => cap,
            None => NO_CAPACITY,
        };
        let sub_cap = match builder.subscription_cap {
            Some(cap) => cap,
            None => NO_CAPACITY,
        };
        let ttl = match builder.ttl {
            Some(ttl) => ttl,
            None => DEFAULT_TTL,
        };
        Self {
            ttl,
            cap,
            slots: Vec::new(),
            waker: Waker::with_capacity(sub_cap),
            epoch: std::time::Instant::now(),
        }
    }

    /// Create a new builder to define the various options for the queue
    /// instance.
    pub fn builder() -> (r: QueueBuilder)
        ensures
            r.message_cap_spec() is None,
            r.subscription_cap_spec() is None,
            r.ttl_spec() is None,
    {
        QueueBuilder::default()
    }

    /// Create a new unbounded queue with no defined capacity and a default
    /// lease TTL of 10s.
    pub fn new() -> (r: Self)
        ensures
            r.slots_view() == Seq::<Slot<T>>::empty(),
            r.waker_ids() == Seq::<u128>::empty(),
            r.ttl_spec() == DEFAULT_TTL,
            r.cap_spec() == NO_CAPACITY,
            r.wf(),
    {
        Self {
            ttl: DEFAULT_TTL,
            cap: NO_CAPACITY,
            slots: Vec::new(),
            waker: Waker::new(),
            epoch: std::time::Instant::now(),
        }
    }

    /// Register the given identity/handle combination with this queue's waker
    /// registry, so that a later push can wake the parked consumer.
    pub fn register_task_waker(&mut self, id: u128, waker: std::task::Waker)
        requires
            old(self).wf(),
        ensures
            final(self).wf(),
            final(self).slots_view() == old(self).slots_view(),
            final(self).ttl_spec() == old(self).ttl_spec(),
            final(self).cap_spec() == old(self).cap_spec(),
            final(self).waker_ids() == register_one(old(self).waker_ids(), id),
    {
        self.waker.register(id, waker)
    }
}

impl<T> Queue<T> where T: Clone {
    /// Ack the given message index.
    pub fn ack(&mut self, lease_id: u64, index: usize) -> (r: Result<()>)
        requires
            old(self).wf(),
        ensures
            final(self).wf(),
            final(self).ttl_spec() == old(self).ttl_spec(),
            final(self).cap_spec() == old(self).cap_spec(),
            final(self).waker_ids() == old(self).waker_ids(),
            ack_post(old(self).slots_view(), lease_id, index, final(self).slots_view(), r),
    {
        if index >= self.slots.len() {
            return Err(Error::IndexOutOfRange);
        }
        let mut slot = Slot::Empty;
        self.slots.set_and_swap(index, &mut slot);
        let res = slot.ack(lease_id);
        self.slots.set_and_swap(index, &mut slot);
        proof {
            if res is Ok {
                assert(final(self).slots_view() =~= old(self).slots_view().update(
                    index as int,
                    Slot::Empty,
                ));
            } else {
                assert(final(self).slots_view() =~= old(self).slots_view());
            }
        }
        res
    }

    /// Nack the given message index.
    pub fn nack(&mut self, lease_id: u64, index: usize) -> (r: Result<()>)
        requires
            old(self).wf(),
        ensures
            final(self).wf(),
            final(self).ttl_spec() == old(self).ttl_spec(),
            final(self).cap_spec() == old(self).cap_spec(),
            final(self).waker_ids() == old(self).waker_ids(),
            nack_post(old(self).slots_view(), lease_id, index, final(self).slots_view(), r),
    {
        if index >= self.slots.len() {
            return Err(Error::IndexOutOfRange);
        }
        let mut slot = Slot::Empty;
        self.slots.set_and_swap(index, &mut slot);
        let res = slot.nack(lease_id);
        self.slots.set_and_swap(index, &mut slot);
        proof {
            if res is Ok {
                assert(final(self).slots_view() =~= old(self).slots_view().update(
                    index as int,
                    Slot::Filled(old(self).slots_view()[index as int].value_of()),
                ));
            } else {
                assert(final(self).slots_view() =~= old(self).slots_view());
            }
        }
        res
    }

    /// Push a new message into the queue: fill the first empty slot, or append
    /// a new slot when none is empty and the configured bound allows. On
    /// success, wake the oldest registered consumer.
    pub fn push(&mut self, msg: T) -> (r: Result<()>)
        requires
            old(self).wf(),
        ensures
            final(self).wf(),
            final(self).ttl_spec() == old(self).ttl_spec(),
            final(self).cap_spec() == old(self).cap_spec(),
            push_post(old(self).slots_view(), old(self).cap_spec(), msg, final(self).slots_view(), r),
            r is Ok ==> final(self).waker_ids() == if old(self).waker_ids().len() == 0 {
                old(self).waker_ids()
            } else {
                old(self).waker_ids().drop_first()
            },
            r is Err ==> final(self).waker_ids() == old(self).waker_ids(),
    {
        proof {
            lemma_first_empty(self.slots@);
        }
        let ghost pre = self.slots@;
        let n = self.slots.len();
        let mut i: usize = 0;
        let mut found: bool = false;
        while i < n && !found
            invariant
                n == self.slots@.len(),
                0 <= i <= n,
                forall|j: int| 0 <= j < i ==> !(#[trigger] self.slots@[j] is Empty),
                found ==> i < n && self.slots@[i as int] is Empty,
            decreases n - i + (if found { 0int } else { 1int }),
        {
            if self.slots[i].is_empty() {
                found = true;
            } else {
                i += 1;
            }
        }
        if !found {
            proof {
                assert(first_empty(pre) == pre.len()) by {
                    lemma_first_empty(pre);
                    if first_empty(pre) < pre.len() {
                        assert(pre[first_empty(pre)] is Empty);
                    }
                }
            }
            if self.cap != NO_CAPACITY && n >= self.cap {
                return Err(Error::QueueFull);
            }
            self.slots.push(Slot::Filled(msg));
        } else {
            proof {
                assert(first_empty(pre) == i as int) by {
                    lemma_first_empty(pre);
                    let fe = first_empty(pre);
                    if fe < i as int {
                        assert(pre[fe] is Empty);
                    }
                    if fe > i as int {
                        assert(!(pre[i as int] is Empty));
                    }
                }
            }
            self.slots.set(i, Slot::Filled(msg));
        }
        self.waker.wake();
        Ok(())
    }

    /// Get the next available message from the front of the queue at the
    /// monotonic reading `now`, minting a lease with identity `id` whose tag
    /// advertises the wall-clock reading `wall_now`. The earliest filled or
    /// expired slot is selected; an expired one is first returned to filled
    /// (redelivery) and then locked anew.
    pub fn next_at(&mut self, now: u64, wall_now: u64, id: u64) -> (r: Option<
        (LeaseTag, usize, T),
    >)
        requires
            old(self).wf(),
        ensures
            final(self).wf(),
            final(self).ttl_spec() == old(self).ttl_spec(),
            final(self).cap_spec() == old(self).cap_spec(),
            final(self).waker_ids() == old(self).waker_ids(),
            next_post(
                old(self).slots_view(),
                old(self).ttl_spec(),
                now,
                wall_now,
                id,
                final(self).slots_view(),
                r,
            ),
    {
        proof {
            lemma_first_deliverable(self.slots@, now);
        }
        let ghost pre = self.slots@;
        let n = self.slots.len();
        let mut i: usize = 0;
        let mut found: bool = false;
        while i < n && !found
            invariant
                n == self.slots@.len(),
                0 <= i <= n,
                forall|j: int| 0 <= j < i ==> !deliverable(#[trigger] self.slots@[j], now),
                found ==> i < n && deliverable(self.slots@[i as int], now),
            decreases n - i + (if found { 0int } else { 1int }),
        {
            if self.slots[i].is_filled() || self.slots[i].is_expired(now) {
                found = true;
            } else {
                i += 1;
            }
        }
        if !found {
            proof {
                assert(first_deliverable(pre, now) == pre.len()) by {
                    lemma_first_deliverable(pre, now);
                    if first_deliverable(pre, now) < pre.len() {
                        assert(deliverable(pre[first_deliverable(pre, now)], now));
                    }
                }
            }
            return None;
        }
        proof {
            assert(first_deliverable(pre, now) == i as int) by {
                lemma_first_deliverable(pre, now);
                let fd = first_deliverable(pre, now);
                if fd < i as int {
                    assert(deliverable(pre[fd], now));
                }
                if fd > i as int {
                    assert(!deliverable(pre[i as int], now));
                }
            }
        }
        let mut slot = Slot::Empty;
        self.slots.set_and_swap(i, &mut slot);
        if slot.is_expired(now) {
            let promoted = slot.expired(now);
            proof {
                assert(promoted == Ok::<bool, Error>(true));
            }
        }
        let res = slot.lock(self.ttl, now, id);
        self.slots.set_and_swap(i, &mut slot);
        proof {
            assert(self.slots@ =~= pre.update(i as int, self.slots@[i as int]));
        }
        match res {
            Ok((lease_id, value)) => {
                let tag = LeaseTag::new(lease_id, self.ttl, wall_now);
                Some((tag, i, value))
            },
            Err(_) => None,
        }
    }

    /// Get the next available message from the front of the queue, reading the
    /// clocks and drawing a fresh lease identity. The slot sequence before and
    /// after, and the result, are one `next` transition for the readings and
    /// identity that came back.
    pub fn next(&mut self) -> (r: Option<(LeaseTag, usize, T)>)
        requires
            old(self).wf(),
        ensures
            final(self).wf(),
            final(self).ttl_spec() == old(self).ttl_spec(),
            final(self).cap_spec() == old(self).cap_spec(),
            final(self).waker_ids() == old(self).waker_ids(),
            exists|now: u64, wall: u64, id: u64|
                next_post(
                    old(self).slots_view(),
                    old(self).ttl_spec(),
                    now,
                    wall,
                    id,
                    final(self).slots_view(),
                    r,
                ),
    {
        let now = nanos_since(&self.epoch);
        let wall_now = nanos_since_epoch(std::time::SystemTime::now());
        let id = fresh_lease_id();
        self.next_at(now, wall_now, id)
    }
}

/// The index `i` is the first empty slot of `s` when it is in bounds, empty,
/// and nothing before it is empty (or `i == s.len()` and nothing is empty).
pub proof fn lemma_first_empty_is<T>(s: Seq<Slot<T>>, i: int)
    requires
        0 <= i <= s.len(),
        i < s.len() ==> s[i] is Empty,
        forall|j: int| 0 <= j < i ==> !(#[trigger] s[j] is Empty),
    ensures
        first_empty(s) == i,
{
    lemma_first_empty(s);
    let fe = first_empty(s);
    if fe < i {
        assert(s[fe] is Empty);
    }
    if fe > i {
        assert(!(s[i] is Empty));
    }
}

/// The index `i` is the first deliverable slot of `s` at `now` when it is in
/// bounds, deliverable, and nothing before it is deliverable (or `i ==
/// s.len()` and nothing is deliverable).
pub proof fn lemma_first_deliverable_is<T>(s: Seq<Slot<T>>, now: u64, i: int)
    requires
        0 <= i <= s.len(),
        i < s.len() ==> deliverable(s[i], now),
        forall|j: int| 0 <= j < i ==> !deliverable(#[trigger] s[j], now),
    ensures
        first_deliverable(s, now) == i,
{
    lemma_first_deliverable(s, now);
    let fd = first_deliverable(s, now);
    if fd < i {
        assert(deliverable(s[fd], now));
    }
    if fd > i {
        assert(!deliverable(s[i], now));
    }
}

/// A lease with TTL zero expires immediately: the locked slot is deliverable
/// (redeliverable) at every monotonic reading from its lease start on, so the
/// next `next()` observation redelivers it.
pub proof fn lemma_zero_ttl_expires<T>(s: Seq<Slot<T>>, i: int, now: u64)
    requires
        0 <= i < s.len(),
        s[i] is Locked,
        s[i].lease_of().ttl == 0,
        now >= s[i].lease_of().leased_at,
    ensures
        s[i].is_expired_spec(now),
        deliverable(s[i], now),
{
}

/// Pushing into an unbounded queue whose slot sequence has no empty slot
/// succeeds and grows the sequence by exactly one, with the message in the
/// fresh last slot.
pub proof fn lemma_push_grows<T>(
    pre: Seq<Slot<T>>,
    msg: T,
    post: Seq<Slot<T>>,
    r: Result<()>,
)
    requires
        forall|j: int| 0 <= j < pre.len() ==> !(#[trigger] pre[j] is Empty),
        push_post(pre, NO_CAPACITY, msg, post, r),
    ensures
        r == Ok::<(), Error>(()),
        post.len() == pre.len() + 1,
        post == pre.push(Slot::Filled(msg)),
{
    lemma_first_empty_is(pre, pre.len() as int);
}

/// A bounded queue at capacity rejects a push with `QueueFull` and keeps its
/// state; after any successful ack the freed slot is reused by the next push,
/// which succeeds without growing the sequence.
pub proof fn lemma_bounded_full_then_ack_reuses<T: Clone>(
    pre: Seq<Slot<T>>,
    cap: usize,
    msg: T,
    post_full: Seq<Slot<T>>,
    r_full: Result<()>,
    lease_id: u64,
    index: usize,
    freed: Seq<Slot<T>>,
    r_ack: Result<()>,
    msg2: T,
    post_push: Seq<Slot<T>>,
    r_push: Result<()>,
)
    requires
        cap != NO_CAPACITY,
        pre.len() == cap,
        forall|j: int| 0 <= j < pre.len() ==> !(#[trigger] pre[j] is Empty),
        push_post(pre, cap, msg, post_full, r_full),
        ack_post(pre, lease_id, index, freed, r_ack),
        r_ack == Ok::<(), Error>(()),
        push_post(freed, cap, msg2, post_push, r_push),
    ensures
        r_full == Err::<(), Error>(Error::QueueFull),
        post_full == pre,
        r_push == Ok::<(), Error>(()),
        post_push.len() == pre.len(),
        post_push[index as int] is Filled,
{
    lemma_first_empty_is(pre, pre.len() as int);
    lemma_first_empty(freed);
    let fe = first_empty(freed);
    assert(freed[index as int] is Empty);
    assert(fe <= index < freed.len());
}

/// An acknowledgement is final: after a successful `ack` of `(lease_id,
/// index)` the slot is empty, so a repeated `ack` or a `nack` of the same
/// lease and index fails with `MustBeLocked` and changes nothing.
pub proof fn lemma_ack_is_final<T: Clone>(
    pre: Seq<Slot<T>>,
    lease_id: u64,
    index: usize,
    mid: Seq<Slot<T>>,
    r1: Result<()>,
    post_ack: Seq<Slot<T>>,
    r_ack: Result<()>,
    post_nack: Seq<Slot<T>>,
    r_nack: Result<()>,
)
    requires
        ack_post(pre, lease_id, index, mid, r1),
        r1 == Ok::<(), Error>(()),
        ack_post(mid, lease_id, index, post_ack, r_ack),
        nack_post(mid, lease_id, index, post_nack, r_nack),
    ensures
        r_ack == Err::<(), Error>(Error::MustBeLocked),
        post_ack == mid,
        r_nack == Err::<(), Error>(Error::MustBeLocked),
        post_nack == mid,
{
}

/// Nack redelivery: when `next` hands out `(tag, i, v)`, an immediate nack of
/// `(tag.id, i)` succeeds, and the next `next` at the same reading redelivers
/// the same value at the same index under a fresh lease identity.
pub proof fn lemma_nack_redelivery<T: Clone>(
    s0: Seq<Slot<T>>,
    ttl: u64,
    now: u64,
    wall1: u64,
    id1: u64,
    s1: Seq<Slot<T>>,
    tag1: LeaseTag,
    i: usize,
    v: T,
    s2: Seq<Slot<T>>,
    r_nack: Result<()>,
    wall2: u64,
    id2: u64,
    s3: Seq<Slot<T>>,
    r2: Option<(LeaseTag, usize, T)>,
)
    requires
        clone_faithful::<T>(),
        s0.len() <= usize::MAX,
        next_post(s0, ttl, now, wall1, id1, s1, Some((tag1, i, v))),
        nack_post(s1, tag1.id, i, s2, r_nack),
        next_post(s2, ttl, now, wall2, id2, s3, r2),
        id2 != id1,
    ensures
        r_nack == Ok::<(), Error>(()),
        r2 == Some((LeaseTag::new_spec(id2, ttl, wall2), i, v)),
        r2.unwrap().0.id != tag1.id,
{
    lemma_first_deliverable(s0, now);
    let fd = first_deliverable(s0, now);
    assert(fd < s0.len());
    assert(i as int == fd);
    assert(tag1.id == id1);
    assert(s1[i as int].lease_of().id == id1);
    assert(s2 == s1.update(i as int, Slot::Filled(s1[i as int].value_of())));
    assert(s2[i as int] == Slot::Filled(v));
    lemma_first_deliverable_is(s2, now, i as int);
}

/// Expiry redelivery: when `next` hands out `(tag, i, v)` from a queue whose
/// earlier slots are all empty, a later `next` at a reading past the lease
/// deadline redelivers the same value at the same index under a fresh lease
/// identity.
pub proof fn lemma_expiry_redelivery<T: Clone>(
    s0: Seq<Slot<T>>,
    ttl: u64,
    now1: u64,
    wall1: u64,
    id1: u64,
    s1: Seq<Slot<T>>,
    tag1: LeaseTag,
    i: usize,
    v: T,
    now2: u64,
    wall2: u64,
    id2: u64,
    s2: Seq<Slot<T>>,
    r2: Option<(LeaseTag, usize, T)>,
)
    requires
        clone_faithful::<T>(),
        s0.len() <= usize::MAX,
        next_post(s0, ttl, now1, wall1, id1, s1, Some((tag1, i, v))),
        forall|j: int| 0 <= j < i ==> #[trigger] s0[j] is Empty,
        now2 >= now1 + ttl,
        id2 != id1,
        next_post(s1, ttl, now2, wall2, id2, s2, r2),
    ensures
        r2 == Some((LeaseTag::new_spec(id2, ttl, wall2), i, v)),
        r2.unwrap().0.id != tag1.id,
{
    lemma_first_deliverable(s0, now1);
    let fd = first_deliverable(s0, now1);
    assert(fd < s0.len());
    assert(i as int == fd);
    assert(s1[i as int] is Locked);
    assert(s1[i as int].lease_of().leased_at == now1);
    assert(s1[i as int].lease_of().ttl == ttl);
    assert(s1[i as int].is_expired_spec(now2));
    assert(deliverable(s1[i as int], now2));
    assert(s1[i as int].value_of() == v);
    lemma_first_deliverable_is(s1, now2, i as int);
}

/// Round trip: pushing into an otherwise empty queue, taking the message with
/// `next`, acking it, and asking again yields nothing: the queue is drained.
pub proof fn lemma_push_next_ack_next<T: Clone>(
    s0: Seq<Slot<T>>,
    cap: usize,
    m: T,
    s1: Seq<Slot<T>>,
    r_push: Result<()>,
    ttl: u64,
    now: u64,
    wall: u64,
    id: u64,
    s2: Seq<Slot<T>>,
    tag: LeaseTag,
    i: usize,
    v: T,
    s3: Seq<Slot<T>>,
    r_ack: Result<()>,
    now2: u64,
    wall2: u64,
    id2: u64,
    s4: Seq<Slot<T>>,
    r_next2: Option<(LeaseTag, usize, T)>,
)
    requires
        clone_faithful::<T>(),
        s0.len() < usize::MAX,
        forall|j: int| 0 <= j < s0.len() ==> #[trigger] s0[j] is Empty,
        push_post(s0, cap, m, s1, r_push),
        cap == NO_CAPACITY || cap > 0,
        next_post(s1, ttl, now, wall, id, s2, Some((tag, i, v))),
        ack_post(s2, tag.id, i, s3, r_ack),
        next_post(s3, ttl, now2, wall2, id2, s4, r_next2),
    ensures
        r_push == Ok::<(), Error>(()),
        v == m,
        r_ack == Ok::<(), Error>(()),
        r_next2 is None,
        s4 == s3,
{
    lemma_first_empty(s0);
    let fe = first_empty(s0);
    assert(r_push == Ok::<(), Error>(()));
    assert(forall|j: int|
        0 <= j < s1.len() && j != fe ==> #[trigger] s1[j] is Empty);
    assert(s1[fe] == Slot::Filled(m));
    lemma_first_deliverable_is(s1, now, fe);
    assert(i as int == fe && v == m);
    assert(tag.id == id);
    assert(s2[fe].lease_of().id == id);
    assert(s3 == s2.update(fe, Slot::<T>::Empty));
    assert(forall|j: int| 0 <= j < s3.len() ==> #[trigger] s3[j] is Empty);
    lemma_first_deliverable_is(s3, now2, s3.len() as int);
}

/// The multiset of the values in a sequence.
pub open spec fn multiset_of<T>(ms: Seq<T>) -> Multiset<T>
    decreases ms.len(),
{
    if ms.len() == 0 {
        Multiset::empty()
    } else {
        multiset_of(ms.drop_first()).insert(ms[0])
    }
}

/// The backlog of a slot sequence: the multiset of values waiting in filled
/// slots.
pub open spec fn backlog<T>(s: Seq<Slot<T>>) -> Multiset<T>
    decreases s.len(),
{
    if s.len() == 0 {
        Multiset::empty()
    } else if s[0] is Filled {
        backlog(s.drop_first()).insert(s[0].value_of())
    } else {
        backlog(s.drop_first())
    }
}

/// True when no slot of `s` is locked.
pub open spec fn no_locked<T>(s: Seq<Slot<T>>) -> bool {
    forall|j: int| 0 <= j < s.len() ==> !(#[trigger] s[j] is Locked)
}

/// The slot sequence after one successful unbounded push of `m`.
pub open spec fn push_result<T>(s: Seq<Slot<T>>, m: T) -> Seq<Slot<T>> {
    let i = first_empty(s);
    if i < s.len() {
        s.update(i, Slot::Filled(m))
    } else {
        s.push(Slot::Filled(m))
    }
}

/// The slot sequence after successively pushing each message of `ms` into an
/// unbounded queue.
pub open spec fn push_all<T>(s: Seq<Slot<T>>, ms: Seq<T>) -> Seq<Slot<T>>
    decreases ms.len(),
{
    if ms.len() == 0 {
        s
    } else {
        push_all(push_result(s, ms[0]), ms.drop_first())
    }
}

/// An unbounded push always succeeds and leaves `push_result`.
pub proof fn lemma_push_post_unbounded<T>(
    pre: Seq<Slot<T>>,
    msg: T,
    post: Seq<Slot<T>>,
    r: Result<()>,
)
    requires
        push_post(pre, NO_CAPACITY, msg, post, r),
    ensures
        r == Ok::<(), Error>(()),
        post == push_result(pre, msg),
{
}

/// One `next` with an immediate `ack` of the returned lease realises one drain
/// step: the first deliverable slot goes to empty and its value is handed out.
pub proof fn lemma_next_ack_is_drain_step<T: Clone>(
    s0: Seq<Slot<T>>,
    ttl: u64,
    now: u64,
    wall: u64,
    id: u64,
    s1: Seq<Slot<T>>,
    tag: LeaseTag,
    i: usize,
    v: T,
    s2: Seq<Slot<T>>,
    r_ack: Result<()>,
)
    requires
        clone_faithful::<T>(),
        s0.len() <= usize::MAX,
        next_post(s0, ttl, now, wall, id, s1, Some((tag, i, v))),
        ack_post(s1, tag.id, i, s2, r_ack),
    ensures
        r_ack == Ok::<(), Error>(()),
        i as int == first_deliverable(s0, now),
        v == s0[i as int].value_of(),
        s2 == s0.update(i as int, Slot::<T>::Empty),
{
    lemma_first_deliverable(s0, now);
    let fd = first_deliverable(s0, now);
    assert(fd < s0.len());
    assert(s1 == s0.update(fd, Slot::Locked(Lease { ttl, leased_at: now, id, inner: v })));
    assert(s2 =~= s0.update(fd, Slot::<T>::Empty));
}

/// The multiset of values handed out by `k` drain steps (each one `next` with
/// an immediate `ack`) at the monotonic reading `now`.
pub open spec fn drained<T: Clone>(s: Seq<Slot<T>>, now: u64, k: nat) -> Multiset<T>
    decreases k,
{
    if k == 0 {
        Multiset::empty()
    } else {
        let i = first_deliverable(s, now);
        if i == s.len() {
            Multiset::empty()
        } else {
            drained(s.update(i, Slot::Empty), now, (k - 1) as nat).insert(s[i].value_of())
        }
    }
}

/// The number of deliverable slots in `s` at `now`.
pub open spec fn num_deliverable<T>(s: Seq<Slot<T>>, now: u64) -> nat
    decreases s.len(),
{
    if s.len() == 0 {
        0
    } else if deliverable(s[0], now) {
        1 + num_deliverable(s.drop_first(), now)
    } else {
        num_deliverable(s.drop_first(), now)
    }
}

/// There is no deliverable slot exactly when the deliverable count is zero.
proof fn lemma_num_deliverable_zero<T>(s: Seq<Slot<T>>, now: u64)
    ensures
        (num_deliverable(s, now) == 0) <==> (first_deliverable(s, now) == s.len()),
    decreases s.len(),
{
    if s.len() > 0 {
        lemma_num_deliverable_zero(s.drop_first(), now);
        lemma_first_deliverable(s.drop_first(), now);
    }
}

/// Emptying a deliverable slot decreases the deliverable count by one.
proof fn lemma_num_deliverable_update_empty<T>(s: Seq<Slot<T>>, now: u64, i: int)
    requires
        0 <= i < s.len(),
        deliverable(s[i], now),
    ensures
        num_deliverable(s.update(i, Slot::Empty), now) + 1 == num_deliverable(s, now),
    decreases s.len(),
{
    let upd = s.update(i, Slot::<T>::Empty);
    if i == 0 {
        assert(upd.drop_first() =~= s.drop_first());
        assert(!deliverable(upd[0], now));
    } else {
        assert(upd[0] == s[0]);
        assert(upd.drop_first() =~= s.drop_first().update(i - 1, Slot::<T>::Empty));
        lemma_num_deliverable_update_empty(s.drop_first(), now, i - 1);
    }
}

/// Filling an empty slot adds the message to the backlog.
proof fn lemma_backlog_fill<T>(s: Seq<Slot<T>>, i: int, m: T)
    requires
        0 <= i < s.len(),
        s[i] is Empty,
    ensures
        backlog(s.update(i, Slot::Filled(m))) =~= backlog(s).insert(m),
    decreases s.len(),
{
    broadcast use vstd::multiset::group_multiset_axioms;

    let upd = s.update(i, Slot::Filled(m));
    if i == 0 {
        assert(upd.drop_first() =~= s.drop_first());
    } else {
        assert(upd[0] == s[0]);
        assert(upd.drop_first() =~= s.drop_first().update(i - 1, Slot::Filled(m)));
        lemma_backlog_fill(s.drop_first(), i - 1, m);
        if s[0] is Filled {
            assert(backlog(upd) == backlog(s.drop_first()).insert(m).insert(s[0].value_of()));
            assert(backlog(s.drop_first()).insert(m).insert(s[0].value_of()) =~= backlog(
                s.drop_first(),
            ).insert(s[0].value_of()).insert(m));
        }
    }
}

/// Appending a filled slot adds the message to the backlog.
proof fn lemma_backlog_append<T>(s: Seq<Slot<T>>, m: T)
    ensures
        backlog(s.push(Slot::Filled(m))) =~= backlog(s).insert(m),
    decreases s.len(),
{
    broadcast use vstd::multiset::group_multiset_axioms;

    let app = s.push(Slot::Filled(m));
    if s.len() == 0 {
        assert(app.drop_first() =~= Seq::<Slot<T>>::empty());
        assert(app[0] == Slot::Filled(m));
        assert(backlog(Seq::<Slot<T>>::empty()) =~= Multiset::<T>::empty());
        assert(backlog(app) =~= Multiset::<T>::empty().insert(m));
    } else {
        assert(app[0] == s[0]);
        assert(app.drop_first() =~= s.drop_first().push(Slot::Filled(m)));
        lemma_backlog_append(s.drop_first(), m);
        if s[0] is Filled {
            assert(backlog(app) == backlog(s.drop_first()).insert(m).insert(s[0].value_of()));
            assert(backlog(s.drop_first()).insert(m).insert(s[0].value_of()) =~= backlog(
                s.drop_first(),
            ).insert(s[0].value_of()).insert(m));
        }
    }
}

/// Emptying a filled slot removes exactly its value from the backlog.
proof fn lemma_backlog_clear<T>(s: Seq<Slot<T>>, i: int)
    requires
        0 <= i < s.len(),
        s[i] is Filled,
    ensures
        backlog(s) =~= backlog(s.update(i, Slot::Empty)).insert(s[i].value_of()),
    decreases s.len(),
{
    broadcast use vstd::multiset::group_multiset_axioms;

    let upd = s.update(i, Slot::<T>::Empty);
    if i == 0 {
        assert(upd.drop_first() =~= s.drop_first());
    } else {
        assert(upd[0] == s[0]);
        assert(upd.drop_first() =~= s.drop_first().update(i - 1, Slot::<T>::Empty));
        lemma_backlog_clear(s.drop_first(), i - 1);
        if s[0] is Filled {
            assert(backlog(s.drop_first()) =~= backlog(upd.drop_first()).insert(
                s[i].value_of(),
            ));
            assert(backlog(upd.drop_first()).insert(s[i].value_of()).insert(s[0].value_of()) =~=
                backlog(upd.drop_first()).insert(s[0].value_of()).insert(s[i].value_of()));
        }
    }
}

/// A slot sequence without filled slots has an empty backlog.
proof fn lemma_backlog_no_filled<T>(s: Seq<Slot<T>>)
    requires
        forall|j: int| 0 <= j < s.len() ==> !(#[trigger] s[j] is Filled),
    ensures
        backlog(s) =~= Multiset::<T>::empty(),
    decreases s.len(),
{
    if s.len() > 0 {
        assert(s.drop_first() =~= s.subrange(1, s.len() as int));
        assert(forall|j: int|
            0 <= j < s.drop_first().len() ==> !(#[trigger] s.drop_first()[j] is Filled)) by {
            assert(forall|j: int|
                0 <= j < s.drop_first().len() ==> s.drop_first()[j] == s[j + 1]);
        }
        lemma_backlog_no_filled(s.drop_first());
    }
}

/// Unbounded pushes accumulate the pushed values in the backlog and lock
/// nothing.
proof fn lemma_backlog_push_all<T>(s: Seq<Slot<T>>, ms: Seq<T>)
    requires
        no_locked(s),
    ensures
        backlog(push_all(s, ms)) =~= backlog(s).add(multiset_of(ms)),
        no_locked(push_all(s, ms)),
    decreases ms.len(),
{
    broadcast use vstd::multiset::group_multiset_axioms;

    if ms.len() == 0 {
        assert(backlog(s).add(multiset_of(ms)) =~= backlog(s));
    } else {
        let s1 = push_result(s, ms[0]);
        lemma_first_empty(s);
        let fe = first_empty(s);
        if fe < s.len() {
            lemma_backlog_fill(s, fe, ms[0]);
        } else {
            lemma_backlog_append(s, ms[0]);
        }
        assert(no_locked(s1)) by {
            if fe < s.len() {
                assert(forall|j: int|
                    0 <= j < s1.len() && j != fe ==> s1[j] == s[j]);
            } else {
                assert(forall|j: int| 0 <= j < s.len() ==> s1[j] == s[j]);
            }
        }
        lemma_backlog_push_all(s1, ms.drop_first());
        assert(backlog(push_all(s, ms)) =~= backlog(s).insert(ms[0]).add(
            multiset_of(ms.drop_first()),
        ));
        assert(backlog(s).insert(ms[0]).add(multiset_of(ms.drop_first())) =~= backlog(s).add(
            multiset_of(ms),
        ));
    }
}

/// Draining a queue without locked slots with enough steps hands out exactly
/// the backlog.
proof fn lemma_drained_eq_backlog<T: Clone>(s: Seq<Slot<T>>, now: u64, k: nat)
    requires
        no_locked(s),
        k >= num_deliverable(s, now),
    ensures
        drained(s, now, k) =~= backlog(s),
    decreases k,
{
    broadcast use vstd::multiset::group_multiset_axioms;

    lemma_num_deliverable_zero(s, now);
    lemma_first_deliverable(s, now);
    let i = first_deliverable(s, now);
    if k == 0 || i == s.len() {
        assert(num_deliverable(s, now) == 0);
        assert(forall|j: int| 0 <= j < s.len() ==> !deliverable(#[trigger] s[j], now));
        assert(forall|j: int| 0 <= j < s.len() ==> !(#[trigger] s[j] is Filled));
        lemma_backlog_no_filled(s);
    } else {
        assert(deliverable(s[i], now));
        assert(s[i] is Filled);
        let upd = s.update(i, Slot::<T>::Empty);
        assert(no_locked(upd)) by {
            assert(forall|j: int| 0 <= j < upd.len() && j != i ==> upd[j] == s[j]);
        }
        lemma_num_deliverable_update_empty(s, now, i);
        lemma_drained_eq_backlog(upd, now, (k - 1) as nat);
        lemma_backlog_clear(s, i);
    }
}

/// No loss, no duplication under ack-only: pushing the messages `ms` into an
/// initially all-empty unbounded queue and then performing enough `next` calls
/// with an immediate `ack` of each returned lease hands out exactly the
/// multiset of the pushed values.
pub proof fn lemma_push_drain_round_trip<T: Clone>(s0: Seq<Slot<T>>, ms: Seq<T>, now: u64, k: nat)
    requires
        forall|j: int| 0 <= j < s0.len() ==> #[trigger] s0[j] is Empty,
        k >= num_deliverable(push_all(s0, ms), now),
    ensures
        drained(push_all(s0, ms), now, k) =~= multiset_of(ms),
{
    broadcast use vstd::multiset::group_multiset_axioms;

    assert(no_locked(s0));
    lemma_backlog_push_all(s0, ms);
    lemma_backlog_no_filled(s0);
    lemma_drained_eq_backlog(push_all(s0, ms), now, k);
    assert(Multiset::<T>::empty().add(multiset_of(ms)) =~= multiset_of(ms));
}

} // verus!
