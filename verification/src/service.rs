//! The service layer: translates each request into exactly one core
//! operation and one typed failure.

use vstd::prelude::*;

use crate::error::Error;
use crate::lease::LeaseTag;
use crate::ext::{fresh_consumer_id, nanos_since_epoch};
use crate::message::{Confirmation, LeaseRef, LeasedMessage, Message, SubscriptionInfo, TopicInfo};
use crate::names::{has_name, index_of_name};
use crate::queue::{ack_post, ack_status, nack_post, next_post};
use crate::registry::Registry;
use crate::sub::Sub;
use crate::topic::{all_pushable, fanout_at, Topic};
use crate::waker::register_one;

verus! {

/// The status code that a service failure carries to the wire.
#[derive(Debug, Clone, Copy, PartialEq, Eq, Structural)]
pub enum Code {
    /// The request was malformed.
    InvalidArgument,
    /// The named topic or subscription does not exist.
    NotFound,
    /// A core operation failed.
    Internal,
    /// The operation is not implemented.
    Unimplemented,
}

/// A typed service failure: a status code plus a human-readable description.
#[derive(Debug)]
pub struct ServiceError {
    /// The status code.
    pub code: Code,
    /// The human-readable description.
    pub message: String,
}

impl ServiceError {
    /// The status code of this failure.
    pub fn code(&self) -> (r: Code)
        ensures
            r == self.code,
    {
        self.code
    }

    /// The human-readable description of this failure.
    pub fn message(&self) -> (r: &str)
        ensures
            r@ == self.message@,
    {
        self.message.as_str()
    }
}

/// The description of a miss on a topic name.
pub open spec fn topic_not_found_msg(topic: Seq<char>) -> Seq<char> {
    "the supplied topic '"@ + topic + "' does not exist"@
}

/// Create and return a topic not found error.
pub fn topic_not_found(topic: &str) -> (r: ServiceError)
    ensures
        r.code == Code::NotFound,
        r.message@ == topic_not_found_msg(topic@),
{
    let mut m = String::from_str("the supplied topic '");
    m.append(topic);
    m.append("' does not exist");
    ServiceError { code: Code::NotFound, message: m }
}

/// The description of a miss on a subscription name.
pub open spec fn sub_not_found_msg(subscription: Seq<char>, topic: Seq<char>) -> Seq<char> {
    "the supplied subscription '"@ + subscription + "' is not assoicated with the given topic '"@
        + topic + "'"@
}

/// Create and return a subscription not found error.
pub fn sub_not_found(subscription: &str, topic: &str) -> (r: ServiceError)
    ensures
        r.code == Code::NotFound,
        r.message@ == sub_not_found_msg(subscription@, topic@),
{
    let mut m = String::from_str("the supplied subscription '");
    m.append(subscription);
    m.append("' is not assoicated with the given topic '");
    m.append(topic);
    m.append("'");
    ServiceError { code: Code::NotFound, message: m }
}

/// The description of a failed core operation.
pub open spec fn internal_msg(err: Error) -> Seq<char> {
    "queue is full or otherwise invalid: "@ + err.message_spec()
}

/// Create and return an internal error wrapping a core failure.
fn internal_error(err: Error) -> (r: ServiceError)
    ensures
        r.code == Code::Internal,
        r.message@ == internal_msg(err),
{
    let mut m = String::from_str("queue is full or otherwise invalid: ");
    let detail = err.message();
    m.append(detail.as_str());
    ServiceError { code: Code::Internal, message: m }
}

/// Create and return an unimplemented error.
fn unimplemented_error() -> (r: ServiceError)
    ensures
        r.code == Code::Unimplemented,
        r.message@ == "update is not implemented"@,
{
    ServiceError { code: Code::Unimplemented, message: String::from_str("update is not implemented") }
}

/// A handle for one subscribe stream: the addressed subscription plus this
/// consumer's stable identity, so that repeated parks replace the prior wake
/// handle rather than occupying several FIFO slots.
#[derive(Debug)]
pub struct SubscribeHandle {
    /// The topic subscribed to.
    pub topic: String,
    /// The subscription consumed.
    pub subscription: String,
    /// This consumer's stable identity.
    pub id: u128,
}

/// What one poll of a subscribe stream yields.
#[derive(Debug)]
pub enum PollOutcome {
    /// The next message, leased to this consumer.
    Ready(LeasedMessage),
    /// Nothing is deliverable; the consumer's wake handle is parked and a
    /// later publish will wake it.
    Pending,
    /// The topic or subscription no longer exists.
    Gone(ServiceError),
}

/// The service layer of the broker: it owns the topic registry and maps each
/// request to one core operation, translating core errors into typed wire
/// failures.
#[derive(Debug)]
pub struct Broker {
    /// The process-wide topic registry.
    pub registry: Registry<Message>,
}

impl Broker {
    /// The topics of this broker, ascending by name.
    pub open spec fn topics(&self) -> Seq<(String, Topic<Message>)> {
        self.registry.topics_view()
    }

    /// Well-formed: the registry is.
    pub open spec fn wf(&self) -> bool {
        self.registry.wf()
    }

    /// Create a new broker with an empty registry.
    pub fn new() -> (r: Self)
        ensures
            r.topics() == Seq::<(String, Topic<Message>)>::empty(),
            r.wf(),
    {
        Broker { registry: Registry::with_capacity(0) }
    }

    /// Create a new broker over a predefined registry.
    pub fn with_registry(registry: Registry<Message>) -> (r: Self)
        requires
            registry.wf(),
        ensures
            r.registry == registry,
            r.wf(),
    {
        Broker { registry }
    }

    /// Publish a message: reject an empty payload or topic name, look the
    /// topic up, stamp the publish time, and fan the message out to every
    /// subscription of the topic. Exactly one of the listed outcomes holds.
    pub fn publish(&mut self, msg: Message) -> (r: Result<Confirmation, ServiceError>)
        requires
            old(self).wf(),
        ensures
            final(self).wf(),
            msg.data@.len() == 0 ==> *final(self) == *old(self) && (r matches Err(e)
                && e.code == Code::InvalidArgument && e.message@
                == "data payload must be non-empty."@),
            msg.data@.len() > 0 && msg.topic@.len() == 0 ==> *final(self) == *old(self) && (
            r matches Err(e) && e.code == Code::InvalidArgument && e.message@
                == "topic name must be non-empty"@),
            msg.data@.len() > 0 && msg.topic@.len() > 0 && !has_name(old(self).topics(), msg.topic@)
                ==> *final(self) == *old(self) && (r matches Err(e) && e.code == Code::NotFound
                && e.message@ == topic_not_found_msg(msg.topic@)),
            msg.data@.len() > 0 && msg.topic@.len() > 0 && has_name(old(self).topics(), msg.topic@)
                ==> {
                let ti = index_of_name(old(self).topics(), msg.topic@);
                let pre_t = old(self).topics()[ti].1;
                let post_t = final(self).topics()[ti].1;
                &&& final(self).topics().len() == old(self).topics().len()
                &&& forall|j: int|
                    0 <= j < old(self).topics().len() && j != ti ==> final(self).topics()[j]
                        == old(self).topics()[j]
                &&& final(self).topics()[ti].0 == old(self).topics()[ti].0
                &&& post_t.created == pre_t.created
                &&& post_t.updated == pre_t.updated
                &&& pre_t.subs().len() == 0 ==> post_t.subs() == pre_t.subs() && (r matches Err(e)
                    && e.code == Code::Internal && e.message@ == internal_msg(
                    Error::NoSubscriptions,
                ))
                &&& pre_t.subs().len() > 0 ==> {
                    &&& post_t.subs().len() == pre_t.subs().len()
                    &&& exists|stamped: Message|
                        {
                            &&& stamped.topic@ == msg.topic@
                            &&& stamped.data@ == msg.data@
                            &&& stamped.attributes@ == msg.attributes@
                            &&& stamped.published is Some
                            &&& forall|i: int|
                                0 <= i < pre_t.subs().len() ==> fanout_at(
                                    #[trigger] pre_t.subs()[i],
                                    post_t.subs()[i],
                                    stamped,
                                )
                        }
                    &&& (r is Ok <==> all_pushable(pre_t.subs()))
                    &&& (r is Ok ==> r == Ok::<Confirmation, ServiceError>(
                        Confirmation::Committed,
                    ))
                    &&& (r is Err ==> (r matches Err(e) && e.code == Code::Internal && e.message@
                        == internal_msg(Error::QueueFull)))
                }
            },
    {
        if msg.data.len() == 0 {
            return Err(
                ServiceError {
                    code: Code::InvalidArgument,
                    message: String::from_str("data payload must be non-empty."),
                },
            );
        }
        if msg.topic.as_str().is_empty() {
            return Err(
                ServiceError {
                    code: Code::InvalidArgument,
                    message: String::from_str("topic name must be non-empty"),
                },
            );
        }
        let ti = match self.registry.topics.find(&msg.topic) {
            Some(i) => i,
            None => {
                return Err(topic_not_found(msg.topic.as_str()));
            },
        };
        let ghost pre_topics = self.topics();
        let mut stamped = msg;
        stamped.published = Some(nanos_since_epoch(std::time::SystemTime::now()));
        let ghost gstamped = stamped;
        let topic = self.registry.topics.value_at_mut(ti);
        let res = topic.push(stamped);
        proof {
            assert forall|a: int, b: int|
                0 <= a < b < self.topics().len() implies crate::order::chars_lt(
                self.topics()[a].0@,
                self.topics()[b].0@,
            ) by {
                assert(self.topics()[a].0 == pre_topics[a].0);
                assert(self.topics()[b].0 == pre_topics[b].0);
            }
            assert forall|j: int|
                0 <= j < self.topics().len() implies (#[trigger] self.topics()[j]).1.wf() by {
                if j != ti as int {
                    assert(self.topics()[j] == pre_topics[j]);
                }
            }
            let pre_t = pre_topics[ti as int].1;
            let post_t = self.topics()[ti as int].1;
            if pre_t.subs().len() > 0 {
                assert(gstamped.topic@ == msg.topic@);
                assert(gstamped.published is Some);
                assert(forall|i: int|
                    0 <= i < pre_t.subs().len() ==> fanout_at(
                        #[trigger] pre_t.subs()[i],
                        post_t.subs()[i],
                        gstamped,
                    ));
            }
        }
        match res {
            Ok(_) => Ok(Confirmation::Committed),
            Err(err) => Err(internal_error(err)),
        }
    }

    /// What `ack` (with `ok` set) and `nack` (with it clear) guarantee for
    /// the addressed queue: everything but that queue's slots is framed, the
    /// slots change per the corresponding queue transition, and the result
    /// maps the core outcome — committed on success, an internal error
    /// carrying the core failure's description otherwise.
    pub open spec fn slot_op_post(
        pre: Broker,
        post: Broker,
        lease: LeaseRef,
        ok: bool,
        r: Result<Confirmation, ServiceError>,
    ) -> bool {
        let ti = index_of_name(pre.topics(), lease.topic@);
        let pre_t = pre.topics()[ti].1;
        let post_t = post.topics()[ti].1;
        let si = index_of_name(pre_t.subs(), lease.subscription@);
        let pre_q = pre_t.subs()[si].1.queue;
        let post_q = post_t.subs()[si].1.queue;
        let status = ack_status(pre_q.slots_view(), lease.id, lease.index);
        &&& post.topics().len() == pre.topics().len()
        &&& forall|j: int|
            0 <= j < pre.topics().len() && j != ti ==> post.topics()[j] == pre.topics()[j]
        &&& post.topics()[ti].0 == pre.topics()[ti].0
        &&& post_t.created == pre_t.created
        &&& post_t.updated == pre_t.updated
        &&& post_t.subs().len() == pre_t.subs().len()
        &&& forall|j: int|
            0 <= j < pre_t.subs().len() && j != si ==> post_t.subs()[j] == pre_t.subs()[j]
        &&& post_t.subs()[si].0 == pre_t.subs()[si].0
        &&& post_t.subs()[si].1.created == pre_t.subs()[si].1.created
        &&& post_t.subs()[si].1.updated == pre_t.subs()[si].1.updated
        &&& post_q.ttl_spec() == pre_q.ttl_spec()
        &&& post_q.cap_spec() == pre_q.cap_spec()
        &&& post_q.waker_ids() == pre_q.waker_ids()
        &&& if ok {
            ack_post(pre_q.slots_view(), lease.id, lease.index, post_q.slots_view(), status)
        } else {
            nack_post(pre_q.slots_view(), lease.id, lease.index, post_q.slots_view(), status)
        }
        &&& (status is Ok ==> r == Ok::<Confirmation, ServiceError>(Confirmation::Committed))
        &&& (status matches Err(e) ==> (r matches Err(se) && se.code == Code::Internal
            && se.message@ == internal_msg(e)))
    }

    /// Ack the leased message that `lease` addresses: the locked slot becomes
    /// empty when the lease matches, per the queue's `ack`.
    pub fn ack(&mut self, lease: &LeaseRef) -> (r: Result<Confirmation, ServiceError>)
        requires
            old(self).wf(),
        ensures
            final(self).wf(),
            !has_name(old(self).topics(), lease.topic@) ==> *final(self) == *old(self) && (
            r matches Err(e) && e.code == Code::NotFound && e.message@ == topic_not_found_msg(
                lease.topic@,
            )),
            has_name(old(self).topics(), lease.topic@) && !has_name(
                old(self).topics()[index_of_name(old(self).topics(), lease.topic@)].1.subs(),
                lease.subscription@,
            ) ==> *final(self) == *old(self) && (r matches Err(e) && e.code == Code::NotFound
                && e.message@ == sub_not_found_msg(lease.subscription@, lease.topic@)),
            has_name(old(self).topics(), lease.topic@) && has_name(
                old(self).topics()[index_of_name(old(self).topics(), lease.topic@)].1.subs(),
                lease.subscription@,
            ) ==> Broker::slot_op_post(*old(self), *final(self), *lease, true, r),
    {
        let (ti, si) = match self.resolve(&lease.topic, &lease.subscription) {
            Ok(pair) => pair,
            Err(e) => {
                return Err(e);
            },
        };
        let ghost pre_topics = self.topics();
        let topic = self.registry.topics.value_at_mut(ti);
        let ghost pre_subs = topic.subs();
        let sub = topic.subscriptions.value_at_mut(si);
        let res = sub.queue.ack(lease.id, lease.index);
        proof {
            self.lemma_slot_op_frame(pre_topics, ti as int, pre_subs, si as int);
        }
        match res {
            Ok(_) => Ok(Confirmation::Committed),
            Err(err) => Err(internal_error(err)),
        }
    }

    /// Nack the leased message that `lease` addresses: the locked slot
    /// returns to filled for redelivery when the lease matches, per the
    /// queue's `nack`.
    pub fn nack(&mut self, lease: &LeaseRef) -> (r: Result<Confirmation, ServiceError>)
        requires
            old(self).wf(),
        ensures
            final(self).wf(),
            !has_name(old(self).topics(), lease.topic@) ==> *final(self) == *old(self) && (
            r matches Err(e) && e.code == Code::NotFound && e.message@ == topic_not_found_msg(
                lease.topic@,
            )),
            has_name(old(self).topics(), lease.topic@) && !has_name(
                old(self).topics()[index_of_name(old(self).topics(), lease.topic@)].1.subs(),
                lease.subscription@,
            ) ==> *final(self) == *old(self) && (r matches Err(e) && e.code == Code::NotFound
                && e.message@ == sub_not_found_msg(lease.subscription@, lease.topic@)),
            has_name(old(self).topics(), lease.topic@) && has_name(
                old(self).topics()[index_of_name(old(self).topics(), lease.topic@)].1.subs(),
                lease.subscription@,
            ) ==> Broker::slot_op_post(*old(self), *final(self), *lease, false, r),
    {
        let (ti, si) = match self.resolve(&lease.topic, &lease.subscription) {
            Ok(pair) => pair,
            Err(e) => {
                return Err(e);
            },
        };
        let ghost pre_topics = self.topics();
        let topic = self.registry.topics.value_at_mut(ti);
        let ghost pre_subs = topic.subs();
        let sub = topic.subscriptions.value_at_mut(si);
        let res = sub.queue.nack(lease.id, lease.index);
        proof {
            self.lemma_slot_op_frame(pre_topics, ti as int, pre_subs, si as int);
        }
        match res {
            Ok(_) => Ok(Confirmation::Committed),
            Err(err) => Err(internal_error(err)),
        }
    }

    /// Open a subscribe stream: resolve the topic and subscription and hand
    /// out a handle carrying a fresh stable consumer identity. Nothing else
    /// changes; the stream delivers through `poll`.
    pub fn subscribe(&self, topic: &String, subscription: &String) -> (r: Result<
        SubscribeHandle,
        ServiceError,
    >)
        requires
            self.wf(),
        ensures
            !has_name(self.topics(), topic@) ==> (r matches Err(e) && e.code == Code::NotFound
                && e.message@ == topic_not_found_msg(topic@)),
            has_name(self.topics(), topic@) && !has_name(
                self.topics()[index_of_name(self.topics(), topic@)].1.subs(),
                subscription@,
            ) ==> (r matches Err(e) && e.code == Code::NotFound && e.message@ == sub_not_found_msg(
                subscription@,
                topic@,
            )),
            has_name(self.topics(), topic@) && has_name(
                self.topics()[index_of_name(self.topics(), topic@)].1.subs(),
                subscription@,
            ) ==> (r matches Ok(h) && h.topic == *topic && h.subscription == *subscription),
    {
        match self.resolve(topic, subscription) {
            Ok(_) => Ok(
                SubscribeHandle {
                    topic: topic.clone(),
                    subscription: subscription.clone(),
                    id: fresh_consumer_id(),
                },
            ),
            Err(e) => Err(e),
        }
    }

    /// Poll a subscribe stream once: either the next message of the addressed
    /// queue is handed out under a fresh lease, or the supplied wake handle
    /// is parked under the stream's consumer identity and the poll reports
    /// pending. A stream whose topic or subscription has been deleted reports
    /// that it is gone.
    pub fn poll(&mut self, handle: &SubscribeHandle, waker: std::task::Waker) -> (r: PollOutcome)
        requires
            old(self).wf(),
        ensures
            final(self).wf(),
            !has_name(old(self).topics(), handle.topic@) ==> *final(self) == *old(self) && (
            r matches PollOutcome::Gone(e) && e.code == Code::NotFound && e.message@ == topic_not_found_msg(
                handle.topic@,
            )),
            has_name(old(self).topics(), handle.topic@) && !has_name(
                old(self).topics()[index_of_name(old(self).topics(), handle.topic@)].1.subs(),
                handle.subscription@,
            ) ==> *final(self) == *old(self) && (r matches PollOutcome::Gone(e) && e.code == Code::NotFound
                && e.message@ == sub_not_found_msg(handle.subscription@, handle.topic@)),
            has_name(old(self).topics(), handle.topic@) && has_name(
                old(self).topics()[index_of_name(old(self).topics(), handle.topic@)].1.subs(),
                handle.subscription@,
            ) ==> {
                let ti = index_of_name(old(self).topics(), handle.topic@);
                let pre_t = old(self).topics()[ti].1;
                let post_t = final(self).topics()[ti].1;
                let si = index_of_name(pre_t.subs(), handle.subscription@);
                let pre_q = pre_t.subs()[si].1.queue;
                let post_q = post_t.subs()[si].1.queue;
                &&& final(self).topics().len() == old(self).topics().len()
                &&& forall|j: int|
                    0 <= j < old(self).topics().len() && j != ti ==> final(self).topics()[j]
                        == old(self).topics()[j]
                &&& final(self).topics()[ti].0 == old(self).topics()[ti].0
                &&& post_t.created == pre_t.created
                &&& post_t.updated == pre_t.updated
                &&& post_t.subs().len() == pre_t.subs().len()
                &&& forall|j: int|
                    0 <= j < pre_t.subs().len() && j != si ==> post_t.subs()[j]
                        == pre_t.subs()[j]
                &&& post_t.subs()[si].0 == pre_t.subs()[si].0
                &&& post_t.subs()[si].1.created == pre_t.subs()[si].1.created
                &&& post_t.subs()[si].1.updated == pre_t.subs()[si].1.updated
                &&& post_q.ttl_spec() == pre_q.ttl_spec()
                &&& post_q.cap_spec() == pre_q.cap_spec()
                &&& exists|now: u64, wall: u64, id: u64, inner: Option<(LeaseTag, usize, Message)>|
                    {
                        &&& next_post(
                            pre_q.slots_view(),
                            pre_q.ttl_spec(),
                            now,
                            wall,
                            id,
                            post_q.slots_view(),
                            inner,
                        )
                        &&& match inner {
                            Some((tag, idx, m)) => r == PollOutcome::Ready(
                                LeasedMessage {
                                    lease: LeaseRef {
                                        id: tag.id,
                                        topic: handle.topic,
                                        subscription: handle.subscription,
                                        index: idx,
                                        ttl: tag.ttl,
                                        leased_at: tag.leased_at,
                                        deadline: tag.deadline,
                                    },
                                    message: m,
                                },
                            ) && post_q.waker_ids() == pre_q.waker_ids(),
                            None => r is Pending && post_q.waker_ids() == register_one(
                                pre_q.waker_ids(),
                                handle.id,
                            ),
                        }
                    }
            },
    {
        let (ti, si) = match self.resolve(&handle.topic, &handle.subscription) {
            Ok(pair) => pair,
            Err(e) => {
                return PollOutcome::Gone(e);
            },
        };
        let ghost pre_topics = self.topics();
        let topic = self.registry.topics.value_at_mut(ti);
        let ghost pre_subs = topic.subs();
        let sub = topic.subscriptions.value_at_mut(si);
        let next = sub.queue.next();
        let out = match next {
            Some((tag, idx, m)) => {
                let lease = LeaseRef::from_tag(
                    tag,
                    handle.topic.clone(),
                    handle.subscription.clone(),
                    idx,
                );
                PollOutcome::Ready(LeasedMessage { lease, message: m })
            },
            None => {
                sub.queue.register_task_waker(handle.id, waker);
                PollOutcome::Pending
            },
        };
        proof {
            self.lemma_slot_op_frame(pre_topics, ti as int, pre_subs, si as int);
        }
        out
    }

    /// Create a topic: idempotent, per the registry's `create`. The returned
    /// description names the (existing or fresh) entity.
    pub fn create_topic(&mut self, name: String) -> (r: TopicInfo)
        requires
            old(self).wf(),
        ensures
            final(self).wf(),
            r.name == name,
            has_name(old(self).topics(), name@) ==> {
                let i = index_of_name(old(self).topics(), name@);
                &&& *final(self) == *old(self)
                &&& r.created == old(self).topics()[i].1.created
                &&& r.updated == old(self).topics()[i].1.updated
            },
            !has_name(old(self).topics(), name@) ==> {
                &&& exists|p: int|
                    {
                        &&& 0 <= p <= old(self).topics().len()
                        &&& final(self).topics() == old(self).topics().insert(
                            p,
                            (name, final(self).topics()[p].1),
                        )
                        &&& final(self).topics()[p].1.subs() == Seq::<(String, Sub<Message>)>::empty()
                        &&& final(self).topics()[p].1.created == r.created
                        &&& final(self).topics()[p].1.updated is None
                    }
                &&& has_name(final(self).topics(), name@)
                &&& r.updated is None
            },
    {
        let topic = self.registry.create(name.clone());
        TopicInfo { name, created: topic.created, updated: topic.updated }
    }

    /// Describe a topic, or report that the name is unknown.
    pub fn get_topic(&self, name: &String) -> (r: Result<TopicInfo, ServiceError>)
        requires
            self.wf(),
        ensures
            !has_name(self.topics(), name@) ==> (r matches Err(e) && e.code == Code::NotFound
                && e.message@ == topic_not_found_msg(name@)),
            has_name(self.topics(), name@) ==> {
                let i = index_of_name(self.topics(), name@);
                &&& r matches Ok(info) && info.name == *name && info.created
                    == self.topics()[i].1.created && info.updated == self.topics()[i].1.updated
            },
    {
        match self.registry.get(name) {
            Some(topic) => Ok(
                TopicInfo { name: name.clone(), created: topic.created, updated: topic.updated },
            ),
            None => Err(topic_not_found(name.as_str())),
        }
    }

    /// List the topics: a snapshot of every topic's description, in ascending
    /// lexicographic order of names.
    pub fn list_topics(&self) -> (r: Vec<TopicInfo>)
        requires
            self.wf(),
        ensures
            r@.len() == self.topics().len(),
            forall|i: int|
                0 <= i < r@.len() ==> (#[trigger] r@[i]).name == self.topics()[i].0 && r@[i].created
                    == self.topics()[i].1.created && r@[i].updated == self.topics()[i].1.updated,
            forall|i: int, j: int|
                0 <= i < j < r@.len() ==> crate::order::chars_lt(r@[i].name@, r@[j].name@),
    {
        let n = self.registry.topics.len();
        let mut infos: Vec<TopicInfo> = Vec::with_capacity(n);
        let mut i: usize = 0;
        while i < n
            invariant
                self.wf(),
                n == self.topics().len(),
                0 <= i <= n,
                infos@.len() == i,
                forall|j: int|
                    0 <= j < i ==> (#[trigger] infos@[j]).name == self.topics()[j].0
                        && infos@[j].created == self.topics()[j].1.created && infos@[j].updated
                        == self.topics()[j].1.updated,
            decreases n - i,
        {
            let name = self.registry.topics.name_at(i).clone();
            let topic = self.registry.topics.value_at(i);
            infos.push(TopicInfo { name, created: topic.created, updated: topic.updated });
            i += 1;
        }
        infos
    }

    /// Delete a topic, returning its description, or report that the name is
    /// unknown. Its subscriptions and their backlogs are dropped with it.
    pub fn delete_topic(&mut self, name: &String) -> (r: Result<TopicInfo, ServiceError>)
        requires
            old(self).wf(),
        ensures
            final(self).wf(),
            !has_name(old(self).topics(), name@) ==> *final(self) == *old(self) && (r matches Err(e)
                && e.code == Code::NotFound && e.message@ == topic_not_found_msg(name@)),
            has_name(old(self).topics(), name@) ==> {
                let i = index_of_name(old(self).topics(), name@);
                &&& final(self).topics() == old(self).topics().remove(i)
                &&& r matches Ok(info) && info.name == *name && info.created
                    == old(self).topics()[i].1.created && info.updated
                    == old(self).topics()[i].1.updated
            },
            !has_name(final(self).topics(), name@),
    {
        match self.registry.delete(name) {
            Some(topic) => Ok(
                TopicInfo { name: name.clone(), created: topic.created, updated: topic.updated },
            ),
            None => Err(topic_not_found(name.as_str())),
        }
    }

    /// Updating a topic is out of scope: report it as unimplemented.
    pub fn update_topic(&mut self, name: &String) -> (r: Result<TopicInfo, ServiceError>)
        ensures
            *final(self) == *old(self),
            r matches Err(e) && e.code == Code::Unimplemented,
    {
        let _ = name;
        Err(unimplemented_error())
    }

    /// Create a subscription under a topic: idempotent, per the topic's
    /// `create`; the topic must exist.
    pub fn create_subscription(&mut self, topic: &String, name: String) -> (r: Result<
        SubscriptionInfo,
        ServiceError,
    >)
        requires
            old(self).wf(),
        ensures
            final(self).wf(),
            !has_name(old(self).topics(), topic@) ==> *final(self) == *old(self) && (
            r matches Err(e) && e.code == Code::NotFound && e.message@ == topic_not_found_msg(
                topic@,
            )),
            has_name(old(self).topics(), topic@) ==> {
                let ti = index_of_name(old(self).topics(), topic@);
                let pre_t = old(self).topics()[ti].1;
                let post_t = final(self).topics()[ti].1;
                &&& final(self).topics().len() == old(self).topics().len()
                &&& forall|j: int|
                    0 <= j < old(self).topics().len() && j != ti ==> final(self).topics()[j]
                        == old(self).topics()[j]
                &&& final(self).topics()[ti].0 == old(self).topics()[ti].0
                &&& post_t.created == pre_t.created
                &&& post_t.updated == pre_t.updated
                &&& (r matches Ok(info) && info.name == name && info.topic == *topic)
                &&& has_name(pre_t.subs(), name@) ==> {
                    let si = index_of_name(pre_t.subs(), name@);
                    &&& post_t.subs() == pre_t.subs()
                    &&& (r matches Ok(info) && info.created == pre_t.subs()[si].1.created
                        && info.updated == pre_t.subs()[si].1.updated)
                }
                &&& !has_name(pre_t.subs(), name@) ==> {
                    &&& exists|p: int|
                        {
                            &&& 0 <= p <= pre_t.subs().len()
                            &&& post_t.subs() == pre_t.subs().insert(p, (name, post_t.subs()[p].1))
                            &&& post_t.subs()[p].1.queue.slots_view() == Seq::<
                                crate::slot::Slot<Message>,
                            >::empty()
                        }
                    &&& has_name(post_t.subs(), name@)
                }
            },
    {
        let ti = match self.registry.topics.find(topic) {
            Some(i) => i,
            None => {
                return Err(topic_not_found(topic.as_str()));
            },
        };
        let ghost pre_topics = self.topics();
        let t = self.registry.topics.value_at_mut(ti);
        let sub = t.create(name.clone());
        proof {
            assert forall|a: int, b: int|
                0 <= a < b < self.topics().len() implies crate::order::chars_lt(
                self.topics()[a].0@,
                self.topics()[b].0@,
            ) by {
                assert(self.topics()[a].0 == pre_topics[a].0);
                assert(self.topics()[b].0 == pre_topics[b].0);
            }
            assert forall|j: int|
                0 <= j < self.topics().len() implies (#[trigger] self.topics()[j]).1.wf() by {
                if j != ti as int {
                    assert(self.topics()[j] == pre_topics[j]);
                    assert(pre_topics[j].1.wf());
                }
            }
        }
        Ok(
            SubscriptionInfo {
                name,
                topic: topic.clone(),
                created: sub.created,
                updated: sub.updated,
            },
        )
    }

    /// Describe a subscription, or report which name is unknown.
    pub fn get_subscription(&self, topic: &String, name: &String) -> (r: Result<
        SubscriptionInfo,
        ServiceError,
    >)
        requires
            self.wf(),
        ensures
            !has_name(self.topics(), topic@) ==> (r matches Err(e) && e.code == Code::NotFound
                && e.message@ == topic_not_found_msg(topic@)),
            has_name(self.topics(), topic@) && !has_name(
                self.topics()[index_of_name(self.topics(), topic@)].1.subs(),
                name@,
            ) ==> (r matches Err(e) && e.code == Code::NotFound && e.message@ == sub_not_found_msg(
                name@,
                topic@,
            )),
            has_name(self.topics(), topic@) && has_name(
                self.topics()[index_of_name(self.topics(), topic@)].1.subs(),
                name@,
            ) ==> {
                let ti = index_of_name(self.topics(), topic@);
                let si = index_of_name(self.topics()[ti].1.subs(), name@);
                &&& r matches Ok(info) && info.name == *name && info.topic == *topic
                    && info.created == self.topics()[ti].1.subs()[si].1.created && info.updated
                    == self.topics()[ti].1.subs()[si].1.updated
            },
    {
        let (ti, si) = match self.resolve(topic, name) {
            Ok(pair) => pair,
            Err(e) => {
                return Err(e);
            },
        };
        let sub = self.registry.topics.value_at(ti).subscriptions.value_at(si);
        Ok(
            SubscriptionInfo {
                name: name.clone(),
                topic: topic.clone(),
                created: sub.created,
                updated: sub.updated,
            },
        )
    }

    /// List the subscriptions of a topic: a snapshot of every subscription's
    /// description, in ascending lexicographic order of names, or a report
    /// that the topic is unknown.
    pub fn list_subscriptions(&self, topic: &String) -> (r: Result<
        Vec<SubscriptionInfo>,
        ServiceError,
    >)
        requires
            self.wf(),
        ensures
            !has_name(self.topics(), topic@) ==> (r matches Err(e) && e.code == Code::NotFound
                && e.message@ == topic_not_found_msg(topic@)),
            has_name(self.topics(), topic@) ==> {
                let subs = self.topics()[index_of_name(self.topics(), topic@)].1.subs();
                &&& r matches Ok(infos) && infos@.len() == subs.len() && (forall|i: int|
                    0 <= i < subs.len() ==> (#[trigger] infos@[i]).name == subs[i].0
                        && infos@[i].topic == *topic && infos@[i].created == subs[i].1.created
                        && infos@[i].updated == subs[i].1.updated) && (forall|i: int, j: int|
                    0 <= i < j < subs.len() ==> crate::order::chars_lt(
                        infos@[i].name@,
                        infos@[j].name@,
                    ))
            },
    {
        let ti = match self.registry.topics.find(topic) {
            Some(i) => i,
            None => {
                return Err(topic_not_found(topic.as_str()));
            },
        };
        let t = self.registry.topics.value_at(ti);
        let n = t.subscriptions.len();
        let mut infos: Vec<SubscriptionInfo> = Vec::with_capacity(n);
        let mut i: usize = 0;
        while i < n
            invariant
                self.wf(),
                ti < self.topics().len(),
                t == self.topics()[ti as int].1,
                t.wf(),
                n == t.subs().len(),
                0 <= i <= n,
                infos@.len() == i,
                forall|j: int|
                    0 <= j < i ==> (#[trigger] infos@[j]).name == t.subs()[j].0
                        && infos@[j].topic == *topic && infos@[j].created == t.subs()[j].1.created
                        && infos@[j].updated == t.subs()[j].1.updated,
            decreases n - i,
        {
            let name = t.subscriptions.name_at(i).clone();
            let sub = t.subscriptions.value_at(i);
            infos.push(
                SubscriptionInfo {
                    name,
                    topic: topic.clone(),
                    created: sub.created,
                    updated: sub.updated,
                },
            );
            i += 1;
        }
        Ok(infos)
    }

    /// Delete a subscription, returning its description, or report which
    /// name is unknown. Its queue and backlog are dropped with it.
    pub fn delete_subscription(&mut self, topic: &String, name: &String) -> (r: Result<
        SubscriptionInfo,
        ServiceError,
    >)
        requires
            old(self).wf(),
        ensures
            final(self).wf(),
            !has_name(old(self).topics(), topic@) ==> *final(self) == *old(self) && (
            r matches Err(e) && e.code == Code::NotFound && e.message@ == topic_not_found_msg(
                topic@,
            )),
            has_name(old(self).topics(), topic@) && !has_name(
                old(self).topics()[index_of_name(old(self).topics(), topic@)].1.subs(),
                name@,
            ) ==> *final(self) == *old(self) && (r matches Err(e) && e.code == Code::NotFound
                && e.message@ == sub_not_found_msg(name@, topic@)),
            has_name(old(self).topics(), topic@) && has_name(
                old(self).topics()[index_of_name(old(self).topics(), topic@)].1.subs(),
                name@,
            ) ==> {
                let ti = index_of_name(old(self).topics(), topic@);
                let pre_t = old(self).topics()[ti].1;
                let post_t = final(self).topics()[ti].1;
                let si = index_of_name(pre_t.subs(), name@);
                &&& final(self).topics().len() == old(self).topics().len()
                &&& forall|j: int|
                    0 <= j < old(self).topics().len() && j != ti ==> final(self).topics()[j]
                        == old(self).topics()[j]
                &&& final(self).topics()[ti].0 == old(self).topics()[ti].0
                &&& post_t.created == pre_t.created
                &&& post_t.updated == pre_t.updated
                &&& post_t.subs() == pre_t.subs().remove(si)
                &&& (r matches Ok(info) && info.name == *name && info.topic == *topic
                    && info.created == pre_t.subs()[si].1.created && info.updated
                    == pre_t.subs()[si].1.updated)
            },
    {
        let (ti, _) = match self.resolve(topic, name) {
            Ok(pair) => pair,
            Err(e) => {
                return Err(e);
            },
        };
        let ghost pre_topics = self.topics();
        let t = self.registry.topics.value_at_mut(ti);
        let removed = t.remove(name);
        proof {
            assert forall|a: int, b: int|
                0 <= a < b < self.topics().len() implies crate::order::chars_lt(
                self.topics()[a].0@,
                self.topics()[b].0@,
            ) by {
                assert(self.topics()[a].0 == pre_topics[a].0);
                assert(self.topics()[b].0 == pre_topics[b].0);
            }
            assert forall|j: int|
                0 <= j < self.topics().len() implies (#[trigger] self.topics()[j]).1.wf() by {
                if j != ti as int {
                    assert(self.topics()[j] == pre_topics[j]);
                    assert(pre_topics[j].1.wf());
                }
            }
        }
        match removed {
            Some(sub) => Ok(
                SubscriptionInfo {
                    name: name.clone(),
                    topic: topic.clone(),
                    created: sub.created,
                    updated: sub.updated,
                },
            ),
            None => Err(sub_not_found(name.as_str(), topic.as_str())),
        }
    }

    /// Updating a subscription is out of scope: report it as unimplemented.
    pub fn update_subscription(&mut self, topic: &String, name: &String) -> (r: Result<
        SubscriptionInfo,
        ServiceError,
    >)
        ensures
            *final(self) == *old(self),
            r matches Err(e) && e.code == Code::Unimplemented,
    {
        let _ = topic;
        let _ = name;
        Err(unimplemented_error())
    }

    /// Resolve a topic and subscription name to their positions, without
    /// touching any state, with the typed misses the data plane reports.
    fn resolve(&self, topic: &String, subscription: &String) -> (r: Result<
        (usize, usize),
        ServiceError,
    >)
        requires
            self.wf(),
        ensures
            !has_name(self.topics(), topic@) ==> (r matches Err(e) && e.code == Code::NotFound
                && e.message@ == topic_not_found_msg(topic@)),
            has_name(self.topics(), topic@) && !has_name(
                self.topics()[index_of_name(self.topics(), topic@)].1.subs(),
                subscription@,
            ) ==> (r matches Err(e) && e.code == Code::NotFound && e.message@ == sub_not_found_msg(
                subscription@,
                topic@,
            )),
            has_name(self.topics(), topic@) && has_name(
                self.topics()[index_of_name(self.topics(), topic@)].1.subs(),
                subscription@,
            ) ==> (r matches Ok(pair) && pair.0 as int == index_of_name(self.topics(), topic@)
                && pair.1 as int == index_of_name(
                self.topics()[index_of_name(self.topics(), topic@)].1.subs(),
                subscription@,
            )),
    {
        let ti = match self.registry.topics.find(topic) {
            Some(i) => i,
            None => {
                return Err(topic_not_found(topic.as_str()));
            },
        };
        let si = match self.registry.topics.value_at(ti).subscriptions.find(subscription) {
            Some(i) => i,
            None => {
                return Err(sub_not_found(subscription.as_str(), topic.as_str()));
            },
        };
        Ok((ti, si))
    }

    /// The frame argument shared by ack and nack: an operation that only
    /// touched the queue of the subscription at `(ti, si)` preserves
    /// well-formedness, and everything but that queue is unchanged.
    proof fn lemma_slot_op_frame(
        &self,
        pre_topics: Seq<(String, Topic<Message>)>,
        ti: int,
        pre_subs: Seq<(String, Sub<Message>)>,
        si: int,
    )
        requires
            crate::names::sorted_names(pre_topics),
            forall|i: int| 0 <= i < pre_topics.len() ==> (#[trigger] pre_topics[i]).1.wf(),
            0 <= ti < pre_topics.len(),
            pre_subs == pre_topics[ti].1.subs(),
            0 <= si < pre_subs.len(),
            self.topics().len() == pre_topics.len(),
            forall|j: int|
                0 <= j < pre_topics.len() && j != ti ==> self.topics()[j] == pre_topics[j],
            self.topics()[ti].0 == pre_topics[ti].0,
            self.topics()[ti].1.subs().len() == pre_subs.len(),
            forall|j: int|
                0 <= j < pre_subs.len() && j != si ==> self.topics()[ti].1.subs()[j] == pre_subs[j],
            self.topics()[ti].1.subs()[si].0 == pre_subs[si].0,
            self.topics()[ti].1.subs()[si].1.queue.wf(),
        ensures
            self.wf(),
    {
        assert forall|a: int, b: int|
            0 <= a < b < self.topics().len() implies crate::order::chars_lt(
            self.topics()[a].0@,
            self.topics()[b].0@,
        ) by {
            assert(self.topics()[a].0 == pre_topics[a].0);
            assert(self.topics()[b].0 == pre_topics[b].0);
        }
        assert forall|j: int|
            0 <= j < self.topics().len() implies (#[trigger] self.topics()[j]).1.wf() by {
            if j != ti {
                assert(self.topics()[j] == pre_topics[j]);
                assert(pre_topics[j].1.wf());
            }
            if j == ti {
                let t = self.topics()[ti].1;
                assert forall|a: int, b: int|
                    0 <= a < b < t.subs().len() implies crate::order::chars_lt(
                    t.subs()[a].0@,
                    t.subs()[b].0@,
                ) by {
                    assert(pre_topics[ti].1.wf());
                    assert(t.subs()[a].0 == pre_subs[a].0);
                    assert(t.subs()[b].0 == pre_subs[b].0);
                }
                assert forall|k: int|
                    0 <= k < t.subs().len() implies (#[trigger] t.subs()[k]).1.queue.wf() by {
                    assert(pre_topics[ti].1.wf());
                    if k != si {
                        assert(t.subs()[k] == pre_subs[k]);
                    }
                }
            }
        }
    }
}

} // verus!
