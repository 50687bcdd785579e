//! The value types that cross the service boundary: messages, lease
//! references, confirmations and entity descriptions. All timestamps are
//! wall-clock nanoseconds since the Unix epoch.

use vstd::prelude::*;
use vstd::pervasive::strictly_cloned;

use crate::lease::LeaseTag;

verus! {

/// A message published to a topic: an opaque payload, the topic name, string
/// attributes and an optional publish timestamp. The broker treats the
/// payload as opaque; only the topic name and the payload being non-empty are
/// ever validated.
#[derive(Debug)]
pub struct Message {
    /// The topic this message is published to.
    pub topic: String,
    /// The opaque payload.
    pub data: Vec<u8>,
    /// String attributes attached by the producer.
    pub attributes: Vec<(String, String)>,
    /// When the broker accepted this message.
    pub published: Option<u64>,
}

/// Clone a list of string attributes, preserving it exactly.
fn clone_attributes(attrs: &Vec<(String, String)>) -> (r: Vec<(String, String)>)
    ensures
        r@ == attrs@,
{
    let n = attrs.len();
    let mut r: Vec<(String, String)> = Vec::with_capacity(n);
    let mut i: usize = 0;
    while i < n
        invariant
            n == attrs@.len(),
            0 <= i <= n,
            r@.len() == i,
            forall|j: int| 0 <= j < i ==> #[trigger] r@[j] == attrs@[j],
        decreases n - i,
    {
        let key = attrs[i].0.clone();
        let value = attrs[i].1.clone();
        r.push((key, value));
        i += 1;
    }
    proof {
        assert(r@ =~= attrs@);
    }
    r
}

/// Two messages with the same topic, payload, attributes and publish
/// timestamp: equal in every observable way. Cloning a message yields an
/// equivalent one.
pub open spec fn message_equiv(a: Message, b: Message) -> bool {
    &&& a.topic@ == b.topic@
    &&& a.data@ == b.data@
    &&& a.attributes@ == b.attributes@
    &&& a.published == b.published
}

impl Clone for Message {
    /// A clone of a message is observably equal to the message.
    fn clone(&self) -> (r: Self)
        ensures
            message_equiv(*self, r),
    {
        let data = self.data.clone();
        proof {
            assert forall|i: int| 0 <= i < self.data@.len() implies data@[i]
                == self.data@[i] by {
                assert(cloned::<u8>(self.data@[i], data@[i]));
            }
            assert(data@ =~= self.data@);
        }
        Message {
            topic: self.topic.clone(),
            data,
            attributes: clone_attributes(&self.attributes),
            published: self.published,
        }
    }
}

/// Whatever a clone of a message returns is observably equal to the message,
/// so the queue and fan-out contracts, which pin each stored copy down to a
/// clone of the pushed message, pin its topic, payload, attributes and
/// timestamp down exactly.
pub proof fn lemma_message_cloned_equiv(a: Message, b: Message)
    requires
        cloned::<Message>(a, b),
    ensures
        message_equiv(a, b),
{
    if strictly_cloned::<Message>(a, b) {
    }
}

/// A lease reference: what a consumer receives alongside each message and
/// hands back to ack or nack it. The identity, index, topic and subscription
/// address the leased slot; ttl, lease time and deadline are informational.
#[derive(Debug, Clone)]
pub struct LeaseRef {
    /// The lease identity.
    pub id: u64,
    /// The topic the message was published to.
    pub topic: String,
    /// The subscription the message was delivered on.
    pub subscription: String,
    /// The index of the leased slot in the subscription's queue.
    pub index: usize,
    /// The lease TTL, in nanoseconds.
    pub ttl: u64,
    /// When the lease was created.
    pub leased_at: u64,
    /// The estimated wall-clock time when this lease will expire.
    pub deadline: u64,
}

impl LeaseRef {
    /// Generate a new lease reference from a [LeaseTag] and the address of
    /// the leased slot.
    pub fn from_tag(tag: LeaseTag, topic: String, subscription: String, index: usize) -> (r: Self)
        ensures
            r == (LeaseRef {
                id: tag.id,
                topic,
                subscription,
                index,
                ttl: tag.ttl,
                leased_at: tag.leased_at,
                deadline: tag.deadline,
            }),
    {
        LeaseRef {
            id: tag.id,
            topic,
            subscription,
            index,
            ttl: tag.ttl,
            leased_at: tag.leased_at,
            deadline: tag.deadline,
        }
    }
}

/// A message delivered to a consumer together with its lease.
#[derive(Debug)]
pub struct LeasedMessage {
    /// The lease under which the message is held.
    pub lease: LeaseRef,
    /// The delivered message.
    pub message: Message,
}

/// The status of a successful publish, ack or nack.
#[derive(Debug, Clone, Copy, PartialEq, Eq, Structural)]
pub enum Confirmation {
    /// The operation was applied.
    Committed,
}

/// A topic as the control plane describes it.
#[derive(Debug)]
pub struct TopicInfo {
    /// The topic name.
    pub name: String,
    /// When the topic was created.
    pub created: u64,
    /// When the topic was last updated, if ever.
    pub updated: Option<u64>,
}

/// A subscription as the control plane describes it.
#[derive(Debug)]
pub struct SubscriptionInfo {
    /// The subscription name.
    pub name: String,
    /// The topic this subscription consumes.
    pub topic: String,
    /// When the subscription was created.
    pub created: u64,
    /// When the subscription was last updated, if ever.
    pub updated: Option<u64>,
}

} // verus!
