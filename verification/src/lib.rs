//! An in-memory publish/subscribe broker with at-least-once delivery.
//!
//! Producers push messages to named topics; each topic fans out to a set of
//! named subscriptions, each with an independent backlog. Consumers receive
//! leased messages that they acknowledge (ack) or return (nack); leases that
//! are neither expire by TTL and the message becomes redeliverable.

pub mod error;
pub mod ext;
pub mod lease;
pub mod log;
pub mod message;
pub mod names;
pub mod order;
pub mod queue;
pub mod registry;
pub mod service;
pub mod slot;
pub mod store;
pub mod stream;
pub mod sub;
pub mod topic;
pub mod waker;

pub use error::{Error, Result};
pub use lease::{Lease, LeaseTag};
pub use queue::{Queue, QueueBuilder};
pub use registry::Registry;
pub use slot::Slot;
pub use topic::Topic;
pub use stream::Stream;
pub use sub::Sub;
pub use waker::Waker;
