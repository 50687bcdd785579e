//! Queue, slot and topic related errors.

use vstd::prelude::*;

verus! {

/// Custom Result wrapper to simplify usage.
pub type Result<T> = core::result::Result<T, Error>;

/// Represents queue, slot and topic related errors.
#[derive(Clone, Copy, Debug, PartialEq, Eq, Structural)]
pub enum Error {
    /// An operation like ack/nack was made against a non-locked slot.
    MustBeLocked,
    /// An operation like lock was made against a non-filled slot.
    MustBeFilled,
    /// An operation like fill was made against a non-empty slot.
    MustBeEmpty,
    /// An ack/nack was attempted with an invalid lease id.
    InvalidOrExpiredLease,
    /// There are no available empty slots.
    QueueFull,
    /// An ack/nack named an index past the end of the slot sequence.
    IndexOutOfRange,
    /// A publish was attempted on a topic without any subscriptions.
    NoSubscriptions,
}

impl Error {
    /// A human-readable description of this error.
    pub fn message(&self) -> (r: String)
        ensures
            r@ == self.message_spec(),
    {
        match self {
            Error::MustBeLocked => {
                String::from_str("the slot must be locked for this operation to complete")
            },
            Error::MustBeFilled => {
                String::from_str("the slot must be filled for this operation to complete")
            },
            Error::MustBeEmpty => {
                String::from_str("the slot must be empty for this operation to complete")
            },
            Error::InvalidOrExpiredLease => {
                String::from_str("the specified lease is either invalid, missing, or expired")
            },
            Error::QueueFull => {
                String::from_str("the queue is full and unable to accept new messages")
            },
            Error::IndexOutOfRange => {
                String::from_str("the supplied index is outside the bounds of the queue")
            },
            Error::NoSubscriptions => {
                String::from_str("no subscriptions....")
            },
        }
    }

    /// The description that `message` returns for each variant.
    pub open spec fn message_spec(&self) -> Seq<char> {
        match self {
            Error::MustBeLocked => "the slot must be locked for this operation to complete"@,
            Error::MustBeFilled => "the slot must be filled for this operation to complete"@,
            Error::MustBeEmpty => "the slot must be empty for this operation to complete"@,
            Error::InvalidOrExpiredLease => {
                "the specified lease is either invalid, missing, or expired"@
            },
            Error::QueueFull => "the queue is full and unable to accept new messages"@,
            Error::IndexOutOfRange => "the supplied index is outside the bounds of the queue"@,
            Error::NoSubscriptions => "no subscriptions...."@,
        }
    }
}

} // verus!
