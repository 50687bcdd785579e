//! Trusted declarations for the process clock, task wake handles and fresh
//! identifiers. Everything time- or randomness-dependent enters the library
//! through the functions here; the verified code takes their results as plain
//! values and states what holds of every outcome.

use vstd::prelude::*;

verus! {

#[verifier::external_type_specification]
#[verifier::external_body]
pub struct ExInstant(std::time::Instant);

#[verifier::external_type_specification]
#[verifier::external_body]
pub struct ExSystemTime(std::time::SystemTime);

#[verifier::external_type_specification]
#[verifier::external_body]
pub struct ExTaskWaker(std::task::Waker);

/// Relies on std::time::Instant::now: an opaque reading of the monotonic clock.
pub assume_specification[ std::time::Instant::now ]() -> std::time::Instant;

/// Relies on std::time::Instant::clone: another handle on the same instant.
pub assume_specification[ <std::time::Instant as Clone>::clone ](
    t: &std::time::Instant,
) -> std::time::Instant;

/// Relies on std::time::Instant::elapsed: the monotonic time since `since`,
/// read as nanoseconds.
#[verifier::external_body]
pub(crate) fn nanos_since(since: &std::time::Instant) -> u64 {
    u64::try_from(since.elapsed().as_nanos()).unwrap_or(u64::MAX)
}

/// Relies on std::time::SystemTime::now: an opaque reading of the wall clock.
pub assume_specification[ std::time::SystemTime::now ]() -> std::time::SystemTime;

/// Relies on std::time::SystemTime::duration_since: the wall-clock time at `at`,
/// read as nanoseconds since the Unix epoch (zero for readings before it).
#[verifier::external_body]
pub(crate) fn nanos_since_epoch(at: std::time::SystemTime) -> u64 {
    match at.duration_since(std::time::UNIX_EPOCH) {
        Ok(d) => u64::try_from(d.as_nanos()).unwrap_or(u64::MAX),
        Err(_) => 0,
    }
}

/// Relies on std::task::Waker::wake: schedules the parked task to be polled
/// again; non-blocking and without effect on the current task.
#[verifier::external_body]
pub(crate) fn invoke_wake(w: std::task::Waker) {
    w.wake()
}

/// Relies on rand::random: a 64-bit lease identifier drawn uniformly from the
/// thread-local generator.
#[verifier::external_body]
pub(crate) fn fresh_lease_id() -> u64 {
    rand::random()
}

/// Relies on uuid::Uuid::new_v4: a random consumer identity, read as its
/// 128-bit value.
#[verifier::external_body]
pub(crate) fn fresh_consumer_id() -> u128 {
    uuid::Uuid::new_v4().as_u128()
}

} // verus!
