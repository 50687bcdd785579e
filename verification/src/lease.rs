//! Lease bookkeeping for in-flight messages.

use vstd::prelude::*;

verus! {

/// A lease tag captures the metadata of a lease that is exposed to the caller.
/// All times are nanoseconds; `leased_at` and `deadline` are wall-clock times
/// since the Unix epoch and are purely informational, expiry goes by the
/// monotonic clock alone.
#[derive(Debug, Clone, Copy, PartialEq, Eq, Hash, Structural)]
pub struct LeaseTag {
    /// The identifier of the [Lease] instance that this tag represents.
    pub id: u64,
    /// The ttl of the [Lease], in nanoseconds.
    pub ttl: u64,
    /// The wall-clock time when this lease was created, in nanoseconds since
    /// the Unix epoch.
    pub leased_at: u64,
    /// The estimated wall-clock time when this lease will expire (saturating
    /// at the largest representable time).
    pub deadline: u64,
}

impl LeaseTag {
    /// The tag for a lease minted with identity `id` and ttl `ttl` at
    /// wall-clock time `wall_now`.
    pub open spec fn new_spec(id: u64, ttl: u64, wall_now: u64) -> LeaseTag {
        LeaseTag { id, ttl, leased_at: wall_now, deadline: LeaseTag::deadline_spec(wall_now, ttl) }
    }

    /// Build the tag for a lease minted with identity `id` and ttl `ttl` at
    /// wall-clock time `wall_now`.
    pub fn new(id: u64, ttl: u64, wall_now: u64) -> (r: LeaseTag)
        ensures
            r == LeaseTag::new_spec(id, ttl, wall_now),
    {
        let deadline = if wall_now <= u64::MAX - ttl {
            wall_now + ttl
        } else {
            u64::MAX
        };
        LeaseTag { id, ttl, leased_at: wall_now, deadline }
    }

    /// The advertised deadline: lease start plus ttl, saturating at `u64::MAX`.
    pub open spec fn deadline_spec(wall_now: u64, ttl: u64) -> u64 {
        if wall_now + ttl <= u64::MAX {
            (wall_now + ttl) as u64
        } else {
            u64::MAX
        }
    }
}

/// A slot lease ties a leased value to an opaque identifier, a ttl and a lease
/// start time. It is used to monitor the life cycle of leased slots awaiting
/// ack/nack operations. `leased_at` is a monotonic reading, in nanoseconds
/// relative to the owning queue's epoch.
#[derive(Debug)]
pub struct Lease<T> {
    /// The ttl of this lease, in nanoseconds.
    pub ttl: u64,
    /// The monotonic time at which this lease started.
    pub leased_at: u64,
    /// The identifier of this lease.
    pub id: u64,
    /// The leased value.
    pub inner: T,
}

impl<T> Clone for Lease<T> where T: Clone {
    /// A clone keeps the lease bookkeeping and clones the leased value.
    fn clone(&self) -> (r: Self)
        ensures
            r.ttl == self.ttl,
            r.leased_at == self.leased_at,
            r.id == self.id,
            cloned::<T>(self.inner, r.inner),
    {
        Lease { ttl: self.ttl, leased_at: self.leased_at, id: self.id, inner: self.inner.clone() }
    }
}

impl<T> Lease<T> {
    /// True when `now` (a monotonic reading on the same clock as `leased_at`)
    /// is at or past the lease's deadline.
    pub open spec fn expired_spec(&self, now: u64) -> bool {
        self.leased_at + self.ttl <= now
    }

    /// Create a new lease over `inner` with the supplied ttl, lease start
    /// instant and identity.
    pub fn new(ttl: u64, leased_at: u64, id: u64, inner: T) -> (r: Self)
        ensures
            r == (Lease { ttl, leased_at, id, inner }),
    {
        Self { ttl, leased_at, id, inner }
    }

    /// Return the identifier for this lease.
    pub fn id(&self) -> (r: u64)
        ensures
            r == self.id,
    {
        self.id
    }

    /// Unwrap this lease into its inner value.
    pub fn into_inner(self) -> (r: T)
        ensures
            r == self.inner,
    {
        self.inner
    }

    /// Check whether this lease is expired at the monotonic reading `now`.
    pub fn expired(&self, now: u64) -> (r: bool)
        ensures
            r == self.expired_spec(now),
    {
        now >= self.leased_at && now - self.leased_at >= self.ttl
    }

    /// Check whether or not the supplied id matches this lease's.
    pub fn valid(&self, o: u64) -> (r: bool)
        ensures
            r == (o == self.id),
    {
        self.id == o
    }
}

} // verus!
