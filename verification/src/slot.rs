//! The three-state queue slot and its transition rules.

use vstd::prelude::*;

use crate::error::{Error, Result};
use crate::lease::Lease;

verus! {

/// True when every clone of a value of `T` equals the value it was cloned
/// from. It holds for any type whose `Clone` contract promises equality, and
/// lets contracts over cloning containers speak of exact values.
pub open spec fn clone_faithful<T: Clone>() -> bool {
    forall|a: T, b: T| #[trigger] cloned::<T>(a, b) ==> a == b
}

/// A queue slot: a state cell for at most one message.
#[derive(Debug)]
pub enum Slot<T> {
    /// An empty slot is available for writing a message to.
    Empty,
    /// A filled slot holds a pending message available to be read.
    Filled(T),
    /// A locked slot holds a message that is awaiting an ack or nack.
    Locked(Lease<T>),
}

impl<T> Clone for Slot<T> where T: Clone {
    /// A clone keeps the state and clones the captured value, if any.
    fn clone(&self) -> (r: Self)
        ensures
            r is Empty <==> self is Empty,
            r is Filled <==> self is Filled,
            r is Locked <==> self is Locked,
            !(self is Empty) ==> cloned::<T>(self.value_of(), r.value_of()),
            self is Locked ==> r.lease_of().ttl == self.lease_of().ttl
                && r.lease_of().leased_at == self.lease_of().leased_at && r.lease_of().id
                == self.lease_of().id,
            clone_faithful::<T>() ==> r == *self,
    {
        match self {
            Slot::Empty => Slot::Empty,
            Slot::Filled(value) => Slot::Filled(value.clone()),
            Slot::Locked(lease) => Slot::Locked(lease.clone()),
        }
    }
}

impl<T> Default for Slot<T> {
    fn default() -> (r: Self)
        ensures
            r is Empty,
    {
        Self::Empty
    }
}

impl<T> Slot<T> {
    /// The value captured in this slot, whether pending or leased.
    pub open spec fn value_of(&self) -> T
        recommends
            !(self is Empty),
    {
        match self {
            Slot::Empty => arbitrary(),
            Slot::Filled(value) => *value,
            Slot::Locked(lease) => lease.inner,
        }
    }

    /// The lease of a locked slot.
    pub open spec fn lease_of(&self) -> Lease<T>
        recommends
            self is Locked,
    {
        match self {
            Slot::Locked(lease) => *lease,
            _ => arbitrary(),
        }
    }

    /// True when this slot is locked under a lease that has expired at the
    /// monotonic reading `now`.
    pub open spec fn is_expired_spec(&self, now: u64) -> bool {
        self is Locked && self.lease_of().expired_spec(now)
    }
}

impl<T> Slot<T>
where
    T: Clone,
{
    /// Take the value out of this slot.
    pub fn unwrap(self) -> (r: T)
        requires
            !(self is Empty),
        ensures
            r == self.value_of(),
    {
        match self {
            Slot::Empty => unreached(),
            Slot::Filled(value) => value,
            Slot::Locked(lease) => lease.into_inner(),
        }
    }

    /// Check to see if this slot is currently empty.
    pub fn is_empty(&self) -> (r: bool)
        ensures
            r == (self is Empty),
    {
        matches!(self, Slot::Empty)
    }

    /// Check to see if this slot is currently filled and ready for reading.
    pub fn is_filled(&self) -> (r: bool)
        ensures
            r == (self is Filled),
    {
        matches!(self, Slot::Filled(..))
    }

    /// Check to see if this slot is currently locked and waiting for an
    /// ack/nack/expiration.
    pub fn is_locked(&self) -> (r: bool)
        ensures
            r == (self is Locked),
    {
        matches!(self, Slot::Locked(..))
    }

    /// Check to see if this slot is currently locked and also has a lease that
    /// is expired at the monotonic reading `now`.
    pub fn is_expired(&self, now: u64) -> (r: bool)
        ensures
            r == self.is_expired_spec(now),
    {
        match self {
            Slot::Locked(lease) => lease.expired(now),
            _ => false,
        }
    }

    /// Check to see if this slot is empty, returning an error if not.
    pub fn check_empty(&self) -> (r: Result<()>)
        ensures
            self is Empty <==> r == Ok::<(), Error>(()),
            !(self is Empty) <==> r == Err::<(), Error>(Error::MustBeEmpty),
    {
        if self.is_empty() {
            Ok(())
        } else {
            Err(Error::MustBeEmpty)
        }
    }

    /// Check to see if this slot is filled, returning an error if not.
    pub fn check_filled(&self) -> (r: Result<()>)
        ensures
            self is Filled <==> r == Ok::<(), Error>(()),
            !(self is Filled) <==> r == Err::<(), Error>(Error::MustBeFilled),
    {
        if self.is_filled() {
            Ok(())
        } else {
            Err(Error::MustBeFilled)
        }
    }

    /// Check to see if this slot is locked, returning an error if not.
    pub fn check_locked(&self) -> (r: Result<()>)
        ensures
            self is Locked <==> r == Ok::<(), Error>(()),
            !(self is Locked) <==> r == Err::<(), Error>(Error::MustBeLocked),
    {
        if self.is_locked() {
            Ok(())
        } else {
            Err(Error::MustBeLocked)
        }
    }

    /// Check whether the given locked slot is actually expired at `now`; if it
    /// is, this function transmutes self into a filled slot ready for a
    /// subscription to read (an internal nack).
    pub fn expired(&mut self, now: u64) -> (r: Result<bool>)
        ensures
            !(*old(self) is Locked) ==> r == Err::<bool, Error>(Error::MustBeLocked) && *final(self)
                == *old(self),
            old(self).is_expired_spec(now) ==> r == Ok::<bool, Error>(true) && *final(self)
                == Slot::Filled(old(self).value_of()),
            *old(self) is Locked && !old(self).is_expired_spec(now) ==> r == Ok::<bool, Error>(false)
                && *final(self) == *old(self),
    {
        let (is_exp, id) = match &*self {
            Slot::Locked(lease) => (lease.expired(now), lease.id()),
            _ => {
                return Err(Error::MustBeLocked);
            },
        };
        if is_exp {
            match self.nack(id) {
                Ok(()) => Ok(true),
                Err(err) => Err(err),
            }
        } else {
            Ok(false)
        }
    }

    /// Fill this slot with the supplied value; fails with [Error::MustBeEmpty]
    /// unless the slot is currently empty.
    pub fn fill(&mut self, value: T) -> (r: Result<()>)
        ensures
            *old(self) is Empty ==> r == Ok::<(), Error>(()) && *final(self) == Slot::Filled(value),
            !(*old(self) is Empty) ==> r == Err::<(), Error>(Error::MustBeEmpty) && *final(self)
                == *old(self),
    {
        match self.check_empty() {
            Ok(()) => {},
            Err(err) => {
                return Err(err);
            },
        }
        *self = Self::Filled(value);
        Ok(())
    }

    /// Lock this slot's value under a fresh lease with the supplied ttl,
    /// monotonic lease start `now` and identity `id`. The original value is
    /// returned; a clone of it stays captured in the lease for a possible
    /// nack. Fails with [Error::MustBeFilled] unless the slot is currently
    /// filled.
    pub fn lock(&mut self, ttl: u64, now: u64, id: u64) -> (r: Result<(u64, T)>)
        ensures
            !(*old(self) is Filled) ==> r == Err::<(u64, T), Error>(Error::MustBeFilled)
                && *final(self) == *old(self),
            *old(self) is Filled ==> {
                &&& r == Ok::<(u64, T), Error>((id, old(self).value_of()))
                &&& *final(self) is Locked
                &&& final(self).lease_of().ttl == ttl
                &&& final(self).lease_of().leased_at == now
                &&& final(self).lease_of().id == id
                &&& cloned::<T>(old(self).value_of(), final(self).lease_of().inner)
            },
            *old(self) is Filled && clone_faithful::<T>() ==> *final(self) == Slot::Locked(
                Lease { ttl, leased_at: now, id, inner: old(self).value_of() },
            ),
    {
        let mut taken = Slot::Empty;
        core::mem::swap(self, &mut taken);
        let value = match taken {
            Slot::Filled(value) => value,
            other => {
                *self = other;
                return Err(Error::MustBeFilled);
            },
        };
        *self = Slot::Locked(Lease::new(ttl, now, id, value.clone()));
        Ok((id, value))
    }

    /// Ack this slot, forgetting the previously stored value and returning the
    /// slot to empty. Fails with [Error::MustBeLocked] unless the slot is
    /// currently locked, and with [Error::InvalidOrExpiredLease] if `id` does
    /// not match the stored lease.
    pub fn ack(&mut self, id: u64) -> (r: Result<()>)
        ensures
            !(*old(self) is Locked) ==> r == Err::<(), Error>(Error::MustBeLocked) && *final(self)
                == *old(self),
            *old(self) is Locked && old(self).lease_of().id != id ==> r == Err::<(), Error>(
                Error::InvalidOrExpiredLease,
            ) && *final(self) == *old(self),
            *old(self) is Locked && old(self).lease_of().id == id ==> r == Ok::<(), Error>(())
                && *final(self) == Slot::<T>::Empty,
    {
        match self.check_locked() {
            Ok(()) => {},
            Err(err) => {
                return Err(err);
            },
        }
        let matches_id = match &*self {
            Slot::Locked(lease) => lease.valid(id),
            _ => false,
        };
        if !matches_id {
            return Err(Error::InvalidOrExpiredLease);
        }
        *self = Slot::Empty;
        Ok(())
    }

    /// Nack this slot, resetting it back to filled with the existing value.
    /// Fails with [Error::MustBeLocked] unless the slot is currently locked,
    /// and with [Error::InvalidOrExpiredLease] if `id` does not match the
    /// stored lease.
    pub fn nack(&mut self, id: u64) -> (r: Result<()>)
        ensures
            !(*old(self) is Locked) ==> r == Err::<(), Error>(Error::MustBeLocked) && *final(self)
                == *old(self),
            *old(self) is Locked && old(self).lease_of().id != id ==> r == Err::<(), Error>(
                Error::InvalidOrExpiredLease,
            ) && *final(self) == *old(self),
            *old(self) is Locked && old(self).lease_of().id == id ==> r == Ok::<(), Error>(())
                && *final(self) == Slot::Filled(old(self).value_of()),
    {
        match self.check_locked() {
            Ok(()) => {},
            Err(err) => {
                return Err(err);
            },
        }
        let mut taken = Slot::Empty;
        core::mem::swap(self, &mut taken);
        match taken {
            Slot::Locked(lease) => {
                if lease.valid(id) {
                    *self = Slot::Filled(lease.into_inner());
                    Ok(())
                } else {
                    *self = Slot::Locked(lease);
                    Err(Error::InvalidOrExpiredLease)
                }
            },
            other => {
                *self = other;
                Err(Error::MustBeLocked)
            },
        }
    }
}

} // verus!
