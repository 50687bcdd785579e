//! The in-memory backing store for the KV service: byte-string keys mapped to
//! byte-string payloads with per-entry TTL eviction.

use vstd::prelude::*;

use crate::ext::nanos_since;

verus! {

/// A stored value: its payload plus the TTL bookkeeping. `created` is a
/// monotonic reading, in nanoseconds relative to the owning store's epoch.
#[derive(Debug)]
pub struct Value {
    /// How long the value lives, in nanoseconds.
    pub ttl: u64,
    /// The monotonic time at which the value was stored.
    pub created: u64,
    /// The stored payload.
    pub payload: Vec<u8>,
}

impl Value {
    /// True when `now` is at or past the value's eviction deadline.
    pub open spec fn expired_spec(&self, now: u64) -> bool {
        self.created + self.ttl <= now
    }
}

/// True when `s` holds an entry keyed `key`.
pub open spec fn has_key(s: Seq<(Vec<u8>, Value)>, key: Seq<u8>) -> bool {
    exists|j: int| 0 <= j < s.len() && s[j].0@ == key
}

/// The index of the entry keyed `key` (unique when the keys are unique).
pub open spec fn index_of_key(s: Seq<(Vec<u8>, Value)>, key: Seq<u8>) -> int {
    choose|j: int| 0 <= j < s.len() && s[j].0@ == key
}

/// Each key occurs at most once.
pub open spec fn unique_keys(s: Seq<(Vec<u8>, Value)>) -> bool {
    forall|i: int, j: int| 0 <= i < j < s.len() ==> (#[trigger] s[i]).0@ != (#[trigger] s[j]).0@
}

/// Decide byte-string equality.
fn bytes_eq(a: &Vec<u8>, b: &Vec<u8>) -> (r: bool)
    ensures
        r == (a@ == b@),
{
    if a.len() != b.len() {
        return false;
    }
    let n = a.len();
    let mut i: usize = 0;
    while i < n
        invariant
            n == a@.len(),
            n == b@.len(),
            0 <= i <= n,
            forall|j: int| 0 <= j < i ==> a@[j] == b@[j],
        decreases n - i,
    {
        if a[i] != b[i] {
            return false;
        }
        i += 1;
    }
    proof {
        assert(a@ =~= b@);
    }
    true
}

/// Clone a byte string, preserving it exactly.
fn clone_bytes(a: &Vec<u8>) -> (r: Vec<u8>)
    ensures
        r@ == a@,
{
    let r = a.clone();
    proof {
        assert forall|i: int| 0 <= i < a@.len() implies r@[i] == a@[i] by {
            assert(cloned::<u8>(a@[i], r@[i]));
        }
        assert(r@ =~= a@);
    }
    r
}

/// An in-memory store of byte-string keys and payloads. Each entry carries a
/// TTL; an expired entry is evicted when it is next retrieved, with its
/// payload handed back one last time.
#[derive(Debug)]
pub struct HashStore {
    entries: Vec<(Vec<u8>, Value)>,
    epoch: std::time::Instant,
}

impl HashStore {
    /// The stored entries, in insertion order.
    pub closed spec fn entries_view(&self) -> Seq<(Vec<u8>, Value)> {
        self.entries@
    }

    /// Well-formed: each key occurs at most once.
    pub open spec fn wf(&self) -> bool {
        unique_keys(self.entries_view())
    }

    /// Create a new empty store.
    pub fn new() -> (r: HashStore)
        ensures
            r.entries_view() == Seq::<(Vec<u8>, Value)>::empty(),
            r.wf(),
    {
        let r = HashStore { entries: Vec::with_capacity(1024), epoch: std::time::Instant::now() };
        proof {
            assert(r.entries_view() =~= Seq::<(Vec<u8>, Value)>::empty());
        }
        r
    }

    /// Find the position of the entry keyed `key`, if any.
    fn find(&self, key: &Vec<u8>) -> (r: Option<usize>)
        requires
            self.wf(),
        ensures
            match r {
                Some(i) => i < self.entries_view().len() && self.entries_view()[i as int].0@
                    == key@ && i as int == index_of_key(self.entries_view(), key@),
                None => !has_key(self.entries_view(), key@),
            },
    {
        let n = self.entries.len();
        let mut i: usize = 0;
        while i < n
            invariant
                self.wf(),
                n == self.entries_view().len(),
                0 <= i <= n,
                forall|j: int| 0 <= j < i ==> (#[trigger] self.entries_view()[j]).0@ != key@,
            decreases n - i,
        {
            if bytes_eq(&self.entries[i].0, key) {
                proof {
                    assert(has_key(self.entries_view(), key@));
                    let k = index_of_key(self.entries_view(), key@);
                    if k != i as int {
                        assert(self.entries_view()[k].0@ == self.entries_view()[i as int].0@);
                    }
                }
                return Some(i);
            }
            i += 1;
        }
        proof {
            if has_key(self.entries_view(), key@) {
                let j = index_of_key(self.entries_view(), key@);
                assert(self.entries_view()[j].0@ != key@);
            }
        }
        None
    }

    /// Store `payload` under `key` with the given TTL, at the monotonic
    /// reading `now`: a fresh key is appended, an existing one has its value
    /// replaced and the old payload is returned.
    pub fn insert_at(&mut self, key: Vec<u8>, payload: Vec<u8>, ttl: u64, now: u64) -> (r: Option<
        Vec<u8>,
    >)
        requires
            old(self).wf(),
        ensures
            final(self).wf(),
            !has_key(old(self).entries_view(), key@) ==> r is None && final(self).entries_view()
                == old(self).entries_view().push((key, Value { ttl, created: now, payload })),
            has_key(old(self).entries_view(), key@) ==> {
                let i = index_of_key(old(self).entries_view(), key@);
                &&& r == Some(old(self).entries_view()[i].1.payload)
                &&& final(self).entries_view() == old(self).entries_view().update(
                    i,
                    (key, Value { ttl, created: now, payload }),
                )
            },
    {
        let ghost pre = self.entries@;
        match self.find(&key) {
            Some(i) => {
                let mut entry = (key, Value { ttl, created: now, payload });
                vstd::pervasive::VecAdditionalExecFns::set_and_swap(
                    &mut self.entries,
                    i,
                    &mut entry,
                );
                proof {
                    assert forall|a: int, b: int|
                        0 <= a < b < self.entries@.len() implies (#[trigger] self.entries@[a]).0@
                        != (#[trigger] self.entries@[b]).0@ by {
                        assert(self.entries@[a].0@ == pre[a].0@);
                        assert(self.entries@[b].0@ == pre[b].0@);
                    }
                }
                Some(entry.1.payload)
            },
            None => {
                self.entries.push((key, Value { ttl, created: now, payload }));
                proof {
                    assert forall|a: int, b: int|
                        0 <= a < b < self.entries@.len() implies (#[trigger] self.entries@[a]).0@
                        != (#[trigger] self.entries@[b]).0@ by {
                        if b == pre.len() as int {
                            assert(!has_key(pre, self.entries@[b].0@));
                            assert(pre[a].0@ != self.entries@[b].0@) by {
                                if pre[a].0@ == self.entries@[b].0@ {
                                    assert(has_key(pre, self.entries@[b].0@));
                                }
                            }
                        }
                    }
                }
                None
            },
        }
    }

    /// Retrieve the payload stored under `key`, judged at the monotonic
    /// reading `now`: a missing key yields nothing, a live entry yields a
    /// copy of its payload, and an expired entry is evicted with its payload
    /// handed back one last time.
    pub fn retrieve_at(&mut self, key: &Vec<u8>, now: u64) -> (r: Option<Vec<u8>>)
        requires
            old(self).wf(),
        ensures
            final(self).wf(),
            !has_key(old(self).entries_view(), key@) ==> r is None && *final(self) == *old(self),
            has_key(old(self).entries_view(), key@) ==> {
                let i = index_of_key(old(self).entries_view(), key@);
                let v = old(self).entries_view()[i].1;
                &&& !v.expired_spec(now) ==> (r matches Some(p) && p@ == v.payload@) && *final(self)
                    == *old(self)
                &&& v.expired_spec(now) ==> r == Some(v.payload) && final(self).entries_view()
                    == old(self).entries_view().remove(i)
            },
    {
        let ghost pre = self.entries@;
        let i = match self.find(key) {
            Some(i) => i,
            None => {
                return None;
            },
        };
        let expired = {
            let value = &self.entries[i].1;
            now >= value.created && now - value.created >= value.ttl
        };
        if expired {
            let (_, value) = self.entries.remove(i);
            proof {
                assert forall|a: int, b: int|
                    0 <= a < b < self.entries@.len() implies (#[trigger] self.entries@[a]).0@ != (
                #[trigger] self.entries@[b]).0@ by {
                    let a0 = if a < i as int { a } else { a + 1 };
                    let b0 = if b < i as int { b } else { b + 1 };
                    assert(self.entries@[a] == pre[a0] && self.entries@[b] == pre[b0]);
                }
            }
            Some(value.payload)
        } else {
            Some(clone_bytes(&self.entries[i].1.payload))
        }
    }

    /// Remove the entry stored under `key`, returning its payload if it
    /// existed.
    pub fn remove(&mut self, key: &Vec<u8>) -> (r: Option<Vec<u8>>)
        requires
            old(self).wf(),
        ensures
            final(self).wf(),
            !has_key(old(self).entries_view(), key@) ==> r is None && *final(self) == *old(self),
            has_key(old(self).entries_view(), key@) ==> {
                let i = index_of_key(old(self).entries_view(), key@);
                &&& r == Some(old(self).entries_view()[i].1.payload)
                &&& final(self).entries_view() == old(self).entries_view().remove(i)
            },
    {
        let ghost pre = self.entries@;
        let i = match self.find(key) {
            Some(i) => i,
            None => {
                return None;
            },
        };
        let (_, value) = self.entries.remove(i);
        proof {
            assert forall|a: int, b: int|
                0 <= a < b < self.entries@.len() implies (#[trigger] self.entries@[a]).0@ != (
            #[trigger] self.entries@[b]).0@ by {
                let a0 = if a < i as int { a } else { a + 1 };
                let b0 = if b < i as int { b } else { b + 1 };
                assert(self.entries@[a] == pre[a0] && self.entries@[b] == pre[b0]);
            }
        }
        Some(value.payload)
    }

    /// Retrieve the payload stored under `key`, judging expiry by the store's
    /// own clock.
    pub fn get(&mut self, key: &Vec<u8>) -> (r: Option<Vec<u8>>)
        requires
            old(self).wf(),
        ensures
            final(self).wf(),
            !has_key(old(self).entries_view(), key@) ==> r is None && *final(self) == *old(self),
    {
        let now = nanos_since(&self.epoch);
        self.retrieve_at(key, now)
    }

    /// Store `payload` under `key` with the given TTL, stamping it with the
    /// store's own clock. The old payload, if any, is returned.
    pub fn set(&mut self, key: Vec<u8>, payload: Vec<u8>, ttl: u64) -> (r: Option<Vec<u8>>)
        requires
            old(self).wf(),
        ensures
            final(self).wf(),
            has_key(final(self).entries_view(), key@),
            !has_key(old(self).entries_view(), key@) ==> r is None,
            has_key(old(self).entries_view(), key@) ==> r == Some(
                old(self).entries_view()[index_of_key(old(self).entries_view(), key@)].1.payload,
            ),
    {
        let now = nanos_since(&self.epoch);
        let ghost k = key@;
        let r = self.insert_at(key, payload, ttl, now);
        proof {
            let pre = old(self).entries_view();
            if !has_key(pre, k) {
                assert(self.entries_view()[pre.len() as int].0@ == k);
            } else {
                let i = index_of_key(pre, k);
                assert(self.entries_view()[i].0@ == k);
            }
        }
        r
    }

    /// Delete the entry stored under `key`, returning its payload if it
    /// existed.
    pub fn delete(&mut self, key: &Vec<u8>) -> (r: Option<Vec<u8>>)
        requires
            old(self).wf(),
        ensures
            final(self).wf(),
            !has_key(old(self).entries_view(), key@) ==> r is None && *final(self) == *old(self),
            has_key(old(self).entries_view(), key@) ==> {
                let i = index_of_key(old(self).entries_view(), key@);
                &&& r == Some(old(self).entries_view()[i].1.payload)
                &&& final(self).entries_view() == old(self).entries_view().remove(i)
            },
            !has_key(final(self).entries_view(), key@),
    {
        let ghost pre = self.entries@;
        let ghost k = key@;
        let r = self.remove(key);
        proof {
            if has_key(self.entries_view(), k) {
                let j = index_of_key(self.entries_view(), k);
                if has_key(pre, k) {
                    let i = index_of_key(pre, k);
                    let j0 = if j < i { j } else { j + 1 };
                    assert(pre[j0].0@ == k);
                    assert(pre[i].0@ == k);
                }
            }
        }
        r
    }
}

impl Default for HashStore {
    /// A fresh empty store.
    fn default() -> (r: Self)
        ensures
            r.entries_view() == Seq::<(Vec<u8>, Value)>::empty(),
            r.wf(),
    {
        Self::new()
    }
}

} // verus!
