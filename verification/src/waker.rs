//! The FIFO registry of parked consumer wake handles.

use vstd::prelude::*;

use crate::ext::invoke_wake;

verus! {

/// A waker instance is responsible for tracking in-flight stream tasks waiting
/// for new messages. The ordering of wake events is a round robin FIFO
/// implementation: each entry pairs a consumer identity with the task wake
/// handle to invoke.
#[derive(Debug)]
pub struct Waker {
    entries: Vec<(u128, std::task::Waker)>,
}

/// One registration step at the level of consumer identities: a fresh identity
/// is appended to the FIFO, an already registered one keeps its position.
pub open spec fn register_one(ids: Seq<u128>, id: u128) -> Seq<u128> {
    if ids.contains(id) {
        ids
    } else {
        ids.push(id)
    }
}

/// The identities a FIFO holds after registering `cs` in order, oldest first.
pub open spec fn register_all(ids: Seq<u128>, cs: Seq<u128>) -> Seq<u128>
    decreases cs.len(),
{
    if cs.len() == 0 {
        ids
    } else {
        register_all(register_one(ids, cs[0]), cs.drop_first())
    }
}

impl Default for Waker {
    /// A fresh empty waker registry.
    fn default() -> (r: Self)
        ensures
            r.ids() == Seq::<u128>::empty(),
            r.wf(),
    {
        Self::new()
    }
}

impl Waker {
    /// The number of parked consumers.
    pub fn len(&self) -> (n: usize)
        ensures
            n == self.ids().len(),
    {
        self.entries.len()
    }

    /// The registered entries, oldest first.
    pub closed spec fn entries_view(&self) -> Seq<(u128, std::task::Waker)> {
        self.entries@
    }

    /// The registered consumer identities, oldest first.
    pub open spec fn ids(&self) -> Seq<u128> {
        self.entries_view().map(|i: int, e: (u128, std::task::Waker)| e.0)
    }

    /// Well-formed: no consumer identity occupies two FIFO positions.
    pub open spec fn wf(&self) -> bool {
        forall|i: int, j: int|
            0 <= i < j < self.ids().len() ==> self.ids()[i] != self.ids()[j]
    }

    /// Generate a new empty waker.
    pub fn new() -> (r: Self)
        ensures
            r.ids() == Seq::<u128>::empty(),
            r.wf(),
    {
        let r = Self { entries: Vec::new() };
        proof {
            assert(r.ids() =~= Seq::<u128>::empty());
        }
        r
    }

    /// Generate a new waker with a predefined initial capacity for wakers.
    pub fn with_capacity(cap: usize) -> (r: Self)
        ensures
            r.ids() == Seq::<u128>::empty(),
            r.wf(),
    {
        let r = Self { entries: Vec::with_capacity(cap) };
        proof {
            assert(r.ids() =~= Seq::<u128>::empty());
        }
        r
    }

    /// Register the given identity/handle combination with this waker
    /// instance. If the given identity is already registered the original
    /// handle is overwritten with the new one, and the identity keeps its
    /// position in the FIFO (it is not enqueued a second time).
    pub fn register(&mut self, id: u128, waker: std::task::Waker)
        requires
            old(self).wf(),
        ensures
            final(self).wf(),
            final(self).ids() == register_one(old(self).ids(), id),
            !old(self).ids().contains(id) ==> final(self).entries_view()
                == old(self).entries_view().push((id, waker)),
            old(self).ids().contains(id) ==> exists|j: int|
                0 <= j < old(self).ids().len() && old(self).ids()[j] == id
                    && final(self).entries_view() == old(self).entries_view().update(
                    j,
                    (id, waker),
                ),
    {
        let ghost old_ids = self.ids();
        let n = self.entries.len();
        let mut i: usize = 0;
        let mut found: bool = false;
        while i < n && !found
            invariant
                n == self.entries@.len(),
                0 <= i <= n,
                forall|j: int| 0 <= j < i ==> self.ids()[j] != id,
                found ==> i < n && self.ids()[i as int] == id,
            decreases n - i + (if found { 0int } else { 1int }),
        {
            if self.entries[i].0 == id {
                found = true;
            } else {
                i += 1;
            }
        }
        if found {
            proof {
                assert(old_ids.contains(id));
            }
            self.entries[i] = (id, waker);
            proof {
                assert(final(self).ids() =~= old_ids);
            }
        } else {
            proof {
                assert(!old_ids.contains(id)) by {
                    if old_ids.contains(id) {
                        let j = choose|j: int| 0 <= j < old_ids.len() && old_ids[j] == id;
                        assert(self.ids()[j] != id);
                    }
                }
            }
            self.entries.push((id, waker));
            proof {
                assert(final(self).ids() =~= old_ids.push(id));
            }
        }
    }

    /// Remove and return the oldest registered entry, if any: the identity and
    /// the handle that a wake will invoke.
    pub fn wake_oldest(&mut self) -> (r: Option<(u128, std::task::Waker)>)
        requires
            old(self).wf(),
        ensures
            final(self).wf(),
            old(self).ids().len() == 0 ==> r is None && *final(self) == *old(self),
            old(self).ids().len() > 0 ==> {
                &&& r == Some(old(self).entries_view()[0])
                &&& final(self).entries_view() == old(self).entries_view().drop_first()
                &&& final(self).ids() == old(self).ids().drop_first()
            },
    {
        if self.entries.len() == 0 {
            return None;
        }
        let entry = self.entries.remove(0);
        proof {
            assert(final(self).entries_view() =~= old(self).entries_view().drop_first());
            assert(final(self).ids() =~= old(self).ids().drop_first());
        }
        Some(entry)
    }

    /// Wake the oldest known waker in this instance; if no wakers are
    /// registered this is effectively a no-op and `false` is returned.
    pub fn wake(&mut self) -> (r: bool)
        requires
            old(self).wf(),
        ensures
            final(self).wf(),
            old(self).ids().len() == 0 ==> r == false && *final(self) == *old(self),
            old(self).ids().len() > 0 ==> r == true && final(self).ids()
                == old(self).ids().drop_first(),
    {
        match self.wake_oldest() {
            Some((_, handle)) => {
                invoke_wake(handle);
                true
            },
            None => false,
        }
    }
}

/// Waker fairness: registering the distinct identities `cs` in order on an
/// empty FIFO parks them in exactly that order, so the successive wakes that
/// successive pushes perform (each removing the first identity) wake them in
/// registration order: the k-th wake removes `cs[k]`.
pub proof fn lemma_waker_fifo_fairness(cs: Seq<u128>)
    requires
        forall|i: int, j: int| 0 <= i < j < cs.len() ==> cs[i] != cs[j],
    ensures
        register_all(Seq::<u128>::empty(), cs) == cs,
        forall|k: int|
            0 <= k < cs.len() ==> #[trigger] register_all(Seq::<u128>::empty(), cs).skip(k)[0]
                == cs[k],
{
    lemma_register_all_fresh(Seq::<u128>::empty(), cs);
    assert(Seq::<u128>::empty() + cs =~= cs);
    assert forall|k: int| 0 <= k < cs.len() implies #[trigger] register_all(
        Seq::<u128>::empty(),
        cs,
    ).skip(k)[0] == cs[k] by {
        assert(cs.skip(k)[0] == cs[k]);
    }
}

/// Registering identities that are distinct and all fresh appends them in
/// order.
proof fn lemma_register_all_fresh(ids: Seq<u128>, cs: Seq<u128>)
    requires
        forall|i: int, j: int| 0 <= i < j < cs.len() ==> cs[i] != cs[j],
        forall|k: int| 0 <= k < cs.len() ==> !ids.contains(#[trigger] cs[k]),
    ensures
        register_all(ids, cs) == ids + cs,
    decreases cs.len(),
{
    if cs.len() == 0 {
        assert(register_all(ids, cs) =~= ids + cs);
    } else {
        let ids1 = register_one(ids, cs[0]);
        assert(!ids.contains(cs[0]));
        assert(ids1 == ids.push(cs[0]));
        let rest = cs.drop_first();
        assert forall|k: int| 0 <= k < rest.len() implies !ids1.contains(#[trigger] rest[k]) by {
            assert(rest[k] == cs[k + 1]);
            if ids1.contains(rest[k]) {
                let j = choose|j: int| 0 <= j < ids1.len() && ids1[j] == rest[k];
                if j < ids.len() {
                    assert(ids.contains(rest[k]));
                } else {
                    assert(ids1[j] == cs[0]);
                }
            }
        };
        lemma_register_all_fresh(ids1, rest);
        assert(register_all(ids, cs) == ids.push(cs[0]) + rest);
        assert(ids.push(cs[0]) + rest =~= ids + cs);
    }
}

} // verus!
