//! The process-wide registry of topics.

use vstd::prelude::*;

use crate::names::{has_name, index_of_name, sorted_names, NameMap};
use crate::sub::Sub;
use crate::topic::Topic;

verus! {

/// Handles managing and tracking the lifecycle of a set of topics, keyed and
/// ordered by name.
#[derive(Debug)]
pub struct Registry<T> {
    /// The topics of this registry, keyed and ordered by name.
    pub topics: NameMap<Topic<T>>,
}

impl<T> Registry<T> {
    /// The topics of this registry, ascending by name.
    pub open spec fn topics_view(&self) -> Seq<(String, Topic<T>)> {
        self.topics.entries_view()
    }

    /// Well-formed: topic names are strictly ascending and each topic is
    /// well-formed.
    pub open spec fn wf(&self) -> bool {
        &&& sorted_names(self.topics_view())
        &&& forall|i: int| 0 <= i < self.topics_view().len() ==> (#[trigger] self.topics_view()[i]).1.wf()
    }

    /// Create a new topic manager with an initial capacity.
    pub fn with_capacity(cap: usize) -> (r: Self)
        ensures
            r.topics_view() == Seq::<(String, Topic<T>)>::empty(),
            r.wf(),
    {
        Self { topics: NameMap::with_capacity(cap) }
    }

    /// The number of topics in this registry.
    pub fn len(&self) -> (n: usize)
        ensures
            n == self.topics_view().len(),
    {
        self.topics.len()
    }

    /// The names of this registry's topics, in ascending lexicographic order.
    pub fn names(&self) -> (r: Vec<String>)
        requires
            self.wf(),
        ensures
            r@.len() == self.topics_view().len(),
            forall|i: int| 0 <= i < r@.len() ==> #[trigger] r@[i] == self.topics_view()[i].0,
    {
        let n = self.topics.len();
        let mut names: Vec<String> = Vec::with_capacity(n);
        let mut i: usize = 0;
        while i < n
            invariant
                n == self.topics_view().len(),
                0 <= i <= n,
                names@.len() == i,
                forall|j: int| 0 <= j < i ==> #[trigger] names@[j] == self.topics_view()[j].0,
            decreases n - i,
        {
            names.push(self.topics.name_at(i).clone());
            i += 1;
        }
        names
    }
}

impl<T> Default for Registry<T> {
    /// An empty registry.
    fn default() -> (r: Self)
        ensures
            r.topics_view() == Seq::<(String, Topic<T>)>::empty(),
            r.wf(),
    {
        Registry { topics: NameMap::new() }
    }
}

impl<T> Registry<T> where T: Clone {
    /// Create a new topic, store it, and return a snapshot of it for use.
    /// Creation is idempotent: when the name is already present, the registry
    /// is unchanged and a snapshot of the existing topic (same creation
    /// timestamp) is returned; otherwise a fresh empty topic is inserted at
    /// the position that keeps the names ascending.
    pub fn create(&mut self, name: String) -> (r: Topic<T>)
        requires
            old(self).wf(),
        ensures
            final(self).wf(),
            has_name(old(self).topics_view(), name@) ==> {
                let i = index_of_name(old(self).topics_view(), name@);
                &&& *final(self) == *old(self)
                &&& r.created == old(self).topics_view()[i].1.created
                &&& r.updated == old(self).topics_view()[i].1.updated
            },
            !has_name(old(self).topics_view(), name@) ==> {
                &&& exists|p: int|
                    {
                        &&& 0 <= p <= old(self).topics_view().len()
                        &&& final(self).topics_view() == old(self).topics_view().insert(
                            p,
                            (name, final(self).topics_view()[p].1),
                        )
                        &&& final(self).topics_view()[p].1.subs() == Seq::<
                            (String, Sub<T>),
                        >::empty()
                        &&& final(self).topics_view()[p].1.created == r.created
                        &&& final(self).topics_view()[p].1.updated is None
                    }
                &&& has_name(final(self).topics_view(), name@)
                &&& r.updated is None
            },
    {
        match self.topics.find(&name) {
            Some(i) => {
                let r = self.topics.value_at(i).clone();
                proof {
                    crate::names::lemma_sorted_names_unique(
                        self.topics_view(),
                        i as int,
                        index_of_name(self.topics_view(), name@),
                    );
                }
                r
            },
            None => {
                let topic = Topic::with_capacity(0);
                let snapshot = topic.clone();
                self.topics.insert_new(name, topic);
                snapshot
            },
        }
    }

    /// Delete the specified topic if it exists, returning it.
    pub fn delete(&mut self, name: &String) -> (r: Option<Topic<T>>)
        requires
            old(self).wf(),
        ensures
            final(self).wf(),
            !has_name(old(self).topics_view(), name@) ==> r is None && *final(self) == *old(self),
            has_name(old(self).topics_view(), name@) ==> {
                let i = index_of_name(old(self).topics_view(), name@);
                &&& r == Some(old(self).topics_view()[i].1)
                &&& final(self).topics_view() == old(self).topics_view().remove(i)
            },
            !has_name(final(self).topics_view(), name@),
    {
        self.topics.remove(name)
    }

    /// Retrieve a snapshot of the specified topic if it exists, otherwise
    /// returning [None].
    pub fn get(&self, name: &String) -> (r: Option<Topic<T>>)
        requires
            self.wf(),
        ensures
            !has_name(self.topics_view(), name@) ==> r is None,
            has_name(self.topics_view(), name@) ==> {
                let i = index_of_name(self.topics_view(), name@);
                &&& r is Some
                &&& r.unwrap().created == self.topics_view()[i].1.created
                &&& r.unwrap().updated == self.topics_view()[i].1.updated
            },
    {
        match self.topics.find(name) {
            Some(i) => Some(self.topics.value_at(i).clone()),
            None => None,
        }
    }
}

} // verus!
