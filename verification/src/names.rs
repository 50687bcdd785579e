//! A map from names to values, kept ascending by name.

use vstd::prelude::*;

use crate::order::{
    chars_lt, lemma_chars_lt_irreflexive, lemma_chars_lt_total, lemma_chars_lt_transitive, str_lt,
};

verus! {

/// True when `s` holds an entry named `name`.
pub open spec fn has_name<V>(s: Seq<(String, V)>, name: Seq<char>) -> bool {
    exists|j: int| 0 <= j < s.len() && s[j].0@ == name
}

/// The index of the entry named `name` (unique when the names are sorted).
pub open spec fn index_of_name<V>(s: Seq<(String, V)>, name: Seq<char>) -> int {
    choose|j: int| 0 <= j < s.len() && s[j].0@ == name
}

/// Entries strictly ascending by name.
pub open spec fn sorted_names<V>(s: Seq<(String, V)>) -> bool {
    forall|i: int, j: int| 0 <= i < j < s.len() ==> chars_lt(s[i].0@, s[j].0@)
}

/// In a sorted sequence each name occurs at most once.
pub proof fn lemma_sorted_names_unique<V>(s: Seq<(String, V)>, i: int, j: int)
    requires
        sorted_names(s),
        0 <= i < s.len(),
        0 <= j < s.len(),
        s[i].0@ == s[j].0@,
    ensures
        i == j,
{
    if i < j {
        assert(chars_lt(s[i].0@, s[j].0@));
        lemma_chars_lt_irreflexive(s[i].0@);
    }
    if j < i {
        assert(chars_lt(s[j].0@, s[i].0@));
        lemma_chars_lt_irreflexive(s[i].0@);
    }
}

/// Creation is idempotent: after inserting `(name, v)` at the position `p`
/// that keeps the names ascending (which is what creating an absent entry
/// does), the name maps to exactly that entry; a second create therefore
/// finds it, changes nothing, and returns the same entity — in particular
/// the same creation timestamp.
pub proof fn lemma_insert_then_find<V>(s0: Seq<(String, V)>, name: String, v: V, p: int)
    requires
        sorted_names(s0),
        !has_name(s0, name@),
        0 <= p <= s0.len(),
        forall|j: int| 0 <= j < p ==> chars_lt(#[trigger] s0[j].0@, name@),
        forall|j: int| p <= j < s0.len() ==> chars_lt(name@, #[trigger] s0[j].0@),
    ensures
        sorted_names(s0.insert(p, (name, v))),
        has_name(s0.insert(p, (name, v)), name@),
        index_of_name(s0.insert(p, (name, v)), name@) == p,
        s0.insert(p, (name, v))[p] == (name, v),
{
    let s1 = s0.insert(p, (name, v));
    assert forall|a: int, b: int| 0 <= a < b < s1.len() implies chars_lt(
        s1[a].0@,
        s1[b].0@,
    ) by {
        if a < p && b == p {
        } else if a == p && b > p {
            assert(s1[b] == s0[b - 1]);
        } else if b < p {
            assert(s1[a] == s0[a] && s1[b] == s0[b]);
        } else if a > p {
            assert(s1[a] == s0[a - 1] && s1[b] == s0[b - 1]);
        } else {
            assert(s1[a] == s0[a] && s1[b] == s0[b - 1]);
            lemma_chars_lt_transitive(s0[a].0@, name@, s0[b - 1].0@);
        }
    }
    assert(s1[p].0@ == name@);
    assert(has_name(s1, name@));
    lemma_sorted_names_unique(s1, p, index_of_name(s1, name@));
}

/// Create, delete, get: inserting an absent entry and then removing it by
/// name restores the original entries, so a lookup of the name misses.
pub proof fn lemma_insert_remove_roundtrip<V>(s0: Seq<(String, V)>, name: String, v: V, p: int)
    requires
        sorted_names(s0),
        !has_name(s0, name@),
        0 <= p <= s0.len(),
        forall|j: int| 0 <= j < p ==> chars_lt(#[trigger] s0[j].0@, name@),
        forall|j: int| p <= j < s0.len() ==> chars_lt(name@, #[trigger] s0[j].0@),
    ensures
        s0.insert(p, (name, v)).remove(index_of_name(s0.insert(p, (name, v)), name@)) == s0,
        !has_name(s0.insert(p, (name, v)).remove(index_of_name(s0.insert(p, (name, v)), name@)), name@),
{
    lemma_insert_then_find(s0, name, v, p);
    let s1 = s0.insert(p, (name, v));
    assert(s1.remove(p) =~= s0);
}

/// A container mapping names to values, kept strictly ascending by name, so
/// that iteration yields names in ascending lexicographic order and each name
/// occurs at most once.
#[derive(Debug)]
pub struct NameMap<V> {
    entries: Vec<(String, V)>,
}

impl<V> Clone for NameMap<V> where V: Clone {
    /// A clone keeps the names (and their order) and clones each value.
    fn clone(&self) -> (r: Self)
        ensures
            r.entries_view().len() == self.entries_view().len(),
            forall|i: int|
                0 <= i < self.entries_view().len() ==> (#[trigger] r.entries_view()[i]).0
                    == self.entries_view()[i].0 && cloned::<V>(
                    self.entries_view()[i].1,
                    r.entries_view()[i].1,
                ),
            self.wf() ==> r.wf(),
    {
        let n = self.entries.len();
        let mut entries: Vec<(String, V)> = Vec::with_capacity(n);
        let mut i: usize = 0;
        while i < n
            invariant
                n == self.entries@.len(),
                0 <= i <= n,
                entries@.len() == i,
                forall|j: int|
                    0 <= j < i ==> (#[trigger] entries@[j]).0 == self.entries@[j].0 && cloned::<
                        V,
                    >(self.entries@[j].1, entries@[j].1),
            decreases n - i,
        {
            let name = self.entries[i].0.clone();
            let value = self.entries[i].1.clone();
            entries.push((name, value));
            i += 1;
        }
        let r = NameMap { entries };
        proof {
            if self.wf() {
                assert forall|a: int, b: int|
                    0 <= a < b < r.entries_view().len() implies chars_lt(
                    r.entries_view()[a].0@,
                    r.entries_view()[b].0@,
                ) by {
                    assert(r.entries_view()[a].0 == self.entries_view()[a].0);
                    assert(r.entries_view()[b].0 == self.entries_view()[b].0);
                }
            }
        }
        r
    }
}

impl<V> NameMap<V> {
    /// The entries of this map, ascending by name.
    pub closed spec fn entries_view(&self) -> Seq<(String, V)> {
        self.entries@
    }

    /// Well-formed: the names are strictly ascending.
    pub open spec fn wf(&self) -> bool {
        sorted_names(self.entries_view())
    }

    /// True when this map holds an entry named `name`.
    pub open spec fn contains_spec(&self, name: Seq<char>) -> bool {
        has_name(self.entries_view(), name)
    }

    /// Create a new empty map.
    pub fn new() -> (r: Self)
        ensures
            r.entries_view() == Seq::<(String, V)>::empty(),
            r.wf(),
    {
        let r = NameMap { entries: Vec::new() };
        proof {
            assert(r.entries_view() =~= Seq::<(String, V)>::empty());
        }
        r
    }

    /// Create a new empty map with a predefined initial capacity.
    pub fn with_capacity(cap: usize) -> (r: Self)
        ensures
            r.entries_view() == Seq::<(String, V)>::empty(),
            r.wf(),
    {
        let r = NameMap { entries: Vec::with_capacity(cap) };
        proof {
            assert(r.entries_view() =~= Seq::<(String, V)>::empty());
        }
        r
    }

    /// The number of entries.
    pub fn len(&self) -> (n: usize)
        ensures
            n == self.entries_view().len(),
    {
        self.entries.len()
    }

    /// The name of the entry at position `i`.
    pub fn name_at(&self, i: usize) -> (r: &String)
        requires
            i < self.entries_view().len(),
        ensures
            *r == self.entries_view()[i as int].0,
    {
        &self.entries[i].0
    }

    /// The value of the entry at position `i`.
    pub fn value_at(&self, i: usize) -> (r: &V)
        requires
            i < self.entries_view().len(),
        ensures
            *r == self.entries_view()[i as int].1,
    {
        &self.entries[i].1
    }

    /// A mutable borrow of the value of the entry at position `i`. The names
    /// are untouched, so well-formedness is preserved.
    pub fn value_at_mut(&mut self, i: usize) -> (r: &mut V)
        requires
            i < old(self).entries_view().len(),
        ensures
            *r == old(self).entries_view()[i as int].1,
            final(self).entries_view() == old(self).entries_view().update(
                i as int,
                (old(self).entries_view()[i as int].0, *final(r)),
            ),
    {
        &mut self.entries[i].1
    }

    /// Find the position of the entry named `name`, if any.
    pub fn find(&self, name: &String) -> (r: Option<usize>)
        requires
            self.wf(),
        ensures
            match r {
                Some(i) => i < self.entries_view().len() && self.entries_view()[i as int].0@
                    == name@ && i as int == index_of_name(self.entries_view(), name@),
                None => !self.contains_spec(name@),
            },
    {
        let n = self.entries.len();
        let mut i: usize = 0;
        while i < n
            invariant
                self.wf(),
                n == self.entries_view().len(),
                0 <= i <= n,
                forall|j: int| 0 <= j < i ==> self.entries_view()[j].0@ != name@,
            decreases n - i,
        {
            if self.entries[i].0 == *name {
                proof {
                    assert(has_name(self.entries_view(), name@));
                    lemma_sorted_names_unique(
                        self.entries_view(),
                        i as int,
                        index_of_name(self.entries_view(), name@),
                    );
                }
                return Some(i);
            }
            i += 1;
        }
        proof {
            if has_name(self.entries_view(), name@) {
                let j = index_of_name(self.entries_view(), name@);
                assert(self.entries_view()[j].0@ != name@);
            }
        }
        None
    }

    /// Insert a fresh entry, keeping the names ascending. The new entry lands
    /// at the unique position that keeps the order; everything else is
    /// untouched.
    pub fn insert_new(&mut self, name: String, value: V)
        requires
            old(self).wf(),
            !old(self).contains_spec(name@),
        ensures
            final(self).wf(),
            final(self).contains_spec(name@),
            exists|p: int|
                {
                    &&& 0 <= p <= old(self).entries_view().len()
                    &&& final(self).entries_view() == old(self).entries_view().insert(
                        p,
                        (name, value),
                    )
                    &&& forall|j: int|
                        0 <= j < p ==> chars_lt(
                            #[trigger] old(self).entries_view()[j].0@,
                            name@,
                        )
                    &&& forall|j: int|
                        p <= j < old(self).entries_view().len() ==> chars_lt(
                            name@,
                            #[trigger] old(self).entries_view()[j].0@,
                        )
                },
    {
        let ghost pre = self.entries@;
        let n = self.entries.len();
        let mut p: usize = 0;
        let mut found: bool = false;
        while p < n && !found
            invariant
                n == self.entries@.len(),
                self.entries@ == pre,
                0 <= p <= n,
                forall|j: int| 0 <= j < p ==> chars_lt(#[trigger] pre[j].0@, name@),
                found ==> p < n && !chars_lt(pre[p as int].0@, name@),
            decreases n - p + (if found { 0int } else { 1int }),
        {
            if str_lt(self.entries[p].0.as_str(), name.as_str()) {
                p += 1;
            } else {
                found = true;
            }
        }
        proof {
            assert forall|j: int| p <= j < pre.len() implies chars_lt(
                name@,
                #[trigger] pre[j].0@,
            ) by {
                assert(!has_name(pre, name@));
                assert(pre[j].0@ != name@);
                if j == p as int {
                    lemma_chars_lt_total(pre[j].0@, name@);
                } else {
                    assert(chars_lt(pre[p as int].0@, pre[j].0@));
                    lemma_chars_lt_total(pre[p as int].0@, name@);
                    lemma_chars_lt_transitive(name@, pre[p as int].0@, pre[j].0@);
                }
            }
        }
        self.entries.insert(p, (name, value));
        proof {
            let post = self.entries@;
            assert(post == pre.insert(p as int, (name, value)));
            assert forall|i: int, j: int| 0 <= i < j < post.len() implies chars_lt(
                post[i].0@,
                post[j].0@,
            ) by {
                if i < p as int && j == p as int {
                } else if i == p as int && j > p as int {
                } else if j < p as int {
                    assert(post[i] == pre[i] && post[j] == pre[j]);
                } else if i > p as int {
                    assert(post[i] == pre[i - 1] && post[j] == pre[j - 1]);
                } else {
                    assert(i < p as int && j > p as int);
                    assert(post[i] == pre[i] && post[j] == pre[j - 1]);
                    lemma_chars_lt_transitive(pre[i].0@, name@, pre[j - 1].0@);
                }
            }
            assert(post[p as int].0@ == name@);
            assert(has_name(post, name@));
        }
    }

    /// Remove the entry named `name`, if any, returning its value.
    pub fn remove(&mut self, name: &String) -> (r: Option<V>)
        requires
            old(self).wf(),
        ensures
            final(self).wf(),
            !old(self).contains_spec(name@) ==> r is None && *final(self) == *old(self),
            old(self).contains_spec(name@) ==> {
                let i = index_of_name(old(self).entries_view(), name@);
                &&& r == Some(old(self).entries_view()[i].1)
                &&& final(self).entries_view() == old(self).entries_view().remove(i)
            },
            !final(self).contains_spec(name@),
    {
        let ghost pre = self.entries@;
        let found = self.find(name);
        match found {
            Some(i) => {
                let (_, value) = self.entries.remove(i);
                proof {
                    let post = self.entries@;
                    assert forall|a: int, b: int| 0 <= a < b < post.len() implies chars_lt(
                        post[a].0@,
                        post[b].0@,
                    ) by {
                        let a0 = if a < i as int { a } else { a + 1 };
                        let b0 = if b < i as int { b } else { b + 1 };
                        assert(post[a] == pre[a0] && post[b] == pre[b0]);
                    }
                    if has_name(post, name@) {
                        let j = index_of_name(post, name@);
                        let j0 = if j < i as int { j } else { j + 1 };
                        assert(pre[j0].0@ == name@);
                        lemma_sorted_names_unique(pre, j0, i as int);
                    }
                }
                Some(value)
            },
            None => {
                proof {
                    if has_name(self.entries@, name@) {
                    }
                }
                None
            },
        }
    }
}

} // verus!
