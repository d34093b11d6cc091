//! A table keyed by session or tool-call id, each key at most once.
use vstd::prelude::*;

use crate::text::str_eq;

verus! {

/// The table after `insert_new`: an id already present keeps its entry.
pub open spec fn inserted_new<V>(m: Map<Seq<char>, V>, key: Seq<char>, value: V) -> Map<
    Seq<char>,
    V,
> {
    if m.contains_key(key) {
        m
    } else {
        m.insert(key, value)
    }
}

/// Entries keyed by string id; a key is never held twice.
pub struct Registry<V> {
    entries: Vec<(String, V)>,
    contents: Ghost<Map<Seq<char>, V>>,
}

impl<V> Registry<V> {
    /// The entries as a map from id to value.
    pub closed spec fn view(&self) -> Map<Seq<char>, V> {
        self.contents@
    }

    pub closed spec fn wf(&self) -> bool {
        &&& forall|i: int, j: int|
            0 <= i < self.entries.len() && 0 <= j < self.entries.len() && i != j
                ==> (#[trigger] self.entries@[i]).0@ != (#[trigger] self.entries@[j]).0@
        &&& forall|i: int|
            0 <= i < self.entries.len() ==> {
                &&& self.contents@.contains_key((#[trigger] self.entries@[i]).0@)
                &&& self.contents@[self.entries@[i].0@] == self.entries@[i].1
            }
        &&& forall|k: Seq<char>|
            #[trigger] self.contents@.contains_key(k) ==> exists|i: int|
                0 <= i < self.entries.len() && (#[trigger] self.entries@[i]).0@ == k
    }

    /// An empty table.
    pub fn new() -> (r: Self)
        ensures
            r.wf(),
            r@ == Map::<Seq<char>, V>::empty(),
    {
        Registry { entries: Vec::new(), contents: Ghost(Map::empty()) }
    }

    fn index_of(&self, key: &str) -> (r: Option<usize>)
        requires
            self.wf(),
        ensures
            match r {
                Some(i) => i < self.entries.len() && self.entries@[i as int].0@ == key@,
                None => !self@.contains_key(key@),
            },
    {
        let mut i: usize = 0;
        while i < self.entries.len()
            invariant
                self.wf(),
                i <= self.entries.len(),
                forall|j: int| 0 <= j < i ==> (#[trigger] self.entries@[j]).0@ != key@,
            decreases self.entries.len() - i,
        {
            if str_eq(self.entries[i].0.as_str(), key) {
                return Some(i);
            }
            i = i + 1;
        }
        None
    }

    /// Whether the id has an entry.
    pub fn contains(&self, key: &str) -> (r: bool)
        requires
            self.wf(),
        ensures
            r == self@.contains_key(key@),
    {
        self.index_of(key).is_some()
    }

    /// The entry of the id, if there is one.
    pub fn get(&self, key: &str) -> (r: Option<&V>)
        requires
            self.wf(),
        ensures
            match r {
                Some(v) => self@.contains_key(key@) && *v == self@[key@],
                None => !self@.contains_key(key@),
            },
    {
        match self.index_of(key) {
            Some(i) => Some(&self.entries[i].1),
            None => None,
        }
    }

    /// Adds an entry for an id that has none; an id that has one keeps it, and
    /// the value is handed back.
    pub fn insert_new(&mut self, key: String, value: V) -> (r: Result<(), V>)
        requires
            old(self).wf(),
        ensures
            final(self).wf(),
            final(self)@ == inserted_new(old(self)@, key@, value),
            old(self)@.contains_key(key@) ==> r == Err::<(), V>(value),
            !old(self)@.contains_key(key@) ==> r is Ok,
    {
        if self.index_of(key.as_str()).is_some() {
            return Err(value);
        }
        let ghost k = key@;
        let ghost v = value;
        self.entries.push((key, value));
        self.contents = Ghost(self.contents@.insert(k, v));
        proof {
            let n = self.entries.len() - 1;
            assert forall|k2: Seq<char>| #[trigger] self.contents@.contains_key(k2) implies exists|
                i: int,
            | 0 <= i < self.entries.len() && (#[trigger] self.entries@[i]).0@ == k2 by {
                if k2 == k {
                    assert(self.entries@[n as int].0@ == k2);
                } else {
                    assert(old(self).contents@.contains_key(k2));
                    let i = choose|i: int|
                        0 <= i < old(self).entries.len() && (#[trigger] old(
                            self,
                        ).entries@[i]).0@ == k2;
                    assert(self.entries@[i].0@ == k2);
                }
            }
        }
        Ok(())
    }

    /// Takes out the entry of an id, if there is one.
    pub fn remove(&mut self, key: &str) -> (r: Option<V>)
        requires
            old(self).wf(),
        ensures
            final(self).wf(),
            final(self)@ == old(self)@.remove(key@),
            match r {
                Some(v) => old(self)@.contains_key(key@) && v == old(self)@[key@],
                None => !old(self)@.contains_key(key@),
            },
    {
        match self.index_of(key) {
            None => {
                assert(self@.remove(key@) =~= self@);
                None
            },
            Some(i) => {
                let ghost old_entries = self.entries@;
                let (_, v) = self.entries.remove(i);
                self.contents = Ghost(self.contents@.remove(key@));
                proof {
                    assert forall|j: int| 0 <= j < self.entries.len() implies (#[trigger] self.entries@[j]) == if j < i {
                        old_entries[j]
                    } else {
                        old_entries[j + 1]
                    } by {}
                    assert forall|k2: Seq<char>| #[trigger] self.contents@.contains_key(k2) implies exists|
                        j: int,
                    | 0 <= j < self.entries.len() && (#[trigger] self.entries@[j]).0@ == k2 by {
                        assert(old(self).contents@.contains_key(k2));
                        let j = choose|j: int|
                            0 <= j < old_entries.len() && (#[trigger] old_entries[j]).0@ == k2;
                        assert(j != i);
                        if j < i {
                            assert(self.entries@[j].0@ == k2);
                        } else {
                            assert(self.entries@[j - 1].0@ == k2);
                        }
                    }
                }
                Some(v)
            },
        }
    }
}

} // verus!
