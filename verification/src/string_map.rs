//! A small map from text to text, kept as a list of pairs with distinct keys.

use vstd::prelude::*;
use vstd::string::StringExecFns;

verus! {

/// A finite map from strings to strings.
#[derive(Debug)]
pub struct StringMap {
    entries: Vec<(String, String)>,
}

impl View for StringMap {
    type V = Map<Seq<char>, Seq<char>>;

    closed spec fn view(&self) -> Map<Seq<char>, Seq<char>> {
        Map::new(
            |k: Seq<char>| self.position(k) is Some,
            |k: Seq<char>| self.entries@[self.position(k).unwrap()].1@,
        )
    }
}

impl StringMap {
    /// Where the key `k` stands in the list, if it is there.
    closed spec fn position(&self, k: Seq<char>) -> Option<int> {
        if exists|j: int| 0 <= j < self.entries@.len() && self.entries@[j].0@ == k {
            Some(choose|j: int| 0 <= j < self.entries@.len() && self.entries@[j].0@ == k)
        } else {
            None
        }
    }

    /// No key occurs twice.
    #[verifier::type_invariant]
    closed spec fn well_formed(&self) -> bool {
        forall|i: int, j: int|
            0 <= i < j < self.entries@.len() ==> self.entries@[i].0@ != self.entries@[j].0@
    }

    proof fn lemma_position(&self, j: int)
        requires
            self.well_formed(),
            0 <= j < self.entries@.len(),
        ensures
            self.position(self.entries@[j].0@) == Some(j),
            self@.dom().contains(self.entries@[j].0@),
            self@[self.entries@[j].0@] == self.entries@[j].1@,
    {
        let k = self.entries@[j].0@;
        let c = choose|c: int| 0 <= c < self.entries@.len() && self.entries@[c].0@ == k;
        assert(c == j);
    }

    proof fn lemma_absent(&self, k: Seq<char>)
        requires
            forall|j: int| 0 <= j < self.entries@.len() ==> self.entries@[j].0@ != k,
        ensures
            !self@.dom().contains(k),
    {
    }

    /// The empty map.
    pub fn new() -> (out: StringMap)
        ensures
            out@ == Map::<Seq<char>, Seq<char>>::empty(),
    {
        let out = StringMap { entries: Vec::new() };
        assert(out@ =~= Map::<Seq<char>, Seq<char>>::empty());
        out
    }

    /// The index of `key` in the list, if it is a key of the map.
    fn find(&self, key: &String) -> (out: Option<usize>)
        ensures
            match out {
                Some(j) => j < self.entries@.len() && self.entries@[j as int].0@ == key@,
                None => forall|j: int| 0 <= j < self.entries@.len() ==> self.entries@[j].0@ != key@,
            },
    {
        let mut i: usize = 0;
        while i < self.entries.len()
            invariant
                i <= self.entries.len(),
                forall|j: int| 0 <= j < i ==> self.entries@[j].0@ != key@,
            decreases self.entries.len() - i,
        {
            if self.entries[i].0 == *key {
                return Some(i);
            }
            i += 1;
        }
        None
    }

    /// Whether `key` is a key of the map.
    pub fn contains_key(&self, key: &str) -> (out: bool)
        ensures
            out == self@.dom().contains(key@),
    {
        proof {
            use_type_invariant(self);
        }
        let owned = String::from_str(key);
        match self.find(&owned) {
            Some(j) => {
                proof {
                    self.lemma_position(j as int);
                }
                true
            },
            None => {
                proof {
                    self.lemma_absent(key@);
                }
                false
            },
        }
    }

    /// The value stored under `key`, if there is one.
    pub fn get(&self, key: &str) -> (out: Option<&String>)
        ensures
            match out {
                Some(value) => self@.dom().contains(key@) && self@[key@] == value@,
                None => !self@.dom().contains(key@),
            },
    {
        proof {
            use_type_invariant(self);
        }
        let owned = String::from_str(key);
        match self.find(&owned) {
            Some(j) => {
                proof {
                    self.lemma_position(j as int);
                }
                Some(&self.entries[j].1)
            },
            None => {
                proof {
                    self.lemma_absent(key@);
                }
                None
            },
        }
    }

    /// What changing or adding the entry at `at` does to the map.
    proof fn lemma_insert(before: &StringMap, after: &StringMap, k: Seq<char>, v: Seq<char>, at: int)
        requires
            before.well_formed(),
            0 <= at < after.entries@.len(),
            after.entries@[at].0@ == k,
            after.entries@[at].1@ == v,
            forall|j: int|
                0 <= j < before.entries@.len() && j != at ==> after.entries@[j]
                    == before.entries@[j],
            (after.entries@.len() == before.entries@.len() && before.entries@[at].0@ == k) || (
            after.entries@.len() == before.entries@.len() + 1 && at == before.entries@.len()
                && forall|j: int| 0 <= j < before.entries@.len() ==> before.entries@[j].0@ != k),
        ensures
            after.well_formed(),
            after@ == before@.insert(k, v),
    {
        assert(after.well_formed()) by {
            assert forall|i: int, j: int| 0 <= i < j < after.entries@.len() implies after.entries@[i].0@
                != after.entries@[j].0@ by {
                if i != at && j != at {
                    assert(after.entries@[i] == before.entries@[i]);
                    assert(after.entries@[j] == before.entries@[j]);
                } else if i == at {
                    assert(after.entries@[j] == before.entries@[j]);
                } else {
                    assert(after.entries@[i] == before.entries@[i]);
                }
            }
        }
        let target = before@.insert(k, v);
        assert forall|q: Seq<char>| after@.dom().contains(q) == target.dom().contains(q) by {
            if q == k {
                after.lemma_position(at);
            } else if before@.dom().contains(q) {
                let c = before.position(q).unwrap();
                assert(after.entries@[c] == before.entries@[c]);
                after.lemma_position(c);
            } else if after@.dom().contains(q) {
                let c = after.position(q).unwrap();
                assert(after.entries@[c] == before.entries@[c]);
                before.lemma_position(c);
            }
        }
        assert forall|q: Seq<char>| after@.dom().contains(q) implies after@[q] == target[q] by {
            if q == k {
                after.lemma_position(at);
            } else {
                let c = after.position(q).unwrap();
                assert(after.entries@[c] == before.entries@[c]);
                before.lemma_position(c);
                after.lemma_position(c);
            }
        }
        assert(after@ =~= target);
    }

    /// Stores `value` under `key`, in place of what was stored there.
    pub fn insert(&mut self, key: String, value: String)
        ensures
            final(self)@ == old(self)@.insert(key@, value@),
    {
        proof {
            use_type_invariant(&*self);
        }
        let ghost k = key@;
        let ghost v = value@;
        let found = self.find(&key);
        let mut taken = StringMap::new();
        core::mem::swap(self, &mut taken);
        let mut entries = taken.entries;
        match found {
            Some(j) => {
                entries.set(j, (key, value));
                let after = StringMap { entries };
                proof {
                    Self::lemma_insert(old(self), &after, k, v, j as int);
                }
                *self = after;
            },
            None => {
                entries.push((key, value));
                let after = StringMap { entries };
                proof {
                    Self::lemma_insert(old(self), &after, k, v, old(self).entries@.len() as int);
                }
                *self = after;
            },
        }
    }

    /// The entries of the map, each key once, in no particular order.
    pub fn pairs(&self) -> (out: &Vec<(String, String)>)
        ensures
            forall|j: int|
                0 <= j < out@.len() ==> self@.dom().contains(#[trigger] out@[j].0@) && self@[out@[j].0@]
                    == out@[j].1@,
            forall|k: Seq<char>|
                self@.dom().contains(k) ==> exists|j: int|
                    0 <= j < out@.len() && #[trigger] out@[j].0@ == k,
            forall|i: int, j: int| 0 <= i < j < out@.len() ==> out@[i].0@ != out@[j].0@,
    {
        proof {
            use_type_invariant(self);
            assert forall|j: int| 0 <= j < self.entries@.len() implies self@.dom().contains(
                #[trigger] self.entries@[j].0@,
            ) && self@[self.entries@[j].0@] == self.entries@[j].1@ by {
                self.lemma_position(j);
            }
            assert forall|k: Seq<char>| self@.dom().contains(k) implies exists|j: int|
                0 <= j < self.entries@.len() && #[trigger] self.entries@[j].0@ == k by {
                let c = self.position(k).unwrap();
                assert(self.entries@[c].0@ == k);
            }
        }
        &self.entries
    }
}

} // verus!
