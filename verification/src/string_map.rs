//! Maps from strings to strings: labels, annotations, selectors, attributes.
use vstd::prelude::*;

use crate::text::same;

verus! {

/// A map from strings to strings. Every key occurs once.
#[derive(Debug)]
pub struct StringMap {
    entries: Vec<(String, String)>,
}

/// The index of an entry with the given key.
spec fn position(entries: Seq<(String, String)>, key: Seq<char>) -> int {
    choose|i: int| 0 <= i < entries.len() && (#[trigger] entries[i]).0@ == key
}

spec fn has_key(entries: Seq<(String, String)>, key: Seq<char>) -> bool {
    exists|i: int| 0 <= i < entries.len() && (#[trigger] entries[i]).0@ == key
}

spec fn keys_distinct(entries: Seq<(String, String)>) -> bool {
    forall|i: int, j: int|
        0 <= i < j < entries.len() ==> (#[trigger] entries[i]).0@ != (#[trigger] entries[j]).0@
}

impl View for StringMap {
    type V = Map<Seq<char>, Seq<char>>;

    closed spec fn view(&self) -> Map<Seq<char>, Seq<char>> {
        Map::new(
            |k: Seq<char>| has_key(self.entries@, k),
            |k: Seq<char>| self.entries@[position(self.entries@, k)].1@,
        )
    }
}

impl StringMap {
    #[verifier::type_invariant]
    spec fn well_formed(self) -> bool {
        keys_distinct(self.entries@)
    }

    /// The empty map.
    pub fn new() -> (r: StringMap)
        ensures
            r@ == Map::<Seq<char>, Seq<char>>::empty(),
    {
        let r = StringMap { entries: Vec::new() };
        assert(r@ =~= Map::<Seq<char>, Seq<char>>::empty());
        r
    }

    /// The index of the entry with the given key.
    fn find(&self, key: &str) -> (r: Option<usize>)
        ensures
            r matches Some(i) ==> i < self.entries@.len() && self.entries@[i as int].0@ == key@,
            r is None ==> !has_key(self.entries@, key@),
    {
        for i in 0..self.entries.len()
            invariant
                forall|j: int| 0 <= j < i ==> (#[trigger] self.entries@[j]).0@ != key@,
        {
            if same(self.entries[i].0.as_str(), key) {
                return Some(i);
            }
        }
        None
    }

    /// The value of a key.
    pub fn get(&self, key: &str) -> (r: Option<&String>)
        ensures
            r is Some == self@.contains_key(key@),
            r matches Some(v) ==> v@ == self@[key@],
    {
        proof {
            use_type_invariant(self);
        }
        match self.find(key) {
            Some(i) => {
                assert(position(self.entries@, key@) == i);
                Some(&self.entries[i].1)
            },
            None => None,
        }
    }

    /// Does the map have this key?
    pub fn contains_key(&self, key: &str) -> (r: bool)
        ensures
            r == self@.contains_key(key@),
    {
        match self.find(key) {
            Some(i) => {
                assert(self.entries@[i as int].0@ == key@);
                true
            },
            None => false,
        }
    }

    /// Sets the value of a key.
    pub fn insert(&mut self, key: String, value: String)
        ensures
            final(self)@ == old(self)@.insert(key@, value@),
    {
        proof {
            use_type_invariant(&*self);
        }
        let ghost before = self.entries@;
        let found = self.find(key.as_str());
        let mut entries: Vec<(String, String)> = Vec::new();
        std::mem::swap(&mut self.entries, &mut entries);
        let ghost k = key@;
        let ghost v = value@;
        match found {
            Some(i) => {
                entries.set(i, (key, value));
                assert(entries@ == before.update(i as int, (key, value)));
                proof {
                    assert forall|x: Seq<char>| has_key(before, x) == has_key(entries@, x) by {
                        if has_key(before, x) {
                            let p = position(before, x);
                            assert(entries@[p].0@ == x);
                        }
                        if has_key(entries@, x) {
                            let p = position(entries@, x);
                            assert(before[p].0@ == x);
                        }
                    }
                    assert forall|x: Seq<char>| has_key(before, x) && x != k implies position(
                        before,
                        x,
                    ) == position(entries@, x) by {
                        let p = position(before, x);
                        let q = position(entries@, x);
                        assert(entries@[p].0@ == x);
                        assert(before[q].0@ == x);
                    }
                    assert(has_key(entries@, k) && position(entries@, k) == i) by {
                        assert(entries@[i as int].0@ == k);
                    }
                }
            },
            None => {
                entries.push((key, value));
                proof {
                    let n = before.len() as int;
                    assert(entries@[n].0@ == k);
                    assert forall|x: Seq<char>| x != k implies has_key(before, x) == has_key(
                        entries@,
                        x,
                    ) by {
                        if has_key(before, x) {
                            let p = position(before, x);
                            assert(entries@[p].0@ == x);
                        }
                        if has_key(entries@, x) {
                            let p = position(entries@, x);
                            assert(p < n);
                            assert(before[p].0@ == x);
                        }
                    }
                    assert forall|x: Seq<char>| has_key(before, x) implies position(before, x)
                        == position(entries@, x) by {
                        let p = position(before, x);
                        assert(entries@[p].0@ == x);
                        let q = position(entries@, x);
                        assert(q < n);
                        assert(before[q].0@ == x);
                    }
                }
            },
        }
        self.entries = entries;
        assert(self@ =~= old(self)@.insert(k, v));
    }

    /// Removes a key.
    pub fn remove(&mut self, key: &str)
        ensures
            final(self)@ == old(self)@.remove(key@),
    {
        proof {
            use_type_invariant(&*self);
        }
        let ghost before = self.entries@;
        let ghost k = key@;
        if let Some(i) = self.find(key) {
            let mut entries: Vec<(String, String)> = Vec::new();
            std::mem::swap(&mut self.entries, &mut entries);
            entries.remove(i);
            proof {
                assert(entries@ == before.remove(i as int));
                assert forall|x: Seq<char>| x != k implies has_key(before, x) == has_key(
                    entries@,
                    x,
                ) by {
                    if has_key(before, x) {
                        let p = position(before, x);
                        let q = if p < i {
                            p
                        } else {
                            p - 1
                        };
                        assert(entries@[q].0@ == x);
                    }
                    if has_key(entries@, x) {
                        let q = position(entries@, x);
                        let p = if q < i {
                            q
                        } else {
                            q + 1
                        };
                        assert(before[p].0@ == x);
                    }
                }
                assert(!has_key(entries@, k)) by {
                    if has_key(entries@, k) {
                        let q = position(entries@, k);
                        let p = if q < i {
                            q
                        } else {
                            q + 1
                        };
                        assert(before[p].0@ == k && before[i as int].0@ == k);
                    }
                }
                assert forall|x: Seq<char>| x != k && has_key(before, x) implies entries@[position(
                    entries@,
                    x,
                )].1@ == before[position(before, x)].1@ by {
                    let p = position(before, x);
                    let q = position(entries@, x);
                    let p2 = if q < i {
                        q
                    } else {
                        q + 1
                    };
                    assert(before[p2].0@ == x);
                    assert(p == p2);
                }
            }
            self.entries = entries;
        }
        assert(self@ =~= old(self)@.remove(k));
    }

    /// The keys with their values, each key once.
    pub fn pairs(&self) -> (r: &Vec<(String, String)>)
        ensures
            forall|i: int|
                0 <= i < r@.len() ==> self@.contains_key((#[trigger] r@[i]).0@)
                    && self@[r@[i].0@] == r@[i].1@,
            forall|k: Seq<char>| #[trigger]
                self@.contains_key(k) ==> exists|i: int| 0 <= i < r@.len() && #[trigger] r@[i].0@ == k,
            forall|i: int, j: int|
                0 <= i < j < r@.len() ==> (#[trigger] r@[i]).0@ != (#[trigger] r@[j]).0@,
    {
        proof {
            use_type_invariant(self);
            assert forall|i: int| 0 <= i < self.entries@.len() implies self@.contains_key(
                (#[trigger] self.entries@[i]).0@,
            ) && self@[self.entries@[i].0@] == self.entries@[i].1@ by {
                assert(position(self.entries@, self.entries@[i].0@) == i);
            }
        }
        &self.entries
    }

    /// Does `other` map every key of this map to the same value?
    pub fn is_within(&self, other: &StringMap) -> (r: bool)
        ensures
            r == self@.submap_of(other@),
    {
        proof {
            use_type_invariant(self);
        }
        for i in 0..self.entries.len()
            invariant
                keys_distinct(self.entries@),
                forall|j: int|
                    0 <= j < i ==> other@.contains_key((#[trigger] self.entries@[j]).0@)
                        && other@[self.entries@[j].0@] == self.entries@[j].1@,
        {
            let ok = match other.get(self.entries[i].0.as_str()) {
                Some(v) => same(v.as_str(), self.entries[i].1.as_str()),
                None => false,
            };
            if !ok {
                proof {
                    let k = self.entries@[i as int].0@;
                    assert(has_key(self.entries@, k));
                    assert(position(self.entries@, k) == i);
                    assert(self@.contains_key(k) && self@[k] == self.entries@[i as int].1@);
                }
                return false;
            }
        }
        assert forall|k: Seq<char>| self@.contains_key(k) implies other@.contains_key(k)
            && self@[k] == other@[k] by {
            let p = position(self.entries@, k);
            assert(self.entries@[p].0@ == k);
        }
        true
    }
}

impl Clone for StringMap {
    fn clone(&self) -> (r: StringMap)
        ensures
            r@ == self@,
    {
        proof {
            use_type_invariant(self);
        }
        let mut entries: Vec<(String, String)> = Vec::new();
        for i in 0..self.entries.len()
            invariant
                entries@ == self.entries@.take(i as int),
        {
            entries.push((self.entries[i].0.clone(), self.entries[i].1.clone()));
            assert(self.entries@.take(i + 1) == self.entries@.take(i as int).push(
                self.entries@[i as int],
            ));
        }
        assert(self.entries@.take(self.entries@.len() as int) == self.entries@);
        StringMap { entries }
    }
}

impl Default for StringMap {
    fn default() -> (r: StringMap)
        ensures
            r@ == Map::<Seq<char>, Seq<char>>::empty(),
    {
        StringMap::new()
    }
}

} // verus!
