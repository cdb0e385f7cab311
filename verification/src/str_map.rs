//! A map keyed by text, used for module sources and import attributes.
use vstd::prelude::*;
use crate::text::str_eq;

verus! {

/// A map from text keys to values. Each key is held once; inserting a key
/// that is present replaces its value.
///
/// The entries are kept in a vector rather than a `HashMap<String, V>`:
/// vstd states what a `HashMap`'s operations do only for key types known to
/// obey its hashing model, and `String` is not among them, so not even the
/// length after one insert could be shown of such a map. vstd's
/// `StringHashMap` has no way to list its keys, which `keys` and
/// `into_entries` need.
pub struct StrMap<V> {
    entries: Vec<(String, V)>,
    contents: Ghost<Map<Seq<char>, V>>,
}

impl<V> View for StrMap<V> {
    type V = Map<Seq<char>, V>;

    open spec fn view(&self) -> Map<Seq<char>, V> {
        self.spec_contents()
    }
}

impl<V> StrMap<V> {
    /// The key-value pairs held.
    pub closed spec fn spec_contents(&self) -> Map<Seq<char>, V> {
        self.contents@
    }

    /// The entries hold each key once, and exactly the keys and values of
    /// the contents.
    pub closed spec fn wf(&self) -> bool {
        &&& forall|i: int, j: int|
            0 <= i < j < self.entries@.len() ==> #[trigger] self.entries@[i].0@
                != #[trigger] self.entries@[j].0@
        &&& forall|i: int|
            0 <= i < self.entries@.len() ==> self.contents@.contains_key(
                #[trigger] self.entries@[i].0@,
            ) && self.contents@[self.entries@[i].0@] == self.entries@[i].1
        &&& forall|k: Seq<char>|
            #[trigger] self.contents@.contains_key(k) ==> exists|i: int|
                0 <= i < self.entries@.len() && self.entries@[i].0@ == k
    }

    /// An empty map.
    pub fn new() -> (r: Self)
        ensures
            r.wf(),
            r@ == Map::<Seq<char>, V>::empty(),
    {
        StrMap { entries: Vec::new(), contents: Ghost(Map::empty()) }
    }

    /// The position of `key` among the entries.
    fn position(&self, key: &str) -> (r: Option<usize>)
        requires
            self.wf(),
        ensures
            match r {
                Some(i) => i < self.entries@.len() && self.entries@[i as int].0@ == key@,
                None => !self@.contains_key(key@),
            },
    {
        let mut i: usize = 0;
        while i < self.entries.len()
            invariant
                self.wf(),
                i <= self.entries@.len(),
                forall|j: int| 0 <= j < i ==> self.entries@[j].0@ != key@,
            decreases self.entries@.len() - i,
        {
            if str_eq(self.entries[i].0.as_str(), key) {
                return Some(i);
            }
            i = i + 1;
        }
        None
    }

    /// Whether `key` is present.
    pub fn contains_key(&self, key: &str) -> (r: bool)
        requires
            self.wf(),
        ensures
            r == self@.contains_key(key@),
    {
        self.position(key).is_some()
    }

    /// The value of `key`, if it is present.
    pub fn get(&self, key: &str) -> (r: Option<&V>)
        requires
            self.wf(),
        ensures
            match r {
                Some(v) => self@.contains_key(key@) && *v == self@[key@],
                None => !self@.contains_key(key@),
            },
    {
        match self.position(key) {
            Some(i) => Some(&self.entries[i].1),
            None => None,
        }
    }

    /// Sets the value of `key`; returns whether the key was new.
    pub fn insert(&mut self, key: String, value: V) -> (added: bool)
        requires
            old(self).wf(),
        ensures
            final(self).wf(),
            final(self)@ == old(self)@.insert(key@, value),
            added == !old(self)@.contains_key(key@),
    {
        let ghost k = key@;
        let ghost v = value;
        match self.position(key.as_str()) {
            Some(i) => {
                self.entries.set(i, (key, value));
                proof {
                    self.contents@ = self.contents@.insert(k, v);
                    assert forall|j: int| 0 <= j < self.entries@.len() implies self.contents@.contains_key(
                        #[trigger] self.entries@[j].0@,
                    ) && self.contents@[self.entries@[j].0@] == self.entries@[j].1 by {
                        if j != i {
                            assert(self.entries@[j].0@ != k);
                        }
                    }
                    assert forall|kk: Seq<char>| #[trigger]
                        self.contents@.contains_key(kk) implies exists|j: int|
                        0 <= j < self.entries@.len() && self.entries@[j].0@ == kk by {
                        if kk == k {
                            assert(self.entries@[i as int].0@ == kk);
                        } else {
                            assert(old(self).contents@.contains_key(kk));
                            let j = choose|j: int|
                                0 <= j < old(self).entries@.len() && old(self).entries@[j].0@ == kk;
                            assert(self.entries@[j].0@ == kk);
                        }
                    }
                }
                false
            },
            None => {
                self.entries.push((key, value));
                proof {
                    self.contents@ = self.contents@.insert(k, v);
                    let n = old(self).entries@.len() as int;
                    assert(self.entries@[n].0@ == k);
                    assert forall|a: int, b: int|
                        0 <= a < b < self.entries@.len() implies #[trigger] self.entries@[a].0@
                        != #[trigger] self.entries@[b].0@ by {
                        if b == n {
                            assert(old(self).contents@.contains_key(old(self).entries@[a].0@));
                        }
                    }
                    assert forall|kk: Seq<char>| #[trigger]
                        self.contents@.contains_key(kk) implies exists|j: int|
                        0 <= j < self.entries@.len() && self.entries@[j].0@ == kk by {
                        if kk == k {
                            assert(self.entries@[n].0@ == kk);
                        } else {
                            assert(old(self).contents@.contains_key(kk));
                            let j = choose|j: int|
                                0 <= j < old(self).entries@.len() && old(self).entries@[j].0@ == kk;
                            assert(self.entries@[j].0@ == kk);
                        }
                    }
                }
                true
            },
        }
    }

    /// Takes `key` out of the map, with its value if it was present.
    pub fn remove(&mut self, key: &str) -> (r: Option<V>)
        requires
            old(self).wf(),
        ensures
            final(self).wf(),
            final(self)@ == old(self)@.remove(key@),
            match r {
                Some(v) => old(self)@.contains_key(key@) && v == old(self)@[key@],
                None => !old(self)@.contains_key(key@),
            },
    {
        match self.position(key) {
            Some(i) => {
                let (_k, v) = self.entries.remove(i);
                proof {
                    self.contents@ = self.contents@.remove(key@);
                    let old_e = old(self).entries@;
                    assert forall|a: int, b: int|
                        0 <= a < b < self.entries@.len() implies #[trigger] self.entries@[a].0@
                        != #[trigger] self.entries@[b].0@ by {
                        let a0 = if a < i { a } else { a + 1 };
                        let b0 = if b < i { b } else { b + 1 };
                        assert(self.entries@[a] == old_e[a0]);
                        assert(self.entries@[b] == old_e[b0]);
                    }
                    assert forall|j: int| 0 <= j < self.entries@.len() implies self.contents@.contains_key(
                        #[trigger] self.entries@[j].0@,
                    ) && self.contents@[self.entries@[j].0@] == self.entries@[j].1 by {
                        let j0 = if j < i { j } else { j + 1 };
                        assert(self.entries@[j] == old_e[j0]);
                        assert(old_e[j0].0@ != old_e[i as int].0@);
                    }
                    assert forall|kk: Seq<char>| #[trigger]
                        self.contents@.contains_key(kk) implies exists|j: int|
                        0 <= j < self.entries@.len() && self.entries@[j].0@ == kk by {
                        assert(old(self).contents@.contains_key(kk));
                        let j0 = choose|j: int| 0 <= j < old_e.len() && old_e[j].0@ == kk;
                        assert(j0 != i);
                        let j = if j0 < i { j0 } else { j0 - 1 };
                        assert(self.entries@[j] == old_e[j0]);
                    }
                }
                Some(v)
            },
            None => {
                proof {
                    assert(self@ =~= old(self)@.remove(key@));
                }
                None
            },
        }
    }

    /// Whether the map holds no key.
    pub fn is_empty(&self) -> (r: bool)
        requires
            self.wf(),
        ensures
            r == (self@.dom() =~= Set::<Seq<char>>::empty()),
    {
        proof {
            if self.entries@.len() > 0 {
                assert(self@.contains_key(self.entries@[0].0@));
            }
        }
        self.entries.len() == 0
    }

    /// The keys, each once.
    pub fn keys(&self) -> (r: Vec<String>)
        requires
            self.wf(),
        ensures
            forall|i: int| 0 <= i < r@.len() ==> self@.contains_key(#[trigger] r@[i]@),
            forall|k: Seq<char>|
                #[trigger] self@.contains_key(k) ==> exists|i: int| 0 <= i < r@.len() && r@[i]@ == k,
            forall|i: int, j: int| 0 <= i < j < r@.len() ==> #[trigger] r@[i]@ != #[trigger] r@[j]@,
    {
        let mut r: Vec<String> = Vec::new();
        let mut i: usize = 0;
        while i < self.entries.len()
            invariant
                self.wf(),
                i <= self.entries@.len(),
                r@.len() == i,
                forall|j: int| 0 <= j < i ==> #[trigger] r@[j]@ == self.entries@[j].0@,
            decreases self.entries@.len() - i,
        {
            r.push(self.entries[i].0.clone());
            i = i + 1;
        }
        proof {
            assert forall|k: Seq<char>| #[trigger] self@.contains_key(k) implies exists|j: int|
                0 <= j < r@.len() && r@[j]@ == k by {
                let j = choose|j: int| 0 <= j < self.entries@.len() && self.entries@[j].0@ == k;
                assert(r@[j]@ == k);
            }
            assert forall|a: int, b: int| 0 <= a < b < r@.len() implies #[trigger] r@[a]@
                != #[trigger] r@[b]@ by {
                assert(r@[a]@ == self.entries@[a].0@);
                assert(r@[b]@ == self.entries@[b].0@);
            }
        }
        r
    }

    /// Takes all entries out, each key once, in the order in which they are
    /// held.
    pub fn into_entries(self) -> (r: Vec<(String, V)>)
        requires
            self.wf(),
        ensures
            forall|i: int|
                0 <= i < r@.len() ==> self@.contains_key(#[trigger] r@[i].0@) && self@[r@[i].0@]
                    == r@[i].1,
            forall|k: Seq<char>|
                #[trigger] self@.contains_key(k) ==> exists|i: int| 0 <= i < r@.len() && r@[i].0@ == k,
            forall|i: int, j: int|
                0 <= i < j < r@.len() ==> #[trigger] r@[i].0@ != #[trigger] r@[j].0@,
    {
        self.entries
    }
}

} // verus!
