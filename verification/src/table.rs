//! Values under keys that are text.
use vstd::prelude::*;

use crate::text;

verus! {

/// Values under keys. No key occurs twice, and the keys keep the order in which
/// they came.
pub struct Table<T> {
    entries: Vec<(String, T)>,
}

spec fn holds<T>(v: Seq<(String, T)>, key: Seq<char>) -> bool {
    exists|i: int| 0 <= i < v.len() && (#[trigger] v[i]).0@ == key
}

spec fn position<T>(v: Seq<(String, T)>, key: Seq<char>) -> int {
    choose|i: int| 0 <= i < v.len() && (#[trigger] v[i]).0@ == key
}

spec fn distinct<T>(v: Seq<(String, T)>) -> bool {
    forall|i: int, j: int|
        #![trigger v[i], v[j]]
        0 <= i < j < v.len() ==> v[i].0@ != v[j].0@
}

impl<T: View> View for Table<T> {
    type V = Map<Seq<char>, T::V>;

    closed spec fn view(&self) -> Map<Seq<char>, T::V> {
        let v = self.entries@;
        Map::new(|key: Seq<char>| holds(v, key), |key: Seq<char>| v[position(v, key)].1@)
    }
}

impl<T: View> Table<T> {
    /// Whether no key occurs twice.
    pub closed spec fn well_formed(&self) -> bool {
        distinct(self.entries@)
    }

    /// The keys, in the order in which they came.
    pub closed spec fn keys(&self) -> Seq<Seq<char>> {
        Seq::new(self.entries@.len(), |i: int| self.entries@[i].0@)
    }

    proof fn lemma_entry(&self, i: int)
        requires
            self.well_formed(),
            0 <= i < self.entries@.len(),
        ensures
            self@.contains_key(self.entries@[i].0@),
            self@[self.entries@[i].0@] == self.entries@[i].1@,
    {
        let v = self.entries@;
        let key = v[i].0@;
        assert(holds(v, key));
        let p = position(v, key);
        assert(0 <= p < v.len() && v[p].0@ == key);
        assert(p == i);
    }

    /// A table holds values under its keys, each of which occurs once, and under
    /// no others.
    pub proof fn lemma_keys(&self)
        requires
            self.well_formed(),
        ensures
            forall|i: int|
                0 <= i < self.keys().len() ==> self@.contains_key(#[trigger] self.keys()[i]),
            forall|key: Seq<char>| #[trigger]
                self@.contains_key(key) ==> exists|i: int|
                    0 <= i < self.keys().len() && #[trigger] self.keys()[i] == key,
            forall|i: int, j: int|
                #![trigger self.keys()[i], self.keys()[j]]
                0 <= i < j < self.keys().len() ==> self.keys()[i] != self.keys()[j],
    {
        let v = self.entries@;
        assert forall|i: int| 0 <= i < self.keys().len() implies self@.contains_key(
            #[trigger] self.keys()[i],
        ) by {
            self.lemma_entry(i);
        }
        assert forall|key: Seq<char>| #[trigger] self@.contains_key(key) implies exists|i: int|
            0 <= i < self.keys().len() && #[trigger] self.keys()[i] == key by {
            let p = position(v, key);
            assert(self.keys()[p] == key);
        }
        assert forall|i: int, j: int|
            #![trigger self.keys()[i], self.keys()[j]]
            0 <= i < j < self.keys().len() implies self.keys()[i] != self.keys()[j] by {
            assert(v[i].0@ != v[j].0@);
        }
    }

    /// A table without values.
    pub fn new() -> (r: Self)
        ensures
            r.well_formed(),
            r@ == Map::<Seq<char>, T::V>::empty(),
    {
        let r = Table { entries: Vec::new() };
        assert(r@ =~= Map::<Seq<char>, T::V>::empty());
        r
    }

    /// How many keys there are.
    pub fn len(&self) -> (r: usize)
        ensures
            r == self.keys().len(),
    {
        self.entries.len()
    }

    /// One of the keys, and the value under it.
    pub fn at(&self, i: usize) -> (r: (&String, &T))
        requires
            self.well_formed(),
            i < self.keys().len(),
        ensures
            r.0@ == self.keys()[i as int],
            r.1@ == self@[self.keys()[i as int]],
    {
        proof {
            self.lemma_entry(i as int);
        }
        let entry = &self.entries[i];
        (&entry.0, &entry.1)
    }

    /// The keys with the values under them.
    pub fn into_entries(self) -> (r: Vec<(String, T)>)
        requires
            self.well_formed(),
        ensures
            forall|i: int|
                0 <= i < r@.len() ==> self@.contains_key((#[trigger] r@[i]).0@)
                    && self@[r@[i].0@] == r@[i].1@,
            forall|key: Seq<char>| #[trigger]
                self@.contains_key(key) ==> exists|i: int|
                    0 <= i < r@.len() && (#[trigger] r@[i]).0@ == key,
            forall|i: int, j: int|
                #![trigger r@[i], r@[j]]
                0 <= i < j < r@.len() ==> r@[i].0@ != r@[j].0@,
    {
        proof {
            let v = self.entries@;
            assert forall|i: int| 0 <= i < v.len() implies self@.contains_key((#[trigger] v[i]).0@)
                && self@[v[i].0@] == v[i].1@ by {
                self.lemma_entry(i);
            }
        }
        self.entries
    }

    fn find(&self, key: &str) -> (r: Option<usize>)
        ensures
            match r {
                Some(i) => i < self.entries@.len() && self.entries@[i as int].0@ == key@,
                None => !self@.contains_key(key@),
            },
    {
        let wanted = key.to_owned();
        let mut i: usize = 0;
        while i < self.entries.len()
            invariant
                wanted@ == key@,
                i <= self.entries@.len(),
                forall|j: int| 0 <= j < i ==> (#[trigger] self.entries@[j]).0@ != key@,
            decreases self.entries@.len() - i,
        {
            if self.entries[i].0 == wanted {
                return Some(i);
            }
            i = i + 1;
        }
        assert(!holds(self.entries@, key@));
        None
    }

    /// The value under a key.
    pub fn get(&self, key: &str) -> (r: Option<&T>)
        requires
            self.well_formed(),
        ensures
            match r {
                Some(value) => self@.contains_key(key@) && self@[key@] == value@,
                None => !self@.contains_key(key@),
            },
    {
        match self.find(key) {
            Some(i) => {
                proof {
                    self.lemma_entry(i as int);
                }
                Some(&self.entries[i].1)
            },
            None => None,
        }
    }

    /// Puts a value under a key, in place of what was there.
    pub fn insert(&mut self, key: String, value: T)
        requires
            old(self).well_formed(),
        ensures
            final(self).well_formed(),
            final(self)@ == old(self)@.insert(key@, value@),
    {
        let ghost v = self.entries@;
        let ghost k = key@;
        let ghost val = value@;
        match self.find(key.as_str()) {
            Some(i) => {
                self.entries.set(i, (key, value));
                proof {
                    let before = *old(self);
                    let w = self.entries@;
                    assert forall|a: int, b: int|
                        #![trigger w[a], w[b]]
                        0 <= a < b < w.len() implies w[a].0@ != w[b].0@ by {
                        assert(v[a].0@ == w[a].0@ && v[b].0@ == w[b].0@);
                    }
                    assert forall|q: Seq<char>| holds(w, q) == (holds(v, q) || q == k) by {
                        if holds(v, q) {
                            let p = position(v, q);
                            assert(w[p].0@ == q);
                        }
                        if holds(w, q) {
                            let p = position(w, q);
                            assert(v[p].0@ == q);
                        }
                        assert(w[i as int].0@ == k);
                    }
                    assert forall|q: Seq<char>| holds(w, q) implies self@[q] == before@.insert(
                        k,
                        val,
                    )[q] by {
                        let p = position(w, q);
                        self.lemma_entry(p);
                        if q == k {
                            assert(p == i);
                        } else {
                            assert(w[p] == v[p]);
                            before.lemma_entry(p);
                        }
                    }
                }
                assert(self@ =~= old(self)@.insert(k, val));
            },
            None => {
                self.entries.push((key, value));
                proof {
                    let before = *old(self);
                    let w = self.entries@;
                    assert(!holds(v, k));
                    assert(w[v.len() as int].0@ == k);
                    assert forall|q: Seq<char>| holds(w, q) == (holds(v, q) || q == k) by {
                        if holds(v, q) {
                            let p = position(v, q);
                            assert(w[p].0@ == q);
                        }
                        if holds(w, q) {
                            let p = position(w, q);
                            if p < v.len() {
                                assert(v[p].0@ == q);
                            }
                        }
                    }
                    assert forall|a: int, b: int|
                        #![trigger w[a], w[b]]
                        0 <= a < b < w.len() implies w[a].0@ != w[b].0@ by {
                        assert(v[a] == w[a]);
                        if b < v.len() {
                            assert(v[b] == w[b]);
                        }
                    }
                    assert forall|q: Seq<char>| holds(w, q) implies self@[q] == before@.insert(
                        k,
                        val,
                    )[q] by {
                        let p = position(w, q);
                        self.lemma_entry(p);
                        if p < v.len() {
                            assert(w[p] == v[p]);
                            before.lemma_entry(p);
                        }
                    }
                }
                assert(self@ =~= old(self)@.insert(k, val));
            },
        }
    }

    /// Takes away what is under a key.
    pub fn remove(&mut self, key: &str)
        requires
            old(self).well_formed(),
        ensures
            final(self).well_formed(),
            final(self)@ == old(self)@.remove(key@),
    {
        let ghost v = self.entries@;
        match self.find(key) {
            Some(i) => {
                let _ = self.entries.remove(i);
                proof {
                    let before = *old(self);
                    let w = self.entries@;
                    assert forall|p: int| 0 <= p < w.len() implies w[p] == v[shifted(p, i as int)]
                        by {}
                    assert forall|a: int, b: int|
                        #![trigger w[a], w[b]]
                        0 <= a < b < w.len() implies w[a].0@ != w[b].0@ by {
                        assert(v[shifted(a, i as int)].0@ != v[shifted(b, i as int)].0@);
                    }
                    assert forall|q: Seq<char>| holds(w, q) == (holds(v, q) && q != key@) by {
                        if holds(w, q) {
                            let p = shifted(position(w, q), i as int);
                            assert(v[p].0@ == q);
                            assert(v[p].0@ != v[i as int].0@);
                        }
                        if holds(v, q) && q != key@ {
                            let p = position(v, q);
                            let p1 = if p < i {
                                p
                            } else {
                                p - 1
                            };
                            assert(w[p1].0@ == q);
                        }
                    }
                    assert forall|q: Seq<char>| holds(w, q) implies self@[q] == before@[q] by {
                        let p = position(w, q);
                        self.lemma_entry(p);
                        before.lemma_entry(shifted(p, i as int));
                    }
                }
                assert(self@ =~= old(self)@.remove(key@));
            },
            None => {
                assert(self@ =~= old(self)@.remove(key@));
            },
        }
    }
}

/// Where an entry stood before the one at `removed` was taken out.
spec fn shifted(p: int, removed: int) -> int {
    if p < removed {
        p
    } else {
        p + 1
    }
}

} // verus!
