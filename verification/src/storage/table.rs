//! A map from text keys to values, kept as a list in which no key occurs
//! twice.
//!
//! A hash map would look a key up in constant time. What vstd specifies of
//! std's `HashMap` holds only of keys whose hashing and equality it has a
//! model of, and it has one for integers, not for `String`: nothing could be
//! proved of a hash map with text keys. The list gives up the speed and keeps
//! the proofs.

use crate::text::str_eq;
use vstd::prelude::*;

verus! {

/// A map keyed by strings.
pub struct Table<V> {
    keys: Vec<String>,
    values: Vec<V>,
}

impl<V> Table<V> {
    /// Keys and values stand side by side, and no key occurs twice.
    pub closed spec fn wf(&self) -> bool {
        &&& self.keys@.len() == self.values@.len()
        &&& forall|i: int, j: int|
            0 <= i < j < self.keys@.len() ==> (#[trigger] self.keys@[i])@ != (
            #[trigger] self.keys@[j])@
    }

    /// Whether `key` is held at place `i`.
    spec fn held_at(&self, key: Seq<char>, i: int) -> bool {
        0 <= i < self.keys@.len() && self.keys@[i]@ == key
    }

    /// The place of `key`, where it is held.
    spec fn slot(&self, key: Seq<char>) -> int {
        choose|i: int| self.held_at(key, i)
    }

    /// The map that the table stands for.
    pub closed spec fn map(&self) -> Map<Seq<char>, V> {
        Map::new(
            |key: Seq<char>| exists|i: int| self.held_at(key, i),
            |key: Seq<char>| self.values@[self.slot(key)],
        )
    }

    /// In a well-formed table each place is the slot of its key.
    proof fn lemma_slot(&self, i: int)
        requires
            self.wf(),
            0 <= i < self.keys@.len(),
        ensures
            self.held_at(self.keys@[i]@, i),
            self.slot(self.keys@[i]@) == i,
            self.map().contains_key(self.keys@[i]@),
            self.map()[self.keys@[i]@] == self.values@[i],
    {
        let key = self.keys@[i]@;
        assert(self.held_at(key, i));
        let j = self.slot(key);
        assert(self.held_at(key, j));
        if j < i {
            assert(self.keys@[j]@ != self.keys@[i]@);
        } else if i < j {
            assert(self.keys@[i]@ != self.keys@[j]@);
        }
    }

    /// How many places are taken.
    pub closed spec fn size(&self) -> nat {
        self.keys@.len()
    }

    /// The table holds finitely many keys, one for each place.
    pub proof fn lemma_len(&self)
        requires
            self.wf(),
        ensures
            self.map().dom().finite(),
            self.map().dom().len() == self.size(),
    {
        let n = self.keys@.len() as int;
        self.lemma_prefix_dom(n);
        assert(self.map().dom() =~= self.prefix_dom(n)) by {
            assert forall|key: Seq<char>| self.map().dom().contains(key) implies self.prefix_dom(
                n,
            ).contains(key) by {
                let i = self.slot(key);
                assert(self.held_at(key, i));
            }
        }
    }

    /// The keys held at the first `n` places.
    spec fn prefix_dom(&self, n: int) -> Set<Seq<char>> {
        Set::new(|key: Seq<char>| exists|i: int| 0 <= i < n && self.held_at(key, i))
    }

    proof fn lemma_prefix_dom(&self, n: int)
        requires
            self.wf(),
            0 <= n <= self.keys@.len(),
        ensures
            self.prefix_dom(n).finite(),
            self.prefix_dom(n).len() == n,
        decreases n,
    {
        if n == 0 {
            assert(self.prefix_dom(0) =~= Set::<Seq<char>>::empty());
        } else {
            self.lemma_prefix_dom(n - 1);
            let key = self.keys@[n - 1]@;
            assert(self.held_at(key, n - 1));
            assert(!self.prefix_dom(n - 1).contains(key)) by {
                if self.prefix_dom(n - 1).contains(key) {
                    let i = choose|i: int| 0 <= i < n - 1 && self.held_at(key, i);
                    assert(self.keys@[i]@ != self.keys@[n - 1]@);
                }
            }
            assert(self.prefix_dom(n) =~= self.prefix_dom(n - 1).insert(key)) by {
                assert forall|k: Seq<char>| self.prefix_dom(n).contains(k) implies self.prefix_dom(
                    n - 1,
                ).insert(key).contains(k) by {
                    let i = choose|i: int| 0 <= i < n && self.held_at(k, i);
                    if i < n - 1 {
                        assert(self.held_at(k, i));
                    }
                }
            }
        }
    }

    /// An empty table.
    pub fn new() -> (table: Self)
        ensures
            table.wf(),
            table.map() == Map::<Seq<char>, V>::empty(),
    {
        let table = Table { keys: Vec::new(), values: Vec::new() };
        proof {
            assert(table.map() =~= Map::<Seq<char>, V>::empty());
        }
        table
    }

    /// How many keys are held.
    pub fn len(&self) -> (n: usize)
        requires
            self.wf(),
        ensures
            n == self.map().dom().len(),
    {
        proof {
            self.lemma_len();
        }
        self.keys.len()
    }

    /// The place of `key`, if it is held.
    fn find(&self, key: &str) -> (place: Option<usize>)
        requires
            self.wf(),
        ensures
            match place {
                Some(i) => self.held_at(key@, i as int),
                None => forall|i: int| !self.held_at(key@, i),
            },
    {
        let mut i: usize = 0;
        while i < self.keys.len()
            invariant
                i <= self.keys@.len(),
                forall|j: int| 0 <= j < i ==> !self.held_at(key@, j),
            decreases self.keys@.len() - i,
        {
            if str_eq(self.keys[i].as_str(), key) {
                return Some(i);
            }
            i = i + 1;
        }
        None
    }

    /// Whether `key` is held.
    pub fn contains_key(&self, key: &str) -> (held: bool)
        requires
            self.wf(),
        ensures
            held == self.map().contains_key(key@),
    {
        self.find(key).is_some()
    }

    /// The value held for `key`.
    pub fn get(&self, key: &str) -> (value: Option<&V>)
        requires
            self.wf(),
        ensures
            match value {
                Some(v) => self.map().contains_key(key@) && *v == self.map()[key@],
                None => !self.map().contains_key(key@),
            },
    {
        match self.find(key) {
            Some(i) => {
                proof {
                    self.lemma_slot(i as int);
                }
                Some(&self.values[i])
            },
            None => None,
        }
    }

    /// Holds `value` for `key` from now on, and returns what was held before.
    pub fn insert(&mut self, key: String, value: V) -> (previous: Option<V>)
        requires
            old(self).wf(),
        ensures
            final(self).wf(),
            final(self).map() == old(self).map().insert(key@, value),
            match previous {
                Some(v) => old(self).map().contains_key(key@) && v == old(self).map()[key@],
                None => !old(self).map().contains_key(key@),
            },
    {
        match self.find(key.as_str()) {
            Some(i) => {
                proof {
                    self.lemma_slot(i as int);
                }
                self.values.push(value);
                let previous = self.values.swap_remove(i);
                proof {
                    assert(self.keys@ == old(self).keys@);
                    assert(self.values@ =~= old(self).values@.update(i as int, value));
                    assert(self.wf());
                    assert(self.map() =~= old(self).map().insert(key@, value)) by {
                        assert forall|k: Seq<char>| #[trigger]
                            self.map().contains_key(k) implies old(self).map().insert(
                            key@,
                            value,
                        ).contains_key(k) by {
                            let j = self.slot(k);
                            assert(old(self).held_at(k, j));
                        }
                        assert forall|k: Seq<char>| #[trigger]
                            old(self).map().insert(key@, value).contains_key(
                                k,
                            ) implies self.map().contains_key(k) by {
                            if k == key@ {
                                assert(self.held_at(k, i as int));
                            } else {
                                let j = old(self).slot(k);
                                assert(self.held_at(k, j));
                            }
                        }
                        assert forall|k: Seq<char>| #[trigger]
                            self.map().contains_key(k) implies self.map()[k] == old(self).map().insert(key@, value)[k] by {
                            let j = self.slot(k);
                            assert(self.held_at(k, j));
                            self.lemma_slot(j);
                            old(self).lemma_slot(j);
                        }
                    }
                }
                Some(previous)
            },
            None => {
                self.keys.push(key);
                self.values.push(value);
                proof {
                    let n = old(self).keys@.len() as int;
                    assert(self.wf()) by {
                        assert forall|i: int, j: int| 0 <= i < j < self.keys@.len() implies (
                        #[trigger] self.keys@[i])@ != (#[trigger] self.keys@[j])@ by {
                            if j == n {
                                assert(!old(self).held_at(key@, i));
                            }
                        }
                    }
                    assert(self.map() =~= old(self).map().insert(key@, value)) by {
                        assert forall|k: Seq<char>| #[trigger]
                            self.map().contains_key(k) implies old(self).map().insert(
                            key@,
                            value,
                        ).contains_key(k) by {
                            let j = self.slot(k);
                            if j < n {
                                assert(old(self).held_at(k, j));
                            }
                        }
                        assert forall|k: Seq<char>| #[trigger]
                            old(self).map().insert(key@, value).contains_key(
                                k,
                            ) implies self.map().contains_key(k) by {
                            if k == key@ {
                                assert(self.held_at(k, n));
                            } else {
                                let j = old(self).slot(k);
                                assert(self.held_at(k, j));
                            }
                        }
                        assert forall|k: Seq<char>| #[trigger]
                            self.map().contains_key(k) implies self.map()[k] == old(self).map().insert(key@, value)[k] by {
                            let j = self.slot(k);
                            assert(self.held_at(k, j));
                            self.lemma_slot(j);
                            if j < n {
                                old(self).lemma_slot(j);
                            }
                        }
                    }
                }
                None
            },
        }
    }

    /// Holds nothing for `key` from now on, and returns what was held.
    pub fn remove(&mut self, key: &str) -> (previous: Option<V>)
        requires
            old(self).wf(),
        ensures
            final(self).wf(),
            final(self).map() == old(self).map().remove(key@),
            match previous {
                Some(v) => old(self).map().contains_key(key@) && v == old(self).map()[key@],
                None => !old(self).map().contains_key(key@),
            },
    {
        match self.find(key) {
            Some(i) => {
                proof {
                    self.lemma_slot(i as int);
                }
                let _ = self.keys.swap_remove(i);
                let previous = self.values.swap_remove(i);
                proof {
                    let n = old(self).keys@.len() as int;
                    let last = n - 1;
                    // where each new place came from
                    let origin = |j: int| if j == i { last } else { j };
                    assert forall|j: int| 0 <= j < self.keys@.len() implies self.keys@[j]
                        == old(self).keys@[origin(j)] && self.values@[j] == old(self).values@[origin(j)] by {}
                    assert(self.wf()) by {
                        assert forall|a: int, b: int| 0 <= a < b < self.keys@.len() implies (
                        #[trigger] self.keys@[a])@ != (#[trigger] self.keys@[b])@ by {
                            let oa = origin(a);
                            let ob = origin(b);
                            if oa < ob {
                                assert(old(self).keys@[oa]@ != old(self).keys@[ob]@);
                            } else {
                                assert(old(self).keys@[ob]@ != old(self).keys@[oa]@);
                            }
                        }
                    }
                    assert(self.map() =~= old(self).map().remove(key@)) by {
                        assert forall|k: Seq<char>| #[trigger]
                            self.map().contains_key(k) implies old(self).map().remove(
                            key@,
                        ).contains_key(k) by {
                            let j = self.slot(k);
                            assert(old(self).held_at(k, origin(j)));
                            if k == key@ {
                                old(self).lemma_slot(origin(j));
                            }
                        }
                        assert forall|k: Seq<char>| #[trigger]
                            old(self).map().remove(key@).contains_key(
                                k,
                            ) implies self.map().contains_key(k) by {
                            let j = old(self).slot(k);
                            assert(old(self).held_at(k, j));
                            if j == last {
                                assert(self.held_at(k, i as int));
                            } else {
                                assert(self.held_at(k, j));
                            }
                        }
                        assert forall|k: Seq<char>| #[trigger]
                            self.map().contains_key(k) implies self.map()[k] == old(self).map().remove(key@)[k] by {
                            let j = self.slot(k);
                            assert(self.held_at(k, j));
                            self.lemma_slot(j);
                            old(self).lemma_slot(origin(j));
                        }
                    }
                }
                Some(previous)
            },
            None => {
                proof {
                    assert(self.map() =~= old(self).map().remove(key@));
                }
                None
            },
        }
    }
}

} // verus!
