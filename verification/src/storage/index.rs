//! The expiration index: which key expires when, ordered by instant and then
//! by the id of the entry.

use crate::trusted::ordered::{first_key, no_later};
use std::collections::BTreeMap;
use vstd::prelude::*;

verus! {

broadcast use vstd::laws_cmp::group_laws_cmp;

/// Records of the form `(instant, id) -> key`.
pub struct ExpirationIndex {
    records: BTreeMap<(u64, u64), String>,
}

impl ExpirationIndex {
    /// The records held.
    pub closed spec fn map(&self) -> Map<(u64, u64), Seq<char>> {
        Map::new(
            |at: (u64, u64)| self.records@.contains_key(at),
            |at: (u64, u64)| self.records@[at]@,
        )
    }

    /// There are finitely many records.
    pub proof fn lemma_finite(&self)
        ensures
            self.map().dom().finite(),
    {
        assert(self.map().dom() =~= self.records@.dom());
    }

    /// An index without records.
    pub fn new() -> (index: Self)
        ensures
            index.map() == Map::<(u64, u64), Seq<char>>::empty(),
    {
        let index = ExpirationIndex { records: BTreeMap::new() };
        proof {
            assert(index.map() =~= Map::<(u64, u64), Seq<char>>::empty());
        }
        index
    }

    /// Records that `key` expires at `when`, for the entry `id`.
    pub fn insert(&mut self, when: u64, id: u64, key: String)
        ensures
            final(self).map() == old(self).map().insert((when, id), key@),
    {
        let _ = self.records.insert((when, id), key);
        proof {
            assert(self.map() =~= old(self).map().insert((when, id), key@));
        }
    }

    /// Takes the record for `(when, id)` out, and returns its key.
    pub fn remove(&mut self, when: u64, id: u64) -> (key: Option<String>)
        ensures
            final(self).map() == old(self).map().remove((when, id)),
            match key {
                Some(key) => old(self).map().contains_key((when, id)) && key@ == old(self).map()[(when, id)],
                None => !old(self).map().contains_key((when, id)),
            },
    {
        let at = (when, id);
        let key = self.records.remove(&at);
        proof {
            assert(self.map() =~= old(self).map().remove((when, id)));
        }
        key
    }

    /// The earliest record's instant and id.
    pub fn first(&self) -> (first: Option<(u64, u64)>)
        ensures
            match first {
                Some(least) => self.map().contains_key(least) && forall|other: (u64, u64)|
                    self.map().contains_key(other) ==> no_later(least, other),
                None => self.map() == Map::<(u64, u64), Seq<char>>::empty(),
            },
    {
        let first = first_key(&self.records);
        proof {
            if first is None {
                assert(self.map() =~= Map::<(u64, u64), Seq<char>>::empty());
            }
        }
        first
    }
}

} // verus!
