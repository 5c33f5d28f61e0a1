//! `std::collections::BTreeMap`, where it hands out its least key.

use std::collections::BTreeMap;
use vstd::prelude::*;

verus! {

/// `a` comes no later than `b`: by instant first, then by id.
pub open spec fn no_later(a: (u64, u64), b: (u64, u64)) -> bool {
    a.0 < b.0 || (a.0 == b.0 && a.1 <= b.1)
}

/// `BTreeMap::first_key_value` returns the entry with the least key, where
/// tuples are ordered component by component from the left; on an empty map
/// it returns nothing. Only the key is handed on.
#[verifier::external_body]
pub(crate) fn first_key(records: &BTreeMap<(u64, u64), String>) -> (first: Option<(u64, u64)>)
    ensures
        match first {
            Some(least) => records@.contains_key(least) && forall|other: (u64, u64)|
                records@.contains_key(other) ==> no_later(least, other),
            None => forall|other: (u64, u64)| !records@.contains_key(other),
        },
{
    match records.first_key_value() {
        Some((key, _)) => Some(*key),
        None => None,
    }
}

} // verus!
