//! What holds of the store in every state that its operations reach.

use crate::storage::store::{earliest, lemma_set_wf, StoreView};
use vstd::prelude::*;

verus! {

/// An entry that expires has exactly one record in the index: the one under
/// its instant and its id.
pub proof fn lemma_one_record(state: StoreView, key: Seq<char>)
    requires
        state.wf(),
        state.entries.contains_key(key),
        state.entries[key].expires_at is Some,
    ensures
        state.expirations.contains_key(
            (state.entries[key].expires_at->0, state.entries[key].id),
        ),
        forall|at: (u64, u64)|
            state.expirations.contains_key(at) && state.expirations[at] == key ==> at == (
                state.entries[key].expires_at->0,
                state.entries[key].id,
            ),
{
    assert(state.indexed(key));
    assert forall|at: (u64, u64)|
        state.expirations.contains_key(at) && state.expirations[at] == key implies at == (
            state.entries[key].expires_at->0,
            state.entries[key].id,
        ) by {
        assert(state.backed(at));
    }
}

/// An entry that does not expire has no record in the index.
pub proof fn lemma_no_record(state: StoreView, key: Seq<char>)
    requires
        state.wf(),
        state.entries.contains_key(key),
        state.entries[key].expires_at is None,
    ensures
        forall|at: (u64, u64)|
            state.expirations.contains_key(at) ==> state.expirations[at] != key,
{
    assert forall|at: (u64, u64)| state.expirations.contains_key(at) implies state.expirations[at]
        != key by {
        assert(state.backed(at));
    }
}

/// No two live entries share an id.
pub proof fn lemma_ids_differ(state: StoreView, a: Seq<char>, b: Seq<char>)
    requires
        state.wf(),
        state.entries.contains_key(a),
        state.entries.contains_key(b),
        a != b,
    ensures
        state.entries[a].id != state.entries[b].id,
{
}

/// Purging keeps the state well-formed.
pub proof fn lemma_purge_wf(state: StoreView, now: u64)
    requires
        state.wf(),
    ensures
        state.purge(now).wf(),
{
    let after = state.purge(now);
    if !state.shutdown {
        assert(after.entries.dom().subset_of(state.entries.dom()));
        assert(after.expirations.dom().subset_of(state.expirations.dom()));
        vstd::set_lib::lemma_len_subset(after.entries.dom(), state.entries.dom());
        vstd::set_lib::lemma_len_subset(after.expirations.dom(), state.expirations.dom());
        assert forall|key: Seq<char>| #[trigger] after.entries.contains_key(key) implies after.indexed(
            key,
        ) && after.entries[key].id < after.next_id by {
            assert(state.entries.contains_key(key));
            assert(state.indexed(key));
        }
        assert forall|at: (u64, u64)| #[trigger]
            after.expirations.contains_key(at) implies after.backed(at) by {
            assert(state.expirations.contains_key(at));
            assert(state.backed(at));
        }
        assert forall|a: Seq<char>, b: Seq<char>|
            after.entries.contains_key(a) && after.entries.contains_key(b) && after.entries[a].id
                == after.entries[b].id implies a == b by {
            assert(state.entries.contains_key(a));
            assert(state.entries.contains_key(b));
        }
    }
}

/// After a purge at `now` nothing that is left is due: every entry that
/// expires does so after `now`, and so does the next expiration.
pub proof fn lemma_purge_leaves_future(state: StoreView, now: u64)
    requires
        state.wf(),
        !state.shutdown,
    ensures
        forall|key: Seq<char>| #[trigger]
            state.purge(now).entries.contains_key(key) ==> (state.purge(
                now,
            ).entries[key].expires_at matches Some(when) ==> when > now),
        state.purge(now).next_expiration() matches Some(when) ==> when > now,
{
    let after = state.purge(now);
    if let Some(when) = after.next_expiration() {
        assert(earliest(after.expirations, when));
        let id = choose|id: u64| after.expirations.contains_key((when, id));
        assert(after.expirations.contains_key((when, id)));
    }
}

/// Ids only grow: each `set` takes the next one, so two `set`s on one key
/// give its entry two different ids.
pub proof fn lemma_ids_increase(
    state: StoreView,
    key: Seq<char>,
    first: Seq<u8>,
    first_expiry: Option<u64>,
    second: Seq<u8>,
    second_expiry: Option<u64>,
)
    requires
        state.next_id < u64::MAX - 1,
    ensures
        state.next_id < state.set(key, first, first_expiry).next_id,
        state.set(key, first, first_expiry).next_id < state.set(key, first, first_expiry).set(
            key,
            second,
            second_expiry,
        ).next_id,
        state.set(key, first, first_expiry).entries[key].id != state.set(
            key,
            first,
            first_expiry,
        ).set(key, second, second_expiry).entries[key].id,
{
}

/// Neither a purge nor a subscription hands out an id.
pub proof fn lemma_ids_kept(state: StoreView, now: u64, channel: Seq<char>)
    ensures
        state.purge(now).next_id == state.next_id,
        state.subscribe(channel).next_id == state.next_id,
{
}

/// What was set is what is got.
pub proof fn lemma_get_after_set(
    state: StoreView,
    key: Seq<char>,
    data: Seq<u8>,
    expires_at: Option<u64>,
)
    ensures
        state.set(key, data, expires_at).get(key) == Some(data),
{
}

/// A `set` on one key leaves what every other key holds.
pub proof fn lemma_get_other_after_set(
    state: StoreView,
    key: Seq<char>,
    data: Seq<u8>,
    expires_at: Option<u64>,
    other: Seq<char>,
)
    requires
        other != key,
    ensures
        state.set(key, data, expires_at).get(other) == state.get(other),
{
}

/// A purge evicts nothing that is not due.
pub proof fn lemma_get_after_purge(state: StoreView, key: Seq<char>, now: u64)
    requires
        !state.due(key, now),
    ensures
        state.purge(now).get(key) == state.get(key),
{
}

/// Once a purge has run at or after the instant at which a value set last
/// was to expire, the key holds nothing.
pub proof fn lemma_get_after_expiry(
    state: StoreView,
    key: Seq<char>,
    data: Seq<u8>,
    expiry: u64,
    now: u64,
)
    requires
        !state.shutdown,
        expiry <= now,
    ensures
        state.set(key, data, Some(expiry)).purge(now).get(key) == None::<Seq<u8>>,
{
    let set = state.set(key, data, Some(expiry));
    assert(set.due(key, now));
}

/// Until its instant has come a value that was set stays, whatever is purged.
pub proof fn lemma_get_before_expiry(
    state: StoreView,
    key: Seq<char>,
    data: Seq<u8>,
    expiry: u64,
    now: u64,
)
    requires
        now < expiry,
    ensures
        state.set(key, data, Some(expiry)).purge(now).get(key) == Some(data),
{
    let set = state.set(key, data, Some(expiry));
    assert(!set.due(key, now));
}

/// Keys, values and the index are no concern of a subscription, and the
/// channels are no concern of `set` and of a purge.
pub proof fn lemma_channels_apart(
    state: StoreView,
    key: Seq<char>,
    data: Seq<u8>,
    expires_at: Option<u64>,
    now: u64,
    channel: Seq<char>,
)
    ensures
        state.set(key, data, expires_at).channels == state.channels,
        state.purge(now).channels == state.channels,
        state.subscribe(channel).entries == state.entries,
        state.subscribe(channel).expirations == state.expirations,
{
}

/// Setting a key in a well-formed state that has an id to give leads to a
/// well-formed state in which the key has its one record, or none: where the
/// value expires, the record under its instant and the new id belongs to the
/// key and no other record does; where it does not expire, no record belongs
/// to the key. The record of the entry that was overwritten is gone.
pub proof fn lemma_set_records(
    state: StoreView,
    key: Seq<char>,
    data: Seq<u8>,
    expires_at: Option<u64>,
)
    requires
        state.wf(),
        state.next_id < u64::MAX,
    ensures
        state.set(key, data, expires_at).wf(),
        expires_at matches Some(instant) ==> state.set(key, data, expires_at).expirations.contains_key(
            (instant, state.next_id),
        ) && state.set(key, data, expires_at).expirations[(instant, state.next_id)] == key,
        forall|at: (u64, u64)|
            state.set(key, data, expires_at).expirations.contains_key(at) && state.set(
                key,
                data,
                expires_at,
            ).expirations[at] == key ==> expires_at == Some(at.0) && at.1 == state.next_id,
        state.entries.contains_key(key) ==> (forall|at: (u64, u64)|
            state.set(key, data, expires_at).expirations.contains_key(at) ==> at.1
                != state.entries[key].id),
{
    let set = state.set(key, data, expires_at);
    lemma_set_wf(state, key, data, expires_at);
    assert forall|at: (u64, u64)|
        set.expirations.contains_key(at) && set.expirations[at] == key implies expires_at == Some(
        at.0,
    ) && at.1 == state.next_id by {
        assert(set.backed(at));
    }
    if state.entries.contains_key(key) {
        assert forall|at: (u64, u64)| set.expirations.contains_key(at) implies at.1
            != state.entries[key].id by {
            assert(set.backed(at));
            let owner = set.expirations[at];
            if at.1 == state.entries[key].id {
                if owner != key {
                    assert(state.entries.contains_key(owner));
                    assert(state.entries[owner].id == state.entries[key].id);
                }
            }
        }
    }
}

/// A `set` on a key that holds a value gives the key's entry a new id, larger
/// than the one it had.
pub proof fn lemma_set_new_id(
    state: StoreView,
    key: Seq<char>,
    data: Seq<u8>,
    expires_at: Option<u64>,
)
    requires
        state.wf(),
        state.next_id < u64::MAX,
        state.entries.contains_key(key),
    ensures
        state.entries[key].id < state.set(key, data, expires_at).entries[key].id,
        state.set(key, data, expires_at).next_id == state.next_id + 1,
{
}

/// One operation on the store.
pub enum Op {
    /// `set` of a key to a value, with the instant at which it expires.
    SetKey { key: Seq<char>, data: Seq<u8>, expires_at: Option<u64> },
    /// A purge of what is due at `now`.
    Purge { now: u64 },
    /// A subscription to a channel.
    Subscribe { channel: Seq<char> },
    /// The mark that the store is shutting down.
    Shutdown,
}

impl StoreView {
    /// The state after one operation.
    pub open spec fn step(self, op: Op) -> StoreView {
        match op {
            Op::SetKey { key, data, expires_at } => self.set(key, data, expires_at),
            Op::Purge { now } => self.purge(now),
            Op::Subscribe { channel } => self.subscribe(channel),
            Op::Shutdown => StoreView { shutdown: true, ..self },
        }
    }

    /// The state after a run of operations, in order.
    pub open spec fn after(self, ops: Seq<Op>) -> StoreView
        decreases ops.len(),
    {
        if ops.len() == 0 {
            self
        } else {
            self.after(ops.drop_last()).step(ops.last())
        }
    }
}

/// The operations leave what `key` holds alone: none sets the key, and none
/// purges at or after the instant at which its value expires.
pub open spec fn undisturbed(ops: Seq<Op>, key: Seq<char>, expires_at: Option<u64>) -> bool {
    forall|i: int|
        0 <= i < ops.len() ==> match #[trigger] ops[i] {
            Op::SetKey { key: other, .. } => other != key,
            Op::Purge { now } => expires_at matches Some(instant) ==> now < instant,
            _ => true,
        }
}

/// None of the operations sets `key`.
pub open spec fn unset(ops: Seq<Op>, key: Seq<char>) -> bool {
    forall|i: int|
        0 <= i < ops.len() ==> !(#[trigger] ops[i] matches Op::SetKey { key: other, .. } && other
            == key)
}

/// Every state that operations reach from a new store is well-formed, as
/// long as the ids last: each entry that expires has its one record in the
/// index, each record its entry, and ids are fresh and tell entries apart.
pub proof fn lemma_reachable_wf(ops: Seq<Op>)
    requires
        ops.len() <= u64::MAX,
    ensures
        StoreView::empty().after(ops).wf(),
        StoreView::empty().after(ops).next_id <= ops.len(),
    decreases ops.len(),
{
    if ops.len() > 0 {
        let before = StoreView::empty().after(ops.drop_last());
        lemma_reachable_wf(ops.drop_last());
        match ops.last() {
            Op::SetKey { key, data, expires_at } => {
                lemma_set_wf(before, key, data, expires_at);
            },
            Op::Purge { now } => {
                lemma_purge_wf(before, now);
            },
            Op::Subscribe { channel } => {},
            Op::Shutdown => {},
        }
    }
}

/// Ids never go down, whatever is done to the store, as long as they last.
pub proof fn lemma_ids_never_decrease(state: StoreView, ops: Seq<Op>)
    requires
        state.next_id + ops.len() <= u64::MAX,
    ensures
        state.next_id <= state.after(ops).next_id <= state.next_id + ops.len(),
    decreases ops.len(),
{
    if ops.len() > 0 {
        lemma_ids_never_decrease(state, ops.drop_last());
    }
}

/// What was set is what is got, for as long as nothing sets the key again
/// and no purge runs at or after the instant at which the value expires.
pub proof fn lemma_value_stays(
    state: StoreView,
    key: Seq<char>,
    data: Seq<u8>,
    expires_at: Option<u64>,
    ops: Seq<Op>,
)
    requires
        undisturbed(ops, key, expires_at),
    ensures
        state.set(key, data, expires_at).after(ops).get(key) == Some(data),
        state.set(key, data, expires_at).after(ops).entries[key].expires_at == expires_at,
    decreases ops.len(),
{
    if ops.len() > 0 {
        let rest = ops.drop_last();
        assert forall|i: int| 0 <= i < rest.len() implies match #[trigger] rest[i] {
            Op::SetKey { key: other, .. } => other != key,
            Op::Purge { now } => expires_at matches Some(instant) ==> now < instant,
            _ => true,
        } by {
            assert(rest[i] == ops[i]);
        }
        lemma_value_stays(state, key, data, expires_at, rest);
        let before = state.set(key, data, expires_at).after(rest);
        let op = ops[ops.len() - 1];
        match op {
            Op::Purge { now } => {
                assert(!before.due(key, now));
            },
            _ => {},
        }
    }
}

/// A key that holds nothing holds nothing until it is set.
pub proof fn lemma_nothing_stays(state: StoreView, key: Seq<char>, ops: Seq<Op>)
    requires
        state.get(key) == None::<Seq<u8>>,
        unset(ops, key),
    ensures
        state.after(ops).get(key) == None::<Seq<u8>>,
    decreases ops.len(),
{
    if ops.len() > 0 {
        let rest = ops.drop_last();
        assert forall|i: int| 0 <= i < rest.len() implies !(#[trigger] rest[i] matches Op::SetKey {
            key: other,
            ..
        } && other == key) by {
            assert(rest[i] == ops[i]);
        }
        lemma_nothing_stays(state, key, rest);
    }
}

/// A value that was set to expire is gone once a purge has run at or after
/// its instant on a store that is not shutting down, and stays gone until the
/// key is set again. How long after the instant that is, is how long the
/// purge takes to run.
pub proof fn lemma_expired_is_gone(
    state: StoreView,
    key: Seq<char>,
    data: Seq<u8>,
    expiry: u64,
    before: Seq<Op>,
    now: u64,
    after: Seq<Op>,
)
    requires
        undisturbed(before, key, Some(expiry)),
        !state.set(key, data, Some(expiry)).after(before).shutdown,
        expiry <= now,
        unset(after, key),
    ensures
        state.set(key, data, Some(expiry)).after(before).purge(now).after(after).get(key) == None::<
            Seq<u8>,
        >,
{
    let set = state.set(key, data, Some(expiry));
    lemma_value_stays(state, key, data, Some(expiry), before);
    let due = set.after(before);
    assert(due.due(key, now));
    lemma_nothing_stays(due.purge(now), key, after);
}

/// One of the operations is a subscription to `channel`.
pub open spec fn subscribed_in(ops: Seq<Op>, channel: Seq<char>) -> bool {
    exists|i: int| 0 <= i < ops.len() && #[trigger] ops[i] == (Op::Subscribe { channel })
}

/// A channel exists if and only if somebody has subscribed to it: on any
/// other channel `publish` finds nobody, and returns zero.
pub proof fn lemma_channels_are_subscriptions(ops: Seq<Op>, channel: Seq<char>)
    ensures
        StoreView::empty().after(ops).channels.contains(channel) <==> subscribed_in(ops, channel),
    decreases ops.len(),
{
    if ops.len() > 0 {
        let rest = ops.drop_last();
        lemma_channels_are_subscriptions(rest, channel);
        let last = ops.len() - 1;
        if subscribed_in(rest, channel) {
            let i = choose|i: int| 0 <= i < rest.len() && #[trigger] rest[i] == (Op::Subscribe {
                channel,
            });
            assert(ops[i] == rest[i]);
        }
        if subscribed_in(ops, channel) {
            let i = choose|i: int| 0 <= i < ops.len() && #[trigger] ops[i] == (Op::Subscribe {
                channel,
            });
            if i < last {
                assert(rest[i] == ops[i]);
            }
        }
        if ops[last] == (Op::Subscribe { channel }) {
            assert(subscribed_in(ops, channel));
        }
    }
}

} // verus!
