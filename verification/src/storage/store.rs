//! Core storage implementation: the state that every connection shares.

use crate::consts::CHANNEL_CAPACITY;
use crate::storage::index::ExpirationIndex;
use crate::trusted::ordered::no_later;
use crate::storage::table::Table;
use crate::trusted::buf::contents;
use bytes::Bytes;
use tokio::sync::broadcast::error::SendError;
use crate::trusted::broadcast::{channel, hears, is_power_of_two, slots, subscribe};
use tokio::sync::broadcast::{Receiver, Sender};
use vstd::prelude::*;

verus! {

/// Entry in the key-value store
pub struct Entry {
    /// Uniquely identifies this entry.
    pub id: u64,
    /// Stored data
    pub data: Bytes,
    /// Instant at which the entry expires and should be removed from the
    /// database.
    pub expires_at: Option<u64>,
}

/// What an entry holds.
pub struct EntryView {
    pub id: u64,
    pub data: Seq<u8>,
    pub expires_at: Option<u64>,
}

impl View for Entry {
    type V = EntryView;

    open spec fn view(&self) -> EntryView {
        EntryView { id: self.id, data: contents(self.data), expires_at: self.expires_at }
    }
}

/// The state of the store. Instants are counted in nanoseconds from a moment
/// that the caller fixes once.
pub struct Store {
    /// The key-value data.
    entries: Table<Entry>,
    /// The pub/sub key-space, separate from the key-value one.
    pub_sub: Table<Sender<Bytes>>,
    /// Tracks key TTLs, sorted by when they expire. More than one expiration
    /// may fall on one instant, so the entry's id is part of the key.
    expirations: ExpirationIndex,
    /// Identifier to use for the next entry.
    next_id: u64,
    /// True when the store is shutting down; the task that purges expired
    /// keys exits on it.
    shutdown: bool,
}

/// What the task that purges expired keys has to wait for before it purges
/// again.
#[derive(Debug, Clone, Copy, PartialEq, Eq, Structural)]
pub enum PurgeWait {
    /// The instant at which the next key expires, or a notification that
    /// comes before it.
    Until(u64),
    /// A notification: no key is set to expire.
    Notified,
}

/// What the store holds, as mathematical values.
pub struct StoreView {
    pub entries: Map<Seq<char>, EntryView>,
    pub expirations: Map<(u64, u64), Seq<char>>,
    pub channels: Set<Seq<char>>,
    pub next_id: u64,
    pub shutdown: bool,
}

impl StoreView {
    /// The state of a store that was just made.
    pub open spec fn empty() -> StoreView {
        StoreView {
            entries: Map::empty(),
            expirations: Map::empty(),
            channels: Set::empty(),
            next_id: 0,
            shutdown: false,
        }
    }

    /// The entry of `key`, if it expires, has its record in the index.
    pub open spec fn indexed(self, key: Seq<char>) -> bool {
        self.entries[key].expires_at matches Some(when) ==> {
            &&& self.expirations.contains_key((when, self.entries[key].id))
            &&& self.expirations[(when, self.entries[key].id)] == key
        }
    }

    /// The record `at` belongs to a live entry with that id and that instant.
    pub open spec fn backed(self, at: (u64, u64)) -> bool {
        let key = self.expirations[at];
        &&& self.entries.contains_key(key)
        &&& self.entries[key].id == at.1
        &&& self.entries[key].expires_at == Some(at.0)
    }

    /// Entries and index agree, and ids are fresh and tell entries apart.
    pub open spec fn wf(self) -> bool {
        &&& self.entries.dom().finite()
        &&& self.expirations.dom().finite()
        &&& forall|key: Seq<char>| #[trigger]
            self.entries.contains_key(key) ==> self.indexed(key) && self.entries[key].id
                < self.next_id
        &&& forall|at: (u64, u64)| #[trigger] self.expirations.contains_key(at) ==> self.backed(at)
        &&& forall|a: Seq<char>, b: Seq<char>|
            #![trigger self.entries.contains_key(a), self.entries.contains_key(b)]
            self.entries.contains_key(a) && self.entries.contains_key(b) && self.entries[a].id
                == self.entries[b].id ==> a == b
    }

    /// The value held for `key`.
    pub open spec fn get(self, key: Seq<char>) -> Option<Seq<u8>> {
        if self.entries.contains_key(key) {
            Some(self.entries[key].data)
        } else {
            None
        }
    }

    /// The index without the record of the entry of `key`.
    pub open spec fn unindexed(self, key: Seq<char>) -> Map<(u64, u64), Seq<char>> {
        if self.entries.contains_key(key) && self.entries[key].expires_at is Some {
            self.expirations.remove((self.entries[key].expires_at->0, self.entries[key].id))
        } else {
            self.expirations
        }
    }

    /// The state after `key` is set to `data`, to expire at `expires_at`.
    pub open spec fn set(self, key: Seq<char>, data: Seq<u8>, expires_at: Option<u64>) -> StoreView {
        let id = self.next_id;
        StoreView {
            entries: self.entries.insert(key, EntryView { id, data, expires_at }),
            expirations: match expires_at {
                Some(when) => self.unindexed(key).insert((when, id), key),
                None => self.unindexed(key),
            },
            next_id: (id + 1) as u64,
            ..self
        }
    }

    /// The instant at which the next key expires.
    pub open spec fn next_expiration(self) -> Option<u64> {
        first_instant(self.expirations)
    }

    /// Whether a `set` with this expiration has to wake the task that purges:
    /// it has, when the new expiration is the next one.
    pub open spec fn wakes_purge(self, expires_at: Option<u64>) -> bool {
        match expires_at {
            Some(when) => match self.next_expiration() {
                Some(next) => next > when,
                None => true,
            },
            None => false,
        }
    }

    /// Whether the entry of `key` is due at `now`.
    pub open spec fn due(self, key: Seq<char>, now: u64) -> bool {
        self.entries.contains_key(key) && (self.entries[key].expires_at matches Some(when) && when
            <= now)
    }

    /// The state after every entry that is due at `now` is evicted. A store
    /// that is shutting down evicts nothing.
    pub open spec fn purge(self, now: u64) -> StoreView {
        if self.shutdown {
            self
        } else {
            StoreView {
                entries: Map::new(
                    |key: Seq<char>| self.entries.contains_key(key) && !self.due(key, now),
                    |key: Seq<char>| self.entries[key],
                ),
                expirations: Map::new(
                    |at: (u64, u64)| self.expirations.contains_key(at) && at.0 > now,
                    |at: (u64, u64)| self.expirations[at],
                ),
                ..self
            }
        }
    }

    /// The state after a subscription to `channel`.
    pub open spec fn subscribe(self, channel: Seq<char>) -> StoreView {
        StoreView { channels: self.channels.insert(channel), ..self }
    }
}

/// Every channel that had a sender has it still.
pub open spec fn kept(
    before: Map<Seq<char>, Sender<Bytes>>,
    after: Map<Seq<char>, Sender<Bytes>>,
) -> bool {
    forall|channel: Seq<char>| #[trigger]
        before.contains_key(channel) ==> after.contains_key(channel) && after[channel]
            == before[channel]
}

/// How many subscribers a message was handed to, going by what its channel
/// said of sending it.
///
/// On a successful message send on the broadcast channel, the number of
/// subscribers is returned. An error indicates there are no receivers, in
/// which case, `0` should be returned.
pub fn delivered(sent: Result<usize, SendError<Bytes>>) -> (receivers: usize)
    ensures
        receivers == match sent {
            Ok(n) => n,
            Err(_) => 0,
        },
{
    match sent {
        Ok(receivers) => receivers,
        Err(_) => 0,
    }
}

/// `when` is the instant of a record, and no record has an earlier one.
pub open spec fn earliest(records: Map<(u64, u64), Seq<char>>, when: u64) -> bool {
    &&& exists|id: u64| records.contains_key((when, id))
    &&& forall|at: (u64, u64)| records.contains_key(at) ==> when <= at.0
}

/// The earliest instant among the records.
pub open spec fn first_instant(records: Map<(u64, u64), Seq<char>>) -> Option<u64> {
    if exists|when: u64| earliest(records, when) {
        Some(choose|when: u64| earliest(records, when))
    } else {
        None
    }
}

/// The views of the entries of a table.
pub open spec fn entry_views(entries: Map<Seq<char>, Entry>) -> Map<Seq<char>, EntryView> {
    Map::new(|key: Seq<char>| entries.contains_key(key), |key: Seq<char>| entries[key]@)
}

impl View for Store {
    type V = StoreView;

    closed spec fn view(&self) -> StoreView {
        StoreView {
            entries: entry_views(self.entries.map()),
            expirations: self.expirations.map(),
            channels: self.pub_sub.map().dom(),
            next_id: self.next_id,
            shutdown: self.shutdown,
        }
    }
}

impl Store {
    /// The sender of each channel that somebody has subscribed to. A channel
    /// has one sender, which it keeps for as long as the store lives.
    pub closed spec fn senders(&self) -> Map<Seq<char>, Sender<Bytes>> {
        self.pub_sub.map()
    }

    /// The store is sound inside, what it holds is well-formed, and every
    /// channel buffers `CHANNEL_CAPACITY` messages.
    pub closed spec fn wf(&self) -> bool {
        &&& self.entries.wf()
        &&& self.pub_sub.wf()
        &&& self@.wf()
        &&& forall|channel: Seq<char>| #[trigger]
            self.senders().contains_key(channel) ==> slots(self.senders()[channel])
                == CHANNEL_CAPACITY
    }

    /// The channels are those that have a sender, and each buffers
    /// `CHANNEL_CAPACITY` messages.
    pub proof fn lemma_channels(&self)
        requires
            self.wf(),
        ensures
            self@.channels == self.senders().dom(),
            forall|channel: Seq<char>| #[trigger]
                self.senders().contains_key(channel) ==> slots(self.senders()[channel])
                    == CHANNEL_CAPACITY,
    {
    }

    /// A store that is well-formed holds a well-formed state.
    pub proof fn lemma_wf(&self)
        requires
            self.wf(),
        ensures
            self@.wf(),
    {
    }

    /// A store that holds nothing.
    pub fn new() -> (store: Store)
        ensures
            store.wf(),
            store@ == StoreView::empty(),
            store.senders() == Map::<Seq<char>, Sender<Bytes>>::empty(),
    {
        let store = Store {
            entries: Table::new(),
            pub_sub: Table::new(),
            expirations: ExpirationIndex::new(),
            next_id: 0,
            shutdown: false,
        };
        proof {
            assert(store@.entries =~= Map::<Seq<char>, EntryView>::empty());
            assert(store@.channels =~= Set::<Seq<char>>::empty());
        }
        store
    }

    /// Get the next expiration instant for notify
    pub fn next_expiration(&self) -> (next: Option<u64>)
        ensures
            next == self@.next_expiration(),
    {
        match self.expirations.first() {
            Some(least) => {
                proof {
                    let records = self@.expirations;
                    assert(earliest(records, least.0)) by {
                        assert(records.contains_key((least.0, least.1)));
                        assert forall|at: (u64, u64)| records.contains_key(at) implies least.0
                            <= at.0 by {
                            assert(no_later(least, at));
                        }
                    }
                    let chosen = choose|when: u64| earliest(records, when);
                    assert(earliest(records, chosen));
                    let id = choose|id: u64| records.contains_key((chosen, id));
                    assert(records.contains_key((chosen, id)));
                    assert(no_later(least, (chosen, id)));
                }
                Some(least.0)
            },
            None => {
                proof {
                    let records = self@.expirations;
                    assert forall|when: u64| !earliest(records, when) by {
                        if earliest(records, when) {
                            let id = choose|id: u64| records.contains_key((when, id));
                            assert(records.contains_key((when, id)));
                        }
                    }
                }
                None
            },
        }
    }

    /// The id that the next `set` gives to its entry.
    pub fn next_id(&self) -> (id: u64)
        ensures
            id == self@.next_id,
    {
        self.next_id
    }

    /// Returns `true` if the database is shutting down
    pub fn is_shutdown(&self) -> (down: bool)
        ensures
            down == self@.shutdown,
    {
        self.shutdown
    }

    /// Marks the store as shutting down. The task that purges expired keys
    /// has to be woken after this, so that it sees the mark and exits.
    pub fn shutdown(&mut self)
        requires
            old(self).wf(),
        ensures
            final(self).wf(),
            final(self)@ == (StoreView { shutdown: true, ..old(self)@ }),
            final(self).senders() == old(self).senders(),
    {
        self.shutdown = true;
        proof {
            assert(self.senders() == old(self).senders());
            assert forall|channel: Seq<char>| #[trigger]
                self.senders().contains_key(channel) implies slots(self.senders()[channel])
                == CHANNEL_CAPACITY by {
                assert(old(self).senders().contains_key(channel));
            }
        }
    }

    /// Get the value associated with a key.
    ///
    /// Returns `None` if there is no value associated with the key. This may be
    /// due to never having assigned a value to the key or a previously assigned
    /// value expired.
    pub fn get(&self, key: &str) -> (value: Option<Bytes>)
        requires
            self.wf(),
        ensures
            match self@.get(key@) {
                Some(data) => value is Some && contents(value->0) == data,
                None => value is None,
            },
    {
        match self.entries.get(key) {
            Some(entry) => Some(entry.data.clone()),
            None => None,
        }
    }

    /// The id of the entry that `key` holds.
    pub fn id_of(&self, key: &str) -> (id: Option<u64>)
        requires
            self.wf(),
        ensures
            match id {
                Some(id) => self@.entries.contains_key(key@) && self@.entries[key@].id == id,
                None => !self@.entries.contains_key(key@),
            },
    {
        match self.entries.get(key) {
            Some(entry) => Some(entry.id),
            None => None,
        }
    }

    /// Set the value associated with a key along with an optional expiration
    /// instant.
    ///
    /// If a value is already associated with the key, it is removed, and so
    /// is its expiration. Returns whether the task that purges expired keys
    /// has to be woken: it has, when the new expiration is the next one.
    pub fn set(&mut self, key: String, value: Bytes, expires_at: Option<u64>) -> (notify: bool)
        requires
            old(self).wf(),
            old(self)@.next_id < u64::MAX,
        ensures
            final(self).wf(),
            final(self)@ == old(self)@.set(key@, contents(value), expires_at),
            final(self).senders() == old(self).senders(),
            notify == old(self)@.wakes_purge(expires_at),
    {
        let ghost before = self@;
        // Get and increment the next insertion ID. This ensures a unique
        // identifier is associated with each `set` operation.
        let id = self.next_id;
        self.next_id = self.next_id + 1;

        // If this `set` becomes the key that expires **next**, the background
        // task needs to be notified so it can update its state.
        let mut notify = false;
        match expires_at {
            Some(when) => {
                notify =
                match self.next_expiration() {
                    Some(expiration) => expiration > when,
                    None => true,
                };
                // Track the expiration.
                self.expirations.insert(when, id, key.clone());
            },
            None => {},
        }

        // Insert the entry into the table.
        let prev = self.entries.insert(key, Entry { id, data: value, expires_at });
        let ghost inserted = self@;

        // If there was a value previously associated with the key **and** it
        // had an expiration time, the associated entry in the `expirations`
        // map must also be removed. This avoids leaking data.
        match prev {
            Some(prev) => {
                match prev.expires_at {
                    Some(when) => {
                        proof {
                            assert(before.entries.contains_key(key@));
                            assert(before.entries[key@] == prev@);
                        }
                        let _ = self.expirations.remove(when, prev.id);
                    },
                    None => {},
                }
            },
            None => {},
        }
        proof {
            let after = self@;
            let goal = before.set(key@, contents(value), expires_at);
            assert(after.entries =~= goal.entries);
            assert(after.expirations =~= goal.expirations) by {
                if before.entries.contains_key(key@) {
                    assert(before.entries[key@].id < id);
                }
            }
            assert(after == goal);
            lemma_set_wf(before, key@, contents(value), expires_at);
            assert(self.senders() == old(self).senders());
            assert forall|channel: Seq<char>| #[trigger]
                self.senders().contains_key(channel) implies slots(self.senders()[channel])
                == CHANNEL_CAPACITY by {
                assert(old(self).senders().contains_key(channel));
            }
        }
        notify
    }

    /// Returns a `Receiver` for the requested channel.
    ///
    /// The returned `Receiver` is used to receive values broadcast by `PUBLISH`
    /// commands. It hangs on the channel's one sender, which is made on the
    /// first subscription to the channel and kept from then on.
    pub fn subscribe(&mut self, key: String) -> (receiver: Receiver<Bytes>)
        requires
            old(self).wf(),
        ensures
            final(self).wf(),
            final(self)@ == old(self)@.subscribe(key@),
            final(self).senders().contains_key(key@),
            hears(receiver, final(self).senders()[key@]),
            slots(final(self).senders()[key@]) == CHANNEL_CAPACITY,
            old(self).senders().contains_key(key@) ==> final(self).senders() == old(self).senders(),
            final(self).senders().remove(key@) == old(self).senders().remove(key@),
            kept(old(self).senders(), final(self).senders()),
    {
        // If there is no entry for the requested channel, then create a new
        // broadcast channel and associate it with the key. If one already
        // exists, return an associated receiver.
        let receiver = match self.pub_sub.get(key.as_str()) {
            Some(sender) => subscribe(sender),
            None => {
                // The channel is created with a capacity of `1024` messages.
                // When the channel's capacity fills up, publishing will
                // result in old messages being dropped. This prevents slow
                // consumers from blocking the entire system.
                proof {
                    vstd::arithmetic::power2::lemma2_to64();
                    assert(CHANNEL_CAPACITY == vstd::arithmetic::power2::pow2(10));
                    assert(is_power_of_two(CHANNEL_CAPACITY as nat));
                }
                let (sender, receiver) = channel(CHANNEL_CAPACITY);
                let _ = self.pub_sub.insert(key, sender);
                proof {
                    assert(self.senders().remove(key@) =~= old(self).senders().remove(key@));
                }
                receiver
            },
        };
        proof {
            assert(self@.channels =~= old(self)@.channels.insert(key@));
        }
        receiver
    }

    /// Publish a message to the channel. Returns the number of subscribers
    /// listening on the channel.
    pub fn publish(&self, key: &str, value: Bytes) -> (receivers: usize)
        requires
            self.wf(),
        ensures
            !self@.channels.contains(key@) ==> receivers == 0,
    {
        match self.pub_sub.get(key) {
            Some(sender) => delivered(sender.send(value)),
            // If there is no entry for the channel key, then there are no
            // subscribers. In this case, return `0`.
            None => 0,
        }
    }

    /// One round of the task that purges expired keys: purges, and says what
    /// to wait for before the next round, or nothing where the store is
    /// shutting down and the task has to exit.
    pub fn purge_round(&mut self, now: u64) -> (wait: Option<PurgeWait>)
        requires
            old(self).wf(),
        ensures
            final(self).wf(),
            final(self)@ == old(self)@.purge(now),
            final(self).senders() == old(self).senders(),
            wait == if old(self)@.shutdown {
                None
            } else {
                Some(
                    match final(self)@.next_expiration() {
                        Some(instant) => PurgeWait::Until(instant),
                        None => PurgeWait::Notified,
                    },
                )
            },
            wait matches Some(PurgeWait::Until(instant)) ==> instant > now,
    {
        // If the shutdown flag is set, then the task should exit.
        if self.is_shutdown() {
            return None;
        }
        // Purge all keys that are expired. The function returns the instant at
        // which the **next** key will expire. The worker should wait until the
        // instant has passed then purge again.
        match self.purge_expired_keys(now) {
            Some(instant) => Some(PurgeWait::Until(instant)),
            // There are no keys expiring in the future. Wait until the task is
            // notified.
            None => Some(PurgeWait::Notified),
        }
    }

    /// Purge all expired keys and return the instant at which the **next**
    /// key will expire. The background task will sleep until this instant.
    pub fn purge_expired_keys(&mut self, now: u64) -> (next: Option<u64>)
        requires
            old(self).wf(),
        ensures
            final(self).wf(),
            final(self)@ == old(self)@.purge(now),
            final(self).senders() == old(self).senders(),
            next == if old(self)@.shutdown {
                None
            } else {
                final(self)@.next_expiration()
            },
            next matches Some(when) ==> when > now,
    {
        if self.shutdown {
            // The database is shutting down. The background task should
            // exit.
            return None;
        }
        // Find all keys scheduled to expire **before** now.
        loop
            invariant
                self.wf(),
                !self@.shutdown,
                !old(self)@.shutdown,
                self.senders() == old(self).senders(),
                self@.purge(now) == old(self)@.purge(now),
            decreases self@.expirations.dom().len(),
        {
            let ghost state = self@;
            let least = match self.expirations.first() {
                Some(least) => least,
                None => {
                    proof {
                        lemma_purge_settled(state, now);
                    }
                    return self.next_expiration();
                },
            };
            let (when, id) = least;
            if when > now {
                // Done purging, `when` is the instant at which the next key
                // expires. The worker task will wait until this instant.
                proof {
                    assert forall|at: (u64, u64)| state.expirations.contains_key(at) implies at.0
                        > now by {
                        assert(no_later(least, at));
                    }
                    lemma_purge_settled(state, now);
                }
                return self.next_expiration();
            }
            // The key expired, remove it
            proof {
                self.expirations.lemma_finite();
                assert(state.backed(least));
            }
            match self.expirations.remove(when, id) {
                Some(key) => {
                    let _ = self.entries.remove(key.as_str());
                    proof {
                        lemma_purge_step(state, least, now);
                        let after = self@;
                        assert(after.entries =~= state.entries.remove(state.expirations[least]));
                        assert(after == state.evict(least));
                    }
                },
                None => {},
            }
        }
    }
}

impl StoreView {
    /// The state without the record `at` and without the entry it belongs to.
    pub open spec fn evict(self, at: (u64, u64)) -> StoreView {
        StoreView {
            entries: self.entries.remove(self.expirations[at]),
            expirations: self.expirations.remove(at),
            ..self
        }
    }
}

/// Where no record is due, nothing is purged.
pub proof fn lemma_purge_settled(state: StoreView, now: u64)
    requires
        state.wf(),
        !state.shutdown,
        forall|at: (u64, u64)| state.expirations.contains_key(at) ==> at.0 > now,
    ensures
        state.purge(now) == state,
        state.next_expiration() matches Some(when) ==> when > now,
{
    let purged = state.purge(now);
    assert(purged.entries =~= state.entries) by {
        assert forall|key: Seq<char>| state.entries.contains_key(key) implies !state.due(
            key,
            now,
        ) by {
            assert(state.indexed(key));
        }
    }
    assert(purged.expirations =~= state.expirations);
    if let Some(when) = state.next_expiration() {
        assert(earliest(state.expirations, when));
        let id = choose|id: u64| state.expirations.contains_key((when, id));
        assert(state.expirations.contains_key((when, id)));
    }
}

/// Evicting one entry that is due leaves a well-formed state with one
/// record less, and the same state after a purge.
pub proof fn lemma_purge_step(state: StoreView, at: (u64, u64), now: u64)
    requires
        state.wf(),
        !state.shutdown,
        state.expirations.contains_key(at),
        at.0 <= now,
    ensures
        state.evict(at).wf(),
        state.evict(at).purge(now) == state.purge(now),
        state.evict(at).expirations.dom().len() < state.expirations.dom().len(),
{
    let after = state.evict(at);
    let key = state.expirations[at];
    assert(state.backed(at));
    assert forall|k: Seq<char>| #[trigger] after.entries.contains_key(k) implies after.indexed(k)
        && after.entries[k].id < after.next_id by {
        assert(state.entries.contains_key(k));
        assert(state.indexed(k));
        if let Some(when) = state.entries[k].expires_at {
            let other = (when, state.entries[k].id);
            assert(state.expirations[other] == k);
        }
    }
    assert forall|other: (u64, u64)| #[trigger]
        after.expirations.contains_key(other) implies after.backed(other) by {
        assert(state.expirations.contains_key(other));
        assert(state.backed(other));
        if state.expirations[other] == key {
            assert(state.indexed(key));
        }
    }
    assert forall|a: Seq<char>, b: Seq<char>|
        after.entries.contains_key(a) && after.entries.contains_key(b) && after.entries[a].id
            == after.entries[b].id implies a == b by {
        assert(state.entries.contains_key(a));
        assert(state.entries.contains_key(b));
    }
    assert(after.purge(now).entries =~= state.purge(now).entries) by {
        assert(state.due(key, now));
    }
    assert(after.purge(now).expirations =~= state.purge(now).expirations);
}

/// Setting a key keeps the state well-formed.
pub proof fn lemma_set_wf(state: StoreView, key: Seq<char>, data: Seq<u8>, expires_at: Option<u64>)
    requires
        state.wf(),
        state.next_id < u64::MAX,
    ensures
        state.set(key, data, expires_at).wf(),
{
    let after = state.set(key, data, expires_at);
    let id = state.next_id;
    assert forall|k: Seq<char>| #[trigger] after.entries.contains_key(k) implies after.indexed(k)
        && after.entries[k].id < after.next_id by {
        if k != key {
            assert(state.entries.contains_key(k));
            assert(state.indexed(k));
            if state.entries.contains_key(key) {
                assert(state.entries[k].id != state.entries[key].id);
            }
        }
    }
    assert forall|at: (u64, u64)| #[trigger] after.expirations.contains_key(at) implies after.backed(
        at,
    ) by {
        if at.1 != id || !(expires_at is Some) || at.0 != expires_at->0 {
            assert(state.expirations.contains_key(at));
            assert(state.backed(at));
            let owner = state.expirations[at];
            if owner == key {
                assert(state.indexed(key));
            }
        }
    }
    assert forall|a: Seq<char>, b: Seq<char>|
        after.entries.contains_key(a) && after.entries.contains_key(b) && after.entries[a].id
            == after.entries[b].id implies a == b by {
        if a != key {
            assert(state.entries.contains_key(a));
        }
        if b != key {
            assert(state.entries.contains_key(b));
        }
    }
}

} // verus!
