use bytes::Bytes;
use mini_redis::storage::index::ExpirationIndex;
use mini_redis::storage::store::{delivered, PurgeWait, Store};
use mini_redis::storage::table::Table;
use tokio::sync::broadcast::error::{SendError, TryRecvError};

fn value(text: &'static str) -> Bytes {
    Bytes::from(text)
}

#[test]
fn new_store_is_empty() {
    let store = Store::new();
    assert_eq!(store.get("anything"), None);
    assert_eq!(store.next_expiration(), None);
    assert_eq!(store.next_id(), 0);
    assert!(!store.is_shutdown());
    assert_eq!(store.publish("anything", value("m")), 0);
}

#[test]
fn get_after_set() {
    let mut store = Store::new();
    store.set("hello".to_string(), value("world"), None);
    assert_eq!(store.get("hello"), Some(value("world")));
    assert_eq!(store.get("hell"), None);
    assert_eq!(store.get("hello "), None);
    assert_eq!(store.get(""), None);
}

#[test]
fn set_overwrites() {
    let mut store = Store::new();
    store.set("k".to_string(), value("one"), None);
    store.set("k".to_string(), value("two"), None);
    assert_eq!(store.get("k"), Some(value("two")));
}

#[test]
fn set_leaves_other_keys() {
    let mut store = Store::new();
    store.set("a".to_string(), value("1"), None);
    store.set("b".to_string(), value("2"), Some(10));
    store.set("c".to_string(), value("3"), None);
    store.set("b".to_string(), value("4"), None);
    assert_eq!(store.get("a"), Some(value("1")));
    assert_eq!(store.get("b"), Some(value("4")));
    assert_eq!(store.get("c"), Some(value("3")));
}

#[test]
fn each_set_takes_the_next_id() {
    let mut store = Store::new();
    assert_eq!(store.next_id(), 0);
    store.set("k".to_string(), value("a"), None);
    assert_eq!(store.next_id(), 1);
    store.set("k".to_string(), value("b"), Some(5));
    assert_eq!(store.next_id(), 2);
    store.set("j".to_string(), value("c"), None);
    assert_eq!(store.next_id(), 3);
    store.purge_expired_keys(100);
    let _ = store.subscribe("ch".to_string());
    assert_eq!(store.next_id(), 3);
}

#[test]
fn two_sets_on_one_key_give_two_ids() {
    let mut store = Store::new();
    assert_eq!(store.id_of("k"), None);
    store.set("k".to_string(), value("a"), None);
    let first = store.id_of("k").unwrap();
    store.set("other".to_string(), value("x"), None);
    store.set("k".to_string(), value("a"), None);
    let second = store.id_of("k").unwrap();
    assert_eq!(first, 0);
    assert_eq!(second, 2);
    assert!(first < second);
    assert_eq!(store.id_of("other"), Some(1));
}

#[test]
fn set_tells_when_the_purge_has_to_wake() {
    let mut store = Store::new();
    // no expiration, nothing to wake for
    assert!(!store.set("a".to_string(), value("v"), None));
    // the first expiration is the next one
    assert!(store.set("b".to_string(), value("v"), Some(100)));
    assert_eq!(store.next_expiration(), Some(100));
    // a later one is not
    assert!(!store.set("c".to_string(), value("v"), Some(200)));
    // one at the same instant is not
    assert!(!store.set("d".to_string(), value("v"), Some(100)));
    // an earlier one is
    assert!(store.set("e".to_string(), value("v"), Some(50)));
    assert_eq!(store.next_expiration(), Some(50));
}

#[test]
fn set_wakes_the_purge_going_by_the_expirations_before_it() {
    let mut store = Store::new();
    store.set("k".to_string(), value("v"), Some(10));
    // the key's own earlier expiration still counts when it is overwritten
    assert!(!store.set("k".to_string(), value("v"), Some(20)));
    assert_eq!(store.next_expiration(), Some(20));
}

#[test]
fn overwrite_takes_the_old_expiration_out() {
    let mut store = Store::new();
    store.set("k".to_string(), value("one"), Some(10));
    store.set("k".to_string(), value("two"), None);
    assert_eq!(store.next_expiration(), None);
    assert_eq!(store.purge_expired_keys(1_000), None);
    assert_eq!(store.get("k"), Some(value("two")));
}

#[test]
fn overwrite_replaces_the_expiration() {
    let mut store = Store::new();
    store.set("k".to_string(), value("one"), Some(10));
    store.set("k".to_string(), value("two"), Some(500));
    assert_eq!(store.next_expiration(), Some(500));
    assert_eq!(store.purge_expired_keys(100), Some(500));
    assert_eq!(store.get("k"), Some(value("two")));
    assert_eq!(store.purge_expired_keys(500), None);
    assert_eq!(store.get("k"), None);
}

#[test]
fn purge_evicts_what_is_due() {
    let mut store = Store::new();
    store.set("a".to_string(), value("1"), Some(10));
    store.set("b".to_string(), value("2"), Some(20));
    store.set("c".to_string(), value("3"), Some(30));
    store.set("d".to_string(), value("4"), None);

    assert_eq!(store.purge_expired_keys(9), Some(10));
    assert_eq!(store.get("a"), Some(value("1")));

    // an entry is due at its instant, not only after it
    assert_eq!(store.purge_expired_keys(10), Some(20));
    assert_eq!(store.get("a"), None);
    assert_eq!(store.get("b"), Some(value("2")));

    assert_eq!(store.purge_expired_keys(29), Some(30));
    assert_eq!(store.get("b"), None);
    assert_eq!(store.get("c"), Some(value("3")));

    assert_eq!(store.purge_expired_keys(u64::MAX), None);
    assert_eq!(store.get("c"), None);
    assert_eq!(store.get("d"), Some(value("4")));
    assert_eq!(store.next_expiration(), None);
}

#[test]
fn purge_returns_an_instant_in_the_future() {
    let mut store = Store::new();
    for (i, when) in [5u64, 3, 9, 3, 7, 1, 9].iter().enumerate() {
        store.set(format!("k{}", i), value("v"), Some(*when));
    }
    let mut now = 0;
    while let Some(next) = store.purge_expired_keys(now) {
        assert!(next > now);
        assert_eq!(store.next_expiration(), Some(next));
        now = next;
    }
    for i in 0..7 {
        assert_eq!(store.get(&format!("k{}", i)), None);
    }
}

#[test]
fn purge_keeps_apart_entries_that_expire_at_one_instant() {
    let mut store = Store::new();
    store.set("a".to_string(), value("1"), Some(10));
    store.set("b".to_string(), value("2"), Some(10));
    store.set("a".to_string(), value("3"), Some(10));
    assert_eq!(store.purge_expired_keys(9), Some(10));
    assert_eq!(store.get("a"), Some(value("3")));
    assert_eq!(store.get("b"), Some(value("2")));
    assert_eq!(store.purge_expired_keys(10), None);
    assert_eq!(store.get("a"), None);
    assert_eq!(store.get("b"), None);
}

#[test]
fn purge_of_a_store_that_shuts_down_does_nothing() {
    let mut store = Store::new();
    store.set("a".to_string(), value("1"), Some(10));
    store.shutdown();
    assert!(store.is_shutdown());
    assert_eq!(store.purge_expired_keys(100), None);
    assert_eq!(store.get("a"), Some(value("1")));
    assert_eq!(store.next_expiration(), Some(10));
}

#[test]
fn expiry_at_instant_zero() {
    let mut store = Store::new();
    assert!(store.set("a".to_string(), value("1"), Some(0)));
    assert_eq!(store.get("a"), Some(value("1")));
    assert_eq!(store.purge_expired_keys(0), None);
    assert_eq!(store.get("a"), None);
}

#[test]
fn expiry_at_the_last_instant() {
    let mut store = Store::new();
    store.set("a".to_string(), value("1"), Some(u64::MAX));
    assert_eq!(store.purge_expired_keys(u64::MAX - 1), Some(u64::MAX));
    assert_eq!(store.purge_expired_keys(u64::MAX), None);
    assert_eq!(store.get("a"), None);
}

#[test]
fn publish_before_any_subscribe_returns_zero() {
    let store = Store::new();
    assert_eq!(store.publish("foo", value("bar")), 0);
    assert_eq!(store.publish("foo", value("bar")), 0);
}

#[test]
fn publish_reaches_every_subscriber() {
    let mut store = Store::new();
    let mut first = store.subscribe("foo".to_string());
    assert_eq!(store.publish("foo", value("one")), 1);
    let mut second = store.subscribe("foo".to_string());
    assert_eq!(store.publish("foo", value("two")), 2);

    assert_eq!(first.try_recv().unwrap(), value("one"));
    assert_eq!(first.try_recv().unwrap(), value("two"));
    assert!(matches!(first.try_recv(), Err(TryRecvError::Empty)));
    // a subscriber gets what is published after it subscribed
    assert_eq!(second.try_recv().unwrap(), value("two"));
    assert!(matches!(second.try_recv(), Err(TryRecvError::Empty)));
}

#[test]
fn publish_on_another_channel() {
    let mut store = Store::new();
    let mut foo = store.subscribe("foo".to_string());
    assert_eq!(store.publish("bar", value("m")), 0);
    assert!(matches!(foo.try_recv(), Err(TryRecvError::Empty)));
}

#[test]
fn publish_after_the_subscribers_have_gone() {
    let mut store = Store::new();
    let receiver = store.subscribe("foo".to_string());
    drop(receiver);
    assert_eq!(store.publish("foo", value("m")), 0);
    // the channel is still there for who comes next
    let mut again = store.subscribe("foo".to_string());
    assert_eq!(store.publish("foo", value("n")), 1);
    assert_eq!(again.try_recv().unwrap(), value("n"));
}

#[test]
fn a_slow_subscriber_loses_the_oldest_messages() {
    let mut store = Store::new();
    let mut receiver = store.subscribe("foo".to_string());
    for i in 0..1025u32 {
        assert_eq!(store.publish("foo", Bytes::from(i.to_string())), 1);
    }
    assert!(matches!(receiver.try_recv(), Err(TryRecvError::Lagged(1))));
    assert_eq!(receiver.try_recv().unwrap(), Bytes::from("1"));
}

#[test]
fn channels_and_keys_are_apart() {
    let mut store = Store::new();
    let _receiver = store.subscribe("foo".to_string());
    assert_eq!(store.get("foo"), None);
    store.set("bar".to_string(), value("v"), None);
    assert_eq!(store.publish("bar", value("m")), 0);
}

#[test]
fn table_holds_one_value_for_a_key() {
    let mut table: Table<u32> = Table::new();
    assert_eq!(table.len(), 0);
    assert_eq!(table.insert("a".to_string(), 1), None);
    assert_eq!(table.insert("b".to_string(), 2), None);
    assert_eq!(table.insert("a".to_string(), 3), Some(1));
    assert_eq!(table.len(), 2);
    assert_eq!(table.get("a"), Some(&3));
    assert_eq!(table.get("b"), Some(&2));
    assert_eq!(table.get("c"), None);
    assert!(table.contains_key("a"));
    assert!(!table.contains_key("c"));
    assert_eq!(table.remove("a"), Some(3));
    assert_eq!(table.remove("a"), None);
    assert_eq!(table.get("b"), Some(&2));
    assert_eq!(table.len(), 1);
    assert_eq!(table.remove("b"), Some(2));
    assert_eq!(table.len(), 0);
}

#[test]
fn table_remove_keeps_the_others() {
    let mut table: Table<usize> = Table::new();
    let keys = ["a", "b", "c", "d", "e"];
    for (i, key) in keys.iter().enumerate() {
        table.insert(key.to_string(), i);
    }
    assert_eq!(table.remove("b"), Some(1));
    assert_eq!(table.remove("e"), Some(4));
    assert_eq!(table.get("a"), Some(&0));
    assert_eq!(table.get("c"), Some(&2));
    assert_eq!(table.get("d"), Some(&3));
    assert_eq!(table.get("b"), None);
    assert_eq!(table.get("e"), None);
    assert_eq!(table.len(), 3);
}

#[test]
fn index_orders_by_instant_then_id() {
    let mut index = ExpirationIndex::new();
    assert_eq!(index.first(), None);
    index.insert(20, 0, "a".to_string());
    assert_eq!(index.first(), Some((20, 0)));
    index.insert(10, 5, "b".to_string());
    assert_eq!(index.first(), Some((10, 5)));
    index.insert(10, 2, "c".to_string());
    assert_eq!(index.first(), Some((10, 2)));
    index.insert(30, 1, "d".to_string());
    assert_eq!(index.first(), Some((10, 2)));
    assert_eq!(index.remove(10, 2), Some("c".to_string()));
    assert_eq!(index.remove(10, 2), None);
    assert_eq!(index.first(), Some((10, 5)));
    assert_eq!(index.remove(10, 5), Some("b".to_string()));
    assert_eq!(index.first(), Some((20, 0)));
    assert_eq!(index.remove(20, 0), Some("a".to_string()));
    assert_eq!(index.remove(30, 1), Some("d".to_string()));
    assert_eq!(index.first(), None);
}

#[test]
fn purge_round_says_what_to_wait_for() {
    use_purge_round();
}

fn use_purge_round() {
    let mut store = Store::new();
    assert_eq!(store.purge_round(0), Some(PurgeWait::Notified));
    store.set("a".to_string(), value("1"), Some(10));
    store.set("b".to_string(), value("2"), Some(20));
    assert_eq!(store.purge_round(5), Some(PurgeWait::Until(10)));
    assert_eq!(store.purge_round(10), Some(PurgeWait::Until(20)));
    assert_eq!(store.get("a"), None);
    assert_eq!(store.purge_round(25), Some(PurgeWait::Notified));
    assert_eq!(store.get("b"), None);
    store.set("c".to_string(), value("3"), Some(30));
    store.shutdown();
    // the task exits, and evicts nothing on its way out
    assert_eq!(store.purge_round(100), None);
    assert_eq!(store.get("c"), Some(value("3")));
}

#[test]
fn delivered_counts_the_receivers() {
    assert_eq!(delivered(Ok(3)), 3);
    assert_eq!(delivered(Ok(1)), 1);
    assert_eq!(delivered(Err(SendError(value("lost")))), 0);
}
