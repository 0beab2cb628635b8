use rest_presence::container::Container;

#[test]
fn put_then_get_returns_the_value() {
    let mut store: Container<u64> = Container::new();
    assert_eq!(store.put_by_id("a", 1), None);
    assert_eq!(store.put_by_id("a", 2), Some(1));
    assert_eq!(store.get_by_id("a"), Some(2));
    assert_eq!(store._len(), 1);
}

#[test]
fn put_twice_is_put_once() {
    let mut once: Container<String> = Container::new();
    once.put_by_id("k", "v".to_string());
    let mut twice: Container<String> = Container::new();
    twice.put_by_id("k", "v".to_string());
    twice.put_by_id("k", "v".to_string());
    assert_eq!(once.get_all(), twice.get_all());
    assert_eq!(twice._len(), 1);
}

#[test]
fn get_of_an_absent_key_is_none() {
    let store: Container<u64> = Container::new();
    assert_eq!(store.get_by_id("missing"), None);
    assert!(!store._get_is("missing"));
    assert!(store._is_empty());
    assert_eq!(store._len(), 0);
}

#[test]
fn delete_is_final() {
    let mut store: Container<u64> = Container::new();
    store.put_by_id("a", 7);
    assert_eq!(store.delete_by_id("a"), Some(7));
    assert_eq!(store.get_by_id("a"), None);
    assert_eq!(store.delete_by_id("a"), None);
    assert!(store._is_empty());
}

#[test]
fn delete_keeps_the_other_entries_in_order() {
    let mut store: Container<u64> = Container::new();
    store.put_by_id("a", 1);
    store.put_by_id("b", 2);
    store.put_by_id("c", 3);
    assert_eq!(store.delete_by_id("b"), Some(2));
    assert_eq!(
        store.get_all(),
        vec![("a".to_string(), 1), ("c".to_string(), 3)]
    );
}

#[test]
fn overwrite_keeps_the_position() {
    let mut store: Container<u64> = Container::new();
    store.put_by_id("a", 1);
    store.put_by_id("b", 2);
    store.put_by_id("a", 10);
    assert_eq!(
        store.get_all(),
        vec![("a".to_string(), 10), ("b".to_string(), 2)]
    );
    assert_eq!(store._len(), 2);
}

#[test]
fn keys_are_compared_by_their_characters() {
    let mut store: Container<u64> = Container::new();
    store.put_by_id("", 0);
    store.put_by_id("a", 1);
    store.put_by_id("ab", 2);
    assert_eq!(store.get_by_id(""), Some(0));
    assert_eq!(store.get_by_id("a"), Some(1));
    assert_eq!(store.get_by_id("ab"), Some(2));
    assert_eq!(store.get_by_id("b"), None);
    assert!(store._get_is("ab"));
}

#[test]
fn get_all_is_a_copy() {
    let mut store: Container<String> = Container::new();
    store.put_by_id("a", "one".to_string());
    let mut snapshot = store.get_all();
    snapshot[0].1.push_str(" changed");
    snapshot.clear();
    assert_eq!(store.get_by_id("a"), Some("one".to_string()));
    assert_eq!(store._len(), 1);
}

#[test]
fn delete_all_empties_the_store() {
    let mut store: Container<u64> = Container::new();
    store.put_by_id("a", 1);
    store.put_by_id("b", 2);
    store._delete_all();
    assert!(store._is_empty());
    assert_eq!(store.get_all(), vec![]);
    assert_eq!(store.get_by_id("a"), None);
}

#[test]
fn new_arc_and_default_are_empty() {
    let shared = Container::<u64>::new_arc();
    assert!(shared._is_empty());
    assert_eq!(shared.get_by_id("a"), None);
    let plain: Container<u64> = Container::default();
    assert_eq!(plain._len(), 0);
}

#[test]
fn interleaved_writes_on_overlapping_keys_leave_a_consistent_store() {
    let mut store: Container<(u64, u64)> = Container::new();
    let keys = ["k0", "k1", "k2", "k3"];
    for round in 0..200u64 {
        for (n, key) in keys.iter().enumerate() {
            let n = n as u64;
            if (round + n) % 3 == 0 {
                store.delete_by_id(key);
                assert_eq!(store.get_by_id(key), None);
            } else {
                store.put_by_id(key, (round, round * 2));
                assert_eq!(store.get_by_id(key), Some((round, round * 2)));
            }
        }
        let all = store.get_all();
        assert_eq!(all.len(), store._len());
        for (key, value) in all {
            assert_eq!(value.1, value.0 * 2);
            assert_eq!(store.get_by_id(&key), Some(value));
        }
    }
}
