use rusty_workers_runtime::kv::{resolve_namespace, KvStore};
use rusty_workers_runtime::types::{EngineError, KvNamespaceBinding};

fn ns() -> Vec<u8> {
    b"namespace-a".to_vec()
}

#[test]
fn put_get_round_trip_until_deleted() {
    let mut store = KvStore::new();
    store.put(ns(), b"k".to_vec(), b"hello".to_vec());
    assert_eq!(store.get(&ns(), &b"k".to_vec()), Some(b"hello".to_vec()));
    // A write under another key leaves the binding untouched.
    store.put(ns(), b"other".to_vec(), b"x".to_vec());
    assert_eq!(store.get(&ns(), &b"k".to_vec()), Some(b"hello".to_vec()));
    // Overwriting replaces the value.
    store.put(ns(), b"k".to_vec(), b"world".to_vec());
    assert_eq!(store.get(&ns(), &b"k".to_vec()), Some(b"world".to_vec()));
    // Deleted means unbound.
    store.delete(ns(), b"k".to_vec());
    assert_eq!(store.get(&ns(), &b"k".to_vec()), None);
}

#[test]
fn namespaces_are_disjoint() {
    let mut store = KvStore::new();
    store.put(b"ns1".to_vec(), b"k".to_vec(), b"one".to_vec());
    store.put(b"ns2".to_vec(), b"k".to_vec(), b"two".to_vec());
    assert_eq!(store.get(&b"ns1".to_vec(), &b"k".to_vec()), Some(b"one".to_vec()));
    assert_eq!(store.get(&b"ns2".to_vec(), &b"k".to_vec()), Some(b"two".to_vec()));
    store.delete(b"ns1".to_vec(), b"k".to_vec());
    assert_eq!(store.get(&b"ns1".to_vec(), &b"k".to_vec()), None);
    assert_eq!(store.get(&b"ns2".to_vec(), &b"k".to_vec()), Some(b"two".to_vec()));
}

#[test]
fn scan_respects_limit_start_and_stability() {
    let mut store = KvStore::new();
    store.put(ns(), b"apple".to_vec(), b"1".to_vec());
    store.put(ns(), b"banana".to_vec(), b"2".to_vec());
    store.put(ns(), b"cherry".to_vec(), b"3".to_vec());
    store.put(b"elsewhere".to_vec(), b"damson".to_vec(), b"4".to_vec());

    let all = store.scan(&ns(), &b"".to_vec(), 10);
    assert_eq!(all, vec![b"apple".to_vec(), b"banana".to_vec(), b"cherry".to_vec()]);

    // At most the requested limit of keys.
    let limited = store.scan(&ns(), &b"".to_vec(), 2);
    assert_eq!(limited.len(), 2);
    assert_eq!(limited, vec![b"apple".to_vec(), b"banana".to_vec()]);

    // Starting key excludes what sorts before it.
    let from_b = store.scan(&ns(), &b"banana".to_vec(), 10);
    assert_eq!(from_b, vec![b"banana".to_vec(), b"cherry".to_vec()]);

    // Stable order across repeated scans absent mutation.
    assert_eq!(store.scan(&ns(), &b"".to_vec(), 10), all);
    assert_eq!(store.scan(&ns(), &b"".to_vec(), 10), all);
}

#[test]
fn committed_transaction_applies_all_writes() {
    let mut store = KvStore::new();
    store.put(ns(), b"kept".to_vec(), b"old".to_vec());
    assert_eq!(store.begin_transaction(), Ok(()));
    store.put(ns(), b"a".to_vec(), b"1".to_vec());
    store.put(ns(), b"b".to_vec(), b"2".to_vec());
    store.delete(ns(), b"kept".to_vec());
    // Buffered writes are not visible before commit.
    assert_eq!(store.get(&ns(), &b"a".to_vec()), None);
    assert_eq!(store.get(&ns(), &b"kept".to_vec()), Some(b"old".to_vec()));
    assert_eq!(store.commit_transaction(), Ok(()));
    assert_eq!(store.get(&ns(), &b"a".to_vec()), Some(b"1".to_vec()));
    assert_eq!(store.get(&ns(), &b"b".to_vec()), Some(b"2".to_vec()));
    assert_eq!(store.get(&ns(), &b"kept".to_vec()), None);
}

#[test]
fn rolled_back_transaction_applies_nothing() {
    let mut store = KvStore::new();
    store.put(ns(), b"k".to_vec(), b"old".to_vec());
    assert_eq!(store.begin_transaction(), Ok(()));
    store.put(ns(), b"k".to_vec(), b"new".to_vec());
    store.delete(ns(), b"k".to_vec());
    assert_eq!(store.rollback_transaction(), Ok(()));
    assert_eq!(store.get(&ns(), &b"k".to_vec()), Some(b"old".to_vec()));
}

#[test]
fn transaction_misuse_is_a_protocol_violation() {
    let mut store = KvStore::new();
    assert_eq!(store.commit_transaction(), Err(EngineError::ProtocolViolation));
    assert_eq!(store.rollback_transaction(), Err(EngineError::ProtocolViolation));
    assert_eq!(store.begin_transaction(), Ok(()));
    assert_eq!(store.begin_transaction(), Err(EngineError::ProtocolViolation));
    assert_eq!(store.commit_transaction(), Ok(()));
}

#[test]
fn namespace_resolution_takes_the_first_binding() {
    let bindings = vec![
        KvNamespaceBinding { name: b"cache".to_vec(), id: vec![1; 16] },
        KvNamespaceBinding { name: b"sessions".to_vec(), id: vec![2; 16] },
        KvNamespaceBinding { name: b"cache".to_vec(), id: vec![3; 16] },
    ];
    assert_eq!(resolve_namespace(&bindings, &b"cache".to_vec()), Some(vec![1; 16]));
    assert_eq!(resolve_namespace(&bindings, &b"sessions".to_vec()), Some(vec![2; 16]));
    assert_eq!(resolve_namespace(&bindings, &b"absent".to_vec()), None);
}
