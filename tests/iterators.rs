use std::sync::Arc;

use surrealdb_jni::error::SurrealError;
use surrealdb_jni::instance::Instance;
use surrealdb_jni::iter::SnapshotIter;
use surrealdb_jni::kind::JniTypes;
use surrealdb_jni::registry::Registry;
use surrealdb_jni::sync_iter::SyncSnapshotIter;

type Reg = Registry<Instance<(), i64, ()>>;

#[test]
fn array_iterator_scenario() {
    let mut it = SnapshotIter::new(vec![1, 2, 3]);
    assert!(it.has_next());
    assert_eq!(it.next(), Ok(1));
    assert!(it.has_next());
    assert_eq!(it.next(), Ok(2));
    assert!(it.has_next());
    assert_eq!(it.next(), Ok(3));
    assert!(!it.has_next());
    assert_eq!(it.next(), Err(SurrealError::NoSuchElementException));
}

#[test]
fn drain_exactly_len_elements() {
    for n in [0usize, 1, 5] {
        let items: Vec<usize> = (0..n).collect();
        let mut it = SnapshotIter::new(items.clone());
        assert_eq!(it.len(), n);
        let mut got = Vec::new();
        while it.has_next() {
            got.push(it.next().unwrap());
        }
        assert_eq!(got, items);
        assert_eq!(it.next(), Err(SurrealError::NoSuchElementException));
        assert_eq!(it.next(), Err(SurrealError::NoSuchElementException));
        assert!(!it.has_next());
    }
}

#[test]
fn shared_cursor_hands_each_element_out_once() {
    let items: Vec<i64> = (0..10).collect();
    let first = SyncSnapshotIter::new(items.clone());
    let callers: Vec<SyncSnapshotIter<i64>> = (0..3).map(|_| first.share()).collect();
    let mut got: Vec<Vec<i64>> = vec![Vec::new(); 3];
    let mut done = [false; 3];
    let mut turn = 0usize;
    while done.iter().any(|d| !*d) {
        let c = turn % 3;
        if !done[c] {
            match callers[c].next() {
                Ok(x) => got[c].push(*x),
                Err(e) => {
                    assert_eq!(e, SurrealError::NoSuchElementException);
                    done[c] = true;
                }
            }
        }
        turn += if turn % 2 == 0 { 1 } else { 2 };
    }
    let mut all: Vec<i64> = got.concat();
    all.sort();
    assert_eq!(all, items);
    assert!(!first.has_next());
}

#[test]
fn shared_cursor_over_nothing() {
    let it: SyncSnapshotIter<i64> = SyncSnapshotIter::new(Vec::new());
    assert!(!it.has_next());
    assert_eq!(it.next().map(|a| *a), Err(SurrealError::NoSuchElementException));
}

#[test]
fn shared_cursor_keeps_snapshot_order() {
    let it = SyncSnapshotIter::new(vec![1, 2, 3]);
    let other = it.share();
    assert!(it.has_next());
    assert_eq!(it.next().map(|a| *a), Ok(1));
    assert_eq!(other.next().map(|a| *a), Ok(2));
    assert_eq!(it.next().map(|a| *a), Ok(3));
    assert!(!other.has_next());
    assert_eq!(other.next().map(|a| *a), Err(SurrealError::NoSuchElementException));
}

#[test]
fn registered_array_iterator_scenario() {
    let mut reg: Reg = Registry::new();
    let h = reg.register(Instance::ArrayIter(SnapshotIter::new(vec![1, 2, 3])));
    let mut seen = Vec::new();
    for _ in 0..3 {
        assert_eq!(reg.value_iterator_has_next(h), Ok(true));
        let hv = reg.value_iterator_next(h).unwrap();
        match reg.shared_value_of(hv) {
            Ok(a) => seen.push(*a),
            Err(e) => panic!("unexpected {:?}", e),
        }
    }
    assert_eq!(seen, vec![1, 2, 3]);
    assert_eq!(reg.value_iterator_has_next(h), Ok(false));
    assert_eq!(reg.value_iterator_next(h), Err(SurrealError::NoSuchElementException));
    assert_eq!(
        reg.value_iterator_next(0),
        Err(SurrealError::NullPointerException(JniTypes::ArrayIter))
    );
}

#[test]
fn registered_entry_iterator_yields_entries() {
    let mut reg: Reg = Registry::new();
    let entries = vec![("a".to_string(), 1), ("b".to_string(), 2)];
    let h = reg.register(Instance::ObjectIter(SnapshotIter::new(entries)));
    let e1 = reg.entry_iterator_next(h).unwrap();
    assert_eq!(reg.entry_key(e1), Ok("a".to_string()));
    let v1 = reg.entry_value(e1).unwrap();
    assert_eq!(reg.shared_value_of(v1).map(|a| *a), Ok(1));
    let e2 = reg.entry_iterator_next(h).unwrap();
    assert_eq!(reg.entry_key(e2), Ok("b".to_string()));
    assert_eq!(reg.entry_iterator_has_next(h), Ok(false));
    assert_eq!(reg.entry_iterator_next(h), Err(SurrealError::NoSuchElementException));
    assert_eq!(
        reg.entry_key(v1),
        Err(SurrealError::WrongType { expected: JniTypes::KeyValueEntry, found: JniTypes::Value })
    );
}

#[test]
fn registered_sync_iterator_is_shared() {
    let mut reg: Reg = Registry::new();
    let h = reg.register(Instance::SyncArrayIter(SyncSnapshotIter::new(vec![5, 6])));
    let a = reg.sync_value_iterator(h).unwrap();
    let b = reg.sync_value_iterator(h).unwrap();
    assert_eq!(a.next().map(|x| *x), Ok(5));
    assert_eq!(b.next().map(|x| *x), Ok(6));
    assert!(!a.has_next());
    assert_eq!(b.next().map(|x| *x), Err(SurrealError::NoSuchElementException));
    assert!(reg.sync_entry_iterator(h).is_err());
}

#[test]
fn entry_mut_consumes_value_handle() {
    let mut reg: Reg = Registry::new();
    let v = reg.register(Instance::ValueMut(9));
    let e = reg.entry_mut_create("k".to_string(), v).unwrap();
    match reg.get_instance(e, JniTypes::KeyValueMutEntry) {
        Ok(Instance::KeyValueMutEntry(k, x)) => {
            assert_eq!(k, "k");
            assert_eq!(*x, 9);
        }
        _ => panic!("entry missing"),
    }
    assert_eq!(
        reg.entry_mut_create("k".to_string(), v),
        Err(SurrealError::NullPointerException(JniTypes::ValueMut))
    );
}

#[test]
fn register_values_keeps_order() {
    let mut reg: Reg = Registry::new();
    let hs = reg.register_values(vec![10, 20, 30]);
    assert_eq!(hs.len(), 3);
    let vals: Vec<i64> = hs.iter().map(|h| *reg.shared_value_of(*h).unwrap()).collect();
    assert_eq!(vals, vec![10, 20, 30]);
    assert!(reg.register_values(Vec::new()).is_empty());
    let shared = Arc::new(4);
    let h = reg.register(Instance::Value(shared));
    assert_eq!(reg.shared_value_of(h).map(|a| *a), Ok(4));
}

#[test]
fn bulk_take_stops_at_first_failure() {
    let mut reg: Reg = Registry::new();
    let a = reg.register(Instance::ValueMut(1));
    let b = reg.register(Instance::ValueMut(2));
    assert_eq!(reg.take_values(&vec![a, b]), Ok(vec![1, 2]));
    assert_eq!(
        reg.take_values(&vec![a]),
        Err(SurrealError::NullPointerException(JniTypes::ValueMut))
    );
    let c = reg.register(Instance::ValueMut(3));
    let d = reg.register(Instance::ValueMut(4));
    assert_eq!(
        reg.take_values(&vec![c, c, d]),
        Err(SurrealError::NullPointerException(JniTypes::ValueMut))
    );
    assert!(reg.get_instance(c, JniTypes::ValueMut).is_err());
    assert!(reg.get_instance(d, JniTypes::ValueMut).is_ok());
    assert_eq!(reg.take_values(&Vec::new()), Ok(Vec::new()));
}

#[test]
fn bulk_take_of_entries() {
    let mut reg: Reg = Registry::new();
    let v1 = reg.register(Instance::ValueMut(1));
    let v2 = reg.register(Instance::ValueMut(2));
    let e1 = reg.entry_mut_create("a".to_string(), v1).unwrap();
    let e2 = reg.entry_mut_create("b".to_string(), v2).unwrap();
    assert_eq!(
        reg.take_entries(&vec![e2, e1]),
        Ok(vec![("b".to_string(), 2), ("a".to_string(), 1)])
    );
    let v3 = reg.register(Instance::ValueMut(3));
    assert_eq!(
        reg.take_entries(&vec![v3]),
        Err(SurrealError::WrongType { expected: JniTypes::KeyValueMutEntry, found: JniTypes::ValueMut })
    );
}

#[test]
fn shared_cursor_steps_from_a_position() {
    let it = SyncSnapshotIter::new(vec![7, 8]);
    assert!(it.remaining_at(0));
    assert!(it.remaining_at(1));
    assert!(!it.remaining_at(2));
    let (first, after) = it.step_at(0);
    assert_eq!((first.map(|a| *a), after), (Ok(7), 1));
    let (second, after) = it.step_at(1);
    assert_eq!((second.map(|a| *a), after), (Ok(8), 2));
    let (done, after) = it.step_at(2);
    assert_eq!((done.map(|a| *a), after), (Err(SurrealError::NoSuchElementException), 2));
    assert_eq!(it.next().map(|a| *a), Ok(7));
}
