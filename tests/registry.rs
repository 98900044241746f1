use surrealdb_jni::error::SurrealError;
use surrealdb_jni::kind::JniTypes;
use surrealdb_jni::registry::Registry;

#[derive(Debug, PartialEq)]
enum Val {
    Int(i64),
    Str(String),
}

#[test]
fn borrow_after_create_repeats() {
    let mut reg: Registry<Val> = Registry::new();
    let h = reg.create_instance(Val::Int(7), JniTypes::Value);
    assert_ne!(h, 0);
    assert_eq!(reg.get_instance(h, JniTypes::Value), Ok(&Val::Int(7)));
    assert_eq!(reg.get_instance(h, JniTypes::Value), Ok(&Val::Int(7)));
    let other = reg.create_instance(Val::Int(8), JniTypes::Value);
    reg.release_instance(other);
    assert_eq!(reg.get_instance(h, JniTypes::Value), Ok(&Val::Int(7)));
}

#[test]
fn take_then_borrow_fails() {
    let mut reg: Registry<Val> = Registry::new();
    let h = reg.create_instance(Val::Str("v".to_string()), JniTypes::ValueMut);
    assert_eq!(reg.take_instance(h, JniTypes::ValueMut), Ok(Val::Str("v".to_string())));
    assert_eq!(
        reg.get_instance(h, JniTypes::ValueMut),
        Err(SurrealError::NullPointerException(JniTypes::ValueMut))
    );
    assert_eq!(
        reg.take_instance(h, JniTypes::ValueMut),
        Err(SurrealError::NullPointerException(JniTypes::ValueMut))
    );
}

#[test]
fn stale_handle_stays_dead_after_slot_reuse() {
    let mut reg: Registry<Val> = Registry::new();
    let h1 = reg.create_instance(Val::Int(1), JniTypes::Value);
    reg.release_instance(h1);
    let h2 = reg.create_instance(Val::Int(2), JniTypes::Value);
    assert_ne!(h1, h2);
    assert_eq!(reg.slot_count(), 1);
    assert_eq!(
        reg.get_instance(h1, JniTypes::Value),
        Err(SurrealError::NullPointerException(JniTypes::Value))
    );
    assert_eq!(reg.get_instance(h2, JniTypes::Value), Ok(&Val::Int(2)));
}

#[test]
fn zero_handle_never_borrows() {
    let mut reg: Registry<Val> = Registry::new();
    reg.create_instance(Val::Int(1), JniTypes::Value);
    for k in [JniTypes::Surreal, JniTypes::Value, JniTypes::ArrayIter, JniTypes::Response] {
        assert_eq!(reg.get_instance(0, k), Err(SurrealError::NullPointerException(k)));
        assert_eq!(reg.check_allocation(0, k), Err(SurrealError::NullPointerException(k)));
    }
}

#[test]
fn release_zero_is_noop() {
    let mut reg: Registry<Val> = Registry::new();
    let h = reg.create_instance(Val::Int(3), JniTypes::Value);
    reg.release_instance(0);
    assert_eq!(reg.get_instance(h, JniTypes::Value), Ok(&Val::Int(3)));
    let mut empty: Registry<Val> = Registry::new();
    empty.release_instance(0);
    assert_eq!(empty.slot_count(), 0);
}

#[test]
fn wrong_kind_is_reported() {
    let mut reg: Registry<Val> = Registry::new();
    let h = reg.create_instance(Val::Int(3), JniTypes::Value);
    assert_eq!(
        reg.get_instance(h, JniTypes::ArrayIter),
        Err(SurrealError::WrongType { expected: JniTypes::ArrayIter, found: JniTypes::Value })
    );
    assert_eq!(
        reg.take_instance(h, JniTypes::ValueMut),
        Err(SurrealError::WrongType { expected: JniTypes::ValueMut, found: JniTypes::Value })
    );
    assert_eq!(reg.get_instance(h, JniTypes::Value), Ok(&Val::Int(3)));
}

#[test]
fn mutable_borrow_changes_value_in_place() {
    let mut reg: Registry<Val> = Registry::new();
    let h = reg.create_instance(Val::Int(1), JniTypes::ValueMut);
    match reg.get_instance_mut(h, JniTypes::ValueMut) {
        Ok(v) => *v = Val::Int(10),
        Err(e) => panic!("unexpected {:?}", e),
    }
    assert_eq!(reg.get_instance(h, JniTypes::ValueMut), Ok(&Val::Int(10)));
    assert!(reg.get_instance_mut(h, JniTypes::Value).is_err());
}

#[test]
fn unregistered_handle_is_not_found() {
    let mut reg: Registry<Val> = Registry::new();
    let h = reg.create_instance(Val::Int(1), JniTypes::Value);
    assert_eq!(
        reg.get_instance(h + 1, JniTypes::Value),
        Err(SurrealError::NullPointerException(JniTypes::Value))
    );
    assert_eq!(
        reg.get_instance(-5, JniTypes::Value),
        Err(SurrealError::NullPointerException(JniTypes::Value))
    );
}

#[test]
fn scenario_two_values_release_one() {
    let mut reg: Registry<Val> = Registry::new();
    let h1 = reg.create_instance(Val::Int(42), JniTypes::Value);
    let h2 = reg.create_instance(Val::Str("x".to_string()), JniTypes::Value);
    let a = reg.get_instance(h1, JniTypes::Value).unwrap();
    let b = reg.get_instance(h1, JniTypes::Value).unwrap();
    assert_eq!(a, b);
    assert_ne!(reg.get_instance(h1, JniTypes::Value).unwrap(), reg.get_instance(h2, JniTypes::Value).unwrap());
    reg.release_instance(h1);
    assert_eq!(
        reg.get_instance(h1, JniTypes::Value),
        Err(SurrealError::NullPointerException(JniTypes::Value))
    );
    assert_eq!(reg.get_instance(h2, JniTypes::Value), Ok(&Val::Str("x".to_string())));
}

#[test]
fn kind_names() {
    assert_eq!(JniTypes::Surreal.as_str(), "Surreal");
    assert_eq!(JniTypes::ValueMut.as_str(), "MutableValue");
    assert_eq!(JniTypes::SyncObjectIter.as_str(), "SynchronizedObjectIterator");
    assert_eq!(JniTypes::KeyValueMutEntry.as_str(), "MutableObjectEntry");
}
