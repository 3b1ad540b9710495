use record_store::errors::StoreError;
use record_store::ident::Identifier;
use record_store::store::RecordStore;

fn ident(byte: u8) -> Identifier {
    Identifier::new(vec![byte; 32])
}

fn fresh_store() -> RecordStore {
    RecordStore::new(vec![9u8; 32])
}

#[test]
fn initialize_starts_at_zero_with_caller_authority() {
    let mut store = fresh_store();
    let owner = ident(1);
    let rec = store.initialize_counter(&owner).unwrap();
    assert_eq!(rec.count, 0);
    assert_eq!(rec.authority.as_bytes(), owner.as_bytes());
}

#[test]
fn initialize_twice_fails_already_exists() {
    let mut store = fresh_store();
    let owner = ident(1);
    store.initialize_counter(&owner).unwrap();
    assert!(matches!(store.initialize_counter(&owner), Err(StoreError::AlreadyExists)));
}

#[test]
fn increment_then_decrement_restores_zero() {
    let mut store = fresh_store();
    let owner = ident(1);
    store.initialize_counter(&owner).unwrap();
    let addr = store.counter_address(&owner).unwrap();
    let rec = store.increment(&addr, &owner, 5).unwrap();
    assert_eq!(rec.count, 5);
    let rec = store.decrement(&addr, &owner, 5).unwrap();
    assert_eq!(rec.count, 0);
}

#[test]
fn increment_missing_counter_fails_not_found() {
    let mut store = fresh_store();
    let owner = ident(1);
    let addr = store.counter_address(&owner).unwrap();
    assert!(matches!(store.increment(&addr, &owner, 1), Err(StoreError::NotFound)));
}

#[test]
fn increment_overflow_fails_and_leaves_count() {
    let mut store = fresh_store();
    let owner = ident(1);
    store.initialize_counter(&owner).unwrap();
    let addr = store.counter_address(&owner).unwrap();
    let rec = store.increment(&addr, &owner, i64::MAX).unwrap();
    assert_eq!(rec.count, i64::MAX);
    assert!(matches!(store.increment(&addr, &owner, 1), Err(StoreError::Overflow)));
    assert_eq!(store.load_counter(&addr).unwrap().count, i64::MAX);
}

#[test]
fn decrement_underflow_fails_and_leaves_count() {
    let mut store = fresh_store();
    let owner = ident(1);
    store.initialize_counter(&owner).unwrap();
    let addr = store.counter_address(&owner).unwrap();
    let rec = store.decrement(&addr, &owner, i64::MAX).unwrap();
    assert_eq!(rec.count, -i64::MAX);
    assert!(matches!(store.decrement(&addr, &owner, 2), Err(StoreError::Overflow)));
    assert_eq!(store.load_counter(&addr).unwrap().count, -i64::MAX);
}

#[test]
fn wrong_caller_cannot_touch_counter() {
    let mut store = fresh_store();
    let owner = ident(1);
    let other = ident(2);
    store.initialize_counter(&owner).unwrap();
    let addr = store.counter_address(&owner).unwrap();
    store.increment(&addr, &owner, 3).unwrap();
    assert!(matches!(store.increment(&addr, &other, 1), Err(StoreError::Unauthorized)));
    assert!(matches!(store.decrement(&addr, &other, 1), Err(StoreError::Unauthorized)));
    assert_eq!(store.load_counter(&addr).unwrap().count, 3);
}

#[test]
fn counter_end_to_end() {
    let mut store = fresh_store();
    let owner_a = ident(1);
    let owner_b = ident(2);
    let rec = store.initialize_counter(&owner_a).unwrap();
    assert_eq!(rec.count, 0);
    assert_eq!(rec.authority.as_bytes(), owner_a.as_bytes());
    let addr = store.counter_address(&owner_a).unwrap();
    let rec = store.increment(&addr, &owner_a, 3).unwrap();
    assert_eq!(rec.count, 3);
    assert!(matches!(store.increment(&addr, &owner_b, 1), Err(StoreError::Unauthorized)));
    assert_eq!(store.load_counter(&addr).unwrap().count, 3);
    let rec = store.decrement(&addr, &owner_a, 10).unwrap();
    assert_eq!(rec.count, -7);
    let rec = store.increment(&addr, &owner_a, 10).unwrap();
    assert_eq!(rec.count, 3);
    assert!(matches!(store.increment(&addr, &owner_a, i64::MAX), Err(StoreError::Overflow)));
    assert_eq!(store.load_counter(&addr).unwrap().count, 3);
}

#[test]
fn upsert_bounds_are_enforced_at_the_boundary() {
    let mut store = fresh_store();
    let owner = ident(1);
    assert!(matches!(
        store.upsert(&owner, vec![0u8; 65], vec![1u8; 4]),
        Err(StoreError::KeyTooLarge)
    ));
    assert!(matches!(
        store.upsert(&owner, vec![0u8; 4], vec![1u8; 257]),
        Err(StoreError::ValueTooLarge)
    ));
    let rec = store.upsert(&owner, vec![0u8; 64], vec![1u8; 256]).unwrap();
    assert_eq!(rec.key.len(), 64);
    assert_eq!(rec.value.len(), 256);
    assert_eq!(rec.authority.as_bytes(), owner.as_bytes());
    let addr = store.registry_address(&owner, &vec![0u8; 64]).unwrap();
    let loaded = store.load_registry(&addr).unwrap();
    assert_eq!(loaded.key, vec![0u8; 64]);
    assert_eq!(loaded.value, vec![1u8; 256]);
}

#[test]
fn upsert_overwrites_value_and_keeps_authority() {
    let mut store = fresh_store();
    let owner = ident(1);
    store.upsert(&owner, vec![7u8, 8u8], vec![1u8]).unwrap();
    let rec = store.upsert(&owner, vec![7u8, 8u8], vec![2u8, 3u8]).unwrap();
    assert_eq!(rec.value, vec![2u8, 3u8]);
    assert_eq!(rec.authority.as_bytes(), owner.as_bytes());
    let addr = store.registry_address(&owner, &vec![7u8, 8u8]).unwrap();
    assert_eq!(store.load_registry(&addr).unwrap().value, vec![2u8, 3u8]);
}

#[test]
fn remove_missing_record_fails_not_found() {
    let mut store = fresh_store();
    let owner = ident(1);
    let addr = store.registry_address(&owner, &vec![7u8]).unwrap();
    assert!(matches!(store.remove(&addr, &owner), Err(StoreError::NotFound)));
}

#[test]
fn remove_by_wrong_caller_fails_unauthorized() {
    let mut store = fresh_store();
    let owner = ident(1);
    let other = ident(2);
    store.upsert(&owner, vec![7u8], vec![1u8]).unwrap();
    let addr = store.registry_address(&owner, &vec![7u8]).unwrap();
    assert!(matches!(store.remove(&addr, &other), Err(StoreError::Unauthorized)));
    assert_eq!(store.load_registry(&addr).unwrap().value, vec![1u8]);
}

#[test]
fn remove_then_upsert_creates_fresh_record() {
    let mut store = fresh_store();
    let owner = ident(1);
    store.upsert(&owner, vec![7u8], vec![1u8, 2u8]).unwrap();
    let addr = store.registry_address(&owner, &vec![7u8]).unwrap();
    store.remove(&addr, &owner).unwrap();
    assert!(store.load_registry(&addr).is_none());
    assert!(matches!(store.remove(&addr, &owner), Err(StoreError::NotFound)));
    let rec = store.upsert(&owner, vec![7u8], vec![9u8]).unwrap();
    assert_eq!(rec.key, vec![7u8]);
    assert_eq!(rec.value, vec![9u8]);
    assert_eq!(rec.authority.as_bytes(), owner.as_bytes());
    assert_eq!(store.load_registry(&addr).unwrap().value, vec![9u8]);
}

#[test]
fn counter_address_is_not_a_registry_address() {
    let mut store = fresh_store();
    let owner = ident(1);
    store.initialize_counter(&owner).unwrap();
    let counter_addr = store.counter_address(&owner).unwrap();
    assert!(store.load_registry(&counter_addr).is_none());
    assert!(matches!(store.remove(&counter_addr, &owner), Err(StoreError::NotFound)));
}
