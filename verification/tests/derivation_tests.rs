use record_store::derivation::AddressDeriver;
use record_store::errors::StoreError;
use record_store::ident::Identifier;
use record_store::store::RecordStore;

fn ident(byte: u8) -> Identifier {
    Identifier::new(vec![byte; 32])
}

#[test]
fn derivation_is_deterministic() {
    let deriver = AddressDeriver::new(vec![9u8; 32]);
    let owner = ident(1);
    let key = vec![5u8, 6u8];
    let a1 = deriver.derive(b"registry", &owner, Some(&key)).unwrap();
    let a2 = deriver.derive(b"registry", &owner, Some(&key)).unwrap();
    assert!(a1.eq_address(&a2));
    assert_eq!(a1.as_bytes(), a2.as_bytes());
}

#[test]
fn derived_address_is_not_an_input() {
    let deriver = AddressDeriver::new(vec![9u8; 32]);
    let owner = ident(1);
    let addr = deriver.derive(b"counter", &owner, None).unwrap();
    assert_eq!(addr.as_bytes().len(), 32);
    assert_ne!(addr.as_bytes(), owner.as_bytes());
    assert_ne!(addr.as_bytes(), vec![9u8; 32].as_slice());
}

#[test]
fn varying_any_argument_changes_the_address() {
    let deriver = AddressDeriver::new(vec![9u8; 32]);
    let other_deriver = AddressDeriver::new(vec![10u8; 32]);
    let owner = ident(1);
    let key = vec![5u8];
    let base = deriver.derive(b"registry", &owner, Some(&key)).unwrap();
    let other_ns = deriver.derive(b"counter", &owner, Some(&key)).unwrap();
    let other_owner = deriver.derive(b"registry", &ident(2), Some(&key)).unwrap();
    let other_key = deriver.derive(b"registry", &owner, Some(&vec![6u8])).unwrap();
    let no_key = deriver.derive(b"registry", &owner, None).unwrap();
    let other_pid = other_deriver.derive(b"registry", &owner, Some(&key)).unwrap();
    assert!(!base.eq_address(&other_ns));
    assert!(!base.eq_address(&other_owner));
    assert!(!base.eq_address(&other_key));
    assert!(!base.eq_address(&no_key));
    assert!(!base.eq_address(&other_pid));
}

#[test]
fn long_keys_are_split_and_still_distinct() {
    let deriver = AddressDeriver::new(vec![9u8; 32]);
    let owner = ident(1);
    let mut long_a = vec![0u8; 64];
    let mut long_b = vec![0u8; 64];
    long_a[63] = 1;
    long_b[0] = 1;
    let a = deriver.derive(b"registry", &owner, Some(&long_a)).unwrap();
    let b = deriver.derive(b"registry", &owner, Some(&long_b)).unwrap();
    assert!(!a.eq_address(&b));
}

#[test]
fn too_many_seed_pieces_exhausts_the_address_space() {
    let deriver = AddressDeriver::new(vec![9u8; 32]);
    let owner = ident(1);
    // A namespace of 15 seed-sized pieces plus the owner reaches the host
    // derivation's seed-count limit, so no disambiguation value exists.
    let huge_ns = vec![3u8; 15 * 32];
    let r = deriver.derive(&huge_ns, &owner, None);
    assert!(matches!(r, Err(StoreError::AddressSpaceExhausted)));
}

#[test]
fn store_addresses_match_the_deriver() {
    let store = RecordStore::new(vec![9u8; 32]);
    let deriver = AddressDeriver::new(vec![9u8; 32]);
    let owner = ident(1);
    let from_store = store.counter_address(&owner).unwrap();
    let from_deriver = deriver.derive(b"counter", &owner, None).unwrap();
    assert!(from_store.eq_address(&from_deriver));
    let key = vec![7u8];
    let reg_store = store.registry_address(&owner, &key).unwrap();
    let reg_deriver = deriver.derive(b"registry", &owner, Some(&key)).unwrap();
    assert!(reg_store.eq_address(&reg_deriver));
}
