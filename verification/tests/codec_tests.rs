use record_store::arith::{checked_add, checked_sub};
use record_store::access::authorize;
use record_store::codec::{decode_record, encode_record, COUNTER_TAG, REGISTRY_TAG};
use record_store::errors::StoreError;
use record_store::ident::Identifier;
use record_store::records::{Counter, Record, StoredRecord};
use record_store::store::RecordStore;

fn ident(byte: u8) -> Identifier {
    Identifier::new(vec![byte; 32])
}

#[test]
fn counter_encodes_to_exact_bytes() {
    let rec = StoredRecord::Counter(Counter { authority: ident(7), count: 1 });
    let mut expected = vec![COUNTER_TAG];
    expected.extend_from_slice(&[7u8; 32]);
    expected.extend_from_slice(&[1, 0, 0, 0, 0, 0, 0, 0]);
    assert_eq!(encode_record(&rec), expected);
}

#[test]
fn negative_count_encodes_as_two_complement() {
    let rec = StoredRecord::Counter(Counter { authority: ident(7), count: -1 });
    let mut expected = vec![COUNTER_TAG];
    expected.extend_from_slice(&[7u8; 32]);
    expected.extend_from_slice(&[0xFF; 8]);
    assert_eq!(encode_record(&rec), expected);
}

#[test]
fn registry_encodes_to_exact_bytes() {
    let rec = StoredRecord::Registry(Record {
        authority: ident(5),
        key: vec![10, 11],
        value: vec![20, 21, 22],
    });
    let mut expected = vec![REGISTRY_TAG];
    expected.extend_from_slice(&[5u8; 32]);
    expected.extend_from_slice(&[2, 0, 0, 0]);
    expected.extend_from_slice(&[10, 11]);
    expected.extend_from_slice(&[3, 0, 0, 0]);
    expected.extend_from_slice(&[20, 21, 22]);
    assert_eq!(encode_record(&rec), expected);
}

#[test]
fn counter_round_trips_through_bytes() {
    let rec = StoredRecord::Counter(Counter { authority: ident(3), count: -123456789 });
    let bytes = encode_record(&rec);
    match decode_record(bytes.as_slice()) {
        Some(StoredRecord::Counter(c)) => {
            assert_eq!(c.authority.as_bytes(), ident(3).as_bytes());
            assert_eq!(c.count, -123456789);
        }
        _ => panic!("expected a counter record"),
    }
}

#[test]
fn registry_round_trips_through_bytes() {
    let rec = StoredRecord::Registry(Record {
        authority: ident(4),
        key: vec![1u8; 64],
        value: vec![2u8; 256],
    });
    let bytes = encode_record(&rec);
    match decode_record(bytes.as_slice()) {
        Some(StoredRecord::Registry(r)) => {
            assert_eq!(r.authority.as_bytes(), ident(4).as_bytes());
            assert_eq!(r.key, vec![1u8; 64]);
            assert_eq!(r.value, vec![2u8; 256]);
        }
        _ => panic!("expected a registry record"),
    }
}

#[test]
fn decode_rejects_malformed_bytes() {
    assert!(decode_record(&[]).is_none());
    assert!(decode_record(&[0u8; 41]).is_none());
    assert!(decode_record(&[3u8; 41]).is_none());
    // A counter record must be exactly 41 bytes.
    assert!(decode_record(&vec![COUNTER_TAG; 40]).is_none());
    assert!(decode_record(&vec![COUNTER_TAG; 42]).is_none());
    // A registry record with a key length over the bound is rejected.
    let mut oversized = vec![REGISTRY_TAG];
    oversized.extend_from_slice(&[0u8; 32]);
    oversized.extend_from_slice(&[65, 0, 0, 0]);
    oversized.extend_from_slice(&[0u8; 65]);
    oversized.extend_from_slice(&[0, 0, 0, 0]);
    assert!(decode_record(oversized.as_slice()).is_none());
    // Trailing bytes are rejected.
    let rec = StoredRecord::Registry(Record {
        authority: ident(4),
        key: vec![1u8],
        value: vec![2u8],
    });
    let mut bytes = encode_record(&rec);
    bytes.push(0);
    assert!(decode_record(bytes.as_slice()).is_none());
}

#[test]
fn decode_reads_hand_built_registry_bytes() {
    let mut bytes = vec![REGISTRY_TAG];
    bytes.extend_from_slice(&[8u8; 32]);
    bytes.extend_from_slice(&[1, 0, 0, 0]);
    bytes.push(42);
    bytes.extend_from_slice(&[2, 0, 0, 0]);
    bytes.extend_from_slice(&[43, 44]);
    match decode_record(bytes.as_slice()) {
        Some(StoredRecord::Registry(r)) => {
            assert_eq!(r.authority.as_bytes(), &[8u8; 32]);
            assert_eq!(r.key, vec![42u8]);
            assert_eq!(r.value, vec![43u8, 44u8]);
        }
        _ => panic!("expected a registry record"),
    }
}

#[test]
fn checked_add_is_exact() {
    assert_eq!(checked_add(1, 2), Ok(3));
    assert_eq!(checked_add(i64::MAX, 1), Err(StoreError::Overflow));
    assert_eq!(checked_add(i64::MIN, -1), Err(StoreError::Overflow));
    assert_eq!(checked_add(i64::MAX, i64::MIN), Ok(-1));
}

#[test]
fn checked_sub_is_exact() {
    assert_eq!(checked_sub(3, 10), Ok(-7));
    assert_eq!(checked_sub(i64::MIN, 1), Err(StoreError::Overflow));
    assert_eq!(checked_sub(0, i64::MIN), Err(StoreError::Overflow));
    assert_eq!(checked_sub(-1, i64::MIN), Ok(i64::MAX));
}

#[test]
fn authorize_is_pure_equality() {
    assert_eq!(authorize(&ident(1), &ident(1)), Ok(()));
    assert_eq!(authorize(&ident(1), &ident(2)), Err(StoreError::Unauthorized));
}

#[test]
fn exported_record_decodes_to_what_was_stored() {
    let mut store = RecordStore::new(vec![9u8; 32]);
    let owner = ident(6);
    store.initialize_counter(&owner).unwrap();
    let addr = store.counter_address(&owner).unwrap();
    store.increment(&addr, &owner, 11).unwrap();
    let bytes = store.export_record(&addr).unwrap();
    assert_eq!(bytes[0], COUNTER_TAG);
    match decode_record(bytes.as_slice()) {
        Some(StoredRecord::Counter(c)) => {
            assert_eq!(c.authority.as_bytes(), owner.as_bytes());
            assert_eq!(c.count, 11);
        }
        _ => panic!("expected a counter record"),
    }
    let absent = store.registry_address(&owner, &vec![1u8]).unwrap();
    assert!(store.export_record(&absent).is_none());
}
