//! Laws of the store, proved once and for all over the operations' models.

use vstd::prelude::*;

use crate::derivation::derive_spec;
use crate::errors::StoreError;
use crate::records::{CounterV, RegistryV, StoredV, MAX_KEY, MAX_VALUE};
use crate::store::{counter_at, counter_ns, in_i64, registry_at, registry_ns, spec_decrement,
    spec_increment, spec_initialize, spec_remove, spec_upsert};

verus! {

/// For every caller whose counter initialization succeeds, incrementing the
/// fresh counter by any amount succeeds and yields that amount, and
/// decrementing by the same amount afterwards succeeds and yields zero.
pub proof fn lemma_initialize_increment_decrement(
    m: Map<Seq<u8>, StoredV>,
    pid: Seq<u8>,
    caller: Seq<u8>,
    amount: i64,
)
    requires
        spec_initialize(m, pid, caller).0 is Ok,
    ensures
        ({
            let m0 = spec_initialize(m, pid, caller).1;
            let a = derive_spec(pid, counter_ns(), caller, None).unwrap();
            let (r1, m1) = spec_increment(m0, a, caller, amount);
            let r2 = spec_decrement(m1, a, caller, amount).0;
            r1 is Ok && r1.unwrap().count == amount && r2 is Ok && r2.unwrap().count == 0
        }),
{
}

/// Incrementing by an amount that would overflow fails with `Overflow` and
/// leaves the store unchanged.
pub proof fn lemma_increment_overflow_unchanged(
    m: Map<Seq<u8>, StoredV>,
    a: Seq<u8>,
    caller: Seq<u8>,
    amount: i64,
)
    requires
        counter_at(m, a) matches Some(c) && c.authority == caller && !in_i64(c.count + amount),
    ensures
        spec_increment(m, a, caller, amount) == (
            Err::<CounterV, StoreError>(StoreError::Overflow),
            m,
        ),
{
}

/// Decrementing by an amount that would underflow fails with `Overflow` and
/// leaves the store unchanged.
pub proof fn lemma_decrement_overflow_unchanged(
    m: Map<Seq<u8>, StoredV>,
    a: Seq<u8>,
    caller: Seq<u8>,
    amount: i64,
)
    requires
        counter_at(m, a) matches Some(c) && c.authority == caller && !in_i64(c.count - amount),
    ensures
        spec_decrement(m, a, caller, amount) == (
            Err::<CounterV, StoreError>(StoreError::Overflow),
            m,
        ),
{
}

/// An increment by a caller who is not the counter's authority always fails
/// with `Unauthorized` and leaves the store unchanged.
pub proof fn lemma_increment_unauthorized_unchanged(
    m: Map<Seq<u8>, StoredV>,
    a: Seq<u8>,
    caller: Seq<u8>,
    amount: i64,
)
    requires
        counter_at(m, a) matches Some(c) && c.authority != caller,
    ensures
        spec_increment(m, a, caller, amount) == (
            Err::<CounterV, StoreError>(StoreError::Unauthorized),
            m,
        ),
{
}

/// A decrement by a caller who is not the counter's authority always fails
/// with `Unauthorized` and leaves the store unchanged.
pub proof fn lemma_decrement_unauthorized_unchanged(
    m: Map<Seq<u8>, StoredV>,
    a: Seq<u8>,
    caller: Seq<u8>,
    amount: i64,
)
    requires
        counter_at(m, a) matches Some(c) && c.authority != caller,
    ensures
        spec_decrement(m, a, caller, amount) == (
            Err::<CounterV, StoreError>(StoreError::Unauthorized),
            m,
        ),
{
}

/// A removal by a caller who is not the record's authority always fails with
/// `Unauthorized` and leaves the store unchanged.
pub proof fn lemma_remove_unauthorized_unchanged(
    m: Map<Seq<u8>, StoredV>,
    a: Seq<u8>,
    caller: Seq<u8>,
)
    requires
        registry_at(m, a) matches Some(r) && r.authority != caller,
    ensures
        spec_remove(m, a, caller) == (Err::<(), StoreError>(StoreError::Unauthorized), m),
{
}

/// Removing at an address that holds no record fails with `NotFound` and
/// leaves the store unchanged.
pub proof fn lemma_remove_absent(m: Map<Seq<u8>, StoredV>, a: Seq<u8>, caller: Seq<u8>)
    requires
        !m.contains_key(a),
    ensures
        spec_remove(m, a, caller) == (Err::<(), StoreError>(StoreError::NotFound), m),
{
}

/// After a successful removal, an upsert by the same owner for the same key
/// succeeds and creates a fresh record holding exactly the given key and
/// value, with the owner as authority.
pub proof fn lemma_remove_then_upsert_fresh(
    m: Map<Seq<u8>, StoredV>,
    pid: Seq<u8>,
    owner: Seq<u8>,
    key: Seq<u8>,
    value: Seq<u8>,
)
    requires
        key.len() <= MAX_KEY,
        value.len() <= MAX_VALUE,
        derive_spec(pid, registry_ns(), owner, Some(key)) matches Some(a) && spec_remove(
            m,
            a,
            owner,
        ).0 is Ok,
    ensures
        ({
            let a = derive_spec(pid, registry_ns(), owner, Some(key)).unwrap();
            let m1 = spec_remove(m, a, owner).1;
            let fresh = RegistryV { authority: owner, key: key, value: value };
            spec_upsert(m1, pid, owner, key, value) == (
                Ok::<RegistryV, StoreError>(fresh),
                m1.insert(a, StoredV::Registry(fresh)),
            )
        }),
{
}

} // verus!
