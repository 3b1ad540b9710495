//! The record store: create, load, mutate and delete records, each operation
//! a single atomic load-check-mutate-persist sequence against exactly one
//! record.
//!
//! The store is modelled as a map from addresses (byte strings) to record
//! views. Every operation's contract states, for every input, exactly which
//! result comes back and exactly how the map changes; every failure leaves
//! the map untouched.

use vstd::prelude::*;

use crate::access;
use crate::arith;
use crate::codec::{encode_record, encode_spec};
use crate::derivation::{derive_spec, AddressDeriver};
use crate::errors::StoreError;
use crate::ident::{Address, Identifier, ID_LEN};
use crate::records::{Counter, CounterV, Record, RegistryV, StoredRecord, StoredV, MAX_KEY,
    MAX_VALUE};

verus! {

/// The namespace tag under which counters are stored: the bytes of "counter".
pub open spec fn counter_ns() -> Seq<u8> {
    seq![99u8, 111u8, 117u8, 110u8, 116u8, 101u8, 114u8]
}

/// The namespace tag under which registry entries are stored: the bytes of
/// "registry".
pub open spec fn registry_ns() -> Seq<u8> {
    seq![114u8, 101u8, 103u8, 105u8, 115u8, 116u8, 114u8, 121u8]
}

/// Builds the counter namespace tag.
pub fn counter_namespace() -> (r: Vec<u8>)
    ensures
        r@ == counter_ns(),
{
    let mut v: Vec<u8> = Vec::new();
    v.push(99);
    v.push(111);
    v.push(117);
    v.push(110);
    v.push(116);
    v.push(101);
    v.push(114);
    proof {
        assert(v@ =~= counter_ns());
    }
    v
}

/// Builds the registry namespace tag.
pub fn registry_namespace() -> (r: Vec<u8>)
    ensures
        r@ == registry_ns(),
{
    let mut v: Vec<u8> = Vec::new();
    v.push(114);
    v.push(101);
    v.push(103);
    v.push(105);
    v.push(115);
    v.push(116);
    v.push(114);
    v.push(121);
    proof {
        assert(v@ =~= registry_ns());
    }
    v
}

/// No two entries occupy the same address.
pub open spec fn unique_keys(s: Seq<(Address, StoredRecord)>) -> bool {
    forall|i: int, j: int| 0 <= i < j < s.len() ==> (#[trigger] s[i]).0@ != (#[trigger] s[j]).0@
}

/// Every entry is well-formed and no two entries occupy the same address.
pub open spec fn entries_wf(s: Seq<(Address, StoredRecord)>) -> bool {
    unique_keys(s) && forall|i: int| 0 <= i < s.len() ==> (#[trigger] s[i]).0.wf() && s[i].1.wf()
}

/// The map an entry list denotes: each address to the record it holds.
pub open spec fn entries_map(s: Seq<(Address, StoredRecord)>) -> Map<Seq<u8>, StoredV>
    decreases s.len(),
{
    if s.len() == 0 {
        Map::empty()
    } else {
        entries_map(s.drop_last()).insert(s.last().0@, s.last().1@)
    }
}

proof fn lemma_entries_wf_drop_last(s: Seq<(Address, StoredRecord)>)
    requires
        entries_wf(s),
        s.len() > 0,
    ensures
        entries_wf(s.drop_last()),
{
    let t = s.drop_last();
    assert forall|i: int| 0 <= i < t.len() implies (#[trigger] t[i]).0.wf() && t[i].1.wf() by {
        assert(t[i] == s[i]);
    }
    assert forall|i: int, j: int| 0 <= i < j < t.len() implies (#[trigger] t[i]).0@ != (
    #[trigger] t[j]).0@ by {
        assert(t[i] == s[i]);
        assert(t[j] == s[j]);
    }
}

proof fn lemma_map_index(s: Seq<(Address, StoredRecord)>, i: int)
    requires
        entries_wf(s),
        0 <= i < s.len(),
    ensures
        entries_map(s).contains_key(s[i].0@),
        entries_map(s)[s[i].0@] == s[i].1@,
    decreases s.len(),
{
    if i < s.len() - 1 {
        lemma_entries_wf_drop_last(s);
        assert(s.drop_last()[i] == s[i]);
        lemma_map_index(s.drop_last(), i);
        assert(s[i].0@ != s.last().0@);
    }
}

proof fn lemma_map_absent(s: Seq<(Address, StoredRecord)>, a: Seq<u8>)
    requires
        forall|i: int| 0 <= i < s.len() ==> (#[trigger] s[i]).0@ != a,
    ensures
        !entries_map(s).contains_key(a),
    decreases s.len(),
{
    if s.len() > 0 {
        let t = s.drop_last();
        assert forall|i: int| 0 <= i < t.len() implies (#[trigger] t[i]).0@ != a by {
            assert(t[i] == s[i]);
        }
        lemma_map_absent(t, a);
    }
}

proof fn lemma_map_push(s: Seq<(Address, StoredRecord)>, p: (Address, StoredRecord))
    ensures
        entries_map(s.push(p)) == entries_map(s).insert(p.0@, p.1@),
{
    assert(s.push(p).drop_last() =~= s);
    assert(s.push(p).last() == p);
}

proof fn lemma_map_remove(s: Seq<(Address, StoredRecord)>, i: int)
    requires
        entries_wf(s),
        0 <= i < s.len(),
    ensures
        entries_map(s.remove(i)) == entries_map(s).remove(s[i].0@),
    decreases s.len(),
{
    let a = s[i].0@;
    if i == s.len() - 1 {
        assert(s.remove(i) =~= s.drop_last());
        assert forall|j: int| 0 <= j < s.drop_last().len() implies (#[trigger] s.drop_last()[
        j]).0@ != a by {
            assert(s.drop_last()[j] == s[j]);
        }
        lemma_map_absent(s.drop_last(), a);
        assert(entries_map(s.drop_last()) =~= entries_map(s).remove(a));
    } else {
        let t = s.drop_last();
        lemma_entries_wf_drop_last(s);
        assert(t[i] == s[i]);
        lemma_map_remove(t, i);
        assert(s.remove(i).drop_last() =~= t.remove(i));
        assert(s.remove(i).last() == s.last());
        assert(s.last().0@ != a);
        assert(entries_map(t).remove(a).insert(s.last().0@, s.last().1@) =~= entries_map(t).insert(
            s.last().0@,
            s.last().1@,
        ).remove(a));
    }
}

/// Replacing the entry at `i` by one with the same address keeps the entry
/// list well-formed and updates the map at that address alone.
proof fn lemma_replace(s: Seq<(Address, StoredRecord)>, i: int, p: (Address, StoredRecord))
    requires
        entries_wf(s),
        0 <= i < s.len(),
        p.0@ == s[i].0@,
        p.0.wf(),
        p.1.wf(),
    ensures
        entries_wf(s.remove(i).push(p)),
        entries_map(s.remove(i).push(p)) == entries_map(s).insert(p.0@, p.1@),
{
    let t = s.remove(i);
    assert forall|j: int| 0 <= j < t.len() implies (#[trigger] t[j]) == (if j < i {
        s[j]
    } else {
        s[j + 1]
    }) by {}
    assert forall|x: int, y: int| 0 <= x < y < t.push(p).len() implies (#[trigger] t.push(p)[
    x]).0@ != (#[trigger] t.push(p)[y]).0@ by {
        if y < t.len() {
            assert(t.push(p)[x] == t[x]);
            assert(t.push(p)[y] == t[y]);
        } else {
            assert(t.push(p)[x] == t[x]);
            assert(t.push(p)[y] == p);
        }
    }
    assert forall|j: int| 0 <= j < t.push(p).len() implies (#[trigger] t.push(p)[j]).0.wf()
        && t.push(p)[j].1.wf() by {
        if j < t.len() {
            assert(t.push(p)[j] == t[j]);
        } else {
            assert(t.push(p)[j] == p);
        }
    }
    lemma_map_remove(s, i);
    lemma_map_push(t, p);
    assert(entries_map(s).remove(p.0@).insert(p.0@, p.1@) =~= entries_map(s).insert(p.0@, p.1@));
}

/// Appending an entry at a fresh address keeps the entry list well-formed
/// and adds exactly that binding to the map.
proof fn lemma_append_fresh(s: Seq<(Address, StoredRecord)>, p: (Address, StoredRecord))
    requires
        entries_wf(s),
        forall|i: int| 0 <= i < s.len() ==> (#[trigger] s[i]).0@ != p.0@,
        p.0.wf(),
        p.1.wf(),
    ensures
        entries_wf(s.push(p)),
        entries_map(s.push(p)) == entries_map(s).insert(p.0@, p.1@),
{
    assert forall|x: int, y: int| 0 <= x < y < s.push(p).len() implies (#[trigger] s.push(p)[
    x]).0@ != (#[trigger] s.push(p)[y]).0@ by {
        if y < s.len() {
            assert(s.push(p)[x] == s[x]);
            assert(s.push(p)[y] == s[y]);
        } else {
            assert(s.push(p)[x] == s[x]);
            assert(s.push(p)[y] == p);
        }
    }
    assert forall|j: int| 0 <= j < s.push(p).len() implies (#[trigger] s.push(p)[j]).0.wf()
        && s.push(p)[j].1.wf() by {
        if j < s.len() {
            assert(s.push(p)[j] == s[j]);
        } else {
            assert(s.push(p)[j] == p);
        }
    }
    lemma_map_push(s, p);
}

/// Deleting the entry at `i` keeps the entry list well-formed and removes
/// exactly its binding from the map.
proof fn lemma_delete(s: Seq<(Address, StoredRecord)>, i: int)
    requires
        entries_wf(s),
        0 <= i < s.len(),
    ensures
        entries_wf(s.remove(i)),
        entries_map(s.remove(i)) == entries_map(s).remove(s[i].0@),
{
    let t = s.remove(i);
    assert forall|j: int| 0 <= j < t.len() implies (#[trigger] t[j]) == (if j < i {
        s[j]
    } else {
        s[j + 1]
    }) by {}
    assert forall|x: int, y: int| 0 <= x < y < t.len() implies (#[trigger] t[x]).0@ != (
    #[trigger] t[y]).0@ by {}
    assert forall|j: int| 0 <= j < t.len() implies (#[trigger] t[j]).0.wf() && t[j].1.wf() by {}
    lemma_map_remove(s, i);
}

/// The counter record at `a`, if one is there.
pub open spec fn counter_at(m: Map<Seq<u8>, StoredV>, a: Seq<u8>) -> Option<CounterV> {
    if m.contains_key(a) {
        match m[a] {
            StoredV::Counter(c) => Some(c),
            StoredV::Registry(_) => None,
        }
    } else {
        None
    }
}

/// The registry record at `a`, if one is there.
pub open spec fn registry_at(m: Map<Seq<u8>, StoredV>, a: Seq<u8>) -> Option<RegistryV> {
    if m.contains_key(a) {
        match m[a] {
            StoredV::Counter(_) => None,
            StoredV::Registry(r) => Some(r),
        }
    } else {
        None
    }
}

/// Whether a mathematical integer is representable as an `i64`.
pub open spec fn in_i64(v: int) -> bool {
    i64::MIN <= v <= i64::MAX
}

/// What `initialize_counter` returns and how the store changes: a fresh
/// counter with the caller as authority and a zero count, at the derived
/// address; `AddressSpaceExhausted` when derivation fails, `AlreadyExists`
/// when the address is occupied.
pub open spec fn spec_initialize(m: Map<Seq<u8>, StoredV>, pid: Seq<u8>, caller: Seq<u8>) -> (
    Result<CounterV, StoreError>,
    Map<Seq<u8>, StoredV>,
) {
    match derive_spec(pid, counter_ns(), caller, None) {
        None => (Err(StoreError::AddressSpaceExhausted), m),
        Some(a) => if m.contains_key(a) {
            (Err(StoreError::AlreadyExists), m)
        } else {
            let c = CounterV { authority: caller, count: 0 };
            (Ok(c), m.insert(a, StoredV::Counter(c)))
        },
    }
}

/// What `increment` returns and how the store changes: checks existence,
/// then authority, then overflow, in that order; on success the count grows
/// by `amount` and nothing else changes.
pub open spec fn spec_increment(
    m: Map<Seq<u8>, StoredV>,
    a: Seq<u8>,
    caller: Seq<u8>,
    amount: i64,
) -> (Result<CounterV, StoreError>, Map<Seq<u8>, StoredV>) {
    match counter_at(m, a) {
        None => (Err(StoreError::NotFound), m),
        Some(c) => if c.authority != caller {
            (Err(StoreError::Unauthorized), m)
        } else if !in_i64(c.count + amount) {
            (Err(StoreError::Overflow), m)
        } else {
            let c2 = CounterV { authority: c.authority, count: (c.count + amount) as i64 };
            (Ok(c2), m.insert(a, StoredV::Counter(c2)))
        },
    }
}

/// What `decrement` returns and how the store changes: as `spec_increment`,
/// with the count shrunk by `amount`.
pub open spec fn spec_decrement(
    m: Map<Seq<u8>, StoredV>,
    a: Seq<u8>,
    caller: Seq<u8>,
    amount: i64,
) -> (Result<CounterV, StoreError>, Map<Seq<u8>, StoredV>) {
    match counter_at(m, a) {
        None => (Err(StoreError::NotFound), m),
        Some(c) => if c.authority != caller {
            (Err(StoreError::Unauthorized), m)
        } else if !in_i64(c.count - amount) {
            (Err(StoreError::Overflow), m)
        } else {
            let c2 = CounterV { authority: c.authority, count: (c.count - amount) as i64 };
            (Ok(c2), m.insert(a, StoredV::Counter(c2)))
        },
    }
}

/// What `upsert` returns and how the store changes: checks the payload
/// bounds, derives the address, then creates the entry or overwrites it if
/// the caller is its authority. The authority is set on first creation and
/// never changes afterwards.
pub open spec fn spec_upsert(
    m: Map<Seq<u8>, StoredV>,
    pid: Seq<u8>,
    caller: Seq<u8>,
    key: Seq<u8>,
    value: Seq<u8>,
) -> (Result<RegistryV, StoreError>, Map<Seq<u8>, StoredV>) {
    if key.len() > MAX_KEY {
        (Err(StoreError::KeyTooLarge), m)
    } else if value.len() > MAX_VALUE {
        (Err(StoreError::ValueTooLarge), m)
    } else {
        match derive_spec(pid, registry_ns(), caller, Some(key)) {
            None => (Err(StoreError::AddressSpaceExhausted), m),
            Some(a) => if m.contains_key(a) {
                match m[a] {
                    StoredV::Counter(_) => (Err(StoreError::NotFound), m),
                    StoredV::Registry(prev) => if prev.authority != caller {
                        (Err(StoreError::Unauthorized), m)
                    } else {
                        let r = RegistryV { authority: prev.authority, key: key, value: value };
                        (Ok(r), m.insert(a, StoredV::Registry(r)))
                    },
                }
            } else {
                let r = RegistryV { authority: caller, key: key, value: value };
                (Ok(r), m.insert(a, StoredV::Registry(r)))
            },
        }
    }
}

/// What `remove` returns and how the store changes: the registry record at
/// the address is deleted and its storage reclaimed, if the caller is its
/// authority.
pub open spec fn spec_remove(m: Map<Seq<u8>, StoredV>, a: Seq<u8>, caller: Seq<u8>) -> (
    Result<(), StoreError>,
    Map<Seq<u8>, StoredV>,
) {
    match registry_at(m, a) {
        None => (Err(StoreError::NotFound), m),
        Some(r) => if r.authority != caller {
            (Err(StoreError::Unauthorized), m)
        } else {
            (Ok(()), m.remove(a))
        },
    }
}

/// The view of a counter-returning result.
pub open spec fn counter_result_view(r: Result<Counter, StoreError>) -> Result<
    CounterV,
    StoreError,
> {
    match r {
        Ok(c) => Ok(c@),
        Err(e) => Err(e),
    }
}

/// The view of a registry-record-returning result.
pub open spec fn record_result_view(r: Result<Record, StoreError>) -> Result<
    RegistryV,
    StoreError,
> {
    match r {
        Ok(rec) => Ok(rec@),
        Err(e) => Err(e),
    }
}

/// The record store. It owns the record lifecycle: create, load, mutate and
/// delete, with addresses assigned by derivation and every mutation gated on
/// the caller matching the record's authority.
pub struct RecordStore {
    deriver: AddressDeriver,
    entries: Vec<(Address, StoredRecord)>,
}

impl View for RecordStore {
    type V = Map<Seq<u8>, StoredV>;

    closed spec fn view(&self) -> Map<Seq<u8>, StoredV> {
        entries_map(self.entries@)
    }
}

impl RecordStore {
    pub closed spec fn wf(&self) -> bool {
        entries_wf(self.entries@) && self.deriver.wf()
    }

    /// The program id the store derives every address under: a process-wide
    /// configuration constant, set once at construction.
    pub closed spec fn program_id(&self) -> Seq<u8> {
        self.deriver@
    }

    /// An empty store for the given program id.
    pub fn new(program_id: Vec<u8>) -> (r: RecordStore)
        requires
            program_id@.len() == ID_LEN,
        ensures
            r.wf(),
            r@ == Map::<Seq<u8>, StoredV>::empty(),
            r.program_id() == program_id@,
    {
        let r = RecordStore { deriver: AddressDeriver::new(program_id), entries: Vec::new() };
        proof {
            assert(r@ =~= Map::<Seq<u8>, StoredV>::empty());
        }
        r
    }

    /// The address at which `owner`'s counter lives.
    pub fn counter_address(&self, owner: &Identifier) -> (r: Result<Address, StoreError>)
        requires
            self.wf(),
        ensures
            r matches Ok(a) ==> derive_spec(self.program_id(), counter_ns(), owner@, None) == Some(
                a@,
            ) && a.wf(),
            r matches Err(e) ==> e == StoreError::AddressSpaceExhausted && derive_spec(
                self.program_id(),
                counter_ns(),
                owner@,
                None,
            ) is None,
    {
        let ns = counter_namespace();
        self.deriver.derive(ns.as_slice(), owner, None)
    }

    /// The address at which `owner`'s registry entry for `key` lives.
    pub fn registry_address(&self, owner: &Identifier, key: &Vec<u8>) -> (r: Result<
        Address,
        StoreError,
    >)
        requires
            self.wf(),
        ensures
            r matches Ok(a) ==> derive_spec(self.program_id(), registry_ns(), owner@, Some(key@))
                == Some(a@) && a.wf(),
            r matches Err(e) ==> e == StoreError::AddressSpaceExhausted && derive_spec(
                self.program_id(),
                registry_ns(),
                owner@,
                Some(key@),
            ) is None,
    {
        let ns = registry_namespace();
        self.deriver.derive(ns.as_slice(), owner, Some(key))
    }

    /// The index of the entry at `address`, if one is there.
    fn find_index(&self, address: &Address) -> (r: Option<usize>)
        requires
            self.wf(),
        ensures
            match r {
                Some(i) => i < self.entries@.len() && self.entries@[i as int].0@ == address@
                    && self@.contains_key(address@) && self@[address@] == self.entries@[
                    i as int].1@,
                None => !self@.contains_key(address@),
            },
    {
        let n = self.entries.len();
        let mut i: usize = 0;
        while i < n
            invariant
                n == self.entries@.len(),
                i <= n,
                self.wf(),
                forall|j: int| 0 <= j < i ==> (#[trigger] self.entries@[j]).0@ != address@,
            decreases n - i,
        {
            if self.entries[i].0.eq_address(address) {
                proof {
                    lemma_map_index(self.entries@, i as int);
                }
                return Some(i);
            }
            i += 1;
        }
        proof {
            lemma_map_absent(self.entries@, address@);
        }
        None
    }

    /// Loads the counter at `address`, if one is there.
    pub fn load_counter(&self, address: &Address) -> (r: Option<Counter>)
        requires
            self.wf(),
        ensures
            match r {
                Some(c) => counter_at(self@, address@) == Some(c@),
                None => counter_at(self@, address@) is None,
            },
    {
        match self.find_index(address) {
            None => None,
            Some(i) => match &self.entries[i].1 {
                StoredRecord::Counter(c) => Some(c.dup()),
                StoredRecord::Registry(_) => None,
            },
        }
    }

    /// Loads the registry record at `address`, if one is there.
    pub fn load_registry(&self, address: &Address) -> (r: Option<Record>)
        requires
            self.wf(),
        ensures
            match r {
                Some(rec) => registry_at(self@, address@) == Some(rec@),
                None => registry_at(self@, address@) is None,
            },
    {
        match self.find_index(address) {
            None => None,
            Some(i) => match &self.entries[i].1 {
                StoredRecord::Counter(_) => None,
                StoredRecord::Registry(rec) => Some(rec.dup()),
            },
        }
    }

    /// The persisted form of the record at `address`, as the host stores it:
    /// the discriminator prefix, then the record's fields.
    pub fn export_record(&self, address: &Address) -> (r: Option<Vec<u8>>)
        requires
            self.wf(),
        ensures
            match r {
                Some(b) => self@.contains_key(address@) && b@ == encode_spec(self@[address@]),
                None => !self@.contains_key(address@),
            },
    {
        match self.find_index(address) {
            None => None,
            Some(i) => {
                proof {
                    assert(self.entries@[i as int].1.wf());
                }
                Some(encode_record(&self.entries[i].1))
            },
        }
    }

    /// Creates the caller's counter: authority is the caller, count starts
    /// at zero. Fails with `AlreadyExists` if a record already occupies the
    /// derived address, and with `AddressSpaceExhausted` if derivation finds
    /// no valid disambiguation byte. Failure leaves the store unchanged.
    pub fn initialize_counter(&mut self, caller: &Identifier) -> (r: Result<Counter, StoreError>)
        requires
            old(self).wf(),
            caller.wf(),
        ensures
            final(self).wf(),
            final(self).program_id() == old(self).program_id(),
            counter_result_view(r) == spec_initialize(
                old(self)@,
                old(self).program_id(),
                caller@,
            ).0,
            final(self)@ == spec_initialize(old(self)@, old(self).program_id(), caller@).1,
    {
        let address = match self.counter_address(caller) {
            Ok(a) => a,
            Err(e) => {
                return Err(e);
            },
        };
        match self.find_index(&address) {
            Some(_) => Err(StoreError::AlreadyExists),
            None => {
                let stored = Counter { authority: caller.dup(), count: 0 };
                let ret = stored.dup();
                proof {
                    assert forall|i: int| 0 <= i < self.entries@.len() implies (
                    #[trigger] self.entries@[i]).0@ != address@ by {
                        if self.entries@[i].0@ == address@ {
                            lemma_map_index(self.entries@, i);
                        }
                    }
                    lemma_append_fresh(
                        self.entries@,
                        (address, StoredRecord::Counter(stored)),
                    );
                }
                self.entries.push((address, StoredRecord::Counter(stored)));
                Ok(ret)
            },
        }
    }

    /// Adds `amount` to the counter at `address`. Fails with `NotFound` if
    /// no counter is there, `Unauthorized` if the caller is not its
    /// authority, and `Overflow` if the sum would leave the representable
    /// range. Failure leaves the store unchanged.
    pub fn increment(&mut self, address: &Address, caller: &Identifier, amount: i64) -> (r: Result<
        Counter,
        StoreError,
    >)
        requires
            old(self).wf(),
            caller.wf(),
        ensures
            final(self).wf(),
            final(self).program_id() == old(self).program_id(),
            counter_result_view(r) == spec_increment(old(self)@, address@, caller@, amount).0,
            final(self)@ == spec_increment(old(self)@, address@, caller@, amount).1,
    {
        let idx = match self.find_index(address) {
            Some(i) => i,
            None => {
                return Err(StoreError::NotFound);
            },
        };
        let current = match &self.entries[idx].1 {
            StoredRecord::Counter(c) => {
                match access::authorize(&c.authority, caller) {
                    Ok(_) => c.count,
                    Err(e) => {
                        return Err(e);
                    },
                }
            },
            StoredRecord::Registry(_) => {
                return Err(StoreError::NotFound);
            },
        };
        let updated = match arith::checked_add(current, amount) {
            Ok(v) => v,
            Err(e) => {
                return Err(e);
            },
        };
        let stored = Counter { authority: caller.dup(), count: updated };
        let ret = stored.dup();
        proof {
            lemma_replace(
                self.entries@,
                idx as int,
                (self.entries@[idx as int].0, StoredRecord::Counter(stored)),
            );
        }
        let (slot, _previous) = self.entries.remove(idx);
        self.entries.push((slot, StoredRecord::Counter(stored)));
        Ok(ret)
    }

    /// Subtracts `amount` from the counter at `address`; otherwise exactly
    /// as `increment`.
    pub fn decrement(&mut self, address: &Address, caller: &Identifier, amount: i64) -> (r: Result<
        Counter,
        StoreError,
    >)
        requires
            old(self).wf(),
            caller.wf(),
        ensures
            final(self).wf(),
            final(self).program_id() == old(self).program_id(),
            counter_result_view(r) == spec_decrement(old(self)@, address@, caller@, amount).0,
            final(self)@ == spec_decrement(old(self)@, address@, caller@, amount).1,
    {
        let idx = match self.find_index(address) {
            Some(i) => i,
            None => {
                return Err(StoreError::NotFound);
            },
        };
        let current = match &self.entries[idx].1 {
            StoredRecord::Counter(c) => {
                match access::authorize(&c.authority, caller) {
                    Ok(_) => c.count,
                    Err(e) => {
                        return Err(e);
                    },
                }
            },
            StoredRecord::Registry(_) => {
                return Err(StoreError::NotFound);
            },
        };
        let updated = match arith::checked_sub(current, amount) {
            Ok(v) => v,
            Err(e) => {
                return Err(e);
            },
        };
        let stored = Counter { authority: caller.dup(), count: updated };
        let ret = stored.dup();
        proof {
            lemma_replace(
                self.entries@,
                idx as int,
                (self.entries@[idx as int].0, StoredRecord::Counter(stored)),
            );
        }
        let (slot, _previous) = self.entries.remove(idx);
        self.entries.push((slot, StoredRecord::Counter(stored)));
        Ok(ret)
    }

    /// Creates or overwrites the caller's registry entry for `key`. Checks
    /// the payload bounds first; creation sets the authority to the caller,
    /// an overwrite keeps the stored authority and requires the caller to
    /// match it. Failure leaves the store unchanged.
    pub fn upsert(&mut self, caller: &Identifier, key: Vec<u8>, value: Vec<u8>) -> (r: Result<
        Record,
        StoreError,
    >)
        requires
            old(self).wf(),
            caller.wf(),
        ensures
            final(self).wf(),
            final(self).program_id() == old(self).program_id(),
            record_result_view(r) == spec_upsert(
                old(self)@,
                old(self).program_id(),
                caller@,
                key@,
                value@,
            ).0,
            final(self)@ == spec_upsert(
                old(self)@,
                old(self).program_id(),
                caller@,
                key@,
                value@,
            ).1,
    {
        if key.len() > MAX_KEY {
            return Err(StoreError::KeyTooLarge);
        }
        if value.len() > MAX_VALUE {
            return Err(StoreError::ValueTooLarge);
        }
        let address = match self.registry_address(caller, &key) {
            Ok(a) => a,
            Err(e) => {
                return Err(e);
            },
        };
        match self.find_index(&address) {
            Some(idx) => {
                let authority = match &self.entries[idx].1 {
                    StoredRecord::Counter(_) => {
                        return Err(StoreError::NotFound);
                    },
                    StoredRecord::Registry(prev) => {
                        match access::authorize(&prev.authority, caller) {
                            Ok(_) => prev.authority.dup(),
                            Err(e) => {
                                return Err(e);
                            },
                        }
                    },
                };
                let stored = Record { authority, key, value };
                let ret = stored.dup();
                proof {
                    lemma_replace(
                        self.entries@,
                        idx as int,
                        (self.entries@[idx as int].0, StoredRecord::Registry(stored)),
                    );
                }
                let (slot, _previous) = self.entries.remove(idx);
                self.entries.push((slot, StoredRecord::Registry(stored)));
                Ok(ret)
            },
            None => {
                let stored = Record { authority: caller.dup(), key, value };
                let ret = stored.dup();
                proof {
                    assert forall|i: int| 0 <= i < self.entries@.len() implies (
                    #[trigger] self.entries@[i]).0@ != address@ by {
                        if self.entries@[i].0@ == address@ {
                            lemma_map_index(self.entries@, i);
                        }
                    }
                    lemma_append_fresh(
                        self.entries@,
                        (address, StoredRecord::Registry(stored)),
                    );
                }
                self.entries.push((address, StoredRecord::Registry(stored)));
                Ok(ret)
            },
        }
    }

    /// Deletes the registry record at `address` and reclaims its storage.
    /// Fails with `NotFound` if no registry record is there and
    /// `Unauthorized` if the caller is not its authority. Failure leaves the
    /// store unchanged.
    pub fn remove(&mut self, address: &Address, caller: &Identifier) -> (r: Result<
        (),
        StoreError,
    >)
        requires
            old(self).wf(),
            caller.wf(),
        ensures
            final(self).wf(),
            final(self).program_id() == old(self).program_id(),
            r == spec_remove(old(self)@, address@, caller@).0,
            final(self)@ == spec_remove(old(self)@, address@, caller@).1,
    {
        let idx = match self.find_index(address) {
            Some(i) => i,
            None => {
                return Err(StoreError::NotFound);
            },
        };
        match &self.entries[idx].1 {
            StoredRecord::Counter(_) => {
                return Err(StoreError::NotFound);
            },
            StoredRecord::Registry(prev) => {
                match access::authorize(&prev.authority, caller) {
                    Ok(_) => {},
                    Err(e) => {
                        return Err(e);
                    },
                }
            },
        }
        proof {
            lemma_delete(self.entries@, idx as int);
        }
        let _ = self.entries.remove(idx);
        Ok(())
    }
}

} // verus!
