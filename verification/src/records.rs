//! The two record types the store persists, and their mathematical views.

use vstd::prelude::*;

use crate::ident::Identifier;

verus! {

/// Upper length of a registry key, in bytes.
pub const MAX_KEY: usize = 64;

/// Upper length of a registry value, in bytes.
pub const MAX_VALUE: usize = 256;

/// Mathematical view of a counter record.
pub struct CounterV {
    pub authority: Seq<u8>,
    pub count: i64,
}

/// Mathematical view of a registry record.
pub struct RegistryV {
    pub authority: Seq<u8>,
    pub key: Seq<u8>,
    pub value: Seq<u8>,
}

/// Mathematical view of whatever record occupies an address.
pub enum StoredV {
    Counter(CounterV),
    Registry(RegistryV),
}

/// A counter owned by its authority. The count is mutated only through
/// checked arithmetic, and only by the authority.
pub struct Counter {
    pub authority: Identifier,
    pub count: i64,
}

impl View for Counter {
    type V = CounterV;

    open spec fn view(&self) -> CounterV {
        CounterV { authority: self.authority@, count: self.count }
    }
}

impl Counter {
    pub open spec fn wf(&self) -> bool {
        self.authority.wf()
    }

    pub fn dup(&self) -> (r: Counter)
        ensures
            r@ == self@,
    {
        Counter { authority: self.authority.dup(), count: self.count }
    }
}

/// A registry entry: a bounded key/value pair owned by its authority.
pub struct Record {
    pub authority: Identifier,
    pub key: Vec<u8>,
    pub value: Vec<u8>,
}

impl View for Record {
    type V = RegistryV;

    open spec fn view(&self) -> RegistryV {
        RegistryV { authority: self.authority@, key: self.key@, value: self.value@ }
    }
}

impl Record {
    pub open spec fn wf(&self) -> bool {
        self.authority.wf() && self.key@.len() <= MAX_KEY && self.value@.len() <= MAX_VALUE
    }

    pub fn dup(&self) -> (r: Record)
        ensures
            r@ == self@,
    {
        Record {
            authority: self.authority.dup(),
            key: vstd::slice::slice_to_vec(self.key.as_slice()),
            value: vstd::slice::slice_to_vec(self.value.as_slice()),
        }
    }
}

/// Whatever record occupies an address, behind its type discriminator.
pub enum StoredRecord {
    Counter(Counter),
    Registry(Record),
}

impl View for StoredRecord {
    type V = StoredV;

    open spec fn view(&self) -> StoredV {
        match self {
            StoredRecord::Counter(c) => StoredV::Counter(c@),
            StoredRecord::Registry(r) => StoredV::Registry(r@),
        }
    }
}

impl StoredRecord {
    pub open spec fn wf(&self) -> bool {
        match self {
            StoredRecord::Counter(c) => c.wf(),
            StoredRecord::Registry(r) => r.wf(),
        }
    }
}

/// Well-formedness of a record view: the bounds every stored record obeys.
pub open spec fn stored_v_wf(v: StoredV) -> bool {
    match v {
        StoredV::Counter(c) => c.authority.len() == crate::ident::ID_LEN,
        StoredV::Registry(r) => r.authority.len() == crate::ident::ID_LEN && r.key.len() <= MAX_KEY
            && r.value.len() <= MAX_VALUE,
    }
}

} // verus!
