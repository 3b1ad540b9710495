//! The persisted byte layout of records.
//!
//! Every persisted record starts with a fixed discriminator byte identifying
//! its type, which the store consumes before interpreting the rest. A counter
//! is the authority followed by the count as eight little-endian bytes; a
//! registry record is the authority followed by the length-prefixed key and
//! the length-prefixed value.

use vstd::prelude::*;

use vstd::bytes::{lemma_auto_spec_u32_to_from_le_bytes, lemma_auto_spec_u64_to_from_le_bytes,
    spec_u32_from_le_bytes, spec_u32_to_le_bytes, spec_u64_from_le_bytes, spec_u64_to_le_bytes,
    u32_from_le_bytes, u32_to_le_bytes, u64_from_le_bytes, u64_to_le_bytes};
use vstd::slice::{slice_subrange, slice_to_vec};

use crate::ident::Identifier;
use crate::records::{stored_v_wf, Counter, CounterV, Record, RegistryV, StoredRecord, StoredV,
    MAX_KEY, MAX_VALUE};

verus! {

/// Discriminator byte of a persisted counter record.
pub const COUNTER_TAG: u8 = 1;

/// Discriminator byte of a persisted registry record.
pub const REGISTRY_TAG: u8 = 2;

/// The bytes a counter record persists to.
pub open spec fn encode_counter_v(c: CounterV) -> Seq<u8> {
    seq![COUNTER_TAG] + c.authority + spec_u64_to_le_bytes(c.count as u64)
}

/// The bytes a registry record persists to.
pub open spec fn encode_registry_v(r: RegistryV) -> Seq<u8> {
    seq![REGISTRY_TAG] + r.authority + spec_u32_to_le_bytes(r.key.len() as u32) + r.key
        + spec_u32_to_le_bytes(r.value.len() as u32) + r.value
}

/// The bytes a record persists to.
pub open spec fn encode_spec(v: StoredV) -> Seq<u8> {
    match v {
        StoredV::Counter(c) => encode_counter_v(c),
        StoredV::Registry(r) => encode_registry_v(r),
    }
}

/// The record a byte string decodes to, or `None` when the bytes are not the
/// exact persisted form of a well-formed record.
pub open spec fn decode_spec(b: Seq<u8>) -> Option<StoredV> {
    if b.len() < 1 {
        None
    } else if b[0] == COUNTER_TAG {
        if b.len() == 41 {
            Some(
                StoredV::Counter(
                    CounterV {
                        authority: b.subrange(1, 33),
                        count: spec_u64_from_le_bytes(b.subrange(33, 41)) as i64,
                    },
                ),
            )
        } else {
            None
        }
    } else if b[0] == REGISTRY_TAG {
        if b.len() < 37 {
            None
        } else {
            let klen = spec_u32_from_le_bytes(b.subrange(33, 37)) as int;
            if klen > MAX_KEY || b.len() < 41 + klen {
                None
            } else {
                let vlen = spec_u32_from_le_bytes(b.subrange(37 + klen, 41 + klen)) as int;
                if vlen > MAX_VALUE || b.len() != 41 + klen + vlen {
                    None
                } else {
                    Some(
                        StoredV::Registry(
                            RegistryV {
                                authority: b.subrange(1, 33),
                                key: b.subrange(37, 37 + klen),
                                value: b.subrange(41 + klen, 41 + klen + vlen),
                            },
                        ),
                    )
                }
            }
        }
    } else {
        None
    }
}

/// Encodes a record into its persisted form.
pub fn encode_record(rec: &StoredRecord) -> (out: Vec<u8>)
    requires
        rec.wf(),
    ensures
        out@ == encode_spec(rec@),
{
    match rec {
        StoredRecord::Counter(c) => {
            let mut out: Vec<u8> = Vec::new();
            out.push(COUNTER_TAG);
            out.extend_from_slice(c.authority.as_bytes());
            let mut tail = u64_to_le_bytes(c.count as u64);
            out.append(&mut tail);
            proof {
                assert(out@ =~= encode_spec(rec@));
            }
            out
        },
        StoredRecord::Registry(r) => {
            let mut out: Vec<u8> = Vec::new();
            out.push(REGISTRY_TAG);
            out.extend_from_slice(r.authority.as_bytes());
            let mut klen = u32_to_le_bytes(r.key.len() as u32);
            out.append(&mut klen);
            out.extend_from_slice(r.key.as_slice());
            let mut vlen = u32_to_le_bytes(r.value.len() as u32);
            out.append(&mut vlen);
            out.extend_from_slice(r.value.as_slice());
            proof {
                assert(out@ =~= encode_spec(rec@));
            }
            out
        },
    }
}

/// Decodes a persisted record, consuming the discriminator prefix before
/// interpreting the remaining bytes. Returns `None` exactly when the bytes
/// are not the persisted form of a well-formed record.
pub fn decode_record(bytes: &[u8]) -> (r: Option<StoredRecord>)
    ensures
        match r {
            Some(rec) => decode_spec(bytes@) == Some(rec@) && rec.wf(),
            None => decode_spec(bytes@) is None,
        },
{
    if bytes.len() < 1 {
        return None;
    }
    let tag = bytes[0];
    if tag == COUNTER_TAG {
        if bytes.len() != 41 {
            return None;
        }
        let authority = Identifier::new(slice_to_vec(slice_subrange(bytes, 1, 33)));
        let count = u64_from_le_bytes(slice_subrange(bytes, 33, 41)) as i64;
        Some(StoredRecord::Counter(Counter { authority, count }))
    } else if tag == REGISTRY_TAG {
        if bytes.len() < 37 {
            return None;
        }
        let klen = u32_from_le_bytes(slice_subrange(bytes, 33, 37)) as usize;
        if klen > MAX_KEY {
            return None;
        }
        if bytes.len() < 41 + klen {
            return None;
        }
        let authority = Identifier::new(slice_to_vec(slice_subrange(bytes, 1, 33)));
        let key = slice_to_vec(slice_subrange(bytes, 37, 37 + klen));
        let vlen = u32_from_le_bytes(slice_subrange(bytes, 37 + klen, 41 + klen)) as usize;
        if vlen > MAX_VALUE {
            return None;
        }
        if bytes.len() != 41 + klen + vlen {
            return None;
        }
        let value = slice_to_vec(slice_subrange(bytes, 41 + klen, 41 + klen + vlen));
        Some(StoredRecord::Registry(Record { authority, key, value }))
    } else {
        None
    }
}

/// Decoding the persisted form of a well-formed record gives the record
/// back: persisting loses nothing.
pub proof fn lemma_codec_round_trip(v: StoredV)
    requires
        stored_v_wf(v),
    ensures
        decode_spec(encode_spec(v)) == Some(v),
{
    match v {
        StoredV::Counter(c) => {
            let b = encode_spec(v);
            lemma_auto_spec_u64_to_from_le_bytes();
            assert(b.subrange(1, 33) =~= c.authority);
            assert(b.subrange(33, 41) =~= spec_u64_to_le_bytes(c.count as u64));
            let n = c.count;
            assert(((n as u64) as i64) == n) by (bit_vector);
        },
        StoredV::Registry(r) => {
            let b = encode_spec(v);
            lemma_auto_spec_u32_to_from_le_bytes();
            let klen = r.key.len() as int;
            let vlen = r.value.len() as int;
            assert(b.subrange(1, 33) =~= r.authority);
            assert(b.subrange(33, 37) =~= spec_u32_to_le_bytes(r.key.len() as u32));
            assert(b.subrange(37, 37 + klen) =~= r.key);
            assert(b.subrange(37 + klen, 41 + klen) =~= spec_u32_to_le_bytes(
                r.value.len() as u32,
            ));
            assert(b.subrange(41 + klen, 41 + klen + vlen) =~= r.value);
        },
    }
}

} // verus!
