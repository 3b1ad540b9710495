//! Deterministic address derivation from a namespace tag, an owner
//! identifier and an optional logical key.
//!
//! The derivation feeds a canonical seed sequence (the namespace, the owner,
//! and the key split into seed-sized pieces) through the host's
//! collision-resistant program-address derivation, which also picks a
//! disambiguation byte ("bump") so that the resulting address falls outside
//! the directly-addressable space.

use vstd::prelude::*;

use vstd::slice::{slice_subrange, slice_to_vec};

use crate::errors::StoreError;
use crate::ident::{Address, Identifier, ID_LEN};

verus! {

/// Upper length of a single seed that the host derivation accepts.
pub const MAX_SEED_LEN: usize = 32;

/// The sequence of byte strings a vector of byte vectors holds.
pub open spec fn seeds_view(s: Seq<Vec<u8>>) -> Seq<Seq<u8>> {
    s.map_values(|v: Vec<u8>| v@)
}

/// What `Pubkey::try_find_program_address` returns for the given seeds and
/// program id. The search is a pure function of its arguments (a chain of
/// SHA-256 digests, probed over a bounded range of disambiguation bytes), so
/// its result carries a name here rather than a transcription.
pub uninterp spec fn pda_of(seeds: Seq<Seq<u8>>, program_id: Seq<u8>) -> Option<(Seq<u8>, u8)>;

/// Relies on anchor_lang's `Pubkey::try_find_program_address`: from the seeds
/// and the program id it deterministically searches for an address outside
/// the directly-addressable space, returning it with the disambiguation byte
/// that produced it, or `None` when the bounded search finds no such address
/// (also when a seed is over the permitted length, or there are too many).
/// The returned address is a `Pubkey`, which is 32 bytes.
#[verifier::external_body]
fn find_program_address(seeds: &Vec<Vec<u8>>, program_id: &[u8]) -> (r: Option<(Vec<u8>, u8)>)
    requires
        program_id@.len() == ID_LEN,
    ensures
        match r {
            Some(p) => pda_of(seeds_view(seeds@), program_id@) == Some((p.0@, p.1)) && p.0@.len()
                == ID_LEN,
            None => pda_of(seeds_view(seeds@), program_id@) is None,
        },
{
    let mut pid = [0u8; 32];
    pid.copy_from_slice(program_id);
    let refs: Vec<&[u8]> = seeds.iter().map(|s| s.as_slice()).collect();
    let pk = anchor_lang::prelude::Pubkey::new_from_array(pid);
    anchor_lang::prelude::Pubkey::try_find_program_address(&refs, &pk)
        .map(|(a, bump)| (a.to_bytes().to_vec(), bump))
}

/// A byte string split into seed-sized pieces, in order.
pub open spec fn chunks(b: Seq<u8>) -> Seq<Seq<u8>>
    decreases b.len(),
{
    if b.len() == 0 {
        Seq::empty()
    } else if b.len() <= MAX_SEED_LEN {
        seq![b]
    } else {
        seq![b.take(MAX_SEED_LEN as int)] + chunks(b.skip(MAX_SEED_LEN as int))
    }
}

/// Splits `bytes[from..]` into seed-sized pieces.
fn chunk_bytes(bytes: &[u8], from: usize) -> (r: Vec<Vec<u8>>)
    requires
        from <= bytes@.len(),
    ensures
        seeds_view(r@) == chunks(bytes@.skip(from as int)),
    decreases bytes@.len() - from,
{
    let len = bytes.len();
    if from == len {
        let r: Vec<Vec<u8>> = Vec::new();
        proof {
            assert(seeds_view(r@) =~= chunks(bytes@.skip(from as int)));
        }
        r
    } else if len - from <= MAX_SEED_LEN {
        let piece = slice_to_vec(slice_subrange(bytes, from, len));
        let mut r: Vec<Vec<u8>> = Vec::new();
        r.push(piece);
        proof {
            assert(bytes@.subrange(from as int, len as int) =~= bytes@.skip(from as int));
            assert(seeds_view(r@) =~= chunks(bytes@.skip(from as int)));
        }
        r
    } else {
        let piece = slice_to_vec(slice_subrange(bytes, from, from + MAX_SEED_LEN));
        let mut r = chunk_bytes(bytes, from + MAX_SEED_LEN);
        r.insert(0, piece);
        proof {
            let tail = bytes@.skip(from as int);
            assert(tail.take(MAX_SEED_LEN as int) =~= bytes@.subrange(
                from as int,
                from + MAX_SEED_LEN,
            ));
            assert(tail.skip(MAX_SEED_LEN as int) =~= bytes@.skip(from + MAX_SEED_LEN));
            assert(seeds_view(r@) =~= chunks(bytes@.skip(from as int)));
        }
        r
    }
}

/// The canonical seed sequence for a derivation: the namespace, the owner,
/// then the logical key, long pieces split to the seed-size limit.
pub open spec fn derive_seeds(ns: Seq<u8>, owner: Seq<u8>, key: Option<Seq<u8>>) -> Seq<Seq<u8>> {
    chunks(ns) + seq![owner] + match key {
        Some(k) => chunks(k),
        None => Seq::empty(),
    }
}

/// The address the deriver yields for these inputs, or `None` when the
/// host derivation finds no valid disambiguation byte.
pub open spec fn derive_spec(
    pid: Seq<u8>,
    ns: Seq<u8>,
    owner: Seq<u8>,
    key: Option<Seq<u8>>,
) -> Option<Seq<u8>> {
    match pda_of(derive_seeds(ns, owner, key), pid) {
        Some(p) => Some(p.0),
        None => None,
    }
}

/// The byte string an optional key argument denotes.
pub open spec fn opt_key_view(key: Option<&Vec<u8>>) -> Option<Seq<u8>> {
    match key {
        Some(k) => Some(k@),
        None => None,
    }
}

/// Computes storage addresses for a fixed program id (the process-wide
/// configuration constant, set once at construction).
pub struct AddressDeriver {
    program_id: Vec<u8>,
}

impl View for AddressDeriver {
    type V = Seq<u8>;

    closed spec fn view(&self) -> Seq<u8> {
        self.program_id@
    }
}

impl AddressDeriver {
    pub open spec fn wf(&self) -> bool {
        self@.len() == ID_LEN
    }

    pub fn new(program_id: Vec<u8>) -> (r: AddressDeriver)
        requires
            program_id@.len() == ID_LEN,
        ensures
            r@ == program_id@,
            r.wf(),
    {
        AddressDeriver { program_id }
    }

    /// Derives the storage address for `(namespace, owner, key)`: a pure
    /// function of its arguments, so repeated calls with identical arguments
    /// return the identical address. Fails with `AddressSpaceExhausted`
    /// exactly when the bounded search for a disambiguation byte finds none.
    pub fn derive(&self, namespace: &[u8], owner: &Identifier, key: Option<&Vec<u8>>) -> (r:
        Result<Address, StoreError>)
        requires
            self.wf(),
        ensures
            r matches Ok(a) ==> derive_spec(self@, namespace@, owner@, opt_key_view(key)) == Some(
                a@,
            ) && a.wf(),
            r matches Err(e) ==> e == StoreError::AddressSpaceExhausted && derive_spec(
                self@,
                namespace@,
                owner@,
                opt_key_view(key),
            ) is None,
    {
        let mut seeds = chunk_bytes(namespace, 0);
        seeds.push(slice_to_vec(owner.as_bytes()));
        match key {
            Some(k) => {
                let mut key_pieces = chunk_bytes(k.as_slice(), 0);
                seeds.append(&mut key_pieces);
            },
            None => {},
        }
        proof {
            assert(namespace@.skip(0) =~= namespace@);
            match key {
                Some(k) => {
                    assert(k@.skip(0) =~= k@);
                },
                None => {},
            }
            assert(seeds_view(seeds@) =~= derive_seeds(namespace@, owner@, opt_key_view(key)));
        }
        match find_program_address(&seeds, self.program_id.as_slice()) {
            Some(pair) => Ok(Address::from_vec(pair.0)),
            None => Err(StoreError::AddressSpaceExhausted),
        }
    }
}

} // verus!
