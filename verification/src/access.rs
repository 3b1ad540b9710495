//! Access control: a pure equality check between the record's stored
//! authority and the caller's verified identity.

use vstd::prelude::*;

use crate::errors::StoreError;
use crate::ident::Identifier;

verus! {

/// Accepts the caller exactly when it is the record's authority.
pub fn authorize(authority: &Identifier, caller: &Identifier) -> (r: Result<(), StoreError>)
    ensures
        r is Ok <==> authority@ == caller@,
        r is Err ==> r == Err::<(), StoreError>(StoreError::Unauthorized),
{
    if authority.eq_bytes(caller) {
        Ok(())
    } else {
        Err(StoreError::Unauthorized)
    }
}

} // verus!
