//! The error taxonomy shared by every operation of the store.

use vstd::prelude::*;

verus! {

/// Why an operation on the store failed.
///
/// Every failure aborts the operation with zero partial effect: no record is
/// ever left partially mutated.
#[derive(Clone, Copy, Debug, PartialEq, Eq, Structural)]
pub enum StoreError {
    /// The operation targets a record that does not exist (or is of the
    /// wrong record type), where existence is required.
    NotFound,
    /// Creation targets an address that is already occupied.
    AlreadyExists,
    /// The caller identity does not match the record's stored authority.
    Unauthorized,
    /// Checked signed arithmetic would wrap.
    Overflow,
    /// A registry key exceeds the permitted length.
    KeyTooLarge,
    /// A registry value exceeds the permitted length.
    ValueTooLarge,
    /// Address derivation found no valid disambiguation value in the
    /// permitted search range.
    AddressSpaceExhausted,
}

} // verus!
