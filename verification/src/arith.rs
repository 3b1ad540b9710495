//! Checked signed 64-bit arithmetic: fails instead of wrapping.

use vstd::prelude::*;

use crate::errors::StoreError;

verus! {

/// Adds two signed 64-bit integers, failing with `Overflow` exactly when the
/// mathematical sum falls outside the representable range.
pub fn checked_add(a: i64, b: i64) -> (r: Result<i64, StoreError>)
    ensures
        i64::MIN <= a + b <= i64::MAX ==> r == Ok::<i64, StoreError>((a + b) as i64),
        !(i64::MIN <= a + b <= i64::MAX) ==> r == Err::<i64, StoreError>(StoreError::Overflow),
{
    match a.checked_add(b) {
        Some(s) => Ok(s),
        None => Err(StoreError::Overflow),
    }
}

/// Subtracts `b` from `a`, failing with `Overflow` exactly when the
/// mathematical difference falls outside the representable range.
pub fn checked_sub(a: i64, b: i64) -> (r: Result<i64, StoreError>)
    ensures
        i64::MIN <= a - b <= i64::MAX ==> r == Ok::<i64, StoreError>((a - b) as i64),
        !(i64::MIN <= a - b <= i64::MAX) ==> r == Err::<i64, StoreError>(StoreError::Overflow),
{
    match a.checked_sub(b) {
        Some(s) => Ok(s),
        None => Err(StoreError::Overflow),
    }
}

} // verus!
