//! An authority-gated record store with deterministically derived addresses.
//!
//! Records (a counter, or a key/value registry entry) live at addresses
//! computed by a collision-resistant derivation from a namespace tag, an
//! owner identifier and an optional logical key. Every mutation is gated on
//! the caller matching the record's stored authority, and counter arithmetic
//! is checked: it fails instead of wrapping.

pub mod access;
pub mod arith;
pub mod codec;
pub mod derivation;
pub mod errors;
pub mod ident;
pub mod laws;
pub mod records;
pub mod store;
