//! The library's failure taxonomy.

use vstd::prelude::*;

verus! {

/// The failure taxonomy of the store and its codecs.
///
/// - `Validation`: a required field (a name, an owning plant id) was missing or empty.
/// - `NotFound`: an operation referenced an identity that no row carries.
/// - `Unavailable`: the storage engine or its lock failed; the engine's own
///   message is carried along. Fatal to the operation, not to the process.
/// - `Migration`: a forward schema transformation failed mid-batch; fatal at
///   startup, the store is left at the prior recorded version.
/// - `Domain`: a month or slot index outside its range.
/// - `Decode`: a malformed base64 photo payload on input.
#[derive(Debug, Clone, PartialEq, Eq)]
pub enum StoreError {
    Validation,
    NotFound,
    Unavailable(String),
    Migration(String),
    Domain,
    Decode(String),
}

impl StoreError {
    /// A human-readable description of the failure.
    pub fn message(&self) -> String {
        match self {
            StoreError::Validation => String::from_str("a required field is missing or empty"),
            StoreError::NotFound => String::from_str("no row with the given id exists"),
            StoreError::Unavailable(s) => String::from_str("store unavailable: ").concat(
                s.as_str(),
            ),
            StoreError::Migration(s) => String::from_str("migration failed: ").concat(s.as_str()),
            StoreError::Domain => String::from_str("month or slot index out of range"),
            StoreError::Decode(s) => String::from_str("invalid base64 payload: ").concat(
                s.as_str(),
            ),
        }
    }
}

} // verus!
