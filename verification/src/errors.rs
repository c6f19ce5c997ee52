//! The failure taxonomy shared by every store operation.

use vstd::prelude::*;

verus! {

/// Why a store operation failed.
///
/// `NotFound`, `DuplicateKey`, `ForeignKeyViolation` and `TypeMismatch` are
/// produced by the verified store itself.  `ConnectionError` and
/// `BackendError` are reserved for callers that drive a relational backend
/// and need to report checkout or engine failures through the same type.
#[derive(Clone, Copy, Debug, PartialEq, Eq, Structural)]
pub enum StoreError {
    /// The target row of a query or update does not exist.
    NotFound,
    /// An insert collided with an existing primary key.
    DuplicateKey,
    /// A role reference was inserted for a GUID with no canonical voucher.
    ForeignKeyViolation,
    /// A metadata value's type does not match the key's declared type.
    TypeMismatch,
    /// The connection pool was exhausted or the backend is unreachable.
    ConnectionError,
    /// An unclassified failure reported by the underlying engine.
    BackendError,
}

impl StoreError {
    /// A short human-readable name for the error.
    pub fn describe(&self) -> &'static str {
        match self {
            StoreError::NotFound => "not found",
            StoreError::DuplicateKey => "duplicate key",
            StoreError::ForeignKeyViolation => "foreign key violation",
            StoreError::TypeMismatch => "type mismatch",
            StoreError::ConnectionError => "connection error",
            StoreError::BackendError => "backend error",
        }
    }
}

} // verus!
