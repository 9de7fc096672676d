//! The error taxonomy shared by every fallible operation of the library.
//!
//! The isolation boundary has no exception mechanism: the host signals
//! failure through status words, and this library turns each one into a
//! value of [`ApiError`].  Errors are always returned, never thrown; the
//! library performs no retries and no local recovery.

use vstd::prelude::*;

verus! {

/// Why an operation against the host was rejected.
///
/// The host reports only success or failure for most calls, so a variant
/// names the operation class that failed rather than a host-side cause.
#[derive(Clone, Copy, Debug, PartialEq, Eq, Structural)]
pub enum ApiError {
    /// A named resource or lookup subject is absent.
    NotFound,
    /// Construction of a resource was rejected by the host.
    Creation,
    /// A scalar or buffer field get/set was rejected by the host.
    FieldAccess,
    /// A map put/lookup/update/delete was rejected; the host does not
    /// distinguish the cause further.
    MapOperation,
    /// A destination buffer was too small or a host-side read failed.
    BufferAccess,
    /// The caller supplied a value whose tag does not match the declared
    /// field kind; detected before any boundary call.
    TypeMismatch,
    /// The field kind has no scalar handling defined.
    UnsupportedKind,
    /// The operation was attempted in a disallowed state, such as reading
    /// an active event reader.
    InvalidState,
}

impl ApiError {
    /// A short description of the error, for callers that report it.
    pub fn message(&self) -> (r: &'static str)
        ensures
            r@.len() > 0,
    {
        proof {
            reveal_strlit("resource not found");
            reveal_strlit("resource creation rejected");
            reveal_strlit("field access rejected");
            reveal_strlit("map operation rejected");
            reveal_strlit("buffer access failed");
            reveal_strlit("value does not match field kind");
            reveal_strlit("field kind not supported here");
            reveal_strlit("operation not valid in this state");
        }
        match self {
            ApiError::NotFound => "resource not found",
            ApiError::Creation => "resource creation rejected",
            ApiError::FieldAccess => "field access rejected",
            ApiError::MapOperation => "map operation rejected",
            ApiError::BufferAccess => "buffer access failed",
            ApiError::TypeMismatch => "value does not match field kind",
            ApiError::UnsupportedKind => "field kind not supported here",
            ApiError::InvalidState => "operation not valid in this state",
        }
    }
}

} // verus!
