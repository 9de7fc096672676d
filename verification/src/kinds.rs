//! Field kinds: the fixed-width value categories of the record schema.
//!
//! A kind crosses the boundary as a small integer code; the code fixes both
//! the encoding width of the field and the bit-reinterpretation rule the
//! guest applies to the 64-bit container the host returns.

use vstd::prelude::*;

verus! {

/// The kind of a record field, as declared by the host's schema.
#[derive(Clone, Copy, Debug, PartialEq, Eq, Structural)]
pub enum FieldKind {
    /// The sentinel kind: no handling is defined for it.
    Invalid,
    Bool,
    Int8,
    Int16,
    Int32,
    Int64,
    Uint8,
    Uint16,
    Uint32,
    Uint64,
    /// A 32-bit float; transferred as its bit pattern, never cast.
    Float32,
    /// A 64-bit float; transferred as its bit pattern, never cast.
    Float64,
    /// A variable-length text field; served by the buffer accessor.
    String,
    /// A null-terminated text field; not handled by this library.
    CString,
    /// A variable-length byte field; served by the buffer accessor.
    Bytes,
}

/// The integer code under which a kind crosses the boundary.
pub open spec fn spec_kind_code(kind: FieldKind) -> u32 {
    match kind {
        FieldKind::Invalid => 0,
        FieldKind::Bool => 1,
        FieldKind::Int8 => 2,
        FieldKind::Int16 => 3,
        FieldKind::Int32 => 4,
        FieldKind::Int64 => 5,
        FieldKind::Uint8 => 6,
        FieldKind::Uint16 => 7,
        FieldKind::Uint32 => 8,
        FieldKind::Uint64 => 9,
        FieldKind::Float32 => 10,
        FieldKind::Float64 => 11,
        FieldKind::String => 12,
        FieldKind::CString => 13,
        FieldKind::Bytes => 14,
    }
}

/// Encodes a kind as its boundary code.
pub fn kind_code(kind: FieldKind) -> (code: u32)
    ensures
        code == spec_kind_code(kind),
{
    match kind {
        FieldKind::Invalid => 0,
        FieldKind::Bool => 1,
        FieldKind::Int8 => 2,
        FieldKind::Int16 => 3,
        FieldKind::Int32 => 4,
        FieldKind::Int64 => 5,
        FieldKind::Uint8 => 6,
        FieldKind::Uint16 => 7,
        FieldKind::Uint32 => 8,
        FieldKind::Uint64 => 9,
        FieldKind::Float32 => 10,
        FieldKind::Float64 => 11,
        FieldKind::String => 12,
        FieldKind::CString => 13,
        FieldKind::Bytes => 14,
    }
}

/// Whether a kind is served by the scalar accessor: a fixed-width value
/// that fits the 64-bit transfer word.
pub open spec fn spec_is_scalar_kind(kind: FieldKind) -> bool {
    match kind {
        FieldKind::Bool => true,
        FieldKind::Int8 => true,
        FieldKind::Int16 => true,
        FieldKind::Int32 => true,
        FieldKind::Int64 => true,
        FieldKind::Uint8 => true,
        FieldKind::Uint16 => true,
        FieldKind::Uint32 => true,
        FieldKind::Uint64 => true,
        FieldKind::Float32 => true,
        FieldKind::Float64 => true,
        _ => false,
    }
}

/// Tests whether a kind is served by the scalar accessor.
pub fn is_scalar_kind(kind: FieldKind) -> (r: bool)
    ensures
        r == spec_is_scalar_kind(kind),
{
    match kind {
        FieldKind::Bool => true,
        FieldKind::Int8 => true,
        FieldKind::Int16 => true,
        FieldKind::Int32 => true,
        FieldKind::Int64 => true,
        FieldKind::Uint8 => true,
        FieldKind::Uint16 => true,
        FieldKind::Uint32 => true,
        FieldKind::Uint64 => true,
        FieldKind::Float32 => true,
        FieldKind::Float64 => true,
        _ => false,
    }
}

} // verus!
