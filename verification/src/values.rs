//! Typed scalar values and their 64-bit wire representation.
//!
//! The host returns a 64-bit container for a scalar of any width; the tag
//! of [`FieldKindData`] drives both the encoding width and the
//! bit-reinterpretation rule.  Floating-point fields are carried as their
//! IEEE bit patterns: the guest logic never interprets them numerically,
//! so the two float variants hold the raw bits.

use vstd::prelude::*;
use crate::kinds::FieldKind;

verus! {

/// A tagged scalar value of a record field.
///
/// The float variants hold bit patterns (`f32::to_bits` / `f64::to_bits`
/// form): a float is only ever reinterpreted across the boundary, never
/// numerically cast, and the guest-side rules never do float arithmetic.
#[derive(Clone, Copy, Debug, PartialEq, Eq, Structural)]
pub enum FieldKindData {
    Bool(bool),
    /// The bit pattern of a 32-bit IEEE float.
    Float32(u32),
    /// The bit pattern of a 64-bit IEEE float.
    Float64(u64),
    Int8(i8),
    Int16(i16),
    Int32(i32),
    Int64(i64),
    Uint8(u8),
    Uint16(u16),
    Uint32(u32),
    Uint64(u64),
}

/// The kind that a tagged value belongs to.
pub open spec fn spec_kind_of(value: FieldKindData) -> FieldKind {
    match value {
        FieldKindData::Bool(_) => FieldKind::Bool,
        FieldKindData::Float32(_) => FieldKind::Float32,
        FieldKindData::Float64(_) => FieldKind::Float64,
        FieldKindData::Int8(_) => FieldKind::Int8,
        FieldKindData::Int16(_) => FieldKind::Int16,
        FieldKindData::Int32(_) => FieldKind::Int32,
        FieldKindData::Int64(_) => FieldKind::Int64,
        FieldKindData::Uint8(_) => FieldKind::Uint8,
        FieldKindData::Uint16(_) => FieldKind::Uint16,
        FieldKindData::Uint32(_) => FieldKind::Uint32,
        FieldKindData::Uint64(_) => FieldKind::Uint64,
    }
}

/// The kind that a tagged value belongs to.
pub fn kind_of(value: &FieldKindData) -> (kind: FieldKind)
    ensures
        kind == spec_kind_of(*value),
{
    match value {
        FieldKindData::Bool(_) => FieldKind::Bool,
        FieldKindData::Float32(_) => FieldKind::Float32,
        FieldKindData::Float64(_) => FieldKind::Float64,
        FieldKindData::Int8(_) => FieldKind::Int8,
        FieldKindData::Int16(_) => FieldKind::Int16,
        FieldKindData::Int32(_) => FieldKind::Int32,
        FieldKindData::Int64(_) => FieldKind::Int64,
        FieldKindData::Uint8(_) => FieldKind::Uint8,
        FieldKindData::Uint16(_) => FieldKind::Uint16,
        FieldKindData::Uint32(_) => FieldKind::Uint32,
        FieldKindData::Uint64(_) => FieldKind::Uint64,
    }
}

/// The 64-bit wire form of a tagged value: booleans as 0 or 1, signed
/// integers sign-extended, unsigned integers zero-extended, floats as
/// their bit pattern.
pub open spec fn spec_encode_word(value: FieldKindData) -> u64 {
    match value {
        FieldKindData::Bool(b) => if b { 1u64 } else { 0u64 },
        FieldKindData::Float32(bits) => bits as u64,
        FieldKindData::Float64(bits) => bits,
        FieldKindData::Int8(v) => v as u64,
        FieldKindData::Int16(v) => v as u64,
        FieldKindData::Int32(v) => v as u64,
        FieldKindData::Int64(v) => v as u64,
        FieldKindData::Uint8(v) => v as u64,
        FieldKindData::Uint16(v) => v as u64,
        FieldKindData::Uint32(v) => v as u64,
        FieldKindData::Uint64(v) => v,
    }
}

/// Encodes a tagged value into its 64-bit wire form.
pub fn encode_word(value: &FieldKindData) -> (word: u64)
    ensures
        word == spec_encode_word(*value),
{
    match value {
        FieldKindData::Bool(b) => if *b { 1u64 } else { 0u64 },
        FieldKindData::Float32(bits) => *bits as u64,
        FieldKindData::Float64(bits) => *bits,
        FieldKindData::Int8(v) => *v as u64,
        FieldKindData::Int16(v) => *v as u64,
        FieldKindData::Int32(v) => *v as u64,
        FieldKindData::Int64(v) => *v as u64,
        FieldKindData::Uint8(v) => *v as u64,
        FieldKindData::Uint16(v) => *v as u64,
        FieldKindData::Uint32(v) => *v as u64,
        FieldKindData::Uint64(v) => *v,
    }
}

/// The value a 64-bit container decodes to under a scalar kind: narrowing
/// truncation for integer kinds, bit reinterpretation for float kinds,
/// equality-with-one for booleans.  `None` for kinds the scalar accessor
/// does not serve.
pub open spec fn spec_decode_word(kind: FieldKind, word: u64) -> Option<FieldKindData> {
    match kind {
        FieldKind::Bool => Some(FieldKindData::Bool(word == 1)),
        FieldKind::Float32 => Some(FieldKindData::Float32(word as u32)),
        FieldKind::Float64 => Some(FieldKindData::Float64(word)),
        FieldKind::Int8 => Some(FieldKindData::Int8(word as i8)),
        FieldKind::Int16 => Some(FieldKindData::Int16(word as i16)),
        FieldKind::Int32 => Some(FieldKindData::Int32(word as i32)),
        FieldKind::Int64 => Some(FieldKindData::Int64(word as i64)),
        FieldKind::Uint8 => Some(FieldKindData::Uint8(word as u8)),
        FieldKind::Uint16 => Some(FieldKindData::Uint16(word as u16)),
        FieldKind::Uint32 => Some(FieldKindData::Uint32(word as u32)),
        FieldKind::Uint64 => Some(FieldKindData::Uint64(word)),
        _ => None,
    }
}

/// Decodes a 64-bit container under a scalar kind.
///
/// There is no overflow check on the narrowing: the host-declared kind
/// fixes the field's actual width, so the upper bits carry no information.
pub fn decode_word(kind: FieldKind, word: u64) -> (value: Option<FieldKindData>)
    ensures
        value == spec_decode_word(kind, word),
{
    match kind {
        FieldKind::Bool => Some(FieldKindData::Bool(word == 1)),
        FieldKind::Float32 => Some(FieldKindData::Float32(word as u32)),
        FieldKind::Float64 => Some(FieldKindData::Float64(word)),
        FieldKind::Int8 => Some(FieldKindData::Int8(word as i8)),
        FieldKind::Int16 => Some(FieldKindData::Int16(word as i16)),
        FieldKind::Int32 => Some(FieldKindData::Int32(word as i32)),
        FieldKind::Int64 => Some(FieldKindData::Int64(word as i64)),
        FieldKind::Uint8 => Some(FieldKindData::Uint8(word as u8)),
        FieldKind::Uint16 => Some(FieldKindData::Uint16(word as u16)),
        FieldKind::Uint32 => Some(FieldKindData::Uint32(word as u32)),
        FieldKind::Uint64 => Some(FieldKindData::Uint64(word)),
        FieldKind::Invalid => None,
        FieldKind::String => None,
        FieldKind::CString => None,
        FieldKind::Bytes => None,
    }
}

/// Round trip of the scalar wire form: encoding a value and decoding the
/// word under the value's own kind gives the value back bit for bit.
pub proof fn lemma_scalar_word_round_trip(value: FieldKindData)
    ensures
        spec_decode_word(spec_kind_of(value), spec_encode_word(value)) == Some(value),
{
    match value {
        FieldKindData::Bool(b) => {
        },
        FieldKindData::Float32(bits) => {
            assert(((bits as u64) as u32) == bits) by (bit_vector);
        },
        FieldKindData::Float64(bits) => {
        },
        FieldKindData::Int8(v) => {
            assert(((v as u64) as i8) == v) by (bit_vector);
        },
        FieldKindData::Int16(v) => {
            assert(((v as u64) as i16) == v) by (bit_vector);
        },
        FieldKindData::Int32(v) => {
            assert(((v as u64) as i32) == v) by (bit_vector);
        },
        FieldKindData::Int64(v) => {
            assert(((v as u64) as i64) == v) by (bit_vector);
        },
        FieldKindData::Uint8(v) => {
            assert(((v as u64) as u8) == v) by (bit_vector);
        },
        FieldKindData::Uint16(v) => {
            assert(((v as u64) as u16) == v) by (bit_vector);
        },
        FieldKindData::Uint32(v) => {
            assert(((v as u64) as u32) == v) by (bit_vector);
        },
        FieldKindData::Uint64(v) => {
        },
    }
}

} // verus!
