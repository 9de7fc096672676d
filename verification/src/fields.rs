//! Field accessors: typed get and set of record fields.
//!
//! A field reference and a data reference are opaque integers borrowed
//! per call from the host's record pipeline; neither is ever released by
//! the guest.  Scalars cross the boundary in a 64-bit container (see
//! [`crate::values`]); variable-length fields go through a guest-owned
//! buffer.  Scalar and buffer kinds use different host calls, which is
//! why [`Field::get_data`] deliberately rejects the buffer kinds.

use vstd::prelude::*;
use crate::error::ApiError;
use crate::host::Host;
use crate::kinds::{FieldKind, kind_code, is_scalar_kind, spec_is_scalar_kind};
use crate::values::{FieldKindData, kind_of, encode_word, decode_word, spec_kind_of,
    spec_encode_word, spec_decode_word};
use crate::wire::{status_ok, read_failed};
use vstd::string::{StrSliceExecFns, StringSliceAdditionalSpecFns};

verus! {

/// An opaque reference to a named field of the host's record schema.
#[derive(Clone, Copy, Debug, PartialEq, Eq, Structural)]
pub struct Field(pub u32);

/// An opaque reference to one concrete record instance.
#[derive(Clone, Copy, Debug, PartialEq, Eq, Structural)]
pub struct Data(pub u32);

/// Every byte is plain ASCII.
pub open spec fn spec_all_ascii(bytes: Seq<u8>) -> bool {
    forall|i: int| 0 <= i < bytes.len() ==> bytes[i] < 128
}

/// The characters ASCII bytes stand for, one per byte.
pub open spec fn spec_text_of(bytes: Seq<u8>) -> Seq<char> {
    Seq::new(bytes.len(), |i: int| bytes[i] as char)
}

/// The written prefix of a C-style text buffer: everything before the
/// first null byte, or the whole buffer when no null occurs.
pub open spec fn spec_c_text(bytes: Seq<u8>) -> Seq<u8>
    decreases bytes.len(),
{
    if bytes.len() == 0 {
        bytes
    } else if bytes[0] == 0 {
        Seq::empty()
    } else {
        seq![bytes[0]] + spec_c_text(bytes.skip(1))
    }
}

proof fn lemma_c_text_split(bytes: Seq<u8>, i: int)
    requires
        0 <= i <= bytes.len(),
        forall|j: int| 0 <= j < i ==> bytes[j] != 0,
        i < bytes.len() ==> bytes[i] == 0,
    ensures
        spec_c_text(bytes) == bytes.take(i),
    decreases i,
{
    if i == 0 {
        if bytes.len() == 0 {
            assert(bytes.take(0) =~= bytes);
        } else {
            assert(bytes.take(0) =~= Seq::<u8>::empty());
        }
    } else {
        let rest = bytes.skip(1);
        assert(forall|j: int| 0 <= j < i - 1 ==> rest[j] == bytes[j + 1]);
        lemma_c_text_split(rest, i - 1);
        assert(bytes.take(i) =~= seq![bytes[0]] + rest.take(i - 1));
    }
}

/// Relies on `String::from_utf8_lossy`: bytes that are valid UTF-8 decode
/// to exactly those characters, so plain ASCII bytes come back as the
/// same characters one for one.
#[verifier::external_body]
fn bytes_to_text(bytes: &[u8]) -> (r: String)
    ensures
        spec_all_ascii(bytes@) ==> r@ == spec_text_of(bytes@),
{
    String::from_utf8_lossy(bytes).into_owned()
}

/// Decodes the written prefix of a text buffer under the C-string
/// convention: the text ends at the first null byte.  This is a
/// deliberate interop simplification, not general UTF-8 handling: the
/// contract pins the result down for ASCII text only.
pub fn from_c_string(buffer: &Vec<u8>, len: usize) -> (r: String)
    requires
        len <= buffer@.len(),
    ensures
        spec_all_ascii(spec_c_text(buffer@.take(len as int))) ==> r@ == spec_text_of(
            spec_c_text(buffer@.take(len as int)),
        ),
{
    let mut prefix: Vec<u8> = Vec::new();
    let mut i: usize = 0;
    while i < len
        invariant
            i <= len <= buffer@.len(),
            forall|j: int| 0 <= j < i ==> buffer@[j] != 0,
            prefix@ == buffer@.take(i as int),
        decreases len - i,
    {
        let b = buffer[i];
        if b == 0 {
            proof {
                let written = buffer@.take(len as int);
                assert(written.len() == len as int);
                assert forall|j: int| 0 <= j < i implies written[j] != 0 by {
                    assert(written[j] == buffer@[j]);
                }
                assert(written[i as int] == buffer@[i as int]);
                lemma_c_text_split(written, i as int);
                assert(written.take(i as int) =~= buffer@.take(i as int));
            }
            return bytes_to_text(prefix.as_slice());
        }
        prefix.push(b);
        proof {
            assert(prefix@ =~= buffer@.take(i as int + 1));
        }
        i = i + 1;
    }
    proof {
        let written = buffer@.take(len as int);
        assert(written.len() == len as int);
        assert forall|j: int| 0 <= j < len implies written[j] != 0 by {
            assert(written[j] == buffer@[j]);
        }
        lemma_c_text_split(written, len as int);
        assert(written.take(len as int) =~= buffer@.take(len as int));
    }
    bytes_to_text(prefix.as_slice())
}

/// A vector of `n` zero bytes: the pre-sized scratch buffer handed to the
/// host for a buffer read.
pub fn zero_buffer(n: usize) -> (out: Vec<u8>)
    ensures
        out@.len() == n,
        forall|i: int| 0 <= i < n ==> out@[i] == 0,
{
    let mut out: Vec<u8> = Vec::new();
    let mut i: usize = 0;
    while i < n
        invariant
            i <= n,
            out@.len() == i,
            forall|j: int| 0 <= j < i ==> out@[j] == 0,
        decreases n - i,
    {
        out.push(0);
        i = i + 1;
    }
    out
}

impl Field {
    /// Reads the raw transfer word of a scalar field.
    ///
    /// One boundary call, with a pre-zeroed output-error slot passed by
    /// reference; any nonzero value left there afterwards means failure.
    fn get_scalar(&self, host: &Host, data: Data, kind: FieldKind) -> (r: Result<u64, ApiError>)
        ensures
            match r {
                Ok(w) => host.scalars_model().contains_key((self.0, data.0)) && w
                    == host.scalars_model()[(self.0, data.0)],
                Err(e) => !host.scalars_model().contains_key((self.0, data.0)) && e
                    == ApiError::FieldAccess,
            },
    {
        let mut err: u32 = 0;
        let val = host.field_get_scalar(self.0, data.0, kind_code(kind), &mut err);
        if err != 0 {
            return Err(ApiError::FieldAccess);
        }
        Ok(val)
    }

    /// Writes the raw transfer word of a scalar field.
    fn set(&self, host: &mut Host, data: Data, kind: FieldKind, value: u64) -> (r: Result<
        (),
        ApiError,
    >)
        ensures
            r is Ok,
            final(host).scalars_model() == old(host).scalars_model().insert(
                (self.0, data.0),
                value,
            ),
            final(host).buffers@ == old(host).buffers@,
            final(host).tags@ == old(host).tags@,
            final(host).same_resources(*old(host)),
            final(host).same_tables(*old(host)),
            final(host).same_log(*old(host)),
    {
        let ret = host.field_set_scalar(self.0, data.0, kind_code(kind), value);
        if !status_ok(ret) {
            return Err(ApiError::FieldAccess);
        }
        Ok(())
    }

    /// Reads a scalar field as a tagged value.
    ///
    /// The buffer kinds are deliberately rejected — they use a different
    /// host call, served by [`Field::bytes`] and [`Field::string`] — and
    /// so are the sentinel and C-string kinds, for which no scalar
    /// handling is defined.
    pub fn get_data(&self, host: &Host, data: Data, field_kind: FieldKind) -> (r: Result<
        FieldKindData,
        ApiError,
    >)
        ensures
            spec_is_scalar_kind(field_kind) ==> match r {
                Ok(v) => host.scalars_model().contains_key((self.0, data.0)) && Some(v)
                    == spec_decode_word(field_kind, host.scalars_model()[(self.0, data.0)]),
                Err(e) => !host.scalars_model().contains_key((self.0, data.0)) && e
                    == ApiError::FieldAccess,
            },
            !spec_is_scalar_kind(field_kind) ==> r == Err::<FieldKindData, ApiError>(
                ApiError::UnsupportedKind,
            ),
    {
        if !is_scalar_kind(field_kind) {
            return Err(ApiError::UnsupportedKind);
        }
        let word = match self.get_scalar(host, data, field_kind) {
            Ok(w) => w,
            Err(e) => { return Err(e); },
        };
        match decode_word(field_kind, word) {
            Some(v) => Ok(v),
            None => Err(ApiError::UnsupportedKind),
        }
    }

    /// Writes a scalar field from a tagged value.
    ///
    /// The value's tag must match the declared kind; a mismatch fails
    /// with [`ApiError::TypeMismatch`] before any boundary call.
    pub fn set_data(&self, host: &mut Host, data: Data, value: &FieldKindData, field_kind:
        FieldKind) -> (r: Result<(), ApiError>)
        ensures
            spec_kind_of(*value) == field_kind ==> {
                &&& r is Ok
                &&& final(host).scalars_model() == old(host).scalars_model().insert(
                    (self.0, data.0),
                    spec_encode_word(*value),
                )
                &&& final(host).buffers@ == old(host).buffers@
                &&& final(host).tags@ == old(host).tags@
                &&& final(host).same_resources(*old(host))
                &&& final(host).same_tables(*old(host))
                &&& final(host).same_log(*old(host))
            },
            spec_kind_of(*value) != field_kind ==> {
                &&& r == Err::<(), ApiError>(ApiError::TypeMismatch)
                &&& final(host).same_records(*old(host))
                &&& final(host).same_resources(*old(host))
                &&& final(host).same_tables(*old(host))
                &&& final(host).same_log(*old(host))
            },
    {
        if !(kind_of(value) == field_kind) {
            return Err(ApiError::TypeMismatch);
        }
        self.set(host, data, field_kind, encode_word(value))
    }

    /// Reads a variable-length field into a pre-sized destination.
    ///
    /// The host writes at most the destination's capacity and reports how
    /// many bytes it wrote, which may be less than the capacity; the
    /// destination never grows and bytes past the written count keep
    /// their old values.
    pub fn bytes(&self, host: &Host, data: Data, dst: &mut Vec<u8>) -> (r: Result<u32, ApiError>)
        requires
            old(dst)@.len() <= 0x7fff_ffff,
        ensures
            final(dst).len() == old(dst).len(),
            match r {
                Ok(n) => {
                    &&& host.buffers_model().contains_key((self.0, data.0))
                    &&& ({
                        let stored = host.buffers_model()[(self.0, data.0)];
                        &&& n as int == if stored.len() <= old(dst)@.len() {
                            stored.len() as int
                        } else {
                            old(dst)@.len() as int
                        }
                        &&& n <= old(dst)@.len()
                        &&& final(dst)@ == stored.take(n as int) + old(dst)@.skip(n as int)
                    })
                },
                Err(e) => {
                    &&& !host.buffers_model().contains_key((self.0, data.0))
                    &&& e == ApiError::BufferAccess
                    &&& final(dst)@ == old(dst)@
                },
            },
    {
        let ret = host.field_get_buffer(self.0, data.0, dst);
        if read_failed(ret) {
            return Err(ApiError::BufferAccess);
        }
        Ok(ret as u32)
    }

    /// Reads a text field: a scratch buffer of `max_size` bytes is handed
    /// to the host and the written prefix is decoded under the C-string
    /// convention (the text ends at the first null byte).
    ///
    /// For ASCII content — the convention's intended domain — the result
    /// is pinned down exactly; what the stored bytes are truncated to is
    /// the written prefix of at most `max_size` bytes.
    pub fn string(&self, host: &Host, data: Data, max_size: u32) -> (r: Result<String, ApiError>)
        requires
            max_size <= 0x7fff_ffff,
        ensures
            match r {
                Ok(s) => {
                    &&& host.buffers_model().contains_key((self.0, data.0))
                    &&& ({
                        let stored = host.buffers_model()[(self.0, data.0)];
                        let written = if stored.len() <= max_size {
                            stored
                        } else {
                            stored.take(max_size as int)
                        };
                        spec_all_ascii(spec_c_text(written)) ==> s@ == spec_text_of(
                            spec_c_text(written),
                        )
                    })
                },
                Err(e) => !host.buffers_model().contains_key((self.0, data.0)) && e
                    == ApiError::BufferAccess,
            },
    {
        let mut buffer = zero_buffer(max_size as usize);
        let n = match self.bytes(host, data, &mut buffer) {
            Ok(n) => n,
            Err(e) => { return Err(e); },
        };
        proof {
            let stored = host.buffers_model()[(self.0, data.0)];
            let written = if stored.len() <= max_size {
                stored
            } else {
                stored.take(max_size as int)
            };
            assert(buffer@.take(n as int) =~= written);
        }
        Ok(from_c_string(&buffer, n as usize))
    }

    /// Writes a variable-length byte field.
    ///
    /// The real call packs a reference to the source bytes; the memory
    /// must stay put until the synchronous call returns, and no reference
    /// is retained afterwards.
    pub fn set_bytes(&self, host: &mut Host, data: Data, src: &[u8]) -> (r: Result<(), ApiError>)
        ensures
            r is Ok,
            final(host).buffers_model() == old(host).buffers_model().insert(
                (self.0, data.0),
                src@,
            ),
            final(host).scalars@ == old(host).scalars@,
            final(host).tags@ == old(host).tags@,
            final(host).same_resources(*old(host)),
            final(host).same_tables(*old(host)),
            final(host).same_log(*old(host)),
    {
        let ret = host.field_set_buffer(self.0, data.0, src);
        if !status_ok(ret) {
            return Err(ApiError::FieldAccess);
        }
        Ok(())
    }

    /// Writes a text field: the string's bytes become the field's buffer
    /// value.
    pub fn set_string(&self, host: &mut Host, data: Data, value: &str) -> (r: Result<
        (),
        ApiError,
    >)
        ensures
            r is Ok,
            final(host).buffers_model() == old(host).buffers_model().insert(
                (self.0, data.0),
                value.spec_bytes(),
            ),
            final(host).scalars@ == old(host).scalars@,
            final(host).tags@ == old(host).tags@,
            final(host).same_resources(*old(host)),
            final(host).same_tables(*old(host)),
            final(host).same_log(*old(host)),
    {
        let bytes = value.as_bytes_vec();
        self.set_bytes(host, data, bytes.as_slice())
    }

    /// Attaches a string label to the field definition.
    pub fn add_tag(&self, host: &mut Host, tag: &str) -> (r: Result<(), ApiError>)
        ensures
            r is Ok,
            final(host).tags_model() == old(host).tags_model().push((self.0, tag@)),
            final(host).scalars@ == old(host).scalars@,
            final(host).buffers@ == old(host).buffers@,
            final(host).same_resources(*old(host)),
            final(host).same_tables(*old(host)),
            final(host).same_log(*old(host)),
    {
        let ret = host.field_add_tag(self.0, tag);
        if !status_ok(ret) {
            return Err(ApiError::FieldAccess);
        }
        Ok(())
    }
}

} // verus!
