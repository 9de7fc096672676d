//! The laws of the marshalling and handle protocol, stated once and
//! proved over the same models the operation contracts use.
//!
//! Each law quantifies over all inputs; the scenarios that exercise them
//! on concrete values live in the test suite.

use vstd::prelude::*;
use crate::host::Host;
use crate::maps::MapUpdateFlags;
use crate::values::{FieldKindData, spec_kind_of, spec_encode_word, spec_decode_word,
    lemma_scalar_word_round_trip};

verus! {

/// Round trip of a scalar field: after a set stores a tagged value's
/// transfer word — which is what `Field::set_data` leaves in the host's
/// scalar store — a get that decodes that slot under the value's own
/// kind returns the value bit for bit, floats compared by bit pattern.
pub proof fn lemma_scalar_set_get_round_trip(
    host: Host,
    field: u32,
    data: u32,
    value: FieldKindData,
)
    requires
        host.scalars_model().contains_key((field, data)),
        host.scalars_model()[(field, data)] == spec_encode_word(value),
    ensures
        spec_decode_word(spec_kind_of(value), host.scalars_model()[(field, data)]) == Some(
            value,
        ),
{
    lemma_scalar_word_round_trip(value);
}

/// Buffer truncation: a read into a destination smaller than the stored
/// bytes hands over exactly the destination's capacity — the count
/// `Field::bytes` returns — and the destination keeps its length, so
/// the read can never overrun.
pub proof fn lemma_buffer_truncation(stored: Seq<u8>, dst: Seq<u8>)
    requires
        dst.len() < stored.len(),
    ensures
        ({
            let n = dst.len() as int;
            &&& (if stored.len() <= dst.len() {
                stored.len() as int
            } else {
                dst.len() as int
            }) == n
            &&& (stored.take(n) + dst.skip(n)).len() == dst.len()
            &&& stored.take(n) + dst.skip(n) =~= stored.take(n)
        }),
{
    assert(dst.skip(dst.len() as int) =~= Seq::<u8>::empty());
}

/// Map round trip: on any map contents, a put makes a lookup of the
/// same key return the stored value; an update overwrites it; a delete
/// leaves the key absent, so a lookup of it fails.  The operation
/// contracts tie these map states to `MapHandle::put`, `update`,
/// `delete` and `lookup`.
pub proof fn lemma_map_crud(m: Map<Seq<u8>, Seq<u8>>, k: Seq<u8>, v1: Seq<u8>, v2: Seq<u8>)
    ensures
        m.insert(k, v1).contains_key(k),
        m.insert(k, v1)[k] == v1,
        m.insert(k, v1).insert(k, v2)[k] == v2,
        !m.insert(k, v1).remove(k).contains_key(k),
{
}

/// Update-flag semantics: with a correctly sized key and value,
/// create-only succeeds exactly on an absent key (capacity permitting),
/// and update-only succeeds exactly on a present one.  Together with
/// `MapHandle::update`'s contract — success if and only if
/// `spec_map_update_ok` — this is the flag rule for every map state.
pub proof fn lemma_update_flag_semantics(host: Host, handle: u32, key: Seq<u8>, value: Seq<u8>)
    requires
        host.has_map(handle),
        key.len() == host.map_at(handle).key_size,
        value.len() == host.map_at(handle).value_size,
    ensures
        host.map_entries_model(handle).contains_key(key) ==> !host.spec_map_update_ok(
            handle,
            key,
            value,
            MapUpdateFlags::UpdateNoExist,
        ),
        host.map_entries_model(handle).contains_key(key) ==> host.spec_map_update_ok(
            handle,
            key,
            value,
            MapUpdateFlags::UpdateExist,
        ),
        !host.map_entries_model(handle).contains_key(key) ==> !host.spec_map_update_ok(
            handle,
            key,
            value,
            MapUpdateFlags::UpdateExist,
        ),
        (!host.map_entries_model(handle).contains_key(key) && host.map_count(handle) < host.map_at(
            handle,
        ).max_entries) ==> host.spec_map_update_ok(
            handle,
            key,
            value,
            MapUpdateFlags::UpdateNoExist,
        ),
{
}

/// Capacity enforcement: a map already holding as many entries as its
/// declared maximum rejects the insertion of any new key, whatever the
/// flags; only overwrites of present keys can still succeed.
pub proof fn lemma_capacity_enforced(
    host: Host,
    handle: u32,
    key: Seq<u8>,
    value: Seq<u8>,
    flags: MapUpdateFlags,
)
    requires
        host.has_map(handle),
        !host.map_entries_model(handle).contains_key(key),
        host.map_count(handle) >= host.map_at(handle).max_entries,
    ensures
        !host.spec_map_update_ok(handle, key, value, flags),
{
}

/// The reader state machine's guard: a writable reader that is not
/// paused can never pass a snapshot read, whatever else the host state
/// holds.  Together with `EventReader::read`'s contract this is the
/// protocol rule: only `pause` permits the read and `resume` withdraws
/// the permission again.
pub proof fn lemma_active_writable_reader_rejects_read(host: Host, handle: u32)
    requires
        host.has_reader(handle),
        host.reader_at(handle).writable,
        !host.reader_at(handle).paused,
    ensures
        !host.spec_reader_read_ok(handle),
{
}

} // verus!
