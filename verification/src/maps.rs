//! Map handles: the key/value store resources of the host.
//!
//! A map is named by an opaque integer handle.  A handle obtained by
//! lookup is borrowed — the host owns the resource and the guest must not
//! release it; a handle obtained by creation is owned and must be released
//! exactly once.  Ownership is a static property of the handle value, and
//! release consumes the handle, so double release and use after release
//! cannot be written.
//!
//! Keys and values are fixed-size byte strings in the caller-declared
//! layout: host and guest must agree on byte order and padding, which is
//! the caller's obligation.

use vstd::prelude::*;
use crate::error::ApiError;
use crate::host::Host;

verus! {

/// The store kind of a map, fixed at creation.
#[derive(Clone, Copy, Debug, PartialEq, Eq, Structural)]
pub enum MapType {
    Hash,
    Array,
    PerfEventArray,
    RingBuf,
}

/// How an update treats the presence of its key.
#[derive(Clone, Copy, Debug, PartialEq, Eq, Structural)]
pub enum MapUpdateFlags {
    /// Create the entry or overwrite it, whichever applies.
    UpdateAny,
    /// Create only: fail if the key already exists.
    UpdateNoExist,
    /// Update only: fail if the key is missing.
    UpdateExist,
}

/// What a map is created with; immutable thereafter.
#[derive(Debug)]
pub struct MapSpec {
    pub name: String,
    pub map_type: MapType,
    pub key_size: u32,
    pub value_size: u32,
    pub max_entries: u32,
}

/// An opaque handle to a host-side map.
///
/// `owned` records how the handle was obtained: by creation (owned, must
/// be released exactly once) or by lookup (borrowed, must not be
/// released).  Release consumes the handle, so use after release and a
/// second release cannot be written; releasing a borrowed handle is the
/// documented no-op.
pub struct MapHandle {
    handle: u32,
    owned: bool,
}

impl MapHandle {
    /// The integer the host knows this map by.
    pub closed spec fn id(self) -> u32 {
        self.handle
    }

    /// Whether the guest owns the backing resource.
    pub closed spec fn spec_owned(self) -> bool {
        self.owned
    }

    /// The handle still names a map of this host state.
    pub open spec fn valid(self, host: Host) -> bool {
        host.has_map(self.id())
    }

    /// The integer the host knows this map by.
    pub fn handle(&self) -> (h: u32)
        ensures
            h == self.id(),
    {
        self.handle
    }

    /// Whether the guest owns the backing resource.
    pub fn is_owned(&self) -> (o: bool)
        ensures
            o == self.spec_owned(),
    {
        self.owned
    }

    /// Looks an existing map up by name.  The returned handle is
    /// borrowed: the host owns the resource and dropping the handle
    /// releases nothing.
    pub fn get(host: &Host, name: &str) -> (r: Result<MapHandle, ApiError>)
        requires
            host.wf(),
        ensures
            match host.map_handle_named(name@) {
                Some(h) => match r {
                    Ok(m) => m.id() == h && !m.spec_owned() && m.valid(*host) && host.map_at(
                        h,
                    ).name@ == name@,
                    Err(_) => false,
                },
                None => r == Err::<MapHandle, ApiError>(ApiError::NotFound),
            },
    {
        match host.map_find(name) {
            Some(h) => {
                proof {
                    host.lemma_named_map_exists(name@);
                }
                Ok(MapHandle { handle: h, owned: false })
            },
            None => Err(ApiError::NotFound),
        }
    }

    /// Creates a map from a specification.  The returned handle is
    /// owned: the guest must release it exactly once.
    pub fn new(host: &mut Host, spec: MapSpec) -> (r: Result<MapHandle, ApiError>)
        requires
            old(host).wf(),
        ensures
            final(host).wf(),
            final(host).same_records(*old(host)),
            final(host).same_tables(*old(host)),
            final(host).same_log(*old(host)),
            final(host).readers@ == old(host).readers@,
            if old(host).spec_map_create_rejected(
                spec.name@,
                spec.key_size,
                spec.value_size,
                spec.max_entries,
            ) {
                &&& r == Err::<MapHandle, ApiError>(ApiError::Creation)
                &&& final(host).maps@ == old(host).maps@
                &&& final(host).next_handle == old(host).next_handle
            } else {
                match r {
                    Ok(m) => {
                        &&& m.spec_owned()
                        &&& m.id() == old(host).next_handle
                        &&& m.valid(*final(host))
                        &&& final(host).map_meta(m.id()) == (
                            spec.name@,
                            spec.map_type,
                            spec.key_size,
                            spec.value_size,
                            spec.max_entries,
                        )
                        &&& final(host).map_count(m.id()) == 0
                        &&& final(host).map_entries_model(m.id()) == Map::<
                            Seq<u8>,
                            Seq<u8>,
                        >::empty()
                        &&& final(host).map_ring(m.id()) is None
                        &&& final(host).map_handle_named(spec.name@) == Some(m.id())
                        &&& final(host).other_maps_unchanged(*old(host), m.id())
                    },
                    Err(_) => false,
                }
            },
    {
        match host.map_create(
            spec.name.as_str(),
            spec.map_type,
            spec.key_size,
            spec.value_size,
            spec.max_entries,
        ) {
            Some(h) => Ok(MapHandle { handle: h, owned: true }),
            None => Err(ApiError::Creation),
        }
    }

    /// Stores a value under a key, creating or overwriting as needed,
    /// subject to the declared sizes and capacity.
    pub fn put(&self, host: &mut Host, key: &[u8], value: &[u8]) -> (r: Result<(), ApiError>)
        requires
            old(host).wf(),
        ensures
            final(host).wf(),
            final(host).same_records(*old(host)),
            final(host).same_tables(*old(host)),
            final(host).same_log(*old(host)),
            final(host).readers@ == old(host).readers@,
            final(host).next_handle == old(host).next_handle,
            (r is Ok) == old(host).spec_map_update_ok(
                self.id(),
                key@,
                value@,
                MapUpdateFlags::UpdateAny,
            ),
            if old(host).spec_map_update_ok(self.id(), key@, value@, MapUpdateFlags::UpdateAny) {
                &&& final(host).has_map(self.id())
                &&& final(host).map_entries_model(self.id()) == old(host).map_entries_model(
                    self.id(),
                ).insert(key@, value@)
                &&& final(host).map_count(self.id()) == old(host).map_count(self.id()) + (if old(
                    host,
                ).map_entries_model(self.id()).contains_key(key@) {
                    0int
                } else {
                    1int
                })
                &&& final(host).map_meta(self.id()) == old(host).map_meta(self.id())
                &&& final(host).map_ring(self.id()) == old(host).map_ring(self.id())
                &&& final(host).other_maps_unchanged(*old(host), self.id())
            } else {
                r == Err::<(), ApiError>(ApiError::MapOperation) && final(host).maps@ == old(
                    host,
                ).maps@
            },
    {
        self.update(host, key, value, MapUpdateFlags::UpdateAny)
    }

    /// Stores a value under a key subject to the flags' presence demand:
    /// create-only fails on an existing key, update-only fails on a
    /// missing one.
    pub fn update(&self, host: &mut Host, key: &[u8], value: &[u8], flags: MapUpdateFlags) -> (r:
        Result<(), ApiError>)
        requires
            old(host).wf(),
        ensures
            final(host).wf(),
            final(host).same_records(*old(host)),
            final(host).same_tables(*old(host)),
            final(host).same_log(*old(host)),
            final(host).readers@ == old(host).readers@,
            final(host).next_handle == old(host).next_handle,
            (r is Ok) == old(host).spec_map_update_ok(self.id(), key@, value@, flags),
            if old(host).spec_map_update_ok(self.id(), key@, value@, flags) {
                &&& final(host).has_map(self.id())
                &&& final(host).map_entries_model(self.id()) == old(host).map_entries_model(
                    self.id(),
                ).insert(key@, value@)
                &&& final(host).map_count(self.id()) == old(host).map_count(self.id()) + (if old(
                    host,
                ).map_entries_model(self.id()).contains_key(key@) {
                    0int
                } else {
                    1int
                })
                &&& final(host).map_meta(self.id()) == old(host).map_meta(self.id())
                &&& final(host).map_ring(self.id()) == old(host).map_ring(self.id())
                &&& final(host).other_maps_unchanged(*old(host), self.id())
            } else {
                r == Err::<(), ApiError>(ApiError::MapOperation) && final(host).maps@ == old(
                    host,
                ).maps@
            },
    {
        let status = host.map_update_raw(self.handle, key, value, flags);
        if !crate::wire::status_ok(status) {
            return Err(ApiError::MapOperation);
        }
        Ok(())
    }

    /// Copies the value stored under a key into a caller-provided
    /// buffer of the declared value size.
    pub fn lookup(&self, host: &Host, key: &[u8], value_out: &mut Vec<u8>) -> (r: Result<
        (),
        ApiError,
    >)
        requires
            host.wf(),
        ensures
            final(value_out).len() == old(value_out).len(),
            (r is Ok) == host.spec_map_lookup_ok(self.id(), key@, old(value_out)@.len() as nat),
            if host.spec_map_lookup_ok(self.id(), key@, old(value_out)@.len() as nat) {
                final(value_out)@ == host.map_entries_model(self.id())[key@]
            } else {
                r == Err::<(), ApiError>(ApiError::MapOperation) && final(value_out)@ == old(
                    value_out,
                )@
            },
    {
        let status = host.map_lookup_raw(self.handle, key, value_out);
        if !crate::wire::status_ok(status) {
            return Err(ApiError::MapOperation);
        }
        Ok(())
    }

    /// Removes the entry stored under a key.
    pub fn delete(&self, host: &mut Host, key: &[u8]) -> (r: Result<(), ApiError>)
        requires
            old(host).wf(),
        ensures
            final(host).wf(),
            final(host).same_records(*old(host)),
            final(host).same_tables(*old(host)),
            final(host).same_log(*old(host)),
            final(host).readers@ == old(host).readers@,
            final(host).next_handle == old(host).next_handle,
            (r is Ok) == old(host).spec_map_delete_ok(self.id(), key@),
            if old(host).spec_map_delete_ok(self.id(), key@) {
                &&& final(host).has_map(self.id())
                &&& final(host).map_entries_model(self.id()) == old(host).map_entries_model(
                    self.id(),
                ).remove(key@)
                &&& final(host).map_count(self.id()) == old(host).map_count(self.id()) - 1
                &&& final(host).map_meta(self.id()) == old(host).map_meta(self.id())
                &&& final(host).map_ring(self.id()) == old(host).map_ring(self.id())
                &&& final(host).other_maps_unchanged(*old(host), self.id())
            } else {
                r == Err::<(), ApiError>(ApiError::MapOperation) && final(host).maps@ == old(
                    host,
                ).maps@
            },
    {
        let status = host.map_delete_raw(self.handle, key);
        if !crate::wire::status_ok(status) {
            return Err(ApiError::MapOperation);
        }
        Ok(())
    }

    /// Ends this handle's ownership.
    ///
    /// An owned map's backing resource is released; releasing a handle
    /// whose map is already gone fails.  A borrowed handle's release is
    /// the documented no-op: the host owns the resource.  Either way the
    /// handle is consumed, so it cannot be used or released again.
    pub fn release(self, host: &mut Host) -> (r: Result<(), ApiError>)
        requires
            old(host).wf(),
        ensures
            final(host).wf(),
            final(host).same_records(*old(host)),
            final(host).same_tables(*old(host)),
            final(host).same_log(*old(host)),
            final(host).readers@ == old(host).readers@,
            final(host).next_handle == old(host).next_handle,
            if self.spec_owned() {
                &&& (r is Ok) == old(host).has_map(self.id())
                &&& if old(host).has_map(self.id()) {
                    &&& !final(host).has_map(self.id())
                    &&& final(host).other_maps_unchanged(*old(host), self.id())
                } else {
                    r == Err::<(), ApiError>(ApiError::MapOperation) && final(host).maps@ == old(
                        host,
                    ).maps@
                }
            } else {
                r is Ok && final(host).maps@ == old(host).maps@
            },
    {
        if !self.owned {
            return Ok(());
        }
        let status = host.map_release(self.handle);
        if !crate::wire::status_ok(status) {
            return Err(ApiError::MapOperation);
        }
        Ok(())
    }
}

} // verus!
