//! Event readers: the consuming end of a ring-buffer event channel.
//!
//! A reader is bound to exactly one ring-style map and carries a
//! two-state machine: `Active` (its initial state) and `Paused`.  A
//! writable reader must be paused before a snapshot read — writers may
//! otherwise corrupt the record — so [`EventReader::read`] while active
//! fails with [`ApiError::InvalidState`].  This ordering is a core
//! invariant of the protocol, not an implementation detail.

use vstd::prelude::*;
use crate::error::ApiError;
use crate::host::Host;
use crate::maps::MapHandle;

verus! {

/// An opaque handle to a host-side event reader, together with the
/// guest's mirror of its state machine.
///
/// The mirror and the host's own paused flag move together: every
/// transition notifies the host, and [`EventReader::valid`] states the
/// agreement.
pub struct EventReader {
    handle: u32,
    writable: bool,
    paused: bool,
}

impl EventReader {
    /// The integer the host knows this reader by.
    pub closed spec fn id(self) -> u32 {
        self.handle
    }

    /// Whether the reader was created writable/overwritable.
    pub closed spec fn spec_writable(self) -> bool {
        self.writable
    }

    /// Whether the reader is paused; false is the `Active` state.
    pub closed spec fn spec_paused(self) -> bool {
        self.paused
    }

    /// The handle names a reader of this host state, and the guest's
    /// mirror of the state machine agrees with the host's.
    pub open spec fn valid(self, host: Host) -> bool {
        &&& host.has_reader(self.id())
        &&& host.reader_at(self.id()).writable == self.spec_writable()
        &&& host.reader_at(self.id()).paused == self.spec_paused()
    }

    /// Whether the reader was created writable/overwritable.
    pub fn is_writable(&self) -> (w: bool)
        ensures
            w == self.spec_writable(),
    {
        self.writable
    }

    /// Whether the reader is paused.
    pub fn is_paused(&self) -> (p: bool)
        ensures
            p == self.spec_paused(),
    {
        self.paused
    }

    /// Binds a new reader to a ring-style map.  Fails with
    /// [`ApiError::Creation`] when the map is not ring-style, the entry
    /// size is zero, or the map is gone.  A fresh reader starts active.
    pub fn new(host: &mut Host, map: &MapHandle, entry_size: u32, writable: bool) -> (r: Result<
        EventReader,
        ApiError,
    >)
        requires
            old(host).wf(),
        ensures
            final(host).wf(),
            final(host).same_records(*old(host)),
            final(host).same_tables(*old(host)),
            final(host).same_log(*old(host)),
            final(host).maps@ == old(host).maps@,
            if old(host).spec_reader_create_rejected(map.id(), entry_size) {
                &&& r == Err::<EventReader, ApiError>(ApiError::Creation)
                &&& final(host).readers@ == old(host).readers@
                &&& final(host).next_handle == old(host).next_handle
            } else {
                match r {
                    Ok(reader) => {
                        &&& reader.id() == old(host).next_handle
                        &&& reader.spec_writable() == writable
                        &&& !reader.spec_paused()
                        &&& reader.valid(*final(host))
                        &&& final(host).reader_at(reader.id()).map_handle == map.id()
                        &&& final(host).reader_at(reader.id()).entry_size == entry_size
                        &&& final(host).other_readers_unchanged(*old(host), reader.id())
                    },
                    Err(_) => false,
                }
            },
    {
        match host.reader_create(map.handle(), entry_size, writable) {
            Some(h) => Ok(EventReader { handle: h, writable, paused: false }),
            None => Err(ApiError::Creation),
        }
    }

    /// Moves the reader to `Paused`, notifying the host whatever the
    /// current state.
    pub fn pause(&mut self, host: &mut Host) -> (r: Result<(), ApiError>)
        requires
            old(host).wf(),
            old(self).valid(*old(host)),
        ensures
            r is Ok,
            final(host).wf(),
            final(self).id() == old(self).id(),
            final(self).spec_writable() == old(self).spec_writable(),
            final(self).spec_paused(),
            final(self).valid(*final(host)),
            final(host).same_records(*old(host)),
            final(host).same_tables(*old(host)),
            final(host).same_log(*old(host)),
            final(host).maps@ == old(host).maps@,
            final(host).next_handle == old(host).next_handle,
            final(host).reader_at(old(self).id()).map_handle == old(host).reader_at(
                old(self).id(),
            ).map_handle,
            final(host).reader_at(old(self).id()).entry_size == old(host).reader_at(
                old(self).id(),
            ).entry_size,
            final(host).other_readers_unchanged(*old(host), old(self).id()),
    {
        let status = host.reader_set_paused(self.handle, true);
        if !crate::wire::status_ok(status) {
            return Err(ApiError::InvalidState);
        }
        self.paused = true;
        Ok(())
    }

    /// Moves the reader back to `Active`, notifying the host whatever
    /// the current state.
    pub fn resume(&mut self, host: &mut Host) -> (r: Result<(), ApiError>)
        requires
            old(host).wf(),
            old(self).valid(*old(host)),
        ensures
            r is Ok,
            final(host).wf(),
            final(self).id() == old(self).id(),
            final(self).spec_writable() == old(self).spec_writable(),
            !final(self).spec_paused(),
            final(self).valid(*final(host)),
            final(host).same_records(*old(host)),
            final(host).same_tables(*old(host)),
            final(host).same_log(*old(host)),
            final(host).maps@ == old(host).maps@,
            final(host).next_handle == old(host).next_handle,
            final(host).reader_at(old(self).id()).map_handle == old(host).reader_at(
                old(self).id(),
            ).map_handle,
            final(host).reader_at(old(self).id()).entry_size == old(host).reader_at(
                old(self).id(),
            ).entry_size,
            final(host).other_readers_unchanged(*old(host), old(self).id()),
    {
        let status = host.reader_set_paused(self.handle, false);
        if !crate::wire::status_ok(status) {
            return Err(ApiError::InvalidState);
        }
        self.paused = false;
        Ok(())
    }

    /// Copies the most recent record snapshot into `dst`, up to its
    /// capacity.
    ///
    /// Only valid in `Paused` state for a writable reader: while active,
    /// the call fails with [`ApiError::InvalidState`] and nothing is
    /// read.  When no record has arrived, or the backing map is gone,
    /// the read fails with [`ApiError::BufferAccess`].
    pub fn read(&self, host: &Host, dst: &mut Vec<u8>) -> (r: Result<(), ApiError>)
        requires
            host.wf(),
            self.valid(*host),
        ensures
            final(dst).len() == old(dst).len(),
            if self.spec_writable() && !self.spec_paused() {
                r == Err::<(), ApiError>(ApiError::InvalidState) && final(dst)@ == old(dst)@
            } else if host.spec_reader_read_ok(self.id()) {
                ({
                    let rec = host.map_ring(host.reader_at(self.id()).map_handle)->Some_0;
                    let copied = if rec.len() <= old(dst)@.len() {
                        rec.len() as int
                    } else {
                        old(dst)@.len() as int
                    };
                    r is Ok && final(dst)@ == rec.take(copied) + old(dst)@.skip(copied)
                })
            } else {
                r == Err::<(), ApiError>(ApiError::BufferAccess) && final(dst)@ == old(dst)@
            },
    {
        if self.writable && !self.paused {
            return Err(ApiError::InvalidState);
        }
        let status = host.reader_read_raw(self.handle, dst);
        if !crate::wire::status_ok(status) {
            return Err(ApiError::BufferAccess);
        }
        Ok(())
    }

    /// Releases the reader's host resource and consumes the handle, so
    /// it cannot be used or released again.
    pub fn release(self, host: &mut Host) -> (r: Result<(), ApiError>)
        requires
            old(host).wf(),
        ensures
            final(host).wf(),
            final(host).same_records(*old(host)),
            final(host).same_tables(*old(host)),
            final(host).same_log(*old(host)),
            final(host).maps@ == old(host).maps@,
            final(host).next_handle == old(host).next_handle,
            (r is Ok) == old(host).has_reader(self.id()),
            if old(host).has_reader(self.id()) {
                &&& !final(host).has_reader(self.id())
                &&& final(host).other_readers_unchanged(*old(host), self.id())
            } else {
                r == Err::<(), ApiError>(ApiError::MapOperation) && final(host).readers@ == old(
                    host,
                ).readers@
            },
    {
        let status = host.reader_release(self.handle);
        if !crate::wire::status_ok(status) {
            return Err(ApiError::MapOperation);
        }
        Ok(())
    }
}

} // verus!
