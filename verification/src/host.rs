//! The host runtime as an explicit state model.
//!
//! The boundary calls of the runtime behave like free global functions with
//! no instance state.  This library instead models them as methods of a
//! single [`Host`] capability that is passed explicitly to every component,
//! so that each call's effect is a contract over the host's state and a
//! test double needs no real runtime behind it.
//!
//! The methods of `Host` mirror the imported functions one for one and keep
//! their calling conventions: statuses are `0` for success and nonzero for
//! failure, the scalar read reports failure through a guest-supplied output
//! slot, and the buffer read returns `-1` for failure or a byte count.  The
//! one departure forced by the model is that a guest buffer is handed over
//! as a borrow instead of a packed address (see [`crate::wire`] for the
//! packed form): a reference cannot name invalid memory, so the
//! writes-through-a-bad-address fault class of the real boundary cannot
//! arise here.

use vstd::prelude::*;
use crate::maps::{MapType, MapUpdateFlags};
use crate::syscalls::SyscallParam;

verus! {

/// One scalar field slot: a (field reference, data reference) pair and the
/// 64-bit transfer word most recently stored for it.
pub struct ScalarCell {
    pub field: u32,
    pub data: u32,
    pub word: u64,
}

/// One buffer field slot: a (field reference, data reference) pair and the
/// bytes most recently stored for it.
pub struct BufferCell {
    pub field: u32,
    pub data: u32,
    pub bytes: Vec<u8>,
}

/// One tag attached to a field definition.
pub struct TagCell {
    pub field: u32,
    pub tag: String,
}

/// One key/value pair of a host-side map.
pub struct MapEntry {
    pub key: Vec<u8>,
    pub value: Vec<u8>,
}

/// One host-side map resource.
pub struct HostMap {
    pub handle: u32,
    pub name: String,
    pub kind: MapType,
    pub key_size: u32,
    pub value_size: u32,
    pub max_entries: u32,
    pub entries: Vec<MapEntry>,
    /// The most recent record delivered to a ring-style map, if any.
    pub ring: Option<Vec<u8>>,
}

/// One host-side event reader resource.
#[derive(Clone, Copy)]
pub struct HostReader {
    pub handle: u32,
    pub map_handle: u32,
    pub entry_size: u32,
    pub writable: bool,
    pub paused: bool,
}

/// One entry of the system-call metadata table.
pub struct SyscallInfo {
    pub id: u16,
    pub name: String,
    pub params: Vec<SyscallParam>,
}

/// One named configuration parameter.
pub struct ParamCell {
    pub key: String,
    pub value: String,
}

/// One emitted log line.
pub struct LogLine {
    pub level: u32,
    pub message: String,
}

/// The state of the host runtime, as far as the guest can observe it.
pub struct Host {
    pub scalars: Vec<ScalarCell>,
    pub buffers: Vec<BufferCell>,
    pub tags: Vec<TagCell>,
    pub maps: Vec<HostMap>,
    pub readers: Vec<HostReader>,
    /// The next handle the host will assign; strictly above every handle
    /// already given out, so handles are never reused.
    pub next_handle: u32,
    pub syscalls: Vec<SyscallInfo>,
    pub symbols: Vec<String>,
    pub params: Vec<ParamCell>,
    pub log: Vec<LogLine>,
}

/// No two maps share a handle.
pub open spec fn spec_map_handles_unique(s: Seq<HostMap>) -> bool {
    forall|i: int, j: int| 0 <= i < j < s.len() ==> s[i].handle != s[j].handle
}

/// No two maps share a name: the host rejects a colliding creation.
pub open spec fn spec_map_names_unique(s: Seq<HostMap>) -> bool {
    forall|i: int, j: int| 0 <= i < j < s.len() ==> s[i].name@ != s[j].name@
}

/// No two readers share a handle.
pub open spec fn spec_reader_handles_unique(s: Seq<HostReader>) -> bool {
    forall|i: int, j: int| 0 <= i < j < s.len() ==> s[i].handle != s[j].handle
}

/// Every map handle is below the allocation bound.
pub open spec fn spec_map_handles_below(s: Seq<HostMap>, bound: u32) -> bool {
    forall|i: int| 0 <= i < s.len() ==> s[i].handle < bound
}

/// Every reader handle is below the allocation bound.
pub open spec fn spec_reader_handles_below(s: Seq<HostReader>, bound: u32) -> bool {
    forall|i: int| 0 <= i < s.len() ==> s[i].handle < bound
}

impl HostMap {
    /// A map resource honours its own specification: entry keys are
    /// distinct, every key and value has the declared size, and the entry
    /// count never passes the declared maximum.
    pub open spec fn wf(self) -> bool {
        &&& forall|i: int, j: int|
            0 <= i < j < self.entries@.len() ==> self.entries@[i].key@ != self.entries@[j].key@
        &&& forall|i: int|
            0 <= i < self.entries@.len() ==> self.entries@[i].key@.len() == self.key_size
                && self.entries@[i].value@.len() == self.value_size
        &&& self.entries@.len() <= self.max_entries
    }
}

/// The word stored for a (field, data) pair: the latest matching cell wins,
/// so a re-set shadows what was there before.
pub open spec fn spec_find_scalar(cells: Seq<ScalarCell>, field: u32, data: u32) -> Option<u64>
    decreases cells.len(),
{
    if cells.len() == 0 {
        None
    } else if cells.last().field == field && cells.last().data == data {
        Some(cells.last().word)
    } else {
        spec_find_scalar(cells.drop_last(), field, data)
    }
}

/// The bytes stored for a (field, data) pair: the latest matching cell wins.
pub open spec fn spec_find_buffer(cells: Seq<BufferCell>, field: u32, data: u32) -> Option<
    Seq<u8>,
>
    decreases cells.len(),
{
    if cells.len() == 0 {
        None
    } else if cells.last().field == field && cells.last().data == data {
        Some(cells.last().bytes@)
    } else {
        spec_find_buffer(cells.drop_last(), field, data)
    }
}

impl Host {
    /// Well-formedness of the host state: resource handles and map names
    /// are unique, handles stay below the allocation bound, every map
    /// honours its specification, and parameter values are plain ASCII
    /// text as the C-string interop convention assumes.
    pub open spec fn wf(self) -> bool {
        &&& spec_map_handles_unique(self.maps@)
        &&& spec_map_names_unique(self.maps@)
        &&& spec_reader_handles_unique(self.readers@)
        &&& spec_map_handles_below(self.maps@, self.next_handle)
        &&& spec_reader_handles_below(self.readers@, self.next_handle)
        &&& forall|i: int| 0 <= i < self.maps@.len() ==> (#[trigger] self.maps@[i]).wf()
        &&& forall|i: int|
            0 <= i < self.params@.len() ==> vstd::utf8::is_ascii_chars(
                (#[trigger] self.params@[i]).value@,
            )
    }

    /// The scalar store as a map from (field, data) pairs to transfer words.
    pub open spec fn scalars_model(self) -> Map<(u32, u32), u64> {
        Map::new(
            |k: (u32, u32)| spec_find_scalar(self.scalars@, k.0, k.1) is Some,
            |k: (u32, u32)| spec_find_scalar(self.scalars@, k.0, k.1)->Some_0,
        )
    }

    /// The buffer store as a map from (field, data) pairs to byte sequences.
    pub open spec fn buffers_model(self) -> Map<(u32, u32), Seq<u8>> {
        Map::new(
            |k: (u32, u32)| spec_find_buffer(self.buffers@, k.0, k.1) is Some,
            |k: (u32, u32)| spec_find_buffer(self.buffers@, k.0, k.1)->Some_0,
        )
    }

    /// The tags attached so far, in order of attachment.
    pub open spec fn tags_model(self) -> Seq<(u32, Seq<char>)> {
        self.tags@.map(|i: int, t: TagCell| (t.field, t.tag@))
    }

    /// The log emitted so far, in order of emission.
    pub open spec fn log_model(self) -> Seq<(u32, Seq<char>)> {
        self.log@.map(|i: int, l: LogLine| (l.level, l.message@))
    }

    /// The record-field stores of two host states agree.
    pub open spec fn same_records(self, other: Host) -> bool {
        &&& self.scalars@ == other.scalars@
        &&& self.buffers@ == other.buffers@
        &&& self.tags@ == other.tags@
    }

    /// The map and reader resources of two host states agree.
    pub open spec fn same_resources(self, other: Host) -> bool {
        &&& self.maps@ == other.maps@
        &&& self.readers@ == other.readers@
        &&& self.next_handle == other.next_handle
    }

    /// The lookup tables of two host states agree.
    pub open spec fn same_tables(self, other: Host) -> bool {
        &&& self.syscalls@ == other.syscalls@
        &&& self.symbols@ == other.symbols@
        &&& self.params@ == other.params@
    }

    /// The logs of two host states agree.
    pub open spec fn same_log(self, other: Host) -> bool {
        self.log@ == other.log@
    }

    /// A host with no records, no resources, empty lookup tables and an
    /// empty log.
    pub fn new() -> (host: Host)
        ensures
            host.wf(),
            host.scalars_model() == Map::<(u32, u32), u64>::empty(),
            host.buffers_model() == Map::<(u32, u32), Seq<u8>>::empty(),
            host.tags_model() == Seq::<(u32, Seq<char>)>::empty(),
            host.maps@.len() == 0,
            host.readers@.len() == 0,
            host.next_handle == 1,
            host.syscalls@.len() == 0,
            host.symbols@.len() == 0,
            host.params@.len() == 0,
            host.log_model() == Seq::<(u32, Seq<char>)>::empty(),
    {
        let host = Host {
            scalars: Vec::new(),
            buffers: Vec::new(),
            tags: Vec::new(),
            maps: Vec::new(),
            readers: Vec::new(),
            next_handle: 1,
            syscalls: Vec::new(),
            symbols: Vec::new(),
            params: Vec::new(),
            log: Vec::new(),
        };
        proof {
            assert(host.scalars_model() =~= Map::<(u32, u32), u64>::empty());
            assert(host.buffers_model() =~= Map::<(u32, u32), Seq<u8>>::empty());
            assert(host.tags_model() =~= Seq::<(u32, Seq<char>)>::empty());
            assert(host.log_model() =~= Seq::<(u32, Seq<char>)>::empty());
        }
        host
    }

    /// Reads the scalar slot of a (field, data) pair.
    ///
    /// Mirrors the scalar-get import: failure is reported by writing a
    /// nonzero value through the guest-supplied output slot, not through
    /// the return value.  On success the slot is left as the caller set it,
    /// which is why the guest must pre-zero it.  The kind code selects the
    /// width host-side; the model stores whole transfer words, so it does
    /// not read it.
    pub fn field_get_scalar(&self, field: u32, data: u32, _kind: u32, err: &mut u32) -> (word:
        u64)
        ensures
            match spec_find_scalar(self.scalars@, field, data) {
                Some(w) => word == w && *final(err) == *old(err),
                None => *final(err) != 0,
            },
    {
        let n = self.scalars.len();
        let mut i: usize = n;
        proof {
            assert(self.scalars@.take(n as int) =~= self.scalars@);
        }
        while i > 0
            invariant
                i <= self.scalars@.len(),
                spec_find_scalar(self.scalars@, field, data) == spec_find_scalar(
                    self.scalars@.take(i as int),
                    field,
                    data,
                ),
            decreases i,
        {
            i = i - 1;
            let c = &self.scalars[i];
            proof {
                assert(self.scalars@.take(i as int + 1).drop_last() =~= self.scalars@.take(
                    i as int,
                ));
                assert(self.scalars@.take(i as int + 1).last() == self.scalars@[i as int]);
            }
            if c.field == field && c.data == data {
                return c.word;
            }
        }
        proof {
            assert(self.scalars@.take(0) =~= Seq::<ScalarCell>::empty());
        }
        *err = 1;
        0
    }

    /// Stores a transfer word in the scalar slot of a (field, data) pair.
    ///
    /// Mirrors the field-set import under the zero-is-success convention;
    /// the model accepts every store.  The kind code selects the width
    /// host-side; the model stores whole transfer words.
    pub fn field_set_scalar(&mut self, field: u32, data: u32, _kind: u32, word: u64) -> (status:
        u32)
        ensures
            crate::wire::spec_status_ok(status),
            final(self).scalars_model() == old(self).scalars_model().insert((field, data), word),
            final(self).buffers@ == old(self).buffers@,
            final(self).tags@ == old(self).tags@,
            final(self).same_resources(*old(self)),
            final(self).same_tables(*old(self)),
            final(self).same_log(*old(self)),
    {
        let cell = ScalarCell { field, data, word };
        self.scalars.push(cell);
        proof {
            let pre = old(self).scalars@;
            let post = self.scalars@;
            assert(post.drop_last() =~= pre);
            assert(post.last().field == field && post.last().data == data && post.last().word
                == word);
            assert forall|f2: u32, d2: u32| !(f2 == field && d2 == data) implies spec_find_scalar(
                post,
                f2,
                d2,
            ) == spec_find_scalar(pre, f2, d2) by {
                assert(post.drop_last() =~= pre);
            }
            assert(self.scalars_model() =~= old(self).scalars_model().insert(
                (field, data),
                word,
            ));
        }
        0
    }

    /// Stores bytes in the buffer slot of a (field, data) pair.
    ///
    /// Mirrors the field-set import applied to a buffer kind: the real call
    /// receives a packed reference to the guest bytes; the model receives
    /// the bytes themselves.
    pub fn field_set_buffer(&mut self, field: u32, data: u32, src: &[u8]) -> (status: u32)
        ensures
            crate::wire::spec_status_ok(status),
            final(self).buffers_model() == old(self).buffers_model().insert((field, data), src@),
            final(self).scalars@ == old(self).scalars@,
            final(self).tags@ == old(self).tags@,
            final(self).same_resources(*old(self)),
            final(self).same_tables(*old(self)),
            final(self).same_log(*old(self)),
    {
        let cell = BufferCell { field, data, bytes: crate::host::copy_bytes(src) };
        self.buffers.push(cell);
        proof {
            let pre = old(self).buffers@;
            let post = self.buffers@;
            assert(post.drop_last() =~= pre);
            assert forall|f2: u32, d2: u32| !(f2 == field && d2 == data) implies spec_find_buffer(
                post,
                f2,
                d2,
            ) == spec_find_buffer(pre, f2, d2) by {
                assert(post.drop_last() =~= pre);
            }
            assert(self.buffers_model() =~= old(self).buffers_model().insert(
                (field, data),
                src@,
            ));
        }
        0
    }

    /// Copies the buffer slot of a (field, data) pair into a guest buffer.
    ///
    /// Mirrors the buffer-get import: the host writes at most the
    /// destination's capacity and returns the number of bytes written, or
    /// `-1` when the slot is absent.  The destination keeps its length;
    /// bytes past the written count keep their old values.
    pub fn field_get_buffer(&self, field: u32, data: u32, dst: &mut Vec<u8>) -> (ret: i32)
        requires
            old(dst).len() <= 0x7fff_ffff,
        ensures
            final(dst).len() == old(dst).len(),
            match spec_find_buffer(self.buffers@, field, data) {
                Some(bytes) => {
                    &&& !crate::wire::spec_read_failed(ret)
                    &&& 0 <= ret
                    &&& ret as int == if bytes.len() <= old(dst).len() {
                        bytes.len() as int
                    } else {
                        old(dst).len() as int
                    }
                    &&& final(dst)@ == bytes.take(ret as int) + old(dst)@.skip(ret as int)
                },
                None => crate::wire::spec_read_failed(ret) && final(dst)@ == old(dst)@,
            },
    {
        let n = self.buffers.len();
        let mut i: usize = n;
        proof {
            assert(self.buffers@.take(n as int) =~= self.buffers@);
        }
        while i > 0
            invariant
                i <= self.buffers@.len(),
                dst@ == old(dst)@,
                old(dst).len() <= 0x7fff_ffff,
                spec_find_buffer(self.buffers@, field, data) == spec_find_buffer(
                    self.buffers@.take(i as int),
                    field,
                    data,
                ),
            decreases i,
        {
            i = i - 1;
            let c = &self.buffers[i];
            proof {
                assert(self.buffers@.take(i as int + 1).drop_last() =~= self.buffers@.take(
                    i as int,
                ));
                assert(self.buffers@.take(i as int + 1).last() == self.buffers@[i as int]);
            }
            if c.field == field && c.data == data {
                let count = if c.bytes.len() <= dst.len() {
                    c.bytes.len()
                } else {
                    dst.len()
                };
                let mut j: usize = 0;
                while j < count
                    invariant
                        j <= count,
                        count <= c.bytes@.len(),
                        count <= dst@.len(),
                        dst@.len() == old(dst)@.len(),
                        forall|p: int| 0 <= p < j ==> dst@[p] == c.bytes@[p],
                        forall|p: int| j <= p < dst@.len() ==> dst@[p] == old(dst)@[p],
                    decreases count - j,
                {
                    let b = c.bytes[j];
                    dst.set(j, b);
                    j = j + 1;
                }
                proof {
                    assert(dst@ =~= c.bytes@.take(count as int) + old(dst)@.skip(count as int));
                }
                return count as i32;
            }
        }
        proof {
            assert(self.buffers@.take(0) =~= Seq::<BufferCell>::empty());
        }
        -1
    }

    /// Attaches a tag to a field definition.
    ///
    /// Mirrors the tag-add import under the zero-is-success convention; the
    /// model accepts every tag.
    pub fn field_add_tag(&mut self, field: u32, tag: &str) -> (status: u32)
        ensures
            crate::wire::spec_status_ok(status),
            final(self).tags_model() == old(self).tags_model().push((field, tag@)),
            final(self).scalars@ == old(self).scalars@,
            final(self).buffers@ == old(self).buffers@,
            final(self).same_resources(*old(self)),
            final(self).same_tables(*old(self)),
            final(self).same_log(*old(self)),
    {
        let cell = TagCell { field, tag: tag.to_owned() };
        self.tags.push(cell);
        proof {
            assert(self.tags_model() =~= old(self).tags_model().push((field, tag@)));
        }
        0
    }

    /// Appends a line to the host's log.
    ///
    /// Mirrors the log import: fire and forget, no return value, no failure
    /// signalled.
    pub fn host_log(&mut self, level: u32, message: &str)
        ensures
            final(self).log_model() == old(self).log_model().push((level, message@)),
            final(self).same_records(*old(self)),
            final(self).same_resources(*old(self)),
            final(self).same_tables(*old(self)),
    {
        let line = LogLine { level, message: message.to_owned() };
        self.log.push(line);
        proof {
            assert(self.log_model() =~= old(self).log_model().push((level, message@)));
        }
    }
}

/// Copies a byte slice into a fresh vector.
pub fn copy_bytes(src: &[u8]) -> (out: Vec<u8>)
    ensures
        out@ == src@,
{
    let mut out: Vec<u8> = Vec::new();
    let mut i: usize = 0;
    while i < src.len()
        invariant
            i <= src@.len(),
            out@ == src@.take(i as int),
        decreases src@.len() - i,
    {
        let b = src[i];
        out.push(b);
        proof {
            assert(out@ =~= src@.take(i as int + 1));
        }
        i = i + 1;
    }
    proof {
        assert(src@.take(src@.len() as int) =~= src@);
    }
    out
}

} // verus!
