//! The resource side of the host model: maps, ring readers and the
//! handle-allocation protocol.
//!
//! A resource is named by an opaque integer handle.  The host hands out
//! handles from a counter that never repeats, enforces each map's declared
//! key size, value size and capacity, and keeps the paused flag of every
//! reader.  Each method mirrors one imported function and reports failure
//! under the zero-is-success status convention.

use vstd::prelude::*;
use crate::maps::{MapType, MapUpdateFlags};
use crate::host::{
    Host, HostMap, HostReader, MapEntry, spec_map_handles_unique, spec_map_names_unique,
    spec_reader_handles_unique, spec_map_handles_below, spec_reader_handles_below,
};

verus! {

/// The map a handle names: the latest matching resource wins, though
/// uniqueness of handles makes at most one match possible.
pub open spec fn spec_find_map(s: Seq<HostMap>, handle: u32) -> Option<HostMap>
    decreases s.len(),
{
    if s.len() == 0 {
        None
    } else if s.last().handle == handle {
        Some(s.last())
    } else {
        spec_find_map(s.drop_last(), handle)
    }
}

/// The map a name looks up to.
pub open spec fn spec_find_map_named(s: Seq<HostMap>, name: Seq<char>) -> Option<HostMap>
    decreases s.len(),
{
    if s.len() == 0 {
        None
    } else if s.last().name@ == name {
        Some(s.last())
    } else {
        spec_find_map_named(s.drop_last(), name)
    }
}

/// The reader a handle names.
pub open spec fn spec_find_reader(s: Seq<HostReader>, handle: u32) -> Option<HostReader>
    decreases s.len(),
{
    if s.len() == 0 {
        None
    } else if s.last().handle == handle {
        Some(s.last())
    } else {
        spec_find_reader(s.drop_last(), handle)
    }
}

/// The value stored under a key.
pub open spec fn spec_find_entry(s: Seq<MapEntry>, key: Seq<u8>) -> Option<Seq<u8>>
    decreases s.len(),
{
    if s.len() == 0 {
        None
    } else if s.last().key@ == key {
        Some(s.last().value@)
    } else {
        spec_find_entry(s.drop_last(), key)
    }
}

proof fn lemma_find_map_absent(s: Seq<HostMap>, handle: u32)
    ensures
        (spec_find_map(s, handle) is None) <==> (forall|i: int|
            0 <= i < s.len() ==> s[i].handle != handle),
    decreases s.len(),
{
    if s.len() > 0 {
        lemma_find_map_absent(s.drop_last(), handle);
        assert(forall|i: int| 0 <= i < s.len() - 1 ==> s.drop_last()[i] == s[i]);
    }
}

proof fn lemma_find_map_update(s: Seq<HostMap>, i: int, m: HostMap, handle: u32)
    requires
        spec_map_handles_unique(s),
        0 <= i < s.len(),
        s[i].handle == m.handle,
    ensures
        spec_find_map(s.update(i, m), handle) == if handle == m.handle {
            Some(m)
        } else {
            spec_find_map(s, handle)
        },
    decreases s.len(),
{
    let t = s.update(i, m);
    if i == s.len() - 1 {
        assert(t.last() == m);
        assert(t.drop_last() =~= s.drop_last());
    } else {
        assert(t.last() == s.last());
        assert(t.drop_last() =~= s.drop_last().update(i, m));
        assert(s.last().handle != s[i].handle);
        assert(spec_map_handles_unique(s.drop_last())) by {
            assert(forall|a: int| 0 <= a < s.len() - 1 ==> s.drop_last()[a] == s[a]);
        }
        lemma_find_map_update(s.drop_last(), i, m, handle);
    }
}

proof fn lemma_find_map_remove(s: Seq<HostMap>, i: int, handle: u32)
    requires
        spec_map_handles_unique(s),
        0 <= i < s.len(),
    ensures
        spec_find_map(s.remove(i), handle) == if handle == s[i].handle {
            None::<HostMap>
        } else {
            spec_find_map(s, handle)
        },
    decreases s.len(),
{
    let t = s.remove(i);
    if handle == s[i].handle {
        lemma_find_map_absent(t, handle);
        assert(forall|a: int|
            0 <= a < t.len() ==> t[a] == (if a < i {
                s[a]
            } else {
                s[a + 1]
            }));
        assert(forall|a: int| 0 <= a < t.len() ==> t[a].handle != handle);
    } else {
        if i == s.len() - 1 {
            assert(t =~= s.drop_last());
        } else {
            assert(t.last() == s.last());
            assert(t.drop_last() =~= s.drop_last().remove(i));
            assert(spec_map_handles_unique(s.drop_last())) by {
                assert(forall|a: int| 0 <= a < s.len() - 1 ==> s.drop_last()[a] == s[a]);
            }
            if s.last().handle != handle {
                lemma_find_map_remove(s.drop_last(), i, handle);
            }
        }
    }
}

proof fn lemma_find_map_element(s: Seq<HostMap>, handle: u32)
    ensures
        match spec_find_map(s, handle) {
            Some(m) => m.handle == handle && exists|i: int| 0 <= i < s.len() && s[i] == m,
            None => true,
        },
    decreases s.len(),
{
    if s.len() > 0 && s.last().handle != handle {
        lemma_find_map_element(s.drop_last(), handle);
        if spec_find_map(s.drop_last(), handle) is Some {
            let m = spec_find_map(s.drop_last(), handle)->Some_0;
            let i = choose|i: int| 0 <= i < s.drop_last().len() && s.drop_last()[i] == m;
            assert(s[i] == m);
        }
    }
}

proof fn lemma_find_named_element(s: Seq<HostMap>, name: Seq<char>)
    ensures
        match spec_find_map_named(s, name) {
            Some(m) => m.name@ == name && exists|i: int| 0 <= i < s.len() && s[i] == m,
            None => true,
        },
    decreases s.len(),
{
    if s.len() > 0 && s.last().name@ != name {
        lemma_find_named_element(s.drop_last(), name);
        if spec_find_map_named(s.drop_last(), name) is Some {
            let m = spec_find_map_named(s.drop_last(), name)->Some_0;
            let i = choose|i: int| 0 <= i < s.drop_last().len() && s.drop_last()[i] == m;
            assert(s[i] == m);
        }
    }
}

proof fn lemma_find_reader_remove(s: Seq<HostReader>, i: int, handle: u32)
    requires
        spec_reader_handles_unique(s),
        0 <= i < s.len(),
    ensures
        spec_find_reader(s.remove(i), handle) == if handle == s[i].handle {
            None::<HostReader>
        } else {
            spec_find_reader(s, handle)
        },
    decreases s.len(),
{
    let t = s.remove(i);
    if handle == s[i].handle {
        lemma_find_reader_absent(t, handle);
        assert(forall|a: int|
            0 <= a < t.len() ==> t[a] == (if a < i {
                s[a]
            } else {
                s[a + 1]
            }));
        assert(forall|a: int| 0 <= a < t.len() ==> t[a].handle != handle);
    } else {
        if i == s.len() - 1 {
            assert(t =~= s.drop_last());
        } else {
            assert(t.last() == s.last());
            assert(t.drop_last() =~= s.drop_last().remove(i));
            assert(spec_reader_handles_unique(s.drop_last())) by {
                assert(forall|a: int| 0 <= a < s.len() - 1 ==> s.drop_last()[a] == s[a]);
            }
            if s.last().handle != handle {
                lemma_find_reader_remove(s.drop_last(), i, handle);
            }
        }
    }
}

proof fn lemma_find_reader_absent(s: Seq<HostReader>, handle: u32)
    ensures
        (spec_find_reader(s, handle) is None) <==> (forall|i: int|
            0 <= i < s.len() ==> s[i].handle != handle),
    decreases s.len(),
{
    if s.len() > 0 {
        lemma_find_reader_absent(s.drop_last(), handle);
        assert(forall|i: int| 0 <= i < s.len() - 1 ==> s.drop_last()[i] == s[i]);
    }
}

proof fn lemma_find_named_absent(s: Seq<HostMap>, name: Seq<char>)
    ensures
        (spec_find_map_named(s, name) is None) <==> (forall|i: int|
            0 <= i < s.len() ==> s[i].name@ != name),
    decreases s.len(),
{
    if s.len() > 0 {
        lemma_find_named_absent(s.drop_last(), name);
        assert(forall|i: int| 0 <= i < s.len() - 1 ==> s.drop_last()[i] == s[i]);
    }
}

proof fn lemma_find_named_at(s: Seq<HostMap>, i: int)
    requires
        spec_map_names_unique(s),
        0 <= i < s.len(),
    ensures
        spec_find_map_named(s, s[i].name@) == Some(s[i]),
    decreases s.len(),
{
    if i == s.len() - 1 {
    } else {
        assert(s.last().name@ != s[i].name@);
        assert(spec_map_names_unique(s.drop_last())) by {
            assert(forall|a: int| 0 <= a < s.len() - 1 ==> s.drop_last()[a] == s[a]);
        }
        lemma_find_named_at(s.drop_last(), i);
        assert(s.drop_last()[i] == s[i]);
    }
}

proof fn lemma_find_named_update(s: Seq<HostMap>, i: int, m: HostMap, name: Seq<char>)
    requires
        spec_map_names_unique(s),
        0 <= i < s.len(),
        s[i].name@ == m.name@,
    ensures
        spec_find_map_named(s.update(i, m), name) == if name == m.name@ {
            Some(m)
        } else {
            spec_find_map_named(s, name)
        },
    decreases s.len(),
{
    let t = s.update(i, m);
    if i == s.len() - 1 {
        assert(t.last() == m);
        assert(t.drop_last() =~= s.drop_last());
    } else {
        assert(t.last() == s.last());
        assert(t.drop_last() =~= s.drop_last().update(i, m));
        assert(s.last().name@ != s[i].name@);
        assert(spec_map_names_unique(s.drop_last())) by {
            assert(forall|a: int| 0 <= a < s.len() - 1 ==> s.drop_last()[a] == s[a]);
        }
        lemma_find_named_update(s.drop_last(), i, m, name);
    }
}

proof fn lemma_find_named_remove(s: Seq<HostMap>, i: int, name: Seq<char>)
    requires
        spec_map_names_unique(s),
        0 <= i < s.len(),
    ensures
        spec_find_map_named(s.remove(i), name) == if name == s[i].name@ {
            None::<HostMap>
        } else {
            spec_find_map_named(s, name)
        },
    decreases s.len(),
{
    let t = s.remove(i);
    if name == s[i].name@ {
        lemma_find_named_absent(t, name);
        assert(forall|a: int|
            0 <= a < t.len() ==> t[a] == (if a < i {
                s[a]
            } else {
                s[a + 1]
            }));
        assert(forall|a: int| 0 <= a < t.len() ==> t[a].name@ != name);
    } else {
        if i == s.len() - 1 {
            assert(t =~= s.drop_last());
        } else {
            assert(t.last() == s.last());
            assert(t.drop_last() =~= s.drop_last().remove(i));
            assert(spec_map_names_unique(s.drop_last())) by {
                assert(forall|a: int| 0 <= a < s.len() - 1 ==> s.drop_last()[a] == s[a]);
            }
            if s.last().name@ != name {
                lemma_find_named_remove(s.drop_last(), i, name);
            }
        }
    }
}

proof fn lemma_find_reader_update(s: Seq<HostReader>, i: int, m: HostReader, handle: u32)
    requires
        spec_reader_handles_unique(s),
        0 <= i < s.len(),
        s[i].handle == m.handle,
    ensures
        spec_find_reader(s.update(i, m), handle) == if handle == m.handle {
            Some(m)
        } else {
            spec_find_reader(s, handle)
        },
    decreases s.len(),
{
    let t = s.update(i, m);
    if i == s.len() - 1 {
        assert(t.last() == m);
        assert(t.drop_last() =~= s.drop_last());
    } else {
        assert(t.last() == s.last());
        assert(t.drop_last() =~= s.drop_last().update(i, m));
        assert(s.last().handle != s[i].handle);
        assert(spec_reader_handles_unique(s.drop_last())) by {
            assert(forall|a: int| 0 <= a < s.len() - 1 ==> s.drop_last()[a] == s[a]);
        }
        lemma_find_reader_update(s.drop_last(), i, m, handle);
    }
}

proof fn lemma_find_entry_absent(s: Seq<MapEntry>, key: Seq<u8>)
    ensures
        (spec_find_entry(s, key) is None) <==> (forall|i: int|
            0 <= i < s.len() ==> s[i].key@ != key),
    decreases s.len(),
{
    if s.len() > 0 {
        lemma_find_entry_absent(s.drop_last(), key);
        assert(forall|i: int| 0 <= i < s.len() - 1 ==> s.drop_last()[i] == s[i]);
    }
}

proof fn lemma_find_entry_update(s: Seq<MapEntry>, i: int, e: MapEntry, key: Seq<u8>)
    requires
        forall|a: int, b: int| 0 <= a < b < s.len() ==> s[a].key@ != s[b].key@,
        0 <= i < s.len(),
        s[i].key@ == e.key@,
    ensures
        spec_find_entry(s.update(i, e), key) == if key == e.key@ {
            Some(e.value@)
        } else {
            spec_find_entry(s, key)
        },
    decreases s.len(),
{
    let t = s.update(i, e);
    if i == s.len() - 1 {
        assert(t.last() == e);
        assert(t.drop_last() =~= s.drop_last());
    } else {
        assert(t.last() == s.last());
        assert(t.drop_last() =~= s.drop_last().update(i, e));
        assert(s.last().key@ != s[i].key@);
        assert(forall|a: int| 0 <= a < s.len() - 1 ==> s.drop_last()[a] == s[a]);
        lemma_find_entry_update(s.drop_last(), i, e, key);
    }
}

proof fn lemma_find_entry_remove(s: Seq<MapEntry>, i: int, key: Seq<u8>)
    requires
        forall|a: int, b: int| 0 <= a < b < s.len() ==> s[a].key@ != s[b].key@,
        0 <= i < s.len(),
    ensures
        spec_find_entry(s.remove(i), key) == if key == s[i].key@ {
            None::<Seq<u8>>
        } else {
            spec_find_entry(s, key)
        },
    decreases s.len(),
{
    let t = s.remove(i);
    if key == s[i].key@ {
        lemma_find_entry_absent(t, key);
        assert(forall|a: int|
            0 <= a < t.len() ==> t[a] == (if a < i {
                s[a]
            } else {
                s[a + 1]
            }));
        assert(forall|a: int| 0 <= a < t.len() ==> t[a].key@ != key);
    } else {
        if i == s.len() - 1 {
            assert(t =~= s.drop_last());
        } else {
            assert(t.last() == s.last());
            assert(t.drop_last() =~= s.drop_last().remove(i));
            assert(forall|a: int| 0 <= a < s.len() - 1 ==> s.drop_last()[a] == s[a]);
            if s.last().key@ != key {
                lemma_find_entry_remove(s.drop_last(), i, key);
            }
        }
    }
}

/// Compares two byte strings.
pub fn bytes_eq(a: &[u8], b: &[u8]) -> (r: bool)
    ensures
        r == (a@ == b@),
{
    if a.len() != b.len() {
        return false;
    }
    let mut i: usize = 0;
    while i < a.len()
        invariant
            a@.len() == b@.len(),
            i <= a@.len(),
            forall|j: int| 0 <= j < i ==> a@[j] == b@[j],
        decreases a@.len() - i,
    {
        if a[i] != b[i] {
            return false;
        }
        i = i + 1;
    }
    proof {
        assert(a@ =~= b@);
    }
    true
}

impl Host {
    /// Whether a map with this handle exists.
    pub open spec fn has_map(self, handle: u32) -> bool {
        spec_find_map(self.maps@, handle) is Some
    }

    /// The map resource a handle names.
    pub open spec fn map_at(self, handle: u32) -> HostMap
        recommends
            self.has_map(handle),
    {
        spec_find_map(self.maps@, handle)->Some_0
    }

    /// The contents of a map as a mathematical map from keys to values.
    pub open spec fn map_entries_model(self, handle: u32) -> Map<Seq<u8>, Seq<u8>>
        recommends
            self.has_map(handle),
    {
        Map::new(
            |k: Seq<u8>| spec_find_entry(self.map_at(handle).entries@, k) is Some,
            |k: Seq<u8>| spec_find_entry(self.map_at(handle).entries@, k)->Some_0,
        )
    }

    /// How many entries a map holds.
    pub open spec fn map_count(self, handle: u32) -> nat
        recommends
            self.has_map(handle),
    {
        self.map_at(handle).entries@.len()
    }

    /// The immutable face of a map: name, kind and the declared sizes.
    pub open spec fn map_meta(self, handle: u32) -> (Seq<char>, MapType, u32, u32, u32)
        recommends
            self.has_map(handle),
    {
        let m = self.map_at(handle);
        (m.name@, m.kind, m.key_size, m.value_size, m.max_entries)
    }

    /// The most recent record delivered to a ring-style map, if any.
    pub open spec fn map_ring(self, handle: u32) -> Option<Seq<u8>>
        recommends
            self.has_map(handle),
    {
        match self.map_at(handle).ring {
            Some(r) => Some(r@),
            None => None,
        }
    }

    /// The handle a map name looks up to, if the map exists.
    pub open spec fn map_handle_named(self, name: Seq<char>) -> Option<u32> {
        match spec_find_map_named(self.maps@, name) {
            Some(m) => Some(m.handle),
            None => None,
        }
    }

    /// Whether a reader with this handle exists.
    pub open spec fn has_reader(self, handle: u32) -> bool {
        spec_find_reader(self.readers@, handle) is Some
    }

    /// The reader resource a handle names.
    pub open spec fn reader_at(self, handle: u32) -> HostReader
        recommends
            self.has_reader(handle),
    {
        spec_find_reader(self.readers@, handle)->Some_0
    }

    /// Every map other than `handle` reads the same in both states.
    pub open spec fn other_maps_unchanged(self, other: Host, handle: u32) -> bool {
        forall|h2: u32|
            h2 != handle ==> #[trigger] spec_find_map(self.maps@, h2) == spec_find_map(
                other.maps@,
                h2,
            )
    }

    /// Every reader other than `handle` reads the same in both states.
    pub open spec fn other_readers_unchanged(self, other: Host, handle: u32) -> bool {
        forall|h2: u32|
            h2 != handle ==> #[trigger] spec_find_reader(self.readers@, h2) == spec_find_reader(
                other.readers@,
                h2,
            )
    }

    fn find_map_idx(&self, handle: u32) -> (r: Option<usize>)
        ensures
            match r {
                Some(i) => i < self.maps@.len() && self.maps@[i as int].handle == handle
                    && spec_find_map(self.maps@, handle) == Some(self.maps@[i as int]),
                None => spec_find_map(self.maps@, handle) is None,
            },
    {
        let n = self.maps.len();
        let mut i: usize = n;
        proof {
            assert(self.maps@.take(n as int) =~= self.maps@);
        }
        while i > 0
            invariant
                i <= self.maps@.len(),
                spec_find_map(self.maps@, handle) == spec_find_map(
                    self.maps@.take(i as int),
                    handle,
                ),
            decreases i,
        {
            i = i - 1;
            proof {
                assert(self.maps@.take(i as int + 1).drop_last() =~= self.maps@.take(i as int));
                assert(self.maps@.take(i as int + 1).last() == self.maps@[i as int]);
            }
            if self.maps[i].handle == handle {
                return Some(i);
            }
        }
        proof {
            assert(self.maps@.take(0) =~= Seq::<HostMap>::empty());
        }
        None
    }

    fn find_map_idx_named(&self, name: &String) -> (r: Option<usize>)
        ensures
            match r {
                Some(i) => i < self.maps@.len() && self.maps@[i as int].name@ == name@
                    && spec_find_map_named(self.maps@, name@) == Some(self.maps@[i as int]),
                None => spec_find_map_named(self.maps@, name@) is None,
            },
    {
        let n = self.maps.len();
        let mut i: usize = n;
        proof {
            assert(self.maps@.take(n as int) =~= self.maps@);
        }
        while i > 0
            invariant
                i <= self.maps@.len(),
                spec_find_map_named(self.maps@, name@) == spec_find_map_named(
                    self.maps@.take(i as int),
                    name@,
                ),
            decreases i,
        {
            i = i - 1;
            proof {
                assert(self.maps@.take(i as int + 1).drop_last() =~= self.maps@.take(i as int));
                assert(self.maps@.take(i as int + 1).last() == self.maps@[i as int]);
            }
            if self.maps[i].name == *name {
                return Some(i);
            }
        }
        proof {
            assert(self.maps@.take(0) =~= Seq::<HostMap>::empty());
        }
        None
    }

    fn find_reader_idx(&self, handle: u32) -> (r: Option<usize>)
        ensures
            match r {
                Some(i) => i < self.readers@.len() && self.readers@[i as int].handle == handle
                    && spec_find_reader(self.readers@, handle) == Some(self.readers@[i as int]),
                None => spec_find_reader(self.readers@, handle) is None,
            },
    {
        let n = self.readers.len();
        let mut i: usize = n;
        proof {
            assert(self.readers@.take(n as int) =~= self.readers@);
        }
        while i > 0
            invariant
                i <= self.readers@.len(),
                spec_find_reader(self.readers@, handle) == spec_find_reader(
                    self.readers@.take(i as int),
                    handle,
                ),
            decreases i,
        {
            i = i - 1;
            proof {
                assert(self.readers@.take(i as int + 1).drop_last() =~= self.readers@.take(
                    i as int,
                ));
                assert(self.readers@.take(i as int + 1).last() == self.readers@[i as int]);
            }
            if self.readers[i].handle == handle {
                return Some(i);
            }
        }
        proof {
            assert(self.readers@.take(0) =~= Seq::<HostReader>::empty());
        }
        None
    }
}

impl Host {
    /// Why a map creation would be rejected: a name collision, a zero
    /// size or count in the specification, or handle space exhausted.
    pub open spec fn spec_map_create_rejected(
        self,
        name: Seq<char>,
        key_size: u32,
        value_size: u32,
        max_entries: u32,
    ) -> bool {
        ||| spec_find_map_named(self.maps@, name) is Some
        ||| key_size == 0
        ||| value_size == 0
        ||| max_entries == 0
        ||| self.next_handle == u32::MAX
    }

    /// Looks a map up by name.  Mirrors the map-get import.
    pub fn map_find(&self, name: &str) -> (r: Option<u32>)
        ensures
            r == self.map_handle_named(name@),
    {
        let owned = name.to_owned();
        match self.find_map_idx_named(&owned) {
            Some(i) => Some(self.maps[i].handle),
            None => None,
        }
    }

    /// Creates a map.  Mirrors the map-creation import: on success the
    /// returned handle is fresh — the host never reuses one.
    pub fn map_create(
        &mut self,
        name: &str,
        kind: MapType,
        key_size: u32,
        value_size: u32,
        max_entries: u32,
    ) -> (r: Option<u32>)
        requires
            old(self).wf(),
        ensures
            final(self).wf(),
            final(self).same_records(*old(self)),
            final(self).same_tables(*old(self)),
            final(self).same_log(*old(self)),
            final(self).readers@ == old(self).readers@,
            if old(self).spec_map_create_rejected(name@, key_size, value_size, max_entries) {
                &&& r is None
                &&& final(self).maps@ == old(self).maps@
                &&& final(self).next_handle == old(self).next_handle
            } else {
                &&& r == Some(old(self).next_handle)
                &&& final(self).next_handle == old(self).next_handle + 1
                &&& final(self).has_map(old(self).next_handle)
                &&& final(self).map_meta(old(self).next_handle) == (
                    name@,
                    kind,
                    key_size,
                    value_size,
                    max_entries,
                )
                &&& final(self).map_count(old(self).next_handle) == 0
                &&& final(self).map_entries_model(old(self).next_handle) == Map::<
                    Seq<u8>,
                    Seq<u8>,
                >::empty()
                &&& final(self).map_ring(old(self).next_handle) is None
                &&& final(self).map_handle_named(name@) == Some(old(self).next_handle)
                &&& final(self).other_maps_unchanged(*old(self), old(self).next_handle)
                &&& forall|n2: Seq<char>|
                    n2 != name@ ==> #[trigger] final(self).map_handle_named(n2) == old(
                        self,
                    ).map_handle_named(n2)
            },
    {
        if key_size == 0 || value_size == 0 || max_entries == 0 || self.next_handle
            == u32::MAX {
            return None;
        }
        let owned = name.to_owned();
        if let Some(_i) = self.find_map_idx_named(&owned) {
            return None;
        }
        let h = self.next_handle;
        let m = HostMap {
            handle: h,
            name: owned,
            kind,
            key_size,
            value_size,
            max_entries,
            entries: Vec::new(),
            ring: None,
        };
        self.maps.push(m);
        self.next_handle = h + 1;
        proof {
            let pre = old(self).maps@;
            let post = self.maps@;
            assert(post.drop_last() =~= pre);
            assert(post.last().handle == h && post.last().name@ == name@);
            assert forall|h2: u32| h2 != h implies #[trigger] spec_find_map(post, h2)
                == spec_find_map(pre, h2) by {
                assert(post.drop_last() =~= pre);
            }
            assert forall|n2: Seq<char>| n2 != name@ implies #[trigger] spec_find_map_named(
                post,
                n2,
            ) == spec_find_map_named(pre, n2) by {
                assert(post.drop_last() =~= pre);
            }
            assert(self.map_entries_model(h) =~= Map::<Seq<u8>, Seq<u8>>::empty());
            lemma_find_named_absent(pre, name@);
            assert(spec_map_handles_unique(post)) by {
                assert(forall|a: int| 0 <= a < pre.len() ==> post[a] == pre[a]);
                assert(forall|a: int| 0 <= a < pre.len() ==> pre[a].handle < h);
            }
            assert(spec_map_names_unique(post)) by {
                assert(forall|a: int| 0 <= a < pre.len() ==> post[a] == pre[a]);
                assert(forall|a: int| 0 <= a < pre.len() ==> pre[a].name@ != name@);
            }
            assert(spec_map_handles_below(post, self.next_handle)) by {
                assert(forall|a: int| 0 <= a < pre.len() ==> post[a] == pre[a]);
            }
            assert(forall|a: int| 0 <= a < post.len() ==> (#[trigger] post[a]).wf()) by {
                assert(forall|a: int| 0 <= a < pre.len() ==> post[a] == pre[a]);
                assert(post.last().wf());
            }
        }
        Some(h)
    }

    /// Whether a map update (or a put, which is an update with
    /// [`MapUpdateFlags::UpdateAny`]) succeeds on the current state: the
    /// map must exist, key and value must have the declared sizes, the
    /// flags' presence demand must hold, and an insertion of a new key
    /// must not pass the declared capacity.
    pub open spec fn spec_map_update_ok(
        self,
        handle: u32,
        key: Seq<u8>,
        value: Seq<u8>,
        flags: MapUpdateFlags,
    ) -> bool {
        &&& self.has_map(handle)
        &&& key.len() == self.map_at(handle).key_size
        &&& value.len() == self.map_at(handle).value_size
        &&& match flags {
            MapUpdateFlags::UpdateAny => true,
            MapUpdateFlags::UpdateNoExist => !self.map_entries_model(handle).contains_key(key),
            MapUpdateFlags::UpdateExist => self.map_entries_model(handle).contains_key(key),
        }
        &&& !self.map_entries_model(handle).contains_key(key) ==> self.map_count(handle)
            < self.map_at(handle).max_entries
    }

    /// Stores a value under a key.  Mirrors the map-update import; the
    /// host enforces sizes, the flags' presence demand and the capacity.
    pub fn map_update_raw(
        &mut self,
        handle: u32,
        key: &[u8],
        value: &[u8],
        flags: MapUpdateFlags,
    ) -> (status: u32)
        requires
            old(self).wf(),
        ensures
            final(self).wf(),
            final(self).same_records(*old(self)),
            final(self).same_tables(*old(self)),
            final(self).same_log(*old(self)),
            final(self).readers@ == old(self).readers@,
            final(self).next_handle == old(self).next_handle,
            crate::wire::spec_status_ok(status) == old(self).spec_map_update_ok(
                handle,
                key@,
                value@,
                flags,
            ),
            if old(self).spec_map_update_ok(handle, key@, value@, flags) {
                &&& final(self).has_map(handle)
                &&& final(self).map_meta(handle) == old(self).map_meta(handle)
                &&& final(self).map_ring(handle) == old(self).map_ring(handle)
                &&& final(self).map_entries_model(handle) == old(self).map_entries_model(
                    handle,
                ).insert(key@, value@)
                &&& final(self).map_count(handle) == old(self).map_count(handle) + (if old(
                    self,
                ).map_entries_model(handle).contains_key(key@) {
                    0int
                } else {
                    1int
                })
                &&& final(self).other_maps_unchanged(*old(self), handle)
                &&& forall|n2: Seq<char>|
                    #[trigger] final(self).map_handle_named(n2) == old(self).map_handle_named(n2)
            } else {
                final(self).maps@ == old(self).maps@
            },
    {
        let idx = match self.find_map_idx(handle) {
            Some(i) => i,
            None => { return 1; },
        };
        if key.len() as u64 != self.maps[idx].key_size as u64 || value.len() as u64
            != self.maps[idx].value_size as u64 {
            return 1;
        }
        let present = match find_entry_idx(&self.maps[idx].entries, key) {
            Some(_) => true,
            None => false,
        };
        match flags {
            MapUpdateFlags::UpdateAny => {},
            MapUpdateFlags::UpdateNoExist => {
                if present {
                    return 1;
                }
            },
            MapUpdateFlags::UpdateExist => {
                if !present {
                    return 1;
                }
            },
        }
        if !present && self.maps[idx].entries.len() as u64 >= self.maps[idx].max_entries
            as u64 {
            return 1;
        }
        let ghost pre = self.maps@;
        let mut m = self.maps.remove(idx);
        let ghost pre_entries = m.entries@;
        let e = MapEntry { key: crate::host::copy_bytes(key), value: crate::host::copy_bytes(value) };
        let entry_idx = find_entry_idx(&m.entries, key);
        match entry_idx {
            Some(j) => {
                proof {
                    lemma_find_entry_absent(pre_entries, key@);
                    assert forall|k2: Seq<u8>| k2 != key@ implies #[trigger] spec_find_entry(
                        pre_entries.update(j as int, e),
                        k2,
                    ) == spec_find_entry(pre_entries, k2) by {
                        lemma_find_entry_update(pre_entries, j as int, e, k2);
                    }
                    lemma_find_entry_update(pre_entries, j as int, e, key@);
                }
                m.entries.set(j, e);
            },
            None => {
                m.entries.push(e);
                proof {
                    assert(m.entries@.drop_last() =~= pre_entries);
                    assert forall|k2: Seq<u8>| k2 != key@ implies #[trigger] spec_find_entry(
                        m.entries@,
                        k2,
                    ) == spec_find_entry(pre_entries, k2) by {
                        assert(m.entries@.drop_last() =~= pre_entries);
                    }
                }
            },
        }
        proof {
            // the mutated map still honours its specification
            lemma_find_entry_absent(pre_entries, key@);
            assert(m.wf()) by {
                match entry_idx {
                    Some(j) => {
                        assert(forall|a: int|
                            0 <= a < m.entries@.len() && a != j ==> m.entries@[a]
                                == pre_entries[a]);
                    },
                    None => {
                        assert(forall|a: int|
                            0 <= a < pre_entries.len() ==> m.entries@[a] == pre_entries[a]);
                    },
                }
            }
        }
        self.maps.insert(idx, m);
        proof {
            let post = self.maps@;
            let m2 = post[idx as int];
            assert(post =~= pre.update(idx as int, m2));
            assert(m2.handle == handle);
            lemma_find_map_update(pre, idx as int, m2, handle);
            assert forall|h2: u32| h2 != handle implies #[trigger] spec_find_map(post, h2)
                == spec_find_map(pre, h2) by {
                lemma_find_map_update(pre, idx as int, m2, h2);
            }
            assert forall|n2: Seq<char>| true implies #[trigger] self.map_handle_named(n2) == old(
                self,
            ).map_handle_named(n2) by {
                lemma_find_named_update(pre, idx as int, m2, n2);
                if n2 == m2.name@ {
                    lemma_find_named_at(pre, idx as int);
                }
            }
            assert(self.map_entries_model(handle) =~= old(self).map_entries_model(handle).insert(
                key@,
                value@,
            ));
            assert(final(self).wf()) by {
                assert(forall|a: int| 0 <= a < pre.len() && a != idx ==> post[a] == pre[a]);
                assert(spec_map_handles_unique(post)) by {
                    assert(forall|a: int|
                        0 <= a < post.len() ==> post[a].handle == pre[a].handle);
                }
                assert(spec_map_names_unique(post)) by {
                    assert(forall|a: int| 0 <= a < post.len() ==> post[a].name@ == pre[a].name@);
                }
                assert(spec_map_handles_below(post, self.next_handle)) by {
                    assert(forall|a: int|
                        0 <= a < post.len() ==> post[a].handle == pre[a].handle);
                }
                assert(forall|a: int| 0 <= a < post.len() ==> (#[trigger] post[a]).wf());
            }
        }
        0
    }
}

impl Host {
    /// Whether a lookup succeeds: the map exists, the key has the declared
    /// size, the destination has the declared value size, and the key is
    /// present.
    pub open spec fn spec_map_lookup_ok(
        self,
        handle: u32,
        key: Seq<u8>,
        out_len: nat,
    ) -> bool {
        &&& self.has_map(handle)
        &&& key.len() == self.map_at(handle).key_size
        &&& out_len == self.map_at(handle).value_size
        &&& self.map_entries_model(handle).contains_key(key)
    }

    /// Copies the value stored under a key into a guest buffer.  Mirrors
    /// the map-lookup import: the host writes the whole value through the
    /// packed destination reference.
    pub fn map_lookup_raw(&self, handle: u32, key: &[u8], out: &mut Vec<u8>) -> (status: u32)
        requires
            self.wf(),
        ensures
            final(out).len() == old(out).len(),
            crate::wire::spec_status_ok(status) == self.spec_map_lookup_ok(
                handle,
                key@,
                old(out)@.len() as nat,
            ),
            if self.spec_map_lookup_ok(handle, key@, old(out)@.len() as nat) {
                final(out)@ == self.map_entries_model(handle)[key@]
            } else {
                final(out)@ == old(out)@
            },
    {
        let idx = match self.find_map_idx(handle) {
            Some(i) => i,
            None => { return 1; },
        };
        if key.len() as u64 != self.maps[idx].key_size as u64 || out.len() as u64
            != self.maps[idx].value_size as u64 {
            return 1;
        }
        let j = match find_entry_idx(&self.maps[idx].entries, key) {
            Some(j) => j,
            None => { return 1; },
        };
        let src = &self.maps[idx].entries[j].value;
        let mut p: usize = 0;
        while p < src.len()
            invariant
                p <= src@.len(),
                src@.len() == out@.len(),
                forall|q: int| 0 <= q < p ==> out@[q] == src@[q],
                out@.len() == old(out)@.len(),
            decreases src@.len() - p,
        {
            let b = src[p];
            out.set(p, b);
            p = p + 1;
        }
        proof {
            assert(out@ =~= src@);
        }
        0
    }

    /// Whether a deletion succeeds: the map exists, the key has the
    /// declared size and is present.
    pub open spec fn spec_map_delete_ok(self, handle: u32, key: Seq<u8>) -> bool {
        &&& self.has_map(handle)
        &&& key.len() == self.map_at(handle).key_size
        &&& self.map_entries_model(handle).contains_key(key)
    }

    /// Removes the entry stored under a key.  Mirrors the map-delete
    /// import.
    pub fn map_delete_raw(&mut self, handle: u32, key: &[u8]) -> (status: u32)
        requires
            old(self).wf(),
        ensures
            final(self).wf(),
            final(self).same_records(*old(self)),
            final(self).same_tables(*old(self)),
            final(self).same_log(*old(self)),
            final(self).readers@ == old(self).readers@,
            final(self).next_handle == old(self).next_handle,
            crate::wire::spec_status_ok(status) == old(self).spec_map_delete_ok(handle, key@),
            if old(self).spec_map_delete_ok(handle, key@) {
                &&& final(self).has_map(handle)
                &&& final(self).map_meta(handle) == old(self).map_meta(handle)
                &&& final(self).map_ring(handle) == old(self).map_ring(handle)
                &&& final(self).map_entries_model(handle) == old(self).map_entries_model(
                    handle,
                ).remove(key@)
                &&& final(self).map_count(handle) == old(self).map_count(handle) - 1
                &&& final(self).other_maps_unchanged(*old(self), handle)
                &&& forall|n2: Seq<char>|
                    #[trigger] final(self).map_handle_named(n2) == old(self).map_handle_named(n2)
            } else {
                final(self).maps@ == old(self).maps@
            },
    {
        let idx = match self.find_map_idx(handle) {
            Some(i) => i,
            None => { return 1; },
        };
        if key.len() as u64 != self.maps[idx].key_size as u64 {
            return 1;
        }
        let ghost pre = self.maps@;
        let j = match find_entry_idx(&self.maps[idx].entries, key) {
            Some(j) => j,
            None => { return 1; },
        };
        let mut m = self.maps.remove(idx);
        let ghost pre_entries = m.entries@;
        m.entries.remove(j);
        proof {
            assert forall|k2: Seq<u8>| k2 != key@ implies #[trigger] spec_find_entry(
                m.entries@,
                k2,
            ) == spec_find_entry(pre_entries, k2) by {
                lemma_find_entry_remove(pre_entries, j as int, k2);
            }
            lemma_find_entry_remove(pre_entries, j as int, key@);
            assert(m.wf()) by {
                assert(forall|a: int|
                    0 <= a < m.entries@.len() ==> m.entries@[a] == (if a < j {
                        pre_entries[a]
                    } else {
                        pre_entries[a + 1]
                    }));
            }
        }
        self.maps.insert(idx, m);
        proof {
            let post = self.maps@;
            let m2 = post[idx as int];
            assert(post =~= pre.update(idx as int, m2));
            lemma_find_map_update(pre, idx as int, m2, handle);
            assert forall|h2: u32| h2 != handle implies #[trigger] spec_find_map(post, h2)
                == spec_find_map(pre, h2) by {
                lemma_find_map_update(pre, idx as int, m2, h2);
            }
            assert forall|n2: Seq<char>| true implies #[trigger] self.map_handle_named(n2) == old(
                self,
            ).map_handle_named(n2) by {
                lemma_find_named_update(pre, idx as int, m2, n2);
                if n2 == m2.name@ {
                    lemma_find_named_at(pre, idx as int);
                }
            }
            assert(self.map_entries_model(handle) =~= old(self).map_entries_model(handle).remove(
                key@,
            ));
            assert(final(self).wf()) by {
                assert(forall|a: int| 0 <= a < pre.len() && a != idx ==> post[a] == pre[a]);
                assert(spec_map_handles_unique(post)) by {
                    assert(forall|a: int|
                        0 <= a < post.len() ==> post[a].handle == pre[a].handle);
                }
                assert(spec_map_names_unique(post)) by {
                    assert(forall|a: int| 0 <= a < post.len() ==> post[a].name@ == pre[a].name@);
                }
                assert(spec_map_handles_below(post, self.next_handle)) by {
                    assert(forall|a: int|
                        0 <= a < post.len() ==> post[a].handle == pre[a].handle);
                }
                assert(forall|a: int| 0 <= a < post.len() ==> (#[trigger] post[a]).wf());
            }
        }
        0
    }

    /// Releases a map resource.  Mirrors the map-release import: the
    /// handle stops naming anything; the host never hands it out again.
    pub fn map_release(&mut self, handle: u32) -> (status: u32)
        requires
            old(self).wf(),
        ensures
            final(self).wf(),
            final(self).same_records(*old(self)),
            final(self).same_tables(*old(self)),
            final(self).same_log(*old(self)),
            final(self).readers@ == old(self).readers@,
            final(self).next_handle == old(self).next_handle,
            crate::wire::spec_status_ok(status) == old(self).has_map(handle),
            if old(self).has_map(handle) {
                &&& !final(self).has_map(handle)
                &&& final(self).other_maps_unchanged(*old(self), handle)
                &&& final(self).map_handle_named(old(self).map_at(handle).name@) is None
                &&& forall|n2: Seq<char>|
                    n2 != old(self).map_at(handle).name@
                        ==> #[trigger] final(self).map_handle_named(n2) == old(
                        self,
                    ).map_handle_named(n2)
            } else {
                final(self).maps@ == old(self).maps@
            },
    {
        let idx = match self.find_map_idx(handle) {
            Some(i) => i,
            None => { return 1; },
        };
        let ghost pre = self.maps@;
        let _released = self.maps.remove(idx);
        proof {
            let post = self.maps@;
            lemma_find_map_remove(pre, idx as int, handle);
            assert forall|h2: u32| h2 != handle implies #[trigger] spec_find_map(post, h2)
                == spec_find_map(pre, h2) by {
                lemma_find_map_remove(pre, idx as int, h2);
            }
            lemma_find_named_remove(pre, idx as int, pre[idx as int].name@);
            assert forall|n2: Seq<char>|
                n2 != pre[idx as int].name@ implies #[trigger] final(self).map_handle_named(n2)
                    == old(self).map_handle_named(n2) by {
                lemma_find_named_remove(pre, idx as int, n2);
            }
            assert(final(self).wf()) by {
                assert(forall|a: int|
                    0 <= a < post.len() ==> post[a] == (if a < idx {
                        pre[a]
                    } else {
                        pre[a + 1]
                    }));
            }
        }
        0
    }

    /// Why a reader creation is rejected: the backing map is absent or
    /// not a ring-style map, the entry size is zero, or handle space is
    /// exhausted.
    pub open spec fn spec_reader_create_rejected(
        self,
        map_handle: u32,
        entry_size: u32,
    ) -> bool {
        ||| !self.has_map(map_handle)
        ||| !((self.map_at(map_handle).kind is PerfEventArray) || (self.map_at(
            map_handle,
        ).kind is RingBuf))
        ||| entry_size == 0
        ||| self.next_handle == u32::MAX
    }

    /// Creates an event reader over a ring-style map.  Mirrors the
    /// reader-creation import; a fresh reader starts active (not paused).
    pub fn reader_create(&mut self, map_handle: u32, entry_size: u32, writable: bool) -> (r:
        Option<u32>)
        requires
            old(self).wf(),
        ensures
            final(self).wf(),
            final(self).same_records(*old(self)),
            final(self).same_tables(*old(self)),
            final(self).same_log(*old(self)),
            final(self).maps@ == old(self).maps@,
            if old(self).spec_reader_create_rejected(map_handle, entry_size) {
                &&& r is None
                &&& final(self).readers@ == old(self).readers@
                &&& final(self).next_handle == old(self).next_handle
            } else {
                &&& r == Some(old(self).next_handle)
                &&& final(self).next_handle == old(self).next_handle + 1
                &&& final(self).has_reader(old(self).next_handle)
                &&& final(self).reader_at(old(self).next_handle).map_handle == map_handle
                &&& final(self).reader_at(old(self).next_handle).entry_size == entry_size
                &&& final(self).reader_at(old(self).next_handle).writable == writable
                &&& !final(self).reader_at(old(self).next_handle).paused
                &&& final(self).other_readers_unchanged(*old(self), old(self).next_handle)
            },
    {
        let idx = match self.find_map_idx(map_handle) {
            Some(i) => i,
            None => { return None; },
        };
        let ring_style = match self.maps[idx].kind {
            MapType::PerfEventArray => true,
            MapType::RingBuf => true,
            _ => false,
        };
        if !ring_style || entry_size == 0 || self.next_handle == u32::MAX {
            return None;
        }
        let h = self.next_handle;
        let cell = HostReader { handle: h, map_handle, entry_size, writable, paused: false };
        self.readers.push(cell);
        self.next_handle = h + 1;
        proof {
            let pre = old(self).readers@;
            let post = self.readers@;
            assert(post.drop_last() =~= pre);
            assert forall|h2: u32| h2 != h implies #[trigger] spec_find_reader(post, h2)
                == spec_find_reader(pre, h2) by {
                assert(post.drop_last() =~= pre);
            }
            assert(spec_reader_handles_unique(post)) by {
                assert(forall|a: int| 0 <= a < pre.len() ==> post[a] == pre[a]);
                assert(forall|a: int| 0 <= a < pre.len() ==> pre[a].handle < h);
            }
            assert(spec_reader_handles_below(post, self.next_handle)) by {
                assert(forall|a: int| 0 <= a < pre.len() ==> post[a] == pre[a]);
            }
        }
        Some(h)
    }

    /// Sets the paused flag of a reader.  Mirrors the reader-pause and
    /// reader-resume imports, which always notify the host whatever the
    /// current state.
    pub fn reader_set_paused(&mut self, handle: u32, paused: bool) -> (status: u32)
        requires
            old(self).wf(),
        ensures
            final(self).wf(),
            final(self).same_records(*old(self)),
            final(self).same_tables(*old(self)),
            final(self).same_log(*old(self)),
            final(self).maps@ == old(self).maps@,
            final(self).next_handle == old(self).next_handle,
            crate::wire::spec_status_ok(status) == old(self).has_reader(handle),
            if old(self).has_reader(handle) {
                &&& final(self).has_reader(handle)
                &&& final(self).reader_at(handle).map_handle == old(self).reader_at(
                    handle,
                ).map_handle
                &&& final(self).reader_at(handle).entry_size == old(self).reader_at(
                    handle,
                ).entry_size
                &&& final(self).reader_at(handle).writable == old(self).reader_at(
                    handle,
                ).writable
                &&& final(self).reader_at(handle).paused == paused
                &&& final(self).other_readers_unchanged(*old(self), handle)
            } else {
                final(self).readers@ == old(self).readers@
            },
    {
        let idx = match self.find_reader_idx(handle) {
            Some(i) => i,
            None => { return 1; },
        };
        let ghost pre = self.readers@;
        let r = self.readers[idx];
        let cell = HostReader {
            handle: r.handle,
            map_handle: r.map_handle,
            entry_size: r.entry_size,
            writable: r.writable,
            paused,
        };
        self.readers.set(idx, cell);
        proof {
            let post = self.readers@;
            lemma_find_reader_update(pre, idx as int, cell, handle);
            assert forall|h2: u32| h2 != handle implies #[trigger] spec_find_reader(post, h2)
                == spec_find_reader(pre, h2) by {
                lemma_find_reader_update(pre, idx as int, cell, h2);
            }
            assert(final(self).wf()) by {
                assert(forall|a: int|
                    0 <= a < post.len() ==> post[a].handle == pre[a].handle);
            }
        }
        0
    }

    /// Whether a snapshot read succeeds: the reader exists, a writable
    /// reader is paused, and the backing map holds a record.  The pause
    /// demand is the consistency rule of the protocol: reading a writable
    /// ring while writers may touch it would hand back a torn record.
    pub open spec fn spec_reader_read_ok(self, handle: u32) -> bool {
        &&& self.has_reader(handle)
        &&& (self.reader_at(handle).writable ==> self.reader_at(handle).paused)
        &&& self.has_map(self.reader_at(handle).map_handle)
        &&& self.map_ring(self.reader_at(handle).map_handle) is Some
    }

    /// Copies the most recent record of the backing map into a guest
    /// buffer, up to the buffer's capacity.  Mirrors the reader-read
    /// import.
    pub fn reader_read_raw(&self, handle: u32, dst: &mut Vec<u8>) -> (status: u32)
        requires
            self.wf(),
        ensures
            final(dst).len() == old(dst).len(),
            crate::wire::spec_status_ok(status) == self.spec_reader_read_ok(handle),
            if self.spec_reader_read_ok(handle) {
                ({
                    let rec = self.map_ring(self.reader_at(handle).map_handle)->Some_0;
                    let copied = if rec.len() <= old(dst)@.len() {
                        rec.len() as int
                    } else {
                        old(dst)@.len() as int
                    };
                    final(dst)@ == rec.take(copied) + old(dst)@.skip(copied)
                })
            } else {
                final(dst)@ == old(dst)@
            },
    {
        let ridx = match self.find_reader_idx(handle) {
            Some(i) => i,
            None => { return 1; },
        };
        let r = self.readers[ridx];
        if r.writable && !r.paused {
            return 1;
        }
        let midx = match self.find_map_idx(r.map_handle) {
            Some(i) => i,
            None => { return 1; },
        };
        let rec = match &self.maps[midx].ring {
            Some(rec) => rec,
            None => { return 1; },
        };
        let count = if rec.len() <= dst.len() {
            rec.len()
        } else {
            dst.len()
        };
        let mut p: usize = 0;
        while p < count
            invariant
                p <= count,
                count <= rec@.len(),
                count <= dst@.len(),
                dst@.len() == old(dst)@.len(),
                forall|q: int| 0 <= q < p ==> dst@[q] == rec@[q],
                forall|q: int| p <= q < dst@.len() ==> dst@[q] == old(dst)@[q],
            decreases count - p,
        {
            let b = rec[p];
            dst.set(p, b);
            p = p + 1;
        }
        proof {
            assert(dst@ =~= rec@.take(count as int) + old(dst)@.skip(count as int));
        }
        0
    }

    /// A name that looks up to a handle names an existing map carrying
    /// that name.
    pub proof fn lemma_named_map_exists(self, name: Seq<char>)
        requires
            self.wf(),
            self.map_handle_named(name) is Some,
        ensures
            self.has_map(self.map_handle_named(name)->Some_0),
            self.map_at(self.map_handle_named(name)->Some_0).name@ == name,
    {
        let m = spec_find_map_named(self.maps@, name)->Some_0;
        lemma_find_named_element(self.maps@, name);
        let i = choose|i: int| 0 <= i < self.maps@.len() && self.maps@[i] == m;
        lemma_find_map_absent(self.maps@, m.handle);
        assert(self.maps@[i].handle == m.handle);
        lemma_find_map_element(self.maps@, m.handle);
        let m2 = spec_find_map(self.maps@, m.handle)->Some_0;
        let j = choose|j: int| 0 <= j < self.maps@.len() && self.maps@[j] == m2;
        if i != j {
            assert(self.maps@[i].handle != self.maps@[j].handle);
        }
    }

    /// Releases an event reader.  Mirrors the reader-release import.
    pub fn reader_release(&mut self, handle: u32) -> (status: u32)
        requires
            old(self).wf(),
        ensures
            final(self).wf(),
            final(self).same_records(*old(self)),
            final(self).same_tables(*old(self)),
            final(self).same_log(*old(self)),
            final(self).maps@ == old(self).maps@,
            final(self).next_handle == old(self).next_handle,
            crate::wire::spec_status_ok(status) == old(self).has_reader(handle),
            if old(self).has_reader(handle) {
                &&& !final(self).has_reader(handle)
                &&& final(self).other_readers_unchanged(*old(self), handle)
            } else {
                final(self).readers@ == old(self).readers@
            },
    {
        let idx = match self.find_reader_idx(handle) {
            Some(i) => i,
            None => { return 1; },
        };
        let ghost pre = self.readers@;
        let _released = self.readers.remove(idx);
        proof {
            let post = self.readers@;
            lemma_find_reader_remove(pre, idx as int, handle);
            assert forall|h2: u32| h2 != handle implies #[trigger] spec_find_reader(post, h2)
                == spec_find_reader(pre, h2) by {
                lemma_find_reader_remove(pre, idx as int, h2);
            }
            assert(final(self).wf()) by {
                assert(forall|a: int|
                    0 <= a < post.len() ==> post[a] == (if a < idx {
                        pre[a]
                    } else {
                        pre[a + 1]
                    }));
            }
        }
        0
    }

    /// A record arrives in a ring-style map: the host side of the event
    /// channel.  The guest never calls this across the boundary; it is
    /// how a test double plays the writers the real host multiplexes.
    pub fn push_record(&mut self, map_handle: u32, record: &[u8]) -> (status: u32)
        requires
            old(self).wf(),
        ensures
            final(self).wf(),
            final(self).same_records(*old(self)),
            final(self).same_tables(*old(self)),
            final(self).same_log(*old(self)),
            final(self).readers@ == old(self).readers@,
            final(self).next_handle == old(self).next_handle,
            crate::wire::spec_status_ok(status) == old(self).has_map(map_handle),
            if old(self).has_map(map_handle) {
                &&& final(self).has_map(map_handle)
                &&& final(self).map_meta(map_handle) == old(self).map_meta(map_handle)
                &&& final(self).map_entries_model(map_handle) == old(self).map_entries_model(
                    map_handle,
                )
                &&& final(self).map_count(map_handle) == old(self).map_count(map_handle)
                &&& final(self).map_ring(map_handle) == Some(record@)
                &&& final(self).other_maps_unchanged(*old(self), map_handle)
                &&& forall|n2: Seq<char>|
                    #[trigger] final(self).map_handle_named(n2) == old(self).map_handle_named(n2)
            } else {
                final(self).maps@ == old(self).maps@
            },
    {
        let idx = match self.find_map_idx(map_handle) {
            Some(i) => i,
            None => { return 1; },
        };
        let ghost pre = self.maps@;
        let mut m = self.maps.remove(idx);
        m.ring = Some(crate::host::copy_bytes(record));
        self.maps.insert(idx, m);
        proof {
            let post = self.maps@;
            let m2 = post[idx as int];
            assert(post =~= pre.update(idx as int, m2));
            lemma_find_map_update(pre, idx as int, m2, map_handle);
            assert forall|h2: u32| h2 != map_handle implies #[trigger] spec_find_map(post, h2)
                == spec_find_map(pre, h2) by {
                lemma_find_map_update(pre, idx as int, m2, h2);
            }
            assert forall|n2: Seq<char>| true implies #[trigger] self.map_handle_named(n2) == old(
                self,
            ).map_handle_named(n2) by {
                lemma_find_named_update(pre, idx as int, m2, n2);
                if n2 == m2.name@ {
                    lemma_find_named_at(pre, idx as int);
                }
            }
            assert(self.map_entries_model(map_handle) =~= old(self).map_entries_model(
                map_handle,
            ));
            assert(final(self).wf()) by {
                assert(forall|a: int| 0 <= a < pre.len() && a != idx ==> post[a] == pre[a]);
                assert(spec_map_handles_unique(post)) by {
                    assert(forall|a: int|
                        0 <= a < post.len() ==> post[a].handle == pre[a].handle);
                }
                assert(spec_map_names_unique(post)) by {
                    assert(forall|a: int| 0 <= a < post.len() ==> post[a].name@ == pre[a].name@);
                }
                assert(spec_map_handles_below(post, self.next_handle)) by {
                    assert(forall|a: int|
                        0 <= a < post.len() ==> post[a].handle == pre[a].handle);
                }
                assert(forall|a: int| 0 <= a < post.len() ==> (#[trigger] post[a]).wf());
            }
        }
        0
    }
}

/// Finds the position of a key among a map's entries.
fn find_entry_idx(entries: &Vec<MapEntry>, key: &[u8]) -> (r: Option<usize>)
    ensures
        match r {
            Some(i) => i < entries@.len() && entries@[i as int].key@ == key@ && spec_find_entry(
                entries@,
                key@,
            ) == Some(entries@[i as int].value@),
            None => spec_find_entry(entries@, key@) is None,
        },
{
    let n = entries.len();
    let mut i: usize = n;
    proof {
        assert(entries@.take(n as int) =~= entries@);
    }
    while i > 0
        invariant
            i <= entries@.len(),
            spec_find_entry(entries@, key@) == spec_find_entry(entries@.take(i as int), key@),
        decreases i,
    {
        i = i - 1;
        proof {
            assert(entries@.take(i as int + 1).drop_last() =~= entries@.take(i as int));
            assert(entries@.take(i as int + 1).last() == entries@[i as int]);
        }
        if bytes_eq(entries[i].key.as_slice(), key) {
            return Some(i);
        }
    }
    proof {
        assert(entries@.take(0) =~= Seq::<MapEntry>::empty());
    }
    None
}

} // verus!
