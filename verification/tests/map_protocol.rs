use api::error::ApiError;
use api::host::Host;
use api::maps::{MapHandle, MapSpec, MapType, MapUpdateFlags};
use api::reader::EventReader;

fn hash_map_spec(name: &str, max_entries: u32) -> MapSpec {
    MapSpec {
        name: name.to_string(),
        map_type: MapType::Hash,
        key_size: 4,
        value_size: 4,
        max_entries,
    }
}

#[test]
fn lookup_by_name_misses_and_hits() {
    let mut host = Host::new();
    match MapHandle::get(&host, "nonexistent") {
        Err(e) => assert_eq!(e, ApiError::NotFound),
        Ok(_) => panic!("a missing map must not look up"),
    }

    let created = MapHandle::new(&mut host, hash_map_spec("map_test", 1)).unwrap();
    assert!(created.is_owned());

    let borrowed = MapHandle::get(&host, "map_test").unwrap();
    assert!(!borrowed.is_owned());
    assert_eq!(borrowed.handle(), created.handle());

    // releasing a borrowed handle is the documented no-op
    borrowed.release(&mut host).unwrap();
    assert!(MapHandle::get(&host, "map_test").is_ok());

    // releasing the owned handle frees the resource
    created.release(&mut host).unwrap();
    assert_eq!(
        MapHandle::get(&host, "map_test").err(),
        Some(ApiError::NotFound)
    );
}

#[test]
fn creation_rejects_bad_specifications() {
    let mut host = Host::new();
    let mut spec = hash_map_spec("empty_key", 8);
    spec.key_size = 0;
    assert_eq!(MapHandle::new(&mut host, spec).err(), Some(ApiError::Creation));

    MapHandle::new(&mut host, hash_map_spec("taken", 8)).unwrap();
    assert_eq!(
        MapHandle::new(&mut host, hash_map_spec("taken", 8)).err(),
        Some(ApiError::Creation)
    );
}

#[test]
fn map_crud_round_trip() {
    let mut host = Host::new();
    let m = MapHandle::new(&mut host, hash_map_spec("crud", 8)).unwrap();

    let key = 42u32.to_le_bytes();
    let v1 = 1001u32.to_le_bytes();
    let v2 = 2002u32.to_le_bytes();
    let mut out = vec![0u8; 4];

    m.put(&mut host, &key, &v1).unwrap();
    m.lookup(&host, &key, &mut out).unwrap();
    assert_eq!(out, v1.to_vec());

    m.update(&mut host, &key, &v2, MapUpdateFlags::UpdateExist).unwrap();
    m.lookup(&host, &key, &mut out).unwrap();
    assert_eq!(out, v2.to_vec());

    m.delete(&mut host, &key).unwrap();
    assert_eq!(m.lookup(&host, &key, &mut out), Err(ApiError::MapOperation));

    // deleting again finds nothing either
    assert_eq!(m.delete(&mut host, &key), Err(ApiError::MapOperation));
}

#[test]
fn update_flags_bind_to_key_presence() {
    let mut host = Host::new();
    let m = MapHandle::new(&mut host, hash_map_spec("flags", 8)).unwrap();
    let key = 7u32.to_le_bytes();
    let val = 9u32.to_le_bytes();
    let other = 11u32.to_le_bytes();

    // create-only succeeds on an absent key, then fails on the present one
    m.update(&mut host, &key, &val, MapUpdateFlags::UpdateNoExist).unwrap();
    assert_eq!(
        m.update(&mut host, &key, &other, MapUpdateFlags::UpdateNoExist),
        Err(ApiError::MapOperation)
    );

    // update-only succeeds on the present key, then fails once it is gone
    m.update(&mut host, &key, &other, MapUpdateFlags::UpdateExist).unwrap();
    m.delete(&mut host, &key).unwrap();
    assert_eq!(
        m.update(&mut host, &key, &val, MapUpdateFlags::UpdateExist),
        Err(ApiError::MapOperation)
    );
}

#[test]
fn capacity_of_one_rejects_a_second_key() {
    let mut host = Host::new();
    let m = MapHandle::new(&mut host, hash_map_spec("map_test", 1)).unwrap();

    let k1 = 42u32.to_le_bytes();
    let k2 = 0xdeadu32.to_le_bytes();

    m.put(&mut host, &k1, &43u32.to_le_bytes()).unwrap();
    assert_eq!(
        m.put(&mut host, &k2, &0xcafeu32.to_le_bytes()),
        Err(ApiError::MapOperation)
    );

    // overwriting the present key is still allowed
    m.put(&mut host, &k1, &44u32.to_le_bytes()).unwrap();
    let mut out = vec![0u8; 4];
    m.lookup(&host, &k1, &mut out).unwrap();
    assert_eq!(out, 44u32.to_le_bytes().to_vec());
}

#[test]
fn wrongly_sized_keys_and_values_are_rejected() {
    let mut host = Host::new();
    let m = MapHandle::new(&mut host, hash_map_spec("sizes", 4)).unwrap();
    assert_eq!(
        m.put(&mut host, &[1, 2, 3], &9u32.to_le_bytes()),
        Err(ApiError::MapOperation)
    );
    assert_eq!(
        m.put(&mut host, &7u32.to_le_bytes(), &[1]),
        Err(ApiError::MapOperation)
    );
    let mut short = vec![0u8; 2];
    m.put(&mut host, &7u32.to_le_bytes(), &9u32.to_le_bytes()).unwrap();
    assert_eq!(
        m.lookup(&host, &7u32.to_le_bytes(), &mut short),
        Err(ApiError::MapOperation)
    );
}

/// A C-layout key: two 32-bit fields, one 8-bit field, three pad bytes.
fn struct_key(a: i32, b: i32, c: i8) -> Vec<u8> {
    let mut k = Vec::new();
    k.extend_from_slice(&a.to_le_bytes());
    k.extend_from_slice(&b.to_le_bytes());
    k.push(c as u8);
    k.extend_from_slice(&[0u8; 3]);
    k
}

#[test]
fn borrowed_handle_runs_the_full_crud_flow() {
    let mut host = Host::new();
    MapHandle::new(
        &mut host,
        MapSpec {
            name: "test_map".to_string(),
            map_type: MapType::Hash,
            key_size: 12,
            value_size: 4,
            max_entries: 16,
        },
    )
    .unwrap();

    let m = MapHandle::get(&host, "test_map").unwrap();
    assert!(!m.is_owned());

    let key = struct_key(42, 42, 43);
    let expected = 42i32.to_le_bytes();
    let newer = 43i32.to_le_bytes();
    let mut val = vec![0u8; 4];

    m.put(&mut host, &key, &expected).unwrap();
    m.lookup(&host, &key, &mut val).unwrap();
    assert_eq!(val, expected.to_vec());

    m.update(&mut host, &key, &newer, MapUpdateFlags::UpdateExist).unwrap();
    m.lookup(&host, &key, &mut val).unwrap();
    assert_eq!(val, newer.to_vec());

    m.delete(&mut host, &key).unwrap();
    m.put(&mut host, &key, &val).unwrap();

    // create-only on the now-present key must fail, update-only succeed
    assert_eq!(
        m.update(&mut host, &key, &newer, MapUpdateFlags::UpdateNoExist),
        Err(ApiError::MapOperation)
    );
    m.update(&mut host, &key, &newer, MapUpdateFlags::UpdateExist).unwrap();

    m.delete(&mut host, &key).unwrap();
    assert_eq!(m.delete(&mut host, &key), Err(ApiError::MapOperation));

    // the borrowed handle's scope end releases nothing
    m.release(&mut host).unwrap();
    assert!(MapHandle::get(&host, "test_map").is_ok());
}

fn ring_map_spec(name: &str) -> MapSpec {
    MapSpec {
        name: name.to_string(),
        map_type: MapType::PerfEventArray,
        key_size: 4,
        value_size: 4,
        max_entries: 64,
    }
}

#[test]
fn reader_must_pause_before_reading() {
    let mut host = Host::new();
    let events = MapHandle::new(&mut host, ring_map_spec("events")).unwrap();
    let mut reader = EventReader::new(&mut host, &events, 4096, true).unwrap();
    assert!(reader.is_writable());
    assert!(!reader.is_paused());

    let record = [42u8, 42, 43, 0];
    assert_eq!(host.push_record(events.handle(), &record), 0);

    let mut sample = vec![0u8; 16];
    assert_eq!(reader.read(&host, &mut sample), Err(ApiError::InvalidState));
    assert_eq!(sample, vec![0u8; 16]);

    reader.pause(&mut host).unwrap();
    assert!(reader.is_paused());
    reader.read(&host, &mut sample).unwrap();
    assert_eq!(&sample[..4], &record);
    assert_eq!(&sample[4..], &[0u8; 12]);

    reader.resume(&mut host).unwrap();
    assert!(!reader.is_paused());
    assert_eq!(reader.read(&host, &mut sample), Err(ApiError::InvalidState));
}

#[test]
fn reader_sees_only_the_most_recent_record() {
    let mut host = Host::new();
    let events = MapHandle::new(&mut host, ring_map_spec("events")).unwrap();
    let mut reader = EventReader::new(&mut host, &events, 4096, true).unwrap();

    host.push_record(events.handle(), &[1, 1, 1, 1]);
    host.push_record(events.handle(), &[2, 2, 2, 2]);

    reader.pause(&mut host).unwrap();
    let mut sample = vec![0u8; 4];
    reader.read(&host, &mut sample).unwrap();
    assert_eq!(sample, vec![2, 2, 2, 2]);

    reader.release(&mut host).unwrap();
}

#[test]
fn non_writable_reader_reads_without_pausing() {
    let mut host = Host::new();
    let events = MapHandle::new(&mut host, ring_map_spec("events")).unwrap();
    let reader = EventReader::new(&mut host, &events, 512, false).unwrap();

    host.push_record(events.handle(), &[9, 8, 7]);
    let mut sample = vec![0u8; 3];
    reader.read(&host, &mut sample).unwrap();
    assert_eq!(sample, vec![9, 8, 7]);
}

#[test]
fn reader_needs_a_ring_style_map() {
    let mut host = Host::new();
    let plain = MapHandle::new(&mut host, hash_map_spec("plain", 4)).unwrap();
    match EventReader::new(&mut host, &plain, 4096, true) {
        Err(e) => assert_eq!(e, ApiError::Creation),
        Ok(_) => panic!("a hash map must not back an event reader"),
    }
}

#[test]
fn read_without_a_record_fails() {
    let mut host = Host::new();
    let events = MapHandle::new(&mut host, ring_map_spec("events")).unwrap();
    let mut reader = EventReader::new(&mut host, &events, 64, true).unwrap();
    reader.pause(&mut host).unwrap();
    let mut sample = vec![0u8; 8];
    assert_eq!(reader.read(&host, &mut sample), Err(ApiError::BufferAccess));
}
