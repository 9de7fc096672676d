use api::error::ApiError;
use api::fields::{Data, Field};
use api::host::Host;
use api::kinds::FieldKind;
use api::values::FieldKindData;
use api::wire::{pack_ref, ref_addr, ref_len, read_failed, status_ok};

#[test]
fn packed_reference_round_trip() {
    let w = pack_ref(0x1000, 24);
    assert_eq!(ref_addr(w), 0x1000);
    assert_eq!(ref_len(w), 24);
    assert_eq!(w, (24u64 << 32) | 0x1000u64);

    let w2 = pack_ref(u32::MAX, u32::MAX);
    assert_eq!(ref_addr(w2), u32::MAX);
    assert_eq!(ref_len(w2), u32::MAX);

    let w3 = pack_ref(7, 0);
    assert_eq!(w3, 7);
}

#[test]
fn status_conventions() {
    assert!(status_ok(0));
    assert!(!status_ok(1));
    assert!(!status_ok(u32::MAX));
    assert!(read_failed(-1));
    assert!(!read_failed(0));
    assert!(!read_failed(17));
}

fn round_trip(value: FieldKindData, kind: FieldKind) {
    let mut host = Host::new();
    let field = Field(3);
    let data = Data(9);
    field.set_data(&mut host, data, &value, kind).unwrap();
    let back = field.get_data(&host, data, kind).unwrap();
    assert_eq!(back, value);
}

#[test]
fn scalar_round_trip_all_kinds() {
    round_trip(FieldKindData::Bool(true), FieldKind::Bool);
    round_trip(FieldKindData::Bool(false), FieldKind::Bool);
    round_trip(FieldKindData::Int8(-2), FieldKind::Int8);
    round_trip(FieldKindData::Int16(-30000), FieldKind::Int16);
    round_trip(FieldKindData::Int32(-123456), FieldKind::Int32);
    round_trip(FieldKindData::Int64(i64::MIN), FieldKind::Int64);
    round_trip(FieldKindData::Uint8(200), FieldKind::Uint8);
    round_trip(FieldKindData::Uint16(65535), FieldKind::Uint16);
    round_trip(FieldKindData::Uint32(0xdead_beef), FieldKind::Uint32);
    round_trip(FieldKindData::Uint64(u64::MAX), FieldKind::Uint64);
    round_trip(FieldKindData::Float32(1.5f32.to_bits()), FieldKind::Float32);
    round_trip(FieldKindData::Float64((-0.25f64).to_bits()), FieldKind::Float64);
    round_trip(FieldKindData::Float32(f32::NAN.to_bits()), FieldKind::Float32);
}

#[test]
fn float_bits_survive_bit_for_bit() {
    let mut host = Host::new();
    let field = Field(1);
    let data = Data(1);
    let bits = f64::NAN.to_bits() ^ 0x5;
    field
        .set_data(&mut host, data, &FieldKindData::Float64(bits), FieldKind::Float64)
        .unwrap();
    match field.get_data(&host, data, FieldKind::Float64).unwrap() {
        FieldKindData::Float64(b) => assert_eq!(b, bits),
        other => panic!("wrong tag: {:?}", other),
    }
}

#[test]
fn get_data_rejects_buffer_and_sentinel_kinds() {
    let host = Host::new();
    let field = Field(1);
    let data = Data(1);
    for kind in [FieldKind::Bytes, FieldKind::String, FieldKind::CString, FieldKind::Invalid] {
        assert_eq!(field.get_data(&host, data, kind), Err(ApiError::UnsupportedKind));
    }
}

#[test]
fn get_data_unset_field_fails() {
    let host = Host::new();
    let field = Field(1);
    assert_eq!(field.get_data(&host, Data(1), FieldKind::Uint32), Err(ApiError::FieldAccess));
}

#[test]
fn set_data_checks_the_declared_kind() {
    let mut host = Host::new();
    let field = Field(1);
    let data = Data(1);
    let v = FieldKindData::Int32(5);
    assert_eq!(field.set_data(&mut host, data, &v, FieldKind::Int64), Err(ApiError::TypeMismatch));
    assert_eq!(field.set_data(&mut host, data, &v, FieldKind::String), Err(ApiError::TypeMismatch));
    assert_eq!(
        field.set_data(&mut host, data, &v, FieldKind::Invalid),
        Err(ApiError::TypeMismatch)
    );
    assert!(field.set_data(&mut host, data, &v, FieldKind::Int32).is_ok());
}

#[test]
fn buffer_truncation_never_overruns() {
    let mut host = Host::new();
    let field = Field(4);
    let data = Data(2);
    field
        .set_bytes(&mut host, data, &[10, 20, 30, 40, 50, 60, 70, 80])
        .unwrap();

    let mut small = vec![0u8; 3];
    let n = field.bytes(&host, data, &mut small).unwrap();
    assert_eq!(n, 3);
    assert_eq!(small, vec![10, 20, 30]);
    assert_eq!(small.len(), 3);

    let mut big = vec![0xffu8; 12];
    let n = field.bytes(&host, data, &mut big).unwrap();
    assert_eq!(n, 8);
    assert_eq!(&big[..8], &[10, 20, 30, 40, 50, 60, 70, 80]);
    assert_eq!(&big[8..], &[0xff; 4]);
}

#[test]
fn bytes_of_unset_field_fails() {
    let host = Host::new();
    let mut dst = vec![0u8; 4];
    assert_eq!(Field(4).bytes(&host, Data(2), &mut dst), Err(ApiError::BufferAccess));
    assert_eq!(dst, vec![0u8; 4]);
}

#[test]
fn string_fields_use_the_c_string_convention() {
    let mut host = Host::new();
    let field = Field(5);
    let data = Data(5);
    field.set_string(&mut host, data, "hello").unwrap();
    assert_eq!(field.string(&host, data, 32).unwrap(), "hello");

    // truncated by the destination's capacity
    assert_eq!(field.string(&host, data, 3).unwrap(), "hel");

    // the text ends at the first null byte
    field.set_bytes(&mut host, data, &[0x68, 0x69, 0, 0x6f]).unwrap();
    assert_eq!(field.string(&host, data, 16).unwrap(), "hi");

    assert_eq!(Field(6).string(&host, data, 16), Err(ApiError::BufferAccess));
}

#[test]
fn tags_accumulate_in_order() {
    let mut host = Host::new();
    Field(1).add_tag(&mut host, "first").unwrap();
    Field(2).add_tag(&mut host, "second").unwrap();
    assert_eq!(host.tags.len(), 2);
    assert_eq!(host.tags[0].field, 1);
    assert_eq!(host.tags[0].tag, "first");
    assert_eq!(host.tags[1].field, 2);
    assert_eq!(host.tags[1].tag, "second");
}

#[test]
fn error_messages_name_the_failure() {
    assert_eq!(ApiError::NotFound.message(), "resource not found");
    assert!(!ApiError::InvalidState.message().is_empty());
    assert!(!ApiError::TypeMismatch.message().is_empty());
}
