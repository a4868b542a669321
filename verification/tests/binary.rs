//! Tests of the tagged enum codec: repr-integer enums decode from their wire
//! value or fail on anything else, and encode back symmetrically.

use xjvmdbg::codec::encode_be;
use xjvmdbg::codec::read_u16_at;
use xjvmdbg::codec::read_u8_at;
use xjvmdbg::jdwp::Command;
use xjvmdbg::jdwp::TypeTag;

#[test]
fn test_enum_read_valid() {
    let data = vec![2u8];
    let raw = read_u8_at(&data, 0).unwrap();
    let value = TypeTag::from_value(raw);
    assert_eq!(value, Some(TypeTag::Interface));
}

#[test]
fn test_enum_read_invalid() {
    let data = vec![99u8];
    let raw = read_u8_at(&data, 0).unwrap();
    let result = TypeTag::from_value(raw);
    assert!(result.is_none());
}

#[test]
fn test_enum_write() {
    let buffer = encode_be(TypeTag::Array.value() as u64, 1);
    assert_eq!(buffer, vec![3u8]);
}

#[test]
fn test_enum_read_valid_u16() {
    let data = vec![1u8, 1u8];
    let raw = read_u16_at(&data, 0).unwrap();
    let value = Command::from_value(raw);
    assert_eq!(value, Some(Command::VirtualMachineVersion));
}

#[test]
fn test_enum_read_invalid_u16() {
    let data = vec![0u8, 99u8];
    let raw = read_u16_at(&data, 0).unwrap();
    let result = Command::from_value(raw);
    assert!(result.is_none());
}

#[test]
fn test_enum_write_u16() {
    let buffer = encode_be(Command::VirtualMachineIDSizes.value() as u64, 2);
    assert_eq!(buffer, vec![1u8, 7u8]);
}

#[test]
fn be_codec_round_trip_values() {
    for (v, w) in [(0u64, 1usize), (255, 1), (0xCAFE, 2), (0xCAFEBABE, 4), (u64::MAX, 8)] {
        let bytes = encode_be(v, w);
        assert_eq!(bytes.len(), w);
        let back = xjvmdbg::codec::read_be(&bytes, 0, w).unwrap();
        assert_eq!(back, v);
    }
}

#[test]
fn be_codec_round_trip_bytes() {
    let bytes = vec![0x12u8, 0x34, 0x56, 0x78];
    let v = xjvmdbg::codec::read_be(&bytes, 0, 4).unwrap();
    let again = encode_be(v, 4);
    assert_eq!(again, bytes);
}

#[test]
fn signed_reads_are_twos_complement() {
    let data = vec![0xFFu8, 0xFF, 0xFF, 0xF0];
    assert_eq!(xjvmdbg::codec::read_i32_at(&data, 0), Some(-16));
    assert_eq!(xjvmdbg::codec::read_i16_at(&data, 0), Some(-1i16));
    assert_eq!(xjvmdbg::codec::read_i8_at(&data, 3), Some(-16i8));
    let data8 = vec![0xFFu8; 8];
    assert_eq!(xjvmdbg::codec::read_i64_at(&data8, 0), Some(-1i64));
}
