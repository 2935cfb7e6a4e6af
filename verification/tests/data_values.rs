//! Value encoding round trips and string validation.

use slmp::{DataType, PLCString, SLMPError, TypedData};

fn round_trip(v: TypedData) -> TypedData {
    let bytes = v.to_bytes();
    TypedData::from_bytes(bytes.as_slice(), v.get_type())
}

#[test]
fn bool_round_trip() {
    assert_eq!(round_trip(TypedData::Bool(true)), TypedData::Bool(true));
    assert_eq!(round_trip(TypedData::Bool(false)), TypedData::Bool(false));
    assert_eq!(TypedData::Bool(true).to_bytes(), vec![0x01, 0x00]);
    assert_eq!(TypedData::Bool(false).to_bytes(), vec![0x00, 0x00]);
}

#[test]
fn integer_round_trips() {
    for v in [0u16, 1, 10, 0x1234, u16::MAX] {
        assert_eq!(round_trip(TypedData::U16(v)), TypedData::U16(v));
    }
    for v in [0i16, -1, -40, i16::MIN, i16::MAX] {
        assert_eq!(round_trip(TypedData::I16(v)), TypedData::I16(v));
    }
    for v in [0u32, 80000, u32::MAX] {
        assert_eq!(round_trip(TypedData::U32(v)), TypedData::U32(v));
    }
    for v in [0i32, -5, -80000, i32::MIN, i32::MAX] {
        assert_eq!(round_trip(TypedData::I32(v)), TypedData::I32(v));
    }
}

#[test]
fn integer_wire_bytes_are_little_endian() {
    assert_eq!(TypedData::U16(0x1234).to_bytes(), vec![0x34, 0x12]);
    assert_eq!(TypedData::U32(80000).to_bytes(), vec![0x80, 0x38, 0x01, 0x00]);
    assert_eq!(TypedData::I16(-40).to_bytes(), (-40i16).to_le_bytes().to_vec());
    assert_eq!(TypedData::I32(-5).to_bytes(), (-5i32).to_le_bytes().to_vec());
}

#[test]
fn float_bit_patterns_round_trip() {
    let f = 3.14159f32;
    let v = TypedData::F32(f.to_bits());
    let r = round_trip(v);
    match r {
        TypedData::F32(bits) => assert_eq!(f32::from_bits(bits), f),
        _ => panic!("wrong variant"),
    }
    assert_eq!(v.to_bytes(), f.to_le_bytes().to_vec());

    let d = -2.718281828459045f64;
    let v = TypedData::F64(d.to_bits());
    let r = round_trip(v);
    match r {
        TypedData::F64(bits) => assert_eq!(f64::from_bits(bits), d),
        _ => panic!("wrong variant"),
    }
    assert_eq!(v.to_bytes(), d.to_le_bytes().to_vec());
}

#[test]
fn bit_array_round_trip() {
    let v = TypedData::BitArray16(0b1010_0000_0000_0101);
    assert_eq!(round_trip(v), v);
    assert_eq!(v.to_bytes(), vec![0x05, 0xa0]);
}

#[test]
fn string_round_trip() {
    let s = PLCString::from_text("ABCD", 4).unwrap();
    let v = TypedData::String(s);
    assert_eq!(v.get_type(), DataType::String(4));
    let bytes = v.to_bytes();
    assert_eq!(bytes.len(), 8);
    assert_eq!(&bytes[..4], b"ABCD");
    assert_eq!(&bytes[4..], &[0, 0, 0, 0]);
    let r = TypedData::from_bytes(bytes.as_slice(), DataType::String(4));
    assert_eq!(r, v);
    match r {
        TypedData::String(rs) => assert_eq!(rs.to_string(), "ABCD"),
        _ => panic!("wrong variant"),
    }
}

#[test]
fn string_too_long_is_validation() {
    // Five ASCII characters need five Shift-JIS bytes, more than the
    // four bytes of a two-word device run.
    assert_eq!(PLCString::from_text("ABCDE", 2), Err(SLMPError::Validation));
    // Exactly four bytes fit.
    assert!(PLCString::from_text("ABCD", 2).is_ok());
}

#[test]
fn string_bad_device_size_is_validation() {
    assert_eq!(PLCString::from_text("AB", 0), Err(SLMPError::Validation));
    assert_eq!(PLCString::from_text("AB", 33), Err(SLMPError::Validation));
}

#[test]
fn string_unencodable_is_validation() {
    // The hryvnia sign has no Shift-JIS representation.
    assert_eq!(PLCString::from_text("\u{20b4}", 4), Err(SLMPError::Validation));
}

#[test]
fn shift_jis_text_survives() {
    // Katakana text: two Shift-JIS bytes per character.
    let s = PLCString::from_text("\u{30c6}\u{30b9}\u{30c8}", 4).unwrap();
    assert_eq!(s.to_string(), "\u{30c6}\u{30b9}\u{30c8}");
    let v = TypedData::String(s);
    assert_eq!(round_trip(v), v);
}

#[test]
fn string_decode_trims_at_first_nul() {
    let raw = [0x41, 0x42, 0x00, 0x43, 0x00, 0x00, 0x00, 0x00];
    let s = PLCString::from_shift_jis_bytes(&raw, 4);
    assert_eq!(s.to_string(), "AB");
    assert!(!s.is_empty());
    assert_eq!(s.as_bytes(), &[0x41, 0x42, 0x00, 0x00, 0x00, 0x00, 0x00, 0x00]);
}

#[test]
fn data_type_tables() {
    assert_eq!(DataType::Bool.byte_size(), 1);
    assert_eq!(DataType::U16.byte_size(), 2);
    assert_eq!(DataType::I16.byte_size(), 2);
    assert_eq!(DataType::BitArray16.byte_size(), 2);
    assert_eq!(DataType::U32.byte_size(), 4);
    assert_eq!(DataType::I32.byte_size(), 4);
    assert_eq!(DataType::F32.byte_size(), 4);
    assert_eq!(DataType::F64.byte_size(), 8);
    assert_eq!(DataType::String(7).byte_size(), 14);
    assert_eq!(DataType::Bool.device_size(), slmp::DeviceSize::Bit);
    assert_eq!(DataType::U16.device_size(), slmp::DeviceSize::SingleWord);
    assert_eq!(DataType::U32.device_size(), slmp::DeviceSize::DoubleWord);
    assert_eq!(DataType::F64.device_size(), slmp::DeviceSize::MultiWord(4));
    assert_eq!(DataType::String(3).device_size(), slmp::DeviceSize::MultiWord(3));
}

#[test]
fn bit_helpers() {
    assert_eq!(slmp::wire::u8_to_bits(0b1001_0110).to_vec(), vec![
        false, true, true, false, true, false, false, true
    ]);
    assert_eq!(
        slmp::wire::bits_to_u8(&[false, true, true, false, true, false, false, true]),
        0b1001_0110
    );
    assert_eq!(slmp::wire::div_ceil(0, 8), 0);
    assert_eq!(slmp::wire::div_ceil(7, 8), 1);
    assert_eq!(slmp::wire::div_ceil(8, 8), 1);
    assert_eq!(slmp::wire::div_ceil(9, 8), 2);
}
