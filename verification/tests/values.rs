use fit_decoder::base_type::{BaseType, DecodedValue};
use fit_decoder::crc::CrcValidator;
use fit_decoder::endian::{read_signed, read_unsigned, Endianness};
use fit_decoder::error::ErrorKind;
use fit_decoder::timestamp::resolve_compressed_timestamp;

#[test]
fn two_bytes_big_and_little_endian() {
    assert_eq!(
        DecodedValue::decode(0x84, &[0x01, 0x02], Endianness::Big),
        DecodedValue::Unsigned(258)
    );
    assert_eq!(
        DecodedValue::decode(0x84, &[0x01, 0x02], Endianness::Little),
        DecodedValue::Unsigned(513)
    );
}

#[test]
fn unsigned_reads_differ_from_their_input() {
    assert_eq!(read_unsigned(&[0x01], Endianness::Little), 1);
    assert_eq!(read_unsigned(&[0x01, 0x02], Endianness::Little), 0x0201);
    assert_eq!(read_unsigned(&[0x01, 0x02], Endianness::Big), 0x0102);
    assert_eq!(read_unsigned(&[0x01, 0x02, 0x03], Endianness::Little), 0x03_0201);
    assert_eq!(read_unsigned(&[0x01, 0x02, 0x03], Endianness::Big), 0x01_0203);
    assert_eq!(read_unsigned(&[0x78, 0x56, 0x34, 0x12], Endianness::Little), 0x1234_5678);
    assert_eq!(read_unsigned(&[0x78, 0x56, 0x34, 0x12], Endianness::Big), 0x7856_3412);
    assert_eq!(
        read_unsigned(&[1, 2, 3, 4, 5, 6, 7, 8], Endianness::Little),
        0x0807_0605_0403_0201
    );
    assert_eq!(
        read_unsigned(&[1, 2, 3, 4, 5, 6, 7, 8], Endianness::Big),
        0x0102_0304_0506_0708
    );
    assert_eq!(read_unsigned(&[0xFF; 8], Endianness::Big), u64::MAX);
}

#[test]
fn signed_reads_extend_the_sign() {
    assert_eq!(read_signed(&[0xFF], Endianness::Little), -1);
    assert_eq!(read_signed(&[0x7F], Endianness::Big), 127);
    assert_eq!(read_signed(&[0x80], Endianness::Big), -128);
    assert_eq!(read_signed(&[0x18, 0xFC], Endianness::Little), -1000);
    assert_eq!(read_signed(&[0xFC, 0x18], Endianness::Big), -1000);
    assert_eq!(read_signed(&[0x00, 0x80], Endianness::Little), -32768);
    assert_eq!(read_signed(&[0xFF, 0xFF, 0xFF, 0x7F], Endianness::Little), i32::MAX as i64);
    assert_eq!(read_signed(&[0x80, 0, 0, 0], Endianness::Big), i32::MIN as i64);
    assert_eq!(read_signed(&[0x80, 0, 0, 0, 0, 0, 0, 0], Endianness::Big), i64::MIN);
    assert_eq!(read_signed(&[0xFE, 0xFF, 0xFF], Endianness::Little), -2);
}

#[test]
fn base_types_by_number() {
    assert_eq!(BaseType::from_tag(0x00), BaseType::Unsigned { width: 1 });
    assert_eq!(BaseType::from_tag(0x01), BaseType::Signed { width: 1 });
    assert_eq!(BaseType::from_tag(0x02), BaseType::Unsigned { width: 1 });
    assert_eq!(BaseType::from_tag(0x83), BaseType::Signed { width: 2 });
    assert_eq!(BaseType::from_tag(0x84), BaseType::Unsigned { width: 2 });
    assert_eq!(BaseType::from_tag(0x85), BaseType::Signed { width: 4 });
    assert_eq!(BaseType::from_tag(0x86), BaseType::Unsigned { width: 4 });
    assert_eq!(BaseType::from_tag(0x07), BaseType::Text);
    assert_eq!(BaseType::from_tag(0x88), BaseType::Float { width: 4 });
    assert_eq!(BaseType::from_tag(0x89), BaseType::Float { width: 8 });
    assert_eq!(BaseType::from_tag(0x0A), BaseType::Unsigned { width: 1 });
    assert_eq!(BaseType::from_tag(0x8B), BaseType::Unsigned { width: 2 });
    assert_eq!(BaseType::from_tag(0x8C), BaseType::Unsigned { width: 4 });
    assert_eq!(BaseType::from_tag(0x0D), BaseType::Unsigned { width: 1 });
    assert_eq!(BaseType::from_tag(0x8E), BaseType::Signed { width: 8 });
    assert_eq!(BaseType::from_tag(0x8F), BaseType::Unsigned { width: 8 });
    assert_eq!(BaseType::from_tag(0x90), BaseType::Unsigned { width: 8 });
    for number in 17..32u8 {
        assert_eq!(BaseType::from_tag(number), BaseType::Reserved);
        assert_eq!(BaseType::from_tag(number | 0x80), BaseType::Reserved);
    }
}

#[test]
fn signed_values_decode() {
    assert_eq!(DecodedValue::decode(0x01, &[0xFE], Endianness::Little), DecodedValue::Signed(-2));
    assert_eq!(
        DecodedValue::decode(0x83, &[0xFF, 0xFE], Endianness::Big),
        DecodedValue::Signed(-2)
    );
    assert_eq!(
        DecodedValue::decode(0x85, &[0xFE, 0xFF, 0xFF, 0xFF], Endianness::Little),
        DecodedValue::Signed(-2)
    );
    assert_eq!(
        DecodedValue::decode(0x8E, &[0xFF, 0xFF, 0xFF, 0xFF, 0xFF, 0xFF, 0xFF, 0xFE], Endianness::Big),
        DecodedValue::Signed(-2)
    );
}

#[test]
fn floats_decode_to_their_bit_patterns() {
    let one = 1.0f32.to_le_bytes();
    let value = DecodedValue::decode(0x88, &one, Endianness::Little);
    assert_eq!(value, DecodedValue::Float32(0x3F80_0000));
    match value {
        DecodedValue::Float32(bits) => assert_eq!(f32::from_bits(bits), 1.0f32),
        _ => panic!("not a float"),
    }
    let half = (-0.5f64).to_be_bytes();
    let value = DecodedValue::decode(0x89, &half, Endianness::Big);
    match value {
        DecodedValue::Float64(bits) => assert_eq!(f64::from_bits(bits), -0.5f64),
        _ => panic!("not a float"),
    }
}

#[test]
fn strings_stop_at_the_first_zero_byte() {
    assert_eq!(
        DecodedValue::decode(0x07, b"abc\0\0x", Endianness::Little),
        DecodedValue::Text(b"abc".to_vec())
    );
    assert_eq!(
        DecodedValue::decode(0x07, b"abcd", Endianness::Big),
        DecodedValue::Text(b"abcd".to_vec())
    );
    assert_eq!(
        DecodedValue::decode(0x07, b"\0abc", Endianness::Big),
        DecodedValue::Text(Vec::new())
    );
    assert_eq!(DecodedValue::decode(0x07, b"", Endianness::Big), DecodedValue::Text(Vec::new()));
}

#[test]
fn reserved_base_type_keeps_raw_bytes() {
    assert_eq!(
        DecodedValue::decode(0x1F, &[9, 8, 7], Endianness::Little),
        DecodedValue::Raw(vec![9, 8, 7])
    );
    assert_eq!(
        DecodedValue::decode(0x91, &[1, 2], Endianness::Big),
        DecodedValue::Raw(vec![1, 2])
    );
}

#[test]
fn size_that_is_not_the_width_keeps_raw_bytes() {
    assert_eq!(
        DecodedValue::decode(0x84, &[1, 2, 3, 4], Endianness::Little),
        DecodedValue::Raw(vec![1, 2, 3, 4])
    );
    assert_eq!(DecodedValue::decode(0x86, &[], Endianness::Little), DecodedValue::Raw(vec![]));
    assert_eq!(
        DecodedValue::decode(0x0D, &[1, 2, 3], Endianness::Little),
        DecodedValue::Raw(vec![1, 2, 3])
    );
    assert_eq!(DecodedValue::decode(0x0D, &[7], Endianness::Little), DecodedValue::Unsigned(7));
}

#[test]
fn checksum_of_the_check_string() {
    let mut crc = CrcValidator::new();
    crc.update_all(b"123456789");
    assert_eq!(crc.value(), 0xBB3D);
}

#[test]
fn checksum_byte_by_byte_equals_checksum_of_the_run() {
    let bytes: Vec<u8> = (0..=255u8).collect();
    let mut whole = CrcValidator::new();
    whole.update_all(&bytes);
    let mut single = CrcValidator::new();
    for byte in &bytes {
        single.update(*byte);
    }
    let mut pieces = CrcValidator::new();
    pieces.update_all(&bytes[..100]);
    pieces.update_all(&bytes[100..]);
    assert_eq!(whole.value(), single.value());
    assert_eq!(whole.value(), pieces.value());
}

fn bitwise_crc(bytes: &[u8]) -> u16 {
    let mut crc: u16 = 0;
    for byte in bytes {
        crc ^= *byte as u16;
        for _ in 0..8 {
            crc = if crc & 1 == 1 { (crc >> 1) ^ 0xA001 } else { crc >> 1 };
        }
    }
    crc
}

#[test]
fn checksum_equals_the_bitwise_division() {
    let mut bytes = Vec::new();
    for i in 0..1000u32 {
        bytes.push((i.wrapping_mul(2_654_435_761) >> 13) as u8);
        let mut crc = CrcValidator::new();
        crc.update_all(&bytes);
        assert_eq!(crc.value(), bitwise_crc(&bytes));
    }
}

#[test]
fn checksum_of_nothing_is_zero() {
    let mut crc = CrcValidator::new();
    assert_eq!(crc.value(), 0);
    crc.update_all(&[]);
    assert_eq!(crc.value(), 0);
}

#[test]
fn validate_compares_with_the_stored_checksum() {
    let mut crc = CrcValidator::new();
    crc.update_all(b"123456789");
    assert_eq!(crc.validate(0xBB3D, 9), Ok(()));
    let error = crc.validate(0xBB3C, 9).unwrap_err();
    assert_eq!(error.kind, ErrorKind::CrcMismatch);
    assert_eq!(error.offset, 9);
    assert_eq!(error.expected, 0xBB3D);
    assert_eq!(error.actual, 0xBB3C);
    assert_eq!(error.message(), "checksum mismatch.");
}

#[test]
fn compressed_timestamp_rolls_over_forward() {
    let base: u32 = 1_000_000_000 - (1_000_000_000 % 32) + 30;
    assert_eq!(base & 0x1F, 30);
    assert_eq!(resolve_compressed_timestamp(base, 2), base + 4);
}

#[test]
fn compressed_timestamp_without_rollover() {
    let base: u32 = 0x3B9A_CA00;
    assert_eq!(base & 0x1F, 0);
    assert_eq!(resolve_compressed_timestamp(base, 0), base);
    assert_eq!(resolve_compressed_timestamp(base, 5), base + 5);
    assert_eq!(resolve_compressed_timestamp(base, 31), base + 31);
    assert_eq!(resolve_compressed_timestamp(base + 7, 7), base + 7);
    assert_eq!(resolve_compressed_timestamp(base + 7, 6), base + 32 + 6);
}

#[test]
fn compressed_timestamp_never_goes_back() {
    for low in 0..32u32 {
        for offset in 0..32u8 {
            let base = 0x1000_0000 + low;
            let timestamp = resolve_compressed_timestamp(base, offset);
            assert!(timestamp >= base);
            assert!(timestamp - base < 32);
            assert_eq!(timestamp & 0x1F, offset as u32);
        }
    }
}

#[test]
fn compressed_timestamp_wraps_at_32_bits() {
    assert_eq!(resolve_compressed_timestamp(0xFFFF_FFFE, 2), 2);
    assert_eq!(resolve_compressed_timestamp(0xFFFF_FFFE, 31), 0xFFFF_FFFF);
}
