use fit_decoder::cursor::ByteCursor;
use fit_decoder::error::{ErrorKind, FIT_SIGNATURE};
use fit_decoder::file_header::FileHeader;
use fit_decoder::record_header::{is_bit_set, HeaderVariant, MessageCategory, RecordHeader};

fn long_header(data_size: u32) -> Vec<u8> {
    let mut bytes = vec![14, 0x10, 0x14, 0x08];
    bytes.extend_from_slice(&data_size.to_le_bytes());
    bytes.extend_from_slice(b".FIT");
    bytes.extend_from_slice(&[0x34, 0x12]);
    bytes
}

#[test]
fn long_header_consumes_fourteen_bytes() {
    let mut bytes = long_header(0x0102_0304);
    bytes.extend_from_slice(&[0xAA, 0xBB, 0xCC]);
    let mut cursor = ByteCursor::new(&bytes);
    let header = FileHeader::read(&mut cursor).unwrap();
    assert_eq!(cursor.position(), 14);
    assert_eq!(cursor.remaining(), 3);
    assert_eq!(header.header_size, 14);
    assert_eq!(header.protocol_version, 0x10);
    assert_eq!(header.profile_version, 0x0814);
    assert_eq!(header.data_size, 0x0102_0304);
    assert!(header.signature_present);
    assert_eq!(header.header_crc, Some(0x1234));
}

#[test]
fn long_header_data_size_is_the_declared_field() {
    for data_size in [0u32, 1, 19, 255, 256, 65_536, u32::MAX] {
        let bytes = long_header(data_size);
        let mut cursor = ByteCursor::new(&bytes);
        let header = FileHeader::read(&mut cursor).unwrap();
        assert_eq!(header.data_size, data_size);
        assert_eq!(cursor.position(), 14);
    }
}

#[test]
fn short_header_consumes_twelve_bytes() {
    let bytes = [12, 0x20, 0x01, 0x02, 5, 0, 0, 0, b'.', b'F', b'I', b'T', 0x40, 0x00];
    let mut cursor = ByteCursor::new(&bytes);
    let header = FileHeader::read(&mut cursor).unwrap();
    assert_eq!(cursor.position(), 12);
    assert_eq!(header.header_size, 12);
    assert_eq!(header.protocol_version, 0x20);
    assert_eq!(header.profile_version, 0x0201);
    assert_eq!(header.data_size, 5);
    assert!(header.signature_present);
    assert_eq!(header.header_crc, None);
}

#[test]
fn short_header_may_lack_the_signature() {
    let bytes = [12, 0x20, 0x01, 0x02, 5, 0, 0, 0, 1, 2, 3, 4];
    let header = FileHeader::new(&bytes, 0).unwrap();
    assert!(!header.signature_present);
    assert_eq!(header.header_crc, None);
}

#[test]
fn header_size_thirteen_is_a_format_error() {
    let mut bytes = long_header(0);
    bytes[0] = 13;
    let mut cursor = ByteCursor::new(&bytes);
    let error = FileHeader::read(&mut cursor).unwrap_err();
    assert_eq!(error.kind, ErrorKind::Format);
    assert_eq!(error.offset, 0);
    assert_eq!(error.expected, 14);
    assert_eq!(error.actual, 13);
    assert_eq!(cursor.position(), 0);
    assert_eq!(error.message(), "invalid fit header.");
}

#[test]
fn every_other_header_size_is_a_format_error() {
    for size in 0..=255u8 {
        let mut bytes = long_header(0);
        bytes[0] = size;
        let outcome = FileHeader::check_header(&bytes, 0);
        if size == 12 || size == 14 {
            assert_eq!(outcome, Ok(()));
        } else {
            assert_eq!(outcome.unwrap_err().kind, ErrorKind::Format);
        }
    }
}

#[test]
fn long_header_without_signature_is_a_format_error() {
    let mut bytes = long_header(0);
    bytes[9] = b'f';
    let mut cursor = ByteCursor::new(&bytes);
    let error = FileHeader::read(&mut cursor).unwrap_err();
    assert_eq!(error.kind, ErrorKind::Format);
    assert_eq!(error.offset, 8);
    assert_eq!(error.expected, FIT_SIGNATURE);
    assert_eq!(error.actual, u32::from_le_bytes([b'.', b'f', b'I', b'T']) as u64);
    assert_eq!(cursor.position(), 0);
    assert_eq!(error.message(), "invalid fit header missing .FIT label");
}

#[test]
fn signature_is_the_four_ascii_bytes() {
    assert_eq!(FIT_SIGNATURE, u32::from_le_bytes(*b".FIT") as u64);
}

#[test]
fn truncated_header_is_incomplete() {
    let bytes = long_header(0);
    let error = FileHeader::new(&bytes[..13], 0).unwrap_err();
    assert_eq!(error.kind, ErrorKind::IncompleteData);
    assert_eq!(error.offset, 0);
    assert_eq!(error.expected, 14);
    assert_eq!(error.actual, 13);
    assert_eq!(error.message(), "incomplete data.");
}

#[test]
fn empty_input_is_incomplete() {
    let error = FileHeader::new(&[], 0).unwrap_err();
    assert_eq!(error.kind, ErrorKind::IncompleteData);
    assert_eq!(error.expected, 1);
    assert_eq!(error.actual, 0);
}

#[test]
fn header_errors_report_the_offset_of_the_block() {
    let mut bytes = long_header(0);
    bytes[8] = 0;
    let error = FileHeader::check_header(&bytes, 100).unwrap_err();
    assert_eq!(error.kind, ErrorKind::Format);
    assert_eq!(error.offset, 108);
}

#[test]
fn compressed_timestamp_header_byte() {
    let header = RecordHeader::new(0b1000_0101).unwrap();
    assert_eq!(header.header_byte, 0b1000_0101);
    assert_eq!(
        header.variant,
        HeaderVariant::CompressedTimestamp { local_message_type: 0, time_offset: 5 }
    );
    assert_eq!(header.local_message_type(), 0);
    assert!(!header.is_definition());
}

#[test]
fn normal_definition_header_byte() {
    let header = RecordHeader::new(0b0100_0011).unwrap();
    assert_eq!(
        header.variant,
        HeaderVariant::Normal {
            category: MessageCategory::Definition,
            local_message_type: 3,
            developer_data: false,
        }
    );
    assert_eq!(header.local_message_type(), 3);
    assert!(header.is_definition());
}

#[test]
fn normal_data_header_byte() {
    let header = RecordHeader::new(0b0000_1111).unwrap();
    assert_eq!(
        header.variant,
        HeaderVariant::Normal {
            category: MessageCategory::Data,
            local_message_type: 15,
            developer_data: false,
        }
    );
}

#[test]
fn developer_flag_in_header_byte() {
    let header = RecordHeader::new(0b0110_0001).unwrap();
    assert_eq!(
        header.variant,
        HeaderVariant::Normal {
            category: MessageCategory::Definition,
            local_message_type: 1,
            developer_data: true,
        }
    );
}

#[test]
fn compressed_header_uses_bits_five_and_six_for_the_type() {
    let header = RecordHeader::new(0b1111_1111).unwrap();
    assert_eq!(
        header.variant,
        HeaderVariant::CompressedTimestamp { local_message_type: 3, time_offset: 31 }
    );
    let header = RecordHeader::new(0b1010_0000).unwrap();
    assert_eq!(
        header.variant,
        HeaderVariant::CompressedTimestamp { local_message_type: 1, time_offset: 0 }
    );
}

#[test]
fn every_header_byte_decodes() {
    for byte in 0..=255u8 {
        let header = RecordHeader::new(byte).unwrap();
        assert_eq!(header.header_byte, byte);
        match header.variant {
            HeaderVariant::Normal { category, local_message_type, developer_data } => {
                assert!(byte < 128);
                assert_eq!(category == MessageCategory::Definition, byte & 0x40 != 0);
                assert_eq!(local_message_type, byte & 0x0F);
                assert_eq!(developer_data, byte & 0x20 != 0);
            }
            HeaderVariant::CompressedTimestamp { local_message_type, time_offset } => {
                assert!(byte >= 128);
                assert_eq!(local_message_type, (byte >> 5) & 3);
                assert_eq!(time_offset, byte & 0x1F);
            }
        }
    }
}

#[test]
fn bits_are_counted_from_the_least_significant() {
    assert!(is_bit_set(0b0000_0001, 0));
    assert!(!is_bit_set(0b0000_0001, 1));
    assert!(is_bit_set(0b1000_0000, 7));
    assert!(!is_bit_set(0b0111_1111, 7));
    assert!(is_bit_set(0b0100_0000, 6));
    for bit in 0..8u8 {
        assert!(is_bit_set(0xFF, bit));
        assert!(!is_bit_set(0x00, bit));
    }
}
