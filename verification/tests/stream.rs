use fit_decoder::base_type::DecodedValue;
use fit_decoder::crc::CrcValidator;
use fit_decoder::data::{DataField, DataMessage, DeveloperField};
use fit_decoder::decoder::{decode, FitStreamDecoder};
use fit_decoder::session::DecoderState;
use fit_decoder::definition::{
    DefinitionMessage, DeveloperFieldDefinition, FieldDefinition,
};
use fit_decoder::endian::Endianness;
use fit_decoder::error::ErrorKind;
use fit_decoder::registry::LocalMessageTypeRegistry;

const SAMPLE: [u8; 35] = [
    14, 16, 20, 8, 19, 0, 0, 0, 46, 70, 73, 84, 0, 0, // file header
    64, 0, 0, 0, 0, 2, 253, 4, 134, 1, 2, 132, // definition record
    0, 120, 86, 52, 18, 1, 2, // data record
    169, 25, // trailer
];

fn with_trailer(mut body: Vec<u8>) -> Vec<u8> {
    let mut crc = CrcValidator::new();
    crc.update_all(&body);
    body.extend_from_slice(&crc.value().to_le_bytes());
    body
}

fn file(records: &[u8]) -> Vec<u8> {
    let mut body = vec![14, 0x10, 0x14, 0x08];
    body.extend_from_slice(&(records.len() as u32).to_le_bytes());
    body.extend_from_slice(b".FIT");
    body.extend_from_slice(&[0, 0]);
    body.extend_from_slice(records);
    with_trailer(body)
}

fn sample_message() -> DataMessage {
    DataMessage {
        global_message_number: 0,
        fields: vec![
            DataField { field_number: 253, value: DecodedValue::Unsigned(0x1234_5678) },
            DataField { field_number: 1, value: DecodedValue::Unsigned(0x0201) },
        ],
        developer_fields: vec![],
        timestamp: None,
    }
}

#[test]
fn one_definition_and_one_data_record() {
    let report = decode(&SAMPLE);
    assert_eq!(report.error, None);
    assert_eq!(report.crc_mismatch, None);
    assert_eq!(report.messages, vec![sample_message()]);
    let header = report.header.unwrap();
    assert_eq!(header.header_size, 14);
    assert_eq!(header.data_size, 19);
}

#[test]
fn altered_trailer_is_reported_beside_the_record() {
    let mut bytes = SAMPLE;
    bytes[33] ^= 0x01;
    let report = decode(&bytes);
    assert_eq!(report.error, None);
    assert_eq!(report.messages, vec![sample_message()]);
    let mismatch = report.crc_mismatch.unwrap();
    assert_eq!(mismatch.kind, ErrorKind::CrcMismatch);
    assert_eq!(mismatch.offset, 33);
    assert_eq!(mismatch.expected, 0x19A9);
    assert_eq!(mismatch.actual, 0x19A8);
}

#[test]
fn altered_record_byte_is_a_checksum_mismatch() {
    let mut bytes = SAMPLE;
    bytes[31] = 9;
    let report = decode(&bytes);
    assert_eq!(report.error, None);
    assert_eq!(report.messages.len(), 1);
    assert_eq!(report.messages[0].fields[1].value, DecodedValue::Unsigned(0x0209));
    assert_eq!(report.crc_mismatch.unwrap().kind, ErrorKind::CrcMismatch);
}

#[test]
fn checksum_covers_the_file_header() {
    let mut bytes = SAMPLE;
    bytes[1] = 0x20;
    let report = decode(&bytes);
    assert_eq!(report.messages, vec![sample_message()]);
    assert_eq!(report.crc_mismatch.unwrap().kind, ErrorKind::CrcMismatch);
}

#[test]
fn session_walks_through_its_states() {
    let mut decoder = FitStreamDecoder::new(&SAMPLE);
    assert_eq!(decoder.state(), DecoderState::ReadingHeader);
    assert_eq!(decoder.position(), 0);
    assert_eq!(decoder.step(), Ok(None));
    assert_eq!(decoder.state(), DecoderState::ReadingRecordHeader);
    assert_eq!(decoder.position(), 14);
    assert_eq!(decoder.header().unwrap().data_size, 19);
    assert_eq!(decoder.step(), Ok(None));
    assert_eq!(decoder.state(), DecoderState::ReadingDefinition);
    assert_eq!(decoder.position(), 15);
    assert_eq!(decoder.step(), Ok(None));
    assert_eq!(decoder.state(), DecoderState::ReadingRecordHeader);
    assert_eq!(decoder.position(), 26);
    assert_eq!(decoder.step(), Ok(None));
    assert_eq!(decoder.state(), DecoderState::ReadingData);
    assert_eq!(decoder.position(), 27);
    assert_eq!(decoder.step(), Ok(Some(sample_message())));
    assert_eq!(decoder.state(), DecoderState::ReadingRecordHeader);
    assert_eq!(decoder.position(), 33);
    assert_eq!(decoder.base_timestamp(), 0x1234_5678);
    assert_eq!(decoder.step(), Ok(None));
    assert_eq!(decoder.state(), DecoderState::Trailer);
    assert_eq!(decoder.position(), 33);
    assert_eq!(decoder.step(), Ok(None));
    assert_eq!(decoder.state(), DecoderState::Done);
    assert_eq!(decoder.position(), 35);
    assert_eq!(decoder.crc_mismatch(), None);
    assert_eq!(decoder.step(), Ok(None));
    assert_eq!(decoder.state(), DecoderState::Done);
    assert_eq!(decoder.position(), 35);
}

#[test]
fn records_are_pulled_one_by_one() {
    let records = [
        0x40, 0, 0, 0, 0, 1, 1, 1, 0x02, // definition: one uint8 field
        0x00, 10, 0x00, 20, 0x00, 30, // three data records
    ];
    let bytes = file(&records);
    let mut decoder = FitStreamDecoder::new(&bytes);
    for expected in [10u64, 20, 30] {
        let message = decoder.next_message().unwrap().unwrap();
        assert_eq!(
            message.fields,
            vec![DataField { field_number: 1, value: DecodedValue::Unsigned(expected) }]
        );
        assert_eq!(decoder.state(), DecoderState::ReadingRecordHeader);
    }
    assert_eq!(decoder.next_message(), Ok(None));
    assert_eq!(decoder.state(), DecoderState::Done);
    assert_eq!(decoder.crc_mismatch(), None);
    assert_eq!(decoder.next_message(), Ok(None));
}

#[test]
fn stopping_early_reads_no_further() {
    let records = [0x40, 0, 0, 0, 0, 1, 1, 1, 0x02, 0x00, 10, 0x00, 20];
    let bytes = file(&records);
    let mut decoder = FitStreamDecoder::new(&bytes);
    decoder.next_message().unwrap().unwrap();
    assert_eq!(decoder.position(), 14 + 11);
}

#[test]
fn big_endian_definition_in_a_short_header_file() {
    let bytes = [
        12, 16, 20, 8, 12, 0, 0, 0, 46, 70, 73, 84, // file header
        64, 0, 1, 0, 20, 1, 1, 2, 132, // definition record, big-endian
        0, 1, 2, // data record
        216, 238, // trailer
    ];
    let report = decode(&bytes);
    assert_eq!(report.error, None);
    assert_eq!(report.crc_mismatch, None);
    assert_eq!(
        report.messages,
        vec![DataMessage {
            global_message_number: 20,
            fields: vec![DataField { field_number: 1, value: DecodedValue::Unsigned(258) }],
            developer_fields: vec![],
            timestamp: None,
        }]
    );
}

#[test]
fn same_bytes_under_both_byte_orders() {
    for (architecture, expected) in [(0u8, 513u64), (1u8, 258u64)] {
        let records = [0x40, 0, architecture, 0, 0, 1, 7, 2, 0x84, 0x00, 0x01, 0x02];
        let report = decode(&file(&records));
        assert_eq!(report.error, None);
        assert_eq!(report.messages.len(), 1);
        assert_eq!(report.messages[0].fields[0].value, DecodedValue::Unsigned(expected));
    }
}

#[test]
fn both_byte_orders_in_one_file() {
    let records = [
        0x40, 0, 0, 5, 0, 1, 7, 2, 0x84, // slot 0, little-endian, message 5
        0x41, 0, 1, 0, 5, 1, 7, 2, 0x84, // slot 1, big-endian, message 5
        0x00, 0x01, 0x02, 0x01, 0x01, 0x02,
    ];
    let report = decode(&file(&records));
    assert_eq!(report.error, None);
    assert_eq!(report.messages.len(), 2);
    assert_eq!(report.messages[0].global_message_number, 5);
    assert_eq!(report.messages[1].global_message_number, 5);
    assert_eq!(report.messages[0].fields[0].value, DecodedValue::Unsigned(513));
    assert_eq!(report.messages[1].fields[0].value, DecodedValue::Unsigned(258));
}

#[test]
fn data_record_for_an_undefined_local_type_fails() {
    let records = [0x40, 0, 0, 0, 0, 1, 1, 1, 0x02, 0x00, 10, 0x05, 20];
    let report = decode(&file(&records));
    assert_eq!(report.messages.len(), 1);
    let error = report.error.unwrap();
    assert_eq!(error.kind, ErrorKind::UndefinedLocalType);
    assert_eq!(error.offset, 14 + 12);
    assert_eq!(error.actual, 5);
    assert_eq!(report.crc_mismatch, None);
    assert_eq!(error.message(), "data record for an undefined local message type.");
}

#[test]
fn data_record_before_any_definition_fails() {
    let report = decode(&file(&[0x00, 1, 2, 3]));
    assert_eq!(report.messages, vec![]);
    assert_eq!(report.error.unwrap().kind, ErrorKind::UndefinedLocalType);
}

#[test]
fn lookup_in_an_empty_registry_finds_nothing() {
    let registry = LocalMessageTypeRegistry::new();
    for slot in 0..=255u8 {
        assert_eq!(registry.lookup(slot), None);
        let error = DataMessage::decode(&registry, slot, &[1, 2, 3], 7).unwrap_err();
        assert_eq!(error.kind, ErrorKind::UndefinedLocalType);
        assert_eq!(error.offset, 7);
        assert_eq!(error.actual, slot as u64);
    }
}

fn definition(global_message_number: u16, fields: Vec<FieldDefinition>) -> DefinitionMessage {
    DefinitionMessage {
        reserved: 0,
        endianness: Endianness::Little,
        global_message_number,
        fields,
        developer_fields: vec![],
    }
}

#[test]
fn registering_again_replaces_the_definition() {
    let first = definition(
        1,
        vec![FieldDefinition { field_number: 3, size: 2, base_type: 0x84 }],
    );
    let second = definition(
        2,
        vec![
            FieldDefinition { field_number: 4, size: 1, base_type: 0x02 },
            FieldDefinition { field_number: 5, size: 1, base_type: 0x01 },
        ],
    );
    let other = definition(9, vec![]);
    let mut registry = LocalMessageTypeRegistry::new();
    registry.register(0, first.clone());
    registry.register(1, other.clone());
    assert_eq!(registry.lookup(0), Some(&first));
    let (message, length) = DataMessage::decode(&registry, 0, &[0x01, 0xFF], 0).unwrap();
    assert_eq!(length, 2);
    assert_eq!(message.global_message_number, 1);
    assert_eq!(
        message.fields,
        vec![DataField { field_number: 3, value: DecodedValue::Unsigned(0xFF01) }]
    );
    registry.register(0, second.clone());
    assert_eq!(registry.lookup(0), Some(&second));
    assert_eq!(registry.lookup(1), Some(&other));
    let (message, length) = DataMessage::decode(&registry, 0, &[0x01, 0xFF], 0).unwrap();
    assert_eq!(length, 2);
    assert_eq!(message.global_message_number, 2);
    assert_eq!(
        message.fields,
        vec![
            DataField { field_number: 4, value: DecodedValue::Unsigned(1) },
            DataField { field_number: 5, value: DecodedValue::Signed(-1) },
        ]
    );
}

#[test]
fn redefinition_in_a_stream() {
    let records = [
        0x40, 0, 0, 1, 0, 1, 3, 2, 0x84, // slot 0: one uint16
        0x00, 0x01, 0xFF, //
        0x40, 0, 0, 2, 0, 2, 4, 1, 0x02, 5, 1, 0x01, // slot 0 anew: uint8, sint8
        0x00, 0x01, 0xFF,
    ];
    let report = decode(&file(&records));
    assert_eq!(report.error, None);
    assert_eq!(report.crc_mismatch, None);
    assert_eq!(report.messages.len(), 2);
    assert_eq!(report.messages[0].global_message_number, 1);
    assert_eq!(
        report.messages[0].fields,
        vec![DataField { field_number: 3, value: DecodedValue::Unsigned(0xFF01) }]
    );
    assert_eq!(report.messages[1].global_message_number, 2);
    assert_eq!(
        report.messages[1].fields,
        vec![
            DataField { field_number: 4, value: DecodedValue::Unsigned(1) },
            DataField { field_number: 5, value: DecodedValue::Signed(-1) },
        ]
    );
}

#[test]
fn definition_parse_reads_fields_and_developer_fields() {
    let block = [7, 1, 0x01, 0x02, 2, 253, 4, 0x86, 0, 1, 0x00, 1, 9, 3, 2, 0xEE];
    let (parsed, length) = DefinitionMessage::parse(&block, 15, true).unwrap();
    assert_eq!(length, 15);
    assert_eq!(
        parsed,
        DefinitionMessage {
            reserved: 7,
            endianness: Endianness::Big,
            global_message_number: 0x0102,
            fields: vec![
                FieldDefinition { field_number: 253, size: 4, base_type: 0x86 },
                FieldDefinition { field_number: 0, size: 1, base_type: 0x00 },
            ],
            developer_fields: vec![DeveloperFieldDefinition {
                field_number: 9,
                size: 3,
                developer_data_index: 2,
            }],
        }
    );
    assert_eq!(parsed.record_length(), 8);
    let (plain, length) = DefinitionMessage::parse(&block, 15, false).unwrap();
    assert_eq!(length, 11);
    assert_eq!(plain.developer_fields, vec![]);
    assert_eq!(plain.record_length(), 5);
}

#[test]
fn definition_cut_short_is_incomplete() {
    let block = [0, 0, 0, 0, 2, 253, 4, 0x86, 0, 1, 0x00, 1, 9, 3, 2];
    let error = DefinitionMessage::parse(&block[..4], 15, false).unwrap_err();
    assert_eq!((error.kind, error.offset, error.expected, error.actual),
        (ErrorKind::IncompleteData, 15, 5, 4));
    let error = DefinitionMessage::parse(&block[..10], 15, false).unwrap_err();
    assert_eq!((error.kind, error.offset, error.expected, error.actual),
        (ErrorKind::IncompleteData, 20, 6, 5));
    let error = DefinitionMessage::parse(&block[..11], 15, true).unwrap_err();
    assert_eq!((error.kind, error.offset, error.expected, error.actual),
        (ErrorKind::IncompleteData, 26, 1, 0));
    let error = DefinitionMessage::parse(&block[..14], 15, true).unwrap_err();
    assert_eq!((error.kind, error.offset, error.expected, error.actual),
        (ErrorKind::IncompleteData, 27, 3, 2));
    assert!(DefinitionMessage::parse(&block, 15, true).is_ok());
}

#[test]
fn data_record_cut_short_is_incomplete() {
    let layout = definition(
        1,
        vec![
            FieldDefinition { field_number: 3, size: 2, base_type: 0x84 },
            FieldDefinition { field_number: 4, size: 4, base_type: 0x86 },
        ],
    );
    let error = DataMessage::decode_with(&layout, &[1, 2, 3, 4, 5], 40).unwrap_err();
    assert_eq!((error.kind, error.offset, error.expected, error.actual),
        (ErrorKind::IncompleteData, 40, 6, 5));
}

#[test]
fn truncated_stream_keeps_the_records_before_the_cut() {
    let records = [0x40, 0, 0, 0, 0, 1, 1, 2, 0x84, 0x00, 10, 0, 0x00, 20, 0];
    let bytes = file(&records);
    let report = decode(&bytes[..bytes.len() - 3]);
    assert_eq!(report.messages.len(), 1);
    assert_eq!(report.error.unwrap().kind, ErrorKind::IncompleteData);
    let report = decode(&bytes[..bytes.len() - 1]);
    assert_eq!(report.messages.len(), 2);
    let error = report.error.unwrap();
    assert_eq!((error.kind, error.offset, error.expected, error.actual),
        (ErrorKind::IncompleteData, 29, 2, 1));
    let report = decode(&bytes[..14 + 3]);
    assert_eq!(report.messages.len(), 0);
    assert_eq!(report.error.unwrap().kind, ErrorKind::IncompleteData);
    let report = decode(&bytes[..14]);
    assert_eq!(report.error.unwrap().kind, ErrorKind::IncompleteData);
}

#[test]
fn bad_header_stops_the_session() {
    let mut bytes = SAMPLE;
    bytes[0] = 13;
    let report = decode(&bytes);
    assert_eq!(report.header, None);
    assert_eq!(report.messages, vec![]);
    assert_eq!(report.error.unwrap().kind, ErrorKind::Format);
    let mut decoder = FitStreamDecoder::new(&bytes);
    assert_eq!(decoder.next_message().unwrap_err().kind, ErrorKind::Format);
    assert_eq!(decoder.state(), DecoderState::Done);
    assert_eq!(decoder.next_message(), Ok(None));
}

#[test]
fn empty_record_area_goes_straight_to_the_trailer() {
    let bytes = file(&[]);
    let report = decode(&bytes);
    assert_eq!(report.messages, vec![]);
    assert_eq!(report.error, None);
    assert_eq!(report.crc_mismatch, None);
}

#[test]
fn developer_fields_are_kept_as_bytes() {
    let records = [
        0x60, 0, 0, 0, 0, 1, 1, 1, 0x02, 1, 9, 3, 2, // definition with one developer field
        0x00, 10, 0xA, 0xB, 0xC,
    ];
    let report = decode(&file(&records));
    assert_eq!(report.error, None);
    assert_eq!(report.crc_mismatch, None);
    assert_eq!(
        report.messages,
        vec![DataMessage {
            global_message_number: 0,
            fields: vec![DataField { field_number: 1, value: DecodedValue::Unsigned(10) }],
            developer_fields: vec![DeveloperField {
                field_number: 9,
                developer_data_index: 2,
                data: vec![0xA, 0xB, 0xC],
            }],
            timestamp: None,
        }]
    );
}

#[test]
fn compressed_timestamp_records_in_a_stream() {
    let records = [
        0x40, 0, 0, 0, 0, 2, 253, 4, 0x86, 1, 1, 0x02, // slot 0: timestamp, uint8
        0x41, 0, 0, 0, 0, 1, 1, 1, 0x02, // slot 1: uint8
        0x00, 0x3E, 0x00, 0x00, 0x10, 1, // timestamp 0x1000003E: low five bits are 30
        0xA0 | 31, 2, // slot 1, offset 31
        0xA0 | 2, 3, // slot 1, offset 2: rolls over
        0xA0 | 2, 4, // slot 1, offset 2 again: same second
    ];
    let report = decode(&file(&records));
    assert_eq!(report.error, None);
    assert_eq!(report.crc_mismatch, None);
    assert_eq!(report.messages.len(), 4);
    assert_eq!(report.messages[0].timestamp, None);
    assert_eq!(report.messages[1].timestamp, Some(0x1000_003F));
    assert_eq!(report.messages[2].timestamp, Some(0x1000_003E + 4));
    assert_eq!(report.messages[3].timestamp, Some(0x1000_003E + 4));
    assert_eq!(report.messages[2].fields[0].value, DecodedValue::Unsigned(3));
}

#[test]
fn unknown_base_type_in_a_stream_is_no_failure() {
    let records = [0x40, 0, 0, 0, 0, 2, 1, 2, 0x1F, 2, 1, 0x02, 0x00, 0xDE, 0xAD, 5];
    let report = decode(&file(&records));
    assert_eq!(report.error, None);
    assert_eq!(
        report.messages[0].fields,
        vec![
            DataField { field_number: 1, value: DecodedValue::Raw(vec![0xDE, 0xAD]) },
            DataField { field_number: 2, value: DecodedValue::Unsigned(5) },
        ]
    );
}

#[test]
fn timestamp_field_sets_the_running_timestamp() {
    let message = sample_message();
    assert_eq!(message.timestamp_after(5), 0x1234_5678);
    let plain = DataMessage {
        global_message_number: 0,
        fields: vec![DataField { field_number: 1, value: DecodedValue::Unsigned(9) }],
        developer_fields: vec![],
        timestamp: None,
    };
    assert_eq!(plain.timestamp_after(5), 5);
}
