use hwp::models::record::RecordHeader;
use hwp::parser::record::RecordParser;
use hwp::validator::{DefaultRecordValidator, RecordContext};

/// Helper to create a record header.
fn create_header(tag_id: u16, level: u16, size: u32) -> Vec<u8> {
    let tag_id = (tag_id & 0x3FF) as u32; // 10 bits
    let level = (level & 0x3) as u32; // 2 bits
    let size = size & 0xFFFFF; // 20 bits
    let value = tag_id | (level << 10) | (size << 12);
    value.to_le_bytes().to_vec()
}

#[test]
fn test_valid_record_parsing() {
    let mut data = Vec::new();

    data.extend(create_header(0x0010, 0, 36));
    data.extend(vec![0; 36]);

    let mut parser = RecordParser::new_with_context(&data, RecordContext::DocInfo);
    let record = parser.parse_next_record().unwrap().unwrap();

    assert_eq!(record.tag_id, 0x0010);
    assert_eq!(record.size, 36);
}

#[test]
fn test_invalid_tag_id_validation() {
    let mut data = Vec::new();

    data.extend(create_header(0x9999, 0, 10));
    data.extend(vec![0; 10]);

    let mut parser = RecordParser::new_with_context(&data, RecordContext::DocInfo);
    let result = parser.parse_next_record();

    assert!(result.is_err());
    assert!(result.unwrap_err().message().contains("Invalid tag ID"));
}

#[test]
fn test_buffer_underflow_validation() {
    let mut data = Vec::new();

    // The header says 100 bytes but only 10 are available.
    data.extend(create_header(0x0010, 0, 100));
    data.extend(vec![0; 10]);

    let mut parser = RecordParser::new_with_context(&data, RecordContext::DocInfo);
    let result = parser.parse_next_record();

    assert!(result.is_err());
}

#[test]
fn test_size_validation() {
    let mut data = Vec::new();

    // A document-properties record below its 22-byte minimum.
    data.extend(create_header(0x0010, 0, 10));
    data.extend(vec![0; 10]);

    let mut parser = RecordParser::new_with_context(&data, RecordContext::DocInfo);
    let result = parser.parse_next_record();

    assert!(result.is_err());
    assert!(result.unwrap_err().message().contains("too small"));
}

#[test]
fn validation_tests_test_extended_size_record() {
    let mut data = Vec::new();

    data.extend(create_header(0x0010, 0, 0xFFFFF));
    data.extend(100u32.to_le_bytes()); // actual size: 100 bytes
    data.extend(vec![0; 100]);

    let mut parser = RecordParser::new_with_context(&data, RecordContext::DocInfo);
    let record = parser.parse_next_record().unwrap().unwrap();

    assert_eq!(record.tag_id, 0x0010);
    assert_eq!(record.size, 100);
}

#[test]
fn test_recovery_from_corrupted_data() {
    let mut data = Vec::new();

    // A corrupted record with an invalid tag.
    data.extend(create_header(0x9999, 0, 10));
    data.extend(vec![0xFF; 10]);

    // A valid record that the decoder should resynchronise on.
    data.extend(create_header(0x0013, 0, 20)); // face name
    data.extend(vec![0; 20]);

    let mut parser = RecordParser::new_with_context(&data, RecordContext::DocInfo);
    parser.enable_recovery(true);

    let record = parser.parse_next_record().unwrap();

    if let Some(rec) = record {
        assert_eq!(rec.tag_id, 0x0013);
        assert_eq!(parser.recovery_count(), 1);
    } else {
        panic!("Recovery failed to find valid record");
    }
}

#[test]
fn test_multiple_records_with_corruption() {
    let mut data = Vec::new();

    data.extend(create_header(0x0010, 0, 36));
    data.extend(vec![0; 36]);

    // A corrupted header whose size would run past the buffer.
    data.extend(create_header(0x0013, 0, 10000));

    data.extend(create_header(0x0015, 0, 68)); // character shape
    data.extend(vec![0; 68]);

    let mut parser = RecordParser::new_with_context(&data, RecordContext::DocInfo);

    let rec1 = parser.parse_next_record().unwrap().unwrap();
    assert_eq!(rec1.tag_id, 0x0010);

    let rec2 = parser.parse_next_record();
    assert!(rec2.is_err());

    let mut parser_with_recovery = RecordParser::new_with_context(&data, RecordContext::DocInfo);
    parser_with_recovery.enable_recovery(true);

    let rec1 = parser_with_recovery.parse_next_record().unwrap().unwrap();
    assert_eq!(rec1.tag_id, 0x0010);

    let rec2 = parser_with_recovery.parse_next_record();
    assert!(rec2.is_ok());
}

#[test]
fn test_lenient_validator() {
    let mut data = Vec::new();

    data.extend(create_header(0x03FF, 0, 20)); // an unknown tag
    data.extend(vec![0; 20]);

    let mut parser = RecordParser::new_with_context(&data, RecordContext::DocInfo);
    parser.set_validator(DefaultRecordValidator::lenient());

    let record = parser.parse_next_record().unwrap().unwrap();
    assert_eq!(record.tag_id, 0x03FF);
}

#[test]
fn test_boundary_validation() {
    let mut data = Vec::new();

    // The record wants 50 payload bytes but only 36 follow.
    data.extend(create_header(0x0010, 0, 50));
    data.extend(vec![0; 36]);

    let mut parser = RecordParser::new_with_context(&data, RecordContext::DocInfo);
    let result = parser.parse_next_record();

    assert!(result.is_err());
}

#[test]
fn test_context_specific_validation() {
    // A paragraph header is a section tag, not a document-information tag.
    {
        let mut data = Vec::new();
        data.extend(create_header(0x0050, 0, 20));
        data.extend(vec![0; 20]);

        let mut parser = RecordParser::new_with_context(&data, RecordContext::DocInfo);
        let result = parser.parse_next_record();
        assert!(result.is_err());
    }

    {
        let mut data = Vec::new();
        data.extend(create_header(0x0050, 0, 20));
        data.extend(vec![0; 20]);

        let mut parser = RecordParser::new_with_context(&data, RecordContext::BodyText);
        let result = parser.parse_next_record();
        assert!(result.is_ok());
    }
}

#[test]
fn test_validate_header_sufficient_data() {
    let validator = DefaultRecordValidator::default();
    let value = (0x10_u32) | (0_u32 << 10) | (4_u32 << 12);
    let header = RecordHeader::from_bytes(value.to_le_bytes());

    assert!(validator.validate_header(&header, 100).is_ok());
    assert!(validator.validate_header(&header, 4).is_ok());
    assert!(validator.validate_header(&header, 3).is_err());
}

#[test]
fn test_validate_tag_id() {
    let validator = DefaultRecordValidator::default();

    assert!(validator.validate_tag_id(0x0010, RecordContext::DocInfo));
    assert!(validator.validate_tag_id(0x0013, RecordContext::DocInfo));

    assert!(!validator.validate_tag_id(0x9999, RecordContext::DocInfo));

    assert!(validator.validate_tag_id(0x0050, RecordContext::BodyText));
    assert!(validator.validate_tag_id(0x0051, RecordContext::BodyText));

    let lenient = DefaultRecordValidator::lenient();
    assert!(lenient.validate_tag_id(0x9999, RecordContext::DocInfo));
}

#[test]
fn test_validate_size() {
    let validator = DefaultRecordValidator::default();

    assert!(validator.validate_size(1000, 0x0010).is_ok());

    assert!(validator.validate_size(200 * 1024 * 1024, 0x0010).is_err());

    assert!(validator.validate_size(30, 0x0010).is_ok());
    assert!(validator.validate_size(10, 0x0010).is_err());
}

#[test]
fn test_validate_boundaries() {
    let validator = DefaultRecordValidator::default();
    let value = (0x10_u32) | (0_u32 << 10) | (4_u32 << 12);
    let header = RecordHeader::from_bytes(value.to_le_bytes());

    assert!(validator.validate_boundaries(&header, 0, 100).is_ok());
    assert!(validator.validate_boundaries(&header, 10, 18).is_ok());

    assert!(validator.validate_boundaries(&header, 10, 17).is_err());
}

#[test]
fn test_document_properties_minimum_boundary() {
    // A document-properties record of 21 bytes is rejected; 22 is accepted.
    let validator = DefaultRecordValidator::default();
    assert!(validator.validate_size(21, 0x0010).is_err());
    assert!(validator.validate_size(22, 0x0010).is_ok());

    let mut rejected = Vec::new();
    rejected.extend(create_header(0x0010, 0, 21));
    rejected.extend(vec![0; 21]);
    let mut parser = RecordParser::new_with_context(&rejected, RecordContext::DocInfo);
    assert!(parser.parse_next_record().is_err());

    let mut accepted = Vec::new();
    accepted.extend(create_header(0x0010, 0, 22));
    accepted.extend(vec![0; 22]);
    let mut parser = RecordParser::new_with_context(&accepted, RecordContext::DocInfo);
    let record = parser.parse_next_record().unwrap().unwrap();
    assert_eq!(record.size, 22);
}

#[test]
fn test_recovery_disabled_fails_outright() {
    // The same corrupted stream fails outright without recovery mode.
    let mut data = Vec::new();
    data.extend(create_header(0x9999, 0, 10));
    data.extend(vec![0xFF; 10]);
    data.extend(create_header(0x0013, 0, 20));
    data.extend(vec![0; 20]);

    let mut parser = RecordParser::new_with_context(&data, RecordContext::DocInfo);
    assert!(parser.parse_next_record().is_err());
    assert_eq!(parser.recovery_count(), 0);
}
