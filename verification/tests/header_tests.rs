use hwp::models::header::{HEADER_SIZE, HwpHeader, HwpProperties};
use hwp::parser::header::parse_header;
use hwp::parse;
use hwp::reader::ByteReader;
use hwp::version::HwpVersion;

const HWP_SIGNATURE: [u8; 32] = [
    b'H', b'W', b'P', b' ', b'D', b'o', b'c', b'u', b'm', b'e', b'n', b't', b' ', b'F', b'i',
    b'l', b'e', 0, 0, 0, 0, 0, 0, 0, 0, 0, 0, 0, 0, 0, 0, 0,
];

#[test]
fn test_parse_valid_header() {
    let mut data = Vec::new();

    data.extend_from_slice(&HWP_SIGNATURE);

    // Version 5.0.0.0
    data.extend_from_slice(&0x05000000u32.to_le_bytes());

    // Properties: the compressed flag set
    data.extend_from_slice(&0x00000001u32.to_le_bytes());

    data.extend_from_slice(&[0u8; 216]);

    let mut reader = ByteReader::new(&data);
    let header = parse_header(&mut reader).unwrap();

    assert_eq!(header.version.major, 5);
    assert_eq!(header.version.minor, 0);
    assert_eq!(header.version.build, 0);
    assert_eq!(header.version.revision, 0);
    assert!(header.properties.compressed);
    assert!(!header.properties.has_password);
}

#[test]
fn header_test_invalid_signature() {
    let mut data = vec![0u8; 256];
    data[0..4].copy_from_slice(b"FAKE");

    let mut reader = ByteReader::new(&data);
    let result = parse_header(&mut reader);

    assert!(matches!(result, Err(hwp::errors::HwpError::InvalidSignature)));
}

#[test]
fn test_header_size() {
    assert_eq!(HEADER_SIZE, 256);
}

#[test]
fn test_parse_minimal_header() {
    let mut data = Vec::new();

    data.extend_from_slice(&HWP_SIGNATURE);

    let version = HwpVersion::new(5, 0, 0, 0);
    data.extend_from_slice(&version.to_u32().to_le_bytes());

    data.extend_from_slice(&0u32.to_le_bytes());

    data.extend_from_slice(&[0u8; 216]);

    let result = parse(&data);

    match result {
        Ok(document) => {
            assert_eq!(document.header.version.major, 5);
            assert_eq!(document.header.version.minor, 0);
            assert!(!document.header.is_compressed());
            assert!(!document.header.has_password());
        }
        Err(e) => {
            panic!("Failed to parse valid header: {}", e.message());
        }
    }
}

#[test]
fn integration_test_test_invalid_signature() {
    let mut data = vec![0u8; 256];
    data[0..4].copy_from_slice(b"FAKE");

    let result = parse(&data);
    assert!(result.is_err());
}

#[test]
fn test_unsupported_version() {
    let mut data = Vec::new();

    data.extend_from_slice(&HWP_SIGNATURE);

    let version = HwpVersion::new(3, 0, 0, 0);
    data.extend_from_slice(&version.to_u32().to_le_bytes());

    data.extend_from_slice(&0u32.to_le_bytes());
    data.extend_from_slice(&[0u8; 216]);

    let result = parse(&data);
    assert!(result.is_err());

    if let Err(e) = result {
        assert!(e.message().contains("Unsupported"));
    }
}

#[test]
fn test_empty_file_handling() {
    let empty_data = vec![];
    let result = parse(&empty_data);

    assert!(result.is_err(), "Empty file should fail to parse");

    match result {
        Err(e) => {
            assert!(
                format!("{:?}", e).contains("EOF")
                    || format!("{:?}", e).contains("Insufficient")
                    || format!("{:?}", e).contains("Invalid")
                    || format!("{:?}", e).contains("BufferUnderflow")
                    || format!("{:?}", e).contains("Underflow"),
                "Expected an end-of-data error for an empty file"
            );
        }
        Ok(_) => panic!("Empty file should not parse successfully"),
    }
}

#[test]
fn test_invalid_version_handling() {
    let mut invalid_version_data = vec![
        b'H', b'W', b'P', b' ', b'D', b'o', b'c', b'u', b'm', b'e', b'n', b't', b' ', b'F', b'i',
        b'l', b'e', 0, 0, 0, 0, 0, 0, 0, 0, 0, 0, 0, 0, 0, 0, 0, // signature
        255, 255, 255, 255, // version 255.255.255.255
        0, 0, 0, 0, // flags
    ];
    invalid_version_data.extend(vec![0u8; 216]);

    let result = parse(&invalid_version_data);

    match result {
        Ok(doc) => {
            // Version 255 is technically valid but unusual.
            assert_eq!(doc.header.version.major, 255);
        }
        Err(_) => {}
    }
}

#[test]
fn test_corrupted_cfb_handling() {
    // The container magic followed by garbage instead of a container.
    let mut corrupted_cfb_data = vec![
        0xD0, 0xCF, 0x11, 0xE0, 0xA1, 0xB1, 0x1A, 0xE1, 0x00, 0x00, 0x00, 0x00, 0x00, 0x00, 0x00,
        0x00, 0x00, 0x00, 0x00, 0x00, 0x00, 0x00, 0x00, 0x3E, 0x00, 0x03, 0x00, 0xFE, 0xFF, 0x09,
        0x00, 0x06,
    ];

    corrupted_cfb_data.extend(b"This is not a valid compound file container structure!");

    let result = parse(&corrupted_cfb_data);

    assert!(result.is_err(), "Corrupted container should fail to parse");

    match result {
        Err(e) => {
            assert!(
                format!("{:?}", e).contains("CFB")
                    || format!("{:?}", e).contains("Container")
                    || format!("{:?}", e).contains("Invalid")
                    || format!("{:?}", e).contains("signature")
                    || format!("{:?}", e).contains("Signature"),
                "Expected a container error for a corrupted container"
            );
        }
        Ok(_) => panic!("Corrupted container should not parse successfully"),
    }
}

#[test]
fn test_password_protected_handling() {
    let mut password_data = vec![
        b'H', b'W', b'P', b' ', b'D', b'o', b'c', b'u', b'm', b'e', b'n', b't', b' ', b'F', b'i',
        b'l', b'e', 0, 0, 0, 0, 0, 0, 0, 0, 0, 0, 0, 0, 0, 0, 0, // signature
        0, 0, 0, 0x05, // version 5.0.0.0 (little-endian)
        0x02, 0, 0, 0, // flags: password protected
    ];
    password_data.extend(vec![0u8; 216]);

    let result = parse(&password_data);

    match result {
        Ok(doc) => {
            assert!(doc.header.has_password(), "Should detect password flag");
        }
        Err(e) => {
            assert!(
                format!("{:?}", e).contains("Password")
                    || format!("{:?}", e).contains("Protected")
                    || format!("{:?}", e).contains("Unsupported"),
                "Expected a password error"
            );
        }
    }
}

#[test]
fn test_partial_corruption_recovery() {
    // A valid signature followed by too little data must not panic.
    let partially_corrupt = vec![
        b'H', b'W', b'P', b' ', b'D', b'o', b'c', b'u', b'm', b'e', b'n', b't', b' ', b'F', b'i',
        b'l', b'e', 0, 0, 0, 0, 0, 0, 0, 0, 0, 0, 0, 0, 0, 0, 0, // signature
        5, 0, 0, 0, // version
        0, 0, 0, 0, // flags
    ];

    let _ = parse(&partially_corrupt);
}

#[test]
fn test_memory_stability() {
    let mut data = vec![
        b'H', b'W', b'P', b' ', b'D', b'o', b'c', b'u', b'm', b'e', b'n', b't', b' ', b'F', b'i',
        b'l', b'e', 0, 0, 0, 0, 0, 0, 0, 0, 0, 0, 0, 0, 0, 0, 0, // signature
        5, 0, 0, 0, // version
        0, 0, 0, 0, // flags
    ];
    data.extend(vec![0u8; 216]);

    // Parse the same data many times.
    for _i in 0..100 {
        let _result = parse(&data);
    }
}

#[test]
fn test_properties_round_trip() {
    let p = HwpProperties::from_u32(0x0001_2345);
    let packed = p.to_u32();
    let p2 = HwpProperties::from_u32(packed);
    assert_eq!(p.compressed, p2.compressed);
    assert_eq!(p.has_password, p2.has_password);
    assert_eq!(p.has_script, p2.has_script);
    assert_eq!(p.has_order_field_control, p2.has_order_field_control);
    assert_eq!(p.reserved_bits, p2.reserved_bits);
}

#[test]
fn test_version_accessors() {
    let v = HwpVersion::from_u32(0x05010203);
    assert_eq!(v.major, 5);
    assert_eq!(v.minor, 1);
    assert_eq!(v.build, 2);
    assert_eq!(v.revision, 3);
    assert!(v.is_supported());
    assert_eq!(v.to_u32(), 0x05010203);
    assert_eq!(v.to_version_string(), "5.1.2.3");

    let old = HwpVersion::new(3, 0, 0, 0);
    assert!(!old.is_supported());

    let header = HwpHeader {
        signature: HWP_SIGNATURE.to_vec(),
        version: HwpVersion::new(5, 0, 0, 0),
        properties: HwpProperties::from_u32(0x15),
        reserved: vec![0; 216],
    };
    assert!(header.is_compressed());
    assert!(!header.has_password());
    assert!(header.is_drm_document());
}
