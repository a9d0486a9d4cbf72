use hwp::reader::ByteReader;

#[test]
fn test_read_basic_types() {
    let data = vec![
        0x01, 0x02, // u16: 0x0201 (513)
        0x03, 0x04, 0x05, 0x06, // u32: 0x06050403
        0xFF, // u8: 255
        0x80, // i8: -128
    ];

    let mut reader = ByteReader::new(&data);

    assert_eq!(reader.read_u16().unwrap(), 0x0201);
    assert_eq!(reader.read_u32().unwrap(), 0x06050403);
    assert_eq!(reader.read_u8().unwrap(), 0xFF);
    assert_eq!(reader.read_i8().unwrap(), -128);
    assert!(reader.is_eof());
}

#[test]
fn test_utf16_string() {
    // Two Korean syllables in UTF-16LE with a null terminator.
    let data = vec![
        0x5C, 0xD5, // first syllable
        0x00, 0xAE, // second syllable
        0x00, 0x00, // null terminator
    ];

    let mut reader = ByteReader::new(&data);
    let s = reader.read_utf16_string().unwrap();
    assert_eq!(s, "한글");
}

#[test]
fn test_buffer_underflow() {
    let data = vec![0x01, 0x02];
    let mut reader = ByteReader::new(&data);

    assert!(reader.read_u32().is_err());
    assert_eq!(reader.read_u16().unwrap(), 0x0201);
    assert!(reader.read_u8().is_err());
}

#[test]
fn test_read_u64_and_skip_and_seek() {
    let data = vec![1, 0, 0, 0, 0, 0, 0, 0, 9, 9];
    let mut reader = ByteReader::new(&data);
    assert_eq!(reader.read_u64().unwrap(), 1);
    assert_eq!(reader.position(), 8);
    assert!(reader.skip(3).is_err());
    reader.skip(2).unwrap();
    assert!(reader.is_eof());
    reader.seek(0).unwrap();
    assert_eq!(reader.remaining(), 10);
    assert!(reader.seek(11).is_err());
}

#[test]
fn test_read_utf16_fixed_truncates_at_null() {
    // "AB\0C" as four UTF-16LE units; the fixed-width read keeps "AB".
    let data = vec![0x41, 0x00, 0x42, 0x00, 0x00, 0x00, 0x43, 0x00];
    let mut reader = ByteReader::new(&data);
    let s = reader.read_utf16_string_n(4).unwrap();
    assert_eq!(s, "AB");
    assert_eq!(reader.position(), 8);
}

#[test]
fn test_utf16_malformed_surrogate_fails() {
    // A lone high surrogate followed by a terminator must not decode.
    let data = vec![0x00, 0xD8, 0x00, 0x00];
    let mut reader = ByteReader::new(&data);
    assert!(reader.read_utf16_string().is_err());
}

#[test]
fn test_euc_kr_ascii() {
    // ASCII bytes are valid EUC-KR and decode to themselves.
    let data = vec![b'h', b'w', b'p', 0x00, b'x'];
    let mut reader = ByteReader::new(&data);
    let s = reader.read_euc_kr_string().unwrap();
    assert_eq!(s, "hwp");
    assert_eq!(reader.position(), 4);

    let data2 = vec![b'a', b'b', 0x00, b'c'];
    let mut reader2 = ByteReader::new(&data2);
    let s2 = reader2.read_euc_kr_string_n(4).unwrap();
    assert_eq!(s2, "ab");
}
