use hwp::ctrl_id::CtrlId;
use hwp::models::paragraph::ExtendedControl;
use hwp::models::record::Record;
use hwp::parser::record::RecordDataParser;
use hwp::parser::record::RecordParser;
use hwp::parser::section::{parse_body_text, parse_para_text, parse_section};
use hwp::text_extractor::{trim_text, TextExtractor};
use hwp::validator::RecordContext;

fn header_bytes(tag: u32, level: u32, size: u32) -> [u8; 4] {
    (tag | (level << 10) | (size << 12)).to_le_bytes()
}

#[test]
fn test_framing_round_trip_scenario() {
    // Any record built as header(tag, level, size) + size payload bytes
    // decodes back to exactly that tag, level, size and payload.
    let payload: Vec<u8> = (0u8..37u8).collect();
    let mut data = Vec::new();
    data.extend_from_slice(&header_bytes(0x0010, 2, payload.len() as u32));
    data.extend_from_slice(&payload);

    let mut parser = RecordParser::new_with_context(&data, RecordContext::DocInfo);
    let record: Record = parser.parse_next_record().unwrap().unwrap();
    assert_eq!(record.tag_id, 0x0010);
    assert_eq!(record.level, 2);
    assert_eq!(record.size, payload.len() as u32);
    assert_eq!(record.data, payload);
}

#[test]
fn test_extended_size_equivalence_scenario() {
    // The inline and extended encodings of the same record decode to the
    // same record value.
    let payload: Vec<u8> = (0u8..48u8).collect();

    let mut inline = Vec::new();
    inline.extend_from_slice(&header_bytes(0x0013, 1, payload.len() as u32));
    inline.extend_from_slice(&payload);

    let mut extended = Vec::new();
    extended.extend_from_slice(&header_bytes(0x0013, 1, 0xFFFFF));
    extended.extend_from_slice(&(payload.len() as u32).to_le_bytes());
    extended.extend_from_slice(&payload);

    let mut p1 = RecordParser::new_with_context(&inline, RecordContext::DocInfo);
    let r1 = p1.parse_next_record().unwrap().unwrap();
    let mut p2 = RecordParser::new_with_context(&extended, RecordContext::DocInfo);
    let r2 = p2.parse_next_record().unwrap().unwrap();

    assert_eq!(r1.tag_id, r2.tag_id);
    assert_eq!(r1.level, r2.level);
    assert_eq!(r1.size, r2.size);
    assert_eq!(r1.data, r2.data);
}

#[test]
fn test_extended_size_small_payload() {
    // Extended-size equivalence holds down to tiny payloads, even at the
    // very end of the stream.
    let payload: Vec<u8> = vec![0xAB, 0xCD];

    let mut inline = Vec::new();
    inline.extend_from_slice(&header_bytes(0x0011, 0, payload.len() as u32));
    inline.extend_from_slice(&payload);

    let mut extended = Vec::new();
    extended.extend_from_slice(&header_bytes(0x0011, 0, 0xFFFFF));
    extended.extend_from_slice(&(payload.len() as u32).to_le_bytes());
    extended.extend_from_slice(&payload);

    let mut p1 = RecordParser::new_with_context(&inline, RecordContext::DocInfo);
    let r1 = p1.parse_next_record().unwrap().unwrap();
    let mut p2 = RecordParser::new_with_context(&extended, RecordContext::DocInfo);
    let r2 = p2.parse_next_record().unwrap().unwrap();

    assert_eq!(r1.tag_id, r2.tag_id);
    assert_eq!(r1.level, r2.level);
    assert_eq!(r1.size, r2.size);
    assert_eq!(r1.data, r2.data);
    assert_eq!(r2.data, vec![0xAB, 0xCD]);
}

#[test]
fn test_recovery_bounded_progress() {
    // A corrupted record followed by a well-formed one: recovery-enabled
    // decoding yields the well-formed record and reports exactly one
    // recovery; recovery-disabled decoding fails outright.
    let mut data = Vec::new();
    data.extend_from_slice(&header_bytes(0x0399, 0, 8)); // invalid tag
    data.extend_from_slice(&[0xEE; 8]);
    data.extend_from_slice(&header_bytes(0x0015, 0, 68)); // character shape
    data.extend_from_slice(&[0x11; 68]);

    let mut strict = RecordParser::new_with_context(&data, RecordContext::DocInfo);
    assert!(strict.parse_next_record().is_err());

    let mut lenient = RecordParser::new_with_context(&data, RecordContext::DocInfo);
    lenient.enable_recovery(true);
    let rec = lenient.parse_next_record().unwrap().unwrap();
    assert_eq!(rec.tag_id, 0x0015);
    assert_eq!(rec.data, vec![0x11; 68]);
    assert_eq!(lenient.recovery_count(), 1);
}

#[test]
fn test_text_control_codes() {
    // UTF-16LE for "A" + tab + "B" + null + "C": the decoded text stops
    // at the null and keeps the tab.
    let data: Vec<u8> = vec![
        0x41, 0x00, // 'A'
        0x09, 0x00, // tab control
        0x42, 0x00, // 'B'
        0x00, 0x00, // terminator
        0x43, 0x00, // 'C' (never decoded)
    ];
    let text = parse_para_text(&data).unwrap();
    assert_eq!(text, "A\tB");
}

#[test]
fn test_text_break_and_marker_controls() {
    // Column and section breaks become newlines; the hyphen and the
    // non-breaking space controls become their characters.
    let data: Vec<u8> = vec![
        0x41, 0x00, // 'A'
        0x18, 0x00, // column break
        0x42, 0x00, // 'B'
        0x1E, 0x00, // hyphen marker
        0x1F, 0x00, // non-breaking space marker
        0x43, 0x00, // 'C'
    ];
    let text = parse_para_text(&data).unwrap();
    assert_eq!(text, "A\nB-\u{00A0}C");
}

#[test]
fn test_unknown_control_codes_are_skipped() {
    let data: Vec<u8> = vec![
        0x04, 0x00, // reserved control: skipped
        0x41, 0x00, // 'A'
        0x0E, 0x00, // reserved control: skipped
        0x42, 0x00, // 'B'
    ];
    let text = parse_para_text(&data).unwrap();
    assert_eq!(text, "AB");
}

fn utf16_bytes(s: &str) -> Vec<u8> {
    s.encode_utf16().flat_map(|u| u.to_le_bytes()).collect()
}

#[test]
fn test_parse_section_with_paragraphs() {
    // Two paragraphs, each a boundary record followed by a text record.
    let mut para_header = Vec::new();
    para_header.extend_from_slice(&0u32.to_le_bytes()); // text_count
    para_header.extend_from_slice(&0u32.to_le_bytes()); // control_mask
    para_header.extend_from_slice(&0u16.to_le_bytes()); // para_shape_id
    para_header.push(0); // style_id
    para_header.push(0); // division_type
    para_header.extend_from_slice(&0u16.to_le_bytes()); // char_shape_count
    para_header.extend_from_slice(&0u16.to_le_bytes()); // range_tag_count
    para_header.extend_from_slice(&0u16.to_le_bytes()); // line_align_count
    para_header.extend_from_slice(&0u32.to_le_bytes()); // instance_id

    let text1 = utf16_bytes("first");
    let text2 = utf16_bytes("second");

    let mut data = Vec::new();
    data.extend_from_slice(&header_bytes(0x0050, 0, para_header.len() as u32));
    data.extend_from_slice(&para_header);
    data.extend_from_slice(&header_bytes(0x0051, 1, text1.len() as u32));
    data.extend_from_slice(&text1);
    data.extend_from_slice(&header_bytes(0x0050, 0, para_header.len() as u32));
    data.extend_from_slice(&para_header);
    data.extend_from_slice(&header_bytes(0x0051, 1, text2.len() as u32));
    data.extend_from_slice(&text2);

    let section = parse_section(&data, 0).unwrap();
    assert_eq!(section.paragraphs.len(), 2);
    assert_eq!(section.paragraphs[0].text, "first");
    assert_eq!(section.paragraphs[1].text, "second");

    let sections = parse_body_text(&data).unwrap();
    assert_eq!(sections.len(), 1);
    assert_eq!(sections[0].paragraphs.len(), 2);

    let extracted = TextExtractor::extract_from_section(&data).unwrap();
    assert_eq!(extracted, "first\nsecond");
}

#[test]
fn test_parse_section_char_shapes_and_segments() {
    let mut para_header = Vec::new();
    para_header.extend_from_slice(&0u32.to_le_bytes());
    para_header.extend_from_slice(&0u32.to_le_bytes());
    para_header.extend_from_slice(&0u16.to_le_bytes());
    para_header.push(0);
    para_header.push(0);
    para_header.extend_from_slice(&2u16.to_le_bytes()); // char_shape_count: 2
    para_header.extend_from_slice(&0u16.to_le_bytes());
    para_header.extend_from_slice(&0u16.to_le_bytes());
    para_header.extend_from_slice(&0u32.to_le_bytes());

    let mut shapes = Vec::new();
    shapes.extend_from_slice(&0u32.to_le_bytes());
    shapes.extend_from_slice(&7u16.to_le_bytes());
    shapes.extend_from_slice(&5u32.to_le_bytes());
    shapes.extend_from_slice(&9u16.to_le_bytes());

    let mut seg = Vec::new();
    for v in [10u32, 20, 30, 40, 50, 60, 70, 80] {
        seg.extend_from_slice(&v.to_le_bytes());
    }

    let mut data = Vec::new();
    data.extend_from_slice(&header_bytes(0x0050, 0, para_header.len() as u32));
    data.extend_from_slice(&para_header);
    data.extend_from_slice(&header_bytes(0x0052, 1, shapes.len() as u32));
    data.extend_from_slice(&shapes);
    data.extend_from_slice(&header_bytes(0x0053, 1, seg.len() as u32));
    data.extend_from_slice(&seg);

    let section = parse_section(&data, 0).unwrap();
    assert_eq!(section.paragraphs.len(), 1);
    let para = &section.paragraphs[0];
    assert_eq!(para.header.char_shape_count, 2);
    assert_eq!(para.char_shapes.len(), 2);
    assert_eq!(para.char_shapes[0].position, 0);
    assert_eq!(para.char_shapes[0].shape_id, 7);
    assert_eq!(para.char_shapes[1].position, 5);
    assert_eq!(para.char_shapes[1].shape_id, 9);
    assert_eq!(para.line_segments.len(), 1);
    assert_eq!(para.line_segments[0].text_start_pos, 10);
    assert_eq!(para.line_segments[0].line_height, 20);
    assert_eq!(para.line_segments[0].flags, 80);
}

#[test]
fn test_trim_text_edges() {
    assert_eq!(trim_text(&" \t\nabc \r\n".to_string()), "abc");
    assert_eq!(trim_text(&"".to_string()), "");
    assert_eq!(trim_text(&"\n\n".to_string()), "");
    assert_eq!(trim_text(&"a".to_string()), "a");
}

#[test]
fn test_varint_too_long() {
    // Five continuation bytes overflow a 32-bit value.
    let data = vec![0x80, 0x80, 0x80, 0x80, 0x80, 0x01];
    let mut parser = RecordDataParser::new(&data);
    assert!(parser.read_varint().is_err());
}

#[test]
fn test_ctrl_id_and_extended_controls() {
    assert_eq!(CtrlId::from_u32(0x00746c62), Some(CtrlId::Table));
    assert_eq!(CtrlId::from_u32(0x12345678), None);
    assert_eq!(ExtendedControl::from_ctrl_id(0x00746c62), ExtendedControl::Table);
    assert_eq!(
        ExtendedControl::from_ctrl_id(0x12345678),
        ExtendedControl::Other(0x12345678)
    );
}
