use hwp::models::record::{Record, RecordHeader};
use hwp::parser::doc_info_records::{
    parse_border_fill, parse_char_shape, parse_document_properties, parse_face_name,
    parse_id_mappings, parse_para_shape, parse_style,
};
use hwp::parser::record::{RecordDataParser, RecordParser};
use hwp::validator::RecordContext;

#[test]
fn test_parse_simple_record() {
    // Header: tag=0x0010 (document properties, minimum 22 bytes), level=0, size=30.
    let header_value: u32 = 0x0010 | (30 << 12);
    let header_bytes = header_value.to_le_bytes();

    let mut data = Vec::new();
    data.extend_from_slice(&header_bytes);
    data.extend_from_slice(&[0; 30]);

    let mut parser = RecordParser::new_with_context(&data, RecordContext::DocInfo);
    let record = parser.parse_next_record().unwrap().unwrap();

    assert_eq!(record.tag_id, 0x0010);
    assert_eq!(record.level, 0);
    assert_eq!(record.size, 30);
    assert_eq!(record.data.len(), 30);
}

#[test]
fn test_parse_extended_size_record() {
    // Extended size: all twenty inline size bits set.
    let header_value: u32 = 0x0010 | (0xFFFFF << 12);
    let header_bytes = header_value.to_le_bytes();

    let mut data = Vec::new();
    data.extend_from_slice(&header_bytes);
    data.extend_from_slice(&[30, 0x00, 0x00, 0x00]); // actual size: 30 bytes
    data.extend_from_slice(&[0; 30]);

    let mut parser = RecordParser::new_with_context(&data, RecordContext::DocInfo);
    let record = parser.parse_next_record().unwrap().unwrap();

    assert_eq!(record.tag_id, 0x0010);
    assert_eq!(record.level, 0);
    assert_eq!(record.size, 30);
    assert_eq!(record.data.len(), 30);
}

#[test]
fn test_parse_multiple_records() {
    let header1_value: u32 = 0x0010 | (30 << 12);
    let header2_value: u32 = 0x0013 | (10 << 12);

    let mut data = Vec::new();
    data.extend_from_slice(&header1_value.to_le_bytes());
    data.extend_from_slice(&[0; 30]);
    data.extend_from_slice(&header2_value.to_le_bytes());
    data.extend_from_slice(&[0; 10]);

    let mut parser = RecordParser::new_with_context(&data, RecordContext::DocInfo);
    let records = parser.parse_all_records().unwrap();

    assert_eq!(records.len(), 2);

    assert_eq!(records[0].tag_id, 0x0010);
    assert_eq!(records[0].data.len(), 30);

    assert_eq!(records[1].tag_id, 0x0013);
    assert_eq!(records[1].data.len(), 10);
}

#[test]
fn test_record_data_parser() {
    let record_data = vec![
        0x03, 0x00, // string length: 3 characters
        0x48, 0x00, // 'H'
        0x57, 0x00, // 'W'
        0x50, 0x00, // 'P'
    ];

    let mut data_parser = RecordDataParser::new(&record_data);
    let string = data_parser.read_hwp_string().unwrap();
    assert_eq!(string, "HWP");
}

#[test]
fn test_varint_parsing() {
    let data = vec![
        0x96, 0x01, // 150
        0x80, 0x02, // 256
    ];

    let mut parser = RecordDataParser::new(&data);
    assert_eq!(parser.read_varint().unwrap(), 150);
    assert_eq!(parser.read_varint().unwrap(), 256);
}

#[test]
fn test_record_header_parsing() {
    // tag_id (10 bits) | level (2 bits) | size (20 bits)
    let value = (0x0010_u32) | (0_u32 << 10) | (4_u32 << 12);
    let header = RecordHeader::from_bytes(value.to_le_bytes());

    assert_eq!(header.tag_id(), 0x0010);
    assert_eq!(header.level(), 0);
    assert_eq!(header.size(), 4);
    assert!(!header.has_extended_size());
}

#[test]
fn test_extended_size_record_header() {
    let value = (0x0010_u32) | (0_u32 << 10) | (0xFFFFF_u32 << 12);
    let header = RecordHeader::from_bytes(value.to_le_bytes());

    assert_eq!(header.tag_id(), 0x0010);
    assert_eq!(header.level(), 0);
    assert_eq!(header.size(), 0xFFFFF);
    assert!(header.has_extended_size());
}

#[test]
fn test_record_parsing() {
    let doc_props_header = ((0x0010_u32) | (0_u32 << 10) | (36_u32 << 12)).to_le_bytes();
    let face_name_header = ((0x0013_u32) | (0_u32 << 10) | (13_u32 << 12)).to_le_bytes();

    let mut data = vec![];

    data.extend_from_slice(&doc_props_header);
    data.extend_from_slice(&[
        0x03, 0x00, 0x01, 0x00, 0x01, 0x00, 0x01, 0x00, 0x01, 0x00, 0x01, 0x00, 0x01, 0x00, 0x64,
        0x00, 0x00, 0x00, 0x05, 0x00, 0x00, 0x00, 0x00, 0x00, 0x00, 0x00, 0x00, 0x00, 0x00, 0x00,
        0x00, 0x00, 0x00, 0x00, 0x00, 0x00,
    ]);

    data.extend_from_slice(&face_name_header);
    data.extend_from_slice(&[
        0x00, 0x05, 0x00, 0x41, 0x00, 0x72, 0x00, 0x69, 0x00, 0x61, 0x00, 0x6C, 0x00,
    ]);

    let mut parser = RecordParser::new(&data);
    let records = parser.parse_all_records().unwrap();

    assert_eq!(records.len(), 2);

    assert_eq!(records[0].tag_id, 0x0010);
    assert_eq!(records[0].level, 0);
    assert_eq!(records[0].size, 36);
    assert_eq!(records[0].data.len(), 36);

    assert_eq!(records[1].tag_id, 0x0013);
    assert_eq!(records[1].level, 0);
    assert_eq!(records[1].size, 13);
    assert_eq!(records[1].data.len(), 13);
}

#[test]
fn test_record_data_parser_hwp_string() {
    let data = vec![
        0x03, 0x00, // string length: 3 characters
        0x48, 0x00, // 'H'
        0x57, 0x00, // 'W'
        0x50, 0x00, // 'P'
    ];

    let mut parser = RecordDataParser::new(&data);
    let string = parser.read_hwp_string().unwrap();
    assert_eq!(string, "HWP");
}

#[test]
fn test_record_data_parser_varint() {
    let data = vec![
        0x96, 0x01, // 150
        0x80, 0x02, // 256
        0xFF, 0xFF, 0xFF, 0xFF, 0x0F, // 0xFFFFFFFF
    ];

    let mut parser = RecordDataParser::new(&data);
    assert_eq!(parser.read_varint().unwrap(), 150);
    assert_eq!(parser.read_varint().unwrap(), 256);
    assert_eq!(parser.read_varint().unwrap(), 0xFFFFFFFF);
}

#[test]
fn test_malformed_record_handling() {
    // An incomplete record header is treated as benign end padding.
    let data = vec![0x10, 0x00];
    let mut parser = RecordParser::new(&data);
    let result = parser.parse_next_record().unwrap();
    assert!(result.is_none());

    // A record whose size exceeds the available data is an error.
    let data = vec![
        0x10, 0x00, 0x64, 0x00, // header: size field says far more than remains
        0x01, 0x02,
    ];
    let mut parser = RecordParser::new(&data);
    let result = parser.parse_next_record();
    assert!(result.is_err());
}

#[test]
fn test_record_totals_and_dialects() {
    let rec = Record::new(0x0010, 0, 4, vec![1, 2, 3, 4]);
    assert_eq!(rec.total_size(), 8);
    assert!(rec.is_doc_info());
    assert!(!rec.is_section());

    let rec2 = Record::new(0x0051, 0, 0, vec![]);
    assert!(rec2.is_section());
    assert!(!rec2.is_doc_info());
}

#[test]
fn test_parse_until_tag() {
    let mut data = Vec::new();
    data.extend_from_slice(&((0x0010_u32) | (30 << 12)).to_le_bytes());
    data.extend_from_slice(&[0; 30]);
    data.extend_from_slice(&((0x0013_u32) | (10 << 12)).to_le_bytes());
    data.extend_from_slice(&[0; 10]);
    data.extend_from_slice(&((0x0015_u32) | (68 << 12)).to_le_bytes());
    data.extend_from_slice(&[0; 68]);

    let mut parser = RecordParser::new_with_context(&data, RecordContext::DocInfo);
    let records = parser.parse_until_tag(0x0013).unwrap();
    assert_eq!(records.len(), 2);
    assert_eq!(records[1].tag_id, 0x0013);
}

#[test]
fn test_document_properties_parsing() {
    let data = vec![
        0x03, 0x00, // section_count: 3
        0x01, 0x00, // page_start_number: 1
        0x01, 0x00, // footnote_start_number: 1
        0x01, 0x00, // endnote_start_number: 1
        0x01, 0x00, // picture_start_number: 1
        0x01, 0x00, // table_start_number: 1
        0x01, 0x00, // equation_start_number: 1
        0x64, 0x00, 0x00, 0x00, // total_character_count: 100
        0x05, 0x00, 0x00, 0x00, // total_page_count: 5
    ];

    let props = parse_document_properties(&data).unwrap();
    assert_eq!(props.section_count, 3);
    assert_eq!(props.page_start_number, 1);
    assert_eq!(props.footnote_start_number, 1);
    assert_eq!(props.endnote_start_number, 1);
    assert_eq!(props.picture_start_number, 1);
    assert_eq!(props.table_start_number, 1);
    assert_eq!(props.equation_start_number, 1);
    assert_eq!(props.total_character_count, 100);
    assert_eq!(props.total_page_count, 5);
}

#[test]
fn test_face_name_parsing_basic() {
    let data = vec![
        0x00, // properties: 0 (no optional data)
        0x05, 0x00, // string length: 5
        0x41, 0x00, // 'A'
        0x72, 0x00, // 'r'
        0x69, 0x00, // 'i'
        0x61, 0x00, // 'a'
        0x6C, 0x00, // 'l'
    ];

    let face_name = parse_face_name(&data).unwrap();
    assert_eq!(face_name.properties, 0);
    assert_eq!(face_name.name, "Arial");
    assert!(face_name.substitute_font_type.is_none());
    assert!(face_name.substitute_font_name.is_none());
    assert!(face_name.base_font_name.is_none());
}

#[test]
fn test_face_name_parsing_with_type_info() {
    let data = vec![
        0x01, // properties: 1 (has the classification block)
        0x05, 0x00, // string length: 5
        0x41, 0x00, // 'A'
        0x72, 0x00, // 'r'
        0x69, 0x00, // 'i'
        0x61, 0x00, // 'a'
        0x6C, 0x00, // 'l'
        0x02, // family
        0x01, // serif
        0x04, // weight
        0x00, // proportion
        0x00, // contrast
        0x00, // stroke_variation
        0x00, // arm_style
        0x00, // letter_form
        0x00, // midline
        0x00, // x_height
    ];

    let face_name = parse_face_name(&data).unwrap();
    assert_eq!(face_name.properties, 1);
    assert_eq!(face_name.name, "Arial");
    assert_eq!(face_name.type_info.family, 2);
    assert_eq!(face_name.type_info.serif, 1);
    assert_eq!(face_name.type_info.weight, 4);
}

#[test]
fn test_char_shape_parsing() {
    let mut data = Vec::new();

    for i in 0..7 {
        data.extend_from_slice(&(i as u16).to_le_bytes());
    }
    for i in 0..7 {
        data.push(100 + i);
    }
    for i in 0..7 {
        data.push(i);
    }
    for i in 0..7 {
        data.push(100 + i);
    }
    for i in 0..7 {
        data.push(i);
    }

    data.extend_from_slice(&1200u32.to_le_bytes()); // base_size
    data.extend_from_slice(&0x12345678u32.to_le_bytes()); // properties
    data.push(1); // shadow_gap_x
    data.push(2); // shadow_gap_y
    data.extend_from_slice(&0xFF0000u32.to_le_bytes()); // text_color
    data.extend_from_slice(&0x00FF00u32.to_le_bytes()); // underline_color
    data.extend_from_slice(&0x0000FFu32.to_le_bytes()); // shade_color
    data.extend_from_slice(&0x888888u32.to_le_bytes()); // shadow_color
    data.extend_from_slice(&123u16.to_le_bytes()); // border_fill_id

    let char_shape = parse_char_shape(&data).unwrap();

    for i in 0..7 {
        assert_eq!(char_shape.face_name_ids[i], i as u16);
    }
    for i in 0..7 {
        assert_eq!(char_shape.ratios[i], 100 + i as u8);
    }

    assert_eq!(char_shape.base_size, 1200);
    assert_eq!(char_shape.properties, 0x12345678);
    assert_eq!(char_shape.shadow_gap_x, 1);
    assert_eq!(char_shape.shadow_gap_y, 2);
    assert_eq!(char_shape.text_color, 0xFF0000);
    assert_eq!(char_shape.underline_color, 0x00FF00);
    assert_eq!(char_shape.shade_color, 0x0000FF);
    assert_eq!(char_shape.shadow_color, 0x888888);
    assert_eq!(char_shape.border_fill_id, Some(123));
}

#[test]
fn test_para_shape_parsing() {
    let data = vec![
        0x78, 0x56, 0x34, 0x12, // properties1: 0x12345678
        0x00, 0x10, 0x00, 0x00, // left_margin: 4096
        0x00, 0x08, 0x00, 0x00, // right_margin: 2048
        0x00, 0x02, 0x00, 0x00, // indent: 512
        0x00, 0x01, 0x00, 0x00, // prev_spacing: 256
        0x00, 0x01, 0x00, 0x00, // next_spacing: 256
        0x40, 0x06, 0x00, 0x00, // line_spacing: 1600
        0x01, 0x00, // tab_def_id: 1
        0x02, 0x00, // numbering_id: 2
        0x03, 0x00, // border_fill_id: 3
        0x10, 0x00, // border_offset_left: 16
        0x10, 0x00, // border_offset_right: 16
        0x08, 0x00, // border_offset_top: 8
        0x08, 0x00, // border_offset_bottom: 8
        0x87, 0x65, 0x43, 0x21, // properties2: 0x21436587
        0xEF, 0xCD, 0xAB, 0x89, // properties3: 0x89ABCDEF
        0x01, 0x00, 0x00, 0x00, // line_spacing_type: 1
    ];

    let para_shape = parse_para_shape(&data).unwrap();
    assert_eq!(para_shape.properties1, 0x12345678);
    assert_eq!(para_shape.left_margin, 4096);
    assert_eq!(para_shape.right_margin, 2048);
    assert_eq!(para_shape.indent, 512);
    assert_eq!(para_shape.prev_spacing, 256);
    assert_eq!(para_shape.next_spacing, 256);
    assert_eq!(para_shape.line_spacing, 1600);
    assert_eq!(para_shape.tab_def_id, 1);
    assert_eq!(para_shape.numbering_id, 2);
    assert_eq!(para_shape.border_fill_id, 3);
    assert_eq!(para_shape.border_offset_left, 16);
    assert_eq!(para_shape.border_offset_right, 16);
    assert_eq!(para_shape.border_offset_top, 8);
    assert_eq!(para_shape.border_offset_bottom, 8);
    assert_eq!(para_shape.properties2, 0x21436587);
    assert_eq!(para_shape.properties3, 0x89ABCDEF);
    assert_eq!(para_shape.line_spacing_type, 1);
}

#[test]
fn test_style_parsing() {
    let data = vec![
        0x02, 0x00, // name length: 2
        0x14, 0xBC, // first syllable
        0xD5, 0xD0, // second syllable
        0x06, 0x00, // english_name length: 6
        0x4E, 0x00, // 'N'
        0x6F, 0x00, // 'o'
        0x72, 0x00, // 'r'
        0x6D, 0x00, // 'm'
        0x61, 0x00, // 'a'
        0x6C, 0x00, // 'l'
        0x01, // properties: 1
        0xFF, // next_style_id: 255
        0x12, 0x04, // lang_id: 0x0412
        0x05, 0x00, // para_shape_id: 5
        0x03, 0x00, // char_shape_id: 3
    ];

    let style = parse_style(&data).unwrap();
    assert_eq!(style.name, "바탕");
    assert_eq!(style.english_name, "Normal");
    assert_eq!(style.properties, 1);
    assert_eq!(style.next_style_id, 255);
    assert_eq!(style.lang_id, 0x0412);
    assert_eq!(style.para_shape_id, 5);
    assert_eq!(style.char_shape_id, 3);
}

#[test]
fn test_border_fill_parsing() {
    let data = vec![
        0x01, 0x00, // properties: 1
        0x01, 0x02, 0x00, 0x00, 0xFF, 0x00, // left border
        0x02, 0x03, 0x00, 0xFF, 0x00, 0x00, // right border
        0x03, 0x04, 0xFF, 0x00, 0x00, 0x00, // top border
        0x04, 0x05, 0x88, 0x88, 0x88, 0x00, // bottom border
        0x00, 0x00, 0x00, 0x00, 0x00, 0x00, // diagonal border
        0x01, // fill_type: 1
        0x01, 0x02, 0x03, 0x04, // fill data
    ];

    let border_fill = parse_border_fill(&data).unwrap();
    assert_eq!(border_fill.properties, 1);
    assert_eq!(border_fill.left_border.line_type, 1);
    assert_eq!(border_fill.left_border.thickness, 2);
    assert_eq!(border_fill.left_border.color, 0x00FF0000);
    assert_eq!(border_fill.right_border.line_type, 2);
    assert_eq!(border_fill.right_border.thickness, 3);
    assert_eq!(border_fill.right_border.color, 0x0000FF00);
    assert_eq!(border_fill.fill_type, 1);
    assert_eq!(border_fill.fill_data, vec![0x01, 0x02, 0x03, 0x04]);
}

#[test]
fn test_id_mappings_parsing() {
    let data = vec![
        0x03, 0x00, 0x00, 0x00, // count: 3
        0x10, 0x00, 0x00, 0x00, // mapping: 16
        0x20, 0x00, 0x00, 0x00, // mapping: 32
        0x30, 0x00, 0x00, 0x00, // mapping: 48
    ];

    let mappings = parse_id_mappings(&data).unwrap();
    assert_eq!(mappings.len(), 3);
    assert_eq!(mappings[0], 16);
    assert_eq!(mappings[1], 32);
    assert_eq!(mappings[2], 48);
}
