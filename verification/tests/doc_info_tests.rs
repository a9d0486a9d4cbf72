use hwp::parser::doc_info::parse_doc_info;
use hwp::parser::doc_info_records::{
    parse_bin_data, parse_border_fill, parse_bullet, parse_char_shape, parse_compatible_document,
    parse_distribute_doc_data, parse_doc_data, parse_document_properties, parse_face_name,
    parse_forbidden_char, parse_id_mappings, parse_layout_compatibility, parse_memo_shape,
    parse_numbering, parse_para_shape, parse_style, parse_tab_def, parse_track_change,
    parse_track_change_author,
};

#[test]
fn test_parse_document_properties() {
    let data = vec![
        0x03, 0x00, // section_count: 3
        0x01, 0x00, // page_start_number: 1
        0x01, 0x00, // footnote_start_number: 1
        0x01, 0x00, // endnote_start_number: 1
        0x01, 0x00, // picture_start_number: 1
        0x01, 0x00, // table_start_number: 1
        0x01, 0x00, // equation_start_number: 1
        0x64, 0x00, 0x00, 0x00, // total_character_count: 100
        0x05, 0x00, 0x00, 0x00, // total_page_count: 5
    ];

    let props = parse_document_properties(&data).unwrap();
    assert_eq!(props.section_count, 3);
    assert_eq!(props.total_character_count, 100);
    assert_eq!(props.total_page_count, 5);
}

#[test]
fn test_parse_face_name() {
    let data = vec![
        0x00, // properties: 0 (no optional data)
        0x05, 0x00, // string length: 5
        0x41, 0x00, // 'A'
        0x72, 0x00, // 'r'
        0x69, 0x00, // 'i'
        0x61, 0x00, // 'a'
        0x6C, 0x00, // 'l'
    ];

    let face_name = parse_face_name(&data).unwrap();
    assert_eq!(face_name.properties, 0);
    assert_eq!(face_name.name, "Arial");
    assert!(face_name.substitute_font_type.is_none());
    assert!(face_name.substitute_font_name.is_none());
    assert!(face_name.base_font_name.is_none());
}

#[test]
fn test_parse_char_shape() {
    let mut data = vec![];

    for i in 0..7 {
        data.extend_from_slice(&[i as u8, 0x00]);
    }
    for i in 0..7 {
        data.push(50 + i as u8);
    }
    for i in 0..7 {
        data.push((i as i8).to_le_bytes()[0]);
    }
    for i in 0..7 {
        data.push(100 - i as u8);
    }
    for i in 0..7 {
        data.push((-(i as i8)).to_le_bytes()[0]);
    }

    data.extend_from_slice(&[0x00, 0x0A, 0x00, 0x00]); // base_size: 2560
    data.extend_from_slice(&[0x01, 0x00, 0x00, 0x00]); // properties: 1
    data.push(0x02); // shadow_gap_x: 2
    data.push(0x03); // shadow_gap_y: 3
    data.extend_from_slice(&[0xFF, 0x00, 0x00, 0x00]); // text_color
    data.extend_from_slice(&[0x00, 0xFF, 0x00, 0x00]); // underline_color
    data.extend_from_slice(&[0x00, 0x00, 0xFF, 0x00]); // shade_color
    data.extend_from_slice(&[0x00, 0x00, 0x00, 0xFF]); // shadow_color
    data.extend_from_slice(&[0x05, 0x00]); // border_fill_id: 5

    let char_shape = parse_char_shape(&data).unwrap();
    assert_eq!(char_shape.face_name_ids.len(), 7);
    assert_eq!(char_shape.face_name_ids[0], 0);
    assert_eq!(char_shape.face_name_ids[6], 6);
    assert_eq!(char_shape.ratios[0], 50);
    assert_eq!(char_shape.base_size, 2560);
    assert_eq!(char_shape.properties, 1);
    assert_eq!(char_shape.shadow_gap_x, 2);
    assert_eq!(char_shape.shadow_gap_y, 3);
    assert_eq!(char_shape.text_color, 0xFF);
    assert_eq!(char_shape.border_fill_id, Some(5));
}

#[test]
fn test_parse_para_shape() {
    let data = vec![
        0x01, 0x00, 0x00, 0x00, // properties1: 1
        0x00, 0x05, 0x00, 0x00, // left_margin: 1280
        0x00, 0x05, 0x00, 0x00, // right_margin: 1280
        0x00, 0x02, 0x00, 0x00, // indent: 512
        0x00, 0x01, 0x00, 0x00, // prev_spacing: 256
        0x00, 0x01, 0x00, 0x00, // next_spacing: 256
        0x00, 0x02, 0x00, 0x00, // line_spacing: 512
        0x00, 0x00, // tab_def_id: 0
        0x00, 0x00, // numbering_id: 0
        0x00, 0x00, // border_fill_id: 0
        0x0A, 0x00, // border_offset_left: 10
        0x0A, 0x00, // border_offset_right: 10
        0x0A, 0x00, // border_offset_top: 10
        0x0A, 0x00, // border_offset_bottom: 10
        0x02, 0x00, 0x00, 0x00, // properties2: 2
        0x03, 0x00, 0x00, 0x00, // properties3: 3
        0x01, 0x00, 0x00, 0x00, // line_spacing_type: 1
    ];

    let para_shape = parse_para_shape(&data).unwrap();
    assert_eq!(para_shape.properties1, 1);
    assert_eq!(para_shape.left_margin, 1280);
    assert_eq!(para_shape.right_margin, 1280);
    assert_eq!(para_shape.indent, 512);
    assert_eq!(para_shape.prev_spacing, 256);
    assert_eq!(para_shape.next_spacing, 256);
    assert_eq!(para_shape.line_spacing, 512);
    assert_eq!(para_shape.tab_def_id, 0);
    assert_eq!(para_shape.numbering_id, 0);
    assert_eq!(para_shape.border_fill_id, 0);
    assert_eq!(para_shape.border_offset_left, 10);
    assert_eq!(para_shape.border_offset_right, 10);
    assert_eq!(para_shape.border_offset_top, 10);
    assert_eq!(para_shape.border_offset_bottom, 10);
    assert_eq!(para_shape.properties2, 2);
    assert_eq!(para_shape.properties3, 3);
    assert_eq!(para_shape.line_spacing_type, 1);
}

#[test]
fn test_parse_border_fill() {
    let data = vec![
        0x01, 0x00, // properties: 1
        0x01, 0x02, 0xFF, 0x00, 0x00, 0x00, // left border
        0x01, 0x02, 0x00, 0xFF, 0x00, 0x00, // right border
        0x01, 0x02, 0x00, 0x00, 0xFF, 0x00, // top border
        0x01, 0x02, 0x00, 0x00, 0x00, 0xFF, // bottom border
        0x00, 0x00, 0x00, 0x00, 0x00, 0x00, // diagonal border
        0x01, // fill_type: 1
        0xAA, 0xBB, 0xCC, 0xDD, // fill_data
    ];

    let border_fill = parse_border_fill(&data).unwrap();
    assert_eq!(border_fill.properties, 1);
    assert_eq!(border_fill.left_border.line_type, 1);
    assert_eq!(border_fill.left_border.thickness, 2);
    assert_eq!(border_fill.left_border.color, 0xFF);
    assert_eq!(border_fill.right_border.color, 0xFF00);
    assert_eq!(border_fill.top_border.color, 0xFF0000);
    assert_eq!(border_fill.bottom_border.color, 0xFF000000);
    assert_eq!(border_fill.diagonal_border.line_type, 0);
    assert_eq!(border_fill.fill_type, 1);
    assert_eq!(border_fill.fill_data, vec![0xAA, 0xBB, 0xCC, 0xDD]);
}

#[test]
fn test_parse_doc_data() {
    let data = vec![0x01, 0x02, 0x03, 0x04, 0x05, 0x06, 0x07, 0x08];

    let doc_data = parse_doc_data(&data).unwrap();
    assert_eq!(doc_data, vec![0x01, 0x02, 0x03, 0x04, 0x05, 0x06, 0x07, 0x08]);
}

#[test]
fn test_parse_style() {
    let data = vec![
        0x04, 0x00, // name length: 4 characters
        0x14, 0xBC, 0xD5, 0xD0, 0x38, 0xBB, 0xB4, 0xCC, // four Korean syllables
        0x06, 0x00, // english_name length: 6
        0x4E, 0x00, // 'N'
        0x6F, 0x00, // 'o'
        0x72, 0x00, // 'r'
        0x6D, 0x00, // 'm'
        0x61, 0x00, // 'a'
        0x6C, 0x00, // 'l'
        0x01, // properties: 1
        0xFF, // next_style_id: 255
        0x12, 0x04, // lang_id: 0x0412
        0x00, 0x00, // para_shape_id: 0
        0x00, 0x00, // char_shape_id: 0
    ];

    let style = parse_style(&data).unwrap();
    assert_eq!(style.name, "바탕문체");
    assert_eq!(style.english_name, "Normal");
    assert_eq!(style.properties, 1);
    assert_eq!(style.next_style_id, 255);
    assert_eq!(style.lang_id, 0x0412);
}

#[test]
fn test_parse_id_mappings() {
    let data = vec![
        0x03, 0x00, 0x00, 0x00, // count: 3
        0x01, 0x00, 0x00, 0x00, // mapping: 1
        0x02, 0x00, 0x00, 0x00, // mapping: 2
        0x03, 0x00, 0x00, 0x00, // mapping: 3
    ];

    let mappings = parse_id_mappings(&data).unwrap();
    assert_eq!(mappings.len(), 3);
    assert_eq!(mappings[0], 1);
    assert_eq!(mappings[1], 2);
    assert_eq!(mappings[2], 3);
}

#[test]
fn doc_info_records_test_test_parse_id_mappings() {
    let mut data = Vec::new();

    data.extend_from_slice(&3u32.to_le_bytes());
    data.extend_from_slice(&100u32.to_le_bytes());
    data.extend_from_slice(&200u32.to_le_bytes());
    data.extend_from_slice(&300u32.to_le_bytes());

    let mappings = parse_id_mappings(&data).unwrap();

    assert_eq!(mappings.len(), 3);
    assert_eq!(mappings[0], 100);
    assert_eq!(mappings[1], 200);
    assert_eq!(mappings[2], 300);
}

#[test]
fn test_parse_bin_data() {
    let data = vec![
        0x01, 0x00, // properties/id: 1
        0x00, // link_type: 0 (embedded)
        0x01, // compression_type: 1 (compressed)
        0xDE, 0xAD, 0xBE, 0xEF, // binary data
    ];

    let bin_data = parse_bin_data(&data).unwrap();
    assert_eq!(bin_data.id, 1);
    assert_eq!(bin_data.link_type, 0);
    assert_eq!(bin_data.compression_type, 1);
    assert_eq!(bin_data.data, vec![0xDE, 0xAD, 0xBE, 0xEF]);
}

#[test]
fn test_parse_tab_def() {
    let data = vec![
        0x01, 0x00, 0x00, 0x00, // properties: 1
        0x02, 0x00, 0x00, 0x00, // count: 2
        0x00, 0x05, 0x00, 0x00, // position: 1280
        0x00, // tab_type: 0
        0x01, // fill_type: 1
        0x00, 0x00, // reserved
        0x00, 0x0A, 0x00, 0x00, // position: 2560
        0x01, // tab_type: 1
        0x00, // fill_type: 0
        0x00, 0x00, // reserved
    ];

    let tab_def = parse_tab_def(&data).unwrap();
    assert_eq!(tab_def.properties, 1);
    assert_eq!(tab_def.count, 2);
    assert_eq!(tab_def.tabs.len(), 2);
    assert_eq!(tab_def.tabs[0].position, 0x0500);
    assert_eq!(tab_def.tabs[0].tab_type, 0);
    assert_eq!(tab_def.tabs[0].fill_type, 1);
    assert_eq!(tab_def.tabs[1].position, 0x0A00);
    assert_eq!(tab_def.tabs[1].tab_type, 1);
    assert_eq!(tab_def.tabs[1].fill_type, 0);
}

#[test]
fn test_parse_numbering() {
    let data = vec![
        0x01, 0x00, 0x00, 0x00, // properties: 1
        0x00, 0x00, // paragraph_shape_id: 0
        0x02, 0x00, // format string length: 2
        0x31, 0x00, // '1'
        0x2E, 0x00, // '.'
        0x01, 0x00, // start_number: 1
    ];

    let numbering = parse_numbering(&data).unwrap();
    assert_eq!(numbering.levels.len(), 1);
    assert_eq!(numbering.levels[0].properties, 1);
    assert_eq!(numbering.levels[0].paragraph_shape_id, 0);
    assert_eq!(numbering.levels[0].format, "1.");
    assert_eq!(numbering.levels[0].start_number, 1);
}

#[test]
fn test_parse_bullet() {
    // Text bullet.
    let data_text = vec![
        0x00, 0x00, 0x00, 0x00, // properties: 0 (text bullet)
        0x00, 0x00, // paragraph_shape_id: 0
        0x01, 0x00, // character string length: 1
        0x22, 0x20, // the bullet character in UTF-16LE
    ];

    let bullet = parse_bullet(&data_text).unwrap();
    assert_eq!(bullet.properties, 0);
    assert_eq!(bullet.paragraph_shape_id, 0);
    assert!(bullet.bullet_char.is_some());
    assert_eq!(bullet.bullet_char.unwrap(), "\u{2022}");
    assert!(bullet.image_id.is_none());

    // Image bullet.
    let data_image = vec![
        0x01, 0x00, 0x00, 0x00, // properties: 1 (uses image)
        0x00, 0x00, // paragraph_shape_id: 0
        0x05, 0x00, // image_id: 5
    ];

    let bullet = parse_bullet(&data_image).unwrap();
    assert_eq!(bullet.properties, 1);
    assert_eq!(bullet.paragraph_shape_id, 0);
    assert!(bullet.bullet_char.is_none());
    assert!(bullet.image_id.is_some());
    assert_eq!(bullet.image_id.unwrap(), 5);
}

#[test]
fn test_parse_distribute_doc_data() {
    let data = vec![0x01, 0x02, 0x03, 0x04, 0x05];

    let distribute = parse_distribute_doc_data(&data).unwrap();
    assert_eq!(distribute.data, vec![0x01, 0x02, 0x03, 0x04, 0x05]);
}

#[test]
fn test_parse_compatible_document() {
    let data = vec![
        0x03, 0x00, 0x00, 0x00, // target_program: 3
    ];

    let compatible = parse_compatible_document(&data).unwrap();
    assert_eq!(compatible.target_program, 3);
}

#[test]
fn test_parse_layout_compatibility() {
    let data = vec![
        0x01, 0x00, 0x00, 0x00, // letter_spacing: 1
        0x02, 0x00, 0x00, 0x00, // paragraph_spacing: 2
        0x03, 0x00, 0x00, 0x00, // line_grid: 3
        0x04, 0x00, 0x00, 0x00, // paragraph_grid: 4
        0x01, 0x00, 0x00, 0x00, // snap_to_grid: 1
    ];

    let layout = parse_layout_compatibility(&data).unwrap();
    assert_eq!(layout.letter_spacing, 1);
    assert_eq!(layout.paragraph_spacing, 2);
    assert_eq!(layout.line_grid, 3);
    assert_eq!(layout.paragraph_grid, 4);
    assert_eq!(layout.snap_to_grid, 1);
}

#[test]
fn test_parse_track_change() {
    let data = vec![
        0x01, 0x00, 0x00, 0x00, // properties: 1
        0x02, 0x00, // author_id: 2
        0x00, 0x00, 0x00, 0x00, 0x00, 0x00, 0x00, 0x01, // timestamp
        0x01, 0x00, // change_type: 1
        0xAA, 0xBB, 0xCC, // change data
    ];

    let track_change = parse_track_change(&data).unwrap();
    assert_eq!(track_change.properties, 1);
    assert_eq!(track_change.author_id, 2);
    assert_eq!(track_change.timestamp, 0x0100000000000000);
    assert_eq!(track_change.change_type, 1);
    assert_eq!(track_change.data, vec![0xAA, 0xBB, 0xCC]);
}

#[test]
fn test_parse_track_change_author() {
    let data = vec![
        0x01, 0x00, // id: 1
        0x04, 0x00, // string length: 4
        0x4A, 0x00, // 'J'
        0x6F, 0x00, // 'o'
        0x68, 0x00, // 'h'
        0x6E, 0x00, // 'n'
    ];

    let author = parse_track_change_author(&data).unwrap();
    assert_eq!(author.id, 1);
    assert_eq!(author.name, "John");
}

#[test]
fn test_parse_memo_shape() {
    let data = vec![
        0x01, 0x00, 0x00, 0x00, // properties: 1
        0x10, 0x00, 0x00, 0x00, // memo_id: 16
        0x00, 0x05, 0x00, 0x00, // width: 1280
        0x05, 0x00, // line_count: 5
        0x10, 0x00, // line_spacing: 16
        0x01, // line_type: 1
        0xFF, 0x00, 0x00, 0x00, // line_color
    ];

    let memo = parse_memo_shape(&data).unwrap();
    assert_eq!(memo.properties, 1);
    assert_eq!(memo.memo_id, 16);
    assert_eq!(memo.width, 0x0500);
    assert_eq!(memo.line_count, 5);
    assert_eq!(memo.line_spacing, 16);
    assert_eq!(memo.line_type, 1);
    assert_eq!(memo.line_color, 0xFF);
}

#[test]
fn test_parse_forbidden_char() {
    let data = vec![
        0x03, 0x00, // string length: 3
        0x2C, 0x00, // ','
        0x2E, 0x00, // '.'
        0x3B, 0x00, // ';'
        0x02, 0x00, // string length: 2
        0x21, 0x00, // '!'
        0x3F, 0x00, // '?'
    ];

    let forbidden = parse_forbidden_char(&data).unwrap();
    assert_eq!(forbidden.forbidden_chars, ",.;");
    assert_eq!(forbidden.allowed_chars, "!?");
}

#[test]
fn test_parse_doc_info_stream() {
    // One document-properties record followed by one face-name record.
    let mut data = Vec::new();
    data.extend_from_slice(&((0x0010u32) | (22 << 12)).to_le_bytes());
    data.extend_from_slice(&[
        0x03, 0x00, 0x01, 0x00, 0x01, 0x00, 0x01, 0x00, 0x01, 0x00, 0x01, 0x00, 0x01, 0x00, 0x64,
        0x00, 0x00, 0x00, 0x05, 0x00, 0x00, 0x00,
    ]);
    data.extend_from_slice(&((0x0013u32) | (13 << 12)).to_le_bytes());
    data.extend_from_slice(&[
        0x00, 0x05, 0x00, 0x41, 0x00, 0x72, 0x00, 0x69, 0x00, 0x61, 0x00, 0x6C, 0x00,
    ]);

    let doc_info = parse_doc_info(&data).unwrap();
    assert_eq!(doc_info.properties.section_count, 3);
    assert_eq!(doc_info.properties.total_character_count, 100);
    assert_eq!(doc_info.face_names.len(), 1);
    assert_eq!(doc_info.face_names[0].name, "Arial");
    assert_eq!(doc_info.char_shapes.len(), 0);
}

#[test]
fn test_parse_doc_info_rejects_bad_stream() {
    // A malformed record stream (invalid tag in strict mode) is an error.
    let mut data = Vec::new();
    data.extend_from_slice(&((0x0399u32) | (4 << 12)).to_le_bytes());
    data.extend_from_slice(&[0, 0, 0, 0]);
    assert!(parse_doc_info(&data).is_err());
}
