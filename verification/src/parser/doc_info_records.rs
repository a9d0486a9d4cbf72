//! Field parsers for the document-information records: one fixed byte
//! layout per tag.

use vstd::prelude::*;
use crate::bytes_le::{le16, le32, le64};
use crate::errors::{HwpError, HwpResult};
use crate::models::document::{
    BinDataEntry,
    BorderFill,
    BorderLine,
    Bullet,
    CharShape,
    CompatibleDocument,
    DistributeDocData,
    DocumentProperties,
    FaceName,
    FaceNameType,
    ForbiddenChar,
    LayoutCompatibility,
    MemoShape,
    Numbering,
    NumberingLevel,
    ParaShape,
    Style,
    TabDef,
    TabInfo,
    TrackChange,
    TrackChangeAuthor,
};
use crate::reader::{ByteReader, units_before_null, utf16_decode};

verus! {

// --- The length-prefixed UTF-16 string encoding -------------------------

/// Whether a length-prefixed string at `p` fits in the buffer.
pub open spec fn hstr_ok(b: Seq<u8>, p: int) -> bool {
    p + 2 <= b.len() && (le16(b, p) == 0 || 2 * le16(b, p) <= b.len() - p - 2)
}

/// The position after a length-prefixed string at `p`.
pub open spec fn hstr_end(b: Seq<u8>, p: int) -> int {
    p + 2 + 2 * le16(b, p)
}

/// The code units of a length-prefixed string at `p`, up to an embedded
/// null.
pub open spec fn hstr_units(b: Seq<u8>, p: int) -> Seq<u16> {
    if le16(b, p) == 0 {
        Seq::<u16>::empty()
    } else {
        units_before_null(Seq::new(le16(b, p) as nat, |i: int| le16(b, p + 2 + 2 * i) as u16))
    }
}

/// The text of a length-prefixed string at `p`; `None` on a malformed
/// surrogate sequence.
pub open spec fn hstr_chars(b: Seq<u8>, p: int) -> Option<Seq<char>> {
    if le16(b, p) == 0 {
        Some(Seq::<char>::empty())
    } else {
        utf16_decode(hstr_units(b, p))
    }
}

/// Read a length-prefixed UTF-16LE string.
fn read_hstr(reader: &mut ByteReader) -> (r: HwpResult<String>)
    requires
        old(reader).wf(),
    ensures
        final(reader).wf(),
        final(reader).bytes() == old(reader).bytes(),
        ({
            let b = old(reader).bytes();
            let p = old(reader).at();
            if !hstr_ok(b, p) {
                r matches Err(e) && e is BufferUnderflow
            } else {
                match hstr_chars(b, p) {
                    Some(cs) => (r matches Ok(s) && s@ == cs) && final(reader).at() == hstr_end(
                        b,
                        p,
                    ),
                    None => r matches Err(e) && e is EncodingError,
                }
            }
        }),
{
    let length = match reader.read_u16() {
        Ok(v) => v,
        Err(e) => {
            return Err(e);
        },
    };
    if length == 0 {
        return Ok(String::new());
    }
    reader.read_utf16_string_n(length as usize)
}

// --- Document properties (fixed 22-byte layout) -------------------------

/// Whether a document-properties payload is long enough.
pub open spec fn document_properties_ok(b: Seq<u8>) -> bool {
    b.len() >= 22
}

/// The field values a document-properties payload carries.
pub open spec fn document_properties_matches(x: DocumentProperties, b: Seq<u8>) -> bool {
    &&& x.section_count == le16(b, 0)
    &&& x.page_start_number == le16(b, 2)
    &&& x.footnote_start_number == le16(b, 4)
    &&& x.endnote_start_number == le16(b, 6)
    &&& x.picture_start_number == le16(b, 8)
    &&& x.table_start_number == le16(b, 10)
    &&& x.equation_start_number == le16(b, 12)
    &&& x.total_character_count == le32(b, 14)
    &&& x.total_page_count == le32(b, 18)
}

/// Parse a document-properties record.
pub fn parse_document_properties(data: &[u8]) -> (r: HwpResult<DocumentProperties>)
    ensures
        if document_properties_ok(data@) {
            r matches Ok(x) && document_properties_matches(x, data@)
        } else {
            r matches Err(e) && e is BufferUnderflow
        },
{
    let mut reader = ByteReader::new(data);
    let section_count = match reader.read_u16() {
        Ok(v) => v,
        Err(e) => {
            return Err(e);
        },
    };
    let page_start_number = match reader.read_u16() {
        Ok(v) => v,
        Err(e) => {
            return Err(e);
        },
    };
    let footnote_start_number = match reader.read_u16() {
        Ok(v) => v,
        Err(e) => {
            return Err(e);
        },
    };
    let endnote_start_number = match reader.read_u16() {
        Ok(v) => v,
        Err(e) => {
            return Err(e);
        },
    };
    let picture_start_number = match reader.read_u16() {
        Ok(v) => v,
        Err(e) => {
            return Err(e);
        },
    };
    let table_start_number = match reader.read_u16() {
        Ok(v) => v,
        Err(e) => {
            return Err(e);
        },
    };
    let equation_start_number = match reader.read_u16() {
        Ok(v) => v,
        Err(e) => {
            return Err(e);
        },
    };
    let total_character_count = match reader.read_u32() {
        Ok(v) => v,
        Err(e) => {
            return Err(e);
        },
    };
    let total_page_count = match reader.read_u32() {
        Ok(v) => v,
        Err(e) => {
            return Err(e);
        },
    };
    Ok(
        DocumentProperties {
            section_count,
            page_start_number,
            footnote_start_number,
            endnote_start_number,
            picture_start_number,
            table_start_number,
            equation_start_number,
            total_character_count,
            total_page_count,
        },
    )
}

// --- Face name (flags, name, optional classification and fallbacks) -----

/// Whether the face-name flags mark a classification block as present.
pub open spec fn fn_has_type(b: Seq<u8>) -> bool {
    b[0] & 0x01 != 0 && hstr_end(b, 1) < b.len()
}

/// The position after the optional classification block.
pub open spec fn fn_type_end(b: Seq<u8>) -> int {
    if fn_has_type(b) {
        hstr_end(b, 1) + 10
    } else {
        hstr_end(b, 1)
    }
}

/// Whether the flags mark a substitute font as present.
pub open spec fn fn_has_sub(b: Seq<u8>) -> bool {
    b[0] & 0x02 != 0 && fn_type_end(b) < b.len()
}

/// The position after the optional substitute-font block.
pub open spec fn fn_sub_end(b: Seq<u8>) -> int {
    if fn_has_sub(b) {
        hstr_end(b, fn_type_end(b) + 1)
    } else {
        fn_type_end(b)
    }
}

/// Whether the flags mark a base font name as present.
pub open spec fn fn_has_base(b: Seq<u8>) -> bool {
    b[0] & 0x04 != 0 && fn_sub_end(b) < b.len()
}

/// Whether a face-name payload parses: the name string, then each
/// optional block the flags and remaining bytes call for.
pub open spec fn face_name_ok(b: Seq<u8>) -> bool {
    &&& b.len() >= 1
    &&& hstr_ok(b, 1)
    &&& hstr_chars(b, 1) is Some
    &&& (fn_has_type(b) ==> fn_type_end(b) <= b.len())
    &&& (fn_has_sub(b) ==> fn_type_end(b) + 1 <= b.len() && hstr_ok(b, fn_type_end(b) + 1)
        && hstr_chars(b, fn_type_end(b) + 1) is Some)
    &&& (fn_has_base(b) ==> hstr_ok(b, fn_sub_end(b)) && hstr_chars(b, fn_sub_end(b)) is Some)
}

/// The field values a face-name payload carries.
pub open spec fn face_name_matches(x: FaceName, b: Seq<u8>) -> bool {
    &&& x.properties == b[0]
    &&& Some(x.name@) == hstr_chars(b, 1)
    &&& if fn_has_type(b) {
        let q = hstr_end(b, 1);
        x.type_info == (FaceNameType {
            family: b[q],
            serif: b[q + 1],
            weight: b[q + 2],
            proportion: b[q + 3],
            contrast: b[q + 4],
            stroke_variation: b[q + 5],
            arm_style: b[q + 6],
            letter_form: b[q + 7],
            midline: b[q + 8],
            x_height: b[q + 9],
        })
    } else {
        x.type_info == (FaceNameType {
            family: 0,
            serif: 0,
            weight: 0,
            proportion: 0,
            contrast: 0,
            stroke_variation: 0,
            arm_style: 0,
            letter_form: 0,
            midline: 0,
            x_height: 0,
        })
    }
    &&& if fn_has_sub(b) {
        let q = fn_type_end(b);
        x.substitute_font_type == Some(b[q]) && (x.substitute_font_name matches Some(s) && Some(
            s@,
        ) == hstr_chars(b, q + 1))
    } else {
        x.substitute_font_type is None && x.substitute_font_name is None
    }
    &&& if fn_has_base(b) {
        x.base_font_name matches Some(s) && Some(s@) == hstr_chars(b, fn_sub_end(b))
    } else {
        x.base_font_name is None
    }
}

/// Parse a face-name record.
pub fn parse_face_name(data: &[u8]) -> (r: HwpResult<FaceName>)
    ensures
        face_name_ok(data@) ==> (r matches Ok(x) && face_name_matches(x, data@)),
        !face_name_ok(data@) ==> r is Err,
{
    let ghost b = data@;
    let mut reader = ByteReader::new(data);
    let properties = match reader.read_u8() {
        Ok(v) => v,
        Err(e) => {
            return Err(e);
        },
    };
    let name = match read_hstr(&mut reader) {
        Ok(s) => s,
        Err(e) => {
            return Err(e);
        },
    };
    let has_type = properties & 0x01 != 0 && !reader.is_eof();
    let type_info = if has_type {
        let family = read_b(&mut reader)?;
        let serif = read_b(&mut reader)?;
        let weight = read_b(&mut reader)?;
        let proportion = read_b(&mut reader)?;
        let contrast = read_b(&mut reader)?;
        let stroke_variation = read_b(&mut reader)?;
        let arm_style = read_b(&mut reader)?;
        let letter_form = read_b(&mut reader)?;
        let midline = read_b(&mut reader)?;
        let x_height = read_b(&mut reader)?;
        FaceNameType {
            family,
            serif,
            weight,
            proportion,
            contrast,
            stroke_variation,
            arm_style,
            letter_form,
            midline,
            x_height,
        }
    } else {
        FaceNameType {
            family: 0,
            serif: 0,
            weight: 0,
            proportion: 0,
            contrast: 0,
            stroke_variation: 0,
            arm_style: 0,
            letter_form: 0,
            midline: 0,
            x_height: 0,
        }
    };
    let has_sub = properties & 0x02 != 0 && !reader.is_eof();
    let (substitute_font_type, substitute_font_name) = if has_sub {
        let font_type = read_b(&mut reader)?;
        let font_name = match read_hstr(&mut reader) {
            Ok(s) => s,
            Err(e) => {
                return Err(e);
            },
        };
        (Some(font_type), Some(font_name))
    } else {
        (None, None)
    };
    let has_base = properties & 0x04 != 0 && !reader.is_eof();
    let base_font_name = if has_base {
        match read_hstr(&mut reader) {
            Ok(s) => Some(s),
            Err(e) => {
                return Err(e);
            },
        }
    } else {
        None
    };
    Ok(
        FaceName {
            properties,
            name,
            substitute_font_type,
            substitute_font_name,
            type_info,
            base_font_name,
        },
    )
}

/// Read one byte, with the error passed through.
fn read_b(reader: &mut ByteReader) -> (r: HwpResult<u8>)
    requires
        old(reader).wf(),
    ensures
        final(reader).wf(),
        final(reader).bytes() == old(reader).bytes(),
        if old(reader).remaining_spec() >= 1 {
            (r matches Ok(v) && v == old(reader).bytes()[old(reader).at()]) && final(reader).at()
                == old(reader).at() + 1
        } else {
            (r matches Err(e) && e is BufferUnderflow) && final(reader).at() == old(reader).at()
        },
{
    reader.read_u8()
}

// --- Character shape -----------------------------------------------------

/// Whether a character-shape payload parses: 68 fixed bytes and, when
/// anything follows, a whole 16-bit border-fill id.
pub open spec fn char_shape_ok(b: Seq<u8>) -> bool {
    b.len() >= 68 && b.len() != 69
}

/// The field values a character-shape payload carries.
pub open spec fn char_shape_matches(x: CharShape, b: Seq<u8>) -> bool {
    &&& x.face_name_ids@ == Seq::new(7, |i: int| le16(b, 2 * i) as u16)
    &&& x.ratios@ == b.subrange(14, 21)
    &&& x.char_spaces@ == Seq::new(7, |i: int| b[21 + i] as i8)
    &&& x.rel_sizes@ == b.subrange(28, 35)
    &&& x.char_offsets@ == Seq::new(7, |i: int| b[35 + i] as i8)
    &&& x.base_size == le32(b, 42)
    &&& x.properties == le32(b, 46)
    &&& x.shadow_gap_x == b[50] as i8
    &&& x.shadow_gap_y == b[51] as i8
    &&& x.text_color == le32(b, 52)
    &&& x.underline_color == le32(b, 56)
    &&& x.shade_color == le32(b, 60)
    &&& x.shadow_color == le32(b, 64)
    &&& x.border_fill_id == (if b.len() > 68 {
        Some(le16(b, 68) as u16)
    } else {
        None::<u16>
    })
}

/// Parse a character-shape record.
pub fn parse_char_shape(data: &[u8]) -> (r: HwpResult<CharShape>)
    ensures
        char_shape_ok(data@) ==> (r matches Ok(x) && char_shape_matches(x, data@)),
        !char_shape_ok(data@) ==> r is Err,
{
    let ghost b = data@;
    let mut reader = ByteReader::new(data);
    let mut face_name_ids: Vec<u16> = Vec::new();
    let mut i: usize = 0;
    while i < 7
        invariant
            reader.wf(),
            reader.bytes() == b,
            b == data@,
            0 <= i <= 7,
            reader.at() == 2 * i,
            face_name_ids@.len() == i,
            forall|k: int| 0 <= k < i ==> 2 * k + 2 <= b.len() && face_name_ids@[k] == le16(
                b,
                2 * k,
            ) as u16,
        decreases 7 - i,
    {
        let v = match reader.read_u16() {
            Ok(v) => v,
            Err(e) => {
                return Err(e);
            },
        };
        face_name_ids.push(v);
        i = i + 1;
    }
    let ratios = match reader.read_bytes(7) {
        Ok(v) => v,
        Err(e) => {
            return Err(e);
        },
    };
    let mut char_spaces: Vec<i8> = Vec::new();
    let mut i2: usize = 0;
    while i2 < 7
        invariant
            reader.wf(),
            reader.bytes() == b,
            b == data@,
            0 <= i2 <= 7,
            b.len() >= 21 + i2 || i2 == 0,
            reader.at() == 21 + i2,
            char_spaces@.len() == i2,
            forall|k: int| 0 <= k < i2 ==> char_spaces@[k] == b[21 + k] as i8,
        decreases 7 - i2,
    {
        let v = match reader.read_i8() {
            Ok(v) => v,
            Err(e) => {
                return Err(e);
            },
        };
        char_spaces.push(v);
        i2 = i2 + 1;
    }
    let rel_sizes = match reader.read_bytes(7) {
        Ok(v) => v,
        Err(e) => {
            return Err(e);
        },
    };
    let mut char_offsets: Vec<i8> = Vec::new();
    let mut i3: usize = 0;
    while i3 < 7
        invariant
            reader.wf(),
            reader.bytes() == b,
            b == data@,
            0 <= i3 <= 7,
            b.len() >= 35 + i3 || i3 == 0,
            reader.at() == 35 + i3,
            char_offsets@.len() == i3,
            forall|k: int| 0 <= k < i3 ==> char_offsets@[k] == b[35 + k] as i8,
        decreases 7 - i3,
    {
        let v = match reader.read_i8() {
            Ok(v) => v,
            Err(e) => {
                return Err(e);
            },
        };
        char_offsets.push(v);
        i3 = i3 + 1;
    }
    let base_size = reader.read_u32()?;
    let properties = reader.read_u32()?;
    let shadow_gap_x = reader.read_i8()?;
    let shadow_gap_y = reader.read_i8()?;
    let text_color = reader.read_u32()?;
    let underline_color = reader.read_u32()?;
    let shade_color = reader.read_u32()?;
    let shadow_color = reader.read_u32()?;
    let border_fill_id = if !reader.is_eof() {
        match reader.read_u16() {
            Ok(v) => Some(v),
            Err(e) => {
                return Err(e);
            },
        }
    } else {
        None
    };
    proof {
        assert(face_name_ids@ =~= Seq::new(7, |i: int| le16(b, 2 * i) as u16));
        assert(char_spaces@ =~= Seq::new(7, |i: int| b[21 + i] as i8));
        assert(char_offsets@ =~= Seq::new(7, |i: int| b[35 + i] as i8));
    }
    Ok(
        CharShape {
            face_name_ids,
            ratios,
            char_spaces,
            rel_sizes,
            char_offsets,
            base_size,
            properties,
            shadow_gap_x,
            shadow_gap_y,
            text_color,
            underline_color,
            shade_color,
            shadow_color,
            border_fill_id,
        },
    )
}

// --- Paragraph shape -----------------------------------------------------

/// Whether a paragraph-shape payload parses: 42 fixed bytes, then whole
/// optional 32-bit fields only.
pub open spec fn para_shape_ok(b: Seq<u8>) -> bool {
    b.len() >= 42 && (b.len() == 42 || b.len() == 46 || b.len() == 50 || b.len() >= 54)
}

/// The field values a paragraph-shape payload carries.
pub open spec fn para_shape_matches(x: ParaShape, b: Seq<u8>) -> bool {
    &&& x.properties1 == le32(b, 0)
    &&& x.left_margin == le32(b, 4) as u32 as i32
    &&& x.right_margin == le32(b, 8) as u32 as i32
    &&& x.indent == le32(b, 12) as u32 as i32
    &&& x.prev_spacing == le32(b, 16) as u32 as i32
    &&& x.next_spacing == le32(b, 20) as u32 as i32
    &&& x.line_spacing == le32(b, 24) as u32 as i32
    &&& x.tab_def_id == le16(b, 28)
    &&& x.numbering_id == le16(b, 30)
    &&& x.border_fill_id == le16(b, 32)
    &&& x.border_offset_left == le16(b, 34) as u16 as i16
    &&& x.border_offset_right == le16(b, 36) as u16 as i16
    &&& x.border_offset_top == le16(b, 38) as u16 as i16
    &&& x.border_offset_bottom == le16(b, 40) as u16 as i16
    &&& x.properties2 == (if b.len() > 42 {
        le32(b, 42) as u32
    } else {
        0u32
    })
    &&& x.properties3 == (if b.len() > 46 {
        le32(b, 46) as u32
    } else {
        0u32
    })
    &&& x.line_spacing_type == (if b.len() > 50 {
        le32(b, 50) as u32
    } else {
        0u32
    })
}

/// Parse a paragraph-shape record.
pub fn parse_para_shape(data: &[u8]) -> (r: HwpResult<ParaShape>)
    ensures
        para_shape_ok(data@) ==> (r matches Ok(x) && para_shape_matches(x, data@)),
        !para_shape_ok(data@) ==> r is Err,
{
    let mut reader = ByteReader::new(data);
    let properties1 = reader.read_u32()?;
    let left_margin = reader.read_i32()?;
    let right_margin = reader.read_i32()?;
    let indent = reader.read_i32()?;
    let prev_spacing = reader.read_i32()?;
    let next_spacing = reader.read_i32()?;
    let line_spacing = reader.read_i32()?;
    let tab_def_id = reader.read_u16()?;
    let numbering_id = reader.read_u16()?;
    let border_fill_id = reader.read_u16()?;
    let border_offset_left = reader.read_i16()?;
    let border_offset_right = reader.read_i16()?;
    let border_offset_top = reader.read_i16()?;
    let border_offset_bottom = reader.read_i16()?;
    let properties2 = if !reader.is_eof() {
        reader.read_u32()?
    } else {
        0
    };
    let properties3 = if !reader.is_eof() {
        reader.read_u32()?
    } else {
        0
    };
    let line_spacing_type = if !reader.is_eof() {
        reader.read_u32()?
    } else {
        0
    };
    Ok(
        ParaShape {
            properties1,
            left_margin,
            right_margin,
            indent,
            prev_spacing,
            next_spacing,
            line_spacing,
            tab_def_id,
            numbering_id,
            border_fill_id,
            border_offset_left,
            border_offset_right,
            border_offset_top,
            border_offset_bottom,
            properties2,
            properties3,
            line_spacing_type,
        },
    )
}

// --- Style ---------------------------------------------------------------

/// Whether a style payload parses: two strings then eight fixed bytes.
pub open spec fn style_ok(b: Seq<u8>) -> bool {
    &&& hstr_ok(b, 0)
    &&& hstr_chars(b, 0) is Some
    &&& hstr_ok(b, hstr_end(b, 0))
    &&& hstr_chars(b, hstr_end(b, 0)) is Some
    &&& hstr_end(b, hstr_end(b, 0)) + 8 <= b.len()
}

/// The field values a style payload carries.
pub open spec fn style_matches(x: Style, b: Seq<u8>) -> bool {
    let q = hstr_end(b, 0);
    let q2 = hstr_end(b, q);
    &&& Some(x.name@) == hstr_chars(b, 0)
    &&& Some(x.english_name@) == hstr_chars(b, q)
    &&& x.properties == b[q2]
    &&& x.next_style_id == b[q2 + 1]
    &&& x.lang_id == le16(b, q2 + 2)
    &&& x.para_shape_id == le16(b, q2 + 4)
    &&& x.char_shape_id == le16(b, q2 + 6)
}

/// Parse a style record.
pub fn parse_style(data: &[u8]) -> (r: HwpResult<Style>)
    ensures
        style_ok(data@) ==> (r matches Ok(x) && style_matches(x, data@)),
        !style_ok(data@) ==> r is Err,
{
    let mut reader = ByteReader::new(data);
    let name = match read_hstr(&mut reader) {
        Ok(s) => s,
        Err(e) => {
            return Err(e);
        },
    };
    let english_name = match read_hstr(&mut reader) {
        Ok(s) => s,
        Err(e) => {
            return Err(e);
        },
    };
    let properties = reader.read_u8()?;
    let next_style_id = reader.read_u8()?;
    let lang_id = reader.read_u16()?;
    let para_shape_id = reader.read_u16()?;
    let char_shape_id = reader.read_u16()?;
    Ok(Style { name, english_name, properties, next_style_id, lang_id, para_shape_id, char_shape_id })
}

// --- Border fill ---------------------------------------------------------

/// Whether a border-fill payload parses: flags, five border lines, and a
/// fill kind.
pub open spec fn border_fill_ok(b: Seq<u8>) -> bool {
    b.len() >= 33
}

/// The border line stored at `p`.
pub open spec fn border_line_at(b: Seq<u8>, p: int) -> BorderLine {
    BorderLine { line_type: b[p], thickness: b[p + 1], color: le32(b, p + 2) as u32 }
}

/// The field values a border-fill payload carries.
pub open spec fn border_fill_matches(x: BorderFill, b: Seq<u8>) -> bool {
    &&& x.properties == le16(b, 0)
    &&& x.left_border == border_line_at(b, 2)
    &&& x.right_border == border_line_at(b, 8)
    &&& x.top_border == border_line_at(b, 14)
    &&& x.bottom_border == border_line_at(b, 20)
    &&& x.diagonal_border == border_line_at(b, 26)
    &&& x.fill_type == b[32]
    &&& x.fill_data@ == b.subrange(33, b.len() as int)
}

/// Parse a border-fill record.
pub fn parse_border_fill(data: &[u8]) -> (r: HwpResult<BorderFill>)
    ensures
        border_fill_ok(data@) ==> (r matches Ok(x) && border_fill_matches(x, data@)),
        !border_fill_ok(data@) ==> r is Err,
{
    let mut reader = ByteReader::new(data);
    let properties = reader.read_u16()?;
    let left_border = parse_border_line(&mut reader)?;
    let right_border = parse_border_line(&mut reader)?;
    let top_border = parse_border_line(&mut reader)?;
    let bottom_border = parse_border_line(&mut reader)?;
    let diagonal_border = parse_border_line(&mut reader)?;
    let fill_type = reader.read_u8()?;
    let fill_data = reader.read_to_end()?;
    Ok(
        BorderFill {
            properties,
            left_border,
            right_border,
            top_border,
            bottom_border,
            diagonal_border,
            fill_type,
            fill_data,
        },
    )
}

/// Parse one border line: kind, thickness, colour.
fn parse_border_line(reader: &mut ByteReader) -> (r: HwpResult<BorderLine>)
    requires
        old(reader).wf(),
    ensures
        final(reader).wf(),
        final(reader).bytes() == old(reader).bytes(),
        if old(reader).remaining_spec() >= 6 {
            (r matches Ok(x) && x == border_line_at(old(reader).bytes(), old(reader).at())) && final(reader).at() == old(reader).at() + 6
        } else {
            r is Err
        },
{
    let line_type = reader.read_u8()?;
    let thickness = reader.read_u8()?;
    let color = reader.read_u32()?;
    Ok(BorderLine { line_type, thickness, color })
}

// --- ID mappings ---------------------------------------------------------

/// Whether an ID-mappings payload parses: a count and that many entries.
pub open spec fn id_mappings_ok(b: Seq<u8>) -> bool {
    b.len() >= 4 && 4 + 4 * le32(b, 0) <= b.len()
}

/// The mapping values an ID-mappings payload carries.
pub open spec fn id_mappings_values(b: Seq<u8>) -> Seq<u32> {
    Seq::new(le32(b, 0) as nat, |i: int| le32(b, 4 + 4 * i) as u32)
}

/// Parse an ID-mappings record.
pub fn parse_id_mappings(data: &[u8]) -> (r: HwpResult<Vec<u32>>)
    ensures
        id_mappings_ok(data@) ==> (r matches Ok(x) && x@ == id_mappings_values(data@)),
        !id_mappings_ok(data@) ==> r is Err,
{
    let ghost b = data@;
    let mut reader = ByteReader::new(data);
    let count = reader.read_u32()?;
    let mut mappings: Vec<u32> = Vec::new();
    let mut i: usize = 0;
    while i < count as usize
        invariant
            reader.wf(),
            reader.bytes() == b,
            b == data@,
            b.len() >= 4,
            count == le32(b, 0),
            0 <= i <= count,
            reader.at() == 4 + 4 * i,
            mappings@.len() == i,
            forall|k: int| 0 <= k < i ==> mappings@[k] == le32(b, 4 + 4 * k) as u32,
        decreases count - i,
    {
        let v = match reader.read_u32() {
            Ok(v) => v,
            Err(e) => {
                return Err(e);
            },
        };
        mappings.push(v);
        i = i + 1;
    }
    proof {
        assert(mappings@ =~= id_mappings_values(b));
    }
    Ok(mappings)
}

// --- Binary data ---------------------------------------------------------

/// Whether a binary-data payload parses: flags, link and compression
/// kinds, then the attachment bytes.
pub open spec fn bin_data_ok(b: Seq<u8>) -> bool {
    b.len() >= 4
}

/// The field values a binary-data payload carries.
pub open spec fn bin_data_matches(x: BinDataEntry, b: Seq<u8>) -> bool {
    &&& x.id == le16(b, 0)
    &&& x.link_type == b[2]
    &&& x.compression_type == b[3]
    &&& x.data@ == b.subrange(4, b.len() as int)
}

/// Parse a binary-data record.
pub fn parse_bin_data(data: &[u8]) -> (r: HwpResult<BinDataEntry>)
    ensures
        bin_data_ok(data@) ==> (r matches Ok(x) && bin_data_matches(x, data@)),
        !bin_data_ok(data@) ==> r is Err,
{
    let mut reader = ByteReader::new(data);
    let properties = reader.read_u16()?;
    let id = properties;
    let link_type = reader.read_u8()?;
    let compression_type = reader.read_u8()?;
    let bytes = reader.read_to_end()?;
    Ok(BinDataEntry { id, link_type, compression_type, data: bytes })
}

// --- Document data -------------------------------------------------------

/// Parse a document-data record: the payload is kept as it is.
pub fn parse_doc_data(data: &[u8]) -> (r: HwpResult<Vec<u8>>)
    ensures
        r matches Ok(v) && v@ == data@,
{
    Ok(crate::cfb::stream::clone_vec_u8_from_slice(data))
}

// --- Tab definitions -----------------------------------------------------

/// Whether a tab-definition payload parses: flags, a count, and that
/// many 8-byte stops.
pub open spec fn tab_def_ok(b: Seq<u8>) -> bool {
    b.len() >= 8 && 8 + 8 * le32(b, 4) <= b.len()
}

/// The stop stored at index `i`.
pub open spec fn tab_info_at(b: Seq<u8>, i: int) -> TabInfo {
    TabInfo {
        position: le32(b, 8 + 8 * i) as u32 as i32,
        tab_type: b[12 + 8 * i],
        fill_type: b[13 + 8 * i],
    }
}

/// The field values a tab-definition payload carries.
pub open spec fn tab_def_matches(x: TabDef, b: Seq<u8>) -> bool {
    &&& x.properties == le32(b, 0)
    &&& x.count == le32(b, 4)
    &&& x.tabs@ == Seq::new(le32(b, 4) as nat, |i: int| tab_info_at(b, i))
}

/// Parse a tab-definition record.
pub fn parse_tab_def(data: &[u8]) -> (r: HwpResult<TabDef>)
    ensures
        tab_def_ok(data@) ==> (r matches Ok(x) && tab_def_matches(x, data@)),
        !tab_def_ok(data@) ==> r is Err,
{
    let ghost b = data@;
    let mut reader = ByteReader::new(data);
    let properties = reader.read_u32()?;
    let count = reader.read_u32()?;
    let mut tabs: Vec<TabInfo> = Vec::new();
    let mut i: usize = 0;
    while i < count as usize
        invariant
            reader.wf(),
            reader.bytes() == b,
            b == data@,
            b.len() >= 8,
            count == le32(b, 4),
            0 <= i <= count,
            reader.at() == 8 + 8 * i,
            tabs@.len() == i,
            forall|k: int| 0 <= k < i ==> tabs@[k] == tab_info_at(b, k),
        decreases count - i,
    {
        let position = match reader.read_i32() {
            Ok(v) => v,
            Err(e) => {
                return Err(e);
            },
        };
        let tab_type = match reader.read_u8() {
            Ok(v) => v,
            Err(e) => {
                return Err(e);
            },
        };
        let fill_type = match reader.read_u8() {
            Ok(v) => v,
            Err(e) => {
                return Err(e);
            },
        };
        match reader.read_u16() {
            Ok(_) => {},
            Err(e) => {
                return Err(e);
            },
        }
        tabs.push(TabInfo { position, tab_type, fill_type });
        i = i + 1;
    }
    proof {
        assert(tabs@ =~= Seq::new(le32(b, 4) as nat, |i: int| tab_info_at(b, i)));
    }
    Ok(TabDef { properties, count, tabs })
}

// --- Numbering -----------------------------------------------------------

/// Whether the numbering levels from `p` parse, with `n` levels left.
pub open spec fn numbering_ok(b: Seq<u8>, p: int, n: int) -> bool
    decreases n,
{
    if n <= 0 || p >= b.len() {
        true
    } else {
        &&& p + 6 <= b.len()
        &&& hstr_ok(b, p + 6)
        &&& hstr_chars(b, p + 6) is Some
        &&& ({
            let q = hstr_end(b, p + 6);
            if q < b.len() {
                q + 2 <= b.len() && numbering_ok(b, q + 2, n - 1)
            } else {
                true
            }
        })
    }
}

/// The level values the numbering levels from `p` carry.
pub open spec fn numbering_matches(ls: Seq<NumberingLevel>, b: Seq<u8>, p: int, n: int) -> bool
    decreases n,
{
    if n <= 0 || p >= b.len() {
        ls.len() == 0
    } else {
        &&& ls.len() >= 1
        &&& ls[0].properties == le32(b, p)
        &&& ls[0].paragraph_shape_id == le16(b, p + 4)
        &&& Some(ls[0].format@) == hstr_chars(b, p + 6)
        &&& ({
            let q = hstr_end(b, p + 6);
            if q < b.len() {
                ls[0].start_number == le16(b, q) && numbering_matches(ls.skip(1), b, q + 2, n - 1)
            } else {
                ls[0].start_number == 1 && ls.len() == 1
            }
        })
    }
}

/// Parse a numbering record: up to seven levels, each with its format
/// string and an optional start number.
pub fn parse_numbering(data: &[u8]) -> (r: HwpResult<Numbering>)
    ensures
        numbering_ok(data@, 0, 7) ==> (r matches Ok(x) && numbering_matches(
            x.levels@,
            data@,
            0,
            7,
        )),
        !numbering_ok(data@, 0, 7) ==> r is Err,
{
    let ghost b = data@;
    let mut reader = ByteReader::new(data);
    let mut levels: Vec<NumberingLevel> = Vec::new();
    let mut n: usize = 0;
    let mut done = false;
    while n < 7 && !done
        invariant
            reader.wf(),
            reader.bytes() == b,
            b == data@,
            0 <= n <= 7,
            numbering_ok(b, 0, 7) == numbering_ok(b, reader.at(), 7 - n),
            done ==> reader.at() >= b.len(),
            forall|ls: Seq<NumberingLevel>|
                numbering_matches(ls, b, reader.at(), 7 - n) ==> #[trigger] numbering_matches(
                    levels@ + ls,
                    b,
                    0,
                    7,
                ),
        decreases 7 - n + if done {
            0int
        } else {
            1int
        },
    {
        if reader.is_eof() {
            done = true;
        } else {
            let ghost p = reader.at();
            let properties = match reader.read_u32() {
                Ok(v) => v,
                Err(e) => {
                    return Err(e);
                },
            };
            let paragraph_shape_id = match reader.read_u16() {
                Ok(v) => v,
                Err(e) => {
                    return Err(e);
                },
            };
            let format = match read_hstr(&mut reader) {
                Ok(s) => s,
                Err(e) => {
                    return Err(e);
                },
            };
            let ghost q = reader.at();
            let start_number = if !reader.is_eof() {
                match reader.read_u16() {
                    Ok(v) => v,
                    Err(e) => {
                        return Err(e);
                    },
                }
            } else {
                1
            };
            let ghost lv0 = levels@;
            levels.push(NumberingLevel { properties, paragraph_shape_id, format, start_number });
            proof {
                assert forall|ls: Seq<NumberingLevel>|
                    numbering_matches(ls, b, reader.at(), 7 - (n + 1)) implies #[trigger] numbering_matches(
                    levels@ + ls,
                    b,
                    0,
                    7,
                ) by {
                    let one = levels@[lv0.len() as int];
                    assert((seq![one] + ls)[0] == one);
                    assert((seq![one] + ls).skip(1) =~= ls);
                    assert(numbering_matches(seq![one] + ls, b, p, 7 - n));
                    assert(lv0 + (seq![one] + ls) =~= levels@ + ls);
                }
            }
            n = n + 1;
        }
    }
    proof {
        assert(numbering_matches(Seq::<NumberingLevel>::empty(), b, reader.at(), 7 - n));
        assert(numbering_matches(levels@ + Seq::<NumberingLevel>::empty(), b, 0, 7));
        assert(levels@ + Seq::<NumberingLevel>::empty() =~= levels@);
    }
    Ok(Numbering { levels })
}

// --- Bullet --------------------------------------------------------------

/// Whether a bullet payload parses: flags and shape id, then either an
/// image id or a character string.
pub open spec fn bullet_ok(b: Seq<u8>) -> bool {
    &&& b.len() >= 6
    &&& if (le32(b, 0) as u32) & 0x01 != 0 {
        b.len() >= 8
    } else {
        hstr_ok(b, 6) && hstr_chars(b, 6) is Some
    }
}

/// The field values a bullet payload carries.
pub open spec fn bullet_matches(x: Bullet, b: Seq<u8>) -> bool {
    &&& x.properties == le32(b, 0)
    &&& x.paragraph_shape_id == le16(b, 4)
    &&& if (le32(b, 0) as u32) & 0x01 != 0 {
        x.bullet_char is None && x.image_id == Some(le16(b, 6) as u16)
    } else {
        (x.bullet_char matches Some(s) && Some(s@) == hstr_chars(b, 6)) && x.image_id is None
    }
}

/// Parse a bullet record.
pub fn parse_bullet(data: &[u8]) -> (r: HwpResult<Bullet>)
    ensures
        bullet_ok(data@) ==> (r matches Ok(x) && bullet_matches(x, data@)),
        !bullet_ok(data@) ==> r is Err,
{
    let mut reader = ByteReader::new(data);
    let properties = reader.read_u32()?;
    let paragraph_shape_id = reader.read_u16()?;
    let uses_image = properties & 0x01 != 0;
    let (bullet_char, image_id) = if uses_image {
        let img_id = reader.read_u16()?;
        (None, Some(img_id))
    } else {
        let ch = match read_hstr(&mut reader) {
            Ok(s) => s,
            Err(e) => {
                return Err(e);
            },
        };
        (Some(ch), None)
    };
    Ok(Bullet { properties, paragraph_shape_id, bullet_char, image_id })
}

// --- Distribution data ---------------------------------------------------

/// Parse a distribution-data record: the payload is kept as it is.
pub fn parse_distribute_doc_data(data: &[u8]) -> (r: HwpResult<DistributeDocData>)
    ensures
        r matches Ok(x) && x.data@ == data@,
{
    Ok(DistributeDocData { data: crate::cfb::stream::clone_vec_u8_from_slice(data) })
}

// --- Compatible document -------------------------------------------------

/// Parse a compatible-document record: the target program identifier.
pub fn parse_compatible_document(data: &[u8]) -> (r: HwpResult<CompatibleDocument>)
    ensures
        data@.len() >= 4 ==> (r matches Ok(x) && x.target_program == le32(data@, 0)),
        data@.len() < 4 ==> r is Err,
{
    let mut reader = ByteReader::new(data);
    let target_program = reader.read_u32()?;
    Ok(CompatibleDocument { target_program })
}

// --- Layout compatibility ------------------------------------------------

/// The field values a layout-compatibility payload carries.
pub open spec fn layout_compatibility_matches(x: LayoutCompatibility, b: Seq<u8>) -> bool {
    &&& x.letter_spacing == le32(b, 0)
    &&& x.paragraph_spacing == le32(b, 4)
    &&& x.line_grid == le32(b, 8)
    &&& x.paragraph_grid == le32(b, 12)
    &&& x.snap_to_grid == le32(b, 16)
}

/// Parse a layout-compatibility record.
pub fn parse_layout_compatibility(data: &[u8]) -> (r: HwpResult<LayoutCompatibility>)
    ensures
        data@.len() >= 20 ==> (r matches Ok(x) && layout_compatibility_matches(x, data@)),
        data@.len() < 20 ==> r is Err,
{
    let mut reader = ByteReader::new(data);
    let letter_spacing = reader.read_u32()?;
    let paragraph_spacing = reader.read_u32()?;
    let line_grid = reader.read_u32()?;
    let paragraph_grid = reader.read_u32()?;
    let snap_to_grid = reader.read_u32()?;
    Ok(LayoutCompatibility { letter_spacing, paragraph_spacing, line_grid, paragraph_grid, snap_to_grid })
}

// --- Tracked changes -----------------------------------------------------

/// The field values a tracked-change payload carries.
pub open spec fn track_change_matches(x: TrackChange, b: Seq<u8>) -> bool {
    &&& x.properties == le32(b, 0)
    &&& x.author_id == le16(b, 4)
    &&& x.timestamp == le64(b, 6)
    &&& x.change_type == le16(b, 14)
    &&& x.data@ == b.subrange(16, b.len() as int)
}

/// Parse a tracked-change record.
pub fn parse_track_change(data: &[u8]) -> (r: HwpResult<TrackChange>)
    ensures
        data@.len() >= 16 ==> (r matches Ok(x) && track_change_matches(x, data@)),
        data@.len() < 16 ==> r is Err,
{
    let mut reader = ByteReader::new(data);
    let properties = reader.read_u32()?;
    let author_id = reader.read_u16()?;
    let timestamp = reader.read_u64()?;
    let change_type = reader.read_u16()?;
    let change_data = reader.read_to_end()?;
    Ok(TrackChange { properties, author_id, timestamp, change_type, data: change_data })
}

/// Whether a tracked-change author payload parses.
pub open spec fn track_change_author_ok(b: Seq<u8>) -> bool {
    b.len() >= 2 && hstr_ok(b, 2) && hstr_chars(b, 2) is Some
}

/// The field values a tracked-change author payload carries.
pub open spec fn track_change_author_matches(x: TrackChangeAuthor, b: Seq<u8>) -> bool {
    &&& x.id == le16(b, 0)
    &&& Some(x.name@) == hstr_chars(b, 2)
}

/// Parse a tracked-change author record.
pub fn parse_track_change_author(data: &[u8]) -> (r: HwpResult<TrackChangeAuthor>)
    ensures
        track_change_author_ok(data@) ==> (r matches Ok(x) && track_change_author_matches(
            x,
            data@,
        )),
        !track_change_author_ok(data@) ==> r is Err,
{
    let mut reader = ByteReader::new(data);
    let id = reader.read_u16()?;
    let name = match read_hstr(&mut reader) {
        Ok(s) => s,
        Err(e) => {
            return Err(e);
        },
    };
    Ok(TrackChangeAuthor { id, name })
}

// --- Memo shape ----------------------------------------------------------

/// The field values a memo-shape payload carries.
pub open spec fn memo_shape_matches(x: MemoShape, b: Seq<u8>) -> bool {
    &&& x.properties == le32(b, 0)
    &&& x.memo_id == le32(b, 4)
    &&& x.width == le32(b, 8) as u32 as i32
    &&& x.line_count == le16(b, 12)
    &&& x.line_spacing == le16(b, 14) as u16 as i16
    &&& x.line_type == b[16]
    &&& x.line_color == le32(b, 17)
}

/// Parse a memo-shape record.
pub fn parse_memo_shape(data: &[u8]) -> (r: HwpResult<MemoShape>)
    ensures
        data@.len() >= 21 ==> (r matches Ok(x) && memo_shape_matches(x, data@)),
        data@.len() < 21 ==> r is Err,
{
    let mut reader = ByteReader::new(data);
    let properties = reader.read_u32()?;
    let memo_id = reader.read_u32()?;
    let width = reader.read_i32()?;
    let line_count = reader.read_u16()?;
    let line_spacing = reader.read_i16()?;
    let line_type = reader.read_u8()?;
    let line_color = reader.read_u32()?;
    Ok(MemoShape { properties, memo_id, width, line_count, line_spacing, line_type, line_color })
}

// --- Forbidden characters ------------------------------------------------

/// Whether a forbidden-characters payload parses.
pub open spec fn forbidden_char_ok(b: Seq<u8>) -> bool {
    &&& hstr_ok(b, 0)
    &&& hstr_chars(b, 0) is Some
    &&& (hstr_end(b, 0) < b.len() ==> hstr_ok(b, hstr_end(b, 0)) && hstr_chars(
        b,
        hstr_end(b, 0),
    ) is Some)
}

/// The field values a forbidden-characters payload carries.
pub open spec fn forbidden_char_matches(x: ForbiddenChar, b: Seq<u8>) -> bool {
    &&& Some(x.forbidden_chars@) == hstr_chars(b, 0)
    &&& if hstr_end(b, 0) < b.len() {
        Some(x.allowed_chars@) == hstr_chars(b, hstr_end(b, 0))
    } else {
        x.allowed_chars@ == Seq::<char>::empty()
    }
}

/// Parse a forbidden-characters record.
pub fn parse_forbidden_char(data: &[u8]) -> (r: HwpResult<ForbiddenChar>)
    ensures
        forbidden_char_ok(data@) ==> (r matches Ok(x) && forbidden_char_matches(x, data@)),
        !forbidden_char_ok(data@) ==> r is Err,
{
    let mut reader = ByteReader::new(data);
    let forbidden_chars = match read_hstr(&mut reader) {
        Ok(s) => s,
        Err(e) => {
            return Err(e);
        },
    };
    let allowed_chars = if !reader.is_eof() {
        match read_hstr(&mut reader) {
            Ok(s) => s,
            Err(e) => {
                return Err(e);
            },
        }
    } else {
        String::new()
    };
    Ok(ForbiddenChar { forbidden_chars, allowed_chars })
}

} // verus!
