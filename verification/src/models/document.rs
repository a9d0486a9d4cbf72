//! The document model: header, document information tables, and sections.

use vstd::prelude::*;
use vstd::string::StringExecFns;
use std::collections::HashMap;
use crate::models::header::HwpHeader;
use crate::models::section::{Section, section_text};

verus! {

/// A fully decoded document.
#[derive(Debug)]
pub struct HwpDocument {
    /// File header.
    pub header: HwpHeader,
    /// Document information.
    pub doc_info: DocInfo,
    /// Document sections.
    pub sections: Vec<Section>,
    /// Binary data storage.
    pub bin_data: HashMap<u16, Vec<u8>>,
}

/// The concatenated text of all sections, one trailing newline per
/// section.
pub open spec fn document_text(sections: Seq<Section>) -> Seq<char>
    decreases sections.len(),
{
    if sections.len() == 0 {
        Seq::<char>::empty()
    } else {
        document_text(sections.drop_last()) + section_text(sections.last().paragraphs@)
            + seq!['\n']
    }
}

impl HwpDocument {
    /// Create a new document around a header, with everything else empty.
    pub fn new(header: HwpHeader) -> (r: Self)
        ensures
            r.header == header,
            doc_info_is_empty(r.doc_info),
            r.sections@ == Seq::<Section>::empty(),
            r.bin_data@ == Map::<u16, Vec<u8>>::empty(),
    {
        HwpDocument {
            header,
            doc_info: DocInfo::default(),
            sections: Vec::new(),
            bin_data: HashMap::new(),
        }
    }

    /// The total page count: one page per section.
    pub fn page_count(&self) -> (r: usize)
        ensures
            r == self.sections@.len(),
    {
        let mut count: usize = 0;
        let mut i: usize = 0;
        while i < self.sections.len()
            invariant
                0 <= i <= self.sections@.len(),
                count == i,
            decreases self.sections@.len() - i,
        {
            count = count + self.sections[i].page_count();
            i = i + 1;
        }
        count
    }

    /// All text content of the document.
    pub fn get_text(&self) -> (r: String)
        ensures
            r@ == document_text(self.sections@),
    {
        let mut text = String::new();
        let mut i: usize = 0;
        while i < self.sections.len()
            invariant
                0 <= i <= self.sections@.len(),
                text@ == document_text(self.sections@.take(i as int)),
            decreases self.sections@.len() - i,
        {
            let s = self.sections[i].get_text();
            text.append(s.as_str());
            text.push('\n');
            proof {
                assert(self.sections@.take(i + 1).drop_last() =~= self.sections@.take(i as int));
                assert(text@ =~= document_text(self.sections@.take(i + 1)));
            }
            i = i + 1;
        }
        proof {
            assert(self.sections@.take(i as int) =~= self.sections@);
        }
        text
    }
}

/// The document-information tables.
#[derive(Debug)]
pub struct DocInfo {
    /// Document properties.
    pub properties: DocumentProperties,
    /// Character shapes.
    pub char_shapes: Vec<CharShape>,
    /// Paragraph shapes.
    pub para_shapes: Vec<ParaShape>,
    /// Styles.
    pub styles: Vec<Style>,
    /// Face names (fonts).
    pub face_names: Vec<FaceName>,
    /// Border fills.
    pub border_fills: Vec<BorderFill>,
    /// ID mappings for internal references.
    pub id_mappings: Vec<u32>,
    /// Binary data entries (embedded files, images).
    pub bin_data_entries: Vec<BinDataEntry>,
    /// Document-specific data.
    pub doc_data: Vec<u8>,
    /// Tab definitions.
    pub tab_defs: Vec<TabDef>,
    /// Numbering definitions.
    pub numberings: Vec<Numbering>,
    /// Bullet definitions.
    pub bullets: Vec<Bullet>,
    /// Document distribution data.
    pub distribute_doc_data: Option<DistributeDocData>,
    /// Compatible document settings.
    pub compatible_document: Option<CompatibleDocument>,
    /// Layout compatibility settings.
    pub layout_compatibility: Option<LayoutCompatibility>,
    /// Track changes.
    pub track_changes: Vec<TrackChange>,
    /// Track change authors.
    pub track_change_authors: Vec<TrackChangeAuthor>,
    /// Memo shapes.
    pub memo_shapes: Vec<MemoShape>,
    /// Forbidden characters.
    pub forbidden_chars: Option<ForbiddenChar>,
}

/// A document-information value with every table empty.
pub open spec fn doc_info_is_empty(d: DocInfo) -> bool {
    &&& d.properties == document_properties_default()
    &&& d.char_shapes@.len() == 0
    &&& d.para_shapes@.len() == 0
    &&& d.styles@.len() == 0
    &&& d.face_names@.len() == 0
    &&& d.border_fills@.len() == 0
    &&& d.id_mappings@.len() == 0
    &&& d.bin_data_entries@.len() == 0
    &&& d.doc_data@.len() == 0
    &&& d.tab_defs@.len() == 0
    &&& d.numberings@.len() == 0
    &&& d.bullets@.len() == 0
    &&& d.distribute_doc_data is None
    &&& d.compatible_document is None
    &&& d.layout_compatibility is None
    &&& d.track_changes@.len() == 0
    &&& d.track_change_authors@.len() == 0
    &&& d.memo_shapes@.len() == 0
    &&& d.forbidden_chars is None
}

impl Default for DocInfo {
    fn default() -> (r: Self)
        ensures
            doc_info_is_empty(r),
    {
        DocInfo {
            properties: DocumentProperties::default(),
            char_shapes: Vec::new(),
            para_shapes: Vec::new(),
            styles: Vec::new(),
            face_names: Vec::new(),
            border_fills: Vec::new(),
            id_mappings: Vec::new(),
            bin_data_entries: Vec::new(),
            doc_data: Vec::new(),
            tab_defs: Vec::new(),
            numberings: Vec::new(),
            bullets: Vec::new(),
            distribute_doc_data: None,
            compatible_document: None,
            layout_compatibility: None,
            track_changes: Vec::new(),
            track_change_authors: Vec::new(),
            memo_shapes: Vec::new(),
            forbidden_chars: None,
        }
    }
}

/// Counts and start numbers of the whole document.
#[derive(Debug, Clone, Copy, PartialEq, Eq, Structural)]
pub struct DocumentProperties {
    pub section_count: u16,
    pub page_start_number: u16,
    pub footnote_start_number: u16,
    pub endnote_start_number: u16,
    pub picture_start_number: u16,
    pub table_start_number: u16,
    pub equation_start_number: u16,
    pub total_character_count: u32,
    pub total_page_count: u32,
}

/// The all-zero document properties.
pub open spec fn document_properties_default() -> DocumentProperties {
    DocumentProperties {
        section_count: 0,
        page_start_number: 0,
        footnote_start_number: 0,
        endnote_start_number: 0,
        picture_start_number: 0,
        table_start_number: 0,
        equation_start_number: 0,
        total_character_count: 0,
        total_page_count: 0,
    }
}

impl Default for DocumentProperties {
    fn default() -> (r: Self)
        ensures
            r == document_properties_default(),
    {
        DocumentProperties {
            section_count: 0,
            page_start_number: 0,
            footnote_start_number: 0,
            endnote_start_number: 0,
            picture_start_number: 0,
            table_start_number: 0,
            equation_start_number: 0,
            total_character_count: 0,
            total_page_count: 0,
        }
    }
}

/// One character-shape table entry.
#[derive(Debug, Clone)]
pub struct CharShape {
    pub face_name_ids: Vec<u16>,
    pub ratios: Vec<u8>,
    pub char_spaces: Vec<i8>,
    pub rel_sizes: Vec<u8>,
    pub char_offsets: Vec<i8>,
    pub base_size: u32,
    pub properties: u32,
    pub shadow_gap_x: i8,
    pub shadow_gap_y: i8,
    pub text_color: u32,
    pub underline_color: u32,
    pub shade_color: u32,
    pub shadow_color: u32,
    pub border_fill_id: Option<u16>,
}

/// One paragraph-shape table entry.
#[derive(Debug, Clone, Copy, PartialEq, Eq, Structural)]
pub struct ParaShape {
    pub properties1: u32,
    pub left_margin: i32,
    pub right_margin: i32,
    pub indent: i32,
    pub prev_spacing: i32,
    pub next_spacing: i32,
    pub line_spacing: i32,
    pub tab_def_id: u16,
    pub numbering_id: u16,
    pub border_fill_id: u16,
    pub border_offset_left: i16,
    pub border_offset_right: i16,
    pub border_offset_top: i16,
    pub border_offset_bottom: i16,
    pub properties2: u32,
    pub properties3: u32,
    pub line_spacing_type: u32,
}

/// One style table entry.
#[derive(Debug, Clone)]
pub struct Style {
    pub name: String,
    pub english_name: String,
    pub properties: u8,
    pub next_style_id: u8,
    pub lang_id: u16,
    pub para_shape_id: u16,
    pub char_shape_id: u16,
}

/// One font table entry.
#[derive(Debug, Clone)]
pub struct FaceName {
    pub properties: u8,
    pub name: String,
    pub substitute_font_type: Option<u8>,
    pub substitute_font_name: Option<String>,
    pub type_info: FaceNameType,
    pub base_font_name: Option<String>,
}

/// The PANOSE-style classification of a font.
#[derive(Debug, Clone, Copy, PartialEq, Eq, Structural)]
pub struct FaceNameType {
    pub family: u8,
    pub serif: u8,
    pub weight: u8,
    pub proportion: u8,
    pub contrast: u8,
    pub stroke_variation: u8,
    pub arm_style: u8,
    pub letter_form: u8,
    pub midline: u8,
    pub x_height: u8,
}

/// One border-fill table entry.
#[derive(Debug, Clone)]
pub struct BorderFill {
    pub properties: u16,
    pub left_border: BorderLine,
    pub right_border: BorderLine,
    pub top_border: BorderLine,
    pub bottom_border: BorderLine,
    pub diagonal_border: BorderLine,
    pub fill_type: u8,
    pub fill_data: Vec<u8>,
}

/// One border line: kind, thickness and colour.
#[derive(Debug, Clone, Copy, PartialEq, Eq, Structural)]
pub struct BorderLine {
    pub line_type: u8,
    pub thickness: u8,
    pub color: u32,
}

/// One binary-attachment table entry.
#[derive(Debug, Clone)]
pub struct BinDataEntry {
    pub id: u16,
    pub link_type: u8,
    pub compression_type: u8,
    pub data: Vec<u8>,
}

/// One tab-definition table entry.
#[derive(Debug, Clone)]
pub struct TabDef {
    pub properties: u32,
    pub count: u32,
    pub tabs: Vec<TabInfo>,
}

/// One tab stop.
#[derive(Debug, Clone, Copy, PartialEq, Eq, Structural)]
pub struct TabInfo {
    pub position: i32,
    pub tab_type: u8,
    pub fill_type: u8,
}

/// One numbering definition.
#[derive(Debug, Clone)]
pub struct Numbering {
    pub levels: Vec<NumberingLevel>,
}

/// One level of a numbering definition.
#[derive(Debug, Clone)]
pub struct NumberingLevel {
    pub properties: u32,
    pub paragraph_shape_id: u16,
    pub format: String,
    pub start_number: u16,
}

/// One bullet definition.
#[derive(Debug, Clone)]
pub struct Bullet {
    pub properties: u32,
    pub paragraph_shape_id: u16,
    pub bullet_char: Option<String>,
    pub image_id: Option<u16>,
}

/// Opaque distribution data.
#[derive(Debug, Clone)]
pub struct DistributeDocData {
    pub data: Vec<u8>,
}

/// Compatibility target of the document.
#[derive(Debug, Clone, Copy, PartialEq, Eq, Structural)]
pub struct CompatibleDocument {
    pub target_program: u32,
}

/// Layout compatibility settings.
#[derive(Debug, Clone, Copy, PartialEq, Eq, Structural)]
pub struct LayoutCompatibility {
    pub letter_spacing: u32,
    pub paragraph_spacing: u32,
    pub line_grid: u32,
    pub paragraph_grid: u32,
    pub snap_to_grid: u32,
}

/// One tracked change.
#[derive(Debug, Clone)]
pub struct TrackChange {
    pub properties: u32,
    pub author_id: u16,
    pub timestamp: u64,
    pub change_type: u16,
    pub data: Vec<u8>,
}

/// One tracked-change author.
#[derive(Debug, Clone)]
pub struct TrackChangeAuthor {
    pub id: u16,
    pub name: String,
}

/// One memo shape.
#[derive(Debug, Clone, Copy, PartialEq, Eq, Structural)]
pub struct MemoShape {
    pub properties: u32,
    pub memo_id: u32,
    pub width: i32,
    pub line_count: u16,
    pub line_spacing: i16,
    pub line_type: u8,
    pub line_color: u32,
}

/// The forbidden and allowed line-break characters.
#[derive(Debug, Clone)]
pub struct ForbiddenChar {
    pub forbidden_chars: String,
    pub allowed_chars: String,
}

} // verus!
