//! Paragraphs: decoded text plus formatting run tables.

use vstd::prelude::*;

verus! {

/// One paragraph of a section.
#[derive(Debug)]
pub struct Paragraph {
    /// Paragraph header.
    pub header: ParagraphHeader,
    /// Text content.
    pub text: String,
    /// Character shapes.
    pub char_shapes: Vec<CharShapePos>,
    /// Line segments.
    pub line_segments: Vec<LineSegment>,
    /// Range tags.
    pub range_tags: Vec<RangeTag>,
    /// Control characters.
    pub controls: Vec<Control>,
}

/// An empty paragraph.
pub open spec fn paragraph_is_empty(p: Paragraph) -> bool {
    &&& p.header == paragraph_header_default()
    &&& p.text@ == Seq::<char>::empty()
    &&& p.char_shapes@ == Seq::<CharShapePos>::empty()
    &&& p.line_segments@ == Seq::<LineSegment>::empty()
    &&& p.range_tags@ == Seq::<RangeTag>::empty()
    &&& p.controls@ == Seq::<Control>::empty()
}

impl Paragraph {
    /// Create a new empty paragraph.
    pub fn new() -> (r: Self)
        ensures
            paragraph_is_empty(r),
    {
        Paragraph {
            header: ParagraphHeader::default(),
            text: String::new(),
            char_shapes: Vec::new(),
            line_segments: Vec::new(),
            range_tags: Vec::new(),
            controls: Vec::new(),
        }
    }

    /// The text content of the paragraph.
    pub fn get_text(&self) -> (r: String)
        ensures
            r@ == self.text@,
    {
        self.text.clone()
    }
}

impl Default for Paragraph {
    fn default() -> (r: Self)
        ensures
            paragraph_is_empty(r),
    {
        Paragraph::new()
    }
}

/// The counts and ids at the head of a paragraph.
#[derive(Debug, Clone, Copy, PartialEq, Eq, Structural)]
pub struct ParagraphHeader {
    pub text_count: u32,
    pub control_mask: u32,
    pub para_shape_id: u16,
    pub style_id: u8,
    pub division_type: u8,
    pub char_shape_count: u16,
    pub range_tag_count: u16,
    pub line_align_count: u16,
    pub instance_id: u32,
    pub is_merged_by_track: u16,
}

/// The all-zero paragraph header.
pub open spec fn paragraph_header_default() -> ParagraphHeader {
    ParagraphHeader {
        text_count: 0,
        control_mask: 0,
        para_shape_id: 0,
        style_id: 0,
        division_type: 0,
        char_shape_count: 0,
        range_tag_count: 0,
        line_align_count: 0,
        instance_id: 0,
        is_merged_by_track: 0,
    }
}

impl Default for ParagraphHeader {
    fn default() -> (r: Self)
        ensures
            r == paragraph_header_default(),
    {
        ParagraphHeader {
            text_count: 0,
            control_mask: 0,
            para_shape_id: 0,
            style_id: 0,
            division_type: 0,
            char_shape_count: 0,
            range_tag_count: 0,
            line_align_count: 0,
            instance_id: 0,
            is_merged_by_track: 0,
        }
    }
}

/// A character-shape run: the run starts at `position`.
#[derive(Debug, Clone, Copy, PartialEq, Eq, Structural)]
pub struct CharShapePos {
    pub position: u32,
    pub shape_id: u16,
}

/// Metrics of one laid-out line.
#[derive(Debug, Clone, Copy, PartialEq, Eq, Structural)]
pub struct LineSegment {
    pub text_start_pos: u32,
    pub line_height: i32,
    pub text_height: i32,
    pub baseline_gap: i32,
    pub line_spacing: i32,
    pub column_start_pos: u32,
    pub segment_width: i32,
    pub flags: u32,
}

/// A tagged range of text.
#[derive(Debug)]
pub struct RangeTag {
    pub start: u32,
    pub end: u32,
    pub tag_data: Vec<u8>,
}

/// An inline control inside a paragraph.
#[derive(Debug)]
pub struct Control {
    pub position: u32,
    pub control_type: ControlType,
    pub data: Vec<u8>,
}

/// The kinds of inline controls.
#[derive(Debug, Clone)]
pub enum ControlType {
    /// Regular control character.
    Character(u16),
    /// Inline control object.
    Inline(u32),
    /// Extended control object.
    Extended(ExtendedControl),
}

/// Extended control objects, identified by a four-byte id.
#[derive(Debug, Clone, PartialEq, Eq, Structural)]
pub enum ExtendedControl {
    Table,
    GenShapeObject,
    Equation,
    Header,
    Footer,
    Footnote,
    Endnote,
    AutoNum,
    NewNum,
    PageNumPos,
    PageHiding,
    PageOddEvenAdjust,
    PageBreak,
    Field,
    Bookmark,
    IndexMark,
    HiddenComment,
    Other(u32),
}

/// The extended control a four-byte control id maps to.
pub open spec fn extended_control_of(id: u32) -> ExtendedControl {
    if id == 0x00746c62 {
        ExtendedControl::Table
    } else if id == 0x6F736467 {
        ExtendedControl::GenShapeObject
    } else if id == 0x00716571 {
        ExtendedControl::Equation
    } else if id == 0x00646568 {
        ExtendedControl::Header
    } else if id == 0x00746F66 {
        ExtendedControl::Footer
    } else if id == 0x00746E66 {
        ExtendedControl::Footnote
    } else if id == 0x00746E65 {
        ExtendedControl::Endnote
    } else if id == 0x006D756E {
        ExtendedControl::AutoNum
    } else if id == 0x006E776E {
        ExtendedControl::NewNum
    } else if id == 0x00706E70 {
        ExtendedControl::PageNumPos
    } else if id == 0x00646870 {
        ExtendedControl::PageHiding
    } else if id == 0x61656F70 {
        ExtendedControl::PageOddEvenAdjust
    } else if id == 0x006B6270 {
        ExtendedControl::PageBreak
    } else if id == 0x006C6466 {
        ExtendedControl::Field
    } else if id == 0x006B6D62 {
        ExtendedControl::Bookmark
    } else if id == 0x006B6469 {
        ExtendedControl::IndexMark
    } else {
        ExtendedControl::Other(id)
    }
}

impl ExtendedControl {
    /// Map a four-byte control id to its extended control.
    pub fn from_ctrl_id(id: u32) -> (r: Self)
        ensures
            r == extended_control_of(id),
    {
        if id == 0x00746c62 {
            ExtendedControl::Table
        } else if id == 0x6F736467 {
            ExtendedControl::GenShapeObject
        } else if id == 0x00716571 {
            ExtendedControl::Equation
        } else if id == 0x00646568 {
            ExtendedControl::Header
        } else if id == 0x00746F66 {
            ExtendedControl::Footer
        } else if id == 0x00746E66 {
            ExtendedControl::Footnote
        } else if id == 0x00746E65 {
            ExtendedControl::Endnote
        } else if id == 0x006D756E {
            ExtendedControl::AutoNum
        } else if id == 0x006E776E {
            ExtendedControl::NewNum
        } else if id == 0x00706E70 {
            ExtendedControl::PageNumPos
        } else if id == 0x00646870 {
            ExtendedControl::PageHiding
        } else if id == 0x61656F70 {
            ExtendedControl::PageOddEvenAdjust
        } else if id == 0x006B6270 {
            ExtendedControl::PageBreak
        } else if id == 0x006C6466 {
            ExtendedControl::Field
        } else if id == 0x006B6D62 {
            ExtendedControl::Bookmark
        } else if id == 0x006B6469 {
            ExtendedControl::IndexMark
        } else {
            ExtendedControl::Other(id)
        }
    }
}

} // verus!
