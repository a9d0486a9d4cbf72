//! Sections: ordered paragraphs plus page-level layout records.

use vstd::prelude::*;
use crate::models::paragraph::Paragraph;

verus! {

/// One document section.
#[derive(Debug)]
pub struct Section {
    /// Section definition.
    pub definition: SectionDefinition,
    /// Paragraphs in this section.
    pub paragraphs: Vec<Paragraph>,
    /// Page definitions.
    pub page_defs: Vec<PageDef>,
    /// Footnote shape.
    pub footnote_shape: Option<FootnoteShape>,
    /// Page border fill.
    pub page_border_fill: Option<PageBorderFill>,
}

/// An empty section.
pub open spec fn section_is_empty(s: Section) -> bool {
    &&& s.definition == section_definition_default()
    &&& s.paragraphs@ == Seq::<Paragraph>::empty()
    &&& s.page_defs@ == Seq::<PageDef>::empty()
    &&& s.footnote_shape is None
    &&& s.page_border_fill is None
}

impl Section {
    /// Create a new empty section.
    pub fn new() -> (r: Self)
        ensures
            section_is_empty(r),
    {
        Section {
            definition: SectionDefinition::default(),
            paragraphs: Vec::new(),
            page_defs: Vec::new(),
            footnote_shape: None,
            page_border_fill: None,
        }
    }

    /// The page count of this section; layout is out of scope, so one
    /// page stands for any amount of content.
    pub fn page_count(&self) -> (r: usize)
        ensures
            r == 1,
    {
        1
    }

    /// All paragraph text of the section, one line per paragraph.
    pub fn get_text(&self) -> (r: String)
        ensures
            r@ == section_text(self.paragraphs@),
    {
        let mut text = String::new();
        let mut i: usize = 0;
        while i < self.paragraphs.len()
            invariant
                0 <= i <= self.paragraphs@.len(),
                text@ == section_text(self.paragraphs@.take(i as int)),
            decreases self.paragraphs@.len() - i,
        {
            text.append(self.paragraphs[i].text.as_str());
            text.push('\n');
            proof {
                assert(self.paragraphs@.take(i + 1).drop_last() =~= self.paragraphs@.take(
                    i as int,
                ));
                assert(text@ =~= section_text(self.paragraphs@.take(i + 1)));
            }
            i = i + 1;
        }
        proof {
            assert(self.paragraphs@.take(i as int) =~= self.paragraphs@);
        }
        text
    }
}

/// The concatenated text of a paragraph sequence, one trailing newline
/// per paragraph.
pub open spec fn section_text(paras: Seq<Paragraph>) -> Seq<char>
    decreases paras.len(),
{
    if paras.len() == 0 {
        Seq::<char>::empty()
    } else {
        section_text(paras.drop_last()) + paras.last().text@ + seq!['\n']
    }
}

impl Default for Section {
    fn default() -> (r: Self)
        ensures
            section_is_empty(r),
    {
        Section::new()
    }
}

/// Column and visibility settings of a section.
#[derive(Debug, Clone, Copy, PartialEq, Eq, Structural)]
pub struct SectionDefinition {
    pub properties: u32,
    pub column_count: u16,
    pub column_direction: u16,
    pub column_gap: u16,
    pub starting_page: u16,
    pub starting_page_number: u16,
    pub hide_empty_line: bool,
    pub text_protection: bool,
    pub hide_header: bool,
    pub hide_footer: bool,
    pub hide_master_page: bool,
    pub hide_border: bool,
    pub hide_fill: bool,
    pub hide_page_number: bool,
    pub border_fill_id: u16,
    pub text_vertical_alignment: u8,
    pub header_footer_different_first: bool,
    pub header_footer_different_odd_even: bool,
}

/// The all-default section definition.
pub open spec fn section_definition_default() -> SectionDefinition {
    SectionDefinition {
        properties: 0,
        column_count: 0,
        column_direction: 0,
        column_gap: 0,
        starting_page: 0,
        starting_page_number: 0,
        hide_empty_line: false,
        text_protection: false,
        hide_header: false,
        hide_footer: false,
        hide_master_page: false,
        hide_border: false,
        hide_fill: false,
        hide_page_number: false,
        border_fill_id: 0,
        text_vertical_alignment: 0,
        header_footer_different_first: false,
        header_footer_different_odd_even: false,
    }
}

impl Default for SectionDefinition {
    fn default() -> (r: Self)
        ensures
            r == section_definition_default(),
    {
        SectionDefinition {
            properties: 0,
            column_count: 0,
            column_direction: 0,
            column_gap: 0,
            starting_page: 0,
            starting_page_number: 0,
            hide_empty_line: false,
            text_protection: false,
            hide_header: false,
            hide_footer: false,
            hide_master_page: false,
            hide_border: false,
            hide_fill: false,
            hide_page_number: false,
            border_fill_id: 0,
            text_vertical_alignment: 0,
            header_footer_different_first: false,
            header_footer_different_odd_even: false,
        }
    }
}

/// Page geometry of a section.
#[derive(Debug, Clone, Copy, PartialEq, Eq, Structural)]
pub struct PageDef {
    pub width: u32,
    pub height: u32,
    pub padding_left: u32,
    pub padding_right: u32,
    pub padding_top: u32,
    pub padding_bottom: u32,
    pub header_padding: u32,
    pub footer_padding: u32,
    pub gutter_padding: u32,
    pub properties: u32,
    pub footnote_shape_id: u16,
}

/// A4 portrait geometry in document units.
pub open spec fn page_def_default() -> PageDef {
    PageDef {
        width: 59528,
        height: 84188,
        padding_left: 8504,
        padding_right: 8504,
        padding_top: 5668,
        padding_bottom: 4252,
        header_padding: 4252,
        footer_padding: 4252,
        gutter_padding: 0,
        properties: 0,
        footnote_shape_id: 0,
    }
}

impl Default for PageDef {
    fn default() -> (r: Self)
        ensures
            r == page_def_default(),
    {
        PageDef {
            width: 59528,
            height: 84188,
            padding_left: 8504,
            padding_right: 8504,
            padding_top: 5668,
            padding_bottom: 4252,
            header_padding: 4252,
            footer_padding: 4252,
            gutter_padding: 0,
            properties: 0,
            footnote_shape_id: 0,
        }
    }
}

/// Footnote separator and numbering settings.
#[derive(Debug)]
pub struct FootnoteShape {
    pub properties: u32,
    pub user_symbol: String,
    pub prefix_symbol: String,
    pub suffix_symbol: String,
    pub starting_number: u16,
    pub divider_length: u32,
    pub divider_margin_top: u16,
    pub divider_margin_bottom: u16,
    pub notes_margin_top: u16,
    pub notes_margin_bottom: u16,
    pub divider_type: u8,
    pub divider_thickness: u8,
    pub divider_color: u32,
}

/// Page border-fill settings.
#[derive(Debug, Clone, Copy, PartialEq, Eq, Structural)]
pub struct PageBorderFill {
    pub properties: u32,
    pub position_criteria: u8,
    pub include_header: bool,
    pub include_footer: bool,
    pub fill_area: u8,
    pub offset_left: i16,
    pub offset_right: i16,
    pub offset_top: i16,
    pub offset_bottom: i16,
    pub border_fill_id: u16,
}

} // verus!
