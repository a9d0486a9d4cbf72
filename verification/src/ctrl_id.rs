//! Four-byte control identifiers of inline control elements.

use vstd::prelude::*;

verus! {

/// The known control identifiers.
#[derive(Debug, Clone, Copy, PartialEq, Eq, Structural)]
pub enum CtrlId {
    Table,
    GenShapeObject,
    Line,
    Rectangle,
    Ellipse,
    Arc,
    Polygon,
    Curve,
    Equation,
    Picture,
    Ole,
    Container,
    Header,
    Footer,
    PageNumPos,
    NewNum,
    Footnote,
    Endnote,
    AutoNum,
    PageHiding,
    PageOddEvenAdjust,
    PageBreak,
    Field,
    Bookmark,
    DutmalTitle,
    IndexMark,
}

/// The control a four-byte identifier names, if any.
pub open spec fn ctrl_id_of(value: u32) -> Option<CtrlId> {
    if value == 0x00746c62 {
        Some(CtrlId::Table)
    } else if value == 0x6F736467 {
        Some(CtrlId::GenShapeObject)
    } else if value == 0x006C696E {
        Some(CtrlId::Line)
    } else if value == 0x00636572 {
        Some(CtrlId::Rectangle)
    } else if value == 0x00636565 {
        Some(CtrlId::Ellipse)
    } else if value == 0x00636561 {
        Some(CtrlId::Arc)
    } else if value == 0x006C6F70 {
        Some(CtrlId::Polygon)
    } else if value == 0x00727563 {
        Some(CtrlId::Curve)
    } else if value == 0x00716571 {
        Some(CtrlId::Equation)
    } else if value == 0x00636970 {
        Some(CtrlId::Picture)
    } else if value == 0x00656C6F {
        Some(CtrlId::Ole)
    } else if value == 0x006E6F63 {
        Some(CtrlId::Container)
    } else if value == 0x00646568 {
        Some(CtrlId::Header)
    } else if value == 0x00746F66 {
        Some(CtrlId::Footer)
    } else if value == 0x006D756E {
        Some(CtrlId::AutoNum)
    } else if value == 0x00706E70 {
        Some(CtrlId::PageNumPos)
    } else if value == 0x006E776E {
        Some(CtrlId::NewNum)
    } else if value == 0x00746E66 {
        Some(CtrlId::Footnote)
    } else if value == 0x00746E65 {
        Some(CtrlId::Endnote)
    } else if value == 0x00646870 {
        Some(CtrlId::PageHiding)
    } else if value == 0x61656F70 {
        Some(CtrlId::PageOddEvenAdjust)
    } else if value == 0x006B6270 {
        Some(CtrlId::PageBreak)
    } else if value == 0x006C6466 {
        Some(CtrlId::Field)
    } else if value == 0x006B6D62 {
        Some(CtrlId::Bookmark)
    } else if value == 0x74747564 {
        Some(CtrlId::DutmalTitle)
    } else if value == 0x006B6469 {
        Some(CtrlId::IndexMark)
    } else {
        None
    }
}

impl CtrlId {
    /// Map a four-byte identifier to its control, if it is known.
    pub fn from_u32(value: u32) -> (r: Option<Self>)
        ensures
            r == ctrl_id_of(value),
    {
        if value == 0x00746c62 {
            Some(CtrlId::Table)
        } else if value == 0x6F736467 {
            Some(CtrlId::GenShapeObject)
        } else if value == 0x006C696E {
            Some(CtrlId::Line)
        } else if value == 0x00636572 {
            Some(CtrlId::Rectangle)
        } else if value == 0x00636565 {
            Some(CtrlId::Ellipse)
        } else if value == 0x00636561 {
            Some(CtrlId::Arc)
        } else if value == 0x006C6F70 {
            Some(CtrlId::Polygon)
        } else if value == 0x00727563 {
            Some(CtrlId::Curve)
        } else if value == 0x00716571 {
            Some(CtrlId::Equation)
        } else if value == 0x00636970 {
            Some(CtrlId::Picture)
        } else if value == 0x00656C6F {
            Some(CtrlId::Ole)
        } else if value == 0x006E6F63 {
            Some(CtrlId::Container)
        } else if value == 0x00646568 {
            Some(CtrlId::Header)
        } else if value == 0x00746F66 {
            Some(CtrlId::Footer)
        } else if value == 0x006D756E {
            Some(CtrlId::AutoNum)
        } else if value == 0x00706E70 {
            Some(CtrlId::PageNumPos)
        } else if value == 0x006E776E {
            Some(CtrlId::NewNum)
        } else if value == 0x00746E66 {
            Some(CtrlId::Footnote)
        } else if value == 0x00746E65 {
            Some(CtrlId::Endnote)
        } else if value == 0x00646870 {
            Some(CtrlId::PageHiding)
        } else if value == 0x61656F70 {
            Some(CtrlId::PageOddEvenAdjust)
        } else if value == 0x006B6270 {
            Some(CtrlId::PageBreak)
        } else if value == 0x006C6466 {
            Some(CtrlId::Field)
        } else if value == 0x006B6D62 {
            Some(CtrlId::Bookmark)
        } else if value == 0x74747564 {
            Some(CtrlId::DutmalTitle)
        } else if value == 0x006B6469 {
            Some(CtrlId::IndexMark)
        } else {
            None
        }
    }
}

} // verus!
