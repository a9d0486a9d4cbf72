//! Framed records: a 32-bit packed header (tag, level, size) followed by
//! the record payload.

use vstd::prelude::*;
use crate::bytes_le::le32;
use crate::tag_id;

verus! {

/// One decoded record of the tag/level/size format.
#[derive(Debug)]
pub struct Record {
    /// Tag ID identifying the record type.
    pub tag_id: u16,
    /// Hierarchy level (0-3).
    pub level: u8,
    /// Size of the record data.
    pub size: u32,
    /// Record data.
    pub data: Vec<u8>,
}

impl Record {
    /// Create a new record.
    pub fn new(tag_id: u16, level: u8, size: u32, data: Vec<u8>) -> (r: Self)
        ensures
            r.tag_id == tag_id,
            r.level == level,
            r.size == size,
            r.data@ == data@,
    {
        Record { tag_id, level, size, data }
    }

    /// The total encoded size, including the 4-byte header.
    pub fn total_size(&self) -> (r: usize)
        requires
            self.size + 4 <= usize::MAX,
        ensures
            r == self.size + 4,
    {
        4 + self.size as usize
    }

    /// Whether the tag belongs to the document-information dialect.
    pub fn is_doc_info(&self) -> (r: bool)
        ensures
            r == tag_id::is_doc_info_tag(self.tag_id),
    {
        let t = self.tag_id;
        (0x0010 <= t && t <= 0x001C) || t == 0x0020 || t == 0x0021 || t == 0x0022 || t == 0x004C
            || t == 0x004E || t == 0x00F0
    }

    /// Whether the tag belongs to the section-content dialect.
    pub fn is_section(&self) -> (r: bool)
        ensures
            r == tag_id::is_section_tag(self.tag_id),
    {
        let t = self.tag_id;
        (0x0050 <= t && t <= 0x0066) || (0x0068 <= t && t <= 0x006D)
    }
}

/// The packed 32-bit record header: tag id in the low 10 bits, level in
/// the next 2, size in the top 20.
#[derive(Debug, Clone, Copy)]
pub struct RecordHeader {
    pub value: u32,
}

/// The tag id encoded in a packed header value.
pub open spec fn header_tag(value: u32) -> u16 {
    (value & 0x3FF) as u16
}

/// The level encoded in a packed header value.
pub open spec fn header_level(value: u32) -> u8 {
    ((value >> 10) & 0x3) as u8
}

/// The inline size encoded in a packed header value.
pub open spec fn header_size(value: u32) -> u32 {
    value >> 12
}

/// All twenty size bits set: the real size follows as a separate 32-bit
/// value.
pub open spec fn header_has_extended_size(value: u32) -> bool {
    header_size(value) == 0xFFFFF
}

impl RecordHeader {
    /// Parse a header from its four little-endian bytes.
    pub fn from_bytes(bytes: [u8; 4]) -> (r: Self)
        ensures
            r.value == le32(bytes@, 0),
    {
        let value = bytes[0] as u32 + bytes[1] as u32 * 0x100 + bytes[2] as u32 * 0x1_0000
            + bytes[3] as u32 * 0x100_0000;
        RecordHeader { value }
    }

    /// The tag ID (bits 0-9).
    pub fn tag_id(&self) -> (r: u16)
        ensures
            r == header_tag(self.value),
    {
        (self.value & 0x3FF) as u16
    }

    /// The level (bits 10-11).
    pub fn level(&self) -> (r: u8)
        ensures
            r == header_level(self.value),
    {
        ((self.value >> 10) & 0x3) as u8
    }

    /// The inline size (bits 12-31).
    pub fn size(&self) -> (r: u32)
        ensures
            r == header_size(self.value),
    {
        self.value >> 12
    }

    /// Whether the real size follows the header as an extra 32-bit value.
    pub fn has_extended_size(&self) -> (r: bool)
        ensures
            r == header_has_extended_size(self.value),
    {
        self.size() == 0xFFFFF
    }
}

} // verus!
