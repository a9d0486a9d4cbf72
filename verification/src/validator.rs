//! Context-sensitive validation of record frames: tag vocabulary, size
//! sanity rules, and the forward-scanning resynchronisation used by the
//! decoder's recovery mode.

use vstd::prelude::*;
use vstd::string::StringExecFns;
use crate::bytes_le::le32;
use crate::errors::{HwpError, HwpResult};
use crate::models::record::{RecordHeader, header_tag, header_size, header_has_extended_size};
use crate::tag_id;

verus! {

/// Which tag vocabulary applies to a stream.
#[derive(Debug, Clone, Copy, PartialEq, Eq, Structural)]
pub enum RecordContext {
    /// Document-information stream.
    DocInfo,
    /// Section (body text) stream.
    BodyText,
    /// Unknown or generic context: no vocabulary is enforced.
    Unknown,
}

/// Whether a tag is acceptable in a context, given whether unknown tags
/// are tolerated.
///
/// The generic context deliberately constrains nothing: a decoder built
/// without naming a dialect decodes any well-framed record, and
/// strictness comes only from choosing the document-information or
/// section vocabulary. This is a decision, not an oversight: a
/// context-less decoder that rejected every tag could never decode
/// anything, which is also what callers of the context-less constructor
/// rely on.
pub open spec fn tag_acceptable(tag: u16, context: RecordContext, allow_unknown: bool) -> bool {
    match context {
        RecordContext::DocInfo => tag_id::is_doc_info_tag(tag) || allow_unknown,
        RecordContext::BodyText => tag_id::is_section_tag(tag) || allow_unknown,
        RecordContext::Unknown => true,
    }
}

/// Whether a record size passes the global maximum and the tag-specific
/// minimum rules.
pub open spec fn size_acceptable(size: u32, tag: u16, max_record_size: u32) -> bool {
    &&& size <= max_record_size
    &&& tag == tag_id::DOCUMENT_PROPERTIES ==> size >= 22
    &&& tag == tag_id::FACE_NAME ==> size >= 3
}

/// The frame-level availability rule: an extended-size record needs four
/// more header bytes, an inline-size record its declared payload.
pub open spec fn header_fits(header_value: u32, available: int) -> bool {
    if header_has_extended_size(header_value) {
        4 <= available
    } else {
        header_size(header_value) <= available
    }
}

/// Validates record frames against the two dialects.
pub struct DefaultRecordValidator {
    /// Maximum allowed record size.
    pub max_record_size: u32,
    /// Whether unknown tag IDs are tolerated.
    pub allow_unknown_tags: bool,
}

impl Default for DefaultRecordValidator {
    /// The strict validator: a 100 MiB size cap and no unknown tags.
    fn default() -> (r: Self)
        ensures
            r.max_record_size == 0x6400000u32,
            !r.allow_unknown_tags,
    {
        DefaultRecordValidator { max_record_size: 0x6400000, allow_unknown_tags: false }
    }
}

impl DefaultRecordValidator {
    /// Create a validator with custom settings.
    pub fn new(max_record_size: u32, allow_unknown_tags: bool) -> (r: Self)
        ensures
            r.max_record_size == max_record_size,
            r.allow_unknown_tags == allow_unknown_tags,
    {
        DefaultRecordValidator { max_record_size, allow_unknown_tags }
    }

    /// Create a lenient validator that allows unknown tags.
    pub fn lenient() -> (r: Self)
        ensures
            r.max_record_size == 0x6400000u32,
            r.allow_unknown_tags,
    {
        DefaultRecordValidator { max_record_size: 0x6400000, allow_unknown_tags: true }
    }

    /// Check that enough bytes remain for the record frame.
    pub fn validate_header(&self, header: &RecordHeader, available: usize) -> (r: HwpResult<()>)
        ensures
            r is Ok <==> header_fits(header.value, available as int),
            r matches Err(e) ==> e is ValidationError,
    {
        let required: u32 = if header.has_extended_size() {
            4
        } else {
            header.size()
        };
        if required as usize > available {
            return Err(
                HwpError::ValidationError {
                    message: String::from_str("insufficient data for record"),
                },
            );
        }
        Ok(())
    }

    /// Check the tag against the context's vocabulary; the generic
    /// context accepts every tag (see `tag_acceptable`).
    pub fn validate_tag_id(&self, tag_id: u16, context: RecordContext) -> (r: bool)
        ensures
            r == tag_acceptable(tag_id, context, self.allow_unknown_tags),
    {
        let known = match context {
            RecordContext::DocInfo => {
                let t = tag_id;
                (0x0010 <= t && t <= 0x001C) || t == 0x0020 || t == 0x0021 || t == 0x0022
                    || t == 0x004C || t == 0x004E || t == 0x00F0
            },
            RecordContext::BodyText => {
                let t = tag_id;
                (0x0050 <= t && t <= 0x0066) || (0x0068 <= t && t <= 0x006D)
            },
            RecordContext::Unknown => true,
        };
        known || self.allow_unknown_tags
    }

    /// Check the size against the global maximum and the tag-specific
    /// minimum rules.
    pub fn validate_size(&self, size: u32, tag_id: u16) -> (r: HwpResult<()>)
        ensures
            r is Ok <==> size_acceptable(size, tag_id, self.max_record_size),
            r matches Err(e) ==> e is ValidationError,
    {
        if size > self.max_record_size {
            return Err(
                HwpError::ValidationError {
                    message: String::from_str("record size exceeds the maximum"),
                },
            );
        }
        if tag_id == tag_id::DOCUMENT_PROPERTIES && size < 22 {
            return Err(
                HwpError::ValidationError {
                    message: String::from_str("document properties record too small"),
                },
            );
        }
        if tag_id == tag_id::FACE_NAME && size < 3 {
            return Err(
                HwpError::ValidationError { message: String::from_str("face name record too small") },
            );
        }
        Ok(())
    }

    /// Check that a record starting at `position` ends inside the stream.
    pub fn validate_boundaries(
        &self,
        header: &RecordHeader,
        position: usize,
        total_size: usize,
    ) -> (r: HwpResult<()>)
        ensures
            r is Ok <==> position + 4 + header_size(header.value) <= total_size,
            r matches Err(e) ==> e is ValidationError,
    {
        let size = header.size();
        if position > total_size || total_size - position < 4
            || size as usize > total_size - position - 4 {
            return Err(
                HwpError::ValidationError {
                    message: String::from_str("record extends beyond the stream boundary"),
                },
            );
        }
        Ok(())
    }
}

/// Whether the four bytes at `pos` look like the header of a record that
/// would pass tag validation and fit in the remaining buffer.
pub open spec fn resync_candidate(
    data: Seq<u8>,
    pos: int,
    context: RecordContext,
    allow_unknown: bool,
) -> bool {
    &&& pos + 4 <= data.len()
    &&& tag_acceptable(header_tag(le32(data, pos) as u32), context, allow_unknown)
    &&& header_fits(le32(data, pos) as u32, data.len() - pos - 4)
}

/// The first position at or after `pos` that looks like a valid record
/// header, if any.
pub open spec fn find_resync(
    data: Seq<u8>,
    pos: int,
    context: RecordContext,
    allow_unknown: bool,
) -> Option<int>
    decreases data.len() - pos,
{
    if pos < 0 || pos + 4 > data.len() {
        None
    } else if resync_candidate(data, pos, context, allow_unknown) {
        Some(pos)
    } else {
        find_resync(data, pos + 1, context, allow_unknown)
    }
}

/// Scan forward from the reader's position for the first offset whose
/// next four bytes look like a valid record header for the context.
pub fn find_next_valid_record(
    reader: &crate::reader::ByteReader,
    validator: &DefaultRecordValidator,
    context: RecordContext,
) -> (r: Option<(usize, RecordHeader)>)
    requires
        reader.wf(),
    ensures
        match find_resync(reader.bytes(), reader.at(), context, validator.allow_unknown_tags) {
            Some(p) => r matches Some(pr) && pr.0 == p && pr.1.value == le32(reader.bytes(), p),
            None => r is None,
        },
{
    let ghost b = reader.bytes();
    let ghost allow = validator.allow_unknown_tags;
    let len = reader.len();
    let mut search: usize = reader.position();
    while search <= len && len - search >= 4
        invariant
            reader.wf(),
            b == reader.bytes(),
            allow == validator.allow_unknown_tags,
            len == b.len(),
            reader.at() <= search,
            find_resync(b, reader.at(), context, allow) == find_resync(
                b,
                search as int,
                context,
                allow,
            ),
        decreases len - search,
    {
        let hv = match reader.peek_u32_at(search) {
            Some(hv) => hv,
            None => {
                proof {
                    assert(false);
                }
                0
            },
        };
        let header = RecordHeader { value: hv };
        if validator.validate_tag_id(header.tag_id(), context) {
            let available = len - search - 4;
            match validator.validate_header(&header, available) {
                Ok(_) => {
                    proof {
                        assert(resync_candidate(b, search as int, context, allow));
                    }
                    return Some((search, header));
                },
                Err(_) => {},
            }
        }
        proof {
            assert(!resync_candidate(b, search as int, context, allow));
        }
        search = search + 1;
    }
    proof {
        assert(find_resync(b, search as int, context, allow) is None);
    }
    None
}

/// Skip past the current record's remaining frame bytes: the extra size
/// field for an extended record, otherwise the declared payload.
pub fn skip_to_next_record(
    reader: &mut crate::reader::ByteReader,
    current_header: &RecordHeader,
) -> (r: HwpResult<()>)
    requires
        old(reader).wf(),
    ensures
        final(reader).wf(),
        final(reader).bytes() == old(reader).bytes(),
        ({
            let n: int = if header_has_extended_size(current_header.value) {
                4
            } else {
                header_size(current_header.value) as int
            };
            if n <= old(reader).remaining_spec() {
                r is Ok && final(reader).at() == old(reader).at() + n
            } else {
                r matches Err(e) && e is BufferUnderflow && final(reader).at() == old(reader).at()
            }
        }),
{
    let n: usize = if current_header.has_extended_size() {
        4
    } else {
        current_header.size() as usize
    };
    reader.skip(n)
}

} // verus!
