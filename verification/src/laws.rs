//! Framing laws of the record format, stated over the decoder's own
//! specification.

use vstd::prelude::*;
use crate::bytes_le::le32;
use crate::parser::record::{ParseStep, RecordView, next_record_spec};
use crate::validator::{RecordContext, size_acceptable, tag_acceptable};

verus! {

/// The packed header value of a record frame.
pub open spec fn packed_header(tag: u16, level: u8, size: u32) -> u32 {
    (tag + level * 0x400 + size * 0x1000) as u32
}

/// Round-trip framing: any record built as a packed header followed by
/// exactly `size` payload bytes decodes back to exactly that tag, level,
/// size and payload, whatever follows it.
pub proof fn lemma_record_frame_round_trip(
    data: Seq<u8>,
    tag: u16,
    level: u8,
    size: u32,
    context: RecordContext,
    allow_unknown: bool,
    max_size: u32,
)
    requires
        tag < 0x400,
        level < 4,
        size < 0xFFFFF,
        tag_acceptable(tag, context, allow_unknown),
        size_acceptable(size, tag, max_size),
        data.len() >= 4 + size,
        le32(data, 0) == packed_header(tag, level, size),
    ensures
        next_record_spec(data, 0, context, allow_unknown, max_size) == (ParseStep::Parsed {
            rec: RecordView { tag_id: tag, level, size, data: data.subrange(4, 4 + size) },
            next: 4 + size,
        }),
{
    let hv = packed_header(tag, level, size);
    assert((tag < 0x400 && level < 4 && size < 0xFFFFF) ==> {
        let hv = (tag + level * 0x400 + size * 0x1000) as u32;
        &&& (hv & 0x3FF) as u16 == tag
        &&& ((hv >> 10) & 0x3) as u8 == level
        &&& (hv >> 12) == size
    }) by (bit_vector);
}

/// Extended-size equivalence: a record whose twenty inline size bits are
/// all ones carries its true size as the following 32-bit value, and
/// decodes to the same record value as the inline encoding of the same
/// tag, level, size and payload.
pub proof fn lemma_extended_size_equivalence(
    inline_data: Seq<u8>,
    extended_data: Seq<u8>,
    tag: u16,
    level: u8,
    size: u32,
    context: RecordContext,
    allow_unknown: bool,
    max_size: u32,
)
    requires
        tag < 0x400,
        level < 4,
        size < 0xFFFFF,
        tag_acceptable(tag, context, allow_unknown),
        size_acceptable(size, tag, max_size),
        inline_data.len() >= 4 + size,
        le32(inline_data, 0) == packed_header(tag, level, size),
        extended_data.len() >= 8 + size,
        le32(extended_data, 0) == packed_header(tag, level, 0xFFFFF),
        le32(extended_data, 4) == size,
        extended_data.subrange(8, 8 + size) == inline_data.subrange(4, 4 + size),
    ensures
        ({
            let inline_step = next_record_spec(inline_data, 0, context, allow_unknown, max_size);
            let extended_step = next_record_spec(
                extended_data,
                0,
                context,
                allow_unknown,
                max_size,
            );
            &&& inline_step matches ParseStep::Parsed { rec: r1, next: n1 }
            &&& extended_step matches ParseStep::Parsed { rec: r2, next: n2 }
            &&& inline_step->Parsed_rec == extended_step->Parsed_rec
        }),
{
    lemma_record_frame_round_trip(inline_data, tag, level, size, context, allow_unknown, max_size);
    let hv = packed_header(tag, level, 0xFFFF_Fu32);
    assert((tag < 0x400 && level < 4) ==> {
        let hv = (tag + level * 0x400 + 0xFFFFFu32 * 0x1000) as u32;
        &&& (hv & 0x3FF) as u16 == tag
        &&& ((hv >> 10) & 0x3) as u8 == level
        &&& (hv >> 12) == 0xFFFFFu32
    }) by (bit_vector);
}

} // verus!
