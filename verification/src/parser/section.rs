//! Section streams: paragraph-boundary records start paragraphs, and the
//! body records that follow fill their text, character runs and line
//! segments. Text decoding interprets the format's control code points.

use vstd::prelude::*;
use crate::bytes_le::{le16, le32};
use crate::errors::{HwpError, HwpResult};
use crate::models::paragraph::{CharShapePos, LineSegment, Paragraph, ParagraphHeader};
use crate::models::section::Section;
use crate::parser::record::{
    FailKind,
    RecordParser,
    RecordView,
    fail_surfaces_as,
    parse_records_spec,
    recs_views,
};
use crate::reader::ByteReader;
use crate::validator::RecordContext;
use vstd::string::StringExecFns;

verus! {

/// The decoded characters of paragraph text from offset `i`: UTF-16LE
/// code units, with the format's control codes mapped to breaks, spaces
/// and markers, ending at a null unit or when fewer than two bytes
/// remain.
pub open spec fn para_text_spec(b: Seq<u8>, i: int) -> Seq<char>
    decreases b.len() + 10 - i,
{
    if i < 0 || i + 2 > b.len() {
        Seq::<char>::empty()
    } else {
        let ch = le16(b, i);
        if ch == 0x0000 {
            Seq::<char>::empty()
        } else if ch == 0x0009 {
            seq!['\t'] + para_text_spec(b, i + 2)
        } else if ch == 0x000A {
            seq!['\n'] + para_text_spec(b, i + 2)
        } else if ch == 0x000D {
            para_text_spec(b, i + 2)
        } else if ch == 0x0001 {
            para_text_spec(b, i + 2)
        } else if ch == 0x0002 {
            seq![' '] + para_text_spec(b, i + 2)
        } else if ch == 0x0003 {
            seq!['\n'] + para_text_spec(b, i + 2)
        } else if 0x0004 <= ch && ch <= 0x0007 {
            para_text_spec(b, i + 2)
        } else if ch == 0x0008 || ch == 0x000B {
            // An inline object anchor: its structured payload is skipped.
            if i + 2 + 5 < b.len() {
                para_text_spec(b, i + 10)
            } else {
                para_text_spec(b, i + 2)
            }
        } else if ch == 0x000C {
            seq!['\n'] + para_text_spec(b, i + 2)
        } else if 0x000E <= ch && ch <= 0x0017 {
            para_text_spec(b, i + 2)
        } else if ch == 0x0018 {
            seq!['\n'] + para_text_spec(b, i + 2)
        } else if ch == 0x0019 {
            seq!['\n'] + para_text_spec(b, i + 2)
        } else if 0x001A <= ch && ch <= 0x001D {
            para_text_spec(b, i + 2)
        } else if ch == 0x001E {
            seq!['-'] + para_text_spec(b, i + 2)
        } else if ch == 0x001F {
            seq![(0x00A0u32) as char] + para_text_spec(b, i + 2)
        } else if ch < 0xD800 || ch >= 0xE000 {
            seq![((ch as u32)) as char] + para_text_spec(b, i + 2)
        } else {
            // An unpaired surrogate unit is skipped, not emitted.
            para_text_spec(b, i + 2)
        }
    }
}

/// Decode paragraph text, interpreting the structural control codes.
pub fn parse_para_text(data: &[u8]) -> (r: HwpResult<String>)
    ensures
        r matches Ok(s) && s@ == para_text_spec(data@, 0),
{
    let ghost b = data@;
    let mut text = String::new();
    let mut i: usize = 0;
    let mut done = false;
    proof {
        assert(Seq::<char>::empty() + para_text_spec(b, 0) =~= para_text_spec(b, 0));
    }
    while !done
        invariant
            b == data@,
            0 <= i,
            !done ==> para_text_spec(b, 0) == text@ + para_text_spec(b, i as int),
            done ==> text@ == para_text_spec(b, 0),
            i <= b.len() + 10,
        decreases b.len() + 10 - i + if done {
            0int
        } else {
            1int
        },
    {
        if i >= data.len() || data.len() - i < 2 {
            done = true;
            proof {
                assert(para_text_spec(b, i as int) =~= Seq::<char>::empty());
                assert(text@ + Seq::<char>::empty() =~= text@);
            }
        } else {
            let ch = crate::bytes_le::u16_from_le(data[i], data[i + 1]);
            let ghost p = i as int;
            proof {
                assert(ch == le16(b, p));
            }
            if ch == 0x0000 {
                done = true;
                proof {
                    assert(para_text_spec(b, p) =~= Seq::<char>::empty());
                    assert(text@ + Seq::<char>::empty() =~= text@);
                }
            } else if ch == 0x0009 {
                let ghost t0 = text@;
                push_known(&mut text, 0x09);
                proof {
                    assert(text@ =~= t0 + seq!['\t']);
                    lemma_step(t0, text@, b, p, seq!['\t'], p + 2);
                }
                i = i + 2;
            } else if ch == 0x000A {
                let ghost t0 = text@;
                push_known(&mut text, 0x0A);
                proof {
                    assert(text@ =~= t0 + seq!['\n']);
                    lemma_step(t0, text@, b, p, seq!['\n'], p + 2);
                }
                i = i + 2;
            } else if ch == 0x000D || ch == 0x0001 || (0x0004 <= ch && ch <= 0x0007) || (0x000E
                <= ch && ch <= 0x0017) || (0x001A <= ch && ch <= 0x001D) {
                proof {
                    assert(text@ =~= text@ + Seq::<char>::empty());
                    lemma_step(text@, text@, b, p, Seq::<char>::empty(), p + 2);
                }
                i = i + 2;
            } else if ch == 0x0002 {
                let ghost t0 = text@;
                push_known(&mut text, 0x20);
                proof {
                    assert(text@ =~= t0 + seq![' ']);
                    lemma_step(t0, text@, b, p, seq![' '], p + 2);
                }
                i = i + 2;
            } else if ch == 0x0003 || ch == 0x000C || ch == 0x0018 || ch == 0x0019 {
                let ghost t0 = text@;
                push_known(&mut text, 0x0A);
                proof {
                    assert(text@ =~= t0 + seq!['\n']);
                    lemma_step(t0, text@, b, p, seq!['\n'], p + 2);
                }
                i = i + 2;
            } else if ch == 0x0008 || ch == 0x000B {
                if data.len() - i > 7 {
                    proof {
                        assert(text@ =~= text@ + Seq::<char>::empty());
                        lemma_step(text@, text@, b, p, Seq::<char>::empty(), p + 10);
                    }
                    i = i + 2;
                    let adv: usize = if data.len() - i >= 8 {
                        8
                    } else {
                        data.len() - i
                    };
                    proof {
                        if adv != 8 {
                            assert(para_text_spec(b, p + 10) =~= Seq::<char>::empty());
                            assert(para_text_spec(b, i + adv) =~= Seq::<char>::empty());
                        }
                    }
                    i = i + adv;
                } else {
                    proof {
                        assert(text@ =~= text@ + Seq::<char>::empty());
                        lemma_step(text@, text@, b, p, Seq::<char>::empty(), p + 2);
                    }
                    i = i + 2;
                }
            } else if ch == 0x001E {
                let ghost t0 = text@;
                push_known(&mut text, 0x2D);
                proof {
                    assert(text@ =~= t0 + seq!['-']);
                    lemma_step(t0, text@, b, p, seq!['-'], p + 2);
                }
                i = i + 2;
            } else if ch == 0x001F {
                let ghost t0 = text@;
                push_known(&mut text, 0xA0);
                proof {
                    assert(text@ =~= t0 + seq![(0x00A0u32) as char]);
                    lemma_step(t0, text@, b, p, seq![(0x00A0u32) as char], p + 2);
                }
                i = i + 2;
            } else if ch < 0xD800 || ch >= 0xE000 {
                let ghost t0 = text@;
                push_known(&mut text, ch as u32);
                proof {
                    assert(text@ =~= t0 + seq![((ch as u32)) as char]);
                    lemma_step(t0, text@, b, p, seq![((ch as u32)) as char], p + 2);
                }
                i = i + 2;
            } else {
                proof {
                    assert(text@ =~= text@ + Seq::<char>::empty());
                    lemma_step(text@, text@, b, p, Seq::<char>::empty(), p + 2);
                }
                i = i + 2;
            }
        }
    }
    Ok(text)
}

/// Push the character of a known-valid code point.
fn push_known(text: &mut String, cp: u32)
    requires
        cp < 0xD800 || (0xE000 <= cp && cp <= 0x10FFFF),
    ensures
        final(text)@ == old(text)@.push((cp as u32) as char),
{
    let c = match char::from_u32(cp) {
        Some(c) => c,
        None => {
            proof {
                assert(false);
            }
            ' '
        },
    };
    proof {
        vstd::utf8::char_u32_cast(c, cp);
    }
    text.push(c);
}

/// One accumulation step of the text decoder.
proof fn lemma_step(t0: Seq<char>, t: Seq<char>, b: Seq<u8>, p: int, emitted: Seq<char>, next: int)
    requires
        para_text_spec(b, p) == emitted + para_text_spec(b, next),
        t == t0 + emitted,
        para_text_spec(b, 0) == t0 + para_text_spec(b, p),
    ensures
        para_text_spec(b, 0) == t + para_text_spec(b, next),
{
    assert((t0 + emitted) + para_text_spec(b, next) =~= t0 + (emitted + para_text_spec(b, next)));
}

/// Whether a paragraph-header payload is long enough.
pub open spec fn para_header_ok(b: Seq<u8>) -> bool {
    b.len() >= 22
}

/// The field values a paragraph-header payload carries; the tracked-
/// merge field is present only when two more bytes follow.
pub open spec fn para_header_matches(h: ParagraphHeader, b: Seq<u8>) -> bool {
    &&& h.text_count == le32(b, 0)
    &&& h.control_mask == le32(b, 4)
    &&& h.para_shape_id == le16(b, 8)
    &&& h.style_id == b[10]
    &&& h.division_type == b[11]
    &&& h.char_shape_count == le16(b, 12)
    &&& h.range_tag_count == le16(b, 14)
    &&& h.line_align_count == le16(b, 16)
    &&& h.instance_id == le32(b, 18)
    &&& h.is_merged_by_track == (if b.len() >= 24 {
        le16(b, 22) as u16
    } else {
        0u16
    })
}

/// Parse a paragraph header.
pub fn parse_para_header(data: &[u8]) -> (r: HwpResult<ParagraphHeader>)
    ensures
        para_header_ok(data@) ==> (r matches Ok(h) && para_header_matches(h, data@)),
        !para_header_ok(data@) ==> r is Err,
{
    let mut reader = ByteReader::new(data);
    let text_count = reader.read_u32()?;
    let control_mask = reader.read_u32()?;
    let para_shape_id = reader.read_u16()?;
    let style_id = reader.read_u8()?;
    let division_type = reader.read_u8()?;
    let char_shape_count = reader.read_u16()?;
    let range_tag_count = reader.read_u16()?;
    let line_align_count = reader.read_u16()?;
    let instance_id = reader.read_u32()?;
    let is_merged_by_track = if reader.remaining() >= 2 {
        reader.read_u16()?
    } else {
        0
    };
    Ok(
        ParagraphHeader {
            text_count,
            control_mask,
            para_shape_id,
            style_id,
            division_type,
            char_shape_count,
            range_tag_count,
            line_align_count,
            instance_id,
            is_merged_by_track,
        },
    )
}

/// The character-shape run stored at index `i`.
pub open spec fn char_shape_pos_at(b: Seq<u8>, i: int) -> CharShapePos {
    CharShapePos { position: le32(b, 6 * i) as u32, shape_id: le16(b, 6 * i + 4) as u16 }
}

/// Whether `count` character-shape runs fit in the payload.
pub open spec fn char_shapes_ok(b: Seq<u8>, count: int) -> bool {
    6 * count <= b.len()
}

/// Parse `count` character-shape runs.
pub fn parse_para_char_shapes(data: &[u8], count: u16) -> (r: HwpResult<Vec<CharShapePos>>)
    ensures
        char_shapes_ok(data@, count as int) ==> (r matches Ok(v) && v@ == Seq::new(
            count as nat,
            |i: int| char_shape_pos_at(data@, i),
        )),
        !char_shapes_ok(data@, count as int) ==> r is Err,
{
    let ghost b = data@;
    let mut reader = ByteReader::new(data);
    let mut shapes: Vec<CharShapePos> = Vec::new();
    let mut i: usize = 0;
    while i < count as usize
        invariant
            reader.wf(),
            reader.bytes() == b,
            b == data@,
            0 <= i <= count,
            reader.at() == 6 * i,
            shapes@.len() == i,
            forall|k: int| 0 <= k < i ==> shapes@[k] == char_shape_pos_at(b, k),
        decreases count - i,
    {
        let position = match reader.read_u32() {
            Ok(v) => v,
            Err(e) => {
                return Err(e);
            },
        };
        let shape_id = match reader.read_u16() {
            Ok(v) => v,
            Err(e) => {
                return Err(e);
            },
        };
        shapes.push(CharShapePos { position, shape_id });
        i = i + 1;
    }
    proof {
        assert(shapes@ =~= Seq::new(count as nat, |i: int| char_shape_pos_at(b, i)));
    }
    Ok(shapes)
}

/// The line segment stored at index `i`.
pub open spec fn line_segment_at(b: Seq<u8>, i: int) -> LineSegment {
    LineSegment {
        text_start_pos: le32(b, 32 * i) as u32,
        line_height: le32(b, 32 * i + 4) as u32 as i32,
        text_height: le32(b, 32 * i + 8) as u32 as i32,
        baseline_gap: le32(b, 32 * i + 12) as u32 as i32,
        line_spacing: le32(b, 32 * i + 16) as u32 as i32,
        column_start_pos: le32(b, 32 * i + 20) as u32,
        segment_width: le32(b, 32 * i + 24) as u32 as i32,
        flags: le32(b, 32 * i + 28) as u32,
    }
}

/// Parse every whole 32-byte line segment; trailing bytes are ignored.
pub fn parse_line_segments(data: &[u8]) -> (r: HwpResult<Vec<LineSegment>>)
    ensures
        r matches Ok(v) && v@ == Seq::new(
            (data@.len() / 32) as nat,
            |i: int| line_segment_at(data@, i),
        ),
{
    let ghost b = data@;
    let total = data.len() / 32;
    let mut reader = ByteReader::new(data);
    let mut segments: Vec<LineSegment> = Vec::new();
    let mut i: usize = 0;
    while i < total
        invariant
            reader.wf(),
            reader.bytes() == b,
            b == data@,
            total == b.len() / 32,
            0 <= i <= total,
            reader.at() == 32 * i,
            segments@.len() == i,
            forall|k: int| 0 <= k < i ==> segments@[k] == line_segment_at(b, k),
        decreases total - i,
    {
        proof {
            assert(32 * (i + 1) <= b.len());
        }
        let text_start_pos = read_u32_ok(&mut reader);
        let line_height = read_u32_ok(&mut reader) as i32;
        let text_height = read_u32_ok(&mut reader) as i32;
        let baseline_gap = read_u32_ok(&mut reader) as i32;
        let line_spacing = read_u32_ok(&mut reader) as i32;
        let column_start_pos = read_u32_ok(&mut reader);
        let segment_width = read_u32_ok(&mut reader) as i32;
        let flags = read_u32_ok(&mut reader);
        segments.push(
            LineSegment {
                text_start_pos,
                line_height,
                text_height,
                baseline_gap,
                line_spacing,
                column_start_pos,
                segment_width,
                flags,
            },
        );
        i = i + 1;
    }
    proof {
        assert(segments@ =~= Seq::new((b.len() / 32) as nat, |i: int| line_segment_at(b, i)));
    }
    Ok(segments)
}

/// Read a 32-bit value from a reader known to have enough bytes left.
fn read_u32_ok(reader: &mut ByteReader) -> (r: u32)
    requires
        old(reader).wf(),
        old(reader).remaining_spec() >= 4,
    ensures
        final(reader).wf(),
        final(reader).bytes() == old(reader).bytes(),
        final(reader).at() == old(reader).at() + 4,
        r == le32(old(reader).bytes(), old(reader).at()),
{
    match reader.read_u32() {
        Ok(v) => v,
        Err(_) => {
            proof {
                assert(false);
            }
            0
        },
    }
}

/// The body tags that belong to the open paragraph.
pub open spec fn is_para_body_tag(tag: u16) -> bool {
    tag == 0x0051 || tag == 0x0052 || tag == 0x0053 || tag == 0x0054
}

/// The number of consecutive body records from index `i`.
pub open spec fn body_len(rs: Seq<RecordView>, i: int) -> int
    decreases rs.len() - i,
{
    if i < 0 || i >= rs.len() {
        0
    } else if is_para_body_tag(rs[i].tag_id) {
        1 + body_len(rs, i + 1)
    } else {
        0
    }
}

/// The payload of the last record carrying `tag` in `[lo, hi)`, if any.
pub open spec fn last_with(rs: Seq<RecordView>, lo: int, hi: int, tag: u16) -> Option<Seq<u8>>
    decreases hi - lo,
{
    if hi <= lo || hi > rs.len() || lo < 0 {
        None
    } else if rs[hi - 1].tag_id == tag {
        Some(rs[hi - 1].data)
    } else {
        last_with(rs, lo, hi - 1, tag)
    }
}

/// The source material of one paragraph: its header payload and the
/// last text, character-run and line-segment payloads of its body.
pub ghost struct ParaSrc {
    pub header: Seq<u8>,
    pub text: Option<Seq<u8>>,
    pub shapes: Option<Seq<u8>>,
    pub segs: Option<Seq<u8>>,
}

/// The paragraphs a record sequence describes, from index `i`: each
/// paragraph-boundary record with the body records that follow it.
pub open spec fn collect_paras(rs: Seq<RecordView>, i: int) -> Seq<ParaSrc>
    decreases rs.len() - i,
{
    if i < 0 || i >= rs.len() {
        Seq::<ParaSrc>::empty()
    } else if rs[i].tag_id == 0x0050 {
        let n = body_len(rs, i + 1);
        let j = if 0 <= n && i + 1 + n <= rs.len() {
            i + 1 + n
        } else {
            i + 1
        };
        seq![
            ParaSrc {
                header: rs[i].data,
                text: last_with(rs, i + 1, j, 0x0051),
                shapes: last_with(rs, i + 1, j, 0x0052),
                segs: last_with(rs, i + 1, j, 0x0053),
            },
        ] + collect_paras(rs, j)
    } else {
        collect_paras(rs, i + 1)
    }
}

/// Whether a paragraph's source material parses.
pub open spec fn para_src_ok(src: ParaSrc) -> bool {
    &&& para_header_ok(src.header)
    &&& (src.shapes matches Some(d) ==> char_shapes_ok(d, le16(src.header, 12) as int))
}

/// Whether every paragraph's source material parses.
pub open spec fn paras_ok(srcs: Seq<ParaSrc>) -> bool {
    forall|k: int| 0 <= k < srcs.len() ==> para_src_ok(#[trigger] srcs[k])
}

/// Whether a paragraph holds exactly what its source material dictates.
pub open spec fn paragraph_matches_src(p: Paragraph, src: ParaSrc) -> bool {
    &&& para_header_matches(p.header, src.header)
    &&& p.text@ == (match src.text {
        Some(d) => para_text_spec(d, 0),
        None => Seq::<char>::empty(),
    })
    &&& p.char_shapes@ == (match src.shapes {
        Some(d) => Seq::new(le16(src.header, 12) as nat, |i: int| char_shape_pos_at(d, i)),
        None => Seq::<CharShapePos>::empty(),
    })
    &&& p.line_segments@ == (match src.segs {
        Some(d) => Seq::new((d.len() / 32) as nat, |i: int| line_segment_at(d, i)),
        None => Seq::<LineSegment>::empty(),
    })
    &&& p.range_tags@.len() == 0
    &&& p.controls@.len() == 0
}

/// All body records in `[a, j)` with a non-body record (or the end) at
/// `j` make the body length exactly `j - a`.
proof fn lemma_body_len_range(rs: Seq<RecordView>, a: int, j: int)
    requires
        0 <= a <= j <= rs.len(),
        forall|k: int| a <= k < j ==> is_para_body_tag(#[trigger] rs[k].tag_id),
        j == rs.len() || !is_para_body_tag(rs[j].tag_id),
    ensures
        body_len(rs, a) == j - a,
    decreases j - a,
{
    if a == j {
    } else {
        lemma_body_len_range(rs, a + 1, j);
    }
}

/// Whether the record stream in `b` decodes and every paragraph's source
/// material parses.
pub open spec fn paras_spec_ok(b: Seq<u8>) -> bool {
    match parse_records_spec(b, 0, RecordContext::BodyText, false, 0x6400000u32, false) {
        Ok(rvs) => paras_ok(collect_paras(rvs, 0)),
        Err(_) => false,
    }
}

/// Whether a section value holds exactly what the record stream in `b`
/// describes: paragraphs per boundary record, everything else empty.
pub open spec fn section_from_bytes(s: Section, b: Seq<u8>) -> bool {
    match parse_records_spec(b, 0, RecordContext::BodyText, false, 0x6400000u32, false) {
        Ok(rvs) => {
            let srcs = collect_paras(rvs, 0);
            &&& paras_ok(srcs)
            &&& s.definition == crate::models::section::section_definition_default()
            &&& s.page_defs@.len() == 0
            &&& s.footnote_shape is None
            &&& s.page_border_fill is None
            &&& s.paragraphs@.len() == srcs.len()
            &&& (forall|k: int|
                0 <= k < srcs.len() ==> paragraph_matches_src(#[trigger] s.paragraphs@[k], srcs[k]))
        },
        Err(_) => false,
    }
}

/// Parse one section stream: records in strict mode, paragraphs at each
/// boundary record, and the body records that follow filling them.
pub fn parse_section(data: &[u8], _section_index: usize) -> (r: HwpResult<Section>)
    ensures
        match parse_records_spec(
            data@,
            0,
            RecordContext::BodyText,
            false,
            0x6400000u32,
            false,
        ) {
            Ok(rvs) => if paras_ok(collect_paras(rvs, 0)) {
                r matches Ok(s) && section_from_bytes(s, data@)
            } else {
                r matches Err(e) && e is ParseError
            },
            Err(kind) => r matches Err(e) && (fail_surfaces_as(kind, e) || e is ParseError),
        },
{
    let ghost b = data@;
    let ghost ctx = RecordContext::BodyText;
    let mut parser = RecordParser::new_with_context(data, RecordContext::BodyText);
    let records = match parser.parse_all_records() {
        Ok(rs) => rs,
        Err(e) => {
            return Err(e);
        },
    };
    let ghost rvs = recs_views(records@);
    let mut section = Section::new();
    let mut i: usize = 0;
    proof {
        assert(Seq::<ParaSrc>::empty() + collect_paras(rvs, 0) =~= collect_paras(rvs, 0));
    }
    while i < records.len()
        invariant
            b == data@,
            parse_records_spec(b, 0, RecordContext::BodyText, false, 0x6400000u32, false) == Ok::<
                Seq<RecordView>,
                FailKind,
            >(rvs),
            rvs == recs_views(records@),
            rvs.len() == records@.len(),
            forall|k: int|
                0 <= k < rvs.len() ==> crate::parser::record::record_matches(
                    #[trigger] records@[k],
                    rvs[k],
                ),
            0 <= i <= records@.len(),
            section.definition == crate::models::section::section_definition_default(),
            section.page_defs@.len() == 0,
            section.footnote_shape is None,
            section.page_border_fill is None,
            ({
                let srcs = collect_paras(rvs, 0);
                exists|done_srcs: Seq<ParaSrc>|
                    #[trigger] (done_srcs + collect_paras(rvs, i as int)) == srcs && done_srcs.len()
                        == section.paragraphs@.len() && paras_ok(done_srcs) && (forall|k: int|
                        0 <= k < done_srcs.len() ==> paragraph_matches_src(
                            #[trigger] section.paragraphs@[k],
                            done_srcs[k],
                        ))
            }),
        decreases records@.len() - i,
    {
        let tag = records[i].tag_id;
        if tag == 0x0050 {
            let ghost srcs0 = choose|done_srcs: Seq<ParaSrc>|
                #[trigger] (done_srcs + collect_paras(rvs, i as int)) == collect_paras(rvs, 0)
                    && done_srcs.len() == section.paragraphs@.len() && paras_ok(done_srcs) && (
                forall|k: int|
                    0 <= k < done_srcs.len() ==> paragraph_matches_src(
                        #[trigger] section.paragraphs@[k],
                        done_srcs[k],
                    ));
            let header = match parse_para_header(records[i].data.as_slice()) {
                Ok(h) => h,
                Err(e) => {
                    proof {
                        assert(!para_header_ok(rvs[i as int].data));
                        lemma_bad_para(rvs, i as int, srcs0, collect_paras(rvs, 0));
                    }
                    return Err(parse_error());
                },
            };
            // Scan the body records that follow the boundary.
            let mut j: usize = i + 1;
            let mut text_at: Option<usize> = None;
            let mut shapes_at: Option<usize> = None;
            let mut segs_at: Option<usize> = None;
            while j < records.len() && is_body_tag(records[j].tag_id)
                invariant
                    rvs == recs_views(records@),
                    rvs.len() == records@.len(),
                    forall|k: int|
                        0 <= k < rvs.len() ==> crate::parser::record::record_matches(
                            #[trigger] records@[k],
                            rvs[k],
                        ),
                    0 <= i < records@.len(),
                    i + 1 <= j <= records@.len(),
                    forall|k: int| i + 1 <= k < j ==> is_para_body_tag(#[trigger] rvs[k].tag_id),
                    last_with(rvs, i + 1, j as int, 0x0051) == (match text_at {
                        Some(k) => Some(rvs[k as int].data),
                        None => None::<Seq<u8>>,
                    }),
                    last_with(rvs, i + 1, j as int, 0x0052) == (match shapes_at {
                        Some(k) => Some(rvs[k as int].data),
                        None => None::<Seq<u8>>,
                    }),
                    last_with(rvs, i + 1, j as int, 0x0053) == (match segs_at {
                        Some(k) => Some(rvs[k as int].data),
                        None => None::<Seq<u8>>,
                    }),
                    text_at matches Some(k) ==> i < k < j,
                    shapes_at matches Some(k) ==> i < k < j,
                    segs_at matches Some(k) ==> i < k < j,
                decreases records@.len() - j,
            {
                let t = records[j].tag_id;
                if t == 0x0051 {
                    text_at = Some(j);
                } else if t == 0x0052 {
                    shapes_at = Some(j);
                } else if t == 0x0053 {
                    segs_at = Some(j);
                }
                j = j + 1;
            }
            proof {
                lemma_body_len_range(rvs, i + 1, j as int);
            }
            let ghost src = ParaSrc {
                header: rvs[i as int].data,
                text: last_with(rvs, i + 1, j as int, 0x0051),
                shapes: last_with(rvs, i + 1, j as int, 0x0052),
                segs: last_with(rvs, i + 1, j as int, 0x0053),
            };
            let mut paragraph = Paragraph::new();
            paragraph.header = header;
            match text_at {
                Some(k) => {
                    let t = match parse_para_text(records[k].data.as_slice()) {
                        Ok(t) => t,
                        Err(_) => {
                            proof {
                                assert(false);
                            }
                            String::new()
                        },
                    };
                    paragraph.text = t;
                },
                None => {},
            }
            match shapes_at {
                Some(k) => {
                    match parse_para_char_shapes(
                        records[k].data.as_slice(),
                        header.char_shape_count,
                    ) {
                        Ok(v) => {
                            paragraph.char_shapes = v;
                        },
                        Err(e) => {
                            proof {
                                assert(!para_src_ok(src));
                                lemma_bad_para(rvs, i as int, srcs0, collect_paras(rvs, 0));
                            }
                            return Err(parse_error());
                        },
                    }
                },
                None => {},
            }
            match segs_at {
                Some(k) => {
                    let v = match parse_line_segments(records[k].data.as_slice()) {
                        Ok(v) => v,
                        Err(_) => {
                            proof {
                                assert(false);
                            }
                            Vec::new()
                        },
                    };
                    paragraph.line_segments = v;
                },
                None => {},
            }
            proof {
                assert(para_src_ok(src));
                assert(paragraph_matches_src(paragraph, src));
                assert(collect_paras(rvs, i as int) == seq![src] + collect_paras(rvs, j as int));
            }
            let ghost srcs1 = srcs0.push(src);
            section.paragraphs.push(paragraph);
            proof {
                assert(srcs1 + collect_paras(rvs, j as int) =~= srcs0 + (seq![src] + collect_paras(
                    rvs,
                    j as int,
                )));
                assert((srcs1 + collect_paras(rvs, j as int)) == collect_paras(rvs, 0));
            }
            i = j;
        } else {
            proof {
                assert(collect_paras(rvs, i as int) == collect_paras(rvs, i + 1));
            }
            i = i + 1;
        }
    }
    proof {
        assert(collect_paras(rvs, i as int) =~= Seq::<ParaSrc>::empty());
        let done_srcs = choose|done_srcs: Seq<ParaSrc>|
            #[trigger] (done_srcs + collect_paras(rvs, i as int)) == collect_paras(rvs, 0)
                && done_srcs.len() == section.paragraphs@.len() && paras_ok(done_srcs) && (forall|
                k: int,
            |
                0 <= k < done_srcs.len() ==> paragraph_matches_src(
                    #[trigger] section.paragraphs@[k],
                    done_srcs[k],
                ));
        assert(done_srcs + Seq::<ParaSrc>::empty() =~= done_srcs);
    }
    Ok(section)
}

/// Whether a tag opens one of the paragraph body records.
fn is_body_tag(tag: u16) -> (r: bool)
    ensures
        r == is_para_body_tag(tag),
{
    tag == 0x0051 || tag == 0x0052 || tag == 0x0053 || tag == 0x0054
}

/// A paragraph whose source fails to parse spoils the whole collection.
proof fn lemma_bad_para(rs: Seq<RecordView>, i: int, done: Seq<ParaSrc>, srcs: Seq<ParaSrc>)
    requires
        done + collect_paras(rs, i) == srcs,
        0 <= i < rs.len(),
        rs[i].tag_id == 0x0050,
        !para_src_ok(
            ParaSrc {
                header: rs[i].data,
                text: last_with(
                    rs,
                    i + 1,
                    if 0 <= body_len(rs, i + 1) && i + 1 + body_len(rs, i + 1) <= rs.len() {
                        i + 1 + body_len(rs, i + 1)
                    } else {
                        i + 1
                    },
                    0x0051,
                ),
                shapes: last_with(
                    rs,
                    i + 1,
                    if 0 <= body_len(rs, i + 1) && i + 1 + body_len(rs, i + 1) <= rs.len() {
                        i + 1 + body_len(rs, i + 1)
                    } else {
                        i + 1
                    },
                    0x0052,
                ),
                segs: last_with(
                    rs,
                    i + 1,
                    if 0 <= body_len(rs, i + 1) && i + 1 + body_len(rs, i + 1) <= rs.len() {
                        i + 1 + body_len(rs, i + 1)
                    } else {
                        i + 1
                    },
                    0x0053,
                ),
            },
        ),
    ensures
        !paras_ok(srcs),
{
    assert(srcs[done.len() as int] == collect_paras(rs, i)[0]);
}

/// The error a failed paragraph parse surfaces as.
fn parse_error() -> (r: HwpError)
    ensures
        r is ParseError,
{
    HwpError::ParseError {
        offset: 0,
        message: String::from_str("paragraph field parsing failed"),
    }
}

/// Parse a body-text stream as a single section.
pub fn parse_body_text(data: &[u8]) -> (r: HwpResult<Vec<Section>>)
    ensures
        match parse_records_spec(
            data@,
            0,
            RecordContext::BodyText,
            false,
            0x6400000u32,
            false,
        ) {
            Ok(rvs) => {
                let srcs = collect_paras(rvs, 0);
                if paras_ok(srcs) {
                    r matches Ok(v) && v@.len() == 1 && v@[0].paragraphs@.len() == srcs.len() && (
                    forall|k: int|
                        0 <= k < srcs.len() ==> paragraph_matches_src(
                            #[trigger] v@[0].paragraphs@[k],
                            srcs[k],
                        ))
                } else {
                    r is Err
                }
            },
            Err(kind) => r matches Err(e) && (fail_surfaces_as(kind, e) || e is ParseError),
        },
{
    let section = match parse_section(data, 0) {
        Ok(s) => s,
        Err(e) => {
            return Err(e);
        },
    };
    let mut sections: Vec<Section> = Vec::new();
    sections.push(section);
    Ok(sections)
}

} // verus!
