//! Plain-text extraction: the non-empty paragraph texts of a document,
//! one line per paragraph, trimmed at both ends.

use vstd::prelude::*;
use vstd::string::{StringExecFns, StrSliceExecFns};
use crate::errors::{HwpError, HwpResult};
use crate::models::document::HwpDocument;
use crate::models::paragraph::Paragraph;
use crate::models::section::Section;
use crate::parser::section::{
    ParaSrc,
    collect_paras,
    para_text_spec,
    paragraph_matches_src,
    paras_ok,
    parse_body_text,
};
use crate::parser::record::{fail_surfaces_as, parse_records_spec};
use crate::validator::RecordContext;

verus! {

/// The characters stripped from both ends of extracted text.
pub open spec fn is_trim_ws(c: char) -> bool {
    c == ' ' || c == '\t' || c == '\n' || c == '\r'
}

/// The sequence with leading trim characters removed.
pub open spec fn trim_front(s: Seq<char>) -> Seq<char>
    decreases s.len(),
{
    if s.len() > 0 && is_trim_ws(s[0]) {
        trim_front(s.skip(1))
    } else {
        s
    }
}

/// The sequence with trailing trim characters removed.
pub open spec fn trim_back(s: Seq<char>) -> Seq<char>
    decreases s.len(),
{
    if s.len() > 0 && is_trim_ws(s.last()) {
        trim_back(s.drop_last())
    } else {
        s
    }
}

/// The sequence trimmed at both ends.
pub open spec fn trim_spec(s: Seq<char>) -> Seq<char> {
    trim_back(trim_front(s))
}

/// The non-empty paragraph texts, each with a trailing newline.
pub open spec fn nonempty_para_text(paras: Seq<Paragraph>) -> Seq<char>
    decreases paras.len(),
{
    if paras.len() == 0 {
        Seq::<char>::empty()
    } else {
        nonempty_para_text(paras.drop_last()) + if paras.last().text@.len() > 0 {
            paras.last().text@ + seq!['\n']
        } else {
            Seq::<char>::empty()
        }
    }
}

/// The concatenated non-empty paragraph text of every section.
pub open spec fn document_nonempty_text(sections: Seq<Section>) -> Seq<char>
    decreases sections.len(),
{
    if sections.len() == 0 {
        Seq::<char>::empty()
    } else {
        document_nonempty_text(sections.drop_last()) + nonempty_para_text(
            sections.last().paragraphs@,
        )
    }
}

/// The joined non-empty texts of a paragraph source sequence.
pub open spec fn srcs_text(srcs: Seq<ParaSrc>) -> Seq<char>
    decreases srcs.len(),
{
    if srcs.len() == 0 {
        Seq::<char>::empty()
    } else {
        srcs_text(srcs.drop_last()) + ({
            let t = match srcs.last().text {
                Some(d) => para_text_spec(d, 0),
                None => Seq::<char>::empty(),
            };
            if t.len() > 0 {
                t + seq!['\n']
            } else {
                Seq::<char>::empty()
            }
        })
    }
}

/// Paragraphs that match their sources join to the sources' text.
pub proof fn lemma_join_matches(paras: Seq<Paragraph>, srcs: Seq<ParaSrc>)
    requires
        paras.len() == srcs.len(),
        forall|k: int| 0 <= k < srcs.len() ==> paragraph_matches_src(#[trigger] paras[k], srcs[k]),
    ensures
        nonempty_para_text(paras) == srcs_text(srcs),
    decreases paras.len(),
{
    if paras.len() == 0 {
    } else {
        assert(paragraph_matches_src(paras[paras.len() - 1], srcs[srcs.len() - 1]));
        lemma_join_matches(paras.drop_last(), srcs.drop_last());
    }
}

/// A leading run of trim characters ending at a non-trim character (or
/// the end) is exactly what the front trim removes.
proof fn lemma_trim_front_at(s: Seq<char>, idx: int)
    requires
        0 <= idx <= s.len(),
        forall|j: int| 0 <= j < idx ==> is_trim_ws(s[j]),
        idx < s.len() ==> !is_trim_ws(s[idx]),
    ensures
        trim_front(s) == s.subrange(idx, s.len() as int),
    decreases idx,
{
    if idx == 0 {
        assert(trim_front(s) =~= s.subrange(0, s.len() as int));
    } else {
        lemma_trim_front_at(s.skip(1), idx - 1);
        assert(s.skip(1).subrange(idx - 1, s.skip(1).len() as int) =~= s.subrange(
            idx,
            s.len() as int,
        ));
    }
}

/// A trailing run of trim characters starting after a non-trim character
/// (or the start) is exactly what the back trim removes.
proof fn lemma_trim_back_at(s: Seq<char>, end: int)
    requires
        0 <= end <= s.len(),
        forall|j: int| end <= j < s.len() ==> is_trim_ws(s[j]),
        end > 0 ==> !is_trim_ws(s[end - 1]),
    ensures
        trim_back(s) == s.subrange(0, end),
    decreases s.len() - end,
{
    if end == s.len() {
        assert(trim_back(s) =~= s.subrange(0, end));
    } else {
        lemma_trim_back_at(s.drop_last(), end);
        assert(s.drop_last().subrange(0, end) =~= s.subrange(0, end));
    }
}

/// Whether a character is stripped by trimming.
fn is_ws(c: char) -> (r: bool)
    ensures
        r == is_trim_ws(c),
{
    c == ' ' || c == '\t' || c == '\n' || c == '\r'
}

/// Trim the extraction whitespace from both ends of a string.
pub fn trim_text(s: &String) -> (r: String)
    ensures
        r@ == trim_spec(s@),
{
    let n = s.as_str().unicode_len();
    let mut start: usize = 0;
    while start < n && is_ws(s.as_str().get_char(start))
        invariant
            n == s@.len(),
            0 <= start <= n,
            forall|j: int| 0 <= j < start ==> is_trim_ws(s@[j]),
        decreases n - start,
    {
        start = start + 1;
    }
    proof {
        lemma_trim_front_at(s@, start as int);
    }
    let mut end: usize = n;
    while end > start && is_ws(s.as_str().get_char(end - 1))
        invariant
            n == s@.len(),
            0 <= start <= end <= n,
            forall|j: int| end <= j < n ==> is_trim_ws(s@[j]),
        decreases end,
    {
        end = end - 1;
    }
    let out = s.as_str().substring_char(start, end);
    proof {
        let front = s@.subrange(start as int, n as int);
        lemma_trim_back_at(front, end - start);
        assert(front.subrange(0, end - start) =~= s@.subrange(start as int, end as int));
        assert(forall|j: int|
            end - start <= j < front.len() ==> is_trim_ws(#[trigger] front[j]));
    }
    String::from_str(out)
}

/// Extracts plain text from decoded documents.
pub struct TextExtractor;

impl TextExtractor {
    /// The non-empty paragraph texts of a parsed document, one line per
    /// paragraph, trimmed.
    pub fn extract_from_document(doc: &HwpDocument) -> (r: HwpResult<String>)
        ensures
            r matches Ok(s) && s@ == trim_spec(document_nonempty_text(doc.sections@)),
    {
        let mut text = String::new();
        let mut i: usize = 0;
        while i < doc.sections.len()
            invariant
                0 <= i <= doc.sections@.len(),
                text@ == document_nonempty_text(doc.sections@.take(i as int)),
            decreases doc.sections@.len() - i,
        {
            append_section_text(&mut text, &doc.sections[i]);
            proof {
                assert(doc.sections@.take(i + 1).drop_last() =~= doc.sections@.take(i as int));
                assert(text@ =~= document_nonempty_text(doc.sections@.take(i + 1)));
            }
            i = i + 1;
        }
        proof {
            assert(doc.sections@.take(i as int) =~= doc.sections@);
        }
        Ok(trim_text(&text))
    }

    /// The non-empty paragraph texts of one section's raw record stream.
    pub fn extract_from_section(section_data: &[u8]) -> (r: HwpResult<String>)
        ensures
            match parse_records_spec(
                section_data@,
                0,
                RecordContext::BodyText,
                false,
                0x6400000u32,
                false,
            ) {
                Ok(rvs) => if paras_ok(collect_paras(rvs, 0)) {
                    r matches Ok(s) && s@ == trim_spec(srcs_text(collect_paras(rvs, 0)))
                } else {
                    r is Err
                },
                Err(kind) => r matches Err(e) && (fail_surfaces_as(kind, e) || e is ParseError),
            },
    {
        let sections = match parse_body_text(section_data) {
            Ok(v) => v,
            Err(e) => {
                return Err(e);
            },
        };
        let mut text = String::new();
        append_section_text(&mut text, &sections[0]);
        proof {
            lemma_join_matches(
                sections@[0].paragraphs@,
                collect_paras(
                    parse_records_spec(
                        section_data@,
                        0,
                        RecordContext::BodyText,
                        false,
                        0x6400000u32,
                        false,
                    )->Ok_0,
                    0,
                ),
            );
            assert(Seq::<char>::empty() + nonempty_para_text(sections@[0].paragraphs@)
                =~= nonempty_para_text(sections@[0].paragraphs@));
        }
        Ok(trim_text(&text))
    }

    /// The non-empty paragraph texts of a whole container file.
    pub fn extract_from_bytes(hwp_data: &[u8]) -> (r: HwpResult<String>)
        ensures
            !crate::parser::is_cfb(hwp_data@) ==> r is Err,
    {
        let mut container = match crate::cfb::parse_cfb_bytes(hwp_data) {
            Ok(c) => c,
            Err(e) => {
                return Err(e);
            },
        };
        let mut reader = crate::reader::ByteReader::new(hwp_data);
        let mut full_text = String::new();
        let mut section_idx: u64 = 0;
        let cap = container.directory.entries.len() as u64;
        let mut found_any = false;
        while section_idx <= cap
            invariant
                container.wf(),
                reader.wf(),
                reader.bytes() == container.file_bytes(),
                0 <= section_idx <= cap + 1,
            decreases cap + 1 - section_idx,
        {
            let section_name = crate::parser::format_section_name(section_idx);
            if !container.has_stream(section_name.as_str()) {
                break ;
            }
            found_any = true;
            let stream = match container.read_stream(&mut reader, section_name.as_str()) {
                Ok(s) => s,
                Err(e) => {
                    return Err(e);
                },
            };
            let section_data: Vec<u8> = if stream.is_compressed() {
                match stream.decompress() {
                    Ok(v) => v,
                    Err(e) => {
                        return Err(e);
                    },
                }
            } else {
                crate::cfb::stream::clone_vec_u8(&stream.data)
            };
            let sections = match parse_body_text(section_data.as_slice()) {
                Ok(v) => v,
                Err(e) => {
                    return Err(e);
                },
            };
            let mut k: usize = 0;
            while k < sections.len()
                invariant
                    0 <= k <= sections@.len(),
                decreases sections@.len() - k,
            {
                append_section_text(&mut full_text, &sections[k]);
                k = k + 1;
            }
            if section_idx == cap {
                break ;
            }
            section_idx = section_idx + 1;
        }
        if !found_any {
            return Err(
                HwpError::ParseError {
                    offset: 0,
                    message: String::from_str("no section streams found"),
                },
            );
        }
        Ok(trim_text(&full_text))
    }

    /// The non-empty paragraphs with their texts, in order.
    pub fn extract_with_formatting(doc: &HwpDocument) -> (r: HwpResult<FormattedText>)
        ensures
            r matches Ok(f) && formatted_texts(f.paragraphs@) == nonempty_texts(doc.sections@)
                && (forall|k: int|
                0 <= k < f.paragraphs@.len() ==> (#[trigger] f.paragraphs@[k]).level == 0 && !(
                f.paragraphs@[k]).is_list_item),
    {
        let mut out: Vec<FormattedParagraph> = Vec::new();
        let mut i: usize = 0;
        proof {
            assert(formatted_texts(out@) =~= Seq::<Seq<char>>::empty());
        }
        while i < doc.sections.len()
            invariant
                0 <= i <= doc.sections@.len(),
                formatted_texts(out@) == nonempty_texts(doc.sections@.take(i as int)),
                forall|k: int|
                    0 <= k < out@.len() ==> (#[trigger] out@[k]).level == 0 && !(
                    out@[k]).is_list_item,
            decreases doc.sections@.len() - i,
        {
            let section = &doc.sections[i];
            let mut j: usize = 0;
            let ghost base = nonempty_texts(doc.sections@.take(i as int));
            while j < section.paragraphs.len()
                invariant
                    0 <= j <= section.paragraphs@.len(),
                    section == &doc.sections@[i as int],
                    0 <= i < doc.sections@.len(),
                    base == nonempty_texts(doc.sections@.take(i as int)),
                    formatted_texts(out@) == base + para_texts(section.paragraphs@.take(j as int)),
                    forall|k: int|
                        0 <= k < out@.len() ==> (#[trigger] out@[k]).level == 0 && !(
                        out@[k]).is_list_item,
                decreases section.paragraphs@.len() - j,
            {
                let ghost o0 = out@;
                if !section.paragraphs[j].text.as_str().is_empty() {
                    let fp = FormattedParagraph {
                        text: crate::cfb::stream::clone_string(&section.paragraphs[j].text),
                        level: 0,
                        is_list_item: false,
                    };
                    out.push(fp);
                    proof {
                        assert(formatted_texts(out@) =~= formatted_texts(o0).push(
                            section.paragraphs@[j as int].text@,
                        ));
                    }
                }
                proof {
                    assert(section.paragraphs@.take(j + 1).drop_last() =~= section.paragraphs@.take(
                        j as int,
                    ));
                    assert(formatted_texts(out@) =~= base + para_texts(
                        section.paragraphs@.take(j + 1),
                    ));
                }
                j = j + 1;
            }
            proof {
                assert(section.paragraphs@.take(j as int) =~= section.paragraphs@);
                assert(doc.sections@.take(i + 1).drop_last() =~= doc.sections@.take(i as int));
                assert(formatted_texts(out@) =~= nonempty_texts(doc.sections@.take(i + 1)));
            }
            i = i + 1;
        }
        proof {
            assert(doc.sections@.take(i as int) =~= doc.sections@);
        }
        Ok(FormattedText { paragraphs: out })
    }
}

/// Append one section's non-empty paragraph texts, one line each.
fn append_section_text(text: &mut String, section: &Section)
    ensures
        final(text)@ == old(text)@ + nonempty_para_text(section.paragraphs@),
{
    let mut j: usize = 0;
    let ghost t0 = old(text)@;
    while j < section.paragraphs.len()
        invariant
            t0 == old(text)@,
            0 <= j <= section.paragraphs@.len(),
            text@ == t0 + nonempty_para_text(section.paragraphs@.take(j as int)),
        decreases section.paragraphs@.len() - j,
    {
        if !section.paragraphs[j].text.as_str().is_empty() {
            text.append(section.paragraphs[j].text.as_str());
            text.push('\n');
        }
        proof {
            assert(section.paragraphs@.take(j + 1).drop_last() =~= section.paragraphs@.take(
                j as int,
            ));
            assert(text@ =~= t0 + nonempty_para_text(section.paragraphs@.take(j + 1)));
        }
        j = j + 1;
    }
    proof {
        assert(section.paragraphs@.take(j as int) =~= section.paragraphs@);
    }
}

/// Extracted text with paragraph structure preserved.
#[derive(Debug)]
pub struct FormattedText {
    pub paragraphs: Vec<FormattedParagraph>,
}

/// One extracted paragraph with its heading level and list marker.
#[derive(Debug)]
pub struct FormattedParagraph {
    pub text: String,
    pub level: u8,
    pub is_list_item: bool,
}

/// The text views of formatted paragraphs.
pub open spec fn formatted_texts(ps: Seq<FormattedParagraph>) -> Seq<Seq<char>> {
    ps.map_values(|p: FormattedParagraph| p.text@)
}

/// The non-empty paragraph texts of a paragraph sequence, in order.
pub open spec fn para_texts(paras: Seq<Paragraph>) -> Seq<Seq<char>>
    decreases paras.len(),
{
    if paras.len() == 0 {
        Seq::<Seq<char>>::empty()
    } else {
        para_texts(paras.drop_last()) + if paras.last().text@.len() > 0 {
            seq![paras.last().text@]
        } else {
            Seq::<Seq<char>>::empty()
        }
    }
}

/// The non-empty paragraph texts of every section, in order.
pub open spec fn nonempty_texts(sections: Seq<Section>) -> Seq<Seq<char>>
    decreases sections.len(),
{
    if sections.len() == 0 {
        Seq::<Seq<char>>::empty()
    } else {
        nonempty_texts(sections.drop_last()) + para_texts(sections.last().paragraphs@)
    }
}

} // verus!
