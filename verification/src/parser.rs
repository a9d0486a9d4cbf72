//! The parsing layer: framed records, the document header, the
//! document-information stream, and section streams, assembled into the
//! document model.

pub mod doc_info;
pub mod doc_info_records;
pub mod header;
pub mod record;
pub mod section;

use vstd::prelude::*;
use vstd::string::StringExecFns;
use crate::bytes_le::le32;
use crate::cfb::cfb_signature;
use crate::cfb::container::{
    CfbContainer,
    container_ok_for,
    container_resolves,
    stream_data_spec,
};
use crate::cfb::directory::ObjectType;
use crate::cfb::directory::find_entry_index;
use crate::cfb::stream::{
    Stream,
    clone_vec_u8,
    is_content_stream_name,
    stream_is_compressed,
};
use crate::compression::{custom_framed_payload, inflate_raw, inflate_zlib, is_custom_framed};
use crate::errors::{HwpError, HwpResult};
use crate::models::document::{HwpDocument, doc_info_is_empty};
use crate::models::section::Section;
use crate::parser::doc_info::{doc_info_from_bytes, doc_records_spec_ok};
use crate::parser::header::{header_parse_matches, hwp_signature};
use crate::parser::section::{paras_spec_ok, section_from_bytes};
use crate::reader::ByteReader;
use crate::version::{dec_u64_chars, version_of};

verus! {

/// Whether the buffer starts with the container magic.
pub open spec fn is_cfb(d: Seq<u8>) -> bool {
    d.len() >= 8 && d.subrange(0, 8) == cfb_signature()
}

/// Check for the container magic at the start of a file.
fn is_cfb_file(data: &[u8]) -> (r: bool)
    ensures
        r == is_cfb(data@),
{
    if data.len() < 8 {
        return false;
    }
    let ok = data[0] == 0xD0 && data[1] == 0xCF && data[2] == 0x11 && data[3] == 0xE0 && data[4]
        == 0xA1 && data[5] == 0xB1 && data[6] == 0x1A && data[7] == 0xE1;
    proof {
        if ok {
            assert(data@.subrange(0, 8) =~= cfb_signature());
        } else {
            assert(data@.subrange(0, 8) != cfb_signature());
        }
    }
    ok
}

/// Decompress a stream by trying each method in turn: the custom frame,
/// bare raw deflate, then zlib when its header is present.
pub fn try_decompress_stream(stream: &Stream) -> (r: HwpResult<Vec<u8>>)
    ensures
        (is_custom_framed(stream.data@) && custom_framed_payload(stream.data@) is Some)
            ==> (r matches Ok(v) && Some(v@) == custom_framed_payload(stream.data@)),
        r matches Ok(v) ==> custom_framed_payload(stream.data@) == Some(v@) || inflate_zlib(
            stream.data@,
        ) == Some(v@) || inflate_zlib(stream.data@.skip(4)) == Some(v@) || inflate_raw(
            stream.data@,
        ) == Some(v@),
        r matches Err(e) ==> e is DecompressionError,
{
    if crate::compression::is_hwp_compressed(stream.as_bytes()) {
        match crate::compression::decompress_hwp(stream.as_bytes()) {
            Ok(v) => {
                return Ok(v);
            },
            Err(_) => {},
        }
    }
    match crate::compression::decompress_raw(stream.as_bytes()) {
        Ok(v) => {
            return Ok(v);
        },
        Err(_) => {},
    }
    if stream.data.len() >= 2 {
        let h = stream.as_bytes()[0] as u32 * 0x100 + stream.as_bytes()[1] as u32;
        if h == 0x789C || h == 0x78DA || h == 0x7801 || h == 0x785E || h == 0x78DE {
            match crate::compression::decompress_zlib(stream.as_bytes()) {
                Ok(v) => {
                    return Ok(v);
                },
                Err(_) => {},
            }
        }
    }
    Err(HwpError::DecompressionError(String::from_str("failed to decompress the stream")))
}

/// What the decompression heuristic may hand on for stream bytes `d`:
/// the custom frame's payload when it decodes (the first method tried),
/// otherwise one of the other decodings, and the raw bytes themselves
/// exactly when every method fails.
pub open spec fn heuristic_bytes_rel(d: Seq<u8>, out: Seq<u8>) -> bool {
    &&& ((is_custom_framed(d) && custom_framed_payload(d) is Some) ==> Some(out)
        == custom_framed_payload(d))
    &&& (out == d || Some(out) == custom_framed_payload(d) || inflate_zlib(d) == Some(out)
        || inflate_zlib(d.skip(4)) == Some(out) || inflate_raw(d) == Some(out))
    &&& ((custom_framed_payload(d) is None && inflate_raw(d) is None && inflate_zlib(d) is None
        && inflate_zlib(d.skip(4)) is None) ==> out == d)
}

/// Decompress a stream per the heuristic, falling back to its raw bytes
/// when every method fails.
fn decompress_or_raw(stream: &Stream) -> (r: Vec<u8>)
    ensures
        heuristic_bytes_rel(stream.data@, r@),
{
    match try_decompress_stream(stream) {
        Ok(v) => v,
        Err(_) => clone_vec_u8(&stream.data),
    }
}

/// The name of the numbered section stream.
pub open spec fn section_stream_name(i: int) -> Seq<char> {
    "BodyText/Section"@ + dec_u64_chars(i as u64)
}

/// Whether the container holds the numbered section stream.
pub open spec fn has_section_stream(c: CfbContainer, i: int) -> bool {
    match find_entry_index(c.directory.entries@, section_stream_name(i)) {
        Some(j) => c.directory.entries@[j].object_type == ObjectType::Stream,
        None => false,
    }
}

/// Whether the container holds the document-information stream.
pub open spec fn has_docinfo(c: CfbContainer) -> bool {
    match find_entry_index(c.directory.entries@, "DocInfo"@) {
        Some(j) => c.directory.entries@[j].object_type == ObjectType::Stream,
        None => false,
    }
}

/// The raw bytes the named stream resolves to through the container.
pub open spec fn resolved_stream(c: CfbContainer, name: Seq<char>) -> Option<Seq<u8>> {
    match find_entry_index(c.directory.entries@, name) {
        Some(i) => if c.directory.entries@[i].object_type == ObjectType::Stream {
            stream_data_spec(
                c.file_bytes(),
                c.header.mini_stream_cutoff_size,
                c.fat,
                c.mini_fat,
                c.directory.entries@[i],
            )
        } else {
            None
        },
        None => None,
    }
}

/// What decompressing a non-content stream yields: the custom frame
/// first, then zlib over the whole buffer and past the size header.
pub open spec fn noncontent_decompress(d: Seq<u8>) -> Option<Seq<u8>> {
    if is_custom_framed(d) {
        match custom_framed_payload(d) {
            Some(x) => Some(x),
            None => match inflate_zlib(d) {
                Some(z) => Some(z),
                None => inflate_zlib(d.skip(4)),
            },
        }
    } else {
        inflate_zlib(d)
    }
}

/// The bytes the document header is parsed from: the header stream's
/// bytes, decompressed when they look compressed.
pub open spec fn header_input(c: CfbContainer) -> Option<Seq<u8>> {
    match resolved_stream(c, "FileHeader"@) {
        Some(raw) => if stream_is_compressed("FileHeader"@, raw) {
            noncontent_decompress(raw)
        } else {
            Some(raw)
        },
        None => None,
    }
}

/// How many consecutive numbered section streams the container holds,
/// probing at most `fuel` indices.
pub open spec fn consecutive_sections(c: CfbContainer, i: int, fuel: nat) -> int
    decreases fuel,
{
    if fuel == 0 || !has_section_stream(c, i) {
        0
    } else {
        1 + consecutive_sections(c, i + 1, (fuel - 1) as nat)
    }
}

/// One more index than the container has directory entries: no run of
/// distinct stream names can be longer.
pub open spec fn section_probe_fuel(c: CfbContainer) -> nat {
    (c.directory.entries@.len() + 1) as nat
}

/// Whether a document's information tables came from the container's
/// document-information stream through the decompression heuristic.
pub open spec fn docinfo_result(c: CfbContainer, doc: HwpDocument) -> bool {
    if has_docinfo(c) {
        exists|raw: Seq<u8>, out: Seq<u8>|
            resolved_stream(c, "DocInfo"@) == Some(raw) && #[trigger] heuristic_bytes_rel(raw, out)
                && doc_info_from_bytes(doc.doc_info, out)
    } else {
        doc_info_is_empty(doc.doc_info)
    }
}

/// Whether one section value came from the numbered section stream
/// through the decompression heuristic.
pub open spec fn section_result(c: CfbContainer, k: int, s: Section) -> bool {
    exists|raw: Seq<u8>, out: Seq<u8>|
        resolved_stream(c, section_stream_name(k)) == Some(raw) && #[trigger] heuristic_bytes_rel(
            raw,
            out,
        ) && section_from_bytes(s, out)
}

/// Whether a document's sections cover exactly the consecutive numbered
/// section streams, each decoded from its stream's bytes.
pub open spec fn sections_result(c: CfbContainer, doc: HwpDocument) -> bool {
    &&& doc.sections@.len() == consecutive_sections(c, 0, section_probe_fuel(c))
    &&& forall|k: int|
        0 <= k < doc.sections@.len() ==> section_result(c, k, #[trigger] doc.sections@[k])
}

/// When assembly is owed success: the document-information stream (when
/// present) and every consecutive section stream resolve, and whatever
/// bytes the heuristic may hand on decode without error.
pub open spec fn assembly_resolves(c: CfbContainer) -> bool {
    &&& (has_docinfo(c) ==> match resolved_stream(c, "DocInfo"@) {
        Some(raw) => forall|out: Seq<u8>|
            #[trigger] heuristic_bytes_rel(raw, out) ==> doc_records_spec_ok(out),
        None => false,
    })
    &&& forall|k: int|
        0 <= k < consecutive_sections(c, 0, section_probe_fuel(c))
            ==> match #[trigger] resolved_stream(c, section_stream_name(k)) {
            Some(raw) => forall|out: Seq<u8>|
                #[trigger] heuristic_bytes_rel(raw, out) ==> paras_spec_ok(out),
            None => false,
        }
}

/// What assembling a document from a parsed container guarantees.
pub open spec fn cfb_parse_post(c: CfbContainer, r: HwpResult<HwpDocument>) -> bool {
    match header_input(c) {
        None => r matches Err(e) && !(e is UnsupportedVersion),
        Some(hb) => if hb.len() < 32 || hb.subrange(0, 32) != hwp_signature() || hb.len() < 256 {
            r matches Err(e) && !(e is UnsupportedVersion)
        } else if version_of(le32(hb, 32) as u32).major < 5 {
            r matches Err(e) && e is UnsupportedVersion
        } else {
            &&& (r matches Ok(doc) ==> header_parse_matches(doc.header, hb, 0) && docinfo_result(
                c,
                doc,
            ) && sections_result(c, doc))
            &&& (assembly_resolves(c) ==> r is Ok)
            &&& (r matches Err(e) ==> !(e is UnsupportedVersion))
        },
    }
}

/// What the container path of `parse` guarantees over the file bytes.
pub open spec fn cfb_hwp_parse_post(b: Seq<u8>, r: HwpResult<HwpDocument>) -> bool {
    &&& (container_resolves(b) ==> exists|c: CfbContainer|
        #[trigger] container_ok_for(c, b) && cfb_parse_post(c, r))
    &&& (!container_resolves(b) ==> r is Err)
}

/// Build the name of the numbered section stream.
pub fn format_section_name(i: u64) -> (r: String)
    ensures
        r@ == section_stream_name(i as int),
{
    let mut name = String::from_str("BodyText/Section");
    crate::version::push_udec(&mut name, i);
    name
}

/// Parse a document from raw file bytes: the container path for files
/// with the container magic, the bare-header path otherwise.
pub fn parse(data: &[u8]) -> (r: HwpResult<HwpDocument>)
    ensures
        r matches Ok(doc) ==> doc.header.version.major >= 5,
        !is_cfb(data@) ==> legacy_parse_post(data@, r),
        is_cfb(data@) ==> cfb_hwp_parse_post(data@, r),
{
    if is_cfb_file(data) {
        parse_cfb_hwp(data)
    } else {
        parse_legacy_hwp(data)
    }
}

/// What the bare-header path guarantees.
pub open spec fn legacy_parse_post(b: Seq<u8>, r: HwpResult<HwpDocument>) -> bool {
    if b.len() < 32 {
        r matches Err(e) && e is BufferUnderflow
    } else if b.subrange(0, 32) != crate::parser::header::hwp_signature() {
        r matches Err(e) && e is InvalidSignature
    } else if b.len() < 256 {
        r matches Err(e) && e is BufferUnderflow
    } else if crate::version::version_of(crate::bytes_le::le32(b, 32) as u32).major < 5 {
        r matches Err(e) && e is UnsupportedVersion
    } else {
        r matches Ok(doc) && crate::parser::header::header_parse_matches(doc.header, b, 0)
            && doc.sections@.len() == 0 && doc_info_is_empty(doc.doc_info)
    }
}

/// Parse a bare (not containerised) document: header only.
fn parse_legacy_hwp(data: &[u8]) -> (r: HwpResult<HwpDocument>)
    ensures
        legacy_parse_post(data@, r),
        r matches Ok(doc) ==> doc.header.version.major >= 5,
{
    let mut reader = ByteReader::new(data);
    let header = match crate::parser::header::parse_header(&mut reader) {
        Ok(h) => h,
        Err(e) => {
            return Err(e);
        },
    };
    if !header.version.is_supported() {
        return Err(
            HwpError::UnsupportedVersion { version: header.version.to_version_string() },
        );
    }
    Ok(HwpDocument::new(header))
}

/// The name of the document header stream is not a content-stream name.
proof fn lemma_file_header_not_content()
    ensures
        !is_content_stream_name("FileHeader"@),
{
    reveal_strlit("FileHeader");
    reveal_strlit("DocInfo");
    reveal_strlit("BodyText/Section");
    assert("FileHeader"@.len() == 10);
    assert("DocInfo"@.len() == 7);
    assert("BodyText/Section"@.len() == 16);
}

/// Consecutive section streams up to a stop (or to fuel exhaustion)
/// count exactly.
proof fn lemma_consecutive_count(c: CfbContainer, i: int, n: int, fuel: nat)
    requires
        0 <= n <= fuel,
        forall|k: int| i <= k < i + n ==> has_section_stream(c, k),
        n < fuel ==> !has_section_stream(c, i + n),
    ensures
        consecutive_sections(c, i, fuel) == n,
    decreases n,
{
    if n > 0 {
        assert(has_section_stream(c, i));
        lemma_consecutive_count(c, i + 1, n - 1, (fuel - 1) as nat);
    }
}

/// The count is never negative.
proof fn lemma_consecutive_nonneg(c: CfbContainer, i: int, fuel: nat)
    ensures
        consecutive_sections(c, i, fuel) >= 0,
    decreases fuel,
{
    if fuel > 0 && has_section_stream(c, i) {
        lemma_consecutive_nonneg(c, i + 1, (fuel - 1) as nat);
    }
}

/// A run of present section streams bounds the count from below.
proof fn lemma_consecutive_at_least(c: CfbContainer, i: int, n: int, fuel: nat)
    requires
        0 <= n <= fuel,
        forall|k: int| i <= k < i + n ==> has_section_stream(c, k),
    ensures
        consecutive_sections(c, i, fuel) >= n,
    decreases n,
{
    if n > 0 {
        assert(has_section_stream(c, i));
        lemma_consecutive_at_least(c, i + 1, n - 1, (fuel - 1) as nat);
    } else {
        lemma_consecutive_nonneg(c, i, fuel);
    }
}

/// Parse a containerised document: locate the header stream, then the
/// document information, then each numbered section stream in turn until
/// one is missing.
#[verifier::rlimit(100)]
#[verifier::spinoff_prover]
fn parse_cfb_hwp(data: &[u8]) -> (r: HwpResult<HwpDocument>)
    ensures
        r matches Ok(doc) ==> doc.header.version.major >= 5,
        cfb_hwp_parse_post(data@, r),
{
    let ghost b = data@;
    let mut container = match crate::cfb::parse_cfb_bytes(data) {
        Ok(c) => c,
        Err(e) => {
            return Err(e);
        },
    };
    let ghost c0 = container;
    proof {
        assert(container_ok_for(c0, b));
    }
    let mut reader = ByteReader::new(data);
    let file_header_stream = match container.read_stream(&mut reader, "FileHeader") {
        Ok(s) => s,
        Err(e) => {
            proof {
                assert(header_input(c0) is None);
                witness_post(c0, b, Err(e));
            }
            return Err(e);
        },
    };
    let ghost fh_raw = file_header_stream.data@;
    proof {
        assert(resolved_stream(c0, "FileHeader"@) == Some(fh_raw));
        assert(file_header_stream.name@ == "FileHeader"@);
        lemma_file_header_not_content();
    }
    let header_data: Vec<u8> = if file_header_stream.is_compressed() {
        match file_header_stream.decompress() {
            Ok(v) => v,
            Err(e) => {
                proof {
                    assert(noncontent_decompress(fh_raw) is None);
                    assert(header_input(c0) is None);
                    witness_post(c0, b, Err(e));
                }
                return Err(e);
            },
        }
    } else {
        clone_vec_u8(&file_header_stream.data)
    };
    let ghost hb = header_data@;
    proof {
        assert(header_input(c0) == Some(hb));
    }
    let mut header_reader = ByteReader::new(header_data.as_slice());
    let header = match crate::parser::header::parse_header(&mut header_reader) {
        Ok(h) => h,
        Err(e) => {
            proof {
                assert(hb.len() < 32 || hb.subrange(0, 32) != hwp_signature() || hb.len() < 256);
                witness_post(c0, b, Err(e));
            }
            return Err(e);
        },
    };
    if !header.version.is_supported() {
        let e = HwpError::UnsupportedVersion { version: header.version.to_version_string() };
        proof {
            assert(header.version == version_of(le32(hb, 32) as u32));
            witness_post(c0, b, Err(e));
        }
        return Err(e);
    }
    proof {
        assert(version_of(le32(hb, 32) as u32).major >= 5);
    }
    let mut document = HwpDocument::new(header);
    if container.has_stream("DocInfo") {
        let doc_info_stream = match container.read_stream(&mut reader, "DocInfo") {
            Ok(s) => s,
            Err(e) => {
                proof {
                    assert(resolved_stream(c0, "DocInfo"@) is None);
                    assert(!assembly_resolves(c0));
                    witness_post(c0, b, Err(e));
                }
                return Err(e);
            },
        };
        let ghost di_raw = doc_info_stream.data@;
        let doc_info_data = decompress_or_raw(&doc_info_stream);
        let ghost di_out = doc_info_data@;
        document.doc_info = match crate::parser::doc_info::parse_doc_info(
            doc_info_data.as_slice(),
        ) {
            Ok(d) => d,
            Err(e) => {
                proof {
                    assert(heuristic_bytes_rel(di_raw, di_out));
                    assert(!doc_records_spec_ok(di_out));
                    assert(!assembly_resolves(c0));
                    witness_post(c0, b, Err(e));
                }
                return Err(e);
            },
        };
        proof {
            assert(doc_info_from_bytes(document.doc_info, di_out));
            assert(docinfo_result(c0, document));
        }
    } else {
        proof {
            assert(!has_docinfo(c0));
            assert(docinfo_result(c0, document));
        }
    }
    // Probe the numbered section streams until one is missing; a
    // container cannot hold more streams than directory entries.
    let mut section_idx: u64 = 0;
    let cap = container.directory.entries.len() as u64;
    let mut done = false;
    while !done
        invariant
            b == data@,
            container_ok_for(c0, b),
            container.wf(),
            container.header == c0.header,
            container.fat == c0.fat,
            container.mini_fat == c0.mini_fat,
            container.directory.entries@ == c0.directory.entries@,
            container.file_bytes() == c0.file_bytes(),
            reader.wf(),
            reader.bytes() == c0.file_bytes(),
            cap == c0.directory.entries@.len(),
            0 <= section_idx <= cap,
            header_input(c0) == Some(hb),
            !(hb.len() < 32 || hb.subrange(0, 32) != hwp_signature() || hb.len() < 256),
            version_of(le32(hb, 32) as u32).major >= 5,
            header_parse_matches(document.header, hb, 0),
            document.header.version.major >= 5,
            docinfo_result(c0, document),
            !done ==> document.sections@.len() == section_idx,
            forall|k: int| 0 <= k < document.sections@.len() ==> has_section_stream(c0, k),
            forall|k: int|
                0 <= k < document.sections@.len() ==> section_result(
                    c0,
                    k,
                    #[trigger] document.sections@[k],
                ),
            done ==> document.sections@.len() == consecutive_sections(
                c0,
                0,
                section_probe_fuel(c0),
            ),
        decreases cap - section_idx + if done {
            0int
        } else {
            1int
        },
    {
        let section_name = format_section_name(section_idx);
        if !container.has_stream(section_name.as_str()) {
            proof {
                assert(!has_section_stream(c0, section_idx as int));
                lemma_consecutive_count(
                    c0,
                    0,
                    section_idx as int,
                    section_probe_fuel(c0),
                );
            }
            done = true;
        } else {
            let section_stream = match container.read_stream(&mut reader, section_name.as_str()) {
                Ok(s) => s,
                Err(e) => {
                    proof {
                        assert(resolved_stream(c0, section_stream_name(section_idx as int))
                            is None);
                        lemma_consecutive_at_least(
                            c0,
                            0,
                            section_idx as int + 1,
                            section_probe_fuel(c0),
                        );
                        assert(!assembly_resolves(c0));
                        witness_post(c0, b, Err(e));
                    }
                    return Err(e);
                },
            };
            let ghost sec_raw = section_stream.data@;
            let section_data = decompress_or_raw(&section_stream);
            let ghost sec_out = section_data@;
            let section = match crate::parser::section::parse_section(
                section_data.as_slice(),
                section_idx as usize,
            ) {
                Ok(s) => s,
                Err(e) => {
                    proof {
                        assert(heuristic_bytes_rel(sec_raw, sec_out));
                        assert(!paras_spec_ok(sec_out));
                        lemma_consecutive_at_least(
                            c0,
                            0,
                            section_idx as int + 1,
                            section_probe_fuel(c0),
                        );
                        assert(!assembly_resolves(c0));
                        witness_post(c0, b, Err(e));
                    }
                    return Err(e);
                },
            };
            proof {
                assert(section_from_bytes(section, sec_out));
            }
            document.sections.push(section);
            proof {
                assert(section_result(
                    c0,
                    section_idx as int,
                    document.sections@[section_idx as int],
                ));
            }
            if section_idx == cap {
                proof {
                    lemma_consecutive_count(
                        c0,
                        0,
                        section_idx as int + 1,
                        section_probe_fuel(c0),
                    );
                }
                done = true;
            } else {
                section_idx = section_idx + 1;
            }
        }
    }
    proof {
        assert(sections_result(c0, document));
    }
    let r = Ok(document);
    proof {
        witness_post(c0, b, r);
    }
    r
}

/// The parsed container itself witnesses the container-path guarantee.
proof fn witness_post(c0: CfbContainer, b: Seq<u8>, r: HwpResult<HwpDocument>)
    requires
        container_ok_for(c0, b),
        cfb_parse_post(c0, r),
    ensures
        exists|c: CfbContainer| #[trigger] container_ok_for(c, b) && cfb_parse_post(c, r),
{
}

} // verus!
