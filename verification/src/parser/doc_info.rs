//! The document-information stream: a record sequence whose tags select
//! fixed-layout field parsers that fill the `DocInfo` tables.

use vstd::prelude::*;
use vstd::string::StringExecFns;
use crate::errors::{HwpError, HwpResult};
use crate::models::document::{DocInfo, document_properties_default, doc_info_is_empty};
use crate::parser::doc_info_records::{
    bin_data_matches,
    bin_data_ok,
    border_fill_matches,
    border_fill_ok,
    bullet_matches,
    bullet_ok,
    char_shape_matches,
    char_shape_ok,
    document_properties_matches,
    document_properties_ok,
    face_name_matches,
    face_name_ok,
    forbidden_char_matches,
    forbidden_char_ok,
    id_mappings_ok,
    id_mappings_values,
    layout_compatibility_matches,
    memo_shape_matches,
    numbering_matches,
    numbering_ok,
    para_shape_matches,
    para_shape_ok,
    parse_bin_data,
    parse_border_fill,
    parse_bullet,
    parse_char_shape,
    parse_compatible_document,
    parse_distribute_doc_data,
    parse_doc_data,
    parse_document_properties,
    parse_face_name,
    parse_forbidden_char,
    parse_id_mappings,
    parse_layout_compatibility,
    parse_memo_shape,
    parse_numbering,
    parse_para_shape,
    parse_style,
    parse_tab_def,
    parse_track_change,
    parse_track_change_author,
    style_matches,
    style_ok,
    tab_def_matches,
    tab_def_ok,
    track_change_author_matches,
    track_change_author_ok,
    track_change_matches,
};
use crate::parser::record::{
    FailKind,
    ParseStep,
    RecordParser,
    RecordView,
    effective_step,
    fail_surfaces_as,
    lemma_effective_step_bounds,
    parse_records_spec,
    record_matches,
};
use crate::reader::ByteReader;
use crate::tag_id;
use crate::validator::RecordContext;

verus! {

/// The records of `rs` carrying `tag`, in order.
pub open spec fn recs_with_tag(rs: Seq<RecordView>, tag: u16) -> Seq<RecordView>
    decreases rs.len(),
{
    if rs.len() == 0 {
        Seq::<RecordView>::empty()
    } else {
        recs_with_tag(rs.drop_last(), tag) + if rs.last().tag_id == tag {
            seq![rs.last()]
        } else {
            Seq::<RecordView>::empty()
        }
    }
}

/// The records of `rs` carrying either of two tags, in order.
pub open spec fn recs_with_tag2(rs: Seq<RecordView>, t1: u16, t2: u16) -> Seq<RecordView>
    decreases rs.len(),
{
    if rs.len() == 0 {
        Seq::<RecordView>::empty()
    } else {
        recs_with_tag2(rs.drop_last(), t1, t2) + if rs.last().tag_id == t1 || rs.last().tag_id
            == t2 {
            seq![rs.last()]
        } else {
            Seq::<RecordView>::empty()
        }
    }
}

/// Appending a record extends exactly the matching selection.
pub proof fn lemma_recs_with_tag_push(rs: Seq<RecordView>, rec: RecordView, tag: u16)
    ensures
        rec.tag_id == tag ==> recs_with_tag(rs.push(rec), tag) == recs_with_tag(rs, tag).push(rec),
        rec.tag_id != tag ==> recs_with_tag(rs.push(rec), tag) == recs_with_tag(rs, tag),
{
    assert(rs.push(rec).drop_last() =~= rs);
    assert(rs.push(rec).last() == rec);
    if rec.tag_id == tag {
        assert(recs_with_tag(rs, tag) + seq![rec] =~= recs_with_tag(rs, tag).push(rec));
    } else {
        assert(recs_with_tag(rs, tag) + Seq::<RecordView>::empty() =~= recs_with_tag(rs, tag));
    }
}

/// The same fact for the two-tag selection.
pub proof fn lemma_recs_with_tag2_push(rs: Seq<RecordView>, rec: RecordView, t1: u16, t2: u16)
    ensures
        rec.tag_id == t1 || rec.tag_id == t2 ==> recs_with_tag2(rs.push(rec), t1, t2)
            == recs_with_tag2(rs, t1, t2).push(rec),
        rec.tag_id != t1 && rec.tag_id != t2 ==> recs_with_tag2(rs.push(rec), t1, t2)
            == recs_with_tag2(rs, t1, t2),
{
    assert(rs.push(rec).drop_last() =~= rs);
    assert(rs.push(rec).last() == rec);
    if rec.tag_id == t1 || rec.tag_id == t2 {
        assert(recs_with_tag2(rs, t1, t2) + seq![rec] =~= recs_with_tag2(rs, t1, t2).push(rec));
    } else {
        assert(recs_with_tag2(rs, t1, t2) + Seq::<RecordView>::empty() =~= recs_with_tag2(
            rs,
            t1,
            t2,
        ));
    }
}

/// Appending a record keeps or extends every tag selection of interest.
proof fn lemma_doc_tags_push(rs: Seq<RecordView>, rec: RecordView)
    ensures
        forall|tag: u16|
            rec.tag_id == tag ==> #[trigger] recs_with_tag(rs.push(rec), tag) == recs_with_tag(
                rs,
                tag,
            ).push(rec),
        forall|tag: u16|
            rec.tag_id != tag ==> #[trigger] recs_with_tag(rs.push(rec), tag) == recs_with_tag(
                rs,
                tag,
            ),
        recs_with_tag2(rs.push(rec), tag_id::TRACK_CHANGE, tag_id::CHANGE_TRACKING) == (if rec.tag_id
            == tag_id::TRACK_CHANGE || rec.tag_id == tag_id::CHANGE_TRACKING {
            recs_with_tag2(rs, tag_id::TRACK_CHANGE, tag_id::CHANGE_TRACKING).push(rec)
        } else {
            recs_with_tag2(rs, tag_id::TRACK_CHANGE, tag_id::CHANGE_TRACKING)
        }),
{
    assert forall|tag: u16| true implies {
        &&& (rec.tag_id == tag ==> #[trigger] recs_with_tag(rs.push(rec), tag) == recs_with_tag(
            rs,
            tag,
        ).push(rec))
        &&& (rec.tag_id != tag ==> recs_with_tag(rs.push(rec), tag) == recs_with_tag(rs, tag))
    } by {
        lemma_recs_with_tag_push(rs, rec, tag);
    }
    lemma_recs_with_tag2_push(rs, rec, tag_id::TRACK_CHANGE, tag_id::CHANGE_TRACKING);
}

/// Whether every record's payload parses under its tag's layout.
pub open spec fn doc_record_ok(rec: RecordView) -> bool {
    let b = rec.data;
    if rec.tag_id == tag_id::DOCUMENT_PROPERTIES {
        document_properties_ok(b)
    } else if rec.tag_id == tag_id::FACE_NAME {
        face_name_ok(b)
    } else if rec.tag_id == tag_id::CHAR_SHAPE {
        char_shape_ok(b)
    } else if rec.tag_id == tag_id::PARA_SHAPE {
        para_shape_ok(b)
    } else if rec.tag_id == tag_id::STYLE {
        style_ok(b)
    } else if rec.tag_id == tag_id::BORDER_FILL {
        border_fill_ok(b)
    } else if rec.tag_id == tag_id::ID_MAPPINGS {
        id_mappings_ok(b)
    } else if rec.tag_id == tag_id::BIN_DATA {
        bin_data_ok(b)
    } else if rec.tag_id == tag_id::TAB_DEF {
        tab_def_ok(b)
    } else if rec.tag_id == tag_id::NUMBERING {
        numbering_ok(b, 0, 7)
    } else if rec.tag_id == tag_id::BULLET {
        bullet_ok(b)
    } else if rec.tag_id == tag_id::COMPATIBLE_DOCUMENT {
        b.len() >= 4
    } else if rec.tag_id == tag_id::LAYOUT_COMPATIBILITY {
        b.len() >= 20
    } else if rec.tag_id == tag_id::TRACK_CHANGE || rec.tag_id == tag_id::CHANGE_TRACKING {
        b.len() >= 16
    } else if rec.tag_id == tag_id::TRACK_CHANGE_AUTHOR {
        track_change_author_ok(b)
    } else if rec.tag_id == tag_id::MEMO_SHAPE {
        b.len() >= 21
    } else if rec.tag_id == tag_id::FORBIDDEN_CHAR {
        forbidden_char_ok(b)
    } else {
        true
    }
}

/// Whether every record in the sequence parses.
pub open spec fn doc_records_ok(rs: Seq<RecordView>) -> bool {
    forall|k: int| 0 <= k < rs.len() ==> doc_record_ok(#[trigger] rs[k])
}

/// Whether a `DocInfo` value holds exactly the tables the record
/// sequence describes: appended tables in record order, and last-wins
/// singletons.
pub open spec fn doc_info_tables_match(d: DocInfo, rs: Seq<RecordView>) -> bool {
    let props = recs_with_tag(rs, tag_id::DOCUMENT_PROPERTIES);
    let faces = recs_with_tag(rs, tag_id::FACE_NAME);
    let chars = recs_with_tag(rs, tag_id::CHAR_SHAPE);
    let paras = recs_with_tag(rs, tag_id::PARA_SHAPE);
    let styles = recs_with_tag(rs, tag_id::STYLE);
    let borders = recs_with_tag(rs, tag_id::BORDER_FILL);
    let idmaps = recs_with_tag(rs, tag_id::ID_MAPPINGS);
    let bins = recs_with_tag(rs, tag_id::BIN_DATA);
    let docdatas = recs_with_tag(rs, tag_id::DOC_DATA);
    let tabs = recs_with_tag(rs, tag_id::TAB_DEF);
    let numberings = recs_with_tag(rs, tag_id::NUMBERING);
    let bullets = recs_with_tag(rs, tag_id::BULLET);
    let dists = recs_with_tag(rs, tag_id::DISTRIBUTE_DOC_DATA);
    let compats = recs_with_tag(rs, tag_id::COMPATIBLE_DOCUMENT);
    let layouts = recs_with_tag(rs, tag_id::LAYOUT_COMPATIBILITY);
    let tracks = recs_with_tag2(rs, tag_id::TRACK_CHANGE, tag_id::CHANGE_TRACKING);
    let authors = recs_with_tag(rs, tag_id::TRACK_CHANGE_AUTHOR);
    let memos = recs_with_tag(rs, tag_id::MEMO_SHAPE);
    let forbiddens = recs_with_tag(rs, tag_id::FORBIDDEN_CHAR);
    &&& if props.len() == 0 {
        d.properties == document_properties_default()
    } else {
        document_properties_matches(d.properties, props.last().data)
    }
    &&& d.face_names@.len() == faces.len() && (forall|k: int|
        0 <= k < faces.len() ==> face_name_matches(#[trigger] d.face_names@[k], faces[k].data))
    &&& d.char_shapes@.len() == chars.len() && (forall|k: int|
        0 <= k < chars.len() ==> char_shape_matches(#[trigger] d.char_shapes@[k], chars[k].data))
    &&& d.para_shapes@.len() == paras.len() && (forall|k: int|
        0 <= k < paras.len() ==> para_shape_matches(#[trigger] d.para_shapes@[k], paras[k].data))
    &&& d.styles@.len() == styles.len() && (forall|k: int|
        0 <= k < styles.len() ==> style_matches(#[trigger] d.styles@[k], styles[k].data))
    &&& d.border_fills@.len() == borders.len() && (forall|k: int|
        0 <= k < borders.len() ==> border_fill_matches(
            #[trigger] d.border_fills@[k],
            borders[k].data,
        ))
    &&& if idmaps.len() == 0 {
        d.id_mappings@ == Seq::<u32>::empty()
    } else {
        d.id_mappings@ == id_mappings_values(idmaps.last().data)
    }
    &&& d.bin_data_entries@.len() == bins.len() && (forall|k: int|
        0 <= k < bins.len() ==> bin_data_matches(#[trigger] d.bin_data_entries@[k], bins[k].data))
    &&& if docdatas.len() == 0 {
        d.doc_data@ == Seq::<u8>::empty()
    } else {
        d.doc_data@ == docdatas.last().data
    }
    &&& d.tab_defs@.len() == tabs.len() && (forall|k: int|
        0 <= k < tabs.len() ==> tab_def_matches(#[trigger] d.tab_defs@[k], tabs[k].data))
    &&& d.numberings@.len() == numberings.len() && (forall|k: int|
        0 <= k < numberings.len() ==> numbering_matches(
            (#[trigger] d.numberings@[k]).levels@,
            numberings[k].data,
            0,
            7,
        ))
    &&& d.bullets@.len() == bullets.len() && (forall|k: int|
        0 <= k < bullets.len() ==> bullet_matches(#[trigger] d.bullets@[k], bullets[k].data))
    &&& if dists.len() == 0 {
        d.distribute_doc_data is None
    } else {
        d.distribute_doc_data matches Some(x) && x.data@ == dists.last().data
    }
    &&& if compats.len() == 0 {
        d.compatible_document is None
    } else {
        d.compatible_document matches Some(x) && x.target_program == crate::bytes_le::le32(
            compats.last().data,
            0,
        )
    }
    &&& if layouts.len() == 0 {
        d.layout_compatibility is None
    } else {
        d.layout_compatibility matches Some(x) && layout_compatibility_matches(
            x,
            layouts.last().data,
        )
    }
    &&& d.track_changes@.len() == tracks.len() && (forall|k: int|
        0 <= k < tracks.len() ==> track_change_matches(
            #[trigger] d.track_changes@[k],
            tracks[k].data,
        ))
    &&& d.track_change_authors@.len() == authors.len() && (forall|k: int|
        0 <= k < authors.len() ==> track_change_author_matches(
            #[trigger] d.track_change_authors@[k],
            authors[k].data,
        ))
    &&& d.memo_shapes@.len() == memos.len() && (forall|k: int|
        0 <= k < memos.len() ==> memo_shape_matches(#[trigger] d.memo_shapes@[k], memos[k].data))
    &&& if forbiddens.len() == 0 {
        d.forbidden_chars is None
    } else {
        d.forbidden_chars matches Some(x) && forbidden_char_matches(x, forbiddens.last().data)
    }
}

/// Every tag selection of the empty record sequence is empty.
proof fn lemma_tables_empty(d: DocInfo)
    requires
        doc_info_is_empty(d),
    ensures
        doc_info_tables_match(d, Seq::<RecordView>::empty()),
{
    assert(d.id_mappings@ =~= Seq::<u32>::empty());
    assert(d.doc_data@ =~= Seq::<u8>::empty());
}

/// Whether the record stream in `b` decodes and every record's payload
/// parses under the document-information layouts.
pub open spec fn doc_records_spec_ok(b: Seq<u8>) -> bool {
    match parse_records_spec(b, 0, RecordContext::DocInfo, false, 0x6400000u32, false) {
        Ok(rvs) => doc_records_ok(rvs),
        Err(_) => false,
    }
}

/// Whether a document-information value holds exactly the tables the
/// record stream in `b` describes.
pub open spec fn doc_info_from_bytes(d: DocInfo, b: Seq<u8>) -> bool {
    match parse_records_spec(b, 0, RecordContext::DocInfo, false, 0x6400000u32, false) {
        Ok(rvs) => doc_records_ok(rvs) && doc_info_tables_match(d, rvs),
        Err(_) => false,
    }
}

/// Parse the document-information stream: decode its records in strict
/// mode and dispatch each tag to its field parser; unknown tags are
/// skipped without touching any table.
#[verifier::rlimit(100)]
#[verifier::spinoff_prover]
pub fn parse_doc_info(data: &[u8]) -> (r: HwpResult<DocInfo>)
    ensures
        match parse_records_spec(
            data@,
            0,
            RecordContext::DocInfo,
            false,
            0x6400000u32,
            false,
        ) {
            Ok(rvs) => if doc_records_ok(rvs) {
                r matches Ok(d) && doc_info_from_bytes(d, data@)
            } else {
                r matches Err(e) && e is ParseError
            },
            Err(kind) => r matches Err(e) && (fail_surfaces_as(kind, e) || e is ParseError),
        },
{
    let ghost b = data@;
    let mut parser = RecordParser::new_with_context(data, RecordContext::BodyText);
    parser.set_context(RecordContext::DocInfo);
    let mut doc_info = DocInfo::default();
    let ghost ctx = RecordContext::DocInfo;
    let mut processed: Ghost<Seq<RecordView>> = Ghost(Seq::<RecordView>::empty());
    proof {
        lemma_tables_empty(doc_info);
        match parse_records_spec(b, 0, ctx, false, 0x6400000u32, false) {
            Ok(all) => {
                assert(Seq::<RecordView>::empty() + all =~= all);
            },
            Err(_) => {},
        }
    }
    loop
        invariant
            parser.wf(),
            b == data@,
            parser.bytes() == b,
            parser.ctx() == ctx,
            ctx == RecordContext::DocInfo,
            !parser.allow_unknown(),
            parser.max_size() == 0x6400000u32,
            !parser.recovery_on(),
            0 <= parser.at() <= b.len(),
            doc_records_ok(processed@),
            doc_info_tables_match(doc_info, processed@),
            match parse_records_spec(b, parser.at(), ctx, false, 0x6400000u32, false) {
                Ok(rest) => parse_records_spec(b, 0, ctx, false, 0x6400000u32, false) == Ok::<
                    Seq<RecordView>,
                    FailKind,
                >(processed@ + rest),
                Err(k) => parse_records_spec(b, 0, ctx, false, 0x6400000u32, false) == Err::<
                    Seq<RecordView>,
                    FailKind,
                >(k),
            },
        decreases b.len() - parser.at() + 1,
    {
        let ghost p = parser.at();
        let ghost step = effective_step(b, p, ctx, false, 0x6400000u32, false);
        proof {
            lemma_effective_step_bounds(b, p, ctx, false, 0x6400000u32, false);
        }
        let record = match parser.parse_next_record() {
            Ok(opt) => match opt {
                Some(record) => record,
                None => {
                    proof {
                        assert(processed@ + Seq::<RecordView>::empty() =~= processed@);
                    }
                    return Ok(doc_info);
                },
            },
            Err(e) => {
                return Err(e);
            },
        };
        let ghost rec: RecordView = match step {
            ParseStep::Parsed { rec, next } => rec,
            _ => arbitrary(),
        };
        proof {
            assert(step is Parsed);
            assert(record_matches(record, rec));
            assert(rec.data == record.data@ && rec.tag_id == record.tag_id);
            lemma_doc_tags_push(processed@, rec);
        }
        let ghost processed2 = processed@.push(rec);
        proof {
            assert(processed2.drop_last() =~= processed@);
            assert(processed2.last() == rec);
        }
        let tag = record.tag_id;
        if tag == 0x0010 {
            match parse_document_properties(record.data.as_slice()) {
                Ok(x) => {
                    doc_info.properties = x;
                },
                Err(_) => {
                    proof {
                        assert(!doc_record_ok(rec));
                        lemma_bad_record(b, ctx, processed@, p, rec);
                    }
                    return Err(parse_error());
                },
            }
        } else if tag == 0x0013 {
            match parse_face_name(record.data.as_slice()) {
                Ok(x) => {
                    doc_info.face_names.push(x);
                },
                Err(_) => {
                    proof {
                        assert(!doc_record_ok(rec));
                        lemma_bad_record(b, ctx, processed@, p, rec);
                    }
                    return Err(parse_error());
                },
            }
        } else if tag == 0x0015 {
            match parse_char_shape(record.data.as_slice()) {
                Ok(x) => {
                    doc_info.char_shapes.push(x);
                },
                Err(_) => {
                    proof {
                        assert(!doc_record_ok(rec));
                        lemma_bad_record(b, ctx, processed@, p, rec);
                    }
                    return Err(parse_error());
                },
            }
        } else if tag == 0x0019 {
            match parse_para_shape(record.data.as_slice()) {
                Ok(x) => {
                    doc_info.para_shapes.push(x);
                },
                Err(_) => {
                    proof {
                        assert(!doc_record_ok(rec));
                        lemma_bad_record(b, ctx, processed@, p, rec);
                    }
                    return Err(parse_error());
                },
            }
        } else if tag == 0x001A {
            match parse_style(record.data.as_slice()) {
                Ok(x) => {
                    doc_info.styles.push(x);
                },
                Err(_) => {
                    proof {
                        assert(!doc_record_ok(rec));
                        lemma_bad_record(b, ctx, processed@, p, rec);
                    }
                    return Err(parse_error());
                },
            }
        } else if tag == 0x0014 {
            match parse_border_fill(record.data.as_slice()) {
                Ok(x) => {
                    doc_info.border_fills.push(x);
                },
                Err(_) => {
                    proof {
                        assert(!doc_record_ok(rec));
                        lemma_bad_record(b, ctx, processed@, p, rec);
                    }
                    return Err(parse_error());
                },
            }
        } else if tag == 0x0011 {
            match parse_id_mappings(record.data.as_slice()) {
                Ok(x) => {
                    doc_info.id_mappings = x;
                },
                Err(_) => {
                    proof {
                        assert(!doc_record_ok(rec));
                        lemma_bad_record(b, ctx, processed@, p, rec);
                    }
                    return Err(parse_error());
                },
            }
        } else if tag == 0x0012 {
            match parse_bin_data(record.data.as_slice()) {
                Ok(x) => {
                    doc_info.bin_data_entries.push(x);
                },
                Err(_) => {
                    proof {
                        assert(!doc_record_ok(rec));
                        lemma_bad_record(b, ctx, processed@, p, rec);
                    }
                    return Err(parse_error());
                },
            }
        } else if tag == 0x001B {
            match parse_doc_data(record.data.as_slice()) {
                Ok(x) => {
                    doc_info.doc_data = x;
                },
                Err(_) => {
                    proof {
                        assert(!doc_record_ok(rec));
                        lemma_bad_record(b, ctx, processed@, p, rec);
                    }
                    return Err(parse_error());
                },
            }
        } else if tag == 0x0016 {
            match parse_tab_def(record.data.as_slice()) {
                Ok(x) => {
                    doc_info.tab_defs.push(x);
                },
                Err(_) => {
                    proof {
                        assert(!doc_record_ok(rec));
                        lemma_bad_record(b, ctx, processed@, p, rec);
                    }
                    return Err(parse_error());
                },
            }
        } else if tag == 0x0017 {
            match parse_numbering(record.data.as_slice()) {
                Ok(x) => {
                    doc_info.numberings.push(x);
                },
                Err(_) => {
                    proof {
                        assert(!doc_record_ok(rec));
                        lemma_bad_record(b, ctx, processed@, p, rec);
                    }
                    return Err(parse_error());
                },
            }
        } else if tag == 0x0018 {
            match parse_bullet(record.data.as_slice()) {
                Ok(x) => {
                    doc_info.bullets.push(x);
                },
                Err(_) => {
                    proof {
                        assert(!doc_record_ok(rec));
                        lemma_bad_record(b, ctx, processed@, p, rec);
                    }
                    return Err(parse_error());
                },
            }
        } else if tag == 0x001C {
            match parse_distribute_doc_data(record.data.as_slice()) {
                Ok(x) => {
                    doc_info.distribute_doc_data = Some(x);
                },
                Err(_) => {
                    proof {
                        assert(!doc_record_ok(rec));
                        lemma_bad_record(b, ctx, processed@, p, rec);
                    }
                    return Err(parse_error());
                },
            }
        } else if tag == 0x0020 {
            match parse_compatible_document(record.data.as_slice()) {
                Ok(x) => {
                    doc_info.compatible_document = Some(x);
                },
                Err(_) => {
                    proof {
                        assert(!doc_record_ok(rec));
                        lemma_bad_record(b, ctx, processed@, p, rec);
                    }
                    return Err(parse_error());
                },
            }
        } else if tag == 0x0021 {
            match parse_layout_compatibility(record.data.as_slice()) {
                Ok(x) => {
                    doc_info.layout_compatibility = Some(x);
                },
                Err(_) => {
                    proof {
                        assert(!doc_record_ok(rec));
                        lemma_bad_record(b, ctx, processed@, p, rec);
                    }
                    return Err(parse_error());
                },
            }
        } else if tag == 0x0022 || tag == 0x00F0 {
            match parse_track_change(record.data.as_slice()) {
                Ok(x) => {
                    doc_info.track_changes.push(x);
                },
                Err(_) => {
                    proof {
                        assert(!doc_record_ok(rec));
                        lemma_bad_record(b, ctx, processed@, p, rec);
                    }
                    return Err(parse_error());
                },
            }
        } else if tag == 0x0050 {
            // The author record's id belongs to the section dialect, so
            // the strict vocabulary never delivers it here; the arm keeps
            // the dispatch complete for the layout's sake.
            match parse_track_change_author(record.data.as_slice()) {
                Ok(x) => {
                    doc_info.track_change_authors.push(x);
                },
                Err(_) => {
                    proof {
                        assert(!doc_record_ok(rec));
                        lemma_bad_record(b, ctx, processed@, p, rec);
                    }
                    return Err(parse_error());
                },
            }
        } else if tag == 0x004C {
            match parse_memo_shape(record.data.as_slice()) {
                Ok(x) => {
                    doc_info.memo_shapes.push(x);
                },
                Err(_) => {
                    proof {
                        assert(!doc_record_ok(rec));
                        lemma_bad_record(b, ctx, processed@, p, rec);
                    }
                    return Err(parse_error());
                },
            }
        } else if tag == 0x004E {
            match parse_forbidden_char(record.data.as_slice()) {
                Ok(x) => {
                    doc_info.forbidden_chars = Some(x);
                },
                Err(_) => {
                    proof {
                        assert(!doc_record_ok(rec));
                        lemma_bad_record(b, ctx, processed@, p, rec);
                    }
                    return Err(parse_error());
                },
            }
        } else {
            // Unknown record: skipped without touching any table.
        }
        processed = Ghost(processed2);
        proof {
            match step {
                ParseStep::Parsed { rec: r2, next } => {
                    match parse_records_spec(b, next, ctx, false, 0x6400000u32, false) {
                        Ok(rest) => {
                            assert(parse_records_spec(b, p, ctx, false, 0x6400000u32, false)
                                == Ok::<Seq<RecordView>, FailKind>(seq![r2] + rest));
                            assert(processed@.drop_last() + (seq![r2] + rest) =~= processed@
                                + rest);
                        },
                        Err(_) => {},
                    }
                },
                _ => {
                    assert(false);
                },
            }
        }
    }
}

/// A record whose payload fails its tag's layout spoils the sequence.
proof fn lemma_bad_record(
    b: Seq<u8>,
    ctx: RecordContext,
    processed: Seq<RecordView>,
    p: int,
    rec: RecordView,
)
    requires
        !doc_record_ok(rec),
        0 <= p,
        effective_step(b, p, ctx, false, 0x6400000u32, false) matches ParseStep::Parsed {
            rec: r2,
            next,
        } && r2 == rec && p < next <= b.len(),
        match parse_records_spec(b, p, ctx, false, 0x6400000u32, false) {
            Ok(rest) => parse_records_spec(b, 0, ctx, false, 0x6400000u32, false) == Ok::<
                Seq<RecordView>,
                FailKind,
            >(processed + rest),
            Err(k) => parse_records_spec(b, 0, ctx, false, 0x6400000u32, false) == Err::<
                Seq<RecordView>,
                FailKind,
            >(k),
        },
    ensures
        match parse_records_spec(b, 0, ctx, false, 0x6400000u32, false) {
            Ok(all) => !doc_records_ok(all),
            Err(_) => true,
        },
{
    match parse_records_spec(b, p, ctx, false, 0x6400000u32, false) {
        Ok(rest) => {
            match effective_step(b, p, ctx, false, 0x6400000u32, false) {
                ParseStep::Parsed { rec: r2, next } => {
                    match parse_records_spec(b, next, ctx, false, 0x6400000u32, false) {
                        Ok(tail) => {
                            assert(rest == seq![rec] + tail);
                            assert(rest[0] == rec);
                            assert((processed + rest)[processed.len() as int] == rec);
                        },
                        Err(_) => {
                            assert(false);
                        },
                    }
                },
                _ => {
                    assert(false);
                },
            }
        },
        Err(_) => {},
    }
}

/// The error a failed field parse surfaces as.
fn parse_error() -> (r: HwpError)
    ensures
        r is ParseError,
{
    HwpError::ParseError { offset: 0, message: String::from_str("record field parsing failed") }
}

/// Parse the document information from an already-positioned reader;
/// kept for callers that manage the stream themselves, it reads nothing
/// and yields the empty tables.
pub fn parse_doc_info_legacy(_reader: &mut ByteReader) -> (r: HwpResult<DocInfo>)
    ensures
        r matches Ok(d) && doc_info_is_empty(d),
{
    Ok(DocInfo::default())
}

} // verus!
