//! The record decoder: a restartable sequence of framed records over a
//! byte buffer, with context-sensitive validation and opt-in recovery.

use vstd::prelude::*;
use crate::bytes_le::{le16, le32};
use crate::errors::{HwpError, HwpResult};
use crate::models::record::{
    Record,
    RecordHeader,
    header_tag,
    header_level,
    header_size,
    header_has_extended_size,
};
use crate::reader::{ByteReader, units_before_null, utf16_decode};
use vstd::string::StringExecFns;
use crate::validator::{
    DefaultRecordValidator,
    RecordContext,
    find_next_valid_record,
    find_resync,
    size_acceptable,
    tag_acceptable,
};

verus! {

/// The mathematical image of one decoded record.
pub ghost struct RecordView {
    pub tag_id: u16,
    pub level: u8,
    pub size: u32,
    pub data: Seq<u8>,
}

/// How one decode attempt can end.
pub ghost enum ParseStep {
    /// Clean end of the stream, including a trailing partial header.
    Finished,
    /// A record was decoded; `next` is the position after it.
    Parsed { rec: RecordView, next: int },
    /// The attempt failed; `at` is the position the decoder stops at.
    Failed { kind: FailKind, at: int },
}

/// Why a decode attempt failed.
pub ghost enum FailKind {
    /// The tag is not acceptable in the active context.
    BadTag,
    /// The size violates the global maximum or a tag-specific minimum.
    BadSize,
    /// The payload (or the extended size field) runs past the buffer.
    Underflow,
}

/// What decoding one record at `pos` of `data` yields.
pub open spec fn next_record_spec(
    data: Seq<u8>,
    pos: int,
    context: RecordContext,
    allow_unknown: bool,
    max_size: u32,
) -> ParseStep {
    if pos < 0 || pos + 4 > data.len() {
        ParseStep::Finished
    } else {
        let hv = le32(data, pos) as u32;
        if !tag_acceptable(header_tag(hv), context, allow_unknown) {
            ParseStep::Failed { kind: FailKind::BadTag, at: pos + 4 }
        } else if header_has_extended_size(hv) && pos + 8 > data.len() {
            ParseStep::Failed { kind: FailKind::Underflow, at: pos + 4 }
        } else {
            let size = if header_has_extended_size(hv) {
                le32(data, pos + 4) as u32
            } else {
                header_size(hv)
            };
            let hlen: int = if header_has_extended_size(hv) {
                8
            } else {
                4
            };
            if !size_acceptable(size, header_tag(hv), max_size) {
                ParseStep::Failed { kind: FailKind::BadSize, at: pos + hlen }
            } else if size > data.len() - pos - hlen {
                ParseStep::Failed { kind: FailKind::Underflow, at: pos + hlen }
            } else {
                ParseStep::Parsed {
                    rec: RecordView {
                        tag_id: header_tag(hv),
                        level: header_level(hv),
                        size,
                        data: data.subrange(pos + hlen, pos + hlen + size),
                    },
                    next: pos + hlen + size,
                }
            }
        }
    }
}

/// A parsed step never stands still and never runs past the buffer.
pub proof fn lemma_step_bounds(
    data: Seq<u8>,
    pos: int,
    context: RecordContext,
    allow_unknown: bool,
    max_size: u32,
)
    requires
        0 <= pos,
    ensures
        match next_record_spec(data, pos, context, allow_unknown, max_size) {
            ParseStep::Finished => true,
            ParseStep::Parsed { rec, next } => pos + 4 <= next <= data.len(),
            ParseStep::Failed { kind, at } => pos + 4 <= at <= data.len(),
        },
{
}

/// A recovery counter after one more recovery; it saturates at the top
/// of its type, which a real stream cannot reach.
pub open spec fn bump(n: int) -> int {
    if n < usize::MAX {
        n + 1
    } else {
        n
    }
}

/// The mathematical image of an exec record.
pub open spec fn record_view_of(r: Record) -> RecordView {
    RecordView { tag_id: r.tag_id, level: r.level, size: r.size, data: r.data@ }
}

/// The mathematical image of an exec record sequence.
pub open spec fn recs_views(rs: Seq<Record>) -> Seq<RecordView> {
    rs.map_values(|r: Record| record_view_of(r))
}

/// An exec record carries exactly a record view.
pub open spec fn record_matches(record: Record, rv: RecordView) -> bool {
    &&& record.tag_id == rv.tag_id
    &&& record.level == rv.level
    &&& record.size == rv.size
    &&& record.data@ == rv.data
}

/// The error variant each failure kind surfaces as.
pub open spec fn fail_surfaces_as(kind: FailKind, e: HwpError) -> bool {
    match kind {
        FailKind::BadTag => e is ValidationError,
        FailKind::BadSize => e is ValidationError,
        FailKind::Underflow => e is BufferUnderflow,
    }
}

/// Whether a decode result and final position reflect a parse step that
/// started at `start`.
pub open spec fn reflects_step(
    step: ParseStep,
    r: HwpResult<Option<Record>>,
    start: int,
    at: int,
) -> bool {
    match step {
        ParseStep::Finished => match r {
            Ok(opt) => opt is None && at == start,
            Err(_) => false,
        },
        ParseStep::Parsed { rec, next } => match r {
            Ok(opt) => match opt {
                Some(record) => record_matches(record, rec) && at == next,
                None => false,
            },
            Err(_) => false,
        },
        ParseStep::Failed { kind, at: fail_at } => match r {
            Ok(_) => false,
            Err(e) => fail_surfaces_as(kind, e) && at == fail_at,
        },
    }
}

/// One decode attempt with recovery folded in: a failure scans forward
/// for a plausible header and retries once from there; finding none is a
/// clean end.
pub open spec fn effective_step(
    data: Seq<u8>,
    pos: int,
    context: RecordContext,
    allow_unknown: bool,
    max_size: u32,
    recovery: bool,
) -> ParseStep {
    let step = next_record_spec(data, pos, context, allow_unknown, max_size);
    match step {
        ParseStep::Failed { kind, at } => if recovery {
            match find_resync(data, at, context, allow_unknown) {
                Some(p) => next_record_spec(data, p, context, allow_unknown, max_size),
                None => ParseStep::Finished,
            }
        } else {
            step
        },
        _ => step,
    }
}

/// A resynchronisation point lies at or after the scan start and leaves
/// room for a header.
pub proof fn lemma_find_resync_bounds(
    data: Seq<u8>,
    pos: int,
    context: RecordContext,
    allow_unknown: bool,
)
    requires
        0 <= pos,
    ensures
        match find_resync(data, pos, context, allow_unknown) {
            Some(p) => pos <= p && p + 4 <= data.len(),
            None => true,
        },
    decreases data.len() - pos,
{
    if pos + 4 > data.len() {
    } else if resync_candidate_holds(data, pos, context, allow_unknown) {
    } else {
        lemma_find_resync_bounds(data, pos + 1, context, allow_unknown);
    }
}

/// Local alias so the recursion above can branch as the definition does.
spec fn resync_candidate_holds(
    data: Seq<u8>,
    pos: int,
    context: RecordContext,
    allow_unknown: bool,
) -> bool {
    crate::validator::resync_candidate(data, pos, context, allow_unknown)
}

/// An effective step that parses moves strictly forward and stays inside
/// the buffer.
pub proof fn lemma_effective_step_bounds(
    data: Seq<u8>,
    pos: int,
    context: RecordContext,
    allow_unknown: bool,
    max_size: u32,
    recovery: bool,
)
    requires
        0 <= pos,
    ensures
        match effective_step(data, pos, context, allow_unknown, max_size, recovery) {
            ParseStep::Finished => true,
            ParseStep::Parsed { rec, next } => pos < next <= data.len(),
            ParseStep::Failed { kind, at } => pos < at <= data.len(),
        },
{
    lemma_step_bounds(data, pos, context, allow_unknown, max_size);
    match next_record_spec(data, pos, context, allow_unknown, max_size) {
        ParseStep::Failed { kind, at } => {
            if recovery {
                lemma_find_resync_bounds(data, at, context, allow_unknown);
                match find_resync(data, at, context, allow_unknown) {
                    Some(p) => {
                        lemma_step_bounds(data, p, context, allow_unknown, max_size);
                    },
                    None => {},
                }
            }
        },
        _ => {},
    }
}

/// The record sequence decoded from `pos` to the end of `data`, or the
/// failure that stops it.
pub open spec fn parse_records_spec(
    data: Seq<u8>,
    pos: int,
    context: RecordContext,
    allow_unknown: bool,
    max_size: u32,
    recovery: bool,
) -> Result<Seq<RecordView>, FailKind>
    decreases data.len() - pos + 1,
{
    match effective_step(data, pos, context, allow_unknown, max_size, recovery) {
        ParseStep::Finished => Ok(Seq::<RecordView>::empty()),
        ParseStep::Parsed { rec, next } => if pos < next <= data.len() {
            match parse_records_spec(data, next, context, allow_unknown, max_size, recovery) {
                Ok(rest) => Ok(seq![rec] + rest),
                Err(k) => Err(k),
            }
        } else {
            Ok(Seq::<RecordView>::empty())
        },
        ParseStep::Failed { kind, at } => Err(kind),
    }
}


/// The record sequence decoded up to and including the first record
/// carrying `target`, or the failure that stops it.
pub open spec fn parse_until_spec(
    data: Seq<u8>,
    pos: int,
    context: RecordContext,
    allow_unknown: bool,
    max_size: u32,
    recovery: bool,
    target: u16,
) -> Result<Seq<RecordView>, FailKind>
    decreases data.len() - pos + 1,
{
    match effective_step(data, pos, context, allow_unknown, max_size, recovery) {
        ParseStep::Finished => Ok(Seq::<RecordView>::empty()),
        ParseStep::Parsed { rec, next } => if rec.tag_id == target {
            Ok(seq![rec])
        } else if pos < next <= data.len() {
            match parse_until_spec(data, next, context, allow_unknown, max_size, recovery, target) {
                Ok(rest) => Ok(seq![rec] + rest),
                Err(k) => Err(k),
            }
        } else {
            Ok(Seq::<RecordView>::empty())
        },
        ParseStep::Failed { kind, at } => Err(kind),
    }
}

/// One step of the varint scan: `Short` when the buffer ends inside the
/// number, `TooLong` when a fifth continuation bit appears.
pub ghost enum VarintOut {
    Val { v: u32, end: int },
    TooLong { end: int },
    Short,
}

/// The little-endian base-128 varint read at `pos`, with `shift` bits
/// already consumed into `acc`.
pub open spec fn varint_spec(s: Seq<u8>, pos: int, shift: nat, acc: u32) -> VarintOut
    decreases 32 - shift,
{
    if pos < 0 || pos >= s.len() {
        VarintOut::Short
    } else {
        let b = s[pos];
        let acc2 = (acc | (((b & 0x7F) as u32) << shift)) as u32;
        if b & 0x80 == 0 {
            VarintOut::Val { v: acc2, end: pos + 1 }
        } else if shift + 7 >= 32 {
            VarintOut::TooLong { end: pos + 1 }
        } else {
            varint_spec(s, pos + 1, shift + 7, acc2)
        }
    }
}

/// The record decoder for the tag/level/size format.
pub struct RecordParser<'a> {
    reader: ByteReader<'a>,
    validator: DefaultRecordValidator,
    context: RecordContext,
    enable_recovery: bool,
    recovery_count: usize,
}

impl<'a> RecordParser<'a> {
    /// The stream being decoded.
    pub closed spec fn bytes(&self) -> Seq<u8> {
        self.reader.bytes()
    }

    /// The current decode position.
    pub closed spec fn at(&self) -> int {
        self.reader.at()
    }

    /// The active tag vocabulary.
    pub closed spec fn ctx(&self) -> RecordContext {
        self.context
    }

    /// Whether unknown tags are tolerated.
    pub closed spec fn allow_unknown(&self) -> bool {
        self.validator.allow_unknown_tags
    }

    /// The size cap records are held to.
    pub closed spec fn max_size(&self) -> u32 {
        self.validator.max_record_size
    }

    /// Whether recovery mode is on.
    pub closed spec fn recovery_on(&self) -> bool {
        self.enable_recovery
    }

    /// How many recoveries have happened.
    pub closed spec fn recoveries(&self) -> int {
        self.recovery_count as int
    }

    pub closed spec fn wf(&self) -> bool {
        self.reader.wf()
    }

    /// The decoder configuration other than the position.
    pub open spec fn same_config(&self, other: &Self) -> bool {
        &&& self.bytes() == other.bytes()
        &&& self.ctx() == other.ctx()
        &&& self.allow_unknown() == other.allow_unknown()
        &&& self.max_size() == other.max_size()
        &&& self.recovery_on() == other.recovery_on()
    }

    /// Create a strict decoder without a context.
    pub fn new(data: &'a [u8]) -> (r: Self)
        ensures
            r.wf(),
            r.bytes() == data@,
            r.at() == 0,
            r.ctx() == RecordContext::Unknown,
            !r.allow_unknown(),
            r.max_size() == 0x6400000u32,
            !r.recovery_on(),
            r.recoveries() == 0,
    {
        RecordParser {
            reader: ByteReader::new(data),
            validator: DefaultRecordValidator::default(),
            context: RecordContext::Unknown,
            enable_recovery: false,
            recovery_count: 0,
        }
    }

    /// Create a strict decoder for a known context.
    pub fn new_with_context(data: &'a [u8], context: RecordContext) -> (r: Self)
        ensures
            r.wf(),
            r.bytes() == data@,
            r.at() == 0,
            r.ctx() == context,
            !r.allow_unknown(),
            r.max_size() == 0x6400000u32,
            !r.recovery_on(),
            r.recoveries() == 0,
    {
        RecordParser {
            reader: ByteReader::new(data),
            validator: DefaultRecordValidator::default(),
            context,
            enable_recovery: false,
            recovery_count: 0,
        }
    }

    /// Create a decoder over an existing reader, keeping its position.
    pub fn from_reader(reader: ByteReader<'a>) -> (r: Self)
        requires
            reader.wf(),
        ensures
            r.wf(),
            r.bytes() == reader.bytes(),
            r.at() == reader.at(),
            r.ctx() == RecordContext::Unknown,
            !r.allow_unknown(),
            r.max_size() == 0x6400000u32,
            !r.recovery_on(),
            r.recoveries() == 0,
    {
        RecordParser {
            reader,
            validator: DefaultRecordValidator::default(),
            context: RecordContext::Unknown,
            enable_recovery: false,
            recovery_count: 0,
        }
    }

    /// Switch error recovery on or off.
    pub fn enable_recovery(&mut self, enable: bool)
        requires
            old(self).wf(),
        ensures
            final(self).wf(),
            final(self).recovery_on() == enable,
            final(self).bytes() == old(self).bytes(),
            final(self).at() == old(self).at(),
            final(self).ctx() == old(self).ctx(),
            final(self).allow_unknown() == old(self).allow_unknown(),
            final(self).max_size() == old(self).max_size(),
            final(self).recoveries() == old(self).recoveries(),
    {
        self.enable_recovery = enable;
    }

    /// The number of recovered errors so far.
    pub fn recovery_count(&self) -> (r: usize)
        ensures
            r == self.recoveries(),
    {
        self.recovery_count
    }

    /// Set the validation context.
    pub fn set_context(&mut self, context: RecordContext)
        requires
            old(self).wf(),
        ensures
            final(self).wf(),
            final(self).ctx() == context,
            final(self).bytes() == old(self).bytes(),
            final(self).at() == old(self).at(),
            final(self).allow_unknown() == old(self).allow_unknown(),
            final(self).max_size() == old(self).max_size(),
            final(self).recovery_on() == old(self).recovery_on(),
            final(self).recoveries() == old(self).recoveries(),
    {
        self.context = context;
    }

    /// Replace the validator settings.
    pub fn set_validator(&mut self, validator: DefaultRecordValidator)
        requires
            old(self).wf(),
        ensures
            final(self).wf(),
            final(self).allow_unknown() == validator.allow_unknown_tags,
            final(self).max_size() == validator.max_record_size,
            final(self).bytes() == old(self).bytes(),
            final(self).at() == old(self).at(),
            final(self).ctx() == old(self).ctx(),
            final(self).recovery_on() == old(self).recovery_on(),
            final(self).recoveries() == old(self).recoveries(),
    {
        self.validator = validator;
    }

    /// The current position in the stream.
    pub fn position(&self) -> (r: usize)
        ensures
            r == self.at(),
    {
        self.reader.position()
    }

    /// The remaining bytes in the stream.
    pub fn remaining(&self) -> (r: usize)
        requires
            self.wf(),
        ensures
            r == self.bytes().len() - self.at(),
    {
        self.reader.remaining()
    }

    /// Whether the end of the stream is reached.
    pub fn is_eof(&self) -> (r: bool)
        requires
            self.wf(),
        ensures
            r == (self.at() == self.bytes().len()),
    {
        self.reader.is_eof()
    }

    /// Decode one record without recovery.
    fn parse_next_record_internal(&mut self) -> (r: HwpResult<Option<Record>>)
        requires
            old(self).wf(),
        ensures
            final(self).wf(),
            final(self).same_config(old(self)),
            final(self).recoveries() == old(self).recoveries(),
            reflects_step(
                next_record_spec(
                    old(self).bytes(),
                    old(self).at(),
                    old(self).ctx(),
                    old(self).allow_unknown(),
                    old(self).max_size(),
                ),
                r,
                old(self).at(),
                final(self).at(),
            ),
    {
        let ghost b = self.bytes();
        let ghost p0 = self.at();
        if self.reader.is_eof() {
            return Ok(None);
        }
        if self.reader.remaining() < 4 {
            // A trailing partial header is benign padding.
            return Ok(None);
        }
        let hv = match self.reader.read_u32() {
            Ok(v) => v,
            Err(_) => {
                proof {
                    assert(false);
                }
                0
            },
        };
        let header = RecordHeader { value: hv };
        if !self.validator.validate_tag_id(header.tag_id(), self.context) {
            return Err(
                HwpError::ValidationError {
                    message: String::from_str("Invalid tag ID for this context"),
                },
            );
        }
        let extended = header.has_extended_size();
        let size: u32 = if extended {
            match self.reader.read_u32() {
                Ok(v) => v,
                Err(e) => {
                    return Err(e);
                },
            }
        } else {
            header.size()
        };
        match self.validator.validate_size(size, header.tag_id()) {
            Ok(_) => {},
            Err(e) => {
                return Err(e);
            },
        }
        let remaining = self.reader.remaining();
        if size as usize > remaining {
            return Err(
                HwpError::BufferUnderflow { requested: size as usize, available: remaining },
            );
        }
        let data = match self.reader.read_bytes(size as usize) {
            Ok(v) => v,
            Err(_) => {
                proof {
                    assert(false);
                }
                Vec::new()
            },
        };
        Ok(Some(Record::new(header.tag_id(), header.level(), size, data)))
    }

    /// Decode one record; when recovery is on, a failure scans forward
    /// for the next plausible header and retries once from there.
    pub fn parse_next_record(&mut self) -> (r: HwpResult<Option<Record>>)
        requires
            old(self).wf(),
        ensures
            final(self).wf(),
            final(self).same_config(old(self)),
            ({
                let step = next_record_spec(
                    old(self).bytes(),
                    old(self).at(),
                    old(self).ctx(),
                    old(self).allow_unknown(),
                    old(self).max_size(),
                );
                match step {
                    ParseStep::Failed { kind, at } => if old(self).recovery_on() {
                        match find_resync(
                            old(self).bytes(),
                            at,
                            old(self).ctx(),
                            old(self).allow_unknown(),
                        ) {
                            Some(p) => final(self).recoveries() == bump(old(self).recoveries())
                                && reflects_step(
                                next_record_spec(
                                    old(self).bytes(),
                                    p,
                                    old(self).ctx(),
                                    old(self).allow_unknown(),
                                    old(self).max_size(),
                                ),
                                r,
                                p,
                                final(self).at(),
                            ),
                            None => (match r {
                                Ok(opt) => opt is None,
                                Err(_) => false,
                            }) && final(self).recoveries() == old(self).recoveries(),
                        }
                    } else {
                        reflects_step(step, r, old(self).at(), final(self).at()) && final(self).recoveries() == old(self).recoveries()
                    },
                    _ => reflects_step(step, r, old(self).at(), final(self).at()) && final(self).recoveries() == old(self).recoveries(),
                }
            }),
    {
        let result = self.parse_next_record_internal();
        let failed = match &result {
            Ok(_) => false,
            Err(_) => true,
        };
        if self.enable_recovery && failed {
            return self.try_recover();
        }
        result
    }

    /// Scan forward for the next plausible record header and decode once
    /// from there; finding none is a clean end of the stream.
    fn try_recover(&mut self) -> (r: HwpResult<Option<Record>>)
        requires
            old(self).wf(),
        ensures
            final(self).wf(),
            final(self).same_config(old(self)),
            match find_resync(
                old(self).bytes(),
                old(self).at(),
                old(self).ctx(),
                old(self).allow_unknown(),
            ) {
                Some(p) => final(self).recoveries() == bump(old(self).recoveries()) && reflects_step(
                    next_record_spec(
                        old(self).bytes(),
                        p,
                        old(self).ctx(),
                        old(self).allow_unknown(),
                        old(self).max_size(),
                    ),
                    r,
                    p,
                    final(self).at(),
                ),
                None => (match r {
                    Ok(opt) => opt is None,
                    Err(_) => false,
                }) && final(self).recoveries() == old(self).recoveries(),
            },
    {
        match find_next_valid_record(&self.reader, &self.validator, self.context) {
            Some((new_pos, _header)) => {
                proof {
                    lemma_find_resync_bounds(
                        self.bytes(),
                        self.at(),
                        self.ctx(),
                        self.allow_unknown(),
                    );
                }
                match self.reader.seek(new_pos) {
                    Ok(_) => {},
                    Err(_) => {
                        proof {
                            assert(false);
                        }
                    },
                }
                if self.recovery_count < usize::MAX {
                    self.recovery_count = self.recovery_count + 1;
                }
                self.parse_next_record_internal()
            },
            None => Ok(None),
        }
    }


    /// Decode records until one carries `target_tag`, inclusive.
    pub fn parse_until_tag(&mut self, target_tag: u16) -> (r: HwpResult<Vec<Record>>)
        requires
            old(self).wf(),
        ensures
            final(self).wf(),
            final(self).same_config(old(self)),
            match parse_until_spec(
                old(self).bytes(),
                old(self).at(),
                old(self).ctx(),
                old(self).allow_unknown(),
                old(self).max_size(),
                old(self).recovery_on(),
                target_tag,
            ) {
                Ok(rvs) => r matches Ok(records) && recs_views(records@) == rvs,
                Err(kind) => r matches Err(e) && fail_surfaces_as(kind, e),
            },
    {
        let ghost b = self.bytes();
        let ghost ctx = self.ctx();
        let ghost allow = self.allow_unknown();
        let ghost maxs = self.max_size();
        let ghost rec_on = self.recovery_on();
        let ghost p0 = self.at();
        let mut records: Vec<Record> = Vec::new();
        proof {
            assert(recs_views(records@) =~= Seq::<RecordView>::empty());
        }
        loop
            invariant
                self.wf(),
                b == old(self).bytes(),
                ctx == old(self).ctx(),
                allow == old(self).allow_unknown(),
                maxs == old(self).max_size(),
                rec_on == old(self).recovery_on(),
                p0 == old(self).at(),
                self.bytes() == b,
                self.ctx() == ctx,
                self.allow_unknown() == allow,
                self.max_size() == maxs,
                self.recovery_on() == rec_on,
                0 <= self.at() <= b.len(),
                match parse_until_spec(b, self.at(), ctx, allow, maxs, rec_on, target_tag) {
                    Ok(rest) => parse_until_spec(b, p0, ctx, allow, maxs, rec_on, target_tag)
                        == Ok::<Seq<RecordView>, FailKind>(recs_views(records@) + rest),
                    Err(k) => parse_until_spec(b, p0, ctx, allow, maxs, rec_on, target_tag)
                        == Err::<Seq<RecordView>, FailKind>(k),
                },
            decreases b.len() - self.at() + 1,
        {
            let ghost p = self.at();
            let ghost step = effective_step(b, p, ctx, allow, maxs, rec_on);
            proof {
                lemma_effective_step_bounds(b, p, ctx, allow, maxs, rec_on);
            }
            match self.parse_next_record() {
                Ok(opt) => match opt {
                    Some(record) => {
                        let found = record.tag_id == target_tag;
                        let ghost recs0 = records@;
                        records.push(record);
                        proof {
                            match step {
                                ParseStep::Parsed { rec, next } => {
                                    assert(record_view_of(record) == rec);
                                    assert(recs_views(records@) =~= recs_views(recs0).push(rec));
                                    if rec.tag_id == target_tag {
                                        assert(parse_until_spec(b, p, ctx, allow, maxs, rec_on, target_tag)
                                            == Ok::<Seq<RecordView>, FailKind>(seq![rec]));
                                        assert(recs_views(recs0) + seq![rec] =~= recs_views(records@));
                                    } else {
                                        match parse_until_spec(b, next, ctx, allow, maxs, rec_on, target_tag) {
                                            Ok(rest) => {
                                                assert(parse_until_spec(b, p, ctx, allow, maxs, rec_on, target_tag)
                                                    == Ok::<Seq<RecordView>, FailKind>(seq![rec] + rest));
                                                assert(recs_views(recs0) + (seq![rec] + rest)
                                                    =~= recs_views(records@) + rest);
                                            },
                                            Err(k) => {},
                                        }
                                    }
                                },
                                _ => {
                                    assert(false);
                                },
                            }
                        }
                        if found {
                            return Ok(records);
                        }
                    },
                    None => {
                        proof {
                            assert(recs_views(records@) + Seq::<RecordView>::empty() =~= recs_views(
                                records@,
                            ));
                        }
                        return Ok(records);
                    },
                },
                Err(e) => {
                    return Err(e);
                },
            }
        }
    }

    /// Decode all remaining records.
    pub fn parse_all_records(&mut self) -> (r: HwpResult<Vec<Record>>)
        requires
            old(self).wf(),
        ensures
            final(self).wf(),
            final(self).same_config(old(self)),
            match parse_records_spec(
                old(self).bytes(),
                old(self).at(),
                old(self).ctx(),
                old(self).allow_unknown(),
                old(self).max_size(),
                old(self).recovery_on(),
            ) {
                Ok(rvs) => r matches Ok(records) && recs_views(records@) == rvs,
                Err(kind) => r matches Err(e) && fail_surfaces_as(kind, e),
            },
    {
        let ghost b = self.bytes();
        let ghost ctx = self.ctx();
        let ghost allow = self.allow_unknown();
        let ghost maxs = self.max_size();
        let ghost rec_on = self.recovery_on();
        let ghost p0 = self.at();
        let mut records: Vec<Record> = Vec::new();
        proof {
            assert(recs_views(records@) =~= Seq::<RecordView>::empty());
        }
        loop
            invariant
                self.wf(),
                b == old(self).bytes(),
                ctx == old(self).ctx(),
                allow == old(self).allow_unknown(),
                maxs == old(self).max_size(),
                rec_on == old(self).recovery_on(),
                p0 == old(self).at(),
                self.bytes() == b,
                self.ctx() == ctx,
                self.allow_unknown() == allow,
                self.max_size() == maxs,
                self.recovery_on() == rec_on,
                0 <= self.at() <= b.len(),
                match parse_records_spec(b, self.at(), ctx, allow, maxs, rec_on) {
                    Ok(rest) => parse_records_spec(b, p0, ctx, allow, maxs, rec_on) == Ok::<
                        Seq<RecordView>,
                        FailKind,
                    >(recs_views(records@) + rest),
                    Err(k) => parse_records_spec(b, p0, ctx, allow, maxs, rec_on) == Err::<
                        Seq<RecordView>,
                        FailKind,
                    >(k),
                },
            decreases b.len() - self.at() + 1,
        {
            let ghost p = self.at();
            let ghost step = effective_step(b, p, ctx, allow, maxs, rec_on);
            proof {
                lemma_effective_step_bounds(b, p, ctx, allow, maxs, rec_on);
            }
            match self.parse_next_record() {
                Ok(opt) => match opt {
                    Some(record) => {
                        let ghost recs0 = records@;
                        records.push(record);
                        proof {
                            match step {
                                ParseStep::Parsed { rec, next } => {
                                    assert(record_matches(record, rec));
                                    assert(record_view_of(record) == rec);
                                    assert(recs_views(records@) =~= recs_views(recs0).push(rec));
                                    match parse_records_spec(b, next, ctx, allow, maxs, rec_on) {
                                        Ok(rest) => {
                                            assert(parse_records_spec(b, p, ctx, allow, maxs, rec_on)
                                                == Ok::<Seq<RecordView>, FailKind>(seq![rec] + rest));
                                            assert(recs_views(recs0) + (seq![rec] + rest)
                                                =~= recs_views(records@) + rest);
                                        },
                                        Err(k) => {
                                            assert(parse_records_spec(b, p, ctx, allow, maxs, rec_on)
                                                == Err::<Seq<RecordView>, FailKind>(k));
                                        },
                                    }
                                },
                                _ => {
                                    assert(false);
                                },
                            }
                        }
                    },
                    None => {
                        proof {
                            assert(step is Finished);
                            assert(parse_records_spec(b, p, ctx, allow, maxs, rec_on) == Ok::<
                                Seq<RecordView>,
                                FailKind,
                            >(Seq::<RecordView>::empty()));
                            assert(recs_views(records@) + Seq::<RecordView>::empty() =~= recs_views(
                                records@,
                            ));
                        }
                        return Ok(records);
                    },
                },
                Err(e) => {
                    proof {
                        match step {
                            ParseStep::Failed { kind, at } => {
                                assert(fail_surfaces_as(kind, e));
                            },
                            _ => {
                                assert(false);
                            },
                        }
                    }
                    return Err(e);
                },
            }
        }
    }
}

/// A reader over one record's payload, with helpers for the length-
/// prefixed string and variable-length integer encodings.
pub struct RecordDataParser<'a> {
    reader: ByteReader<'a>,
}

impl<'a> RecordDataParser<'a> {
    /// The payload being read.
    pub closed spec fn bytes(&self) -> Seq<u8> {
        self.reader.bytes()
    }

    /// The current read position.
    pub closed spec fn at(&self) -> int {
        self.reader.at()
    }

    pub closed spec fn wf(&self) -> bool {
        self.reader.wf()
    }

    /// Create a parser over a payload.
    pub fn new(data: &'a [u8]) -> (r: Self)
        ensures
            r.wf(),
            r.bytes() == data@,
            r.at() == 0,
    {
        RecordDataParser { reader: ByteReader::new(data) }
    }

    /// Create a parser over a record's payload.
    pub fn from_record(record: &'a Record) -> (r: Self)
        ensures
            r.wf(),
            r.bytes() == record.data@,
            r.at() == 0,
    {
        RecordDataParser { reader: ByteReader::new(record.data.as_slice()) }
    }

    /// Read a variable-length base-128 integer.
    pub fn read_varint(&mut self) -> (r: HwpResult<u32>)
        requires
            old(self).wf(),
        ensures
            final(self).wf(),
            final(self).bytes() == old(self).bytes(),
            match varint_spec(old(self).bytes(), old(self).at(), 0, 0) {
                VarintOut::Val { v, end } => r matches Ok(value) && value == v && final(self).at()
                    == end,
                VarintOut::TooLong { end } => (r matches Err(e) && e is ParseError) && final(self).at() == end,
                VarintOut::Short => (r matches Err(e) && e is BufferUnderflow) && final(self).at()
                    == final(self).bytes().len(),
            },
    {
        let ghost b = self.bytes();
        let ghost p0 = self.at();
        let mut result: u32 = 0;
        let mut shift: u32 = 0;
        loop
            invariant
                self.wf(),
                b == old(self).bytes(),
                self.bytes() == b,
                p0 == old(self).at(),
                0 <= self.at() <= b.len(),
                shift <= 28,
                shift % 7 == 0,
                varint_spec(b, p0, 0, 0) == varint_spec(b, self.at(), shift as nat, result),
            decreases 32 - shift,
        {
            let ghost p = self.at();
            let byte = match self.reader.read_u8() {
                Ok(v) => v,
                Err(e) => {
                    return Err(e);
                },
            };
            proof {
                assert((((byte & 0x7F) as u32) << shift) <= 0xFFFF_FFFFu32 && (result | (((byte
                    & 0x7F) as u32) << shift)) >= 0) by (bit_vector);
            }
            result = result | ((byte & 0x7F) as u32) << shift;
            if byte & 0x80 == 0 {
                return Ok(result);
            }
            shift = shift + 7;
            if shift >= 32 {
                return Err(
                    HwpError::ParseError {
                        offset: 0,
                        message: String::from_str("variable integer too long"),
                    },
                );
            }
        }
    }

    /// Read a length-prefixed UTF-16LE string: a 16-bit character count
    /// followed by that many code units.
    pub fn read_hwp_string(&mut self) -> (r: HwpResult<String>)
        requires
            old(self).wf(),
        ensures
            final(self).wf(),
            final(self).bytes() == old(self).bytes(),
            ({
                let b = old(self).bytes();
                let p = old(self).at();
                if p + 2 <= b.len() {
                    ({
                        let n = le16(b, p) as int;
                        if n == 0 {
                            (r matches Ok(s) && s@ == Seq::<char>::empty()) && final(self).at() == p
                                + 2
                        } else if 2 * n <= b.len() - p - 2 {
                            let units = Seq::new(n as nat, |i: int| le16(b, p + 2 + 2 * i) as u16);
                            &&& final(self).at() == p + 2 + 2 * n
                            &&& match utf16_decode(units_before_null(units)) {
                                Some(cs) => r matches Ok(s) && s@ == cs,
                                None => r matches Err(e) && e is EncodingError,
                            }
                        } else {
                            (r matches Err(e) && e is BufferUnderflow) && final(self).at() == p + 2
                        }
                    })
                } else {
                    (r matches Err(e) && e is BufferUnderflow) && final(self).at() == p
                }
            }),
    {
        let length = match self.reader.read_u16() {
            Ok(v) => v,
            Err(e) => {
                return Err(e);
            },
        };
        if length == 0 {
            proof {
                vstd::string::axiom_str_literal_len("");
            }
            return Ok(String::new());
        }
        self.reader.read_utf16_string_n(length as usize)
    }

    /// Read a UTF-16LE string of exactly `char_count` code units.
    pub fn read_hwp_string_n(&mut self, char_count: usize) -> (r: HwpResult<String>)
        requires
            old(self).wf(),
            2 * char_count <= usize::MAX,
        ensures
            final(self).wf(),
            final(self).bytes() == old(self).bytes(),
            if 2 * char_count <= old(self).bytes().len() - old(self).at() {
                let units = Seq::new(
                    char_count as nat,
                    |i: int| le16(old(self).bytes(), old(self).at() + 2 * i) as u16,
                );
                &&& final(self).at() == old(self).at() + 2 * char_count
                &&& match utf16_decode(units_before_null(units)) {
                    Some(cs) => r matches Ok(s) && s@ == cs,
                    None => r matches Err(e) && e is EncodingError,
                }
            } else {
                (r matches Err(e) && e is BufferUnderflow) && final(self).at() == old(self).at()
            },
    {
        self.reader.read_utf16_string_n(char_count)
    }

    /// Whether payload bytes remain.
    pub fn has_more_data(&self) -> (r: bool)
        requires
            self.wf(),
        ensures
            r == (self.at() < self.bytes().len()),
    {
        !self.reader.is_eof()
    }

    /// The remaining payload bytes.
    pub fn remaining(&self) -> (r: usize)
        requires
            self.wf(),
        ensures
            r == self.bytes().len() - self.at(),
    {
        self.reader.remaining()
    }

    /// Skip n bytes forward.
    pub fn skip(&mut self, n: usize) -> (r: HwpResult<()>)
        requires
            old(self).wf(),
        ensures
            final(self).wf(),
            final(self).bytes() == old(self).bytes(),
            if n <= old(self).bytes().len() - old(self).at() {
                r is Ok && final(self).at() == old(self).at() + n
            } else {
                (r matches Err(e) && e is BufferUnderflow) && final(self).at() == old(self).at()
            },
    {
        self.reader.skip(n)
    }
}

} // verus!