//! Bounds-checked little-endian reader over a byte slice.
//!
//! Every read checks the remaining length first and fails with
//! `BufferUnderflow` instead of reading partial data.

use vstd::prelude::*;
use vstd::slice::slice_subrange;
use vstd::string::StringExecFns;
use crate::bytes_le::{le16, le32, le64, u16_from_le, u32_from_le, u64_from_halves};
use crate::errors::{HwpError, HwpResult};

verus! {

/// True of a UTF-16 code unit that is a character on its own.
pub open spec fn is_bmp_unit(u: u16) -> bool {
    u < 0xD800 || u >= 0xE000
}

/// True of the first unit of a surrogate pair.
pub open spec fn is_high_surrogate(u: u16) -> bool {
    0xD800 <= u && u < 0xDC00
}

/// True of the second unit of a surrogate pair.
pub open spec fn is_low_surrogate(u: u16) -> bool {
    0xDC00 <= u && u < 0xE000
}

/// The code point encoded by a surrogate pair.
pub open spec fn surrogate_pair_value(hi: u16, lo: u16) -> int {
    0x10000 + (hi - 0xD800) * 0x400 + (lo - 0xDC00)
}

/// UTF-16 decoding of a whole unit sequence; `None` on a malformed
/// surrogate sequence.
pub open spec fn utf16_decode(units: Seq<u16>) -> Option<Seq<char>>
    decreases units.len(),
{
    if units.len() == 0 {
        Some(Seq::<char>::empty())
    } else if is_bmp_unit(units[0]) {
        match utf16_decode(units.skip(1)) {
            Some(rest) => Some(seq![(units[0] as u32) as char] + rest),
            None => None,
        }
    } else if is_high_surrogate(units[0]) && units.len() >= 2 && is_low_surrogate(units[1]) {
        match utf16_decode(units.skip(2)) {
            Some(rest) => Some(seq![(surrogate_pair_value(units[0], units[1]) as u32) as char] + rest),
            None => None,
        }
    } else {
        None
    }
}

/// The prefix of `units` before the first null unit (all of `units` if
/// none occurs).
pub open spec fn units_before_null(units: Seq<u16>) -> Seq<u16>
    decreases units.len(),
{
    if units.len() == 0 {
        units
    } else if units[0] == 0 {
        Seq::<u16>::empty()
    } else {
        seq![units[0]] + units_before_null(units.skip(1))
    }
}

/// The 16-bit little-endian units stored at `pos`, up to but not
/// including a null unit, stopping early when fewer than two bytes remain.
pub open spec fn cstr_units(s: Seq<u8>, pos: int) -> Seq<u16>
    decreases s.len() - pos,
{
    if pos < 0 || pos + 2 > s.len() || le16(s, pos) == 0 {
        Seq::<u16>::empty()
    } else {
        seq![le16(s, pos) as u16] + cstr_units(s, pos + 2)
    }
}

/// True when the unit scan starting at `pos` ends at a null unit rather
/// than at the end of the buffer.
pub open spec fn cstr_null_terminated(s: Seq<u8>, pos: int) -> bool
    decreases s.len() - pos,
{
    if pos < 0 || pos + 2 > s.len() {
        false
    } else if le16(s, pos) == 0 {
        true
    } else {
        cstr_null_terminated(s, pos + 2)
    }
}

/// The bytes stored at `pos`, up to but not including a null byte; used
/// by the EUC-KR reader. `None` when the buffer ends before a null.
pub open spec fn byte_cstr(s: Seq<u8>, pos: int) -> Option<Seq<u8>>
    decreases s.len() - pos,
{
    if pos < 0 || pos >= s.len() {
        None
    } else if s[pos] == 0 {
        Some(Seq::<u8>::empty())
    } else {
        match byte_cstr(s, pos + 1) {
            Some(rest) => Some(seq![s[pos]] + rest),
            None => None,
        }
    }
}

/// What `encoding_rs::EUC_KR.decode` makes of a byte sequence: the
/// decoded text, or `None` when the call reports malformed input. The
/// call sniffs a leading byte-order mark, so marked bytes decode as the
/// marked Unicode encoding rather than EUC-KR.
pub uninterp spec fn euc_kr_decode(bytes: Seq<u8>) -> Option<Seq<char>>;

/// Relies on `encoding_rs::EUC_KR.decode`: the decoded text is a function
/// of the bytes alone, and the flag reports whether any byte sequence was
/// malformed (in which case replacement characters were substituted).
#[verifier::external_body]
fn euc_kr_decode_call(bytes: &[u8]) -> (r: (String, bool))
    ensures
        r.1 == (euc_kr_decode(bytes@) is None),
        !r.1 ==> euc_kr_decode(bytes@) == Some(r.0@),
{
    let (decoded, _, had_errors) = encoding_rs::EUC_KR.decode(bytes);
    (decoded.into_owned(), had_errors)
}

/// The prefix of `bytes` before the first null byte (all of `bytes` if
/// none occurs).
pub open spec fn bytes_before_null(bytes: Seq<u8>) -> Seq<u8>
    decreases bytes.len(),
{
    if bytes.len() == 0 {
        bytes
    } else if bytes[0] == 0 {
        Seq::<u8>::empty()
    } else {
        seq![bytes[0]] + bytes_before_null(bytes.skip(1))
    }
}

/// `units_before_null` is the prefix up to the first null.
proof fn lemma_units_before_null_take(units: Seq<u16>, idx: int)
    requires
        0 <= idx <= units.len(),
        forall|j: int| 0 <= j < idx ==> units[j] != 0,
        idx < units.len() ==> units[idx] == 0,
    ensures
        units_before_null(units) == units.take(idx),
    decreases idx,
{
    if idx == 0 {
        if units.len() == 0 {
            assert(units_before_null(units) =~= units.take(0));
        } else {
            assert(units_before_null(units) =~= units.take(0));
        }
    } else {
        lemma_units_before_null_take(units.skip(1), idx - 1);
        assert(units.skip(1).take(idx - 1) =~= units.take(idx).skip(1));
        assert(units_before_null(units) == seq![units[0]] + units_before_null(units.skip(1)));
        assert(seq![units[0]] + units.take(idx).skip(1) =~= units.take(idx));
    }
}

/// Same fact for byte sequences.
proof fn lemma_bytes_before_null_take(bytes: Seq<u8>, idx: int)
    requires
        0 <= idx <= bytes.len(),
        forall|j: int| 0 <= j < idx ==> bytes[j] != 0,
        idx < bytes.len() ==> bytes[idx] == 0,
    ensures
        bytes_before_null(bytes) == bytes.take(idx),
    decreases idx,
{
    if idx == 0 {
        assert(bytes_before_null(bytes) =~= bytes.take(0));
    } else {
        lemma_bytes_before_null_take(bytes.skip(1), idx - 1);
        assert(bytes.skip(1).take(idx - 1) =~= bytes.take(idx).skip(1));
        assert(bytes_before_null(bytes) == seq![bytes[0]] + bytes_before_null(bytes.skip(1)));
        assert(seq![bytes[0]] + bytes.take(idx).skip(1) =~= bytes.take(idx));
    }
}

/// Decode a whole sequence of UTF-16 code units into a string; fails on a
/// malformed surrogate sequence.
pub fn utf16_to_string(units: &Vec<u16>) -> (r: HwpResult<String>)
    ensures
        match utf16_decode(units@) {
            Some(cs) => r matches Ok(s) && s@ == cs,
            None => r matches Err(e) && e is EncodingError,
        },
{
    let mut out = String::new();
    let mut i: usize = 0;
    proof {
        assert(units@.skip(0) =~= units@);
        match utf16_decode(units@) {
            Some(cs) => {
                assert(Seq::<char>::empty() + cs =~= cs);
            },
            None => {},
        }
    }
    while i < units.len()
        invariant
            0 <= i <= units@.len(),
            utf16_decode(units@) == match utf16_decode(units@.skip(i as int)) {
                Some(rest) => Some(out@ + rest),
                None => None::<Seq<char>>,
            },
        decreases units@.len() - i,
    {
        let u = units[i];
        let ghost tail = units@.skip(i as int);
        if u < 0xD800 || u >= 0xE000 {
            let c = match char::from_u32(u as u32) {
                Some(c) => c,
                None => {
                    proof {
                        assert(false);
                    }
                    ' '
                },
            };
            let ghost out0 = out@;
            out.push(c);
            proof {
                assert(tail.skip(1) =~= units@.skip(i + 1));
                assert(utf16_decode(tail) == match utf16_decode(units@.skip(i + 1)) {
                    Some(rest) => Some(seq![(u as u32) as char] + rest),
                    None => None::<Seq<char>>,
                });
                vstd::utf8::char_u32_cast(c, u as u32);
                match utf16_decode(units@.skip(i + 1)) {
                    Some(rest) => {
                        assert(out0 + (seq![(u as u32) as char] + rest) =~= out@ + rest);
                    },
                    None => {},
                }
            }
            i = i + 1;
        } else if u < 0xDC00 && i + 1 < units.len() && units[i + 1] >= 0xDC00
            && units[i + 1] < 0xE000 {
            let lo = units[i + 1];
            let cp: u32 = 0x10000 + (u as u32 - 0xD800) * 0x400 + (lo as u32 - 0xDC00);
            let c = match char::from_u32(cp) {
                Some(c) => c,
                None => {
                    proof {
                        assert(false);
                    }
                    ' '
                },
            };
            let ghost out0 = out@;
            out.push(c);
            proof {
                assert(tail.skip(2) =~= units@.skip(i + 2));
                assert(tail.len() >= 2 && tail[0] == u && tail[1] == lo);
                assert(cp == surrogate_pair_value(u, lo));
                assert(utf16_decode(tail) == match utf16_decode(units@.skip(i + 2)) {
                    Some(rest) => Some(seq![(surrogate_pair_value(u, lo) as u32) as char] + rest),
                    None => None::<Seq<char>>,
                });
                vstd::utf8::char_u32_cast(c, cp);
                match utf16_decode(units@.skip(i + 2)) {
                    Some(rest) => {
                        assert(out0 + (seq![(surrogate_pair_value(u, lo) as u32) as char] + rest)
                            =~= out@ + rest);
                    },
                    None => {},
                }
            }
            i = i + 2;
        } else {
            proof {
                assert(utf16_decode(tail) is None);
            }
            return Err(HwpError::EncodingError(String::from_str(
                "invalid UTF-16 surrogate sequence",
            )));
        }
    }
    proof {
        assert(units@.skip(i as int) =~= Seq::<u16>::empty());
        assert(utf16_decode(units@.skip(i as int)) == Some(Seq::<char>::empty()));
        assert(out@ + Seq::<char>::empty() =~= out@);
    }
    Ok(out)
}


/// Lossy UTF-16 decoding: a malformed surrogate becomes the replacement
/// character instead of failing.
pub open spec fn utf16_decode_lossy(units: Seq<u16>) -> Seq<char>
    decreases units.len(),
{
    if units.len() == 0 {
        Seq::<char>::empty()
    } else if is_bmp_unit(units[0]) {
        seq![(units[0] as u32) as char] + utf16_decode_lossy(units.skip(1))
    } else if is_high_surrogate(units[0]) && units.len() >= 2 && is_low_surrogate(units[1]) {
        seq![(surrogate_pair_value(units[0], units[1]) as u32) as char] + utf16_decode_lossy(
            units.skip(2),
        )
    } else {
        seq![(0xFFFDu32) as char] + utf16_decode_lossy(units.skip(1))
    }
}

/// Decode UTF-16 code units, substituting the replacement character for
/// malformed surrogates.
pub fn utf16_to_string_lossy(units: &Vec<u16>) -> (r: String)
    ensures
        r@ == utf16_decode_lossy(units@),
{
    let mut out = String::new();
    let mut i: usize = 0;
    proof {
        assert(units@.skip(0) =~= units@);
        assert(Seq::<char>::empty() + utf16_decode_lossy(units@) =~= utf16_decode_lossy(units@));
    }
    while i < units.len()
        invariant
            0 <= i <= units@.len(),
            utf16_decode_lossy(units@) == out@ + utf16_decode_lossy(units@.skip(i as int)),
        decreases units@.len() - i,
    {
        let u = units[i];
        let ghost tail = units@.skip(i as int);
        if u < 0xD800 || u >= 0xE000 {
            let c = match char::from_u32(u as u32) {
                Some(c) => c,
                None => {
                    proof {
                        assert(false);
                    }
                    ' '
                },
            };
            let ghost out0 = out@;
            out.push(c);
            proof {
                assert(tail.skip(1) =~= units@.skip(i + 1));
                vstd::utf8::char_u32_cast(c, u as u32);
                assert(out0 + (seq![(u as u32) as char] + utf16_decode_lossy(units@.skip(i + 1)))
                    =~= out@ + utf16_decode_lossy(units@.skip(i + 1)));
            }
            i = i + 1;
        } else if u < 0xDC00 && i + 1 < units.len() && units[i + 1] >= 0xDC00 && units[i + 1]
            < 0xE000 {
            let lo = units[i + 1];
            let cp: u32 = 0x10000 + (u as u32 - 0xD800) * 0x400 + (lo as u32 - 0xDC00);
            let c = match char::from_u32(cp) {
                Some(c) => c,
                None => {
                    proof {
                        assert(false);
                    }
                    ' '
                },
            };
            let ghost out0 = out@;
            out.push(c);
            proof {
                assert(tail.skip(2) =~= units@.skip(i + 2));
                assert(tail.len() >= 2 && tail[0] == u && tail[1] == lo);
                assert(cp == surrogate_pair_value(u, lo));
                vstd::utf8::char_u32_cast(c, cp);
                assert(out0 + (seq![(surrogate_pair_value(u, lo) as u32) as char]
                    + utf16_decode_lossy(units@.skip(i + 2))) =~= out@ + utf16_decode_lossy(
                    units@.skip(i + 2),
                ));
            }
            i = i + 2;
        } else {
            let c = match char::from_u32(0xFFFD) {
                Some(c) => c,
                None => {
                    proof {
                        assert(false);
                    }
                    ' '
                },
            };
            let ghost out0 = out@;
            out.push(c);
            proof {
                assert(tail.skip(1) =~= units@.skip(i + 1));
                vstd::utf8::char_u32_cast(c, 0xFFFD);
                assert(out0 + (seq![(0xFFFDu32) as char] + utf16_decode_lossy(units@.skip(i + 1)))
                    =~= out@ + utf16_decode_lossy(units@.skip(i + 1)));
            }
            i = i + 1;
        }
    }
    proof {
        assert(units@.skip(i as int) =~= Seq::<u16>::empty());
        assert(out@ + Seq::<char>::empty() =~= out@);
    }
    out
}

/// A reader for parsing binary record and container data.
pub struct ByteReader<'a> {
    data: &'a [u8],
    pos: usize,
}

impl<'a> ByteReader<'a> {
    /// The whole underlying buffer.
    pub closed spec fn bytes(&self) -> Seq<u8> {
        self.data@
    }

    /// The current read position.
    pub closed spec fn at(&self) -> int {
        self.pos as int
    }

    pub open spec fn wf(&self) -> bool {
        0 <= self.at() <= self.bytes().len()
    }

    pub open spec fn remaining_spec(&self) -> int {
        self.bytes().len() - self.at()
    }

    /// Create a new reader over a byte slice.
    pub fn new(data: &'a [u8]) -> (r: Self)
        ensures
            r.wf(),
            r.bytes() == data@,
            r.at() == 0,
    {
        ByteReader { data, pos: 0 }
    }

    /// Get the current position in the buffer.
    pub fn position(&self) -> (r: usize)
        ensures
            r == self.at(),
    {
        self.pos
    }

    /// Get the remaining bytes available to read.
    pub fn remaining(&self) -> (r: usize)
        requires
            self.wf(),
        ensures
            r == self.remaining_spec(),
    {
        self.data.len() - self.pos
    }

    /// Check whether the end of the buffer is reached.
    pub fn is_eof(&self) -> (r: bool)
        requires
            self.wf(),
        ensures
            r == (self.remaining_spec() == 0),
    {
        self.remaining() == 0
    }

    /// Skip n bytes forward; fails without moving when fewer remain.
    pub fn skip(&mut self, n: usize) -> (r: HwpResult<()>)
        requires
            old(self).wf(),
        ensures
            final(self).wf(),
            final(self).bytes() == old(self).bytes(),
            if n <= old(self).remaining_spec() {
                r is Ok && final(self).at() == old(self).at() + n
            } else {
                r matches Err(HwpError::BufferUnderflow { requested, available })
                    && requested == n && available == old(self).remaining_spec()
                    && final(self).at() == old(self).at()
            },
    {
        if self.remaining() < n {
            return Err(HwpError::BufferUnderflow { requested: n, available: self.remaining() });
        }
        let l = self.data.len();
        proof {
            assert(self.pos + n <= l);
        }
        self.pos = self.pos + n;
        Ok(())
    }

    /// Seek to an absolute position; fails without moving when it lies
    /// past the end of the buffer.
    pub fn seek(&mut self, pos: usize) -> (r: HwpResult<()>)
        requires
            old(self).wf(),
        ensures
            final(self).wf(),
            final(self).bytes() == old(self).bytes(),
            if pos <= old(self).bytes().len() {
                r is Ok && final(self).at() == pos
            } else {
                r matches Err(HwpError::BufferUnderflow { requested, available })
                    && requested == pos && available == old(self).bytes().len()
                    && final(self).at() == old(self).at()
            },
    {
        if pos > self.data.len() {
            return Err(HwpError::BufferUnderflow { requested: pos, available: self.data.len() });
        }
        self.pos = pos;
        Ok(())
    }

    /// Read a single byte.
    pub fn read_u8(&mut self) -> (r: HwpResult<u8>)
        requires
            old(self).wf(),
        ensures
            final(self).wf(),
            final(self).bytes() == old(self).bytes(),
            if old(self).remaining_spec() >= 1 {
                r matches Ok(v) && v == old(self).bytes()[old(self).at()]
                    && final(self).at() == old(self).at() + 1
            } else {
                r matches Err(HwpError::BufferUnderflow { requested, available })
                    && requested == 1 && available == 0 && final(self).at() == old(self).at()
            },
    {
        if self.remaining() < 1 {
            return Err(HwpError::BufferUnderflow { requested: 1, available: self.remaining() });
        }
        let b = self.data[self.pos];
        self.pos = self.pos + 1;
        Ok(b)
    }

    /// Read a signed byte.
    pub fn read_i8(&mut self) -> (r: HwpResult<i8>)
        requires
            old(self).wf(),
        ensures
            final(self).wf(),
            final(self).bytes() == old(self).bytes(),
            if old(self).remaining_spec() >= 1 {
                r matches Ok(v) && v == old(self).bytes()[old(self).at()] as i8
                    && final(self).at() == old(self).at() + 1
            } else {
                r matches Err(HwpError::BufferUnderflow { requested, available })
                    && requested == 1 && available == 0 && final(self).at() == old(self).at()
            },
    {
        match self.read_u8() {
            Ok(b) => Ok(b as i8),
            Err(e) => Err(e),
        }
    }

    /// Read a 16-bit unsigned integer (little-endian).
    pub fn read_u16(&mut self) -> (r: HwpResult<u16>)
        requires
            old(self).wf(),
        ensures
            final(self).wf(),
            final(self).bytes() == old(self).bytes(),
            if old(self).remaining_spec() >= 2 {
                r matches Ok(v) && v == le16(old(self).bytes(), old(self).at())
                    && final(self).at() == old(self).at() + 2
            } else {
                r matches Err(HwpError::BufferUnderflow { requested, available })
                    && requested == 2 && available == old(self).remaining_spec()
                    && final(self).at() == old(self).at()
            },
    {
        if self.remaining() < 2 {
            return Err(HwpError::BufferUnderflow { requested: 2, available: self.remaining() });
        }
        let v = u16_from_le(self.data[self.pos], self.data[self.pos + 1]);
        self.pos = self.pos + 2;
        Ok(v)
    }

    /// Read a 16-bit signed integer (little-endian).
    pub fn read_i16(&mut self) -> (r: HwpResult<i16>)
        requires
            old(self).wf(),
        ensures
            final(self).wf(),
            final(self).bytes() == old(self).bytes(),
            if old(self).remaining_spec() >= 2 {
                r matches Ok(v) && v == le16(old(self).bytes(), old(self).at()) as u16 as i16
                    && final(self).at() == old(self).at() + 2
            } else {
                r matches Err(HwpError::BufferUnderflow { requested, available })
                    && requested == 2 && available == old(self).remaining_spec()
                    && final(self).at() == old(self).at()
            },
    {
        match self.read_u16() {
            Ok(v) => Ok(v as i16),
            Err(e) => Err(e),
        }
    }

    /// Read a 32-bit unsigned integer (little-endian).
    pub fn read_u32(&mut self) -> (r: HwpResult<u32>)
        requires
            old(self).wf(),
        ensures
            final(self).wf(),
            final(self).bytes() == old(self).bytes(),
            if old(self).remaining_spec() >= 4 {
                r matches Ok(v) && v == le32(old(self).bytes(), old(self).at())
                    && final(self).at() == old(self).at() + 4
            } else {
                r matches Err(HwpError::BufferUnderflow { requested, available })
                    && requested == 4 && available == old(self).remaining_spec()
                    && final(self).at() == old(self).at()
            },
    {
        if self.remaining() < 4 {
            return Err(HwpError::BufferUnderflow { requested: 4, available: self.remaining() });
        }
        let v = u32_from_le(
            self.data[self.pos],
            self.data[self.pos + 1],
            self.data[self.pos + 2],
            self.data[self.pos + 3],
        );
        self.pos = self.pos + 4;
        Ok(v)
    }

    /// Read a 32-bit signed integer (little-endian).
    pub fn read_i32(&mut self) -> (r: HwpResult<i32>)
        requires
            old(self).wf(),
        ensures
            final(self).wf(),
            final(self).bytes() == old(self).bytes(),
            if old(self).remaining_spec() >= 4 {
                r matches Ok(v) && v == le32(old(self).bytes(), old(self).at()) as u32 as i32
                    && final(self).at() == old(self).at() + 4
            } else {
                r matches Err(HwpError::BufferUnderflow { requested, available })
                    && requested == 4 && available == old(self).remaining_spec()
                    && final(self).at() == old(self).at()
            },
    {
        match self.read_u32() {
            Ok(v) => Ok(v as i32),
            Err(e) => Err(e),
        }
    }

    /// Read a 64-bit unsigned integer (little-endian).
    pub fn read_u64(&mut self) -> (r: HwpResult<u64>)
        requires
            old(self).wf(),
        ensures
            final(self).wf(),
            final(self).bytes() == old(self).bytes(),
            if old(self).remaining_spec() >= 8 {
                r matches Ok(v) && v == le64(old(self).bytes(), old(self).at())
                    && final(self).at() == old(self).at() + 8
            } else {
                r matches Err(HwpError::BufferUnderflow { requested, available })
                    && requested == 8 && available == old(self).remaining_spec()
                    && final(self).at() == old(self).at()
            },
    {
        if self.remaining() < 8 {
            return Err(HwpError::BufferUnderflow { requested: 8, available: self.remaining() });
        }
        let lo = u32_from_le(
            self.data[self.pos],
            self.data[self.pos + 1],
            self.data[self.pos + 2],
            self.data[self.pos + 3],
        );
        let hi = u32_from_le(
            self.data[self.pos + 4],
            self.data[self.pos + 5],
            self.data[self.pos + 6],
            self.data[self.pos + 7],
        );
        self.pos = self.pos + 8;
        Ok(u64_from_halves(lo, hi))
    }

    /// Read a 64-bit signed integer (little-endian).
    pub fn read_i64(&mut self) -> (r: HwpResult<i64>)
        requires
            old(self).wf(),
        ensures
            final(self).wf(),
            final(self).bytes() == old(self).bytes(),
            if old(self).remaining_spec() >= 8 {
                r matches Ok(v) && v == le64(old(self).bytes(), old(self).at()) as u64 as i64
                    && final(self).at() == old(self).at() + 8
            } else {
                r matches Err(HwpError::BufferUnderflow { requested, available })
                    && requested == 8 && available == old(self).remaining_spec()
                    && final(self).at() == old(self).at()
            },
    {
        match self.read_u64() {
            Ok(v) => Ok(v as i64),
            Err(e) => Err(e),
        }
    }

    /// Read n bytes into a vector.
    pub fn read_bytes(&mut self, n: usize) -> (r: HwpResult<Vec<u8>>)
        requires
            old(self).wf(),
        ensures
            final(self).wf(),
            final(self).bytes() == old(self).bytes(),
            if n <= old(self).remaining_spec() {
                r matches Ok(v)
                    && v@ == old(self).bytes().subrange(old(self).at(), old(self).at() + n)
                    && final(self).at() == old(self).at() + n
            } else {
                r matches Err(HwpError::BufferUnderflow { requested, available })
                    && requested == n && available == old(self).remaining_spec()
                    && final(self).at() == old(self).at()
            },
    {
        if self.remaining() < n {
            return Err(HwpError::BufferUnderflow { requested: n, available: self.remaining() });
        }
        let l = self.data.len();
        proof {
            assert(self.pos + n <= l);
        }
        let sub = slice_subrange(self.data, self.pos, self.pos + n);
        let v = vstd::slice::slice_to_vec(sub);
        self.pos = self.pos + n;
        Ok(v)
    }

    /// Read exactly `buf.len()` bytes into an existing buffer.
    pub fn read_exact(&mut self, buf: &mut Vec<u8>) -> (r: HwpResult<()>)
        requires
            old(self).wf(),
        ensures
            final(self).wf(),
            final(self).bytes() == old(self).bytes(),
            if old(buf)@.len() <= old(self).remaining_spec() {
                r is Ok
                    && final(buf)@ == old(self).bytes().subrange(
                        old(self).at(), old(self).at() + old(buf)@.len())
                    && final(self).at() == old(self).at() + old(buf)@.len()
            } else {
                r matches Err(HwpError::BufferUnderflow { requested, available })
                    && requested == old(buf)@.len() && available == old(self).remaining_spec()
                    && final(self).at() == old(self).at() && final(buf)@ == old(buf)@
            },
    {
        match self.read_bytes(buf.len()) {
            Ok(v) => {
                *buf = v;
                Ok(())
            },
            Err(e) => Err(e),
        }
    }

    /// Read all remaining bytes.
    pub fn read_to_end(&mut self) -> (r: HwpResult<Vec<u8>>)
        requires
            old(self).wf(),
        ensures
            final(self).wf(),
            final(self).bytes() == old(self).bytes(),
            r matches Ok(v)
                && v@ == old(self).bytes().subrange(old(self).at(), old(self).bytes().len() as int)
                && final(self).at() == final(self).bytes().len(),
    {
        let n = self.remaining();
        self.read_bytes(n)
    }

    /// Create a sub-reader over the next `size` bytes and advance past them.
    pub fn sub_reader(&mut self, size: usize) -> (r: HwpResult<ByteReader<'a>>)
        requires
            old(self).wf(),
        ensures
            final(self).wf(),
            final(self).bytes() == old(self).bytes(),
            if size <= old(self).remaining_spec() {
                r matches Ok(sub)
                    && sub.wf()
                    && sub.bytes() == old(self).bytes().subrange(
                        old(self).at(), old(self).at() + size)
                    && sub.at() == 0
                    && final(self).at() == old(self).at() + size
            } else {
                r matches Err(HwpError::BufferUnderflow { requested, available })
                    && requested == size && available == old(self).remaining_spec()
                    && final(self).at() == old(self).at()
            },
    {
        if self.remaining() < size {
            return Err(HwpError::BufferUnderflow { requested: size, available: self.remaining() });
        }
        let l = self.data.len();
        proof {
            assert(self.pos + size <= l);
        }
        let sub = slice_subrange(self.data, self.pos, self.pos + size);
        self.pos = self.pos + size;
        Ok(ByteReader::new(sub))
    }

    /// The total length of the underlying buffer.
    pub fn len(&self) -> (r: usize)
        ensures
            r == self.bytes().len(),
    {
        self.data.len()
    }

    /// Read the 32-bit little-endian value at an absolute position
    /// without moving, if four bytes are available there.
    pub fn peek_u32_at(&self, p: usize) -> (r: Option<u32>)
        ensures
            p + 4 <= self.bytes().len() ==> (r matches Some(v) && v == le32(self.bytes(), p as int)),
            p + 4 > self.bytes().len() ==> r is None,
    {
        if p > self.data.len() || self.data.len() - p < 4 {
            return None;
        }
        Some(
            u32_from_le(self.data[p], self.data[p + 1], self.data[p + 2], self.data[p + 3]),
        )
    }

    /// Read a null-terminated UTF-16LE string, stopping at a null unit or
    /// at the end of the buffer.
    pub fn read_utf16_string(&mut self) -> (r: HwpResult<String>)
        requires
            old(self).wf(),
        ensures
            final(self).wf(),
            final(self).bytes() == old(self).bytes(),
            ({
                let units = cstr_units(old(self).bytes(), old(self).at());
                let endpos = old(self).at() + 2 * units.len() + if cstr_null_terminated(
                    old(self).bytes(),
                    old(self).at(),
                ) {
                    2int
                } else {
                    0int
                };
                &&& final(self).at() == endpos
                &&& match utf16_decode(units) {
                    Some(cs) => r matches Ok(s) && s@ == cs,
                    None => r matches Err(e) && e is EncodingError,
                }
            }),
    {
        let ghost b = self.bytes();
        let ghost p0 = self.at();
        let mut units: Vec<u16> = Vec::new();
        let mut done = false;
        proof {
            assert(cstr_units(b, p0) =~= Seq::<u16>::empty() + cstr_units(b, p0));
        }
        while !done
            invariant
                self.wf(),
                self.bytes() == b,
                !done ==> {
                    &&& cstr_units(b, p0) == units@ + cstr_units(b, self.at())
                    &&& cstr_null_terminated(b, p0) == cstr_null_terminated(b, self.at())
                    &&& self.at() == p0 + 2 * units@.len()
                },
                done ==> {
                    &&& units@ == cstr_units(b, p0)
                    &&& self.at() == p0 + 2 * cstr_units(b, p0).len() + if cstr_null_terminated(
                        b,
                        p0,
                    ) {
                        2int
                    } else {
                        0int
                    }
                },
            decreases b.len() - self.at() + if done {
                0int
            } else {
                1int
            },
        {
            let ghost p = self.at();
            let ghost units0 = units@;
            if self.remaining() < 2 {
                done = true;
                proof {
                    assert(cstr_units(b, p) =~= Seq::<u16>::empty());
                    assert(units@ + Seq::<u16>::empty() =~= units@);
                }
            } else {
                let u = match self.read_u16() {
                    Ok(u) => u,
                    Err(_) => {
                        proof {
                            assert(false);
                        }
                        0
                    },
                };
                if u == 0 {
                    done = true;
                    proof {
                        assert(cstr_units(b, p) =~= Seq::<u16>::empty());
                        assert(units@ + Seq::<u16>::empty() =~= units@);
                    }
                } else {
                    units.push(u);
                    proof {
                        assert(cstr_units(b, p) == seq![le16(b, p) as u16] + cstr_units(b, p + 2));
                        assert(units0 + (seq![le16(b, p) as u16] + cstr_units(b, p + 2)) =~= units@
                            + cstr_units(b, p + 2));
                    }
                }
            }
        }
        utf16_to_string(&units)
    }

    /// Read a UTF-16LE string of exactly `char_count` code units,
    /// truncating at an embedded null unit.
    pub fn read_utf16_string_n(&mut self, char_count: usize) -> (r: HwpResult<String>)
        requires
            old(self).wf(),
            2 * char_count <= usize::MAX,
        ensures
            final(self).wf(),
            final(self).bytes() == old(self).bytes(),
            if 2 * char_count <= old(self).remaining_spec() {
                let units = Seq::new(char_count as nat, |i: int| le16(old(self).bytes(), old(self).at() + 2 * i) as u16);
                &&& final(self).at() == old(self).at() + 2 * char_count
                &&& match utf16_decode(units_before_null(units)) {
                    Some(cs) => r matches Ok(s) && s@ == cs,
                    None => r matches Err(e) && e is EncodingError,
                }
            } else {
                &&& r matches Err(HwpError::BufferUnderflow { requested, available })
                    && requested == 2 * char_count && available == old(self).remaining_spec()
                &&& final(self).at() == old(self).at()
            },
    {
        if self.remaining() < 2 * char_count || self.remaining() < char_count {
            return Err(
                HwpError::BufferUnderflow {
                    requested: 2 * char_count,
                    available: self.remaining(),
                },
            );
        }
        let ghost b = self.bytes();
        let ghost p0 = self.at();
        let ghost full = Seq::new(char_count as nat, |i: int| le16(b, p0 + 2 * i) as u16);
        let mut units: Vec<u16> = Vec::new();
        let mut i: usize = 0;
        while i < char_count
            invariant
                self.wf(),
                self.bytes() == b,
                0 <= i <= char_count,
                2 * char_count <= b.len() - p0,
                self.at() == p0 + 2 * i,
                full == Seq::new(char_count as nat, |j: int| le16(b, p0 + 2 * j) as u16),
                units@ == full.take(i as int),
            decreases char_count - i,
        {
            let u = match self.read_u16() {
                Ok(u) => u,
                Err(_) => {
                    proof {
                        assert(false);
                    }
                    0
                },
            };
            units.push(u);
            proof {
                assert(units@ =~= full.take(i + 1));
            }
            i = i + 1;
        }
        proof {
            assert(units@ =~= full);
        }
        // Truncate at an embedded null terminator.
        let mut k: usize = 0;
        while k < units.len() && units[k as usize] != 0
            invariant
                0 <= k <= units@.len(),
                forall|j: int| 0 <= j < k ==> units@[j] != 0,
            decreases units@.len() - k,
        {
            k = k + 1;
        }
        proof {
            lemma_units_before_null_take(units@, k as int);
        }
        units.truncate(k);
        utf16_to_string(&units)
    }

    /// Read a null-terminated EUC-KR string; fails with underflow when the
    /// buffer ends before a null byte.
    pub fn read_euc_kr_string(&mut self) -> (r: HwpResult<String>)
        requires
            old(self).wf(),
        ensures
            final(self).wf(),
            final(self).bytes() == old(self).bytes(),
            match byte_cstr(old(self).bytes(), old(self).at()) {
                Some(bs) => {
                    &&& final(self).at() == old(self).at() + bs.len() + 1
                    &&& match euc_kr_decode(bs) {
                        Some(cs) => r matches Ok(s) && s@ == cs,
                        None => r matches Err(e) && e is EncodingError,
                    }
                },
                None => {
                    &&& r matches Err(e) && e is BufferUnderflow
                    &&& final(self).at() == final(self).bytes().len()
                },
            },
    {
        let ghost b = self.bytes();
        let ghost p0 = self.at();
        let mut bytes: Vec<u8> = Vec::new();
        let mut done = false;
        let mut found_null = false;
        proof {
            assert(match byte_cstr(b, p0) {
                Some(bs) => byte_cstr(b, p0) == match byte_cstr(b, p0) {
                    Some(rest) => Some(Seq::<u8>::empty() + rest),
                    None => None::<Seq<u8>>,
                },
                None => true,
            }) by {
                match byte_cstr(b, p0) {
                    Some(bs) => {
                        assert(Seq::<u8>::empty() + bs =~= bs);
                    },
                    None => {},
                }
            }
        }
        while !done
            invariant
                self.wf(),
                self.bytes() == b,
                !done ==> {
                    &&& !found_null
                    &&& byte_cstr(b, p0) == match byte_cstr(b, self.at()) {
                        Some(rest) => Some(bytes@ + rest),
                        None => None::<Seq<u8>>,
                    }
                    &&& self.at() == p0 + bytes@.len()
                },
                done ==> if found_null {
                    byte_cstr(b, p0) == Some(bytes@) && self.at() == p0 + bytes@.len() + 1
                } else {
                    byte_cstr(b, p0) is None && self.at() == b.len()
                },
            decreases b.len() - self.at() + if done {
                0int
            } else {
                1int
            },
        {
            let ghost p = self.at();
            let ghost bytes0 = bytes@;
            if self.remaining() < 1 {
                done = true;
            } else {
                let c = match self.read_u8() {
                    Ok(c) => c,
                    Err(_) => {
                        proof {
                            assert(false);
                        }
                        0
                    },
                };
                if c == 0 {
                    done = true;
                    found_null = true;
                    proof {
                        assert(byte_cstr(b, p) == Some(Seq::<u8>::empty()));
                        assert(bytes0 + Seq::<u8>::empty() =~= bytes0);
                    }
                } else {
                    bytes.push(c);
                    proof {
                        match byte_cstr(b, p + 1) {
                            Some(rest) => {
                                assert(byte_cstr(b, p) == Some(seq![b[p]] + rest));
                                assert(bytes0 + (seq![b[p]] + rest) =~= bytes@ + rest);
                            },
                            None => {},
                        }
                    }
                }
            }
        }
        if !found_null {
            return Err(HwpError::BufferUnderflow { requested: 1, available: 0 });
        }
        let (s, had_errors) = euc_kr_decode_call(bytes.as_slice());
        if had_errors {
            return Err(HwpError::EncodingError(String::from_str("invalid EUC-KR encoding")));
        }
        Ok(s)
    }

    /// Read an EUC-KR string of exactly `byte_count` bytes, truncating at
    /// an embedded null byte.
    pub fn read_euc_kr_string_n(&mut self, byte_count: usize) -> (r: HwpResult<String>)
        requires
            old(self).wf(),
        ensures
            final(self).wf(),
            final(self).bytes() == old(self).bytes(),
            if byte_count <= old(self).remaining_spec() {
                let bs = old(self).bytes().subrange(old(self).at(), old(self).at() + byte_count);
                &&& final(self).at() == old(self).at() + byte_count
                &&& match euc_kr_decode(bytes_before_null(bs)) {
                    Some(cs) => r matches Ok(s) && s@ == cs,
                    None => r matches Err(e) && e is EncodingError,
                }
            } else {
                &&& r matches Err(HwpError::BufferUnderflow { requested, available })
                    && requested == byte_count && available == old(self).remaining_spec()
                &&& final(self).at() == old(self).at()
            },
    {
        let mut bytes = match self.read_bytes(byte_count) {
            Ok(v) => v,
            Err(e) => {
                return Err(e);
            },
        };
        let mut k: usize = 0;
        while k < bytes.len() && bytes[k as usize] != 0
            invariant
                0 <= k <= bytes@.len(),
                forall|j: int| 0 <= j < k ==> bytes@[j] != 0,
            decreases bytes@.len() - k,
        {
            k = k + 1;
        }
        proof {
            lemma_bytes_before_null_take(bytes@, k as int);
        }
        bytes.truncate(k);
        let (s, had_errors) = euc_kr_decode_call(bytes.as_slice());
        if had_errors {
            return Err(HwpError::EncodingError(String::from_str("invalid EUC-KR encoding")));
        }
        Ok(s)
    }
}

} // verus!
