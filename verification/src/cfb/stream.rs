//! Named streams: assembly from sector or mini-sector chains, truncation
//! to the declared size, and the per-stream compression heuristic.

use vstd::prelude::*;
use vstd::string::{StringExecFns, StrSliceExecFns};
use vstd::slice::slice_subrange;
use crate::bytes_le::le32;
use crate::cfb::ENDOFCHAIN;
use crate::cfb::directory::DirectoryEntry;
use crate::cfb::fat::{
    FatTable,
    MiniFatTable,
    fat_chain,
    mini_chain,
    mini_sectors_data,
    sectors_data,
};
use crate::cfb::header::CfbHeader;
use crate::compression::{custom_framed_payload, inflate_raw, inflate_zlib, is_custom_framed};
use crate::errors::{HwpError, HwpResult};
use crate::reader::ByteReader;

verus! {

/// Whether one character sequence begins with another.
pub open spec fn starts_with(s: Seq<char>, p: Seq<char>) -> bool {
    s.len() >= p.len() && s.subrange(0, p.len() as int) == p
}

/// Compare two strings character by character.
pub fn str_eq_chars(a: &str, b: &str) -> (r: bool)
    ensures
        r == (a@ == b@),
{
    let la = a.unicode_len();
    let lb = b.unicode_len();
    if la != lb {
        proof {
            assert(a@ != b@);
        }
        return false;
    }
    let mut i: usize = 0;
    while i < la
        invariant
            la == a@.len(),
            a@.len() == b@.len(),
            0 <= i <= la,
            forall|j: int| 0 <= j < i ==> a@[j] == b@[j],
        decreases la - i,
    {
        if a.get_char(i) != b.get_char(i) {
            proof {
                assert(a@ != b@);
            }
            return false;
        }
        i = i + 1;
    }
    proof {
        assert(a@ =~= b@);
    }
    true
}

/// Whether a string begins with a prefix, character by character.
pub fn str_starts_with_chars(s: &str, p: &str) -> (r: bool)
    ensures
        r == starts_with(s@, p@),
{
    let ls = s.unicode_len();
    let lp = p.unicode_len();
    if ls < lp {
        return false;
    }
    let mut i: usize = 0;
    while i < lp
        invariant
            ls == s@.len(),
            lp == p@.len(),
            lp <= ls,
            0 <= i <= lp,
            forall|j: int| 0 <= j < i ==> s@[j] == p@[j],
        decreases lp - i,
    {
        if s.get_char(i) != p.get_char(i) {
            proof {
                assert(s@.subrange(0, p@.len() as int)[i as int] != p@[i as int]);
            }
            return false;
        }
        i = i + 1;
    }
    proof {
        assert(s@.subrange(0, p@.len() as int) =~= p@);
    }
    true
}

/// Whether the first two bytes carry a zlib header.
pub open spec fn has_zlib_header(data: Seq<u8>) -> bool {
    data.len() >= 2 && {
        let h = data[0] * 0x100 + data[1];
        h == 0x789C || h == 0x78DA || h == 0x7801 || h == 0x785E || h == 0x78DE
    }
}

/// Whether the first four bytes look like an uncompressed record header
/// of either dialect: a tag in the expected ranges and a declared size
/// that fits the remaining bytes.
pub open spec fn looks_like_record(data: Seq<u8>) -> bool {
    data.len() >= 4 && {
        let hv = le32(data, 0);
        let tag = hv % 0x400;
        let size = hv / 0x1000;
        let valid_tag = (0x10 <= tag && tag <= 0x80) || (0x42 <= tag && tag <= 0x70);
        let valid_size = size > 0 && size <= data.len() - 4;
        valid_tag && valid_size
    }
}

/// Whether a stream's name marks it as document content, which the
/// format's producers compress by default.
pub open spec fn is_content_stream_name(name: Seq<char>) -> bool {
    name == "DocInfo"@ || starts_with(name, "BodyText/Section"@)
}

/// The compression heuristic: content streams are assumed compressed
/// unless their head already looks like a framed record; other streams
/// are compressed when a custom frame or zlib header is recognised.
pub open spec fn stream_is_compressed(name: Seq<char>, data: Seq<u8>) -> bool {
    if is_content_stream_name(name) {
        !looks_like_record(data)
    } else {
        is_custom_framed(data) || has_zlib_header(data)
    }
}

/// A resolved stream: name, raw bytes, and size.
#[derive(Debug)]
pub struct Stream {
    /// Stream name.
    pub name: String,
    /// Stream data.
    pub data: Vec<u8>,
    /// Stream size.
    pub size: u64,
}

/// The assembled bytes cut down to the declared size.
pub open spec fn truncated_to(raw: Seq<u8>, size: int) -> Seq<u8> {
    if size <= raw.len() {
        raw.take(size)
    } else {
        raw
    }
}

impl Stream {
    /// Create a stream over already-assembled bytes.
    pub fn new(name: String, data: Vec<u8>) -> (r: Self)
        ensures
            r.name@ == name@,
            r.data@ == data@,
            r.size == data@.len(),
    {
        let size = data.len() as u64;
        Stream { name, data, size }
    }

    /// Assemble a stream's bytes for a directory entry: through the
    /// Mini-FAT below the cutoff size, through the regular FAT above it,
    /// truncated to the declared size. The result never exceeds the
    /// declared size.
    pub fn from_entry(
        reader: &mut ByteReader,
        entry: &DirectoryEntry,
        header: &CfbHeader,
        fat: &FatTable,
        mini_fat: Option<&MiniFatTable>,
    ) -> (r: HwpResult<Self>)
        requires
            old(reader).wf(),
            fat.sector_size >= 1,
            mini_fat matches Some(m) ==> m.mini_sector_size >= 1,
        ensures
            final(reader).wf(),
            final(reader).bytes() == old(reader).bytes(),
            ({
                let b = old(reader).bytes();
                let size = entry.stream_size_low + entry.stream_size_high * 0x1_0000_0000;
                if entry.object_type != crate::cfb::directory::ObjectType::Stream {
                    r matches Err(e) && e is InvalidFormat
                } else if size == 0 {
                    r matches Ok(s) && s.name@ == entry.name@ && s.data@ == Seq::<u8>::empty()
                        && s.size == 0
                } else if size < header.mini_stream_cutoff_size {
                    match mini_fat {
                        None => r matches Err(e) && e is InvalidFormat,
                        Some(m) => if entry.starting_sector != ENDOFCHAIN {
                            match mini_sectors_data(
                                m.mini_stream@,
                                m.mini_sector_size as int,
                                mini_chain(m.entries@, entry.starting_sector, m.entries@.len() as nat),
                            ) {
                                Some(raw) => r matches Ok(s) && s.name@ == entry.name@ && s.data@
                                    == truncated_to(raw, size as int) && s.size == s.data@.len()
                                    && s.data@.len() <= size,
                                None => r matches Err(e) && e is InvalidFormat,
                            }
                        } else {
                            r matches Ok(s) && s.name@ == entry.name@ && s.data@ == Seq::<
                                u8,
                            >::empty() && s.size == 0
                        },
                    }
                } else {
                    if entry.starting_sector != ENDOFCHAIN {
                        match sectors_data(
                            b,
                            fat.sector_size as int,
                            fat_chain(fat.entries@, entry.starting_sector, fat.entries@.len() as nat),
                        ) {
                            Some(raw) => r matches Ok(s) && s.name@ == entry.name@ && s.data@
                                == truncated_to(raw, size as int) && s.size == s.data@.len()
                                && s.data@.len() <= size,
                            None => r matches Err(e) && e is BufferUnderflow,
                        }
                    } else {
                        r matches Ok(s) && s.name@ == entry.name@ && s.data@ == Seq::<u8>::empty()
                            && s.size == 0
                    }
                }
            }),
    {
        if !entry.is_stream() {
            return Err(
                HwpError::InvalidFormat { reason: String::from_str("entry is not a stream") },
            );
        }
        let size = entry.stream_size();
        let mut data: Vec<u8> = if size == 0 {
            Vec::new()
        } else if size < header.mini_stream_cutoff_size as u64 {
            match mini_fat {
                Some(m) => {
                    if entry.starting_sector != ENDOFCHAIN {
                        match m.read_chain(entry.starting_sector) {
                            Ok(v) => v,
                            Err(e) => {
                                return Err(e);
                            },
                        }
                    } else {
                        Vec::new()
                    }
                },
                None => {
                    return Err(
                        HwpError::InvalidFormat {
                            reason: String::from_str("mini allocation table is not available"),
                        },
                    );
                },
            }
        } else {
            if entry.starting_sector != ENDOFCHAIN {
                match fat.read_chain(reader, entry.starting_sector) {
                    Ok(v) => v,
                    Err(e) => {
                        return Err(e);
                    },
                }
            } else {
                Vec::new()
            }
        };
        let tsize: usize = if size > usize::MAX as u64 {
            usize::MAX
        } else {
            size as usize
        };
        data.truncate(tsize);
        let name = clone_string(&entry.name);
        Ok(Stream::new(name, data))
    }

    /// The stream's raw bytes.
    pub fn as_bytes(&self) -> (r: &[u8])
        ensures
            r@ == self.data@,
    {
        self.data.as_slice()
    }

    /// Whether the stream looks compressed: content streams are assumed
    /// compressed unless their head looks like a framed record; others
    /// go by the custom frame or a zlib header.
    pub fn is_compressed(&self) -> (r: bool)
        ensures
            r == stream_is_compressed(self.name@, self.data@),
    {
        let content = str_eq_chars(self.name.as_str(), "DocInfo") || str_starts_with_chars(
            self.name.as_str(),
            "BodyText/Section",
        );
        if content {
            if self.data.len() >= 4 {
                let hv = crate::bytes_le::u32_from_le(
                    self.data[0],
                    self.data[1],
                    self.data[2],
                    self.data[3],
                );
                let tag = hv % 0x400;
                let size = hv / 0x1000;
                let valid_tag = (0x10 <= tag && tag <= 0x80) || (0x42 <= tag && tag <= 0x70);
                let valid_size = size > 0 && size as usize <= self.data.len() - 4;
                !(valid_tag && valid_size)
            } else {
                true
            }
        } else {
            if crate::compression::is_hwp_compressed(self.data.as_slice()) {
                true
            } else if self.data.len() >= 2 {
                let h = self.data[0] as u32 * 0x100 + self.data[1] as u32;
                h == 0x789C || h == 0x78DA || h == 0x7801 || h == 0x785E || h == 0x78DE
            } else {
                false
            }
        }
    }

    /// Decompress the stream: content streams try the custom frame, then
    /// bare raw deflate, then zlib; other streams go by detection. An
    /// uncompressed-looking stream is returned as its raw bytes.
    pub fn decompress(&self) -> (r: HwpResult<Vec<u8>>)
        ensures
            !stream_is_compressed(self.name@, self.data@) ==> (r matches Ok(v) && v@
                == self.data@),
            stream_is_compressed(self.name@, self.data@) && is_content_stream_name(self.name@)
                ==> {
                let d = self.data@;
                &&& (custom_framed_payload(d) matches Some(x) ==> r matches Ok(v) && v@ == x)
                &&& (r matches Ok(v) ==> custom_framed_payload(d) == Some(v@) || inflate_zlib(d)
                    == Some(v@) || inflate_zlib(d.skip(4)) == Some(v@) || inflate_raw(d) == Some(
                    v@,
                ))
                &&& (r matches Err(e) ==> e is DecompressionError && custom_framed_payload(d)
                    is None && inflate_zlib(d) is None && inflate_raw(d) is None)
            },
            stream_is_compressed(self.name@, self.data@) && !is_content_stream_name(self.name@)
                ==> if is_custom_framed(self.data@) {
                match custom_framed_payload(self.data@) {
                    Some(x) => r matches Ok(v) && v@ == x,
                    None => if self.data@.len() < 8 || le32(self.data@, 0) == 0 || le32(
                        self.data@,
                        0,
                    ) > crate::compression::MAX_UNCOMPRESSED_SIZE {
                        r matches Err(e) && e is DecompressionError
                    } else {
                        match inflate_zlib(self.data@) {
                            Some(z) => r matches Ok(v) && v@ == z,
                            None => match inflate_zlib(self.data@.skip(4)) {
                                Some(z) => r matches Ok(v) && v@ == z,
                                None => r matches Err(e) && e is DecompressionError,
                            },
                        }
                    },
                }
            } else {
                match inflate_zlib(self.data@) {
                    Some(z) => r matches Ok(v) && v@ == z,
                    None => r matches Err(e) && e is DecompressionError,
                }
            },
    {
        if !self.is_compressed() {
            return Ok(clone_vec_u8(&self.data));
        }
        let content = str_eq_chars(self.name.as_str(), "DocInfo") || str_starts_with_chars(
            self.name.as_str(),
            "BodyText/Section",
        );
        if content {
            // Try the custom frame, then bare raw deflate, then zlib.
            match crate::compression::decompress_hwp(self.data.as_slice()) {
                Ok(v) => {
                    return Ok(v);
                },
                Err(_) => {},
            }
            match crate::compression::decompress(self.data.as_slice()) {
                Ok(v) => {
                    return Ok(v);
                },
                Err(_) => {},
            }
            match crate::compression::decompress_zlib(self.data.as_slice()) {
                Ok(v) => Ok(v),
                Err(_) => Err(
                    HwpError::DecompressionError(
                        String::from_str("failed to decompress the content stream"),
                    ),
                ),
            }
        } else {
            if crate::compression::is_hwp_compressed(self.data.as_slice()) {
                return crate::compression::decompress_hwp(self.data.as_slice());
            }
            crate::compression::decompress_zlib(self.data.as_slice())
        }
    }
}

/// A character-for-character copy of a string.
pub fn clone_string(s: &String) -> (r: String)
    ensures
        r@ == s@,
{
    s.clone()
}

/// A byte-for-byte copy of a vector.
pub fn clone_vec_u8(v: &Vec<u8>) -> (r: Vec<u8>)
    ensures
        r@ == v@,
{
    let mut out: Vec<u8> = Vec::new();
    let mut i: usize = 0;
    while i < v.len()
        invariant
            0 <= i <= v@.len(),
            out@ == v@.take(i as int),
        decreases v@.len() - i,
    {
        out.push(v[i]);
        proof {
            assert(out@ =~= v@.take(i + 1));
        }
        i = i + 1;
    }
    proof {
        assert(v@.take(i as int) =~= v@);
    }
    out
}

/// A byte-for-byte copy of a slice.
pub fn clone_vec_u8_from_slice(v: &[u8]) -> (r: Vec<u8>)
    ensures
        r@ == v@,
{
    vstd::slice::slice_to_vec(v)
}

/// A reader over one stream's bytes.
pub struct StreamReader<'a> {
    data: &'a [u8],
    position: usize,
}

impl<'a> StreamReader<'a> {
    /// The bytes being read.
    pub closed spec fn bytes(&self) -> Seq<u8> {
        self.data@
    }

    /// The current position.
    pub closed spec fn at(&self) -> int {
        self.position as int
    }

    pub open spec fn wf(&self) -> bool {
        0 <= self.at() <= self.bytes().len()
    }

    /// Create a reader over a stream's bytes.
    pub fn new(data: &'a [u8]) -> (r: Self)
        ensures
            r.wf(),
            r.bytes() == data@,
            r.at() == 0,
    {
        StreamReader { data, position: 0 }
    }

    /// The current position.
    pub fn position(&self) -> (r: usize)
        ensures
            r == self.at(),
    {
        self.position
    }

    /// The remaining bytes.
    pub fn remaining(&self) -> (r: usize)
        requires
            self.wf(),
        ensures
            r == self.bytes().len() - self.at(),
    {
        self.data.len() - self.position
    }

    /// Whether the end is reached.
    pub fn is_eof(&self) -> (r: bool)
        requires
            self.wf(),
        ensures
            r == (self.at() == self.bytes().len()),
    {
        self.position >= self.data.len()
    }

    /// Skip bytes; fails without moving when fewer remain.
    pub fn skip(&mut self, count: usize) -> (r: HwpResult<()>)
        requires
            old(self).wf(),
        ensures
            final(self).wf(),
            final(self).bytes() == old(self).bytes(),
            if count <= old(self).bytes().len() - old(self).at() {
                r is Ok && final(self).at() == old(self).at() + count
            } else {
                (r matches Err(e) && e is InvalidFormat) && final(self).at() == old(self).at()
            },
    {
        if count > self.data.len() - self.position {
            return Err(
                HwpError::InvalidFormat {
                    reason: String::from_str("attempted to skip past the end of the stream"),
                },
            );
        }
        self.position = self.position + count;
        Ok(())
    }

    /// Look at the next bytes without advancing.
    pub fn peek(&self, count: usize) -> (r: Option<&[u8]>)
        requires
            self.wf(),
        ensures
            if count <= self.bytes().len() - self.at() {
                r matches Some(s) && s@ == self.bytes().subrange(self.at(), self.at() + count)
            } else {
                r is None
            },
    {
        if count <= self.data.len() - self.position {
            Some(slice_subrange(self.data, self.position, self.position + count))
        } else {
            None
        }
    }
}

} // verus!
