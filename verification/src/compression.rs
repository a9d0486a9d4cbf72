//! The compression codec: detection and reversal of the three stream
//! encodings — custom-framed (4-byte size header + raw deflate), bare
//! raw deflate, and zlib-wrapped deflate.

use vstd::prelude::*;
use vstd::slice::slice_subrange;
use vstd::string::StringExecFns;
use crate::bytes_le::{le32, u32_from_le};
use crate::errors::{HwpError, HwpResult};

verus! {

/// What raw-deflate decompression makes of a byte sequence: the decoded
/// bytes, or `None` when no complete deflate stream starts the input.
pub uninterp spec fn inflate_raw(data: Seq<u8>) -> Option<Seq<u8>>;

/// What zlib decompression makes of a byte sequence: the decoded bytes,
/// or `None` when no complete zlib stream starts the input.
pub uninterp spec fn inflate_zlib(data: Seq<u8>) -> Option<Seq<u8>>;

/// Relies on `flate2::Decompress` in raw-deflate mode with
/// `FlushDecompress::Finish`: with an output buffer large enough, the
/// entire stream is decompressed in one call and ends with `StreamEnd`.
#[verifier::external_body]
fn inflate_raw_call(data: &[u8], capacity: usize) -> (r: Option<Vec<u8>>)
    ensures
        r matches Some(v) ==> inflate_raw(data@) == Some(v@) && v@.len() <= capacity,
        (match inflate_raw(data@) {
            Some(d) => d.len() <= capacity,
            None => false,
        }) ==> r is Some,
{
    let mut decompressor = flate2::Decompress::new(false);
    let mut output = vec![0u8; capacity];
    match decompressor.decompress(data, &mut output, flate2::FlushDecompress::Finish) {
        Ok(flate2::Status::StreamEnd) => {
            let n = decompressor.total_out() as usize;
            output.truncate(n);
            Some(output)
        },
        _ => None,
    }
}

/// Relies on `flate2::read::DeflateDecoder`: reading it to the end
/// yields the complete raw-deflate decompression, or an error when the
/// input is not a valid deflate stream.
#[verifier::external_body]
fn inflate_raw_stream(data: &[u8]) -> (r: Option<Vec<u8>>)
    ensures
        r matches Some(v) ==> inflate_raw(data@) == Some(v@),
        r is None <==> inflate_raw(data@) is None,
{
    let mut decoder = flate2::read::DeflateDecoder::new(data);
    let mut out = Vec::new();
    match std::io::Read::read_to_end(&mut decoder, &mut out) {
        Ok(_) => Some(out),
        Err(_) => None,
    }
}

/// Relies on `flate2::read::ZlibDecoder`: reading it to the end yields
/// the complete zlib decompression, or an error when the input is not a
/// valid zlib stream.
#[verifier::external_body]
fn inflate_zlib_call(data: &[u8]) -> (r: Option<Vec<u8>>)
    ensures
        r matches Some(v) ==> inflate_zlib(data@) == Some(v@),
        r is None <==> inflate_zlib(data@) is None,
{
    let mut decoder = flate2::read::ZlibDecoder::new(data);
    let mut out = Vec::new();
    match std::io::Read::read_to_end(&mut decoder, &mut out) {
        Ok(_) => Some(out),
        Err(_) => None,
    }
}

/// Relies on `flate2::write::DeflateEncoder`: raw-deflate compression is
/// inverted by raw-deflate decompression.
#[verifier::external_body]
fn deflate_raw_call(data: &[u8]) -> (r: Option<Vec<u8>>)
    ensures
        r matches Some(v) ==> inflate_raw(v@) == Some(data@),
{
    let mut encoder = flate2::write::DeflateEncoder::new(
        Vec::new(),
        flate2::Compression::default(),
    );
    if std::io::Write::write_all(&mut encoder, data).is_err() {
        return None;
    }
    match encoder.finish() {
        Ok(v) => Some(v),
        Err(_) => None,
    }
}

/// The payload-size cap a custom-framed stream is held to.
pub const MAX_UNCOMPRESSED_SIZE: u32 = 0x6400000;

/// Whether the bytes carry the custom frame: a nonzero, plausible size
/// hint followed by at least one payload byte.
pub open spec fn is_custom_framed(d: Seq<u8>) -> bool {
    &&& d.len() >= 8
    &&& 0 < le32(d, 0)
    &&& le32(d, 0) < MAX_UNCOMPRESSED_SIZE
}

/// The payload a custom-framed stream decodes to: the raw-deflate
/// decompression of everything after the size header, provided its
/// length matches the header's hint.
pub open spec fn custom_framed_payload(d: Seq<u8>) -> Option<Seq<u8>> {
    if d.len() >= 8 && 0 < le32(d, 0) && le32(d, 0) <= MAX_UNCOMPRESSED_SIZE {
        match inflate_raw(d.skip(4)) {
            Some(x) => if x.len() == le32(d, 0) {
                Some(x)
            } else {
                None
            },
            None => None,
        }
    } else {
        None
    }
}

/// Decompress a bare raw-deflate stream.
pub fn decompress(data: &[u8]) -> (r: HwpResult<Vec<u8>>)
    ensures
        r matches Ok(v) ==> inflate_raw(data@) == Some(v@),
        r matches Err(e) ==> e is DecompressionError && inflate_raw(data@) is None,
{
    match inflate_raw_stream(data) {
        Some(v) => Ok(v),
        None => Err(
            HwpError::DecompressionError(String::from_str("not a valid raw deflate stream")),
        ),
    }
}

/// Check whether data looks custom-framed: a 4-byte size hint that is
/// nonzero and plausible, with payload bytes after it.
pub fn is_hwp_compressed(data: &[u8]) -> (r: bool)
    ensures
        r == is_custom_framed(data@),
{
    if data.len() < 8 {
        return false;
    }
    let hint = u32_from_le(data[0], data[1], data[2], data[3]);
    hint > 0 && hint < MAX_UNCOMPRESSED_SIZE
}

/// Decompress with raw deflate into a buffer of exactly the expected
/// size; any other decompressed length is an error.
pub fn decompress_raw_with_size(data: &[u8], expected_size: usize) -> (r: HwpResult<Vec<u8>>)
    ensures
        r matches Ok(v) ==> inflate_raw(data@) == Some(v@) && v@.len() == expected_size,
        (match inflate_raw(data@) {
            Some(d) => d.len() == expected_size,
            None => false,
        }) ==> r is Ok,
        r matches Err(e) ==> e is DecompressionError,
{
    match inflate_raw_call(data, expected_size) {
        Some(v) => {
            if v.len() != expected_size {
                return Err(
                    HwpError::DecompressionError(
                        String::from_str("decompressed size does not match the header"),
                    ),
                );
            }
            Ok(v)
        },
        None => Err(
            HwpError::DecompressionError(String::from_str("raw deflate decompression failed")),
        ),
    }
}

/// Decompress raw deflate with a speculative output buffer of ten times
/// the input size.
pub fn decompress_raw(data: &[u8]) -> (r: HwpResult<Vec<u8>>)
    ensures
        r matches Ok(v) ==> inflate_raw(data@) == Some(v@),
        (match inflate_raw(data@) {
            Some(d) => d.len() <= 10 * data@.len() && d.len() <= usize::MAX,
            None => false,
        }) ==> r is Ok,
        r matches Err(e) ==> e is DecompressionError,
{
    let capacity: usize = if data.len() > usize::MAX / 10 {
        usize::MAX
    } else {
        data.len() * 10
    };
    match inflate_raw_call(data, capacity) {
        Some(v) => Ok(v),
        None => Err(
            HwpError::DecompressionError(String::from_str("raw deflate decompression failed")),
        ),
    }
}

/// Decompress a zlib-wrapped deflate stream.
pub fn decompress_zlib(data: &[u8]) -> (r: HwpResult<Vec<u8>>)
    ensures
        r matches Ok(v) ==> inflate_zlib(data@) == Some(v@),
        r matches Err(e) ==> e is DecompressionError && inflate_zlib(data@) is None,
        inflate_zlib(data@) matches Some(d) ==> r matches Ok(v) && v@ == d,
{
    match inflate_zlib_call(data) {
        Some(v) => Ok(v),
        None => Err(
            HwpError::DecompressionError(String::from_str("not a valid zlib stream")),
        ),
    }
}

/// Decompress a custom-framed stream: read the size hint, undo the raw
/// deflate behind it, and fall back to zlib (whole buffer, then past the
/// header) when that fails.
pub fn decompress_hwp(data: &[u8]) -> (r: HwpResult<Vec<u8>>)
    ensures
        match custom_framed_payload(data@) {
            Some(x) => r matches Ok(v) && v@ == x,
            None => if data@.len() < 8 || le32(data@, 0) == 0 || le32(data@, 0)
                > MAX_UNCOMPRESSED_SIZE {
                r matches Err(e) && e is DecompressionError
            } else {
                match inflate_zlib(data@) {
                    Some(z) => r matches Ok(v) && v@ == z,
                    None => match inflate_zlib(data@.skip(4)) {
                        Some(z) => r matches Ok(v) && v@ == z,
                        None => r matches Err(e) && e is DecompressionError,
                    },
                }
            },
        },
{
    if data.len() < 8 {
        return Err(
            HwpError::DecompressionError(
                String::from_str("data too small for the custom frame"),
            ),
        );
    }
    let hint = u32_from_le(data[0], data[1], data[2], data[3]);
    if hint == 0 {
        return Err(HwpError::DecompressionError(String::from_str("zero size hint")));
    }
    if hint > MAX_UNCOMPRESSED_SIZE {
        return Err(
            HwpError::DecompressionError(String::from_str("size hint too large")),
        );
    }
    let tail = slice_subrange(data, 4, data.len());
    proof {
        assert(tail@ =~= data@.skip(4));
    }
    match decompress_raw_with_size(tail, hint as usize) {
        Ok(v) => Ok(v),
        Err(_) => {
            match inflate_zlib_call(data) {
                Some(v) => Ok(v),
                None => match inflate_zlib_call(tail) {
                    Some(v) => Ok(v),
                    None => Err(
                        HwpError::DecompressionError(
                            String::from_str("every decompression method failed"),
                        ),
                    ),
                },
            }
        },
    }
}

/// Build a custom-framed stream around a payload: its length as the
/// 4-byte size hint, then the raw-deflate compression of the payload.
pub fn encode_custom_framed(payload: &[u8]) -> (r: HwpResult<Vec<u8>>)
    requires
        0 < payload@.len() <= MAX_UNCOMPRESSED_SIZE,
    ensures
        r matches Ok(v) ==> v@.len() >= 4 && le32(v@, 0) == payload@.len() && inflate_raw(
            v@.skip(4),
        ) == Some(payload@),
        r matches Err(e) ==> e is DecompressionError,
{
    let body = match deflate_raw_call(payload) {
        Some(b) => b,
        None => {
            return Err(
                HwpError::DecompressionError(String::from_str("compression failed")),
            );
        },
    };
    let n = payload.len() as u32;
    let mut framed: Vec<u8> = Vec::new();
    framed.push((n & 0xFF) as u8);
    framed.push(((n >> 8) & 0xFF) as u8);
    framed.push(((n >> 16) & 0xFF) as u8);
    framed.push(((n >> 24) & 0xFF) as u8);
    let ghost header = framed@;
    let mut body = body;
    let ghost body0 = body@;
    framed.append(&mut body);
    proof {
        assert(framed@.skip(4) =~= body0);
        lemma_le32_of_header(n, header);
        assert(le32(framed@, 0) == le32(header, 0));
    }
    Ok(framed)
}

/// The four pushed bytes read back as the pushed value.
proof fn lemma_le32_of_header(n: u32, header: Seq<u8>)
    requires
        header.len() == 4,
        header[0] == (n & 0xFF) as u8,
        header[1] == ((n >> 8) & 0xFF) as u8,
        header[2] == ((n >> 16) & 0xFF) as u8,
        header[3] == ((n >> 24) & 0xFF) as u8,
    ensures
        le32(header, 0) == n,
{
    let b0 = header[0];
    let b1 = header[1];
    let b2 = header[2];
    let b3 = header[3];
    assert((b0 == (n & 0xFF) as u8 && b1 == ((n >> 8) & 0xFF) as u8 && b2 == ((n >> 16)
        & 0xFF) as u8 && b3 == ((n >> 24) & 0xFF) as u8) ==> b0 + b1 * 0x100 + b2 * 0x1_0000 + b3
        * 0x100_0000 == n) by (bit_vector);
}

/// Any correctly framed stream decodes back to its payload: the frame
/// carries the payload's length as its hint, and the deflate body behind
/// the hint decompresses to the payload.
pub proof fn lemma_custom_framed_round_trip(framed: Seq<u8>, payload: Seq<u8>)
    requires
        framed.len() >= 8,
        0 < payload.len() <= MAX_UNCOMPRESSED_SIZE,
        le32(framed, 0) == payload.len(),
        inflate_raw(framed.skip(4)) == Some(payload),
    ensures
        custom_framed_payload(framed) == Some(payload),
{
}

} // verus!
