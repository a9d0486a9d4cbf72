//! The 256-byte document header: a 32-byte signature, the packed
//! version, and the property bit flags.

use vstd::prelude::*;
use crate::bytes_le::le32;
use crate::errors::{HwpError, HwpResult};
use crate::models::header::{HwpHeader, HwpProperties, properties_of};
use crate::reader::ByteReader;
use crate::version::{HwpVersion, version_of};

verus! {

/// The document's 32 signature bytes: the format name padded with nulls.
pub open spec fn hwp_signature() -> Seq<u8> {
    seq![
        0x48u8, 0x57u8, 0x50u8, 0x20u8, 0x44u8, 0x6Fu8, 0x63u8, 0x75u8, 0x6Du8, 0x65u8, 0x6Eu8,
        0x74u8, 0x20u8, 0x46u8, 0x69u8, 0x6Cu8, 0x65u8, 0x00u8, 0x00u8, 0x00u8, 0x00u8, 0x00u8,
        0x00u8, 0x00u8, 0x00u8, 0x00u8, 0x00u8, 0x00u8, 0x00u8, 0x00u8, 0x00u8, 0x00u8,
    ]
}

/// The signature byte expected at each of the 32 positions.
fn signature_byte(i: usize) -> (r: u8)
    requires
        i < 32,
    ensures
        r == hwp_signature()[i as int],
{
    if i == 0 {
        0x48
    } else if i == 1 {
        0x57
    } else if i == 2 {
        0x50
    } else if i == 3 {
        0x20
    } else if i == 4 {
        0x44
    } else if i == 5 {
        0x6F
    } else if i == 6 {
        0x63
    } else if i == 7 {
        0x75
    } else if i == 8 {
        0x6D
    } else if i == 9 {
        0x65
    } else if i == 10 {
        0x6E
    } else if i == 11 {
        0x74
    } else if i == 12 {
        0x20
    } else if i == 13 {
        0x46
    } else if i == 14 {
        0x69
    } else if i == 15 {
        0x6C
    } else if i == 16 {
        0x65
    } else {
        0x00
    }
}

/// What parsing the 256 header bytes at `p` of `b` must yield.
pub open spec fn header_parse_matches(h: HwpHeader, b: Seq<u8>, p: int) -> bool {
    &&& h.signature@ == b.subrange(p, p + 32)
    &&& h.version == version_of(le32(b, p + 32) as u32)
    &&& h.properties == properties_of(le32(b, p + 36) as u32)
    &&& h.reserved@ == b.subrange(p + 40, p + 256)
}

/// Parse the document header: verify the signature, then read the
/// version, the property flags, and the reserved bytes.
pub fn parse_header(reader: &mut ByteReader) -> (r: HwpResult<HwpHeader>)
    requires
        old(reader).wf(),
    ensures
        final(reader).wf(),
        final(reader).bytes() == old(reader).bytes(),
        ({
            let b = old(reader).bytes();
            let p = old(reader).at();
            if b.len() - p < 32 {
                r matches Err(e) && e is BufferUnderflow
            } else if b.subrange(p, p + 32) != hwp_signature() {
                r matches Err(e) && e is InvalidSignature
            } else if b.len() - p < 256 {
                r matches Err(e) && e is BufferUnderflow
            } else {
                (r matches Ok(h) && header_parse_matches(h, b, p)) && final(reader).at() == p + 256
            }
        }),
{
    let ghost b = reader.bytes();
    let ghost p = reader.at();
    let signature = match reader.read_bytes(32) {
        Ok(v) => v,
        Err(e) => {
            return Err(e);
        },
    };
    let mut i: usize = 0;
    while i < 32
        invariant
            reader.wf(),
            reader.bytes() == b,
            b == old(reader).bytes(),
            p == old(reader).at(),
            b.len() - p >= 32,
            reader.at() == p + 32,
            signature@.len() == 32,
            signature@ == b.subrange(p, p + 32),
            0 <= i <= 32,
            forall|j: int| 0 <= j < i ==> signature@[j] == hwp_signature()[j],
        decreases 32 - i,
    {
        if signature[i] != signature_byte(i) {
            proof {
                assert(b.subrange(p, p + 32) != hwp_signature());
            }
            return Err(HwpError::InvalidSignature);
        }
        i = i + 1;
    }
    proof {
        assert(signature@ =~= hwp_signature());
    }
    let version_raw = match reader.read_u32() {
        Ok(v) => v,
        Err(e) => {
            return Err(e);
        },
    };
    let version = HwpVersion::from_u32(version_raw);
    let properties_raw = match reader.read_u32() {
        Ok(v) => v,
        Err(e) => {
            return Err(e);
        },
    };
    let properties = HwpProperties::from_u32(properties_raw);
    let reserved = match reader.read_bytes(216) {
        Ok(v) => v,
        Err(e) => {
            return Err(e);
        },
    };
    Ok(HwpHeader { signature, version, properties, reserved })
}

} // verus!
