//! The 512-byte container header.

use vstd::prelude::*;
use vstd::string::StringExecFns;
use crate::bytes_le::{le16, le32};
use crate::cfb::cfb_signature;
use crate::errors::{HwpError, HwpResult};
use crate::reader::ByteReader;

verus! {

/// The parsed container header.
#[derive(Debug, Clone)]
pub struct CfbHeader {
    /// Signature (the eight magic bytes).
    pub signature: Vec<u8>,
    /// CLSID (16 bytes, typically zeros).
    pub clsid: Vec<u8>,
    /// Minor version.
    pub minor_version: u16,
    /// Major version (3 for 512-byte sectors, 4 for 4096-byte sectors).
    pub major_version: u16,
    /// Byte order (0xFFFE marks little-endian).
    pub byte_order: u16,
    /// Sector size power (9 means 512 bytes, 12 means 4096 bytes).
    pub sector_shift: u16,
    /// Mini sector size power (typically 6, 64 bytes).
    pub mini_sector_shift: u16,
    /// Reserved (6 bytes).
    pub reserved: Vec<u8>,
    /// Total sectors (0 for version 3).
    pub total_sectors: u32,
    /// FAT sectors (0 for version 3).
    pub fat_sectors: u32,
    /// First directory sector.
    pub first_dir_sector: u32,
    /// Transaction signature.
    pub transaction_signature: u32,
    /// Mini stream cutoff size (typically 4096).
    pub mini_stream_cutoff_size: u32,
    /// First mini FAT sector.
    pub first_mini_fat_sector: u32,
    /// Number of mini FAT sectors.
    pub mini_fat_sectors: u32,
    /// First DIFAT sector.
    pub first_difat_sector: u32,
    /// Number of DIFAT sectors.
    pub difat_sectors: u32,
    /// First 109 FAT sector positions (the inline DIFAT array).
    pub difat: Vec<u32>,
}

/// The field values a header parsed from `b` must carry.
pub open spec fn header_matches(h: CfbHeader, b: Seq<u8>) -> bool {
    &&& h.signature@ == b.subrange(0, 8)
    &&& h.clsid@ == b.subrange(8, 24)
    &&& h.minor_version == le16(b, 24)
    &&& h.major_version == le16(b, 26)
    &&& h.byte_order == le16(b, 28)
    &&& h.sector_shift == le16(b, 30)
    &&& h.mini_sector_shift == le16(b, 32)
    &&& h.reserved@ == b.subrange(34, 40)
    &&& h.total_sectors == le32(b, 40)
    &&& h.fat_sectors == le32(b, 44)
    &&& h.first_dir_sector == le32(b, 48)
    &&& h.transaction_signature == le32(b, 52)
    &&& h.mini_stream_cutoff_size == le32(b, 56)
    &&& h.first_mini_fat_sector == le32(b, 60)
    &&& h.mini_fat_sectors == le32(b, 64)
    &&& h.first_difat_sector == le32(b, 68)
    &&& h.difat_sectors == le32(b, 72)
    &&& h.difat@.len() == 109
    &&& forall|i: int| 0 <= i < 109 ==> h.difat@[i] == le32(b, 76 + 4 * i)
}

impl CfbHeader {
    /// Parse the container header from the start of the file, whatever
    /// the reader's position.
    pub fn from_reader(reader: &mut ByteReader) -> (r: HwpResult<Self>)
        requires
            old(reader).wf(),
        ensures
            final(reader).wf(),
            final(reader).bytes() == old(reader).bytes(),
            ({
                let b = old(reader).bytes();
                if b.len() < 512 {
                    r matches Err(e) && e is InvalidFormat
                } else if b.subrange(0, 8) != cfb_signature() {
                    r matches Err(e) && e is InvalidFormat
                } else if le16(b, 28) != 0xFFFE {
                    r matches Err(e) && e is InvalidFormat
                } else {
                    r matches Ok(h) && header_matches(h, b)
                }
            }),
    {
        let ghost b = reader.bytes();
        match reader.seek(0) {
            Ok(_) => {},
            Err(_) => {
                proof {
                    assert(false);
                }
            },
        }
        if reader.len() < 512 {
            return Err(
                HwpError::InvalidFormat {
                    reason: String::from_str("container smaller than its header"),
                },
            );
        }
        let signature = match reader.read_bytes(8) {
            Ok(v) => v,
            Err(e) => {
                return Err(e);
            },
        };
        if !(signature[0] == 0xD0 && signature[1] == 0xCF && signature[2] == 0x11 && signature[3]
            == 0xE0 && signature[4] == 0xA1 && signature[5] == 0xB1 && signature[6] == 0x1A
            && signature[7] == 0xE1) {
            proof {
                assert(b.subrange(0, 8) != cfb_signature());
            }
            return Err(
                HwpError::InvalidFormat { reason: String::from_str("invalid container signature") },
            );
        }
        proof {
            assert(signature@ =~= cfb_signature());
        }
        let clsid = match reader.read_bytes(16) {
            Ok(v) => v,
            Err(e) => {
                return Err(e);
            },
        };
        let minor_version = read_u16_or_zero(reader);
        let major_version = read_u16_or_zero(reader);
        let byte_order = read_u16_or_zero(reader);
        if byte_order != 0xFFFE {
            return Err(
                HwpError::InvalidFormat { reason: String::from_str("invalid byte order marker") },
            );
        }
        let sector_shift = read_u16_or_zero(reader);
        let mini_sector_shift = read_u16_or_zero(reader);
        let reserved = match reader.read_bytes(6) {
            Ok(v) => v,
            Err(e) => {
                return Err(e);
            },
        };
        let total_sectors = read_u32_or_zero(reader);
        let fat_sectors = read_u32_or_zero(reader);
        let first_dir_sector = read_u32_or_zero(reader);
        let transaction_signature = read_u32_or_zero(reader);
        let mini_stream_cutoff_size = read_u32_or_zero(reader);
        let first_mini_fat_sector = read_u32_or_zero(reader);
        let mini_fat_sectors = read_u32_or_zero(reader);
        let first_difat_sector = read_u32_or_zero(reader);
        let difat_sectors = read_u32_or_zero(reader);
        let mut difat: Vec<u32> = Vec::new();
        let mut i: usize = 0;
        while i < 109
            invariant
                reader.wf(),
                reader.bytes() == b,
                b.len() >= 512,
                0 <= i <= 109,
                reader.at() == 76 + 4 * i,
                difat@.len() == i,
                forall|j: int| 0 <= j < i ==> difat@[j] == le32(b, 76 + 4 * j),
            decreases 109 - i,
        {
            let v = read_u32_or_zero(reader);
            difat.push(v);
            i = i + 1;
        }
        Ok(
            CfbHeader {
                signature,
                clsid,
                minor_version,
                major_version,
                byte_order,
                sector_shift,
                mini_sector_shift,
                reserved,
                total_sectors,
                fat_sectors,
                first_dir_sector,
                transaction_signature,
                mini_stream_cutoff_size,
                first_mini_fat_sector,
                mini_fat_sectors,
                first_difat_sector,
                difat_sectors,
                difat,
            },
        )
    }

    /// The sector size in bytes.
    pub fn sector_size(&self) -> (r: u32)
        requires
            self.sector_shift < 32,
        ensures
            r == (1u32 << self.sector_shift),
    {
        1u32 << self.sector_shift
    }

    /// The mini sector size in bytes.
    pub fn mini_sector_size(&self) -> (r: u32)
        requires
            self.mini_sector_shift < 32,
        ensures
            r == (1u32 << self.mini_sector_shift),
    {
        1u32 << self.mini_sector_shift
    }

    /// Whether this is a valid version-3 or version-4 container.
    pub fn is_valid_version(&self) -> (r: bool)
        ensures
            r == (self.major_version == 3 || self.major_version == 4),
    {
        self.major_version == 3 || self.major_version == 4
    }
}

/// Read a 16-bit value from a reader known to have enough bytes left.
fn read_u16_or_zero(reader: &mut ByteReader) -> (r: u16)
    requires
        old(reader).wf(),
        old(reader).remaining_spec() >= 2,
    ensures
        final(reader).wf(),
        final(reader).bytes() == old(reader).bytes(),
        final(reader).at() == old(reader).at() + 2,
        r == le16(old(reader).bytes(), old(reader).at()),
{
    match reader.read_u16() {
        Ok(v) => v,
        Err(_) => {
            proof {
                assert(false);
            }
            0
        },
    }
}

/// Read a 32-bit value from a reader known to have enough bytes left.
fn read_u32_or_zero(reader: &mut ByteReader) -> (r: u32)
    requires
        old(reader).wf(),
        old(reader).remaining_spec() >= 4,
    ensures
        final(reader).wf(),
        final(reader).bytes() == old(reader).bytes(),
        final(reader).at() == old(reader).at() + 4,
        r == le32(old(reader).bytes(), old(reader).at()),
{
    match reader.read_u32() {
        Ok(v) => v,
        Err(_) => {
            proof {
                assert(false);
            }
            0
        },
    }
}

} // verus!
