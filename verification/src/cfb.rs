//! The compound-file container: sector allocation tables, the directory
//! tree, and named-stream assembly from a raw file buffer.

pub mod container;
pub mod directory;
pub mod fat;
pub mod header;
pub mod stream;

use vstd::prelude::*;
use crate::errors::HwpResult;
use crate::reader::ByteReader;

verus! {

/// End-of-chain sector marker.
pub const ENDOFCHAIN: u32 = 0xFFFFFFFE;

/// Marker of a sector that holds FAT metadata.
pub const FATSECT: u32 = 0xFFFFFFFD;

/// Free sector marker.
pub const FREESECT: u32 = 0xFFFFFFFF;

/// Maximum regular sector ID.
pub const MAXREGSECT: u32 = 0xFFFFFFFA;

/// Directory entry size in bytes.
pub const DIR_ENTRY_SIZE: usize = 128;

/// Standard sector size (512 bytes).
pub const SECTOR_SIZE_512: u32 = 512;

/// Large sector size (4096 bytes).
pub const SECTOR_SIZE_4096: u32 = 4096;

/// Mini sector size.
pub const MINI_SECTOR_SIZE: u32 = 64;

/// The container's eight magic bytes.
pub open spec fn cfb_signature() -> Seq<u8> {
    seq![0xD0u8, 0xCFu8, 0x11u8, 0xE0u8, 0xA1u8, 0xB1u8, 0x1Au8, 0xE1u8]
}

/// Parse a container from a positioned reader over the whole file.
pub fn parse_cfb(reader: &mut ByteReader) -> (r: HwpResult<container::CfbContainer>)
    requires
        old(reader).wf(),
    ensures
        final(reader).wf(),
        final(reader).bytes() == old(reader).bytes(),
        container::container_post(old(reader).bytes(), r),
{
    container::CfbContainer::from_reader(reader)
}

/// Parse a container from the raw file bytes.
pub fn parse_cfb_bytes(data: &[u8]) -> (r: HwpResult<container::CfbContainer>)
    ensures
        container::container_post(data@, r),
{
    let mut reader = ByteReader::new(data);
    parse_cfb(&mut reader)
}

} // verus!
