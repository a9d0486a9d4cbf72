//! Little-endian integer views of byte sequences, shared by every parser
//! in the crate.

use vstd::prelude::*;

verus! {

/// The 16-bit little-endian value stored at `pos` in `s`.
pub open spec fn le16(s: Seq<u8>, pos: int) -> nat
    recommends
        0 <= pos,
        pos + 2 <= s.len(),
{
    (s[pos] + s[pos + 1] * 0x100) as nat
}

/// The 32-bit little-endian value stored at `pos` in `s`.
pub open spec fn le32(s: Seq<u8>, pos: int) -> nat
    recommends
        0 <= pos,
        pos + 4 <= s.len(),
{
    (s[pos] + s[pos + 1] * 0x100 + s[pos + 2] * 0x1_0000 + s[pos + 3] * 0x100_0000) as nat
}

/// The 64-bit little-endian value stored at `pos` in `s`.
pub open spec fn le64(s: Seq<u8>, pos: int) -> nat
    recommends
        0 <= pos,
        pos + 8 <= s.len(),
{
    (le32(s, pos) + le32(s, pos + 4) * 0x1_0000_0000) as nat
}

/// Assemble a `u16` from its two little-endian bytes.
pub fn u16_from_le(b0: u8, b1: u8) -> (r: u16)
    ensures
        r == b0 + b1 * 0x100,
{
    b0 as u16 + b1 as u16 * 0x100
}

/// Assemble a `u32` from its four little-endian bytes.
pub fn u32_from_le(b0: u8, b1: u8, b2: u8, b3: u8) -> (r: u32)
    ensures
        r == b0 + b1 * 0x100 + b2 * 0x1_0000 + b3 * 0x100_0000,
{
    b0 as u32 + b1 as u32 * 0x100 + b2 as u32 * 0x1_0000 + b3 as u32 * 0x100_0000
}

/// Assemble a `u64` from its eight little-endian bytes, low half first.
pub fn u64_from_halves(lo: u32, hi: u32) -> (r: u64)
    ensures
        r == lo + hi * 0x1_0000_0000,
{
    lo as u64 + hi as u64 * 0x1_0000_0000
}

} // verus!
