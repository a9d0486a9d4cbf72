//! The sector allocation tables: the FAT with its DIFAT index, and the
//! Mini-FAT over the mini stream. Chain-following is bounded by table
//! length, so it terminates even on cyclic or corrupt tables.

use vstd::prelude::*;
use vstd::string::StringExecFns;
use crate::bytes_le::le32;
use crate::cfb::{ENDOFCHAIN, FATSECT, FREESECT};
use crate::cfb::header::CfbHeader;
use crate::errors::{HwpError, HwpResult};
use crate::reader::ByteReader;

verus! {

/// The `n` 32-bit values stored at `off`.
pub open spec fn read_u32s(b: Seq<u8>, off: int, n: int) -> Seq<u32> {
    Seq::new(n as nat, |i: int| le32(b, off + 4 * i) as u32)
}

/// The next sector after `s`, or `None` at a chain end: a sentinel
/// entry, or an index outside the table.
pub open spec fn fat_step(entries: Seq<u32>, s: u32) -> Option<u32> {
    if s >= entries.len() {
        None
    } else {
        let n = entries[s as int];
        if n == ENDOFCHAIN || n == FREESECT || n == FATSECT {
            None
        } else {
            Some(n)
        }
    }
}

/// The sector chain from `current`, following at most `fuel` links.
pub open spec fn fat_chain(entries: Seq<u32>, current: u32, fuel: nat) -> Seq<u32>
    decreases fuel,
{
    if current == ENDOFCHAIN || current == FREESECT || fuel == 0 {
        Seq::<u32>::empty()
    } else {
        match fat_step(entries, current) {
            None => seq![current],
            Some(next) => seq![current] + fat_chain(entries, next, (fuel - 1) as nat),
        }
    }
}

/// A bounded chain never exceeds its fuel: chain-following terminates
/// within `entries.len()` steps on any table, cyclic ones included.
pub proof fn lemma_fat_chain_bounded(entries: Seq<u32>, current: u32, fuel: nat)
    ensures
        fat_chain(entries, current, fuel).len() <= fuel,
    decreases fuel,
{
    if current == ENDOFCHAIN || current == FREESECT || fuel == 0 {
    } else {
        match fat_step(entries, current) {
            None => {},
            Some(next) => {
                lemma_fat_chain_bounded(entries, next, (fuel - 1) as nat);
            },
        }
    }
}

/// The next mini sector after `s`; the Mini-FAT has no metadata
/// sentinel, so only end-of-chain and free stop a chain.
pub open spec fn mini_step(entries: Seq<u32>, s: u32) -> Option<u32> {
    if s >= entries.len() {
        None
    } else {
        let n = entries[s as int];
        if n == ENDOFCHAIN || n == FREESECT {
            None
        } else {
            Some(n)
        }
    }
}

/// The mini-sector chain from `current`, following at most `fuel` links.
pub open spec fn mini_chain(entries: Seq<u32>, current: u32, fuel: nat) -> Seq<u32>
    decreases fuel,
{
    if current == ENDOFCHAIN || current == FREESECT || fuel == 0 {
        Seq::<u32>::empty()
    } else {
        match mini_step(entries, current) {
            None => seq![current],
            Some(next) => seq![current] + mini_chain(entries, next, (fuel - 1) as nat),
        }
    }
}

/// A bounded mini chain never exceeds its fuel.
pub proof fn lemma_mini_chain_bounded(entries: Seq<u32>, current: u32, fuel: nat)
    ensures
        mini_chain(entries, current, fuel).len() <= fuel,
    decreases fuel,
{
    if current == ENDOFCHAIN || current == FREESECT || fuel == 0 {
    } else {
        match mini_step(entries, current) {
            None => {},
            Some(next) => {
                lemma_mini_chain_bounded(entries, next, (fuel - 1) as nat);
            },
        }
    }
}

/// The bytes of the sectors in `chain`, in order; `None` when a sector
/// lies outside the file.
pub open spec fn sectors_data(b: Seq<u8>, ssz: int, chain: Seq<u32>) -> Option<Seq<u8>>
    decreases chain.len(),
{
    if chain.len() == 0 {
        Some(Seq::<u8>::empty())
    } else {
        let off = (chain[0] + 1) * ssz;
        if off + ssz > b.len() {
            None
        } else {
            match sectors_data(b, ssz, chain.skip(1)) {
                Some(rest) => Some(b.subrange(off, off + ssz) + rest),
                None => None,
            }
        }
    }
}

/// The DIFAT prefix held inline in the header: entries up to the first
/// free-sector sentinel.
pub open spec fn difat_inline(difat: Seq<u32>) -> Seq<u32>
    decreases difat.len(),
{
    if difat.len() == 0 {
        Seq::<u32>::empty()
    } else if difat[0] == FREESECT {
        Seq::<u32>::empty()
    } else {
        seq![difat[0]] + difat_inline(difat.skip(1))
    }
}

/// The non-free values among the first `n` slots at `off`.
pub open spec fn difat_slot_values(b: Seq<u8>, off: int, n: int) -> Seq<u32>
    decreases n,
{
    if n <= 0 {
        Seq::<u32>::empty()
    } else {
        difat_slot_values(b, off, n - 1) + if le32(b, off + 4 * (n - 1)) != FREESECT {
            seq![le32(b, off + 4 * (n - 1)) as u32]
        } else {
            Seq::<u32>::empty()
        }
    }
}

/// The FAT sector indices contributed by the DIFAT overflow chain, or
/// `None` when a DIFAT sector lies outside the file.
pub open spec fn difat_overflow(b: Seq<u8>, ssz: int, spc: int, current: u32, count: int) -> Option<
    Seq<u32>,
>
    decreases count,
{
    if count <= 0 || current == ENDOFCHAIN || current == FREESECT {
        Some(Seq::<u32>::empty())
    } else {
        let off = (current + 1) * ssz;
        if off + ssz > b.len() {
            None
        } else {
            let vals = difat_slot_values(b, off, spc - 1);
            let next = le32(b, off + (spc - 1) * 4) as u32;
            match difat_overflow(b, ssz, spc, next, count - 1) {
                Some(rest) => Some(vals + rest),
                None => None,
            }
        }
    }
}

/// The whole FAT-sector index list of a header, or `None` when the
/// overflow chain runs outside the file.
pub open spec fn fat_sector_list(b: Seq<u8>, h: CfbHeader) -> Option<Seq<u32>> {
    let ssz = (1u32 << h.sector_shift) as int;
    let spc = ssz / 4;
    let inline = difat_inline(h.difat@);
    if h.difat_sectors > 0 {
        match difat_overflow(b, ssz, spc, h.first_difat_sector, h.difat_sectors as int) {
            Some(extra) => Some(inline + extra),
            None => None,
        }
    } else {
        Some(inline)
    }
}

/// The flat FAT built from the listed FAT sectors, or `None` when one of
/// them lies outside the file.
pub open spec fn fat_entries_of(b: Seq<u8>, ssz: int, spc: int, sectors: Seq<u32>) -> Option<
    Seq<u32>,
>
    decreases sectors.len(),
{
    if sectors.len() == 0 {
        Some(Seq::<u32>::empty())
    } else {
        let s = sectors[0];
        if s == FREESECT || s == ENDOFCHAIN {
            fat_entries_of(b, ssz, spc, sectors.skip(1))
        } else {
            let off = (s + 1) * ssz;
            if off + ssz > b.len() {
                None
            } else {
                match fat_entries_of(b, ssz, spc, sectors.skip(1)) {
                    Some(rest) => Some(read_u32s(b, off, spc) + rest),
                    None => None,
                }
            }
        }
    }
}

/// The sector allocation table: a flat array of next-sector pointers.
pub struct FatTable {
    /// FAT entries.
    pub entries: Vec<u32>,
    /// Sector size.
    pub sector_size: u32,
}

/// Read one whole sector into a byte vector.
fn read_sector(reader: &mut ByteReader, sector: u32, ssz: u32) -> (r: HwpResult<Vec<u8>>)
    requires
        old(reader).wf(),
        ssz >= 1,
    ensures
        final(reader).wf(),
        final(reader).bytes() == old(reader).bytes(),
        ({
            let off = (sector + 1) * ssz;
            if off + ssz > old(reader).bytes().len() {
                r matches Err(e) && e is BufferUnderflow
            } else {
                r matches Ok(v) && v@ == old(reader).bytes().subrange(off, off + ssz)
            }
        }),
{
    let len = reader.len();
    proof {
        assert((sector as u64 + 1) * (ssz as u64) <= 0x1_0000_0000u64 * 0xFFFF_FFFFu64) by (nonlinear_arith)
            requires
                sector <= 0xFFFF_FFFFu32,
                ssz <= 0xFFFF_FFFFu32,
        ;
    }
    let off64: u64 = (sector as u64 + 1) * (ssz as u64);
    if off64 > len as u64 || (len as u64 - off64) < ssz as u64 {
        return Err(
            HwpError::BufferUnderflow { requested: ssz as usize, available: 0 },
        );
    }
    let off = off64 as usize;
    match reader.seek(off) {
        Ok(_) => {},
        Err(_) => {
            proof {
                assert(false);
            }
        },
    }
    reader.read_bytes(ssz as usize)
}

impl FatTable {
    /// Build the FAT from a file: collect the FAT-sector indices from
    /// the inline DIFAT and its overflow chain, then read every listed
    /// sector's entries.
    pub fn from_reader(reader: &mut ByteReader, header: &CfbHeader) -> (r: HwpResult<Self>)
        requires
            old(reader).wf(),
            2 <= header.sector_shift < 32,
    ensures
            final(reader).wf(),
            final(reader).bytes() == old(reader).bytes(),
            ({
                let b = old(reader).bytes();
                let ssz = (1u32 << header.sector_shift) as int;
                let spc = ssz / 4;
                match fat_sector_list(b, *header) {
                    Some(sectors) => match fat_entries_of(b, ssz, spc, sectors) {
                        Some(es) => r matches Ok(fat) && fat.entries@ == es && fat.sector_size == (
                        1u32 << header.sector_shift),
                        None => r matches Err(e) && e is BufferUnderflow,
                    },
                    None => r matches Err(e) && e is BufferUnderflow,
                }
            }),
    {
        let ghost b = reader.bytes();
        let sector_size = header.sector_size();
        proof {
            lemma_sector_size_bounds(header.sector_shift);
        }
        let entries_per_sector = sector_size / 4;
        let ghost ssz = sector_size as int;
        let ghost spc = entries_per_sector as int;

        // FAT sector indices named inline in the header.
        let mut fat_sectors: Vec<u32> = Vec::new();
        let mut i: usize = 0;
        let mut stopped = false;
        proof {
            assert(header.difat@.skip(0) =~= header.difat@);
            assert(Seq::<u32>::empty() + difat_inline(header.difat@) =~= difat_inline(
                header.difat@,
            ));
        }
        while !stopped && i < header.difat.len()
            invariant
                0 <= i <= header.difat@.len(),
                !stopped ==> difat_inline(header.difat@) == fat_sectors@ + difat_inline(
                    header.difat@.skip(i as int),
                ),
                !stopped ==> fat_sectors@.len() == i,
                stopped ==> fat_sectors@ == difat_inline(header.difat@),
            decreases header.difat@.len() - i + if stopped {
                0int
            } else {
                1int
            },
        {
            let s = header.difat[i];
            if s == FREESECT {
                stopped = true;
                proof {
                    assert(difat_inline(header.difat@.skip(i as int)) =~= Seq::<u32>::empty());
                    assert(fat_sectors@ + Seq::<u32>::empty() =~= fat_sectors@);
                }
            } else {
                let ghost fs0 = fat_sectors@;
                fat_sectors.push(s);
                proof {
                    assert(header.difat@.skip(i as int).skip(1) =~= header.difat@.skip(i + 1));
                    assert(difat_inline(header.difat@.skip(i as int)) == seq![s] + difat_inline(
                        header.difat@.skip(i + 1),
                    ));
                    assert(fs0 + (seq![s] + difat_inline(header.difat@.skip(i + 1))) =~= fat_sectors@
                        + difat_inline(header.difat@.skip(i + 1)));
                }
                i = i + 1;
            }
        }
        proof {
            if !stopped {
                assert(header.difat@.skip(i as int) =~= Seq::<u32>::empty());
                assert(difat_inline(Seq::<u32>::empty()) =~= Seq::<u32>::empty());
                assert(fat_sectors@ + Seq::<u32>::empty() =~= fat_sectors@);
            }
            assert(fat_sectors@ == difat_inline(header.difat@));
        }

        // The DIFAT overflow chain.
        let ghost inline_secs = fat_sectors@;
        if header.difat_sectors > 0 {
            let mut current = header.first_difat_sector;
            let mut k: u32 = 0;
            while k < header.difat_sectors && current != ENDOFCHAIN && current != FREESECT
                invariant
                    reader.wf(),
                    reader.bytes() == b,
                    b == old(reader).bytes(),
                    0 <= k <= header.difat_sectors,
                    spc == ssz / 4,
                    ssz == (1u32 << header.sector_shift) as int,
                    2 <= header.sector_shift < 32,
                    sector_size == (1u32 << header.sector_shift),
                    sector_size >= 4,
                    entries_per_sector == spc,
                    spc >= 1,
                    4 * spc <= ssz,
                    ssz <= 0xFFFF_FFFF,
                    match difat_overflow(b, ssz, spc, header.first_difat_sector, header.difat_sectors as int) {
                        Some(all) => match difat_overflow(b, ssz, spc, current, header.difat_sectors as int - k) {
                            Some(rest) => inline_secs + all =~= fat_sectors@ + rest,
                            None => false,
                        },
                        None => match difat_overflow(b, ssz, spc, current, header.difat_sectors as int - k) {
                            Some(_) => false,
                            None => true,
                        },
                    },
                decreases header.difat_sectors - k,
            {
                let ghost cur0 = current;
                let ghost cnt0 = header.difat_sectors as int - k;
                let sector_data = match read_sector(reader, current, sector_size) {
                    Ok(v) => v,
                    Err(e) => {
                        proof {
                            assert(difat_overflow(b, ssz, spc, cur0, cnt0) is None);
                        }
                        return Err(e);
                    },
                };
                let ghost off = (cur0 + 1) * ssz;
                let mut j: usize = 0;
                let ghost fs1 = fat_sectors@;
                while j + 1 < entries_per_sector as usize
                    invariant
                        0 <= j <= spc - 1,
                        spc >= 1,
                        entries_per_sector == spc,
                        ssz <= 0xFFFF_FFFF,
                        sector_data@.len() == ssz,
                        sector_data@ == b.subrange(off, off + ssz),
                        0 <= off && off + ssz <= b.len(),
                        4 * spc <= ssz,
                        fat_sectors@ == fs1 + difat_slot_values(b, off, j as int),
                    decreases spc - 1 - j,
                {
                    let v = crate::bytes_le::u32_from_le(
                        sector_data[4 * j],
                        sector_data[4 * j + 1],
                        sector_data[4 * j + 2],
                        sector_data[4 * j + 3],
                    );
                    proof {
                        assert(v == le32(b, off + 4 * (j as int)));
                    }
                    if v != FREESECT {
                        fat_sectors.push(v);
                    }
                    proof {
                        assert(fat_sectors@ =~= fs1 + difat_slot_values(b, off, j + 1));
                    }
                    j = j + 1;
                }
                let next = crate::bytes_le::u32_from_le(
                    sector_data[4 * (entries_per_sector as usize - 1)],
                    sector_data[4 * (entries_per_sector as usize - 1) + 1],
                    sector_data[4 * (entries_per_sector as usize - 1) + 2],
                    sector_data[4 * (entries_per_sector as usize - 1) + 3],
                );
                proof {
                    assert(next == le32(b, off + 4 * (spc - 1)));
                    assert(difat_overflow(b, ssz, spc, cur0, cnt0) == match difat_overflow(
                        b,
                        ssz,
                        spc,
                        next,
                        cnt0 - 1,
                    ) {
                        Some(rest) => Some(difat_slot_values(b, off, spc - 1) + rest),
                        None => None::<Seq<u32>>,
                    });
                    match difat_overflow(b, ssz, spc, next, cnt0 - 1) {
                        Some(rest) => {
                            assert((fs1 + difat_slot_values(b, off, spc - 1)) + rest =~= fs1 + (
                            difat_slot_values(b, off, spc - 1) + rest));
                        },
                        None => {},
                    }
                }
                current = next;
                k = k + 1;
            }
            proof {
                assert(difat_overflow(
                    b,
                    ssz,
                    spc,
                    current,
                    header.difat_sectors as int - k,
                ) == Some(Seq::<u32>::empty()));
                assert(fat_sectors@ + Seq::<u32>::empty() =~= fat_sectors@);
            }
        }
        proof {
            assert(match fat_sector_list(b, *header) {
                Some(sectors) => sectors == fat_sectors@,
                None => false,
            });
        }

        // Read every listed FAT sector's entries.
        let ghost all_sectors = fat_sectors@;
        let mut entries: Vec<u32> = Vec::new();
        let mut si: usize = 0;
        proof {
            assert(all_sectors.skip(0) =~= all_sectors);
            match fat_entries_of(b, ssz, spc, all_sectors) {
                Some(all) => {
                    assert(Seq::<u32>::empty() + all =~= all);
                },
                None => {},
            }
        }
        while si < fat_sectors.len()
            invariant
                reader.wf(),
                reader.bytes() == b,
                b == old(reader).bytes(),
                0 <= si <= fat_sectors@.len(),
                fat_sectors@ == all_sectors,
                spc == ssz / 4,
                ssz == (1u32 << header.sector_shift) as int,
                2 <= header.sector_shift < 32,
                sector_size == (1u32 << header.sector_shift),
                sector_size >= 4,
                entries_per_sector == spc,
                spc >= 1,
                4 * spc <= ssz,
                ssz <= 0xFFFF_FFFF,
                fat_sector_list(b, *header) == Some(all_sectors),
                match fat_entries_of(b, ssz, spc, all_sectors) {
                    Some(all) => match fat_entries_of(b, ssz, spc, all_sectors.skip(si as int)) {
                        Some(rest) => all =~= entries@ + rest,
                        None => false,
                    },
                    None => match fat_entries_of(b, ssz, spc, all_sectors.skip(si as int)) {
                        Some(_) => false,
                        None => true,
                    },
                },
            decreases fat_sectors@.len() - si,
        {
            let s = fat_sectors[si];
            let ghost tail = all_sectors.skip(si as int);
            proof {
                assert(tail[0] == s);
                assert(tail.skip(1) =~= all_sectors.skip(si + 1));
            }
            if s == FREESECT || s == ENDOFCHAIN {
                si = si + 1;
                continue ;
            }
            let sector_data = match read_sector(reader, s, sector_size) {
                Ok(v) => v,
                Err(e) => {
                    proof {
                        assert(fat_entries_of(b, ssz, spc, tail) is None);
                    }
                    return Err(e);
                },
            };
            let ghost off = (s + 1) * ssz;
            let ghost es0 = entries@;
            let mut j: usize = 0;
            while j < entries_per_sector as usize
                invariant
                    0 <= j <= spc,
                    entries_per_sector == spc,
                    spc >= 1,
                    4 * spc <= ssz,
                    ssz <= 0xFFFF_FFFF,
                    sector_data@.len() == ssz,
                    sector_data@ == b.subrange(off, off + ssz),
                    0 <= off && off + ssz <= b.len(),
                    entries@ == es0 + read_u32s(b, off, spc).take(j as int),
                decreases spc - j,
            {
                let v = crate::bytes_le::u32_from_le(
                    sector_data[4 * j],
                    sector_data[4 * j + 1],
                    sector_data[4 * j + 2],
                    sector_data[4 * j + 3],
                );
                proof {
                    assert(v == le32(b, off + 4 * (j as int)));
                }
                entries.push(v);
                proof {
                    assert(entries@ =~= es0 + read_u32s(b, off, spc).take(j + 1));
                }
                j = j + 1;
            }
            proof {
                assert(read_u32s(b, off, spc).take(spc) =~= read_u32s(b, off, spc));
                match fat_entries_of(b, ssz, spc, all_sectors.skip(si + 1)) {
                    Some(rest) => {
                        assert((es0 + read_u32s(b, off, spc)) + rest =~= es0 + (read_u32s(
                            b,
                            off,
                            spc,
                        ) + rest));
                    },
                    None => {},
                }
            }
            si = si + 1;
        }
        proof {
            assert(all_sectors.skip(si as int) =~= Seq::<u32>::empty());
            assert(entries@ + Seq::<u32>::empty() =~= entries@);
        }
        Ok(FatTable { entries, sector_size })
    }

    /// The next sector in a chain, or `None` at its end.
    pub fn get_next(&self, sector: u32) -> (r: Option<u32>)
        ensures
            r == fat_step(self.entries@, sector),
    {
        if sector as usize >= self.entries.len() {
            return None;
        }
        let next = self.entries[sector as usize];
        if next == ENDOFCHAIN || next == FREESECT || next == FATSECT {
            None
        } else {
            Some(next)
        }
    }

    /// All sectors in the chain starting at `start_sector`; the walk is
    /// bounded by the table length, so it terminates on any table.
    pub fn get_chain(&self, start_sector: u32) -> (r: Vec<u32>)
        ensures
            r@ == fat_chain(self.entries@, start_sector, self.entries@.len() as nat),
            r@.len() <= self.entries@.len(),
    {
        let ghost es = self.entries@;
        let max_chain_length = self.entries.len();
        let mut chain: Vec<u32> = Vec::new();
        let mut current = start_sector;
        let mut count: usize = 0;
        proof {
            lemma_fat_chain_bounded(es, start_sector, es.len() as nat);
        }
        while current != ENDOFCHAIN && current != FREESECT && count < max_chain_length
            invariant
                es == self.entries@,
                max_chain_length == es.len(),
                0 <= count <= max_chain_length,
                chain@.len() == count,
                fat_chain(es, start_sector, es.len() as nat) == chain@ + fat_chain(
                    es,
                    current,
                    (es.len() - count) as nat,
                ),
            decreases es.len() - count,
        {
            let ghost ch0 = chain@;
            let ghost cur0 = current;
            let ghost fuel0 = (es.len() - count) as nat;
            chain.push(current);
            match self.get_next(current) {
                Some(next) => {
                    current = next;
                    proof {
                        assert(fat_chain(es, cur0, fuel0) == seq![cur0] + fat_chain(
                            es,
                            next,
                            (fuel0 - 1) as nat,
                        ));
                        assert(ch0 + (seq![cur0] + fat_chain(es, next, (fuel0 - 1) as nat))
                            =~= chain@ + fat_chain(es, next, (fuel0 - 1) as nat));
                    }
                },
                None => {
                    proof {
                        assert(fat_chain(es, cur0, fuel0) == seq![cur0]);
                        assert(ch0 + seq![cur0] =~= chain@);
                        assert(chain@ + fat_chain(es, cur0, 0) =~= chain@);
                        assert(fat_chain(es, start_sector, es.len() as nat) == chain@);
                    }
                    return chain;
                },
            }
            count = count + 1;
        }
        proof {
            if current == ENDOFCHAIN || current == FREESECT || es.len() - count == 0 {
                assert(fat_chain(es, current, (es.len() - count) as nat) =~= Seq::<u32>::empty());
                assert(chain@ + Seq::<u32>::empty() =~= chain@);
            }
        }
        chain
    }

    /// Assemble the bytes of a sector chain from the file.
    pub fn read_chain(&self, reader: &mut ByteReader, start_sector: u32) -> (r: HwpResult<Vec<u8>>)
        requires
            old(reader).wf(),
            self.sector_size >= 1,
        ensures
            final(reader).wf(),
            final(reader).bytes() == old(reader).bytes(),
            ({
                let chain = fat_chain(self.entries@, start_sector, self.entries@.len() as nat);
                match sectors_data(old(reader).bytes(), self.sector_size as int, chain) {
                    Some(d) => r matches Ok(v) && v@ == d,
                    None => r matches Err(e) && e is BufferUnderflow,
                }
            }),
    {
        let ghost b = reader.bytes();
        let ghost ssz = self.sector_size as int;
        let chain = self.get_chain(start_sector);
        let ghost ch = chain@;
        let mut data: Vec<u8> = Vec::new();
        let mut i: usize = 0;
        proof {
            assert(ch.skip(0) =~= ch);
            match sectors_data(b, ssz, ch) {
                Some(all) => {
                    assert(Seq::<u8>::empty() + all =~= all);
                },
                None => {},
            }
        }
        while i < chain.len()
            invariant
                reader.wf(),
                reader.bytes() == b,
                b == old(reader).bytes(),
                ssz == self.sector_size as int,
                self.sector_size >= 1,
                0 <= i <= ch.len(),
                chain@ == ch,
                ch == fat_chain(self.entries@, start_sector, self.entries@.len() as nat),
                match sectors_data(b, ssz, ch) {
                    Some(all) => match sectors_data(b, ssz, ch.skip(i as int)) {
                        Some(rest) => all =~= data@ + rest,
                        None => false,
                    },
                    None => match sectors_data(b, ssz, ch.skip(i as int)) {
                        Some(_) => false,
                        None => true,
                    },
                },
            decreases ch.len() - i,
        {
            let ghost tail = ch.skip(i as int);
            proof {
                assert(tail[0] == ch[i as int]);
                assert(tail.skip(1) =~= ch.skip(i + 1));
            }
            let mut sector_data = match read_sector(reader, chain[i], self.sector_size) {
                Ok(v) => v,
                Err(e) => {
                    proof {
                        assert(sectors_data(b, ssz, tail) is None);
                    }
                    return Err(e);
                },
            };
            let ghost d0 = data@;
            let ghost sd = sector_data@;
            data.append(&mut sector_data);
            proof {
                let off = (ch[i as int] + 1) * ssz;
                match sectors_data(b, ssz, ch.skip(i + 1)) {
                    Some(rest) => {
                        assert((d0 + sd) + rest =~= d0 + (sd + rest));
                    },
                    None => {},
                }
            }
            i = i + 1;
        }
        proof {
            assert(ch.skip(i as int) =~= Seq::<u32>::empty());
            assert(data@ + Seq::<u8>::empty() =~= data@);
        }
        Ok(data)
    }
}

/// The shifted sector size is at least four and divisible by four.
proof fn lemma_sector_size_bounds(shift: u16)
    requires
        2 <= shift < 32,
    ensures
        (1u32 << shift) >= 4,
        ((1u32 << shift) as int) / 4 >= 1,
        4 * (((1u32 << shift) as int) / 4) == (1u32 << shift) as int,
        ((1u32 << shift) / 4u32) as int == ((1u32 << shift) as int) / 4,
{
    assert((2 <= shift < 32) ==> ((1u32 << shift) >= 4 && ((1u32 << shift) & 3) == 0))
        by (bit_vector);
    assert((1u32 << shift) & 3 == 0 ==> ((1u32 << shift) as int) % 4 == 0) by (bit_vector);
}

/// The 32-bit entries of every listed sector, in order; `None` when one
/// lies outside the file.
pub open spec fn sectors_u32s(b: Seq<u8>, ssz: int, spc: int, sectors: Seq<u32>) -> Option<
    Seq<u32>,
>
    decreases sectors.len(),
{
    if sectors.len() == 0 {
        Some(Seq::<u32>::empty())
    } else {
        let off = (sectors[0] + 1) * ssz;
        if off + ssz > b.len() {
            None
        } else {
            match sectors_u32s(b, ssz, spc, sectors.skip(1)) {
                Some(rest) => Some(read_u32s(b, off, spc) + rest),
                None => None,
            }
        }
    }
}

/// The bytes of the mini sectors in `chain`, cut from the mini stream;
/// `None` when a mini sector lies outside it.
pub open spec fn mini_sectors_data(stream: Seq<u8>, mssz: int, chain: Seq<u32>) -> Option<Seq<u8>>
    decreases chain.len(),
{
    if chain.len() == 0 {
        Some(Seq::<u8>::empty())
    } else {
        let off = chain[0] * mssz;
        if off + mssz > stream.len() {
            None
        } else {
            match mini_sectors_data(stream, mssz, chain.skip(1)) {
                Some(rest) => Some(stream.subrange(off, off + mssz) + rest),
                None => None,
            }
        }
    }
}

/// The mini allocation table and the mini stream it addresses.
pub struct MiniFatTable {
    /// Mini FAT entries.
    pub entries: Vec<u32>,
    /// Mini stream data.
    pub mini_stream: Vec<u8>,
    /// Mini sector size.
    pub mini_sector_size: u32,
}

impl MiniFatTable {
    /// Build the Mini-FAT: read its entries through the regular FAT
    /// chain named in the header, and the mini-stream blob through the
    /// regular FAT from the root entry's start sector.
    pub fn from_reader(
        reader: &mut ByteReader,
        header: &CfbHeader,
        fat: &FatTable,
        mini_stream_start: u32,
    ) -> (r: HwpResult<Self>)
        requires
            old(reader).wf(),
            2 <= header.sector_shift < 32,
            header.mini_sector_shift < 32,
            fat.sector_size >= 1,
        ensures
            final(reader).wf(),
            final(reader).bytes() == old(reader).bytes(),
            ({
                let b = old(reader).bytes();
                let ssz = (1u32 << header.sector_shift) as int;
                let spc = ssz / 4;
                let msecs = if header.mini_fat_sectors > 0 && header.first_mini_fat_sector
                    != ENDOFCHAIN {
                    fat_chain(fat.entries@, header.first_mini_fat_sector, fat.entries@.len() as nat)
                } else {
                    Seq::<u32>::empty()
                };
                match sectors_u32s(b, ssz, spc, msecs) {
                    None => r matches Err(e) && e is BufferUnderflow,
                    Some(es) => {
                        let ms = if mini_stream_start != ENDOFCHAIN {
                            sectors_data(
                                b,
                                fat.sector_size as int,
                                fat_chain(fat.entries@, mini_stream_start, fat.entries@.len() as nat),
                            )
                        } else {
                            Some(Seq::<u8>::empty())
                        };
                        match ms {
                            None => r matches Err(e) && e is BufferUnderflow,
                            Some(d) => r matches Ok(t) && t.entries@ == es && t.mini_stream@ == d
                                && t.mini_sector_size == (1u32 << header.mini_sector_shift),
                        }
                    },
                }
            }),
    {
        let ghost b = reader.bytes();
        let mini_sector_size = header.mini_sector_size();
        let sector_size = header.sector_size();
        proof {
            lemma_sector_size_bounds(header.sector_shift);
        }
        let entries_per_sector = sector_size / 4;
        let ghost ssz = sector_size as int;
        let ghost spc = entries_per_sector as int;

        let mut entries: Vec<u32> = Vec::new();
        if header.mini_fat_sectors > 0 && header.first_mini_fat_sector != ENDOFCHAIN {
            let mini_fat_chain = fat.get_chain(header.first_mini_fat_sector);
            let ghost msecs = mini_fat_chain@;
            let mut si: usize = 0;
            proof {
                assert(msecs.skip(0) =~= msecs);
                match sectors_u32s(b, ssz, spc, msecs) {
                    Some(all) => {
                        assert(Seq::<u32>::empty() + all =~= all);
                    },
                    None => {},
                }
            }
            while si < mini_fat_chain.len()
                invariant
                    reader.wf(),
                    reader.bytes() == b,
                    b == old(reader).bytes(),
                    0 <= si <= msecs.len(),
                    mini_fat_chain@ == msecs,
                    msecs == fat_chain(
                        fat.entries@,
                        header.first_mini_fat_sector,
                        fat.entries@.len() as nat,
                    ),
                    header.mini_fat_sectors > 0 && header.first_mini_fat_sector != ENDOFCHAIN,
                    spc == ssz / 4,
                    ssz == (1u32 << header.sector_shift) as int,
                    2 <= header.sector_shift < 32,
                    sector_size == (1u32 << header.sector_shift),
                    sector_size >= 4,
                    entries_per_sector == spc,
                    spc >= 1,
                    4 * spc <= ssz,
                    ssz <= 0xFFFF_FFFF,
                    match sectors_u32s(b, ssz, spc, msecs) {
                        Some(all) => match sectors_u32s(b, ssz, spc, msecs.skip(si as int)) {
                            Some(rest) => all =~= entries@ + rest,
                            None => false,
                        },
                        None => match sectors_u32s(b, ssz, spc, msecs.skip(si as int)) {
                            Some(_) => false,
                            None => true,
                        },
                    },
                decreases msecs.len() - si,
            {
                let sec = mini_fat_chain[si];
                let ghost tail = msecs.skip(si as int);
                proof {
                    assert(tail[0] == sec);
                    assert(tail.skip(1) =~= msecs.skip(si + 1));
                }
                let sector_data = match read_sector(reader, sec, sector_size) {
                    Ok(v) => v,
                    Err(e) => {
                        proof {
                            assert(sectors_u32s(b, ssz, spc, tail) is None);
                        }
                        return Err(e);
                    },
                };
                let ghost off = (sec + 1) * ssz;
                let ghost es0 = entries@;
                let mut j: usize = 0;
                while j < entries_per_sector as usize
                    invariant
                        0 <= j <= spc,
                        entries_per_sector == spc,
                        spc >= 1,
                        4 * spc <= ssz,
                        ssz <= 0xFFFF_FFFF,
                        sector_data@.len() == ssz,
                        sector_data@ == b.subrange(off, off + ssz),
                        0 <= off && off + ssz <= b.len(),
                        entries@ == es0 + read_u32s(b, off, spc).take(j as int),
                    decreases spc - j,
                {
                    let v = crate::bytes_le::u32_from_le(
                        sector_data[4 * j],
                        sector_data[4 * j + 1],
                        sector_data[4 * j + 2],
                        sector_data[4 * j + 3],
                    );
                    proof {
                        assert(v == le32(b, off + 4 * (j as int)));
                    }
                    entries.push(v);
                    proof {
                        assert(entries@ =~= es0 + read_u32s(b, off, spc).take(j + 1));
                    }
                    j = j + 1;
                }
                proof {
                    assert(read_u32s(b, off, spc).take(spc) =~= read_u32s(b, off, spc));
                    match sectors_u32s(b, ssz, spc, msecs.skip(si + 1)) {
                        Some(rest) => {
                            assert((es0 + read_u32s(b, off, spc)) + rest =~= es0 + (read_u32s(
                                b,
                                off,
                                spc,
                            ) + rest));
                        },
                        None => {},
                    }
                }
                si = si + 1;
            }
            proof {
                assert(msecs.skip(si as int) =~= Seq::<u32>::empty());
                assert(entries@ + Seq::<u32>::empty() =~= entries@);
            }
        }
        proof {
            let msecs = if header.mini_fat_sectors > 0 && header.first_mini_fat_sector
                != ENDOFCHAIN {
                fat_chain(fat.entries@, header.first_mini_fat_sector, fat.entries@.len() as nat)
            } else {
                Seq::<u32>::empty()
            };
            assert(sectors_u32s(b, ssz, spc, msecs) == Some(entries@));
        }

        let mini_stream: Vec<u8> = if mini_stream_start != ENDOFCHAIN {
            match fat.read_chain(reader, mini_stream_start) {
                Ok(v) => v,
                Err(e) => {
                    return Err(e);
                },
            }
        } else {
            Vec::new()
        };
        Ok(MiniFatTable { entries, mini_stream, mini_sector_size })
    }

    /// The next mini sector in a chain, or `None` at its end.
    pub fn get_next(&self, mini_sector: u32) -> (r: Option<u32>)
        ensures
            r == mini_step(self.entries@, mini_sector),
    {
        if mini_sector as usize >= self.entries.len() {
            return None;
        }
        let next = self.entries[mini_sector as usize];
        if next == ENDOFCHAIN || next == FREESECT {
            None
        } else {
            Some(next)
        }
    }

    /// All mini sectors in the chain starting at `start_mini_sector`;
    /// the walk is bounded by the table length.
    pub fn get_chain(&self, start_mini_sector: u32) -> (r: Vec<u32>)
        ensures
            r@ == mini_chain(self.entries@, start_mini_sector, self.entries@.len() as nat),
            r@.len() <= self.entries@.len(),
    {
        let ghost es = self.entries@;
        let max_chain_length = self.entries.len();
        let mut chain: Vec<u32> = Vec::new();
        let mut current = start_mini_sector;
        let mut count: usize = 0;
        proof {
            lemma_mini_chain_bounded(es, start_mini_sector, es.len() as nat);
        }
        while current != ENDOFCHAIN && current != FREESECT && count < max_chain_length
            invariant
                es == self.entries@,
                max_chain_length == es.len(),
                0 <= count <= max_chain_length,
                chain@.len() == count,
                mini_chain(es, start_mini_sector, es.len() as nat) == chain@ + mini_chain(
                    es,
                    current,
                    (es.len() - count) as nat,
                ),
            decreases es.len() - count,
        {
            let ghost ch0 = chain@;
            let ghost cur0 = current;
            let ghost fuel0 = (es.len() - count) as nat;
            chain.push(current);
            match self.get_next(current) {
                Some(next) => {
                    current = next;
                    proof {
                        assert(mini_chain(es, cur0, fuel0) == seq![cur0] + mini_chain(
                            es,
                            next,
                            (fuel0 - 1) as nat,
                        ));
                        assert(ch0 + (seq![cur0] + mini_chain(es, next, (fuel0 - 1) as nat))
                            =~= chain@ + mini_chain(es, next, (fuel0 - 1) as nat));
                    }
                },
                None => {
                    proof {
                        assert(mini_chain(es, cur0, fuel0) == seq![cur0]);
                        assert(ch0 + seq![cur0] =~= chain@);
                        assert(chain@ + mini_chain(es, cur0, 0) =~= chain@);
                        assert(mini_chain(es, start_mini_sector, es.len() as nat) == chain@);
                    }
                    return chain;
                },
            }
            count = count + 1;
        }
        proof {
            if current == ENDOFCHAIN || current == FREESECT || es.len() - count == 0 {
                assert(mini_chain(es, current, (es.len() - count) as nat) =~= Seq::<u32>::empty());
                assert(chain@ + Seq::<u32>::empty() =~= chain@);
            }
        }
        chain
    }

    /// Assemble the bytes of a mini-sector chain from the mini stream.
    pub fn read_chain(&self, start_mini_sector: u32) -> (r: HwpResult<Vec<u8>>)
        requires
            self.mini_sector_size >= 1,
        ensures
            ({
                let chain = mini_chain(
                    self.entries@,
                    start_mini_sector,
                    self.entries@.len() as nat,
                );
                match mini_sectors_data(self.mini_stream@, self.mini_sector_size as int, chain) {
                    Some(d) => r matches Ok(v) && v@ == d,
                    None => r matches Err(e) && e is InvalidFormat,
                }
            }),
    {
        let ghost stream = self.mini_stream@;
        let ghost mssz = self.mini_sector_size as int;
        let chain = self.get_chain(start_mini_sector);
        let ghost ch = chain@;
        let mut data: Vec<u8> = Vec::new();
        let mut i: usize = 0;
        proof {
            assert(ch.skip(0) =~= ch);
            match mini_sectors_data(stream, mssz, ch) {
                Some(all) => {
                    assert(Seq::<u8>::empty() + all =~= all);
                },
                None => {},
            }
        }
        while i < chain.len()
            invariant
                stream == self.mini_stream@,
                mssz == self.mini_sector_size as int,
                self.mini_sector_size >= 1,
                0 <= i <= ch.len(),
                chain@ == ch,
                ch == mini_chain(self.entries@, start_mini_sector, self.entries@.len() as nat),
                match mini_sectors_data(stream, mssz, ch) {
                    Some(all) => match mini_sectors_data(stream, mssz, ch.skip(i as int)) {
                        Some(rest) => all =~= data@ + rest,
                        None => false,
                    },
                    None => match mini_sectors_data(stream, mssz, ch.skip(i as int)) {
                        Some(_) => false,
                        None => true,
                    },
                },
            decreases ch.len() - i,
        {
            let ghost tail = ch.skip(i as int);
            proof {
                assert(tail[0] == ch[i as int]);
                assert(tail.skip(1) =~= ch.skip(i + 1));
            }
            let sector = chain[i];
            let len = self.mini_stream.len();
            proof {
                assert((sector as u64) * (self.mini_sector_size as u64) <= 0xFFFF_FFFFu64
                    * 0xFFFF_FFFFu64) by (nonlinear_arith)
                    requires
                        sector <= 0xFFFF_FFFFu32,
                        self.mini_sector_size <= 0xFFFF_FFFFu32,
                ;
            }
            let off64: u64 = (sector as u64) * (self.mini_sector_size as u64);
            if off64 > len as u64 || (len as u64 - off64) < self.mini_sector_size as u64 {
                proof {
                    assert(mini_sectors_data(stream, mssz, tail) is None);
                }
                return Err(
                    HwpError::InvalidFormat {
                        reason: String::from_str("mini sector offset out of bounds"),
                    },
                );
            }
            let off = off64 as usize;
            let ghost d0 = data@;
            let mut k: usize = 0;
            let ghost target = stream.subrange(off as int, off as int + mssz);
            while k < self.mini_sector_size as usize
                invariant
                    stream == self.mini_stream@,
                    mssz == self.mini_sector_size as int,
                    0 <= k <= mssz,
                    len == stream.len(),
                    off + mssz <= stream.len(),
                    target == stream.subrange(off as int, off as int + mssz),
                    data@ == d0 + target.take(k as int),
                decreases mssz - k,
            {
                let byte = self.mini_stream[off + k];
                data.push(byte);
                proof {
                    assert(data@ =~= d0 + target.take(k + 1));
                }
                k = k + 1;
            }
            proof {
                assert(target.take(mssz) =~= target);
                match mini_sectors_data(stream, mssz, ch.skip(i + 1)) {
                    Some(rest) => {
                        assert((d0 + target) + rest =~= d0 + (target + rest));
                    },
                    None => {},
                }
            }
            i = i + 1;
        }
        proof {
            assert(ch.skip(i as int) =~= Seq::<u32>::empty());
            assert(data@ + Seq::<u8>::empty() =~= data@);
        }
        Ok(data)
    }
}

} // verus!
