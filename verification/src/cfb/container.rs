//! The container: header, FAT, Mini-FAT and directory, with a per-name
//! stream cache guaranteeing at most one assembly per stream name.

use vstd::prelude::*;
use vstd::string::StringExecFns;
use crate::cfb::{ENDOFCHAIN, cfb_signature};
use crate::cfb::directory::{
    DirectoryEntry,
    DirectoryTree,
    ObjectType,
    deref_views,
    entry_matches,
    find_entry_index,
    first_root_index,
    object_type_of,
    stream_entries,
    storage_entries,
};
use crate::cfb::fat::{
    FatTable,
    MiniFatTable,
    difat_inline,
    difat_overflow,
    fat_chain,
    fat_entries_of,
    mini_chain,
    mini_sectors_data,
    sectors_data,
    sectors_u32s,
};
use crate::cfb::header::{CfbHeader, header_matches};
use crate::cfb::stream::{Stream, clone_string, clone_vec_u8, truncated_to};
use crate::bytes_le::{le16, le32};
use crate::compression::{custom_framed_payload, inflate_zlib, is_custom_framed};
use crate::errors::{HwpError, HwpResult};
use crate::reader::ByteReader;

verus! {

/// The bytes a directory entry's stream resolves to, or `None` when its
/// chain runs outside its backing store.
pub open spec fn stream_data_spec(
    b: Seq<u8>,
    cutoff: u32,
    fat: FatTable,
    mini_fat: Option<MiniFatTable>,
    entry: DirectoryEntry,
) -> Option<Seq<u8>> {
    let size = entry.stream_size_low + entry.stream_size_high * 0x1_0000_0000;
    if size == 0 {
        Some(Seq::<u8>::empty())
    } else if size < cutoff {
        match mini_fat {
            None => None,
            Some(m) => if entry.starting_sector != ENDOFCHAIN {
                match mini_sectors_data(
                    m.mini_stream@,
                    m.mini_sector_size as int,
                    mini_chain(m.entries@, entry.starting_sector, m.entries@.len() as nat),
                ) {
                    Some(raw) => Some(truncated_to(raw, size as int)),
                    None => None,
                }
            } else {
                Some(Seq::<u8>::empty())
            },
        }
    } else {
        if entry.starting_sector != ENDOFCHAIN {
            match sectors_data(
                b,
                fat.sector_size as int,
                fat_chain(fat.entries@, entry.starting_sector, fat.entries@.len() as nat),
            ) {
                Some(raw) => Some(truncated_to(raw, size as int)),
                None => None,
            }
        } else {
            Some(Seq::<u8>::empty())
        }
    }
}

/// Whether the first 512 bytes carry a plausible header: the magic, the
/// little-endian marker, a supported major version and sane sector
/// shifts.
pub open spec fn header_sane(b: Seq<u8>) -> bool {
    &&& b.len() >= 512
    &&& b.subrange(0, 8) == cfb_signature()
    &&& le16(b, 28) == 0xFFFE
    &&& (le16(b, 26) == 3 || le16(b, 26) == 4)
    &&& 2 <= le16(b, 30) && le16(b, 30) < 32
    &&& le16(b, 32) < 32
}

/// The sector size the header declares.
pub open spec fn spec_sector_size(b: Seq<u8>) -> int {
    (1u32 << (le16(b, 30) as u16)) as int
}

/// The header's inline DIFAT array.
pub open spec fn spec_difat(b: Seq<u8>) -> Seq<u32> {
    Seq::new(109, |i: int| le32(b, 76 + 4 * i) as u32)
}

/// The FAT sector index list the file declares, or `None` when the
/// DIFAT overflow chain runs outside the file.
pub open spec fn spec_fat_sectors(b: Seq<u8>) -> Option<Seq<u32>> {
    let ssz = spec_sector_size(b);
    let inline = difat_inline(spec_difat(b));
    if le32(b, 72) > 0 {
        match difat_overflow(b, ssz, ssz / 4, le32(b, 68) as u32, le32(b, 72) as int) {
            Some(extra) => Some(inline + extra),
            None => None,
        }
    } else {
        Some(inline)
    }
}

/// The flat FAT the file resolves to, or `None` when a FAT sector lies
/// outside the file.
pub open spec fn spec_fat_entries(b: Seq<u8>) -> Option<Seq<u32>> {
    match spec_fat_sectors(b) {
        Some(secs) => fat_entries_of(b, spec_sector_size(b), spec_sector_size(b) / 4, secs),
        None => None,
    }
}

/// The directory stream's bytes, or `None` when its chain runs outside
/// the file; a container without a directory chain has an empty one.
pub open spec fn spec_dir_data(b: Seq<u8>) -> Option<Seq<u8>> {
    if le32(b, 48) == ENDOFCHAIN {
        Some(Seq::<u8>::empty())
    } else {
        match spec_fat_entries(b) {
            Some(es) => sectors_data(
                b,
                spec_sector_size(b),
                fat_chain(es, le32(b, 48) as u32, es.len() as nat),
            ),
            None => None,
        }
    }
}

/// The first root-storage slot of the directory bytes at or after `k`.
pub open spec fn root_slot(d: Seq<u8>, k: int) -> Option<int>
    decreases d.len() - 128 * k,
{
    if k < 0 || 128 * k + 128 > d.len() {
        None
    } else if object_type_of(d[128 * k + 66]) == ObjectType::RootStorage {
        Some(k)
    } else {
        root_slot(d, k + 1)
    }
}

/// Whether the header and root entry call for a Mini-FAT.
pub open spec fn spec_mini_needed(b: Seq<u8>, d: Seq<u8>) -> bool {
    match root_slot(d, 0) {
        Some(k) => le32(b, 64) > 0 && le32(d, 128 * k + 116) != ENDOFCHAIN,
        None => false,
    }
}

/// The Mini-FAT entries the file resolves to, or `None` when a named
/// sector lies outside the file.
pub open spec fn spec_mini_entries(b: Seq<u8>) -> Option<Seq<u32>> {
    match spec_fat_entries(b) {
        Some(es) => {
            let msecs = if le32(b, 64) > 0 && le32(b, 60) != ENDOFCHAIN {
                fat_chain(es, le32(b, 60) as u32, es.len() as nat)
            } else {
                Seq::<u32>::empty()
            };
            sectors_u32s(b, spec_sector_size(b), spec_sector_size(b) / 4, msecs)
        },
        None => None,
    }
}

/// The mini-stream blob read through the regular FAT from the root
/// entry's start sector.
pub open spec fn spec_mini_stream(b: Seq<u8>, d: Seq<u8>) -> Option<Seq<u8>> {
    match (spec_fat_entries(b), root_slot(d, 0)) {
        (Some(es), Some(k)) => {
            let start = le32(d, 128 * k + 116) as u32;
            if start != ENDOFCHAIN {
                sectors_data(b, spec_sector_size(b), fat_chain(es, start, es.len() as nat))
            } else {
                Some(Seq::<u8>::empty())
            }
        },
        _ => None,
    }
}

/// When opening is owed success: a sane header whose FAT, directory
/// chain and (when called for) Mini-FAT all resolve inside the file.
pub open spec fn container_resolves(b: Seq<u8>) -> bool {
    &&& header_sane(b)
    &&& spec_fat_entries(b) is Some
    &&& match spec_dir_data(b) {
        Some(d) => spec_mini_needed(b, d) ==> (spec_mini_entries(b) is Some && spec_mini_stream(
            b,
            d,
        ) is Some),
        None => false,
    }
}

/// A parsed compound-file container.
pub struct CfbContainer {
    /// Container header.
    pub header: CfbHeader,
    /// FAT table.
    pub fat: FatTable,
    /// Mini FAT table, when the container has one.
    pub mini_fat: Option<MiniFatTable>,
    /// Directory tree.
    pub directory: DirectoryTree,
    /// Streams already assembled, by name.
    pub streams: Vec<Stream>,
    /// The file this container was parsed from.
    pub file: Ghost<Seq<u8>>,
}

impl CfbContainer {
    /// The file bytes this container was parsed from.
    pub open spec fn file_bytes(&self) -> Seq<u8> {
        self.file@
    }

    /// The streams assembled so far.
    pub open spec fn cached(&self) -> Seq<Stream> {
        self.streams@
    }

    /// The container's structural invariant: sane sector shifts, tables
    /// consistent with them, and every cached stream resolved exactly as
    /// its directory entry dictates.
    pub open spec fn wf(&self) -> bool {
        &&& 2 <= self.header.sector_shift < 32
        &&& self.header.mini_sector_shift < 32
        &&& self.header.major_version == 3 || self.header.major_version == 4
        &&& self.fat.sector_size == (1u32 << self.header.sector_shift)
        &&& (self.mini_fat matches Some(m) ==> m.mini_sector_size == (1u32
            << self.header.mini_sector_shift) && m.mini_sector_size >= 1)
        &&& forall|k: int|
            0 <= k < self.cached().len() ==> {
                let s = #[trigger] self.cached()[k];
                match find_entry_index(self.directory.entries@, s.name@) {
                    Some(i) => stream_data_spec(
                        self.file_bytes(),
                        self.header.mini_stream_cutoff_size,
                        self.fat,
                        self.mini_fat,
                        self.directory.entries@[i],
                    ) == Some(s.data@) && s.size == s.data@.len(),
                    None => false,
                }
            }
    }

    /// Parse a container: header, FAT, directory, and Mini-FAT when the
    /// header names one and the root entry points at a mini stream.
    pub fn from_reader(reader: &mut ByteReader) -> (r: HwpResult<Self>)
        requires
            old(reader).wf(),
        ensures
            final(reader).wf(),
            final(reader).bytes() == old(reader).bytes(),
            container_post(old(reader).bytes(), r),
    {
        let ghost b = reader.bytes();
        let header = match CfbHeader::from_reader(reader) {
            Ok(h) => h,
            Err(e) => {
                return Err(e);
            },
        };
        if !header.is_valid_version() {
            return Err(
                HwpError::InvalidFormat { reason: String::from_str("unsupported container version") },
            );
        }
        if header.sector_shift < 2 || header.sector_shift >= 32 || header.mini_sector_shift >= 32 {
            return Err(
                HwpError::InvalidFormat { reason: String::from_str("implausible sector size") },
            );
        }
        proof {
            // Header fields read back as the file bytes dictate.
            assert(header.difat@ =~= spec_difat(b));
            assert((1u32 << header.sector_shift) as int == spec_sector_size(b));
            assert(crate::cfb::fat::fat_sector_list(b, header) == spec_fat_sectors(b));
        }
        let fat = match FatTable::from_reader(reader, &header) {
            Ok(f) => f,
            Err(e) => {
                proof {
                    assert(spec_fat_entries(b) is None);
                    assert(!container_resolves(b));
                }
                return Err(e);
            },
        };
        proof {
            assert(Some(fat.entries@) == spec_fat_entries(b));
        }
        let directory_entries = match Self::read_directory_entries(reader, &header, &fat) {
            Ok(es) => es,
            Err(e) => {
                proof {
                    assert(spec_dir_data(b) is None);
                    assert(!container_resolves(b));
                }
                return Err(e);
            },
        };
        let directory = DirectoryTree::new(directory_entries);
        let ghost dir_d: Seq<u8> = if header.first_dir_sector == ENDOFCHAIN {
            Seq::<u8>::empty()
        } else {
            sectors_data(
                b,
                fat.sector_size as int,
                fat_chain(fat.entries@, header.first_dir_sector, fat.entries@.len() as nat),
            )->Some_0
        };
        proof {
            if header.first_dir_sector == ENDOFCHAIN {
                assert(spec_dir_data(b) == Some(dir_d));
                assert(directory.entries@.len() == 0);
            } else {
                match sectors_data(
                    b,
                    fat.sector_size as int,
                    fat_chain(fat.entries@, header.first_dir_sector, fat.entries@.len() as nat),
                ) {
                    Some(d) => {
                        assert(dir_d == d);
                        assert(spec_dir_data(b) == Some(d));
                    },
                    None => {
                        assert(false);
                    },
                }
            }
            assert(directory.entries@.len() == dir_d.len() / 128);
            lemma_root_slot_matches(directory.entries@, dir_d, 0);
            let sh = header.sector_shift;
            assert(2 <= sh < 32 ==> (1u32 << sh) >= 4) by (bit_vector);
        }
        let mini_fat: Option<MiniFatTable> = match directory.root() {
            Some(root) => {
                if header.mini_fat_sectors > 0 && root.starting_sector != ENDOFCHAIN {
                    let start = root.starting_sector;
                    match MiniFatTable::from_reader(reader, &header, &fat, start) {
                        Ok(m) => {
                            proof {
                                assert(spec_mini_needed(b, dir_d));
                                assert(Some(m.entries@) == spec_mini_entries(b));
                                assert(Some(m.mini_stream@) == spec_mini_stream(b, dir_d));
                            }
                            Some(m)
                        },
                        Err(e) => {
                            proof {
                                assert(spec_mini_entries(b) is None || spec_mini_stream(b, dir_d)
                                    is None);
                                assert(!container_resolves(b));
                            }
                            return Err(e);
                        },
                    }
                } else {
                    proof {
                        assert(!spec_mini_needed(b, dir_d));
                    }
                    None
                }
            },
            None => {
                proof {
                    assert(root_slot(dir_d, 0) is None);
                    assert(!spec_mini_needed(b, dir_d));
                }
                None
            },
        };
        proof {
            let ms = header.mini_sector_shift;
            assert(ms < 32 ==> (1u32 << ms) >= 1) by (bit_vector);
            assert(container_resolves(b));
        }
        Ok(
            CfbContainer {
                header,
                fat,
                mini_fat,
                directory,
                streams: Vec::new(),
                file: Ghost(reader.bytes()),
            },
        )
    }

    /// Read every 128-byte directory slot across the directory chain.
    fn read_directory_entries(
        reader: &mut ByteReader,
        header: &CfbHeader,
        fat: &FatTable,
    ) -> (r: HwpResult<Vec<DirectoryEntry>>)
        requires
            old(reader).wf(),
            2 <= header.sector_shift < 32,
            fat.sector_size == (1u32 << header.sector_shift),
        ensures
            final(reader).wf(),
            final(reader).bytes() == old(reader).bytes(),
            r matches Ok(es) ==> if header.first_dir_sector == ENDOFCHAIN {
                es@.len() == 0
            } else {
                let chain = fat_chain(
                    fat.entries@,
                    header.first_dir_sector,
                    fat.entries@.len() as nat,
                );
                match sectors_data(old(reader).bytes(), fat.sector_size as int, chain) {
                    Some(d) => es@.len() == d.len() / 128 && forall|k: int|
                        0 <= k < es@.len() ==> entry_matches(
                            #[trigger] es@[k],
                            d.subrange(128 * k, 128 * k + 128),
                        ),
                    None => false,
                }
            },
            r matches Err(e) ==> e is BufferUnderflow && header.first_dir_sector != ENDOFCHAIN
                && sectors_data(
                old(reader).bytes(),
                fat.sector_size as int,
                fat_chain(fat.entries@, header.first_dir_sector, fat.entries@.len() as nat),
            ) is None,
    {
        let ghost b = reader.bytes();
        proof {
            let sh = header.sector_shift;
            assert(2 <= sh < 32 ==> (1u32 << sh) >= 4) by (bit_vector);
        }
        let mut entries: Vec<DirectoryEntry> = Vec::new();
        if header.first_dir_sector == ENDOFCHAIN {
            return Ok(entries);
        }
        let dir_data = match fat.read_chain(reader, header.first_dir_sector) {
            Ok(v) => v,
            Err(e) => {
                return Err(e);
            },
        };
        let ghost d = dir_data@;
        let ghost chain = fat_chain(
            fat.entries@,
            header.first_dir_sector,
            fat.entries@.len() as nat,
        );
        let total = dir_data.len() / 128;
        let dl = dir_data.len();
        proof {
            lemma_sectors_data_len(b, fat.sector_size as int, chain);
        }
        let mut k: usize = 0;
        while k < total
            invariant
                0 <= k <= total,
                total == d.len() / 128,
                dir_data@ == d,
                dl == d.len(),
                128 * total <= d.len(),
                entries@.len() == k,
                forall|j: int|
                    0 <= j < k ==> entry_matches(
                        #[trigger] entries@[j],
                        d.subrange(128 * j, 128 * j + 128),
                    ),
            decreases total - k,
        {
            proof {
                assert(128 * (k as int) + 128 <= d.len());
            }
            let slot = vstd::slice::slice_subrange(dir_data.as_slice(), 128 * k, 128 * k + 128);
            let entry = match DirectoryEntry::from_bytes(slot) {
                Ok(e) => e,
                Err(_) => {
                    proof {
                        assert(false);
                    }
                    return Err(
                        HwpError::InvalidFormat { reason: String::from_str("unreachable") },
                    );
                },
            };
            entries.push(entry);
            k = k + 1;
        }
        Ok(entries)
    }

    /// A cached stream by name, if it was already read.
    pub fn get_stream(&self, name: &str) -> (r: Option<&Stream>)
        requires
            self.wf(),
        ensures
            r matches Some(s) ==> s.name@ == name@ && (find_entry_index(
                self.directory.entries@,
                name@,
            ) matches Some(i) && stream_data_spec(
                self.file_bytes(),
                self.header.mini_stream_cutoff_size,
                self.fat,
                self.mini_fat,
                self.directory.entries@[i],
            ) == Some(s.data@)),
    {
        match self.cache_position(name) {
            Some(k) => {
                proof {
                    let ghost sck = self.cached()[k as int];
                    assert(sck == self.streams@[k as int]);
                }
                Some(&self.streams[k])
            },
            None => None,
        }
    }

    /// The cache slot holding a stream with the given name, if any.
    fn cache_position(&self, name: &str) -> (r: Option<usize>)
        ensures
            r matches Some(k) ==> 0 <= k < self.cached().len() && self.cached()[k as int].name@
                == name@,
            r is None ==> forall|j: int|
                0 <= j < self.cached().len() ==> (#[trigger] self.cached()[j]).name@ != name@,
    {
        let mut k: usize = 0;
        while k < self.streams.len()
            invariant
                0 <= k <= self.streams@.len(),
                forall|j: int| 0 <= j < k ==> (#[trigger] self.streams@[j]).name@ != name@,
            decreases self.streams@.len() - k,
        {
            if crate::cfb::stream::str_eq_chars(self.streams[k].name.as_str(), name) {
                return Some(k);
            }
            k = k + 1;
        }
        None
    }

    /// Read a stream by name, assembling it on first use and caching it;
    /// later reads of the same name return the cached bytes.
    pub fn read_stream(&mut self, reader: &mut ByteReader, name: &str) -> (r: HwpResult<Stream>)
        requires
            old(self).wf(),
            old(reader).wf(),
            old(reader).bytes() == old(self).file_bytes(),
        ensures
            final(self).wf(),
            final(reader).wf(),
            final(reader).bytes() == old(reader).bytes(),
            final(self).file_bytes() == old(self).file_bytes(),
            final(self).header == old(self).header,
            final(self).fat == old(self).fat,
            final(self).mini_fat == old(self).mini_fat,
            final(self).directory.entries@ == old(self).directory.entries@,
            r is Err ==> final(self).cached() == old(self).cached(),
            match find_entry_index(old(self).directory.entries@, name@) {
                Some(i) => if old(self).directory.entries@[i].object_type != ObjectType::Stream
                    && !(exists|k: int|
                    0 <= k < old(self).cached().len() && (#[trigger] old(self).cached()[k]).name@
                        == name@) {
                    r matches Err(e) && (e is InvalidFormat || e is BufferUnderflow)
                } else {
                    match stream_data_spec(
                        old(self).file_bytes(),
                        old(self).header.mini_stream_cutoff_size,
                        old(self).fat,
                        old(self).mini_fat,
                        old(self).directory.entries@[i],
                    ) {
                        Some(d) => r matches Ok(s) && s.name@ == name@ && s.data@ == d,
                        None => r matches Err(e) && (e is InvalidFormat || e is BufferUnderflow),
                    }
                },
                None => r matches Err(e) && e is InvalidFormat,
            },
    {
        // A cached stream answers the read directly.
        match self.cache_position(name) {
            Some(k) => {
                proof {
                    let ghost sck = self.cached()[k as int];
                    assert(sck == self.streams@[k as int]);
                }
                let cached = &self.streams[k];
                return Ok(Stream::new(clone_string(&cached.name), clone_vec_u8(&cached.data)));
            },
            None => {},
        }
        let entry_index = match self.find_entry_position(name) {
            Some(i) => i,
            None => {
                return Err(
                    HwpError::InvalidFormat { reason: String::from_str("stream not found") },
                );
            },
        };
        proof {
            lemma_find_entry_props(self.directory.entries@, name@);
            let sh = self.header.sector_shift;
            assert(2 <= sh < 32 ==> (1u32 << sh) >= 4) by (bit_vector);
        }
        let entry = &self.directory.entries[entry_index];
        let stream = match Stream::from_entry(
            reader,
            entry,
            &self.header,
            &self.fat,
            match &self.mini_fat {
                Some(m) => Some(m),
                None => None,
            },
        ) {
            Ok(s) => s,
            Err(e) => {
                return Err(e);
            },
        };
        let result = Stream::new(clone_string(&stream.name), clone_vec_u8(&stream.data));
        proof {
            assert(stream_data_spec(
                self.file_bytes(),
                self.header.mini_stream_cutoff_size,
                self.fat,
                self.mini_fat,
                self.directory.entries@[entry_index as int],
            ) == Some(stream.data@));
        }
        let ghost cache0 = self.cached();
        self.streams.push(stream);
        proof {
            assert(forall|k: int|
                0 <= k < cache0.len() ==> #[trigger] self.cached()[k] == cache0[k]);
        }
        Ok(result)
    }

    /// Read a stream by path; stream names embed their path, so this is
    /// a plain name lookup.
    pub fn read_stream_by_path(&mut self, reader: &mut ByteReader, path: &str) -> (r: HwpResult<
        Stream,
    >)
        requires
            old(self).wf(),
            old(reader).wf(),
            old(reader).bytes() == old(self).file_bytes(),
        ensures
            final(self).wf(),
            final(reader).wf(),
            final(reader).bytes() == old(reader).bytes(),
            final(self).file_bytes() == old(self).file_bytes(),
            final(self).directory.entries@ == old(self).directory.entries@,
            r is Err ==> final(self).cached() == old(self).cached(),
            match find_entry_index(old(self).directory.entries@, path@) {
                Some(i) => if old(self).directory.entries@[i].object_type != ObjectType::Stream
                    && !(exists|k: int|
                    0 <= k < old(self).cached().len() && (#[trigger] old(self).cached()[k]).name@
                        == path@) {
                    r matches Err(e) && (e is InvalidFormat || e is BufferUnderflow)
                } else {
                    match stream_data_spec(
                        old(self).file_bytes(),
                        old(self).header.mini_stream_cutoff_size,
                        old(self).fat,
                        old(self).mini_fat,
                        old(self).directory.entries@[i],
                    ) {
                        Some(d) => r matches Ok(s) && s.name@ == path@ && s.data@ == d,
                        None => r matches Err(e) && (e is InvalidFormat || e is BufferUnderflow),
                    }
                },
                None => r matches Err(e) && e is InvalidFormat,
            },
    {
        self.read_stream(reader, path)
    }

    /// The index of the first directory entry with the given name.
    fn find_entry_position(&self, name: &str) -> (r: Option<usize>)
        ensures
            match find_entry_index(self.directory.entries@, name@) {
                Some(i) => r matches Some(k) && k == i,
                None => r is None,
            },
    {
        let ghost es = self.directory.entries@;
        let mut i: usize = 0;
        while i < self.directory.entries.len()
            invariant
                es == self.directory.entries@,
                0 <= i <= es.len(),
                forall|j: int| 0 <= j < i ==> es[j].name@ != name@,
            decreases es.len() - i,
        {
            if crate::cfb::stream::str_eq_chars(self.directory.entries[i].name.as_str(), name) {
                proof {
                    lemma_find_entry_at_idx(es, name@, i as int);
                }
                return Some(i);
            }
            i = i + 1;
        }
        proof {
            lemma_find_entry_none_idx(es, name@);
        }
        None
    }

    /// The names of all stream entries.
    pub fn list_streams(&self) -> (r: Vec<String>)
        ensures
            r@.len() == stream_entries(self.directory.entries@).len(),
            forall|k: int|
                0 <= k < r@.len() ==> (#[trigger] r@[k])@ == stream_entries(
                    self.directory.entries@,
                )[k].name@,
    {
        let entries = self.directory.streams();
        let ghost svs = stream_entries(self.directory.entries@);
        let mut names: Vec<String> = Vec::new();
        let mut i: usize = 0;
        while i < entries.len()
            invariant
                deref_views(entries@) == svs,
                0 <= i <= entries@.len(),
                names@.len() == i,
                forall|k: int| 0 <= k < i ==> (#[trigger] names@[k])@ == svs[k].name@,
            decreases entries@.len() - i,
        {
            names.push(clone_string(&entries[i].name));
            i = i + 1;
        }
        names
    }

    /// The names of all storage entries.
    pub fn list_storages(&self) -> (r: Vec<String>)
        ensures
            r@.len() == storage_entries(self.directory.entries@).len(),
            forall|k: int|
                0 <= k < r@.len() ==> (#[trigger] r@[k])@ == storage_entries(
                    self.directory.entries@,
                )[k].name@,
    {
        let entries = self.directory.storages();
        let ghost svs = storage_entries(self.directory.entries@);
        let mut names: Vec<String> = Vec::new();
        let mut i: usize = 0;
        while i < entries.len()
            invariant
                deref_views(entries@) == svs,
                0 <= i <= entries@.len(),
                names@.len() == i,
                forall|k: int| 0 <= k < i ==> (#[trigger] names@[k])@ == svs[k].name@,
            decreases entries@.len() - i,
        {
            names.push(clone_string(&entries[i].name));
            i = i + 1;
        }
        names
    }

    /// Whether a stream with the given name exists.
    pub fn has_stream(&self, name: &str) -> (r: bool)
        ensures
            r == match find_entry_index(self.directory.entries@, name@) {
                Some(i) => self.directory.entries@[i].object_type == ObjectType::Stream,
                None => false,
            },
    {
        match self.directory.find(name) {
            Some(e) => e.is_stream(),
            None => false,
        }
    }

    /// The first root directory entry, if any.
    pub fn root_entry(&self) -> (r: Option<&DirectoryEntry>)
        ensures
            match crate::cfb::directory::first_root_index(self.directory.entries@, 0) {
                Some(i) => r matches Some(e) && *e == self.directory.entries@[i],
                None => r is None,
            },
    {
        self.directory.root()
    }
}

/// Assembled chain bytes cover exactly one sector size per chain link.
proof fn lemma_sectors_data_len(b: Seq<u8>, ssz: int, chain: Seq<u32>)
    requires
        ssz >= 1,
    ensures
        match sectors_data(b, ssz, chain) {
            Some(d) => d.len() == chain.len() * ssz,
            None => true,
        },
    decreases chain.len(),
{
    if chain.len() == 0 {
    } else {
        lemma_sectors_data_len(b, ssz, chain.skip(1));
        match sectors_data(b, ssz, chain) {
            Some(d) => {
                assert(chain.skip(1).len() == chain.len() - 1);
                assert((chain.len() - 1) * ssz + ssz == chain.len() * ssz) by (nonlinear_arith);
            },
            None => {},
        }
    }
}

/// A found index is in range and points at a matching name.
proof fn lemma_find_entry_props(entries: Seq<DirectoryEntry>, name: Seq<char>)
    ensures
        match find_entry_index(entries, name) {
            Some(i) => 0 <= i < entries.len() && entries[i].name@ == name,
            None => true,
        },
    decreases entries.len(),
{
    if entries.len() == 0 {
    } else if entries[0].name@ == name {
    } else {
        lemma_find_entry_props(entries.skip(1), name);
    }
}

/// The first match at index `i` after no earlier match is the find result.
proof fn lemma_find_entry_at_idx(entries: Seq<DirectoryEntry>, name: Seq<char>, i: int)
    requires
        0 <= i < entries.len(),
        entries[i].name@ == name,
        forall|j: int| 0 <= j < i ==> entries[j].name@ != name,
    ensures
        find_entry_index(entries, name) == Some(i),
    decreases i,
{
    if i == 0 {
    } else {
        lemma_find_entry_at_idx(entries.skip(1), name, i - 1);
    }
}

/// With no match anywhere the find result is `None`.
proof fn lemma_find_entry_none_idx(entries: Seq<DirectoryEntry>, name: Seq<char>)
    requires
        forall|j: int| 0 <= j < entries.len() ==> entries[j].name@ != name,
    ensures
        find_entry_index(entries, name) is None,
    decreases entries.len(),
{
    if entries.len() == 0 {
    } else {
        lemma_find_entry_none_idx(entries.skip(1), name);
    }
}

/// The components a parsed container must carry, all pinned to the
/// file bytes: the FAT, the directory entries slot by slot, and the
/// Mini-FAT exactly when the header and root entry call for one.
pub open spec fn container_components(b: Seq<u8>, c: CfbContainer) -> bool {
    &&& Some(c.fat.entries@) == spec_fat_entries(b)
    &&& match spec_dir_data(b) {
        Some(d) => {
            &&& c.directory.entries@.len() == d.len() / 128
            &&& (forall|k: int|
                0 <= k < c.directory.entries@.len() ==> entry_matches(
                    #[trigger] c.directory.entries@[k],
                    d.subrange(128 * k, 128 * k + 128),
                ))
            &&& if spec_mini_needed(b, d) {
                c.mini_fat matches Some(m) && Some(m.entries@) == spec_mini_entries(b) && Some(
                    m.mini_stream@,
                ) == spec_mini_stream(b, d)
            } else {
                c.mini_fat is None
            }
        },
        None => false,
    }
}

/// Everything a freshly parsed container guarantees about itself.
pub open spec fn container_ok_for(c: CfbContainer, b: Seq<u8>) -> bool {
    &&& c.wf()
    &&& c.file_bytes() == b
    &&& header_matches(c.header, b)
    &&& c.cached().len() == 0
    &&& container_resolves(b)
    &&& container_components(b, c)
}

/// What parsing a container from file bytes guarantees.
pub open spec fn container_post(b: Seq<u8>, r: HwpResult<CfbContainer>) -> bool {
    &&& (r matches Ok(c) ==> container_ok_for(c, b))
    &&& (container_resolves(b) ==> r is Ok)
    &&& (b.len() < 512 ==> r is Err)
    &&& (b.len() >= 512 && b.subrange(0, 8) != cfb_signature() ==> (r matches Err(e) && e
        is InvalidFormat))
    &&& (b.len() >= 512 && b.subrange(0, 8) == cfb_signature() && le16(b, 28) != 0xFFFE ==> (r
        matches Err(e) && e is InvalidFormat))
    &&& (b.len() >= 512 && !(le16(b, 26) == 3 || le16(b, 26) == 4) ==> r is Err)
}

/// A root found among parsed entries stands exactly where a root slot
/// stands in the directory bytes, with the same start sector.
proof fn lemma_root_slot_matches(es: Seq<DirectoryEntry>, d: Seq<u8>, k: int)
    requires
        es.len() == d.len() / 128,
        0 <= k,
        forall|j: int|
            0 <= j < es.len() ==> entry_matches(
                #[trigger] es[j],
                d.subrange(128 * j, 128 * j + 128),
            ),
    ensures
        first_root_index(es, k) == root_slot(d, k),
        match first_root_index(es, k) {
            Some(i) => es[i].starting_sector == le32(d, 128 * i + 116),
            None => true,
        },
    decreases es.len() - k,
{
    proof_div_bounds(d.len() as int);
    if k >= es.len() {
    } else {
        assert(entry_matches(es[k], d.subrange(128 * k, 128 * k + 128)));
        assert(d.subrange(128 * k, 128 * k + 128)[66] == d[128 * k + 66]);
        if es[k].object_type == ObjectType::RootStorage {
            assert(es[k].starting_sector == le32(d.subrange(128 * k, 128 * k + 128), 116));
        } else {
            lemma_root_slot_matches(es, d, k + 1);
        }
    }
}

/// Division bounds linking slot counts to byte lengths.
proof fn proof_div_bounds(n: int)
    requires
        n >= 0,
    ensures
        128 * (n / 128) <= n,
        n < 128 * (n / 128 + 1),
{
    assert(128 * (n / 128) <= n) by (nonlinear_arith)
        requires
            n >= 0,
    ;
    assert(n < 128 * (n / 128 + 1)) by (nonlinear_arith)
        requires
            n >= 0,
    ;
}

/// A stream paired with its compression mark, as handed to callers that
/// manage decompression themselves.
#[derive(Debug)]
pub struct CfbStream {
    /// Stream name.
    pub name: String,
    /// Stream data (possibly compressed).
    pub data: Vec<u8>,
    /// Whether the stream carries a zlib header.
    pub compressed: bool,
}

impl CfbStream {
    /// Create a stream and mark whether its head carries a zlib header.
    pub fn new(name: String, data: Vec<u8>) -> (r: Self)
        ensures
            r.name@ == name@,
            r.data@ == data@,
            r.compressed == crate::cfb::stream::has_zlib_header(data@),
    {
        let compressed = if data.len() >= 2 {
            let h = data[0] as u32 * 0x100 + data[1] as u32;
            h == 0x789C || h == 0x78DA || h == 0x7801 || h == 0x785E || h == 0x78DE
        } else {
            false
        };
        CfbStream { name, data, compressed }
    }

    /// The raw bytes.
    pub fn raw_data(&self) -> (r: &[u8])
        ensures
            r@ == self.data@,
    {
        self.data.as_slice()
    }

    /// The decompressed bytes: unmarked streams are returned as they
    /// are; marked ones go through the custom frame, then zlib.
    pub fn decompressed_data(&self) -> (r: HwpResult<Vec<u8>>)
        ensures
            !self.compressed ==> (r matches Ok(v) && v@ == self.data@),
            self.compressed && is_custom_framed(self.data@) ==> match custom_framed_payload(
                self.data@,
            ) {
                Some(x) => r matches Ok(v) && v@ == x,
                None => if self.data@.len() < 8 || le32(self.data@, 0) == 0 || le32(self.data@, 0)
                    > crate::compression::MAX_UNCOMPRESSED_SIZE {
                    r matches Err(e) && e is DecompressionError
                } else {
                    match inflate_zlib(self.data@) {
                        Some(z) => r matches Ok(v) && v@ == z,
                        None => match inflate_zlib(self.data@.skip(4)) {
                            Some(z) => r matches Ok(v) && v@ == z,
                            None => r matches Err(e) && e is DecompressionError,
                        },
                    }
                },
            },
            self.compressed && !is_custom_framed(self.data@) ==> match inflate_zlib(self.data@) {
                Some(z) => r matches Ok(v) && v@ == z,
                None => r matches Err(e) && e is DecompressionError,
            },
    {
        if !self.compressed {
            return Ok(clone_vec_u8(&self.data));
        }
        if crate::compression::is_hwp_compressed(self.data.as_slice()) {
            return crate::compression::decompress_hwp(self.data.as_slice());
        }
        crate::compression::decompress_zlib(self.data.as_slice())
    }
}

} // verus!
