//! The directory tree: fixed 128-byte entries naming the container's
//! storages and streams, linked as one red-black tree per storage level.
//! Traversal is bounded by entry count so corrupt trees are tolerated.

use vstd::prelude::*;
use vstd::string::StringExecFns;
use crate::bytes_le::{le16, le32, le64};
use crate::errors::{HwpError, HwpResult};
use crate::reader::{units_before_null, utf16_decode_lossy, utf16_to_string_lossy};

verus! {

/// "No sibling / no child" marker in directory links.
pub const NOSTREAM: u32 = 0xFFFFFFFF;

/// What a directory entry describes.
#[derive(Debug, Clone, Copy, PartialEq, Eq, Structural)]
pub enum ObjectType {
    /// Unknown or unallocated.
    Unknown,
    /// Storage object (directory).
    Storage,
    /// Stream object (file).
    Stream,
    /// Root storage.
    RootStorage,
}

/// The object type a type byte maps to.
pub open spec fn object_type_of(value: u8) -> ObjectType {
    if value == 1 {
        ObjectType::Storage
    } else if value == 2 {
        ObjectType::Stream
    } else if value == 5 {
        ObjectType::RootStorage
    } else {
        ObjectType::Unknown
    }
}

impl ObjectType {
    /// Map a type byte to its object type.
    pub fn from_u8(value: u8) -> (r: Self)
        ensures
            r == object_type_of(value),
    {
        if value == 1 {
            ObjectType::Storage
        } else if value == 2 {
            ObjectType::Stream
        } else if value == 5 {
            ObjectType::RootStorage
        } else {
            ObjectType::Unknown
        }
    }
}

/// Red-black colour of a directory tree node.
#[derive(Debug, Clone, Copy, PartialEq, Eq, Structural)]
pub enum ColorFlag {
    Red,
    Black,
}

/// The colour a flag byte maps to.
pub open spec fn color_flag_of(value: u8) -> ColorFlag {
    if value == 0 {
        ColorFlag::Red
    } else {
        ColorFlag::Black
    }
}

impl ColorFlag {
    /// Map a flag byte to its colour.
    pub fn from_u8(value: u8) -> (r: Self)
        ensures
            r == color_flag_of(value),
    {
        if value == 0 {
            ColorFlag::Red
        } else {
            ColorFlag::Black
        }
    }
}

/// One parsed 128-byte directory entry.
#[derive(Debug, Clone)]
pub struct DirectoryEntry {
    /// Entry name (UTF-16LE, up to 32 characters).
    pub name: String,
    /// Name length in bytes (including terminator).
    pub name_len: u16,
    /// Object type.
    pub object_type: ObjectType,
    /// Colour flag (for the red-black tree).
    pub color_flag: ColorFlag,
    /// Left sibling entry index.
    pub left_sibling_did: u32,
    /// Right sibling entry index.
    pub right_sibling_did: u32,
    /// Child entry index (for storage objects).
    pub child_did: u32,
    /// CLSID (16 bytes).
    pub clsid: Vec<u8>,
    /// State bits.
    pub state_bits: u32,
    /// Creation time.
    pub creation_time: u64,
    /// Modified time.
    pub modified_time: u64,
    /// Starting sector (for streams).
    pub starting_sector: u32,
    /// Stream size (low 32 bits).
    pub stream_size_low: u32,
    /// Stream size (high 32 bits, only meaningful for version 4).
    pub stream_size_high: u32,
}

/// The name code units of an entry's 128 bytes: what the declared name
/// length covers (capped at the 32-unit field), up to a null unit.
pub open spec fn entry_name_units(b: Seq<u8>) -> Seq<u16> {
    let nl = le16(b, 64);
    if nl > 2 {
        let n = if (nl - 2) / 2 > 32 {
            32int
        } else {
            (nl - 2) / 2
        };
        units_before_null(Seq::new(n as nat, |i: int| le16(b, 2 * i) as u16))
    } else {
        Seq::<u16>::empty()
    }
}

/// The field values an entry parsed from `b` must carry.
pub open spec fn entry_matches(e: DirectoryEntry, b: Seq<u8>) -> bool {
    &&& e.name@ == utf16_decode_lossy(entry_name_units(b))
    &&& e.name_len == le16(b, 64)
    &&& e.object_type == object_type_of(b[66])
    &&& e.color_flag == color_flag_of(b[67])
    &&& e.left_sibling_did == le32(b, 68)
    &&& e.right_sibling_did == le32(b, 72)
    &&& e.child_did == le32(b, 76)
    &&& e.clsid@ == b.subrange(80, 96)
    &&& e.state_bits == le32(b, 96)
    &&& e.creation_time == le64(b, 100)
    &&& e.modified_time == le64(b, 108)
    &&& e.starting_sector == le32(b, 116)
    &&& e.stream_size_low == le32(b, 120)
    &&& e.stream_size_high == le32(b, 124)
}

impl DirectoryEntry {
    /// Parse one directory entry from its 128 bytes.
    pub fn from_bytes(data: &[u8]) -> (r: HwpResult<Self>)
        ensures
            if data@.len() < 128 {
                r matches Err(e) && e is InvalidFormat
            } else {
                r matches Ok(e) && entry_matches(e, data@)
            },
    {
        if data.len() < 128 {
            return Err(
                HwpError::InvalidFormat { reason: String::from_str("directory entry too small") },
            );
        }
        let ghost b = data@;
        let mut reader = crate::reader::ByteReader::new(data);
        let name_bytes = match reader.read_bytes(64) {
            Ok(v) => v,
            Err(_) => {
                proof {
                    assert(false);
                }
                Vec::new()
            },
        };
        let name_len = read16(&mut reader);
        // Decode the name from its UTF-16LE units.
        let name = if name_len > 2 {
            let mut utf16_len = ((name_len - 2) / 2) as usize;
            if utf16_len > 32 {
                utf16_len = 32;
            }
            let mut units: Vec<u16> = Vec::new();
            let mut i: usize = 0;
            let ghost full = Seq::new(utf16_len as nat, |k: int| le16(b, 2 * k) as u16);
            let mut ended = false;
            while !ended && i < utf16_len
                invariant
                    0 <= i <= utf16_len,
                    name_bytes@ == b.subrange(0, 64),
                    b.len() >= 128,
                    utf16_len <= 32,
                    full == Seq::new(utf16_len as nat, |k: int| le16(b, 2 * k) as u16),
                    !ended ==> units@ == full.take(i as int) && (forall|j: int|
                        0 <= j < i ==> full[j] != 0),
                    ended ==> units@ == units_before_null(full),
                decreases utf16_len - i + if ended {
                    0int
                } else {
                    1int
                },
            {
                let ch = crate::bytes_le::u16_from_le(name_bytes[2 * i], name_bytes[2 * i + 1]);
                proof {
                    assert(ch == le16(b, 2 * i));
                }
                if ch == 0 {
                    ended = true;
                    proof {
                        lemma_units_prefix(full, i as int);
                    }
                } else {
                    units.push(ch);
                    proof {
                        assert(units@ =~= full.take(i + 1));
                    }
                    i = i + 1;
                }
            }
            proof {
                if !ended {
                    assert(full.take(i as int) =~= full);
                    lemma_units_prefix_full(full);
                }
                assert(units@ == units_before_null(full));
            }
            utf16_to_string_lossy(&units)
        } else {
            String::new()
        };
        let object_type = ObjectType::from_u8(read8(&mut reader));
        let color_flag = ColorFlag::from_u8(read8(&mut reader));
        let left_sibling_did = read32(&mut reader);
        let right_sibling_did = read32(&mut reader);
        let child_did = read32(&mut reader);
        let clsid = match reader.read_bytes(16) {
            Ok(v) => v,
            Err(_) => {
                proof {
                    assert(false);
                }
                Vec::new()
            },
        };
        let state_bits = read32(&mut reader);
        let creation_time = read64(&mut reader);
        let modified_time = read64(&mut reader);
        let starting_sector = read32(&mut reader);
        let stream_size_low = read32(&mut reader);
        let stream_size_high = read32(&mut reader);
        Ok(
            DirectoryEntry {
                name,
                name_len,
                object_type,
                color_flag,
                left_sibling_did,
                right_sibling_did,
                child_did,
                clsid,
                state_bits,
                creation_time,
                modified_time,
                starting_sector,
                stream_size_low,
                stream_size_high,
            },
        )
    }

    /// The total stream size from its two halves.
    pub fn stream_size(&self) -> (r: u64)
        ensures
            r == self.stream_size_low + self.stream_size_high * 0x1_0000_0000,
    {
        crate::bytes_le::u64_from_halves(self.stream_size_low, self.stream_size_high)
    }

    /// Whether this is an allocated entry.
    pub fn is_valid(&self) -> (r: bool)
        ensures
            r == (self.object_type != ObjectType::Unknown),
    {
        !matches!(self.object_type, ObjectType::Unknown)
    }

    /// Whether this is the root entry.
    pub fn is_root(&self) -> (r: bool)
        ensures
            r == (self.object_type == ObjectType::RootStorage),
    {
        matches!(self.object_type, ObjectType::RootStorage)
    }

    /// Whether this is a storage (directory).
    pub fn is_storage(&self) -> (r: bool)
        ensures
            r == (self.object_type == ObjectType::Storage || self.object_type
                == ObjectType::RootStorage),
    {
        matches!(self.object_type, ObjectType::Storage | ObjectType::RootStorage)
    }

    /// Whether this is a stream (file).
    pub fn is_stream(&self) -> (r: bool)
        ensures
            r == (self.object_type == ObjectType::Stream),
    {
        matches!(self.object_type, ObjectType::Stream)
    }
}

/// A prefix ending at a null unit is the before-null prefix.
proof fn lemma_units_prefix(full: Seq<u16>, idx: int)
    requires
        0 <= idx <= full.len(),
        forall|j: int| 0 <= j < idx ==> full[j] != 0,
        idx < full.len() ==> full[idx] == 0,
    ensures
        units_before_null(full) == full.take(idx),
    decreases idx,
{
    if idx == 0 {
        assert(units_before_null(full) =~= full.take(0));
    } else {
        lemma_units_prefix(full.skip(1), idx - 1);
        assert(full.skip(1).take(idx - 1) =~= full.take(idx).skip(1));
        assert(units_before_null(full) == seq![full[0]] + units_before_null(full.skip(1)));
        assert(seq![full[0]] + full.take(idx).skip(1) =~= full.take(idx));
    }
}

/// Without a null unit, the before-null prefix is the whole sequence.
proof fn lemma_units_prefix_full(full: Seq<u16>)
    requires
        forall|j: int| 0 <= j < full.len() ==> full[j] != 0,
    ensures
        units_before_null(full) == full,
    decreases full.len(),
{
    if full.len() == 0 {
    } else {
        lemma_units_prefix_full(full.skip(1));
        assert(units_before_null(full) == seq![full[0]] + units_before_null(full.skip(1)));
        assert(seq![full[0]] + full.skip(1) =~= full);
    }
}

/// The entries a sequence of references points at.
pub open spec fn deref_views(s: Seq<&DirectoryEntry>) -> Seq<DirectoryEntry> {
    s.map_values(|e: &DirectoryEntry| *e)
}

/// The stream entries of a directory, in order.
pub open spec fn stream_entries(es: Seq<DirectoryEntry>) -> Seq<DirectoryEntry>
    decreases es.len(),
{
    if es.len() == 0 {
        Seq::<DirectoryEntry>::empty()
    } else if es[0].object_type == ObjectType::Stream {
        seq![es[0]] + stream_entries(es.skip(1))
    } else {
        stream_entries(es.skip(1))
    }
}

/// The storage entries of a directory, in order.
pub open spec fn storage_entries(es: Seq<DirectoryEntry>) -> Seq<DirectoryEntry>
    decreases es.len(),
{
    if es.len() == 0 {
        Seq::<DirectoryEntry>::empty()
    } else if es[0].object_type == ObjectType::Storage || es[0].object_type
        == ObjectType::RootStorage {
        seq![es[0]] + storage_entries(es.skip(1))
    } else {
        storage_entries(es.skip(1))
    }
}

/// The index of the first root-storage entry at or after `k`, if any.
pub open spec fn first_root_index(es: Seq<DirectoryEntry>, k: int) -> Option<int>
    decreases es.len() - k,
{
    if k < 0 || k >= es.len() {
        None
    } else if es[k].object_type == ObjectType::RootStorage {
        Some(k)
    } else {
        first_root_index(es, k + 1)
    }
}

/// The first root at index `i`, after none before it, is the find result.
proof fn lemma_first_root_at(es: Seq<DirectoryEntry>, k: int, i: int)
    requires
        0 <= k <= i < es.len(),
        es[i].object_type == ObjectType::RootStorage,
        forall|j: int| k <= j < i ==> (#[trigger] es[j]).object_type != ObjectType::RootStorage,
    ensures
        first_root_index(es, k) == Some(i),
    decreases i - k,
{
    if k < i {
        lemma_first_root_at(es, k + 1, i);
    }
}

/// With no root anywhere the find result is `None`.
proof fn lemma_first_root_none(es: Seq<DirectoryEntry>, k: int)
    requires
        0 <= k,
        forall|j: int| k <= j < es.len() ==> (#[trigger] es[j]).object_type
            != ObjectType::RootStorage,
    ensures
        first_root_index(es, k) is None,
    decreases es.len() - k,
{
    if k < es.len() {
        lemma_first_root_none(es, k + 1);
    }
}

/// The index of the first entry named `name`, if any.
pub open spec fn find_entry_index(entries: Seq<DirectoryEntry>, name: Seq<char>) -> Option<int>
    decreases entries.len(),
{
    if entries.len() == 0 {
        None
    } else if entries[0].name@ == name {
        Some(0int)
    } else {
        match find_entry_index(entries.skip(1), name) {
            Some(i) => Some(i + 1),
            None => None,
        }
    }
}

/// The in-order sibling traversal from `did`, bounded by `fuel`.
pub open spec fn siblings_spec(entries: Seq<DirectoryEntry>, did: u32, fuel: nat) -> Seq<
    DirectoryEntry,
>
    decreases fuel,
{
    if did == NOSTREAM || fuel == 0 || did >= entries.len() {
        Seq::<DirectoryEntry>::empty()
    } else {
        let e = entries[did as int];
        siblings_spec(entries, e.left_sibling_did, (fuel - 1) as nat) + seq![e] + siblings_spec(
            entries,
            e.right_sibling_did,
            (fuel - 1) as nat,
        )
    }
}

/// The directory tree, held as a flat entry array.
pub struct DirectoryTree {
    /// All directory entries.
    pub entries: Vec<DirectoryEntry>,
}

impl DirectoryTree {
    /// Create a directory tree over parsed entries.
    pub fn new(entries: Vec<DirectoryEntry>) -> (r: Self)
        ensures
            r.entries@ == entries@,
    {
        DirectoryTree { entries }
    }

    /// Find the first entry with the given name.
    pub fn find(&self, name: &str) -> (r: Option<&DirectoryEntry>)
        ensures
            match find_entry_index(self.entries@, name@) {
                Some(i) => r matches Some(e) && *e == self.entries@[i],
                None => r is None,
            },
    {
        let target = String::from_str(name);
        let ghost es = self.entries@;
        let mut i: usize = 0;
        while i < self.entries.len()
            invariant
                es == self.entries@,
                target@ == name@,
                0 <= i <= es.len(),
                forall|j: int| 0 <= j < i ==> es[j].name@ != name@,
            decreases es.len() - i,
        {
            if self.entries[i].name.eq(&target) {
                proof {
                    lemma_find_entry_at(es, name@, i as int);
                }
                return Some(&self.entries[i]);
            }
            i = i + 1;
        }
        proof {
            lemma_find_entry_none(es, name@);
        }
        None
    }

    /// Find an entry by path; stream names embed their logical path as a
    /// single entry name, so this is a plain name lookup.
    pub fn find_by_path(&self, path: &str) -> (r: Option<&DirectoryEntry>)
        ensures
            match find_entry_index(self.entries@, path@) {
                Some(i) => r matches Some(e) && *e == self.entries@[i],
                None => r is None,
            },
    {
        self.find(path)
    }

    /// All stream entries.
    pub fn streams(&self) -> (r: Vec<&DirectoryEntry>)
        ensures
            deref_views(r@) == stream_entries(self.entries@),
    {
        let ghost es = self.entries@;
        let mut out: Vec<&DirectoryEntry> = Vec::new();
        let mut i: usize = 0;
        proof {
            assert(es.skip(0) =~= es);
            assert(deref_views(out@) =~= Seq::<DirectoryEntry>::empty());
            assert(Seq::<DirectoryEntry>::empty() + stream_entries(es) =~= stream_entries(es));
        }
        while i < self.entries.len()
            invariant
                es == self.entries@,
                0 <= i <= es.len(),
                stream_entries(es) == deref_views(out@) + stream_entries(es.skip(i as int)),
            decreases es.len() - i,
        {
            let ghost tail = es.skip(i as int);
            proof {
                assert(tail[0] == es[i as int]);
                assert(tail.skip(1) =~= es.skip(i + 1));
            }
            let ghost o0 = out@;
            if self.entries[i].is_stream() {
                out.push(&self.entries[i]);
                proof {
                    assert(deref_views(out@) =~= deref_views(o0).push(es[i as int]));
                    assert(deref_views(o0) + (seq![es[i as int]] + stream_entries(es.skip(i + 1)))
                        =~= deref_views(out@) + stream_entries(es.skip(i + 1)));
                }
            }
            i = i + 1;
        }
        proof {
            assert(es.skip(i as int) =~= Seq::<DirectoryEntry>::empty());
            assert(deref_views(out@) + Seq::<DirectoryEntry>::empty() =~= deref_views(out@));
        }
        out
    }

    /// All storage entries.
    pub fn storages(&self) -> (r: Vec<&DirectoryEntry>)
        ensures
            deref_views(r@) == storage_entries(self.entries@),
    {
        let ghost es = self.entries@;
        let mut out: Vec<&DirectoryEntry> = Vec::new();
        let mut i: usize = 0;
        proof {
            assert(es.skip(0) =~= es);
            assert(deref_views(out@) =~= Seq::<DirectoryEntry>::empty());
            assert(Seq::<DirectoryEntry>::empty() + storage_entries(es) =~= storage_entries(es));
        }
        while i < self.entries.len()
            invariant
                es == self.entries@,
                0 <= i <= es.len(),
                storage_entries(es) == deref_views(out@) + storage_entries(es.skip(i as int)),
            decreases es.len() - i,
        {
            let ghost tail = es.skip(i as int);
            proof {
                assert(tail[0] == es[i as int]);
                assert(tail.skip(1) =~= es.skip(i + 1));
            }
            let ghost o0 = out@;
            if self.entries[i].is_storage() {
                out.push(&self.entries[i]);
                proof {
                    assert(deref_views(out@) =~= deref_views(o0).push(es[i as int]));
                    assert(deref_views(o0) + (seq![es[i as int]] + storage_entries(es.skip(i + 1)))
                        =~= deref_views(out@) + storage_entries(es.skip(i + 1)));
                }
            }
            i = i + 1;
        }
        proof {
            assert(es.skip(i as int) =~= Seq::<DirectoryEntry>::empty());
            assert(deref_views(out@) + Seq::<DirectoryEntry>::empty() =~= deref_views(out@));
        }
        out
    }

    /// The first root-storage entry, if any.
    pub fn root(&self) -> (r: Option<&DirectoryEntry>)
        ensures
            match first_root_index(self.entries@, 0) {
                Some(i) => r matches Some(e) && *e == self.entries@[i],
                None => r is None,
            },
    {
        let ghost es = self.entries@;
        let mut i: usize = 0;
        while i < self.entries.len()
            invariant
                es == self.entries@,
                0 <= i <= es.len(),
                forall|j: int| 0 <= j < i ==> (#[trigger] es[j]).object_type
                    != ObjectType::RootStorage,
            decreases es.len() - i,
        {
            if self.entries[i].is_root() {
                proof {
                    lemma_first_root_at(es, 0, i as int);
                }
                return Some(&self.entries[i]);
            }
            i = i + 1;
        }
        proof {
            lemma_first_root_none(es, 0);
        }
        None
    }

    /// The entry at an index, if it exists.
    pub fn get(&self, did: u32) -> (r: Option<&DirectoryEntry>)
        ensures
            did < self.entries@.len() ==> (r matches Some(e) && *e == self.entries@[did as int]),
            did >= self.entries@.len() ==> r is None,
    {
        if (did as usize) < self.entries.len() {
            Some(&self.entries[did as usize])
        } else {
            None
        }
    }

    /// The children of a storage entry, in sibling-tree order; traversal
    /// depth is capped by the entry count, so corrupt trees terminate.
    pub fn get_children(&self, parent: &DirectoryEntry) -> (r: Vec<&DirectoryEntry>)
        ensures
            ({
                let is_storage = parent.object_type == ObjectType::Storage || parent.object_type
                    == ObjectType::RootStorage;
                if is_storage && parent.child_did != NOSTREAM {
                    deref_views(r@) == siblings_spec(
                        self.entries@,
                        parent.child_did,
                        self.entries@.len() as nat,
                    )
                } else {
                    deref_views(r@) == Seq::<DirectoryEntry>::empty()
                }
            }),
    {
        if !parent.is_storage() {
            let r: Vec<&DirectoryEntry> = Vec::new();
            proof {
                assert(deref_views(r@) =~= Seq::<DirectoryEntry>::empty());
            }
            return r;
        }
        let mut children: Vec<&DirectoryEntry> = Vec::new();
        proof {
            assert(deref_views(children@) =~= Seq::<DirectoryEntry>::empty());
        }
        if parent.child_did != NOSTREAM {
            let fuel = self.entries.len();
            self.collect_siblings(parent.child_did, fuel, &mut children);
            proof {
                assert(Seq::<DirectoryEntry>::empty() + siblings_spec(
                    self.entries@,
                    parent.child_did,
                    self.entries@.len() as nat,
                ) =~= siblings_spec(
                    self.entries@,
                    parent.child_did,
                    self.entries@.len() as nat,
                ));
            }
        }
        children
    }

    /// Append the in-order sibling traversal from `did` to `result`,
    /// descending at most `fuel` levels.
    fn collect_siblings<'b>(&'b self, did: u32, fuel: usize, result: &mut Vec<&'b DirectoryEntry>)
        ensures
            deref_views(final(result)@) == deref_views(old(result)@) + siblings_spec(
                self.entries@,
                did,
                fuel as nat,
            ),
        decreases fuel,
    {
        if did == NOSTREAM || fuel == 0 || did as usize >= self.entries.len() {
            proof {
                assert(deref_views(old(result)@) + siblings_spec(self.entries@, did, fuel as nat)
                    =~= deref_views(old(result)@));
            }
            return ;
        }
        let entry = &self.entries[did as usize];
        self.collect_siblings(entry.left_sibling_did, fuel - 1, result);
        let ghost mid0 = result@;
        result.push(entry);
        proof {
            assert(deref_views(result@) =~= deref_views(mid0).push(self.entries@[did as int]));
        }
        self.collect_siblings(entry.right_sibling_did, fuel - 1, result);
        proof {
            assert(deref_views(final(result)@) =~= deref_views(old(result)@) + siblings_spec(
                self.entries@,
                did,
                fuel as nat,
            ));
        }
    }
}

/// A byte-for-byte copy of a vector.
pub fn clone_bytes(v: &Vec<u8>) -> (r: Vec<u8>)
    ensures
        r@ == v@,
{
    let mut out: Vec<u8> = Vec::new();
    let mut i: usize = 0;
    while i < v.len()
        invariant
            0 <= i <= v@.len(),
            out@ == v@.take(i as int),
        decreases v@.len() - i,
    {
        out.push(v[i]);
        proof {
            assert(out@ =~= v@.take(i + 1));
        }
        i = i + 1;
    }
    proof {
        assert(v@.take(i as int) =~= v@);
    }
    out
}

/// The first match at index `i` after no earlier match is the find result.
proof fn lemma_find_entry_at(entries: Seq<DirectoryEntry>, name: Seq<char>, i: int)
    requires
        0 <= i < entries.len(),
        entries[i].name@ == name,
        forall|j: int| 0 <= j < i ==> entries[j].name@ != name,
    ensures
        find_entry_index(entries, name) == Some(i),
    decreases i,
{
    if i == 0 {
    } else {
        lemma_find_entry_at(entries.skip(1), name, i - 1);
    }
}

/// With no match anywhere the find result is `None`.
proof fn lemma_find_entry_none(entries: Seq<DirectoryEntry>, name: Seq<char>)
    requires
        forall|j: int| 0 <= j < entries.len() ==> entries[j].name@ != name,
    ensures
        find_entry_index(entries, name) is None,
    decreases entries.len(),
{
    if entries.len() == 0 {
    } else {
        lemma_find_entry_none(entries.skip(1), name);
    }
}

/// Read helpers over a reader known to have enough bytes left.
fn read8(reader: &mut crate::reader::ByteReader) -> (r: u8)
    requires
        old(reader).wf(),
        old(reader).remaining_spec() >= 1,
    ensures
        final(reader).wf(),
        final(reader).bytes() == old(reader).bytes(),
        final(reader).at() == old(reader).at() + 1,
        r == old(reader).bytes()[old(reader).at()],
{
    match reader.read_u8() {
        Ok(v) => v,
        Err(_) => {
            proof {
                assert(false);
            }
            0
        },
    }
}

fn read16(reader: &mut crate::reader::ByteReader) -> (r: u16)
    requires
        old(reader).wf(),
        old(reader).remaining_spec() >= 2,
    ensures
        final(reader).wf(),
        final(reader).bytes() == old(reader).bytes(),
        final(reader).at() == old(reader).at() + 2,
        r == le16(old(reader).bytes(), old(reader).at()),
{
    match reader.read_u16() {
        Ok(v) => v,
        Err(_) => {
            proof {
                assert(false);
            }
            0
        },
    }
}

fn read32(reader: &mut crate::reader::ByteReader) -> (r: u32)
    requires
        old(reader).wf(),
        old(reader).remaining_spec() >= 4,
    ensures
        final(reader).wf(),
        final(reader).bytes() == old(reader).bytes(),
        final(reader).at() == old(reader).at() + 4,
        r == le32(old(reader).bytes(), old(reader).at()),
{
    match reader.read_u32() {
        Ok(v) => v,
        Err(_) => {
            proof {
                assert(false);
            }
            0
        },
    }
}

fn read64(reader: &mut crate::reader::ByteReader) -> (r: u64)
    requires
        old(reader).wf(),
        old(reader).remaining_spec() >= 8,
    ensures
        final(reader).wf(),
        final(reader).bytes() == old(reader).bytes(),
        final(reader).at() == old(reader).at() + 8,
        r == le64(old(reader).bytes(), old(reader).at()),
{
    match reader.read_u64() {
        Ok(v) => v,
        Err(_) => {
            proof {
                assert(false);
            }
            0
        },
    }
}

} // verus!
