use hwp::cfb::container::CfbStream;
use hwp::cfb::directory::{ColorFlag, DirectoryEntry, DirectoryTree, ObjectType};
use hwp::cfb::fat::{FatTable, MiniFatTable};
use hwp::cfb::header::CfbHeader;
use hwp::cfb::parse_cfb_bytes;
use hwp::cfb::{ENDOFCHAIN, DIR_ENTRY_SIZE};
use hwp::reader::ByteReader;

const CFB_SIGNATURE: [u8; 8] = [0xD0, 0xCF, 0x11, 0xE0, 0xA1, 0xB1, 0x1A, 0xE1];

fn create_test_cfb_header() -> Vec<u8> {
    let mut data = vec![0u8; 512];

    data[0..8].copy_from_slice(&CFB_SIGNATURE);

    // Minor version (0x003E)
    data[0x18] = 0x3E;
    data[0x19] = 0x00;

    // Major version (3)
    data[0x1A] = 0x03;
    data[0x1B] = 0x00;

    // Byte order (0xFFFE)
    data[0x1C] = 0xFE;
    data[0x1D] = 0xFF;

    // Sector shift (9 = 512 bytes)
    data[0x1E] = 0x09;
    data[0x1F] = 0x00;

    // Mini sector shift (6 = 64 bytes)
    data[0x20] = 0x06;
    data[0x21] = 0x00;

    // First directory sector: end of chain
    data[0x30] = 0xFE;
    data[0x31] = 0xFF;
    data[0x32] = 0xFF;
    data[0x33] = 0xFF;

    // Mini stream cutoff (4096)
    data[0x38] = 0x00;
    data[0x39] = 0x10;
    data[0x3A] = 0x00;
    data[0x3B] = 0x00;

    // First mini FAT sector: end of chain
    data[0x3C] = 0xFE;
    data[0x3D] = 0xFF;
    data[0x3E] = 0xFF;
    data[0x3F] = 0xFF;

    // First DIFAT sector: end of chain
    data[0x44] = 0xFE;
    data[0x45] = 0xFF;
    data[0x46] = 0xFF;
    data[0x47] = 0xFF;

    // DIFAT array: all free
    for i in 0..109 {
        let offset = 0x4C + (i * 4);
        data[offset] = 0xFF;
        data[offset + 1] = 0xFF;
        data[offset + 2] = 0xFF;
        data[offset + 3] = 0xFF;
    }

    data
}

#[test]
fn container_test_cfb_header_parsing() {
    let data = create_test_cfb_header();
    let mut reader = ByteReader::new(&data);

    let header = CfbHeader::from_reader(&mut reader).unwrap();
    assert_eq!(header.signature, CFB_SIGNATURE.to_vec());
    assert_eq!(header.major_version, 3);
    assert_eq!(header.sector_size(), 512);
    assert_eq!(header.mini_sector_size(), 64);
    assert!(header.is_valid_version());
}

#[test]
fn test_cfb_stream() {
    let uncompressed = CfbStream::new("test".to_string(), vec![0x00, 0x01, 0x02]);
    assert!(!uncompressed.compressed);

    let compressed = CfbStream::new("test".to_string(), vec![0x78, 0x9C, 0x00, 0x00]);
    assert!(compressed.compressed);
}

#[test]
fn test_directory_entry_size() {
    assert_eq!(DIR_ENTRY_SIZE, 128);
}

#[test]
fn test_object_type_conversion() {
    assert_eq!(ObjectType::from_u8(0), ObjectType::Unknown);
    assert_eq!(ObjectType::from_u8(1), ObjectType::Storage);
    assert_eq!(ObjectType::from_u8(2), ObjectType::Stream);
    assert_eq!(ObjectType::from_u8(5), ObjectType::RootStorage);
}

fn entry(
    name: &str,
    object_type: ObjectType,
    child_did: u32,
    starting_sector: u32,
    stream_size_low: u32,
    stream_size_high: u32,
) -> DirectoryEntry {
    DirectoryEntry {
        name: name.to_string(),
        name_len: ((name.len() + 1) * 2) as u16,
        object_type,
        color_flag: ColorFlag::Black,
        left_sibling_did: 0xFFFFFFFF,
        right_sibling_did: 0xFFFFFFFF,
        child_did,
        clsid: vec![0; 16],
        state_bits: 0,
        creation_time: 0,
        modified_time: 0,
        starting_sector,
        stream_size_low,
        stream_size_high,
    }
}

#[test]
fn test_stream_size() {
    let e = entry("test", ObjectType::Stream, 0xFFFFFFFF, 0, 0x12345678, 0xABCDEF00);
    assert_eq!(e.stream_size(), 0xABCDEF0012345678);
}

#[test]
fn test_fat_chain() {
    let fat = FatTable { entries: vec![1, 2, 3, ENDOFCHAIN, 5, ENDOFCHAIN], sector_size: 512 };

    let chain = fat.get_chain(0);
    assert_eq!(chain, vec![0, 1, 2, 3]);

    let chain = fat.get_chain(4);
    assert_eq!(chain, vec![4, 5]);
}

#[test]
fn test_mini_fat_chain() {
    let mini_fat = MiniFatTable {
        entries: vec![1, 2, ENDOFCHAIN, 4, ENDOFCHAIN],
        mini_stream: vec![0; 320],
        mini_sector_size: 64,
    };

    let chain = mini_fat.get_chain(0);
    assert_eq!(chain, vec![0, 1, 2]);

    let chain = mini_fat.get_chain(3);
    assert_eq!(chain, vec![3, 4]);
}

#[test]
fn test_cfb_header_size() {
    assert_eq!(
        8 + 16 + 2 + 2 + 2 + 2 + 2 + 6 + 4 + 4 + 4 + 4 + 4 + 4 + 4 + 4 + 4 + (109 * 4),
        512
    );
}

#[test]
fn test_sector_sizes() {
    let mut header = CfbHeader {
        signature: CFB_SIGNATURE.to_vec(),
        clsid: vec![0; 16],
        minor_version: 0,
        major_version: 3,
        byte_order: 0xFFFE,
        sector_shift: 9,
        mini_sector_shift: 6,
        reserved: vec![0; 6],
        total_sectors: 0,
        fat_sectors: 0,
        first_dir_sector: 0,
        transaction_signature: 0,
        mini_stream_cutoff_size: 4096,
        first_mini_fat_sector: 0xFFFFFFFE,
        mini_fat_sectors: 0,
        first_difat_sector: 0xFFFFFFFE,
        difat_sectors: 0,
        difat: vec![0xFFFFFFFE; 109],
    };

    assert_eq!(header.sector_size(), 512);
    assert_eq!(header.mini_sector_size(), 64);

    header.sector_shift = 12;
    assert_eq!(header.sector_size(), 4096);
}

/// A minimal container: header, one FAT sector, one directory sector, and
/// one data sector holding the header stream.
fn create_test_cfb(file_header_size: u32, cutoff: u32) -> Vec<u8> {
    let mut data = vec![0u8; 3072];

    data[0..8].copy_from_slice(&CFB_SIGNATURE);
    data[0x18] = 0x3E; // minor version
    data[0x1A] = 0x03; // major version 3
    data[0x1C] = 0xFE; // byte order
    data[0x1D] = 0xFF;
    data[0x1E] = 0x09; // sector shift: 512
    data[0x20] = 0x06; // mini sector shift: 64

    // First directory sector: sector 1
    data[0x30] = 0x01;

    // Mini stream cutoff
    data[0x38..0x3C].copy_from_slice(&cutoff.to_le_bytes());

    // First mini FAT sector: end of chain; none present
    data[0x3C..0x40].copy_from_slice(&0xFFFFFFFEu32.to_le_bytes());

    // First DIFAT sector: end of chain; none present
    data[0x44..0x48].copy_from_slice(&0xFFFFFFFEu32.to_le_bytes());

    // DIFAT: FAT sector 0 then free
    data[0x4C] = 0x00;
    for i in 1..109 {
        let offset = 0x4C + (i * 4);
        data[offset..offset + 4].copy_from_slice(&0xFFFFFFFFu32.to_le_bytes());
    }

    // FAT sector (sector 0, offset 512)
    data[512..516].copy_from_slice(&0xFFFFFFFDu32.to_le_bytes()); // holds FAT metadata
    data[516..520].copy_from_slice(&0xFFFFFFFEu32.to_le_bytes()); // directory chain ends
    data[520..524].copy_from_slice(&0xFFFFFFFEu32.to_le_bytes()); // header stream chain ends
    for i in 3..128 {
        let offset = 512 + (i * 4);
        data[offset..offset + 4].copy_from_slice(&0xFFFFFFFFu32.to_le_bytes());
    }

    // Directory entries (sector 1, offset 1024)
    write_directory_entry(
        &mut data[1024..1152],
        "Root Entry",
        5,
        0xFFFFFFFF,
        0xFFFFFFFF,
        1,
        0xFFFFFFFF,
        0,
    );
    write_directory_entry(
        &mut data[1152..1280],
        "FileHeader",
        2,
        0xFFFFFFFF,
        0xFFFFFFFF,
        0xFFFFFFFF,
        2,
        file_header_size,
    );

    // Header stream bytes (sector 2, offset 1536)
    let hwp_sig = b"HWP Document File V5.00 \x1A\x01\x02\x03\x04";
    data[1536..1536 + hwp_sig.len()].copy_from_slice(hwp_sig);

    data
}

fn write_directory_entry(
    data: &mut [u8],
    name: &str,
    object_type: u8,
    left_sibling: u32,
    right_sibling: u32,
    child_did: u32,
    starting_sector: u32,
    stream_size: u32,
) {
    let name_utf16: Vec<u16> = name.encode_utf16().collect();
    for (i, ch) in name_utf16.iter().enumerate() {
        if i >= 31 {
            break;
        }
        data[i * 2] = (*ch & 0xFF) as u8;
        data[i * 2 + 1] = (*ch >> 8) as u8;
    }

    let name_len = ((name_utf16.len() + 1) * 2).min(64) as u16;
    data[64] = (name_len & 0xFF) as u8;
    data[65] = (name_len >> 8) as u8;

    data[66] = object_type;
    data[67] = 1; // black

    data[68..72].copy_from_slice(&left_sibling.to_le_bytes());
    data[72..76].copy_from_slice(&right_sibling.to_le_bytes());
    data[76..80].copy_from_slice(&child_did.to_le_bytes());

    data[116..120].copy_from_slice(&starting_sector.to_le_bytes());
    data[120..124].copy_from_slice(&stream_size.to_le_bytes());
}

#[test]
fn test_cfb_signature_detection() {
    let cfb_data = create_test_cfb(4096, 4096);
    assert_eq!(&cfb_data[0..8], &[0xD0, 0xCF, 0x11, 0xE0, 0xA1, 0xB1, 0x1A, 0xE1]);
}

#[test]
fn cfb_tests_test_cfb_header_parsing() {
    let cfb_data = create_test_cfb(4096, 4096);
    let container = parse_cfb_bytes(&cfb_data).unwrap();

    assert_eq!(container.header.major_version, 3);
    assert_eq!(container.header.sector_size(), 512);
    assert_eq!(container.header.mini_sector_size(), 64);
    assert!(container.header.is_valid_version());
}

#[test]
fn test_cfb_directory_parsing() {
    let cfb_data = create_test_cfb(4096, 4096);
    let container = parse_cfb_bytes(&cfb_data).unwrap();

    let root = container.root_entry().unwrap();
    assert_eq!(root.name, "Root Entry");
    assert!(root.is_root());

    let streams = container.list_streams();
    assert!(streams.contains(&"FileHeader".to_string()));
}

#[test]
fn test_cfb_stream_extraction() {
    let cfb_data = create_test_cfb(4096, 4096);
    let mut container = parse_cfb_bytes(&cfb_data).unwrap();
    let mut reader = ByteReader::new(&cfb_data);

    let stream = container.read_stream(&mut reader, "FileHeader").unwrap();
    assert_eq!(stream.name, "FileHeader");
    assert!(stream.as_bytes().len() > 0);

    let data = stream.as_bytes();
    assert!(data.starts_with(b"HWP Document File"));
}

#[test]
fn test_compressed_stream_detection() {
    let uncompressed = CfbStream::new("test".to_string(), vec![0x48, 0x57, 0x50]);
    assert!(!uncompressed.compressed);

    let compressed = CfbStream::new("test".to_string(), vec![0x78, 0x9C, 0x00]);
    assert!(compressed.compressed);
}

#[test]
fn test_fat_chain_reading() {
    let fat = FatTable {
        entries: vec![
            1,          // next
            2,          // next
            3,          // next
            0xFFFFFFFE, // end of chain
            0xFFFFFFFF, // free
        ],
        sector_size: 512,
    };

    let chain = fat.get_chain(0);
    assert_eq!(chain, vec![0, 1, 2, 3]);

    let chain = fat.get_chain(2);
    assert_eq!(chain, vec![2, 3]);

    assert_eq!(fat.get_next(3), None);
}

#[test]
fn test_directory_tree_traversal() {
    let entries = vec![
        entry("Root Entry", ObjectType::RootStorage, 1, 0xFFFFFFFF, 0, 0),
        {
            let mut e = entry("FileHeader", ObjectType::Stream, 0xFFFFFFFF, 0, 256, 0);
            e.right_sibling_did = 2;
            e
        },
        entry("DocInfo", ObjectType::Stream, 0xFFFFFFFF, 1, 512, 0),
    ];

    let tree = DirectoryTree::new(entries);

    assert!(tree.find("FileHeader").is_some());
    assert!(tree.find("DocInfo").is_some());
    assert!(tree.find("NonExistent").is_none());

    let streams = tree.streams();
    assert_eq!(streams.len(), 2);

    let root = tree.root().unwrap();
    assert_eq!(root.name, "Root Entry");
}

#[test]
fn test_cyclic_chain_terminates() {
    // A deliberately cyclic table: chain-following is bounded by the
    // table length and still terminates.
    let fat = FatTable { entries: vec![1, 0], sector_size: 512 };
    let chain = fat.get_chain(0);
    assert_eq!(chain.len(), 2);

    let mini = MiniFatTable {
        entries: vec![1, 2, 0],
        mini_stream: vec![0; 192],
        mini_sector_size: 64,
    };
    let chain = mini.get_chain(0);
    assert_eq!(chain.len(), 3);
}

#[test]
fn test_end_to_end_container_scenario() {
    // A 512-byte header with major version 3 and sector size 512, one FAT
    // sector mapping directory sector 1, and a 256-byte header stream in
    // sector 2: the stream list names it and the read returns exactly its
    // declared 256 bytes, starting with the bytes written into sector 2.
    let cfb_data = create_test_cfb(256, 256);
    let mut container = parse_cfb_bytes(&cfb_data).unwrap();

    let streams = container.list_streams();
    assert!(streams.contains(&"FileHeader".to_string()));

    let mut reader = ByteReader::new(&cfb_data);
    let stream = container.read_stream(&mut reader, "FileHeader").unwrap();
    assert_eq!(stream.as_bytes().len(), 256);
    assert!(stream.as_bytes().starts_with(b"HWP Document File"));
    assert_eq!(&stream.as_bytes()[..32], &cfb_data[1536..1568]);

    // A second read of the same name is answered from the cache.
    let again = container.read_stream(&mut reader, "FileHeader").unwrap();
    assert_eq!(again.as_bytes(), stream.as_bytes());
    assert!(container.get_stream("FileHeader").is_some());
    assert!(container.has_stream("FileHeader"));
    assert!(!container.has_stream("DocInfo"));
}

#[test]
fn test_directory_entry_from_bytes_roundtrip() {
    let mut raw = vec![0u8; 128];
    write_directory_entry(&mut raw, "DocInfo", 2, 0xFFFFFFFF, 0xFFFFFFFF, 0xFFFFFFFF, 7, 1234);
    let e = DirectoryEntry::from_bytes(&raw).unwrap();
    assert_eq!(e.name, "DocInfo");
    assert_eq!(e.object_type, ObjectType::Stream);
    assert_eq!(e.starting_sector, 7);
    assert_eq!(e.stream_size_low, 1234);
    assert!(e.is_stream());
    assert!(!e.is_root());
    assert!(e.is_valid());

    // Fewer than 128 bytes is rejected.
    assert!(DirectoryEntry::from_bytes(&raw[..100]).is_err());
}
