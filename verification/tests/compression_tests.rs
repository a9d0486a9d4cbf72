use flate2::write::DeflateEncoder;
use flate2::write::ZlibEncoder;
use flate2::Compression;
use hwp::cfb::stream::StreamReader;
use hwp::cfb::stream::Stream;
use hwp::compression::{
    decompress, decompress_hwp, decompress_raw, decompress_raw_with_size, decompress_zlib,
    encode_custom_framed, is_hwp_compressed,
};
use std::io::Write;

fn deflate(data: &[u8]) -> Vec<u8> {
    let mut encoder = DeflateEncoder::new(Vec::new(), Compression::default());
    encoder.write_all(data).unwrap();
    encoder.finish().unwrap()
}

#[test]
fn test_decompress() {
    let original = b"Hello, HWP World!";

    let compressed = deflate(original);

    let decompressed = decompress(&compressed).unwrap();
    assert_eq!(decompressed, original);
}

#[test]
fn test_hwp_compression_detection() {
    // A plausible custom frame: a size hint and payload bytes.
    let mut hwp_data = Vec::new();
    hwp_data.extend_from_slice(&100u32.to_le_bytes());
    hwp_data.extend_from_slice(&[0x78, 0x9C, 0x01, 0x05]);

    assert!(is_hwp_compressed(&hwp_data));

    // Too small.
    assert!(!is_hwp_compressed(&[1, 2, 3]));

    // A zero size hint is invalid.
    let mut invalid_data = Vec::new();
    invalid_data.extend_from_slice(&0u32.to_le_bytes());
    invalid_data.extend_from_slice(&[0x78, 0x9C, 0x01, 0x05]);
    assert!(!is_hwp_compressed(&invalid_data));
}

#[test]
fn test_hwp_decompression() {
    let original = b"HWP compressed content test data";

    let compressed_data = deflate(original);

    let mut hwp_data = Vec::new();
    hwp_data.extend_from_slice(&(original.len() as u32).to_le_bytes());
    hwp_data.extend_from_slice(&compressed_data);

    let decompressed = decompress_hwp(&hwp_data).unwrap();
    assert_eq!(decompressed, original);
}

#[test]
fn test_raw_deflate_with_size() {
    let original = b"Raw deflate test data for HWP format";

    let compressed = deflate(original);

    let decompressed = decompress_raw_with_size(&compressed, original.len()).unwrap();
    assert_eq!(decompressed, original);

    // The wrong expected size must fail.
    assert!(decompress_raw_with_size(&compressed, original.len() + 10).is_err());
}

#[test]
fn test_raw_deflate_auto_size() {
    let original = b"speculatively sized output buffer";
    let compressed = deflate(original);
    let decompressed = decompress_raw(&compressed).unwrap();
    assert_eq!(decompressed, original);

    assert!(decompress_raw(b"definitely not deflate data").is_err());
}

#[test]
fn test_zlib_round_trip() {
    let original = b"zlib wrapped stream";
    let mut encoder = ZlibEncoder::new(Vec::new(), Compression::default());
    encoder.write_all(original).unwrap();
    let compressed = encoder.finish().unwrap();

    let decompressed = decompress_zlib(&compressed).unwrap();
    assert_eq!(decompressed, original);

    assert!(decompress_zlib(b"not zlib at all").is_err());
}

#[test]
fn test_custom_framed_round_trip() {
    // Framing a payload and undoing the frame restores the payload.
    let payload = b"an arbitrary payload for the custom frame round trip 0123456789";
    let framed = encode_custom_framed(payload).unwrap();
    assert!(is_hwp_compressed(&framed));
    let restored = decompress_hwp(&framed).unwrap();
    assert_eq!(restored, payload);
}

#[test]
fn test_hwp_decompression_rejects_zero_hint() {
    let mut data = Vec::new();
    data.extend_from_slice(&0u32.to_le_bytes());
    data.extend_from_slice(&[1, 2, 3, 4]);
    assert!(decompress_hwp(&data).is_err());
}

#[test]
fn test_hwp_decompression_size_mismatch_falls_back() {
    // A frame whose hint disagrees with the deflate output and that is
    // not zlib either fails with a decompression error.
    let original = b"mismatch";
    let compressed = deflate(original);
    let mut data = Vec::new();
    data.extend_from_slice(&((original.len() + 5) as u32).to_le_bytes());
    data.extend_from_slice(&compressed);
    let r = decompress_hwp(&data);
    assert!(r.is_err());
}

#[test]
fn test_stream_compression_detection() {
    let uncompressed = Stream::new("test".to_string(), vec![0x00, 0x01, 0x02]);
    assert!(!uncompressed.is_compressed());

    // A zlib header marks the stream as compressed.
    let zlib_compressed = Stream::new("test".to_string(), vec![0x78, 0x9C, 0x00, 0x00]);
    assert!(zlib_compressed.is_compressed());

    // A custom frame: a size hint and payload bytes.
    let mut hwp_data = Vec::new();
    hwp_data.extend_from_slice(&50u32.to_le_bytes());
    hwp_data.extend_from_slice(&[0x01, 0x02, 0x03, 0x04, 0x05]);

    let hwp_compressed = Stream::new("test".to_string(), hwp_data);
    assert!(hwp_compressed.is_compressed());
}

#[test]
fn test_content_stream_decompresses() {
    // A content stream is assumed compressed and decompressed through
    // the custom frame.
    let original = b"section record bytes";
    let compressed = deflate(original);
    let mut framed = Vec::new();
    framed.extend_from_slice(&(original.len() as u32).to_le_bytes());
    framed.extend_from_slice(&compressed);

    let stream = Stream::new("DocInfo".to_string(), framed);
    assert!(stream.is_compressed());
    let out = stream.decompress().unwrap();
    assert_eq!(out, original);
}

#[test]
fn test_stream_reader() {
    let data = vec![0, 1, 2, 3, 4, 5, 6, 7, 8, 9];
    let mut reader = StreamReader::new(&data);

    assert_eq!(reader.position(), 0);
    assert_eq!(reader.remaining(), 10);
    assert!(!reader.is_eof());

    reader.skip(3).unwrap();
    assert_eq!(reader.position(), 3);

    reader.skip(2).unwrap();
    assert_eq!(reader.position(), 5);

    assert_eq!(reader.peek(2), Some(&[5, 6][..]));
    assert_eq!(reader.position(), 5); // peeking does not advance

    assert!(reader.skip(6).is_err());
    reader.skip(5).unwrap();
    assert!(reader.is_eof());
}
