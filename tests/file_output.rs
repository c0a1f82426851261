use media_catalog::file_output::{compress_file_content, CompressionLevel};

const TEST_FILE_CONTENT: &str = "Hello, world!";
const TEST_FILE_SHA1: &str = "943a702d06f34599aee1f8da8ef9f7296031d699";

fn hex(bytes: &[u8]) -> String {
    bytes.iter().map(|b| format!("{:02x}", b)).collect()
}

#[test]
fn test_output_zstd_compressed() {
    let content = TEST_FILE_CONTENT.as_bytes().to_vec();
    let compressed = compress_file_content(&content, CompressionLevel::Default).unwrap();
    assert_eq!(hex(&compressed.checksum), TEST_FILE_SHA1);
    assert_eq!(compressed.size, TEST_FILE_CONTENT.len() as u64);
    assert!(!compressed.data.is_empty());
}

#[test]
fn compressed_data_is_a_zstd_frame_of_the_content() {
    let content = TEST_FILE_CONTENT.as_bytes().to_vec();
    let compressed = compress_file_content(&content, CompressionLevel::Fast).unwrap();
    assert_ne!(compressed.data, content);
    let decoded = zstd::decode_all(compressed.data.as_slice()).unwrap();
    assert_eq!(decoded, content);
}

#[test]
fn empty_content_has_known_digest() {
    let compressed = compress_file_content(&Vec::new(), CompressionLevel::Good).unwrap();
    assert_eq!(hex(&compressed.checksum), "da39a3ee5e6b4b0d3255bfef95601890afd80709");
    assert_eq!(compressed.size, 0);
    assert!(zstd::decode_all(compressed.data.as_slice()).unwrap().is_empty());
}

#[test]
fn compression_levels_map_to_zstd_levels() {
    assert_eq!(CompressionLevel::Fast.to_zstd_level(), 1);
    assert_eq!(CompressionLevel::Default.to_zstd_level(), 3);
    assert_eq!(CompressionLevel::Good.to_zstd_level(), 6);
}
