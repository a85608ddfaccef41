use triplewrapper_core::checksum::{checksum_matches, integrity_verdict, StreamingHasher};
use triplewrapper_core::types::ChecksumAlgorithm;
use sha2::Digest;

#[test]
fn blake3_streaming_matches_one_shot() {
    let data = b"Hello, TripleWrapper!";
    let mut h = StreamingHasher::new(ChecksumAlgorithm::Blake3);
    h.update(&data[..5]);
    h.update(&data[5..]);
    assert_eq!(h.bytes_processed(), data.len() as u64);
    let hex = h.finalize_hex();
    assert_eq!(hex.len(), 64);
    assert_eq!(hex, blake3::hash(data).to_hex().to_string());
    // BLAKE3 keeps its input after finalizing.
    assert_eq!(h.finalize_hex(), hex);
}

#[test]
fn sha256_streaming_and_reset() {
    let data = b"Test data";
    let mut h = StreamingHasher::new(ChecksumAlgorithm::Sha256);
    h.update(data);
    let hex = h.finalize_hex();
    assert_eq!(hex, hex::encode(sha2::Sha256::digest(data)));
    assert_eq!(hex.len(), 64);
    // SHA-256 starts over: the next digest is that of nothing.
    assert_eq!(h.finalize_hex(), hex::encode(sha2::Sha256::digest(b"")));
    assert_eq!(h.algorithm(), ChecksumAlgorithm::Sha256);
}

#[test]
fn xxh3_digest_is_little_endian() {
    let data = b"Verify me";
    let mut h = StreamingHasher::new(ChecksumAlgorithm::Xxh3);
    h.update(b"Verify");
    h.update(b" me");
    let bytes = h.finalize();
    assert_eq!(bytes, xxhash_rust::xxh3::xxh3_64(data).to_le_bytes().to_vec());
    assert_eq!(h.finalize_hex().len(), 16);
}

#[test]
fn checksum_comparison_ignores_ascii_case() {
    assert!(checksum_matches("ABCdef01", "abcDEF01"));
    assert!(!checksum_matches("abc", "abd"));
    assert!(!checksum_matches("abc", "wrongchecksum"));
    assert!(integrity_verdict("00ff", None));
    assert!(integrity_verdict("00ff", Some("00FF")));
    assert!(!integrity_verdict("00ff", Some("00fe")));
}

/// Hashes a file's contents in 1 MiB chunks, as the file hasher does.
fn hash_contents(data: &[u8], algorithm: ChecksumAlgorithm) -> String {
    let mut hasher = StreamingHasher::new(algorithm);
    for chunk in data.chunks(1024 * 1024) {
        hasher.update(chunk);
    }
    hasher.finalize_hex()
}

#[test]
fn test_blake3_hash() {
    let hash = hash_contents(b"Hello, TripleWrapper!", ChecksumAlgorithm::Blake3);
    assert!(!hash.is_empty());
    assert_eq!(hash.len(), 64);
}

#[test]
fn test_sha256_hash() {
    let hash = hash_contents(b"Test data", ChecksumAlgorithm::Sha256);
    assert!(!hash.is_empty());
    assert_eq!(hash.len(), 64);
}

#[test]
fn test_verify_match() {
    let hash = hash_contents(b"Verify me", ChecksumAlgorithm::Blake3);
    let ok = checksum_matches(&hash_contents(b"Verify me", ChecksumAlgorithm::Blake3), &hash);
    assert!(ok);
}

#[test]
fn test_verify_mismatch() {
    let ok = checksum_matches(&hash_contents(b"Original", ChecksumAlgorithm::Blake3), "wrongchecksum");
    assert!(!ok);
}
