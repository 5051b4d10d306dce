use record_linker::digest::hash_bytes_chunked;
use record_linker::digest::ContentHasher;

#[test]
fn identical_content_gives_identical_digests() {
    let a = hash_bytes_chunked(b"hello", 1024);
    let b = hash_bytes_chunked(b"hello", 1024);
    assert_eq!(a, b);
}

#[test]
fn digest_matches_the_hash_function_itself() {
    let ours = hash_bytes_chunked(b"hello", 1024);
    let theirs = blake3::hash(b"hello").to_hex();
    assert_eq!(ours.as_str(), theirs.as_str());
    // The digest is a fingerprint of the input, not the input itself.
    assert_ne!(ours.as_str(), "hello");
}

#[test]
fn empty_input_has_the_well_defined_empty_digest() {
    let ours = hash_bytes_chunked(b"", 1024);
    let theirs = blake3::hash(b"").to_hex();
    assert_eq!(ours.as_str(), theirs.as_str());
    assert_eq!(ours.len(), 64);
}

#[test]
fn chunk_size_never_changes_the_digest() {
    let data = b"The quick brown fox jumps over the lazy dog";
    let reference = hash_bytes_chunked(data, 1024);
    for chunk_size in [1usize, 2, 3, 7, 16, 43, 44, 1000] {
        assert_eq!(hash_bytes_chunked(data, chunk_size), reference);
    }
}

#[test]
fn differing_content_gives_differing_digests() {
    assert_ne!(
        hash_bytes_chunked(b"hello", 64),
        hash_bytes_chunked(b"world", 64)
    );
    assert_ne!(hash_bytes_chunked(b"", 64), hash_bytes_chunked(b"\0", 64));
}

#[test]
fn incremental_feeding_equals_whole_input() {
    let mut hasher = ContentHasher::new();
    hasher.update(b"he");
    hasher.update(b"llo");
    assert_eq!(hasher.hex_digest(), hash_bytes_chunked(b"hello", 5));
}

#[test]
fn digest_is_lowercase_hex_of_length_64() {
    let d = hash_bytes_chunked(b"abc", 2);
    assert_eq!(d.chars().count(), 64);
    assert!(d
        .chars()
        .all(|c| ('0'..='9').contains(&c) || ('a'..='f').contains(&c)));
}
