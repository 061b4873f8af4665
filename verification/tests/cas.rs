use dodeca::cas::{
    blob_location, cas_version_ok, cas_version_text, content_hash_32, font_content_hash,
    gitignore_cache_entry, gitignore_dir, gitignore_needs_cache_entry, hex_encode, ContentStore,
    key_from_digests, InputHash,
};
use std::hash::Hasher;
fn reference_key(version: u64, data: &[u8]) -> [u8; 32] {
    let mut result = [0u8; 32];
    let mut hasher = rapidhash::fast::RapidHasher::default();
    hasher.write(&version.to_le_bytes());
    hasher.write(data);
    let mut h = hasher.finish();
    result[0..8].copy_from_slice(&h.to_le_bytes());
    for k in 1..4 {
        let mut hasher = rapidhash::fast::RapidHasher::new(h);
        hasher.write(data);
        h = hasher.finish();
        result[k * 8..k * 8 + 8].copy_from_slice(&h.to_le_bytes());
    }
    result
}

#[test]
fn store_hash_is_the_fast_rapidhash() {
    let mut hasher = rapidhash::fast::RapidHasher::default();
    hasher.write(b"<p>x</p>");
    assert_eq!(ContentStore::hash(b"<p>x</p>"), hasher.finish());
}

#[test]
fn keys_from_digests_are_little_endian() {
    let k = key_from_digests(1, 0x0102, 0, u64::MAX);
    assert_eq!(&k.0[0..8], &[1, 0, 0, 0, 0, 0, 0, 0]);
    assert_eq!(&k.0[8..16], &[2, 1, 0, 0, 0, 0, 0, 0]);
    assert_eq!(&k.0[16..24], &[0; 8]);
    assert_eq!(&k.0[24..32], &[0xff; 8]);
}

#[test]
fn skip_decision_by_hash() {
    let mut store = ContentStore::new();
    assert!(store.needs_write_hash("a", 7, true));
    store.record("a".to_string(), 7);
    assert!(!store.needs_write_hash("a", 7, true));
    assert!(store.needs_write_hash("a", 7, false));
    assert!(store.needs_write_hash("a", 8, true));
}

#[test]
fn content_keys_match_the_hash_chain() {
    let data = b"some image bytes";
    assert_eq!(content_hash_32(data).0, reference_key(1, data));
    assert_eq!(font_content_hash(data).0, reference_key(1, data));
    assert_ne!(content_hash_32(b"a").0, content_hash_32(b"b").0);
}

#[test]
fn hex_names() {
    assert_eq!(hex_encode(&[0x00, 0xab, 0x7f, 0xff]), "00ab7fff");
    assert_eq!(hex_encode(&[]), "");
    let mut bytes = [0u8; 32];
    bytes[0] = 0x12;
    bytes[1] = 0x3c;
    let (dir, file) = blob_location(&InputHash(bytes), "img");
    assert_eq!(dir, "123c");
    assert_eq!(file.len(), 64 + 4);
    assert!(file.starts_with("123c0000") && file.ends_with(".img"));
}

#[test]
fn store_skips_unchanged_outputs() {
    let mut store = ContentStore::new();
    let h = store.needs_write("out/index.html", b"<p>x</p>", true).unwrap();
    assert_eq!(h, ContentStore::hash(b"<p>x</p>"));
    store.record("out/index.html".to_string(), h);
    assert_eq!(store.stored_hash("out/index.html"), Some(h));
    assert_eq!(store.needs_write("out/index.html", b"<p>x</p>", true), None);
    assert!(store.needs_write("out/index.html", b"<p>x</p>", false).is_some());
    assert!(store.needs_write("out/index.html", b"<p>y</p>", true).is_some());
    assert_eq!(store.stored_hash("other"), None);
}

#[test]
fn gitignore_decisions() {
    assert!(gitignore_needs_cache_entry(None));
    assert!(gitignore_needs_cache_entry(Some("target\n")));
    assert!(!gitignore_needs_cache_entry(Some("target\n  .cache/  \n")));
    assert!(!gitignore_needs_cache_entry(Some(".cache")));
    assert_eq!(gitignore_cache_entry(None), ".cache\n");
    assert_eq!(gitignore_cache_entry(Some("")), ".cache\n");
    assert_eq!(gitignore_cache_entry(Some("a\n")), ".cache\n");
    assert_eq!(gitignore_cache_entry(Some("a")), "\n.cache\n");
    assert_eq!(gitignore_dir(&vec![(false, false), (false, true), (true, false)]), Some(1));
    assert_eq!(gitignore_dir(&vec![(false, false)]), None);
}

#[test]
fn version_file() {
    assert!(cas_version_ok(Some(" 5\n")));
    assert!(!cas_version_ok(Some("4")));
    assert!(!cas_version_ok(Some("five")));
    assert!(!cas_version_ok(None));
    assert_eq!(cas_version_text(), "5");
}
