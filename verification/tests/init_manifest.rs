//! The record of what a setup has written.

use crosslink::commands::init::manifest::{
    build_manifest, classify_update, manifest_path, manifest_tmp_path, sha256_file, sha256_hex,
    to_hex, FileRead, UpdateAction,
};
use crosslink::time::Moment;

#[test]
fn test_classify_up_to_date() {
    assert_eq!(
        classify_update("abc", Some("abc"), "abc"),
        UpdateAction::UpToDate
    );
}

#[test]
fn test_classify_auto_update() {
    // User never touched (manifest == current), template changed
    assert_eq!(
        classify_update("abc", Some("abc"), "def"),
        UpdateAction::AutoUpdate
    );
}

#[test]
fn test_classify_template_unchanged() {
    // User changed (manifest != current), template same
    assert_eq!(
        classify_update("abc", Some("xyz"), "abc"),
        UpdateAction::TemplateUnchanged
    );
}

#[test]
fn test_classify_conflict() {
    // Both changed
    assert_eq!(
        classify_update("abc", Some("xyz"), "def"),
        UpdateAction::Conflict
    );
}

#[test]
fn test_classify_deleted() {
    assert_eq!(classify_update("abc", None, "def"), UpdateAction::Deleted);
}

#[test]
fn test_sha256_hex_deterministic() {
    let hash1 = sha256_hex("hello world");
    let hash2 = sha256_hex("hello world");
    assert_eq!(hash1, hash2);
    assert_eq!(hash1.len(), 64); // SHA-256 = 64 hex chars
}

#[test]
fn test_sha256_hex_different_inputs() {
    let hash1 = sha256_hex("hello");
    let hash2 = sha256_hex("world");
    assert_ne!(hash1, hash2);
}

#[test]
fn test_sha256_file_exists() {
    let read = FileRead::Content("hello".to_string());
    let hash = sha256_file("test.txt", &read).unwrap();
    assert_eq!(hash, Some(sha256_hex("hello")));
}

#[test]
fn test_sha256_file_missing() {
    assert_eq!(sha256_file("nonexistent.txt", &FileRead::Missing).unwrap(), None);
}

#[test]
fn an_unreadable_file_is_an_error() {
    assert_eq!(
        sha256_file("a.txt", &FileRead::Unreadable).unwrap_err(),
        "Failed to read a.txt for hashing"
    );
}

#[test]
fn the_hash_is_the_known_one() {
    assert_eq!(
        sha256_hex("hello world"),
        "b94d27b9934d3e08a52e52d7da7dabfac484efe37a5380ee9088f7ace2efcde9"
    );
    assert_eq!(to_hex(&vec![0, 9, 10, 255]), "00090aff");
}

#[test]
fn a_manifest_records_each_path_once_and_in_order() {
    let files = vec![
        ("b.py".to_string(), "content b".to_string()),
        ("a.py".to_string(), "content a".to_string()),
        ("b.py".to_string(), "content c".to_string()),
    ];
    let now = Moment::new(1_770_000_000, 0).unwrap();
    let manifest = build_manifest(&files, "1.2.3", &now);
    assert_eq!(manifest.crosslink_version, "1.2.3");
    assert_eq!(manifest.initialized_at, "2026-02-02T02:40:00Z");
    assert_eq!(manifest.files.len(), 2);
    assert_eq!(manifest.files[0].path, "a.py");
    assert_eq!(manifest.files[0].entry.sha256, sha256_hex("content a"));
    assert_eq!(manifest.files[1].path, "b.py");
    assert_eq!(manifest.files[1].entry.sha256, sha256_hex("content c"));
    assert_eq!(manifest.files[1].entry.written_by_version, "1.2.3");
}

#[test]
fn a_file_that_was_just_written_is_up_to_date() {
    let files = vec![("a.py".to_string(), "content".to_string())];
    let manifest = build_manifest(&files, "1", &Moment::new(0, 0).unwrap());
    let hash = sha256_hex("content");
    assert_eq!(
        classify_update(&manifest.files[0].entry.sha256, Some(&hash), &hash),
        UpdateAction::UpToDate
    );
}

#[test]
fn a_new_manifest_is_written_beside_the_old_one() {
    let path = manifest_path("d");
    assert!(path.starts_with("d/init-manifest"));
    assert_eq!(manifest_tmp_path("d"), format!("{path}.tmp"));
}
