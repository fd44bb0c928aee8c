//! Unit tests for resource identity, metadata and the text helpers.

use docstore::fts::{json_indexer, text_plain_indexer, IndexerError};
use docstore::resource::{ResourceId, ResourceMetadata, VariantMetadata};
use docstore::strutil::{basename_of, str_ends_with, str_eq, str_starts_with};

#[test]
fn variant_metadata_accessors() {
    let mut vm = VariantMetadata::new(16, "text/plain");
    assert_eq!(vm.size(), 16);
    assert_eq!(vm.mime_type(), "text/plain");
    vm.set_size(32);
    vm.set_mime_type("application/json");
    assert_eq!(vm.size(), 32);
    assert_eq!(vm.mime_type(), "application/json");
}

#[test]
fn resource_metadata_variants() {
    let vm = VariantMetadata::new(4, "text/plain");
    let meta = ResourceMetadata::new("a note", &vm, &Vec::new());
    assert_eq!(meta.desc(), "a note");
    assert!(meta.has_variant("default"));
    assert!(!meta.has_variant("thumbnail"));
    assert_eq!(meta.get_variant("default").unwrap().size(), 4);
    assert!(meta.get_variant("thumbnail").is_none());

    let mut meta = meta;
    let tn = VariantMetadata::new(9, "image/jpeg");
    meta.add_variant("thumbnail", &tn);
    assert!(meta.has_variant("thumbnail"));
    assert_eq!(meta.variants().len(), 2);
    assert_eq!(meta.get_variant("thumbnail").unwrap().mime_type(), "image/jpeg");

    assert!(meta.remove_variant("thumbnail"));
    assert!(!meta.remove_variant("thumbnail"));
    assert_eq!(meta.variants().len(), 1);
}

#[test]
fn resource_metadata_tags() {
    let vm = VariantMetadata::new(0, "application/octet-stream");
    let mut given = Vec::new();
    given.push("one".to_string());
    given.push("two".to_string());
    given.push("one".to_string());
    let mut meta = ResourceMetadata::new("tagged", &vm, &given);
    assert_eq!(meta.tags().len(), 2);

    meta.add_tag("three");
    meta.add_tag("three");
    assert_eq!(meta.tags().len(), 3);
    meta.remove_tag("one");
    assert_eq!(meta.tags().len(), 2);
    assert!(meta.tags().iter().all(|t| t != "one"));
}

#[test]
fn resource_id_round_trip() {
    let parts = vec!["docs".to_string(), "note.txt".to_string()];
    let id = ResourceId::from_parts(&parts);
    assert_eq!(id.to_string(), "docs/note.txt");
    let back = id.parts();
    assert_eq!(back, parts);

    let single = ResourceId::from_parts(&["plain".to_string()]);
    assert_eq!(single.to_string(), "plain");
    assert_eq!(single.parts(), vec!["plain".to_string()]);
}

#[test]
fn string_helpers() {
    assert!(str_eq("same", "same"));
    assert!(!str_eq("same", "sama"));
    assert!(!str_eq("same", "sam"));
    assert!(str_starts_with("image/png", "image/"));
    assert!(!str_starts_with("text/plain", "image/"));
    assert!(str_ends_with("application/x-places+json", "json"));
    assert!(!str_ends_with("text/plain", "json"));
    assert_eq!(basename_of("a/b/c.txt"), "c.txt");
    assert_eq!(basename_of("plain.txt"), "plain.txt");
}

#[test]
fn text_plain_extractor() {
    let text = text_plain_indexer(b"some plain text").unwrap();
    assert_eq!(text, "some plain text");
    let bad = text_plain_indexer(&[0xff, 0xfe, 0x80]);
    assert!(matches!(bad, Err(IndexerError::IO(_))));
}

#[test]
fn places_extractor() {
    let content = br#"{"url":"https://example.com","title":"hello"}"#;
    let text = json_indexer(content, "application/x-places+json").unwrap();
    assert_eq!(text, "https://example.com hello");
}

#[test]
fn places_extractor_arrays() {
    let content = br#"{"url":["https://a.example","https://b.example"],"title":"both","icon":"x"}"#;
    let text = json_indexer(content, "application/x-places+json").unwrap();
    assert_eq!(text, "https://a.example https://b.example both");
}

#[test]
fn json_extractor_errors() {
    let unsupported = json_indexer(b"{}", "application/x-contact+json");
    assert!(matches!(unsupported, Err(IndexerError::UnsupportedMime(_))));
    let malformed = json_indexer(b"{not json", "application/x-places+json");
    assert!(matches!(malformed, Err(IndexerError::SerdeJson(_))));
}
