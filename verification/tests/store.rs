//! End-to-end tests of the resource store, over an in-memory index
//! database.

use docstore::indexer::Indexer;
use docstore::resource::{ResourceId, VariantMetadata};
use docstore::store::{ResourceStore, StoreError};

fn test_store() -> ResourceStore {
    ResourceStore::new(":memory:").expect("failed to create resource store")
}

#[test]
fn store_empty_file() {
    let mut store = test_store();
    let path = ["empty".to_owned()];
    let variant = VariantMetadata::new(0, "application/octet-stream");
    store
        .create_resource(&path, "empty file", &variant, &Vec::new(), b"")
        .unwrap();

    let content = store.get_variant_vec("default", &path).unwrap();
    assert_eq!(content.len(), 0);
    let streamed = store.get_variant("default", &path).unwrap();
    assert_eq!(streamed.len(), 0);
}

#[test]
fn store_variant() {
    let mut store = test_store();
    let path = ["small file".to_owned()];
    let content = b"abcdef0123456789".as_slice();
    let variant_content = b"9876543210fedcba".as_slice();

    let variant = VariantMetadata::new(16, "text/plain");
    store
        .create_resource(&path, "small file", &variant, &Vec::new(), content)
        .unwrap();

    let variant = VariantMetadata::new(16, "text/plain");
    store
        .add_variant(&path, "reverse", &variant, variant_content)
        .unwrap();

    assert_eq!(store.get_variant_vec("default", &path).unwrap(), content.to_vec());
    assert_eq!(store.get_variant_vec("reverse", &path).unwrap(), variant_content.to_vec());
}

#[test]
fn get_metadata() {
    let mut store = test_store();
    let path = ["small file".to_owned()];
    let variant = VariantMetadata::new(16, "text/plain");
    let tags = vec!["tag_1".to_owned(), "tag_2".to_owned()];
    store
        .create_resource(&path, "small file", &variant, &tags, b"abcdef0123456789")
        .unwrap();
    let variant = VariantMetadata::new(16, "text/plain");
    store
        .add_variant(&path, "reverse", &variant, b"9876543210fedcba")
        .unwrap();

    let meta = store.get_metadata(&path).unwrap();
    assert!(meta.has_variant("default"));
    assert!(meta.has_variant("reverse"));
    assert_eq!(meta.tags().len(), 2);
}

#[test]
fn search() {
    let mut store = test_store();
    let path = ["small file".to_owned()];
    let variant = VariantMetadata::new(16, "text/plain");
    let tags = vec!["tag_1".to_owned(), "tag_2".to_owned()];
    store
        .create_resource(&path, "small file", &variant, &tags, b"abcdef0123456789")
        .unwrap();
    let variant = VariantMetadata::new(16, "text/plain");
    store
        .add_variant(&path, "reverse", &variant, b"9876543210fedcba")
        .unwrap();

    let results = store.search("small").unwrap();
    assert_eq!(results.len(), 1);
    let meta = &results[0].1;
    assert!(meta.has_variant("default"));
    assert!(meta.has_variant("reverse"));
    assert_eq!(meta.tags().len(), 2);

    let results = store.search("big").unwrap();
    assert_eq!(results.len(), 0);
}

#[test]
fn search_normalization() {
    let mut store = test_store();
    let path = ["note".to_owned()];
    let variant = VariantMetadata::new(11, "text/plain");
    store
        .create_resource(&path, "accented", &variant, &Vec::new(), "H\u{e9}llo W\u{f6}rld".as_bytes())
        .unwrap();

    assert_eq!(store.search("hello").unwrap().len(), 1);
    assert_eq!(store.search("WORLD").unwrap().len(), 1);
    assert_eq!(store.search("H\u{c9}LLO").unwrap().len(), 1);
    assert_eq!(store.search("zzz").unwrap().len(), 0);
}

#[test]
fn index_place() {
    let mut store = test_store();
    let path = ["place test".to_owned()];
    let content = br#"{"url":"https://example.com","title":"hello"}"#;
    let variant = VariantMetadata::new(16, "application/x-places+json");
    store
        .create_resource(&path, "sample place document", &variant, &Vec::new(), content)
        .unwrap();

    assert_eq!(store.search("example").unwrap().len(), 1);
    assert_eq!(store.search("unknown").unwrap().len(), 0);
}

#[test]
fn delete_resource() {
    let mut store = test_store();
    let path = ["contact test".to_owned()];
    let content = br#"{"url":"https://dupont.example","title":"m. dupont"}"#;
    let variant = VariantMetadata::new(16, "application/x-places+json");
    store
        .create_resource(&path, "sample contact", &variant, &Vec::new(), content)
        .unwrap();

    assert_eq!(store.search("dupont").unwrap().len(), 1);
    assert_eq!(store.get_variant_vec("default", &path).unwrap().len(), content.len());

    store.delete_resource(&path).unwrap();

    assert_eq!(store.search("dupont").unwrap().len(), 0);
    assert_eq!(store.ls().unwrap().len(), 0);
    assert!(matches!(
        store.get_variant_vec("default", &path),
        Err(StoreError::NoSuchResource(_))
    ));
}

#[test]
fn delete_variant() {
    let mut store = test_store();
    let path = ["small file".to_owned()];
    let variant = VariantMetadata::new(16, "text/plain");
    store
        .create_resource(&path, "small file", &variant, &Vec::new(), b"abcdef0123456789")
        .unwrap();
    let variant = VariantMetadata::new(16, "text/plain");
    store
        .add_variant(&path, "reverse", &variant, b"9876543210fedcba")
        .unwrap();

    assert_eq!(store.get_metadata(&path).unwrap().variants().len(), 2);
    assert_eq!(store.search("fedcba").unwrap().len(), 1);

    store.delete_variant(&path, "reverse").unwrap();

    assert_eq!(store.get_metadata(&path).unwrap().variants().len(), 1);
    assert_eq!(store.search("fedcba").unwrap().len(), 0);
    assert!(matches!(
        store.get_variant_vec("reverse", &path),
        Err(StoreError::NoSuchVariant(_, _))
    ));
    assert!(matches!(
        store.delete_variant(&path, "missing"),
        Err(StoreError::NoSuchVariant(_, _))
    ));
}

#[test]
fn default_variant_is_protected() {
    let mut store = test_store();
    let path = ["guarded".to_owned()];
    let variant = VariantMetadata::new(5, "text/plain");
    store
        .create_resource(&path, "guarded", &variant, &Vec::new(), b"bytes")
        .unwrap();

    assert!(matches!(
        store.delete_variant(&path, "default"),
        Err(StoreError::InvalidVariant(_))
    ));
    let variant = VariantMetadata::new(5, "text/plain");
    assert!(matches!(
        store.add_variant(&path, "default", &variant, b"other"),
        Err(StoreError::InvalidVariant(_))
    ));
}

#[test]
fn update_variant() {
    let mut store = test_store();
    let path = ["small file".to_owned()];
    let content = b"abcdef0123456789".as_slice();
    let updated = b"this is updated content".as_slice();

    let variant = VariantMetadata::new(content.len() as u64, "text/plain");
    store
        .create_resource(&path, "small file", &variant, &Vec::new(), content)
        .unwrap();
    let variant = VariantMetadata::new(16, "text/plain");
    store
        .add_variant(&path, "reverse", &variant, b"9876543210fedcba")
        .unwrap();

    assert_eq!(store.search("fedcba").unwrap().len(), 1);

    let variant = VariantMetadata::new(updated.len() as u64, "text/plain");
    store
        .update_variant(&path, "reverse", &variant, updated)
        .unwrap();

    assert_eq!(store.get_metadata(&path).unwrap().variants().len(), 2);
    assert_eq!(store.search("fedcba").unwrap().len(), 0);
    assert_eq!(store.search("updated").unwrap().len(), 1);
    assert_eq!(store.get_variant_vec("reverse", &path).unwrap(), updated.to_vec());
}

#[test]
fn update_default_variant() {
    let mut store = test_store();
    let path = ["small file".to_owned()];
    let content = b"abcdef0123456789".as_slice();
    let updated = b"this is updated content".as_slice();

    let variant = VariantMetadata::new(content.len() as u64, "text/plain");
    store
        .create_resource(&path, "small file", &variant, &Vec::new(), content)
        .unwrap();
    let variant = VariantMetadata::new(16, "text/plain");
    store
        .add_variant(&path, "reverse", &variant, b"9876543210fedcba")
        .unwrap();

    assert_eq!(store.search("abcdef").unwrap().len(), 1);

    let variant = VariantMetadata::new(updated.len() as u64, "text/plain");
    store
        .update_variant(&path, "default", &variant, updated)
        .unwrap();

    assert_eq!(store.get_metadata(&path).unwrap().variants().len(), 2);
    assert_eq!(store.search("abcdef").unwrap().len(), 0);
    assert_eq!(store.search("updated").unwrap().len(), 1);
    assert_eq!(store.get_variant_vec("default", &path).unwrap(), updated.to_vec());
}

#[test]
fn add_remove_tags() {
    let mut store = test_store();
    let path = ["tag demo".to_owned()];
    let variant = VariantMetadata::new(0, "application/octet-stream");
    store
        .create_resource(&path, "empty file", &variant, &Vec::new(), b"")
        .unwrap();

    assert_eq!(store.get_metadata(&path).unwrap().tags().len(), 0);
    store.add_tag(&path, "tag-1").unwrap();
    assert_eq!(store.get_metadata(&path).unwrap().tags().len(), 1);
    store.add_tag(&path, "tag-2").unwrap();
    assert_eq!(store.get_metadata(&path).unwrap().tags().len(), 2);
    store.remove_tag(&path, "tag-1").unwrap();
    let meta = store.get_metadata(&path).unwrap();
    assert_eq!(meta.tags().len(), 1);
    assert_eq!(meta.tags().first(), Some(&"tag-2".to_owned()));
}

#[test]
fn import_file() {
    let mut store = test_store();
    store.import_file("./somewhere/hello.txt", b"Hello, hello!").unwrap();

    let path = ["hello.txt".to_owned()];
    let content = store.get_variant_vec("default", &path).unwrap();
    assert_eq!(content.len(), 13);
    let meta = store.get_metadata(&path).unwrap();
    assert_eq!(meta.get_variant("default").unwrap().mime_type(), "text/plain");
}

#[test]
fn image_transformer() {
    let img = image::DynamicImage::ImageRgba8(image::RgbaImage::from_pixel(
        320,
        200,
        image::Rgba([10u8, 120u8, 200u8, 255u8]),
    ));
    let mut png: Vec<u8> = Vec::new();
    img.write_to(&mut std::io::Cursor::new(&mut png), image::ImageFormat::Png)
        .unwrap();

    let mut store = test_store();
    store.import_file("sticker_logo_small.png", &png).unwrap();

    let path = ["sticker_logo_small.png".to_owned()];
    let metadata = store.get_metadata(&path).unwrap();
    assert_eq!(metadata.variants().len(), 2);
    assert!(metadata.has_variant("default"));
    assert!(metadata.has_variant("thumbnail"));

    let thumb_meta = metadata.get_variant("thumbnail").unwrap();
    assert_eq!(thumb_meta.mime_type(), "image/jpeg");
    assert!(thumb_meta.size() > 0);

    let thumb = store.get_variant_vec("thumbnail", &path).unwrap();
    assert_eq!(thumb.len() as u64, thumb_meta.size());
    let decoded = image::load_from_memory(&thumb).unwrap();
    assert!(decoded.width() <= 128);
    assert!(decoded.height() <= 128);
}

#[test]
fn nested_path_listing() {
    let mut store = test_store();
    let path = ["docs".to_owned(), "note.txt".to_owned()];
    let variant = VariantMetadata::new(4, "text/plain");
    store
        .create_resource(&path, "nested note", &variant, &Vec::new(), b"text")
        .unwrap();

    let listing = store.ls().unwrap();
    assert_eq!(listing.len(), 1);
    assert_eq!(listing[0].0, "docs/note.txt");

    let results = store.search("nested").unwrap();
    assert_eq!(results.len(), 1);
    assert_eq!(results[0].0.parts(), path.to_vec());
}

#[test]
fn contact_mime_unsupported() {
    // Only text/plain and the places JSON flavour have extractors; a JSON
    // MIME type without one makes the creation fail before any content is
    // stored.
    let mut store = test_store();
    let path = ["contact test".to_owned()];
    let variant = VariantMetadata::new(2, "application/x-contact+json");
    let r = store.create_resource(&path, "sample contact", &variant, &Vec::new(), b"{}");
    assert!(matches!(r, Err(StoreError::Sqlite(_))));
    assert!(store.get_metadata(&path).is_err());
}

#[test]
fn duplicate_create_fails() {
    let mut store = test_store();
    let path = ["twice".to_owned()];
    let variant = VariantMetadata::new(1, "text/plain");
    store
        .create_resource(&path, "first", &variant, &Vec::new(), b"x")
        .unwrap();
    let variant = VariantMetadata::new(1, "text/plain");
    let second = store.create_resource(&path, "second", &variant, &Vec::new(), b"y");
    assert!(matches!(second, Err(StoreError::Sqlite(_))));
}

#[test]
fn missing_resource_errors() {
    let mut store = test_store();
    let path = ["nowhere".to_owned()];
    let variant = VariantMetadata::new(1, "text/plain");
    assert!(matches!(
        store.add_variant(&path, "extra", &variant, b"x"),
        Err(StoreError::NoResourceMetadata(_))
    ));
    assert!(matches!(
        store.update_variant(&path, "default", &variant, b"x"),
        Err(StoreError::NoResourceMetadata(_))
    ));
    assert!(matches!(
        store.add_tag(&path, "t"),
        Err(StoreError::NoResourceMetadata(_))
    ));
    assert!(matches!(
        store.delete_resource(&path),
        Err(StoreError::NoSuchResource(_))
    ));
    assert!(matches!(
        store.get_metadata(&path),
        Err(StoreError::NoSuchResource(_))
    ));
}

#[test]
fn indexer_duplicate_resource() {
    let mut ix = Indexer::new(":memory:").expect("failed to open the index");
    let id = ResourceId::from_parts(&["dup".to_owned()]);
    ix.add_resource(&id).unwrap();
    assert!(ix.add_resource(&id).is_err());
}

#[test]
fn indexer_dirty_flag() {
    let mut ix = Indexer::new(":memory:").expect("failed to open the index");
    assert!(!ix.should_update());
    let id = ResourceId::from_parts(&["flagged".to_owned()]);
    ix.add_resource(&id).unwrap();
    assert!(ix.should_update());
    ix.set_updated();
    assert!(!ix.should_update());
}

#[test]
fn store_dirty_flag() {
    let mut store = test_store();
    assert!(!store.should_update());
    let path = ["flagged".to_owned()];
    let variant = VariantMetadata::new(1, "text/plain");
    store
        .create_resource(&path, "flagged", &variant, &Vec::new(), b"x")
        .unwrap();
    assert!(store.should_update());
    store.set_updated();
    assert!(!store.should_update());
}
