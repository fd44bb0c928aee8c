//! Unit tests for the variant transformers.

use docstore::resource::VariantMetadata;
use docstore::transformers::{run_transformers, TransformerResult, VariantChange};

fn png_bytes() -> Vec<u8> {
    let img = image::DynamicImage::ImageRgba8(image::RgbaImage::from_pixel(
        64,
        48,
        image::Rgba([200u8, 40u8, 40u8, 255u8]),
    ));
    let mut png: Vec<u8> = Vec::new();
    img.write_to(&mut std::io::Cursor::new(&mut png), image::ImageFormat::Png)
        .unwrap();
    png
}

#[test]
fn variant_change_accessors() {
    let vm = VariantMetadata::new(7, "image/png");
    let created = VariantChange::Created(vm.clone());
    assert!(created.is_created());
    assert!(!created.is_updated());
    assert!(!created.is_deleted());
    assert_eq!(created.metadata().mime_type(), "image/png");

    let deleted = VariantChange::Deleted(vm);
    assert!(deleted.is_deleted());
}

#[test]
fn thumbnailer_creates_thumbnail() {
    let png = png_bytes();
    let vm = VariantMetadata::new(png.len() as u64, "image/png");
    let results = run_transformers(&VariantChange::Created(vm), &png);
    assert_eq!(results.len(), 1);
    match &results[0] {
        TransformerResult::Create(v) => {
            assert_eq!(v.name(), "thumbnail");
            assert_eq!(v.meta().mime_type(), "image/jpeg");
            assert_eq!(v.meta().size() as usize, v.content().data().len());
            assert!(v.meta().size() > 0);
        }
        _ => panic!("expected a Create instruction"),
    }
}

#[test]
fn thumbnailer_reacts_to_deletion() {
    let vm = VariantMetadata::new(0, "image/png");
    let results = run_transformers(&VariantChange::Deleted(vm), b"");
    assert_eq!(results.len(), 1);
    assert!(matches!(&results[0], TransformerResult::Delete(name) if name == "thumbnail"));
}

#[test]
fn thumbnailer_skips_other_content() {
    let vm = VariantMetadata::new(4, "text/plain");
    let results = run_transformers(&VariantChange::Created(vm), b"text");
    assert_eq!(results.len(), 0);

    // Image MIME type, but content that does not decode: no instruction.
    let vm = VariantMetadata::new(4, "image/png");
    let results = run_transformers(&VariantChange::Created(vm), b"nope");
    assert_eq!(results.len(), 0);
}
