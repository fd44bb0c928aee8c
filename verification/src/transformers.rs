//! Variant transformers: code that runs when a default variant is
//! created, updated or deleted, and derives further variants.
//!
//! The one built-in transformer is the thumbnailer: on image content it
//! derives a JPEG `"thumbnail"` variant, bounded by a configurable size.
//! Decoding and encoding are done by the image crate, trusted through the
//! wrappers below.

use vstd::prelude::*;

use crate::resource::{VariantMetadata, VariantMetadataV};
use crate::strutil::{has_prefix, str_starts_with};

verus! {

/// Content returned by a variant transform, as one plain buffer.
pub struct TransformedContent {
    data: Vec<u8>,
}

impl View for TransformedContent {
    type V = Seq<u8>;

    closed spec fn view(&self) -> Seq<u8> {
        self.data@
    }
}

impl TransformedContent {
    pub fn new(data: Vec<u8>) -> (r: Self)
        ensures
            r@ == data@,
    {
        TransformedContent { data }
    }

    /// The buffered bytes.
    pub fn data(&self) -> (r: &Vec<u8>)
        ensures
            r@ == self@,
    {
        &self.data
    }
}

/// Ghost model of a [`TransformedVariant`].
#[verifier::ext_equal]
pub struct TransformedVariantV {
    pub name: Seq<char>,
    pub meta: VariantMetadataV,
    pub content: Seq<u8>,
}

/// A variant a transformer asks the coordinator to create or update.
pub struct TransformedVariant {
    pub(crate) name: String,
    pub(crate) meta: VariantMetadata,
    pub(crate) content: TransformedContent,
}

impl View for TransformedVariant {
    type V = TransformedVariantV;

    closed spec fn view(&self) -> TransformedVariantV {
        TransformedVariantV { name: self.name@, meta: self.meta@, content: self.content@ }
    }
}

impl TransformedVariant {
    pub fn new(name: &str, meta: &VariantMetadata, content: TransformedContent) -> (r: Self)
        ensures
            r@ == (TransformedVariantV { name: name@, meta: meta@, content: content@ }),
    {
        TransformedVariant { name: name.to_owned(), meta: meta.clone(), content }
    }

    /// The variant's name.
    pub fn name(&self) -> (r: &String)
        ensures
            r@ == self@.name,
    {
        &self.name
    }

    /// The variant's metadata.
    pub fn meta(&self) -> (r: &VariantMetadata)
        ensures
            r@ == self@.meta,
    {
        &self.meta
    }

    /// The variant's content.
    pub fn content(&self) -> (r: &TransformedContent)
        ensures
            r@ == self@.content,
    {
        &self.content
    }
}

/// Ghost model of a [`VariantChange`].
pub enum VariantChangeV {
    Created(VariantMetadataV),
    Updated(VariantMetadataV),
    Deleted(VariantMetadataV),
}

impl VariantChangeV {
    /// The metadata carried by the change.
    pub open spec fn metadata(self) -> VariantMetadataV {
        match self {
            VariantChangeV::Created(m) => m,
            VariantChangeV::Updated(m) => m,
            VariantChangeV::Deleted(m) => m,
        }
    }
}

/// What happened to a default variant.
pub enum VariantChange {
    Created(VariantMetadata),
    Updated(VariantMetadata),
    Deleted(VariantMetadata),
}

impl View for VariantChange {
    type V = VariantChangeV;

    open spec fn view(&self) -> VariantChangeV {
        match self {
            VariantChange::Created(m) => VariantChangeV::Created(m@),
            VariantChange::Updated(m) => VariantChangeV::Updated(m@),
            VariantChange::Deleted(m) => VariantChangeV::Deleted(m@),
        }
    }
}

impl VariantChange {
    pub fn is_created(&self) -> (r: bool)
        ensures
            r == (self@ is Created),
    {
        matches!(self, VariantChange::Created(_))
    }

    pub fn is_updated(&self) -> (r: bool)
        ensures
            r == (self@ is Updated),
    {
        matches!(self, VariantChange::Updated(_))
    }

    pub fn is_deleted(&self) -> (r: bool)
        ensures
            r == (self@ is Deleted),
    {
        matches!(self, VariantChange::Deleted(_))
    }

    pub fn metadata(&self) -> (r: VariantMetadata)
        ensures
            r@ == self@.metadata(),
    {
        match self {
            VariantChange::Created(m) => m.clone(),
            VariantChange::Updated(m) => m.clone(),
            VariantChange::Deleted(m) => m.clone(),
        }
    }
}

/// Ghost model of a [`TransformerResult`].
pub enum TransformerResultV {
    Delete(Seq<char>),
    Create(TransformedVariantV),
    Update(TransformedVariantV),
}

/// One instruction a transformer hands back to the coordinator.
pub enum TransformerResult {
    Delete(String),
    Create(TransformedVariant),
    Update(TransformedVariant),
}

impl View for TransformerResult {
    type V = TransformerResultV;

    open spec fn view(&self) -> TransformerResultV {
        match self {
            TransformerResult::Delete(name) => TransformerResultV::Delete(name@),
            TransformerResult::Create(v) => TransformerResultV::Create(v@),
            TransformerResult::Update(v) => TransformerResultV::Update(v@),
        }
    }
}

impl DeepView for TransformerResult {
    type V = TransformerResultV;

    open spec fn deep_view(&self) -> TransformerResultV {
        self.view()
    }
}

/// A transformer reacts to a default-variant change with instructions.
pub trait VariantTransformer {
    fn transform_variant(&self, change: &VariantChange, content: &[u8]) -> Vec<TransformerResult>;
}

#[verifier::external_type_specification]
#[verifier::external_body]
pub struct ExDynamicImage(image::DynamicImage);

/// The pixel content held by a decoded image.
pub uninterp spec fn img_model(img: image::DynamicImage) -> Seq<u8>;

/// What image's load_from_memory decodes from these bytes, when they are
/// a readable image.
pub uninterp spec fn decoded_img(bytes: Seq<u8>) -> Option<Seq<u8>>;

/// What DynamicImage::thumbnail scales this image to, within the given
/// bounds on both sides.
pub uninterp spec fn thumb_model(img: Seq<u8>, size: u32) -> Seq<u8>;

/// What DynamicImage::write_to encodes this image to as JPEG, when
/// encoding goes through.
pub uninterp spec fn jpeg_of(img: Seq<u8>) -> Option<Seq<u8>>;

/// Relies on image::load_from_memory: guesses the format and decodes;
/// the result depends on the bytes alone.
#[verifier::external_body]
fn decode_image(bytes: &[u8]) -> (r: Option<image::DynamicImage>)
    ensures
        r is Some <==> decoded_img(bytes@) is Some,
        r is Some ==> img_model(r.unwrap()) == decoded_img(bytes@).unwrap(),
{
    image::load_from_memory(bytes).ok()
}

/// Relies on image::DynamicImage::thumbnail: scales down to fit within
/// `size` on both sides, preserving the aspect ratio.
#[verifier::external_body]
fn scale_thumbnail(img: &image::DynamicImage, size: u32) -> (r: image::DynamicImage)
    ensures
        img_model(r) == thumb_model(img_model(*img), size),
{
    img.thumbnail(size, size)
}

/// Relies on image::DynamicImage::write_to with the JPEG format.
#[verifier::external_body]
fn encode_jpeg(img: &image::DynamicImage) -> (r: Option<Vec<u8>>)
    ensures
        r is Some <==> jpeg_of(img_model(*img)) is Some,
        r is Some ==> r.unwrap()@ == jpeg_of(img_model(*img)).unwrap(),
{
    let mut bytes: Vec<u8> = Vec::new();
    match img.write_to(&mut std::io::Cursor::new(&mut bytes), image::ImageFormat::Jpeg) {
        Ok(()) => Some(bytes),
        Err(_) => None,
    }
}

/// The JPEG thumbnail derived from this content, when the content decodes
/// and the thumbnail encodes.
pub open spec fn thumb_jpeg(content: Seq<u8>, size: u32) -> Option<Seq<u8>> {
    match decoded_img(content) {
        Some(m) => jpeg_of(thumb_model(m, size)),
        None => None,
    }
}

/// The instructions the thumbnailer returns for this change and content.
pub open spec fn thumbnailer_results(change: VariantChangeV, content: Seq<u8>, size: u32) -> Seq<
    TransformerResultV,
> {
    let meta = change.metadata();
    if !has_prefix(meta.mime_type, "image/"@) {
        Seq::empty()
    } else if change is Deleted {
        seq![TransformerResultV::Delete("thumbnail"@)]
    } else {
        match thumb_jpeg(content, size) {
            Some(bytes) => {
                let tv = TransformedVariantV {
                    name: "thumbnail"@,
                    meta: VariantMetadataV { size: bytes.len() as u64, mime_type: "image/jpeg"@ },
                    content: bytes,
                };
                if change is Created {
                    seq![TransformerResultV::Create(tv)]
                } else {
                    seq![TransformerResultV::Update(tv)]
                }
            },
            None => Seq::empty(),
        }
    }
}

/// The default bound, on both sides, of a derived thumbnail.
pub const DEFAULT_THUMBNAIL_SIZE: u32 = 128;

/// The built-in transformer: derives a bounded JPEG thumbnail from image
/// content.
pub struct Thumbnailer {
    size: u32,
}

impl Default for Thumbnailer {
    fn default() -> (r: Self)
        ensures
            r.size_spec() == DEFAULT_THUMBNAIL_SIZE,
    {
        Thumbnailer { size: DEFAULT_THUMBNAIL_SIZE }
    }
}

impl Thumbnailer {
    /// The bound, on both sides, of the thumbnails this transformer makes.
    pub closed spec fn size_spec(&self) -> u32 {
        self.size
    }

    /// Decode the content, scale it, and wrap the encoded thumbnail as a
    /// variant.
    fn create_thumbnail(&self, content: &[u8]) -> (r: Result<TransformedVariant, ()>)
        ensures
            r is Ok <==> thumb_jpeg(content@, self.size_spec()) is Some,
            r is Ok ==> r.unwrap()@ == (TransformedVariantV {
                name: "thumbnail"@,
                meta: VariantMetadataV {
                    size: thumb_jpeg(content@, self.size_spec()).unwrap().len() as u64,
                    mime_type: "image/jpeg"@,
                },
                content: thumb_jpeg(content@, self.size_spec()).unwrap(),
            }),
    {
        let img = match decode_image(content) {
            Some(img) => img,
            None => {
                return Err(());
            },
        };
        let thumbnail = scale_thumbnail(&img, self.size);
        let bytes = match encode_jpeg(&thumbnail) {
            Some(bytes) => bytes,
            None => {
                return Err(());
            },
        };
        let size = bytes.len() as u64;
        let v = TransformedVariant::new(
            "thumbnail",
            &VariantMetadata::new(size, "image/jpeg"),
            TransformedContent::new(bytes),
        );
        Ok(v)
    }

    /// The thumbnailer's reaction to a default-variant change.
    pub fn run(&self, change: &VariantChange, content: &[u8]) -> (r: Vec<TransformerResult>)
        ensures
            r.deep_view() == thumbnailer_results(change@, content@, self.size_spec()),
    {
        let meta = change.metadata();
        let mime = meta.mime_type();
        let mut results: Vec<TransformerResult> = Vec::new();
        if !str_starts_with(mime.as_str(), "image/") {
            assert(results.deep_view() =~= thumbnailer_results(
                change@,
                content@,
                self.size_spec(),
            ));
            return results;
        }
        if change.is_deleted() {
            results.push(TransformerResult::Delete(String::from_str("thumbnail")));
            assert(results.deep_view() =~= thumbnailer_results(
                change@,
                content@,
                self.size_spec(),
            ));
            return results;
        }
        match self.create_thumbnail(content) {
            Ok(v) => {
                if change.is_created() {
                    results.push(TransformerResult::Create(v));
                } else {
                    results.push(TransformerResult::Update(v));
                }
            },
            Err(()) => (),
        }
        assert(results.deep_view() =~= thumbnailer_results(change@, content@, self.size_spec()));
        results
    }
}

impl VariantTransformer for Thumbnailer {
    fn transform_variant(&self, change: &VariantChange, content: &[u8]) -> Vec<TransformerResult> {
        self.run(change, content)
    }
}

/// Run every registered transformer (the thumbnailer, bounded by the
/// default size) and collect their instructions.
pub fn run_transformers(change: &VariantChange, content: &[u8]) -> (r: Vec<TransformerResult>)
    ensures
        r.deep_view() == thumbnailer_results(change@, content@, DEFAULT_THUMBNAIL_SIZE),
{
    let thumbnailer = Thumbnailer::default();
    thumbnailer.run(change, content)
}

} // verus!
