//! The raw source data an asset is loaded from, and the formats vaults decode it with.

use image::ImageFormat;
use std::hash::{Hash, Hasher};
use vstd::prelude::*;
use crate::packing::UVec2;

verus! {

/// The raw source data used to load an asset, as passed to `AssetVault::load`.
///
/// Not every vault is required to support every variant; unsupported variants
/// should be rejected by returning an `Err` from `load`.
///
/// Beware when using raw `Binary` and `Content` variants as they will be hashed,
/// so large inputs are not suggested unless absolutely necessary.
#[derive(Debug, Hash, PartialEq, Eq, PartialOrd, Ord)]
pub enum AssetContent {
    /// Raw, already-decoded binary content (e.g. the bytes of an image file).
    Binary(Box<[u8]>),
    /// Textual content, such as inline source for a text-based asset format.
    Content(String),
    /// A path to the asset's content on the local filesystem.
    LocalPath(String),
    /// A URL to fetch the asset's content from over the network.
    Url(String),
}

/// The bytes a content resolves to without any I/O: `Binary` holds them, `Content`
/// is its text in UTF-8; `LocalPath` and `Url` must be read from elsewhere.
pub open spec fn inline_bytes_of(content: AssetContent) -> Option<Seq<u8>> {
    match content {
        AssetContent::Binary(bytes) => Some(bytes@),
        AssetContent::Content(text) => Some(vstd::utf8::encode_utf8(text@)),
        AssetContent::LocalPath(_) => None,
        AssetContent::Url(_) => None,
    }
}

fn copy_bytes(bytes: &[u8]) -> (r: Vec<u8>)
    ensures
        r@ == bytes@,
{
    let mut out: Vec<u8> = Vec::new();
    let n = bytes.len();
    let mut i: usize = 0;
    while i < n
        invariant
            n == bytes@.len(),
            i <= n,
            out@ == bytes@.subrange(0, i as int),
        decreases n - i,
    {
        out.push(bytes[i]);
        i = i + 1;
        assert(out@ =~= bytes@.subrange(0, i as int));
    }
    assert(bytes@.subrange(0, n as int) =~= bytes@);
    out
}

/// `<Box<[u8]> as Clone>::clone`: a new box holding the same bytes.
#[verifier::external_body]
fn clone_boxed_bytes(bytes: &Box<[u8]>) -> (r: Box<[u8]>)
    ensures
        r == *bytes,
{
    bytes.clone()
}

impl Clone for AssetContent {
    fn clone(&self) -> (r: Self)
        ensures
            r == *self,
    {
        match self {
            AssetContent::Binary(bytes) => AssetContent::Binary(clone_boxed_bytes(bytes)),
            AssetContent::Content(text) => AssetContent::Content(text.clone()),
            AssetContent::LocalPath(path) => AssetContent::LocalPath(path.clone()),
            AssetContent::Url(url) => AssetContent::Url(url.clone()),
        }
    }
}

impl AssetContent {
    /// Resolves `Binary` and `Content` into their bytes; `LocalPath` and `Url`
    /// need file or network I/O and give `None`.
    pub fn inline_bytes(&self) -> (r: Option<Vec<u8>>)
        ensures
            match r {
                Some(v) => inline_bytes_of(*self) == Some(v@),
                None => inline_bytes_of(*self) is None,
            },
    {
        match self {
            AssetContent::Binary(bytes) => Some(copy_bytes(bytes)),
            AssetContent::Content(text) => Some(copy_bytes(text.as_str().as_bytes())),
            AssetContent::LocalPath(_) => None,
            AssetContent::Url(_) => None,
        }
    }
}

/// Hashes `content` with ahash's default hasher (`AHasher::default`, the derived
/// `Hash` of the content, then `Hasher::finish`). Nothing is stated of the value:
/// the hasher's fixed keys are drawn at random once per process.
#[verifier::external_body]
pub(crate) fn content_hash(content: &AssetContent) -> u64 {
    let mut hasher = ahash::AHasher::default();
    content.hash(&mut hasher);
    hasher.finish()
}

/// `hash` is what [`content_hash`] gives for `content`: the value the hasher this
/// library keys content by returns when fed that content.
pub closed spec fn hashes_to(content: AssetContent, hash: u64) -> bool {
    call_ensures(content_hash, (&content,), hash)
}

/// Hashes `content` with [`content_hash`], and says so: the result is what the
/// hasher gives for this content.
pub(crate) fn hash_of(content: &AssetContent) -> (r: u64)
    ensures
        hashes_to(*content, r),
{
    let hash = content_hash;
    hash(content)
}

/// The encoding of texture bytes passed to a texture vault's `load`.
///
/// This selects the decoder explicitly rather than guessing from the file
/// signature, since some formats (e.g. TGA) have no magic bytes to sniff.
#[derive(Debug, Clone, Copy, Hash, PartialEq, Eq, PartialOrd, Ord, Structural)]
pub enum TextureType {
    PNG,
    JPG,
    TGA,
    BMP,
    DDS,
    FARBFELD,
    HDR,
    ICO,
    OPENEXR,
    PNM,
    QOI,
    TIFF,
    WEBP,
}

/// The file format used to interpret an asset's content when loading a mesh.
#[derive(Debug, Clone, Copy, Hash, PartialEq, Eq, PartialOrd, Ord, Structural)]
pub enum MeshLoadType {
    /// Wavefront `.obj` geometry.
    OBJ,
}

/// A texture decoded to 8-bit RGBA pixels, row by row.
pub struct DecodedTexture {
    pub size: UVec2,
    pub pixels: Vec<u8>,
}

/// Why texture bytes could not be decoded.
#[derive(Debug, PartialEq, Eq)]
pub enum TextureDecodeError {
    /// The decoder rejected the bytes; the decoder's message.
    Decode(String),
}

#[verifier::external_type_specification]
#[verifier::external_body]
pub struct ExImageError(image::ImageError);

/// What `image` decodes `bytes` to when read as `ty`: the width, the height and the
/// RGBA8 pixels row by row, or `None` where the decoder rejects the bytes.
pub uninterp spec fn decoded_rgba8(bytes: Seq<u8>, ty: TextureType) -> Option<(u32, u32, Seq<u8>)>;

/// `image::load_from_memory_with_format` with the `image::ImageFormat` of `ty` (one
/// variant for each), then the image's `dimensions` and its `to_rgba8` pixels. The
/// result is named `decoded_rgba8` of the bytes and the type; of a decoded image it is
/// stated that it holds four bytes for each of its `width x height` pixels, as an
/// RGBA8 buffer of those dimensions does. Which pixels come out is left unsaid.
#[verifier::external_body]
fn decode_with_image(bytes: &[u8], ty: TextureType) -> (r: Result<(u32, u32, Vec<u8>), image::ImageError>)
    ensures
        r is Ok <==> decoded_rgba8(bytes@, ty) is Some,
        r matches Ok((w, h, px)) ==> decoded_rgba8(bytes@, ty) == Some((w, h, px@)),
        r matches Ok((w, h, px)) ==> px@.len() == 4 * (w as int) * (h as int),
{
    let format = match ty {
        TextureType::PNG => ImageFormat::Png, TextureType::JPG => ImageFormat::Jpeg,
        TextureType::TGA => ImageFormat::Tga, TextureType::BMP => ImageFormat::Bmp,
        TextureType::DDS => ImageFormat::Dds, TextureType::FARBFELD => ImageFormat::Farbfeld,
        TextureType::HDR => ImageFormat::Hdr, TextureType::ICO => ImageFormat::Ico,
        TextureType::OPENEXR => ImageFormat::OpenExr, TextureType::PNM => ImageFormat::Pnm,
        TextureType::QOI => ImageFormat::Qoi, TextureType::TIFF => ImageFormat::Tiff,
        TextureType::WEBP => ImageFormat::WebP,
    };
    let img = image::load_from_memory_with_format(bytes, format)?;
    let (w, h) = image::GenericImageView::dimensions(&img);
    Ok((w, h, img.to_rgba8().into_raw()))
}

/// The decoder's message for an error.
#[verifier::external_body]
fn image_error_message(e: &image::ImageError) -> String {
    e.to_string()
}

/// Builds the decoded texture from a decoder's outcome: its width, height and RGBA8
/// pixels, or the decoder's message, which becomes `TextureDecodeError::Decode`.
pub fn texture_from_decoded(decoded: Result<(u32, u32, Vec<u8>), String>) -> (r: Result<DecodedTexture, TextureDecodeError>)
    ensures
        decoded matches Ok((w, h, px)) ==> (r matches Ok(t) && t.size.x == w && t.size.y == h && t.pixels@ == px@),
        decoded matches Err(m) ==> (r matches Err(TextureDecodeError::Decode(e)) && e@ == m@),
{
    match decoded {
        Ok((w, h, pixels)) => Ok(DecodedTexture { size: UVec2::new(w, h), pixels }),
        Err(message) => Err(TextureDecodeError::Decode(message)),
    }
}

/// Decodes texture bytes of the given encoding into RGBA8 pixels: succeeds exactly
/// where the decoder accepts the bytes, with the size and pixels it gives.
pub fn decode_texture(bytes: &[u8], ty: TextureType) -> (r: Result<DecodedTexture, TextureDecodeError>)
    ensures
        r is Ok <==> decoded_rgba8(bytes@, ty) is Some,
        r matches Ok(t) ==> decoded_rgba8(bytes@, ty) == Some((t.size.x, t.size.y, t.pixels@)),
        r matches Ok(t) ==> t.pixels@.len() == 4 * (t.size.x as int) * (t.size.y as int),
{
    match decode_with_image(bytes, ty) {
        Ok(decoded) => texture_from_decoded(Ok(decoded)),
        Err(e) => texture_from_decoded(Err(image_error_message(&e))),
    }
}

} // verus!
