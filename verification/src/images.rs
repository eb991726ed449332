//! The outside boundary of the image pipeline: decoding, resizing and
//! saving raster images, the perceptual hash, and base64 text.
//!
//! Every item here is trusted: its contract states only what the outside
//! crate's source or documentation shows, and nothing is promised of
//! results that depend on what is on disk.

use vstd::prelude::*;
use base64::Engine;

verus! {

#[verifier::external_type_specification]
#[verifier::external_body]
pub struct ExDynamicImage(image::DynamicImage);

#[verifier::external_type_specification]
#[verifier::external_body]
pub struct ExImageError(image::ImageError);

/// Relies on image::open: reads and decodes the file at `path`. What comes
/// back depends on the disk, so nothing is promised of it.
#[verifier::external_body]
pub fn open_image(path: &[u8]) -> Result<image::DynamicImage, image::ImageError> {
    image::open(core::str::from_utf8(path).unwrap_or(""))
}

/// Relies on image::DynamicImage::resize with the fast nearest-neighbour
/// filter: an aspect-preserving fit into `w` by `h`.
#[verifier::external_body]
pub fn resize_nearest(img: &image::DynamicImage, w: u32, h: u32) -> image::DynamicImage {
    img.resize(w, h, image::imageops::FilterType::Nearest)
}

/// Relies on image::DynamicImage::resize with the high-quality Lanczos
/// filter: an aspect-preserving fit into `w` by `h`.
#[verifier::external_body]
pub fn resize_lanczos(img: &image::DynamicImage, w: u32, h: u32) -> image::DynamicImage {
    img.resize(w, h, image::imageops::FilterType::Lanczos3)
}

/// Relies on image::DynamicImage::save: encodes the image into the file at
/// `path`, in the format the path's extension names.
#[verifier::external_body]
pub fn save_image(img: &image::DynamicImage, path: &[u8]) -> Result<(), image::ImageError> {
    img.save(core::str::from_utf8(path).unwrap_or(""))
}

/// Relies on image::DynamicImage::width.
#[verifier::external_body]
pub fn image_width(img: &image::DynamicImage) -> u32 {
    img.width()
}

/// Relies on image::DynamicImage::thumbnail and to_rgba8: an
/// aspect-preserving downsample into a 100 by 100 box (dimensions of at
/// least one are kept by `resize_dimensions`), handed out as the tightly
/// packed RGBA bytes of the result together with its dimensions.
#[verifier::external_body]
pub fn thumbnail_rgba(img: &image::DynamicImage) -> (r: (u32, u32, Vec<u8>))
    ensures
        1 <= r.0 <= 100,
        1 <= r.1 <= 100,
        r.2@.len() == 4 * r.0 * r.1,
{
    let thumb = img.thumbnail(100, 100);
    let buf = thumb.to_rgba8();
    let (w, h) = (buf.width(), buf.height());
    (w, h, buf.into_raw())
}

/// The perceptual hash of an RGBA image: what thumbhash::rgba_to_thumb_hash
/// returns, a function of the dimensions and pixel bytes alone.
pub uninterp spec fn thumb_hash_of(w: u32, h: u32, rgba: Seq<u8>) -> Seq<u8>;

/// Relies on thumbhash::rgba_to_thumb_hash: a pure function of `(w, h,
/// rgba)`; it asserts `w <= 100`, `h <= 100` and `rgba.len() == w*h*4`, and
/// always writes a five-byte header before any further payload.
#[verifier::external_body]
pub fn thumb_hash(w: u32, h: u32, rgba: &Vec<u8>) -> (r: Vec<u8>)
    requires
        w <= 100,
        h <= 100,
        rgba@.len() == 4 * w * h,
    ensures
        r@ == thumb_hash_of(w, h, rgba@),
        r@.len() >= 5,
{
    thumbhash::rgba_to_thumb_hash(w as usize, h as usize, rgba.as_slice())
}

/// The standard base64 text of a byte string: what the padded standard
/// engine of the base64 crate returns, a function of the bytes alone.
pub uninterp spec fn base64_of(bytes: Seq<u8>) -> Seq<u8>;

/// Relies on base64's general_purpose::STANDARD engine: padded standard
/// base64, four output bytes for every started group of three input bytes.
#[verifier::external_body]
pub fn base64_encode(bytes: &Vec<u8>) -> (r: Vec<u8>)
    ensures
        r@ == base64_of(bytes@),
        r@.len() == 4 * ((bytes@.len() + 2) / 3),
{
    base64::engine::general_purpose::STANDARD.encode(bytes.as_slice()).into_bytes()
}

} // verus!
