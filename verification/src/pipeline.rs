//! The per-image work of the variant generator and placeholder hasher:
//! decode once, write one resized variant per configured pixel ratio, and
//! compute the placeholder text from the same decode.

use vstd::prelude::*;
use crate::images::{
    base64_encode, base64_of, image_width, open_image, resize_lanczos, resize_nearest, save_image,
    thumb_hash, thumb_hash_of, thumbnail_rgba,
};
use crate::paths::{extension_of, variant_path, variant_path_spec};
use crate::registry::AssetEntry;
use crate::srcset::RENDER_SIZE;

verus! {

/// The pixel ratios at which variants are generated.
pub fn srcset_resolutions() -> (r: Vec<u32>)
    ensures
        r@ == seq![1u32, 2u32],
{
    let v: Vec<u32> = vec![1u32, 2u32];
    assert(v@ =~= seq![1u32, 2u32]);
    v
}

/// Why one image's work failed. Each of these aborts the build: the corpus
/// is assumed well-formed and there is no partial-success mode.
#[derive(Clone, Debug)]
pub enum ImageTaskError {
    /// The source file could not be read or decoded.
    Decode { path: Vec<u8> },
    /// The source path has no extension, so no variant path can be derived.
    NoExtension { path: Vec<u8> },
    /// A resized variant could not be encoded or written.
    Save { path: Vec<u8> },
}

/// The placeholder text of an RGBA image: the base64 text of its
/// perceptual hash, a function of the pixel content alone.
pub open spec fn placeholder_text_spec(w: u32, h: u32, rgba: Seq<u8>) -> Seq<u8> {
    base64_of(thumb_hash_of(w, h, rgba))
}

/// Compute the placeholder text of the downsampled RGBA pixels of a source
/// image. Never empty.
pub fn placeholder_from_pixels(w: u32, h: u32, rgba: &Vec<u8>) -> (r: Vec<u8>)
    requires
        w <= 100,
        h <= 100,
        rgba@.len() == 4 * w * h,
    ensures
        r@ == placeholder_text_spec(w, h, rgba@),
        r@.len() > 0,
{
    let hash = thumb_hash(w, h, rgba);
    base64_encode(&hash)
}

/// The placeholder text is deterministic: it depends on the downsampled
/// pixel content alone, so repeated runs over an unchanged image show the
/// same text.
pub proof fn lemma_placeholder_deterministic(w: u32, h: u32, a: Seq<u8>, b: Seq<u8>)
    requires
        a == b,
    ensures
        placeholder_text_spec(w, h, a) == placeholder_text_spec(w, h, b),
{
}

/// Do one source image's work: decode the file at `disk_path` once, write
/// one variant at `RENDER_SIZE * ratio` square (aspect preserved) beside it
/// for every ratio, under the derived variant path, and compute the
/// placeholder text and natural width from the same decode. `fast` selects
/// the nearest-neighbour filter instead of Lanczos.
pub fn process_image(disk_path: &[u8], ratios: &[u32], fast: bool) -> (r: Result<
    AssetEntry,
    ImageTaskError,
>)
    requires
        forall|i: int|
            0 <= i < ratios@.len() ==> (#[trigger] ratios@[i]) as int * RENDER_SIZE as int
                <= u32::MAX as int,
    ensures
        match r {
            Ok(entry) => {
                &&& extension_of(disk_path@) is Some
                &&& entry.placeholder@.len() > 0
            },
            Err(ImageTaskError::NoExtension { path }) => {
                &&& extension_of(disk_path@) is None
                &&& path@ == disk_path@
            },
            Err(ImageTaskError::Decode { path }) => path@ == disk_path@,
            Err(ImageTaskError::Save { path }) => exists|k: int|
                0 <= k < ratios@.len() && variant_path_spec(disk_path@, #[trigger] ratios@[k])
                    == Some(path@),
        },
{
    let image = match open_image(disk_path) {
        Ok(img) => img,
        Err(_) => {
            let mut p: Vec<u8> = Vec::new();
            crate::text::push_bytes(&mut p, disk_path);
            return Err(ImageTaskError::Decode { path: p });
        },
    };
    let mut i: usize = 0;
    while i < ratios.len()
        invariant
            i <= ratios@.len(),
            forall|k: int|
                0 <= k < ratios@.len() ==> (#[trigger] ratios@[k]) as int * RENDER_SIZE as int
                    <= u32::MAX as int,
            extension_of(disk_path@) is Some || i == 0,
        decreases ratios@.len() - i,
    {
        let out_path = match variant_path(disk_path, ratios[i]) {
            Some(p) => p,
            None => {
                let mut p: Vec<u8> = Vec::new();
                crate::text::push_bytes(&mut p, disk_path);
                return Err(ImageTaskError::NoExtension { path: p });
            },
        };
        let box_side = RENDER_SIZE * ratios[i];
        let resized = if fast {
            resize_nearest(&image, box_side, box_side)
        } else {
            resize_lanczos(&image, box_side, box_side)
        };
        if save_image(&resized, out_path.as_slice()).is_err() {
            assert(variant_path_spec(disk_path@, ratios@[i as int]) == Some(out_path@));
            return Err(ImageTaskError::Save { path: out_path });
        }
        i += 1;
    }
    if ratios.len() == 0 {
        // with no ratio configured nothing has checked the extension yet
        if variant_path(disk_path, 1).is_none() {
            let mut p: Vec<u8> = Vec::new();
            crate::text::push_bytes(&mut p, disk_path);
            return Err(ImageTaskError::NoExtension { path: p });
        }
    }
    let (tw, th, rgba) = thumbnail_rgba(&image);
    let placeholder = placeholder_from_pixels(tw, th, &rgba);
    Ok(AssetEntry { placeholder, width: image_width(&image) })
}

} // verus!
