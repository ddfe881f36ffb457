//! Decoding image files and the square thumbnails the asset browser shows.
use vstd::prelude::*;

verus! {

/// The largest side of a thumbnail.
pub const MAX_THUMBNAIL_SIDE: u32 = 64;

/// Decodes `bytes` with `image::load_from_memory` and converts the image to
/// 8-bit RGBA with `to_rgba8`, giving its width, height and raw pixels (four
/// bytes per pixel, row by row). Trusted: an RGBA buffer of the `image` crate
/// always holds at least `4 * width * height` bytes. Which image comes out is
/// left unsaid: `image` lets any code of the process register format hooks
/// that change how the same bytes decode.
#[verifier::external_body]
pub(crate) fn decode_rgba8(bytes: &[u8]) -> (r: Option<(u32, u32, Vec<u8>)>)
    ensures
        r matches Some((w, h, px)) ==> px.len() >= 4 * w * h,
{
    match image::load_from_memory(bytes) {
        Ok(img) => {
            let rgba = img.to_rgba8();
            Some((rgba.width(), rgba.height(), rgba.into_raw()))
        },
        Err(_) => None,
    }
}

/// The RGBA pixels that `image::imageops::resize` with nearest-neighbour
/// sampling makes of the `w` x `h` RGBA image `px` at `side` x `side`.
pub uninterp spec fn nearest_resized(px: Seq<u8>, w: u32, h: u32, side: u32) -> Seq<u8>;

/// Resizes the `w` x `h` RGBA image `px` to `side` x `side` with
/// `image::imageops::resize` and nearest-neighbour sampling. Trusted: the
/// result is `nearest_resized` of the arguments, and an RGBA buffer of
/// exactly `4 * side * side` bytes (the `image` crate allocates the output
/// with `ImageBuffer::new`).
#[verifier::external_body]
fn resize_nearest(px: Vec<u8>, w: u32, h: u32, side: u32) -> (out: Vec<u8>)
    requires
        px.len() >= 4 * w * h,
        side <= w,
        side <= h,
    ensures
        out@ == nearest_resized(px@, w, h, side),
        out.len() == 4 * side * side,
{
    let img = image::RgbaImage::from_raw(w, h, px).expect("the buffer holds the whole image");
    image::imageops::resize(&img, side, side, image::imageops::FilterType::Nearest).into_raw()
}

/// The side of the square thumbnail of a `w` x `h` image: its shorter side,
/// at most `MAX_THUMBNAIL_SIDE`.
pub open spec fn spec_thumbnail_side(w: u32, h: u32) -> u32 {
    let m = if w <= h { w } else { h };
    if m <= MAX_THUMBNAIL_SIDE { m } else { MAX_THUMBNAIL_SIDE }
}

/// The side of the square thumbnail of a `w` x `h` image.
pub fn thumbnail_side(w: u32, h: u32) -> (s: u32)
    ensures
        s == spec_thumbnail_side(w, h),
        s <= w,
        s <= h,
        s <= MAX_THUMBNAIL_SIDE,
{
    let m = if w <= h { w } else { h };
    if m <= MAX_THUMBNAIL_SIDE { m } else { MAX_THUMBNAIL_SIDE }
}

/// A thumbnail is as large as possible: its side fits in both sides and in
/// `MAX_THUMBNAIL_SIDE`, and no larger side would.
pub proof fn law_thumbnail_side_largest(w: u32, h: u32, x: u32)
    ensures
        spec_thumbnail_side(w, h) <= w,
        spec_thumbnail_side(w, h) <= h,
        spec_thumbnail_side(w, h) <= 64,
        x <= w && x <= h && x <= 64 ==> x <= spec_thumbnail_side(w, h),
{
}

/// The square thumbnail of the decoded `w` x `h` RGBA image `px`: its side,
/// and the image resized to that side with nearest-neighbour sampling.
pub fn thumbnail_from_rgba(w: u32, h: u32, px: Vec<u8>) -> (r: (u32, Vec<u8>))
    requires
        px.len() >= 4 * w * h,
    ensures
        r.0 == spec_thumbnail_side(w, h),
        r.1@ == nearest_resized(px@, w, h, r.0),
        r.1.len() == 4 * r.0 * r.0,
{
    let side = thumbnail_side(w, h);
    let thumb = resize_nearest(px, w, h, side);
    (side, thumb)
}

/// The thumbnail of an image file: its width and height, the thumbnail's
/// side and the thumbnail's RGBA pixels; none when the bytes do not decode.
pub fn png_thumbnail(bytes: &[u8]) -> (t: Option<(u32, u32, u32, Vec<u8>)>)
    ensures
        t matches Some((w, h, s, th)) ==> s == spec_thumbnail_side(w, h) && th.len() == 4 * s * s
            && exists|p: Seq<u8>| p.len() >= 4 * w * h && th@ == nearest_resized(p, w, h, s),
{
    match decode_rgba8(bytes) {
        Some((w, h, px)) => {
            let ghost p = px@;
            let (side, thumb) = thumbnail_from_rgba(w, h, px);
            assert(p.len() >= 4 * w * h && thumb@ == nearest_resized(p, w, h, side));
            Some((w, h, side, thumb))
        },
        None => None,
    }
}

} // verus!
