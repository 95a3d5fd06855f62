use crate::raster::{Image, ImgView};
use vstd::prelude::*;

verus! {

/// What the decoder of the `image` crate yields on a byte string: the
/// decoded RGBA raster, or nothing when the bytes are not a readable
/// image.  Decoding depends on the bytes alone.
pub uninterp spec fn decoded(bytes: Seq<u8>) -> Option<ImgView>;

/// Relies on `image::load_from_memory`, which decodes a byte string as
/// a pure function of the bytes, and on the `ImageBuffer` invariant
/// that a decoded buffer holds exactly `width · height` pixels.
#[verifier::external_body]
pub(crate) fn decode(bytes: &Vec<u8>) -> (r: Option<Image>)
    ensures
        match r {
            Some(img) => decoded(bytes@) == Some(img@) && img@.wf(),
            None => decoded(bytes@) is None,
        },
{
    match image::load_from_memory(bytes.as_slice()) {
        Ok(di) => {
            let buf = di.to_rgba8();
            let w = buf.width();
            let h = buf.height();
            Image::from_raw(w, h, buf.into_raw())
        },
        Err(_) => None,
    }
}

/// What the resampler of the `image` crate yields: the RGBA bytes of a
/// `w × h` raster `data` resampled to `nw × nh` pixels, with the
/// Triangle filter, or the Lanczos3 filter when `lanczos` holds.  The
/// result depends on these alone.
pub uninterp spec fn resampled(
    data: Seq<u8>,
    w: int,
    h: int,
    nw: int,
    nh: int,
    lanczos: bool,
) -> Seq<u8>;

/// Relies on `image::imageops::resize`, which resamples to exactly the
/// requested dimensions as a pure function of the source raster, the
/// target dimensions and the filter (Triangle, or Lanczos3 when the
/// quality flag is set).
#[verifier::external_body]
pub(crate) fn resize(img: &Image, nw: u32, nh: u32, lanczos: bool) -> (r: Image)
    requires
        img@.wf(),
        1 <= img@.width,
        1 <= img@.height,
        1 <= nw,
        1 <= nh,
        4 * (nw as int) * (nh as int) <= usize::MAX,
    ensures
        r@.width == nw as int,
        r@.height == nh as int,
        r@.wf(),
        r@.data == resampled(img@.data, img@.width, img@.height, nw as int, nh as int, lanczos),
{
    let buf = image::RgbaImage::from_raw(img.width(), img.height(), img.bytes().clone()).unwrap();
    let filter = if lanczos {
        image::imageops::FilterType::Lanczos3
    } else {
        image::imageops::FilterType::Triangle
    };
    let out = image::imageops::resize(&buf, nw, nh, filter);
    let w = out.width();
    let h = out.height();
    Image::from_raw(w, h, out.into_raw()).unwrap()
}

/// Whether the `rusttype` crate can read a byte string as a font: a
/// pure function of the bytes alone.
pub uninterp spec fn font_parses(bytes: Seq<u8>) -> bool;

/// Relies on `rusttype::Font::try_from_vec`, which yields a font
/// exactly when the bytes parse as one.
#[verifier::external_body]
pub(crate) fn font_ok(bytes: &Vec<u8>) -> (r: bool)
    ensures
        r == font_parses(bytes@),
{
    rusttype::Font::try_from_vec(bytes.clone()).is_some()
}

} // verus!
