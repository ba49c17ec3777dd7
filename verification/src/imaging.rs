//! The calls into the `image` and `imageproc` crates. Verus takes the
//! contracts in this file on trust: each states what the crate's source shows
//! of the function called.

use vstd::prelude::*;
use crate::buffer::{fits, GrayBuffer, RgbaBuffer};

verus! {

/// `image::imageops::resize` with the Lanczos filter of radius three, on a
/// grayscale image. The result has the size asked for. Its samples are only
/// stated where nothing is resampled: asked for the size the image already
/// has, the function returns a copy. Otherwise they come from a kernel that
/// is computed with the platform's sine, whose last digits may differ from
/// machine to machine, so the contract leaves them open. The filter works
/// through an intermediate image of the source's width and the new height,
/// with sixteen bytes for each point, which has to fit in memory like the
/// result.
#[verifier::external_body]
pub(crate) fn resize_gray(source: &GrayBuffer, width: u32, height: u32) -> (out: GrayBuffer)
    requires
        source.wf(),
        fits(source.width as int, height as int, 16),
        fits(width as int, height as int, 1),
    ensures
        out.wf(),
        out.width == width,
        out.height == height,
        source.width == width && source.height == height ==> out.data@ == source.data@,
{
    let image = image::GrayImage::from_raw(source.width, source.height, source.data.clone()).unwrap();
    let scaled = image::imageops::resize(&image, width, height, image::imageops::FilterType::Lanczos3);
    GrayBuffer { width: scaled.width(), height: scaled.height(), data: scaled.into_raw() }
}

/// `image::DynamicImage::resize_exact` with the Lanczos filter of radius
/// three, on an RGBA image of eight bits a channel. The result has the size
/// asked for, whatever the proportions. Asked for the size the image already
/// has, the function returns a copy. The samples of a resampled image and
/// the intermediate image are as for `resize_gray`.
#[verifier::external_body]
pub(crate) fn resize_rgba(source: &RgbaBuffer, width: u32, height: u32) -> (out: RgbaBuffer)
    requires
        source.wf(),
        fits(source.width as int, height as int, 16),
        fits(width as int, height as int, 4),
    ensures
        out.wf(),
        out.width == width,
        out.height == height,
        source.width == width && source.height == height ==> out.data@ == source.data@,
{
    let image = image::RgbaImage::from_raw(source.width, source.height, source.data.clone()).unwrap();
    let scaled = image::DynamicImage::ImageRgba8(image)
        .resize_exact(width, height, image::imageops::FilterType::Lanczos3)
        .into_rgba8();
    RgbaBuffer { width: scaled.width(), height: scaled.height(), data: scaled.into_raw() }
}

/// What blending leaves of two pixels that are both partly in play: the
/// result of `Pixel::blend` on an `image::Rgba<u8>` pixel `below`, with a
/// pixel `above` whose alpha is neither 0 nor 255. Pixels are sequences of
/// four samples: red, green, blue, alpha. The crate computes the result in
/// 32-bit floating point from the eight samples alone.
pub uninterp spec fn blend_rgba(below: Seq<u8>, above: Seq<u8>) -> Seq<u8>;

/// `image::imageops::overlay` on RGBA images of eight bits a channel, with
/// the top-left corner of `top` at `(x, y)` of `bottom`. The size of
/// `bottom` stays. Each of its pixels under `top` is blended with the pixel
/// of `top` above it: a fully transparent pixel of `top` leaves it as it
/// was, a fully opaque one replaces it, and any other gives `blend_rgba`.
/// The pixels of `bottom` that `top` does not cover stay, and so does what of
/// `top` reaches beyond `bottom`.
#[verifier::external_body]
pub(crate) fn overlay_rgba(bottom: &mut RgbaBuffer, top: &RgbaBuffer, x: u32, y: u32)
    requires
        old(bottom).wf(),
        top.wf(),
    ensures
        final(bottom).wf(),
        final(bottom).width == old(bottom).width,
        final(bottom).height == old(bottom).height,
        forall|px: int, py: int|
            0 <= px < old(bottom).width && 0 <= py < old(bottom).height
                ==> #[trigger] final(bottom)@.pixel(px, py) == (if x <= px < x + top.width && y
                <= py < y + top.height {
                if top@.pixel(px - x, py - y)[3] == 0 {
                    old(bottom)@.pixel(px, py)
                } else if top@.pixel(px - x, py - y)[3] == 255 {
                    top@.pixel(px - x, py - y)
                } else {
                    blend_rgba(old(bottom)@.pixel(px, py), top@.pixel(px - x, py - y))
                }
            } else {
                old(bottom)@.pixel(px, py)
            }),
{
    let below = std::mem::take(&mut bottom.data);
    let mut canvas = image::RgbaImage::from_raw(bottom.width, bottom.height, below).unwrap();
    let tile = image::RgbaImage::from_raw(top.width, top.height, top.data.clone()).unwrap();
    image::imageops::overlay(&mut canvas, &tile, i64::from(x), i64::from(y));
    bottom.data = canvas.into_raw();
}

/// `imageproc::drawing::draw_filled_rect_mut` on an RGBA image of eight bits
/// a channel, with a rectangle of the given size at the top-left corner. The
/// image keeps its size. The pixels of the rectangle that lie inside the
/// image become `red, green, blue, alpha`, written as they are and not
/// blended; all other pixels stay. The crate refuses an empty rectangle and
/// an empty image, and measures both with signed 32-bit numbers.
#[verifier::external_body]
pub(crate) fn fill_corner(
    canvas: &mut RgbaBuffer,
    width: u32,
    height: u32,
    red: u8,
    green: u8,
    blue: u8,
    alpha: u8,
)
    requires
        old(canvas).wf(),
        0 < old(canvas).width <= i32::MAX,
        0 < old(canvas).height <= i32::MAX,
        0 < width <= i32::MAX,
        0 < height <= i32::MAX,
    ensures
        final(canvas).wf(),
        final(canvas).width == old(canvas).width,
        final(canvas).height == old(canvas).height,
        forall|px: int, py: int|
            0 <= px < old(canvas).width && 0 <= py < old(canvas).height
                ==> #[trigger] final(canvas)@.pixel(px, py) == (if px < width && py < height {
                seq![red, green, blue, alpha]
            } else {
                old(canvas)@.pixel(px, py)
            }),
{
    let data = std::mem::take(&mut canvas.data);
    let mut image = image::RgbaImage::from_raw(canvas.width, canvas.height, data).unwrap();
    let area = imageproc::rect::Rect::at(0, 0).of_size(width, height);
    imageproc::drawing::draw_filled_rect_mut(&mut image, area, image::Rgba([red, green, blue, alpha]));
    canvas.data = image.into_raw();
}

} // verus!
