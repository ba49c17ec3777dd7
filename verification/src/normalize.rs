//! The canvas normalizer: inversion, the aspect-preserving fit into a target
//! canvas, and the square crop that precedes grid sampling.

use vstd::prelude::*;
use crate::buffer::{fits, lemma_flat_index_bounds, GrayBuffer, GrayPlane};
use crate::error::RenderError;
use crate::imaging::resize_gray;

verus! {

/// The negative of a plane: every luminance `v` becomes `255 - v`.
pub open spec fn inverted(plane: GrayPlane) -> GrayPlane {
    GrayPlane {
        width: plane.width,
        height: plane.height,
        samples: Seq::new(plane.samples.len(), |i: int| (255 - plane.samples[i]) as u8),
    }
}

/// Replaces every luminance `v` of the image by `255 - v`.
pub fn invert(image: &mut GrayBuffer)
    ensures
        final(image)@ == inverted(old(image)@),
{
    let n = image.data.len();
    let mut i: usize = 0;
    while i < n
        invariant
            i <= n,
            n == image.data@.len(),
            n == old(image).data@.len(),
            image.width == old(image).width,
            image.height == old(image).height,
            forall|j: int| 0 <= j < i ==> image.data@[j] == (255 - old(image).data@[j]) as u8,
            forall|j: int| i <= j < n ==> image.data@[j] == old(image).data@[j],
        decreases n - i,
    {
        let v = image.data[i];
        image.data.set(i, 255 - v);
        i += 1;
    }
    assert(image@.samples =~= inverted(old(image)@).samples);
}

/// Inverting a plane twice gives the plane back, sample for sample.
pub proof fn lemma_invert_involution(plane: GrayPlane)
    ensures
        inverted(inverted(plane)) == plane,
{
    assert(inverted(inverted(plane)).samples =~= plane.samples);
}

/// The integer nearest to `a / b`, a half counting upward, for `a >= 0` and
/// `b > 0`.
pub open spec fn round_div(a: int, b: int) -> int {
    (2 * a + b) / (2 * b)
}

/// `round_div(a, b)` is the integer nearest to `a / b`: it differs from the
/// quotient by at most a half, and by exactly a half only upward.
pub proof fn lemma_round_div_nearest(a: int, b: int)
    requires
        a >= 0,
        b > 0,
    ensures
        (2 * round_div(a, b) - 1) * b <= 2 * a < (2 * round_div(a, b) + 1) * b,
{
    let q = (2 * a + b) / (2 * b);
    let r = (2 * a + b) % (2 * b);
    vstd::arithmetic::div_mod::lemma_fundamental_div_mod(2 * a + b, 2 * b);
    assert((2 * q - 1) * b <= 2 * a < (2 * q + 1) * b) by (nonlinear_arith)
        requires
            2 * a + b == (2 * b) * q + r,
            0 <= r < 2 * b,
    ;
}

/// Whether an `out_w` by `out_h` canvas is wider in proportion than an
/// `in_w` by `in_h` image, so that the image's height decides the scale.
pub open spec fn height_constrained(in_w: int, in_h: int, out_w: int, out_h: int) -> bool {
    out_w * in_h > in_w * out_h
}

/// The width of an `in_w` by `in_h` image scaled to fit an `out_w` by
/// `out_h` canvas with its proportions kept.
pub open spec fn fit_width(in_w: int, in_h: int, out_w: int, out_h: int) -> int {
    if height_constrained(in_w, in_h, out_w, out_h) {
        round_div(out_h * in_w, in_h)
    } else {
        out_w
    }
}

/// The height of an `in_w` by `in_h` image scaled to fit an `out_w` by
/// `out_h` canvas with its proportions kept.
pub open spec fn fit_height(in_w: int, in_h: int, out_w: int, out_h: int) -> int {
    if height_constrained(in_w, in_h, out_w, out_h) {
        out_h
    } else {
        round_div(out_w * in_h, in_w)
    }
}

/// Where a scaled image lies inside its target canvas.
#[derive(Clone, Copy, Debug, PartialEq, Eq, Structural)]
pub struct FitPlan {
    /// Width of the scaled image.
    pub new_width: u32,
    /// Height of the scaled image.
    pub new_height: u32,
    /// Columns of padding to the left of the scaled image.
    pub offset_x: u32,
    /// Rows of padding above the scaled image.
    pub offset_y: u32,
}

/// The scaled size never exceeds the canvas.
pub proof fn lemma_fit_within(in_w: int, in_h: int, out_w: int, out_h: int)
    requires
        in_w > 0,
        in_h > 0,
        out_w > 0,
        out_h > 0,
    ensures
        0 <= fit_width(in_w, in_h, out_w, out_h) <= out_w,
        0 <= fit_height(in_w, in_h, out_w, out_h) <= out_h,
{
    if height_constrained(in_w, in_h, out_w, out_h) {
        lemma_round_div_below(out_h * in_w, in_h, out_w);
    } else {
        lemma_round_div_below(out_w * in_h, in_w, out_h);
    }
}

/// If `a <= limit * b`, the rounded quotient of `a` by `b` is at most `limit`.
proof fn lemma_round_div_below(a: int, b: int, limit: int)
    requires
        b > 0,
        limit >= 0,
        a <= limit * b,
    ensures
        round_div(a, b) <= limit,
        a >= 0 ==> round_div(a, b) >= 0,
{
    let q = (2 * a + b) / (2 * b);
    let r = (2 * a + b) % (2 * b);
    vstd::arithmetic::div_mod::lemma_fundamental_div_mod(2 * a + b, 2 * b);
    assert(q <= limit) by (nonlinear_arith)
        requires
            2 * a + b == (2 * b) * q + r,
            0 <= r,
            b > 0,
            a <= limit * b,
    ;
}

/// `a / b` rounded to the nearest integer, a half counting upward.
fn rounded_quotient(a: u64, b: u32) -> (q: u64)
    requires
        b > 0,
        a <= u32::MAX * b,
    ensures
        q == round_div(a as int, b as int),
        q <= u32::MAX,
{
    let d: u64 = b as u64;
    let whole: u64 = a / d;
    let rest: u64 = a % d;
    proof {
        lemma_round_div_below(a as int, b as int, u32::MAX as int);
        vstd::arithmetic::div_mod::lemma_fundamental_div_mod(a as int, b as int);
        assert(b * (a as int / b as int) == (a as int / b as int) * b) by (nonlinear_arith);
        if 2 * rest >= d {
            assert(2 * a + b == (whole + 1) * (2 * b) + (2 * rest - b)) by (nonlinear_arith)
                requires
                    a == whole * b + rest,
            ;
            vstd::arithmetic::div_mod::lemma_fundamental_div_mod_converse(
                2 * a + b,
                2 * b,
                whole + 1,
                2 * rest - b,
            );
        } else {
            assert(2 * a + b == whole * (2 * b) + (2 * rest + b)) by (nonlinear_arith)
                requires
                    a == whole * b + rest,
            ;
            vstd::arithmetic::div_mod::lemma_fundamental_div_mod_converse(
                2 * a + b,
                2 * b,
                whole as int,
                2 * rest + b,
            );
        }
    }
    if 2 * rest >= d {
        whole + 1
    } else {
        whole
    }
}

/// Plans the fit of an `in_w` by `in_h` image into an `out_w` by `out_h`
/// canvas: the image keeps its proportions, touches the canvas along one
/// axis, and is centred along the other.
pub fn fit_plan(in_w: u32, in_h: u32, out_w: u32, out_h: u32) -> (plan: FitPlan)
    requires
        in_w > 0,
        in_h > 0,
        out_w > 0,
        out_h > 0,
    ensures
        plan.new_width == fit_width(in_w as int, in_h as int, out_w as int, out_h as int),
        plan.new_height == fit_height(in_w as int, in_h as int, out_w as int, out_h as int),
        plan.offset_x == (out_w - plan.new_width) / 2,
        plan.offset_y == (out_h - plan.new_height) / 2,
        plan.new_width <= out_w,
        plan.new_height <= out_h,
        out_w * in_h > in_w * out_h ==> plan.new_height == out_h && (2 * plan.new_width - 1) * in_h
            <= 2 * (out_h * in_w) < (2 * plan.new_width + 1) * in_h,
        out_w * in_h <= in_w * out_h ==> plan.new_width == out_w && (2 * plan.new_height - 1) * in_w
            <= 2 * (out_w * in_h) < (2 * plan.new_height + 1) * in_w,
{
    proof {
        lemma_fit_within(in_w as int, in_h as int, out_w as int, out_h as int);
        lemma_round_div_nearest(out_h * in_w, in_h as int);
        lemma_round_div_nearest(out_w * in_h, in_w as int);
        assert(out_w * in_h <= u64::MAX && in_w * out_h <= u64::MAX) by (nonlinear_arith)
            requires
                out_w <= u32::MAX,
                in_h <= u32::MAX,
                in_w <= u32::MAX,
                out_h <= u32::MAX,
        ;
    }
    let across: u64 = (out_w as u64) * (in_h as u64);
    let along: u64 = (in_w as u64) * (out_h as u64);
    let (new_width, new_height): (u32, u32) = if across > along {
        proof {
            assert(out_h * in_w <= u32::MAX * in_h) by (nonlinear_arith)
                requires
                    out_h * in_w < out_w * in_h,
                    out_w <= u32::MAX,
                    in_h > 0,
            ;
        }
        (rounded_quotient(along, in_h) as u32, out_h)
    } else {
        proof {
            assert(out_w * in_h <= u32::MAX * in_w) by (nonlinear_arith)
                requires
                    out_w * in_h <= in_w * out_h,
                    out_h <= u32::MAX,
                    in_w > 0,
            ;
        }
        (out_w, rounded_quotient(across, in_w) as u32)
    };
    FitPlan {
        new_width,
        new_height,
        offset_x: (out_w - new_width) / 2,
        offset_y: (out_h - new_height) / 2,
    }
}

/// The part of `plane` that starts at `(left, top)` and is `width` wide and
/// `height` high.
pub open spec fn window(plane: GrayPlane, left: int, top: int, width: nat, height: nat) -> GrayPlane {
    GrayPlane::from_fn(width, height, |x: int, y: int| plane.at(left + x, top + y))
}

/// The side of the largest square that fits in `plane`.
pub open spec fn square_side(plane: GrayPlane) -> nat {
    if plane.width <= plane.height {
        plane.width
    } else {
        plane.height
    }
}

/// The largest square of `plane` that starts at its top-left corner.
pub open spec fn square_crop(plane: GrayPlane) -> GrayPlane {
    window(plane, 0, 0, square_side(plane), square_side(plane))
}

/// A black canvas of the given size with `scaled` laid on it, the top-left
/// corner of `scaled` at `(left, top)`.
pub open spec fn letterboxed(
    scaled: GrayPlane,
    width: nat,
    height: nat,
    left: int,
    top: int,
) -> GrayPlane {
    GrayPlane::from_fn(
        width,
        height,
        |x: int, y: int|
            if left <= x < left + scaled.width && top <= y < top + scaled.height {
                scaled.at(x - left, y - top)
            } else {
                0u8
            },
    )
}

/// The window of a plane holds at `(x, y)` what the plane holds at
/// `(left + x, top + y)`; the square crop, whose window starts at the
/// top-left corner, holds at `(x, y)` what the plane holds there.
pub proof fn lemma_window_at(plane: GrayPlane, left: int, top: int, width: nat, height: nat)
    ensures
        window(plane, left, top, width, height).wf(),
        window(plane, left, top, width, height).width == width,
        window(plane, left, top, width, height).height == height,
        forall|x: int, y: int|
            0 <= x < width && 0 <= y < height ==> #[trigger] window(
                plane,
                left,
                top,
                width,
                height,
            ).at(x, y) == plane.at(left + x, top + y),
{
    GrayPlane::lemma_from_fn(width, height, |x: int, y: int| plane.at(left + x, top + y));
}

/// A letterboxed canvas holds the image where the image was laid, moved by
/// `(left, top)`, and black padding everywhere else.
pub proof fn lemma_letterboxed_at(scaled: GrayPlane, width: nat, height: nat, left: int, top: int)
    ensures
        letterboxed(scaled, width, height, left, top).wf(),
        letterboxed(scaled, width, height, left, top).width == width,
        letterboxed(scaled, width, height, left, top).height == height,
        forall|x: int, y: int|
            0 <= x < width && 0 <= y < height ==> #[trigger] letterboxed(
                scaled,
                width,
                height,
                left,
                top,
            ).at(x, y) == (if left <= x < left + scaled.width && top <= y < top + scaled.height {
                scaled.at(x - left, y - top)
            } else {
                0u8
            }),
{
    GrayPlane::lemma_from_fn(
        width,
        height,
        |x: int, y: int|
            if left <= x < left + scaled.width && top <= y < top + scaled.height {
                scaled.at(x - left, y - top)
            } else {
                0u8
            },
    );
}

/// Copies the part of `image` that starts at `(left, top)` and is `width`
/// wide and `height` high.
pub fn crop(image: &GrayBuffer, left: u32, top: u32, width: u32, height: u32) -> (out: GrayBuffer)
    requires
        image.wf(),
        left + width <= image.width,
        top + height <= image.height,
    ensures
        out.wf(),
        out.width == width,
        out.height == height,
        out@ == window(image@, left as int, top as int, width as nat, height as nat),
        forall|x: int, y: int|
            0 <= x < width && 0 <= y < height ==> #[trigger] out@.at(x, y) == image@.at(
                left + x,
                top + y,
            ),
{
    proof {
        lemma_window_at(image@, left as int, top as int, width as nat, height as nat);
    }
    let mut data: Vec<u8> = Vec::new();
    let mut y: u32 = 0;
    while y < height
        invariant
            image.wf(),
            left + width <= image.width,
            top + height <= image.height,
            y <= height,
            data@.len() == y * width,
            forall|i: int|
                0 <= i < data@.len() ==> data@[i] == image@.at(
                    left + i % (width as int),
                    top + i / (width as int),
                ),
        decreases height - y,
    {
        let mut x: u32 = 0;
        while x < width
            invariant
                image.wf(),
                left + width <= image.width,
                top + height <= image.height,
                y < height,
                x <= width,
                data@.len() == y * width + x,
                forall|i: int|
                    0 <= i < data@.len() ==> data@[i] == image@.at(
                        left + i % (width as int),
                        top + i / (width as int),
                    ),
            decreases width - x,
        {
            let v = image.get(left + x, top + y);
            proof {
                lemma_flat_index_bounds(width as int, height as int, x as int, y as int);
            }
            data.push(v);
            x += 1;
        }
        proof {
            assert((y + 1) * width == y * width + width) by (nonlinear_arith);
        }
        y += 1;
    }
    proof {
        assert(height * width == width * height) by (nonlinear_arith);
    }
    let out = GrayBuffer { width, height, data };
    assert(out@.samples =~= window(
        image@,
        left as int,
        top as int,
        width as nat,
        height as nat,
    ).samples);
    out
}

/// Copies the largest square of `image` that starts at its top-left corner.
pub fn crop_square(image: &GrayBuffer) -> (out: GrayBuffer)
    requires
        image.wf(),
    ensures
        out.wf(),
        out.width == square_side(image@),
        out.height == square_side(image@),
        out@ == square_crop(image@),
        forall|x: int, y: int|
            0 <= x < out.width && 0 <= y < out.height ==> #[trigger] out@.at(x, y) == image@.at(
                x,
                y,
            ),
{
    let side: u32 = if image.width <= image.height {
        image.width
    } else {
        image.height
    };
    crop(image, 0, 0, side, side)
}

/// Lays `scaled` on a black canvas of the given size, the top-left corner of
/// `scaled` at `(left, top)`.
pub fn letterbox(scaled: &GrayBuffer, width: u32, height: u32, left: u32, top: u32) -> (out:
    GrayBuffer)
    requires
        scaled.wf(),
        left + scaled.width <= width,
        top + scaled.height <= height,
    ensures
        out.wf(),
        out.width == width,
        out.height == height,
        out@ == letterboxed(scaled@, width as nat, height as nat, left as int, top as int),
        forall|x: int, y: int|
            0 <= x < width && 0 <= y < height ==> #[trigger] out@.at(x, y) == (if left <= x < left
                + scaled.width && top <= y < top + scaled.height {
                scaled@.at(x - left, y - top)
            } else {
                0u8
            }),
{
    proof {
        lemma_letterboxed_at(scaled@, width as nat, height as nat, left as int, top as int);
    }
    let mut data: Vec<u8> = Vec::new();
    let mut y: u32 = 0;
    while y < height
        invariant
            scaled.wf(),
            left + scaled.width <= width,
            top + scaled.height <= height,
            y <= height,
            data@.len() == y * width,
            forall|i: int|
                0 <= i < data@.len() ==> data@[i] == letterboxed(
                    scaled@,
                    width as nat,
                    height as nat,
                    left as int,
                    top as int,
                ).samples[i],
        decreases height - y,
    {
        let mut x: u32 = 0;
        while x < width
            invariant
                scaled.wf(),
                left + scaled.width <= width,
                top + scaled.height <= height,
                y < height,
                x <= width,
                data@.len() == y * width + x,
                forall|i: int|
                    0 <= i < data@.len() ==> data@[i] == letterboxed(
                        scaled@,
                        width as nat,
                        height as nat,
                        left as int,
                        top as int,
                    ).samples[i],
            decreases width - x,
        {
            let inside = left <= x && x - left < scaled.width && top <= y && y - top
                < scaled.height;
            let v: u8 = if inside {
                scaled.get(x - left, y - top)
            } else {
                0
            };
            proof {
                lemma_flat_index_bounds(width as int, height as int, x as int, y as int);
            }
            data.push(v);
            x += 1;
        }
        proof {
            assert((y + 1) * width == y * width + width) by (nonlinear_arith);
        }
        y += 1;
    }
    proof {
        assert(height * width == width * height) by (nonlinear_arith);
    }
    let out = GrayBuffer { width, height, data };
    assert(out@.samples =~= letterboxed(
        scaled@,
        width as nat,
        height as nat,
        left as int,
        top as int,
    ).samples);
    out
}

/// Whether `scaled` can be what resampling `input` for a `width` by `height`
/// canvas gives: a well-formed plane of the planned size, and `input` itself
/// where that is the size it already has. Which samples a resampled plane
/// holds is left open.
pub open spec fn scaled_to_fit(input: GrayPlane, width: nat, height: nat, scaled: GrayPlane) -> bool {
    &&& scaled.wf()
    &&& scaled.width == fit_width(
        input.width as int,
        input.height as int,
        width as int,
        height as int,
    )
    &&& scaled.height == fit_height(
        input.width as int,
        input.height as int,
        width as int,
        height as int,
    )
    &&& (scaled.width == input.width && scaled.height == input.height ==> scaled == input)
}

/// `scaled` in the middle of a black `width` by `height` canvas; odd padding
/// puts the extra column to the right and the extra row below.
pub open spec fn centred(scaled: GrayPlane, width: nat, height: nat) -> GrayPlane {
    letterboxed(scaled, width, height, (width - scaled.width) / 2, (height - scaled.height) / 2)
}

/// Fits `input` into a canvas of the given size: the image is resampled to
/// the planned size with its proportions kept and centred on black.
pub fn resize_output(input: &GrayBuffer, output_width: u32, output_height: u32) -> (out: GrayBuffer)
    requires
        input.wf(),
        input.width > 0,
        input.height > 0,
        output_width > 0,
        output_height > 0,
        fits(input.width as int, output_height as int, 16),
        fits(output_width as int, output_height as int, 1),
    ensures
        out.wf(),
        out.width == output_width,
        out.height == output_height,
        exists|scaled: GrayPlane| #[trigger]
            scaled_to_fit(input@, output_width as nat, output_height as nat, scaled) && out@
                == centred(scaled, output_width as nat, output_height as nat),
{
    let plan = fit_plan(input.width, input.height, output_width, output_height);
    proof {
        assert(fits(input.width as int, plan.new_height as int, 16)) by (nonlinear_arith)
            requires
                fits(input.width as int, output_height as int, 16),
                0 <= plan.new_height <= output_height,
                0 <= input.width,
        ;
        assert(fits(plan.new_width as int, plan.new_height as int, 1)) by (nonlinear_arith)
            requires
                fits(output_width as int, output_height as int, 1),
                0 <= plan.new_height <= output_height,
                0 <= plan.new_width <= output_width,
        ;
    }
    let scaled = resize_gray(input, plan.new_width, plan.new_height);
    let out = letterbox(&scaled, output_width, output_height, plan.offset_x, plan.offset_y);
    proof {
        assert(scaled_to_fit(input@, output_width as nat, output_height as nat, scaled@));
    }
    out
}

/// The error that normalizing refuses the input with, if any: a target
/// dimension of zero is a configuration error, and otherwise an input
/// without width or height has invalid dimensions.
pub open spec fn normalize_error(input: GrayPlane, target: Option<(u32, u32)>) -> Option<
    RenderError,
> {
    if target matches Some((w, h)) && (w == 0 || h == 0) {
        Some(RenderError::ConfigurationError)
    } else if input.width == 0 || input.height == 0 {
        Some(RenderError::InvalidDimensions)
    } else {
        None
    }
}

/// Whether `target` asks for a size other than the one `input` has.
pub open spec fn needs_fit(input: GrayPlane, target: Option<(u32, u32)>) -> bool {
    target matches Some((w, h)) && (w != input.width || h != input.height)
}

/// Whether `out` can be what fitting `source` into a `width` by `height`
/// canvas and cropping the canvas to its top-left square gives.
pub open spec fn fitted_square(source: GrayPlane, width: nat, height: nat, out: GrayPlane) -> bool {
    exists|scaled: GrayPlane| #[trigger]
        scaled_to_fit(source, width, height, scaled) && out == square_crop(
            centred(scaled, width, height),
        )
}

/// Whether `out` is a normalized form of `input`: inverted if asked, fitted
/// into the target canvas where the target differs from the input's size, and
/// then cropped to the largest top-left square.
pub open spec fn normalized(
    input: GrayPlane,
    invert_input: bool,
    target: Option<(u32, u32)>,
    out: GrayPlane,
) -> bool {
    let source = if invert_input {
        inverted(input)
    } else {
        input
    };
    if needs_fit(input, target) {
        fitted_square(source, target->Some_0.0 as nat, target->Some_0.1 as nat, out)
    } else {
        out == square_crop(source)
    }
}

/// Prepares an image for grid sampling: inverts it if asked, fits it into the
/// target canvas where one is given that differs from its size, and crops the
/// result to the largest square at its top-left corner.
pub fn normalize(input: GrayBuffer, invert_input: bool, target: Option<(u32, u32)>) -> (result:
    Result<GrayBuffer, RenderError>)
    requires
        input.wf(),
        needs_fit(input@, target) ==> fits(
            input.width as int,
            target->Some_0.1 as int,
            16,
        ) && fits(target->Some_0.0 as int, target->Some_0.1 as int, 1),
    ensures
        result matches Err(e) ==> normalize_error(input@, target) == Some(e),
        result matches Ok(out) ==> {
            &&& normalize_error(input@, target) is None
            &&& out.wf()
            &&& normalized(input@, invert_input, target, out@)
        },
{
    if let Some((w, h)) = target {
        if w == 0 || h == 0 {
            return Err(RenderError::ConfigurationError);
        }
    }
    if input.width == 0 || input.height == 0 {
        return Err(RenderError::InvalidDimensions);
    }
    let mut source = input;
    if invert_input {
        invert(&mut source);
    }
    let resized: Option<GrayBuffer> = match target {
        Some((w, h)) => if w != source.width || h != source.height {
            Some(resize_output(&source, w, h))
        } else {
            None
        },
        None => None,
    };
    match resized {
        Some(canvas) => {
            let out = crop_square(&canvas);
            proof {
                let width = target->Some_0.0 as nat;
                let height = target->Some_0.1 as nat;
                let scaled = choose|scaled: GrayPlane| #[trigger]
                    scaled_to_fit(source@, width, height, scaled) && canvas@ == centred(
                        scaled,
                        width,
                        height,
                    );
                assert(scaled_to_fit(source@, width, height, scaled));
                assert(fitted_square(source@, width, height, out@));
            }
            Ok(out)
        },
        None => Ok(crop_square(&source)),
    }
}

} // verus!
