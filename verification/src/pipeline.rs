//! The rendering run from a decoded photograph and six decoded tiles to the
//! finished mosaic.

use vstd::prelude::*;
use crate::annotate::{add_reference_text, banner_text_spec, has_banner, lemma_banner_unique};
use crate::buffer::{fits, fits_memory, GrayBuffer, GrayPlane, RgbaBuffer, RgbaPlane};
use crate::dice::{dice_error, lemma_every_face_present, prepared, shows, Dice, DiceSet};
use crate::error::RenderError;
use crate::mosaic::{is_mosaic_of, mosaic_pixel, render_mosaic};
use crate::normalize::{needs_fit, normalize, normalized, scaled_to_fit, square_side};
use crate::options::DiceOptions;
use crate::preset::DiceSides;

verus! {

/// A finished mosaic.
#[derive(Clone, Debug)]
pub struct Mosaic {
    /// The canvas, with the banner of the debug annotation if one was drawn.
    pub image: RgbaBuffer,
    /// The text that belongs on the banner, if one was drawn.
    pub caption: Option<String>,
}

/// Whether the buffers are well formed and what the run allocates stays
/// within the largest allocation that the machine allows: the canvas of the
/// mosaic, a tile, and, where something is resampled, the image that the
/// filter passes through and the one it gives.
pub open spec fn within_limits(input: GrayBuffer, dice: Seq<Dice>, options: DiceOptions) -> bool {
    let side = working_side(input@, options) as int;
    let cell = options.dice_size as int;
    &&& input.wf()
    &&& fits(side, side, 4)
    &&& fits(cell, cell, 4)
    &&& forall|k: int|
        0 <= k < dice.len() ==> (#[trigger] dice[k]).image.wf() && fits(
            dice[k].image.width as int,
            cell,
            16,
        )
    &&& needs_fit(input@, options.target_spec()) ==> fits(
        input.width as int,
        options.target_spec()->Some_0.1 as int,
        16,
    ) && fits(
        options.target_spec()->Some_0.0 as int,
        options.target_spec()->Some_0.1 as int,
        1,
    )
}

/// Whether the buffers are well formed and what the run allocates stays
/// within the largest allocation that the machine allows.
pub fn check_limits(input: &GrayBuffer, dice: &Vec<Dice>, options: &DiceOptions) -> (ok: bool)
    ensures
        ok == within_limits(*input, dice@, *options),
{
    let cell: u32 = options.dice_size;
    if !input.is_well_formed() || !fits_memory(cell, cell, 4) {
        return false;
    }
    let n = dice.len();
    let mut k: usize = 0;
    while k < n
        invariant
            k <= n,
            n == dice@.len(),
            cell == options.dice_size,
            forall|j: int|
                0 <= j < k ==> (#[trigger] dice@[j]).image.wf() && fits(
                    dice@[j].image.width as int,
                    cell as int,
                    16,
                ),
        decreases n - k,
    {
        if !dice[k].image.is_well_formed() || !fits_memory(dice[k].image.width, cell, 16) {
            return false;
        }
        k += 1;
    }
    let fit: Option<(u32, u32)> = match (options.output_width, options.output_height) {
        (Some(w), Some(h)) => if w != input.width || h != input.height {
            Some((w, h))
        } else {
            None
        },
        _ => None,
    };
    match fit {
        Some((w, h)) => {
            let side: u32 = if w <= h {
                w
            } else {
                h
            };
            fits_memory(side, side, 4) && fits_memory(input.width, h, 16) && fits_memory(w, h, 1)
        },
        None => {
            let side: u32 = if input.width <= input.height {
                input.width
            } else {
                input.height
            };
            fits_memory(side, side, 4)
        },
    }
}

/// The error that a run is refused with, if any: first what is wrong with
/// the choices, then a photograph without width or height, then what is
/// wrong with the dice.
pub open spec fn process_error(input: GrayPlane, dice: Seq<Dice>, options: DiceOptions) -> Option<
    RenderError,
> {
    if options.is_misconfigured() {
        Some(RenderError::ConfigurationError)
    } else if input.width == 0 || input.height == 0 {
        Some(RenderError::InvalidDimensions)
    } else {
        dice_error(dice, options.dice_size)
    }
}

/// Whether `set` can be the set that the run builds from `dice`: six square
/// tiles of the cell size, each the prepared picture of its face.
pub open spec fn is_dice_set_of(dice: Seq<Dice>, options: DiceOptions, set: DiceSet) -> bool {
    &&& set.wf()
    &&& set.cell_size == options.dice_size
    &&& forall|k: int|
        0 <= k < 6 ==> prepared(
            (#[trigger] dice[k]).image@,
            options.invert_dice,
            options.dice_size as nat,
            set.tile_spec(dice[k].side),
        )
}

/// The number of dice on a canvas, as the banner states it: the number of
/// cells, or the largest 32-bit number if there are more.
pub open spec fn dice_count(cols: nat, rows: nat) -> u32 {
    if cols * rows <= u32::MAX {
        (cols * rows) as u32
    } else {
        u32::MAX
    }
}

/// Whether the banner is drawn on a canvas: the annotation is asked for, and
/// the canvas is not empty nor wider or higher than a signed 32-bit number
/// can say.
pub open spec fn takes_banner(plain: RgbaPlane, options: DiceOptions) -> bool {
    options.add_debug && 0 < plain.width <= i32::MAX && 0 < plain.height <= i32::MAX
}

/// The text on the banner of a canvas.
pub open spec fn caption_of(plain: RgbaPlane, options: DiceOptions) -> Seq<char> {
    let cell = options.dice_size;
    banner_text_spec(
        (cell, cell),
        dice_count(plain.width / (cell as nat), plain.height / (cell as nat)),
        (plain.width as u32, plain.height as u32),
    )
}

/// Whether `out` is the canvas `plain` as the run hands it out: with the
/// banner where one is drawn, and unchanged otherwise.
pub open spec fn annotated(plain: RgbaPlane, options: DiceOptions, out: RgbaPlane) -> bool {
    if takes_banner(plain, options) {
        has_banner(plain, caption_of(plain, options).len(), out)
    } else {
        out == plain
    }
}

/// Whether `out` is a rendering of `input` in the tiles `dice`, by way of the
/// normalized photograph `plane`, the set of tiles `set` and the canvas
/// `plain` before annotation.
pub open spec fn is_rendering_of(
    input: GrayPlane,
    dice: Seq<Dice>,
    options: DiceOptions,
    plane: GrayPlane,
    set: DiceSet,
    plain: RgbaPlane,
    out: RgbaPlane,
) -> bool {
    &&& normalized(input, options.invert_input, options.target_spec(), plane)
    &&& is_dice_set_of(dice, options, set)
    &&& is_mosaic_of(plane, set, options.preset, plain)
    &&& annotated(plain, options, out)
}

/// Whether `mosaic` is what a run on `input` and `dice` hands out, by way of
/// `plane`, `set` and `plain`: its image is the rendering, and it has a
/// caption exactly if the banner is drawn, the text that belongs on it.
pub open spec fn is_run_of(
    input: GrayPlane,
    dice: Seq<Dice>,
    options: DiceOptions,
    plane: GrayPlane,
    set: DiceSet,
    plain: RgbaPlane,
    mosaic: Mosaic,
) -> bool {
    &&& is_rendering_of(input, dice, options, plane, set, plain, mosaic.image@)
    &&& match mosaic.caption {
        Some(text) => takes_banner(plain, options) && text@ == caption_of(plain, options),
        None => !takes_banner(plain, options),
    }
}

/// The side of the square that is sampled: the smaller dimension of the
/// target canvas where the photograph is fitted into one, and of the
/// photograph otherwise.
pub open spec fn working_side(input: GrayPlane, options: DiceOptions) -> nat {
    if needs_fit(input, options.target_spec()) {
        let target = options.target_spec()->Some_0;
        if target.0 <= target.1 {
            target.0 as nat
        } else {
            target.1 as nat
        }
    } else {
        square_side(input)
    }
}

/// A normalized photograph is a square of the working side.
pub proof fn lemma_normalized_size(input: GrayPlane, options: DiceOptions, plane: GrayPlane)
    requires
        normalized(input, options.invert_input, options.target_spec(), plane),
    ensures
        plane.wf(),
        plane.width == working_side(input, options),
        plane.height == working_side(input, options),
{
    let side = working_side(input, options);
    if needs_fit(input, options.target_spec()) {
        let width = options.target_spec()->Some_0.0 as nat;
        let height = options.target_spec()->Some_0.1 as nat;
        let source = if options.invert_input {
            crate::normalize::inverted(input)
        } else {
            input
        };
        let scaled = choose|scaled: GrayPlane| #[trigger]
            scaled_to_fit(source, width, height, scaled) && plane == crate::normalize::square_crop(
                crate::normalize::centred(scaled, width, height),
            );
        assert(plane.width == side);
    }
}

/// Whether a run resamples nothing: the photograph is not fitted into a
/// canvas of another size, and every picture of a die already is a square of
/// the cell size.
pub open spec fn resamples_nothing(input: GrayPlane, dice: Seq<Dice>, options: DiceOptions) -> bool {
    &&& !needs_fit(input, options.target_spec())
    &&& forall|k: int|
        0 <= k < dice.len() ==> (#[trigger] dice[k]).image.width == options.dice_size
            && dice[k].image.height == options.dice_size
}

/// A run that resamples nothing has only one outcome: any two mosaics that
/// it may hand out hold the same image and the same caption.
pub proof fn lemma_run_unique(
    input: GrayPlane,
    dice: Seq<Dice>,
    options: DiceOptions,
    plane_a: GrayPlane,
    set_a: DiceSet,
    plain_a: RgbaPlane,
    a: Mosaic,
    plane_b: GrayPlane,
    set_b: DiceSet,
    plain_b: RgbaPlane,
    b: Mosaic,
)
    requires
        process_error(input, dice, options) is None,
        resamples_nothing(input, dice, options),
        is_run_of(input, dice, options, plane_a, set_a, plain_a, a),
        is_run_of(input, dice, options, plane_b, set_b, plain_b, b),
    ensures
        a.image@ == b.image@,
        a.caption is Some <==> b.caption is Some,
        a.caption is Some ==> a.caption->Some_0@ == b.caption->Some_0@,
{
    assert(plane_a == plane_b);
    assert forall|side: DiceSides| set_a.tile_spec(side) == set_b.tile_spec(side) by {
        lemma_every_face_present(dice, side.index_spec());
        let k = choose|k: int| 0 <= k < 6 && #[trigger] shows(dice, k, side.index_spec());
        assert(dice[k].side == side);
        assert(prepared(
            dice[k].image@,
            options.invert_dice,
            options.dice_size as nat,
            set_a.tile_spec(dice[k].side),
        ));
        assert(prepared(
            dice[k].image@,
            options.invert_dice,
            options.dice_size as nat,
            set_b.tile_spec(dice[k].side),
        ));
    }
    assert forall|px: int, py: int|
        0 <= px < plain_a.width && 0 <= py < plain_a.height implies plain_a.pixel(px, py)
        == plain_b.pixel(px, py) by {
        let cell = options.dice_size as nat;
        let cols = crate::grid::cells_along(plane_a.width, cell);
        let samples = crate::grid::grid_samples(plane_a, cell);
        assert(plain_a.pixel(px, py) == mosaic_pixel(samples, cols, set_a, options.preset, px, py));
        assert(plain_b.pixel(px, py) == mosaic_pixel(samples, cols, set_b, options.preset, px, py));
    }
    plain_a.lemma_ext(plain_b);
    if takes_banner(plain_a, options) {
        lemma_banner_unique(plain_a, caption_of(plain_a, options).len(), a.image@, b.image@);
    }
}

/// Renders the mosaic of a photograph: normalizes the photograph, builds the
/// set of tiles, pastes the tile chosen for each cell, and draws the banner
/// of the debug annotation if it is asked for.
pub fn process_dice_image(input: GrayBuffer, dice: Vec<Dice>, options: DiceOptions) -> (result:
    Result<Mosaic, RenderError>)
    requires
        within_limits(input, dice@, options),
    ensures
        result matches Err(e) ==> process_error(input@, dice@, options) == Some(e),
        result matches Ok(mosaic) ==> {
            &&& process_error(input@, dice@, options) is None
            &&& mosaic.image.wf()
            &&& mosaic.image.width == (working_side(input@, options) / (options.dice_size as nat))
                * options.dice_size
            &&& mosaic.image.height == mosaic.image.width
            &&& exists|plane: GrayPlane, set: DiceSet, plain: RgbaPlane| #[trigger]
                is_run_of(input@, dice@, options, plane, set, plain, mosaic)
        },
{
    let target = match options.target() {
        Ok(target) => target,
        Err(e) => {
            return Err(e);
        },
    };
    let ghost input_plane = input@;
    let cell: u32 = options.dice_size;
    let plane = match normalize(input, options.invert_input, target) {
        Ok(plane) => plane,
        Err(e) => {
            return Err(e);
        },
    };
    let set = match DiceSet::new(dice, cell, options.invert_dice) {
        Ok(set) => set,
        Err(e) => {
            return Err(e);
        },
    };
    proof {
        lemma_normalized_size(input_plane, options, plane@);
        let side = working_side(input_plane, options) as int;
        let across = (side / (cell as int)) * cell;
        vstd::arithmetic::div_mod::lemma_fundamental_div_mod(side, cell as int);
        assert(fits(across, across, 4)) by (nonlinear_arith)
            requires
                0 <= across <= side,
                fits(side, side, 4),
        ;
    }
    let mut image = render_mosaic(&plane, &set, &options.preset);
    let ghost plain = image@;
    let caption: Option<String> = if options.add_debug && 0 < image.width && image.width
        <= 0x7fff_ffff && 0 < image.height && image.height <= 0x7fff_ffff {
        let cols: u64 = (image.width / cell) as u64;
        let rows: u64 = (image.height / cell) as u64;
        assert(cols * rows <= u64::MAX) by (nonlinear_arith)
            requires
                cols <= u32::MAX,
                rows <= u32::MAX,
        ;
        let cells: u64 = cols * rows;
        let total: u32 = if cells <= 0xffff_ffff {
            cells as u32
        } else {
            0xffff_ffff
        };
        let size = (image.width, image.height);
        Some(add_reference_text(&mut image, (cell, cell), total, size))
    } else {
        None
    };
    let mosaic = Mosaic { image, caption };
    proof {
        assert(is_run_of(input_plane, dice@, options, plane@, set, plain, mosaic));
    }
    Ok(mosaic)
}

} // verus!
