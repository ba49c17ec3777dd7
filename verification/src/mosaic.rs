//! The mosaic compositor: every cell of the grid receives the tile of the
//! face that its mean luminance maps to.

use vstd::prelude::*;
use crate::buffer::{
    fits,
    flat_index,
    lemma_flat_index_bounds,
    lemma_flat_index_split,
    GrayBuffer,
    GrayPlane,
    RgbaBuffer,
    RgbaPlane,
};
use crate::dice::DiceSet;
use crate::grid::{
    cell_average,
    cells_along,
    grid_samples,
    lemma_grid_coverage,
    lemma_uniform_cell_average,
    sample_cells,
    CellSample,
};
use crate::imaging::{blend_rgba, overlay_rgba};
use crate::preset::{map_intensity_to_dice_side, DiceSides, IntensityPreset};

verus! {

/// The fully transparent black pixel that an empty canvas is made of.
pub open spec fn transparent() -> Seq<u8> {
    seq![0u8, 0u8, 0u8, 0u8]
}

/// The pixel that results where `above` is laid over `below`: a fully
/// transparent `above` shows `below`, a fully opaque one hides it, and any
/// other is blended with it.
pub open spec fn composite(below: Seq<u8>, above: Seq<u8>) -> Seq<u8> {
    if above[3] == 0 {
        below
    } else if above[3] == 255 {
        above
    } else {
        blend_rgba(below, above)
    }
}

/// An opaque pixel replaces whatever it is laid over, and a fully
/// transparent one leaves it as it was.
pub proof fn lemma_composite_extremes(below: Seq<u8>, above: Seq<u8>)
    ensures
        above[3] == 255 ==> composite(below, above) == above,
        above[3] == 0 ==> composite(below, above) == below,
{
}

/// Whether `samples` is a grid of `cols` by `rows` cells read row by row:
/// the sample at position `i` belongs to column `i % cols` of row `i / cols`.
pub open spec fn is_grid(samples: Seq<CellSample>, cols: nat, rows: nat) -> bool {
    &&& samples.len() == cols * rows
    &&& forall|i: int|
        0 <= i < samples.len() ==> (#[trigger] samples[i]).col == i % (cols as int) && samples[i].row
            == i / (cols as int)
}

/// The position in a grid `cols` cells wide of the cell that holds the point
/// `(px, py)`, for cells of side `cell`.
pub open spec fn cell_position(cols: nat, cell: nat, px: int, py: int) -> int {
    flat_index(cols as int, px / (cell as int), py / (cell as int))
}

/// The pixel of the mosaic at `(px, py)`: the pixel at the same place within
/// its cell of the tile chosen by the cell's mean luminance, laid over a
/// transparent canvas.
pub open spec fn mosaic_pixel(
    samples: Seq<CellSample>,
    cols: nat,
    dice: DiceSet,
    preset: IntensityPreset,
    px: int,
    py: int,
) -> Seq<u8> {
    let cell = dice.cell_size as nat;
    let sample = samples[cell_position(cols, cell, px, py)];
    let side = preset.side_for(sample.avg as int);
    composite(transparent(), dice.tile_spec(side).pixel(px % (cell as int), py % (cell as int)))
}

/// A point lies in the `k`-th cell along an axis exactly if dividing its
/// coordinate by the cell size gives `k`; its place within the cell is then
/// the remainder.
pub proof fn lemma_cell_of_point(cell: int, k: int, p: int)
    requires
        cell > 0,
        0 <= k,
        0 <= p,
    ensures
        (k * cell <= p < k * cell + cell) <==> p / cell == k,
        p / cell == k ==> p % cell == p - k * cell,
        0 <= p % cell < cell,
        0 <= p / cell,
{
    vstd::arithmetic::div_mod::lemma_fundamental_div_mod(p, cell);
    assert(cell * (p / cell) == (p / cell) * cell) by (nonlinear_arith);
    if k * cell <= p < k * cell + cell {
        vstd::arithmetic::div_mod::lemma_fundamental_div_mod_converse(p, cell, k, p - k * cell);
    }
}

/// A point of a canvas `n` cells long along an axis lies in one of those
/// cells.
pub proof fn lemma_point_in_grid(cell: int, n: int, p: int)
    requires
        cell > 0,
        0 <= n,
        0 <= p < n * cell,
    ensures
        0 <= p / cell < n,
{
    lemma_cell_of_point(cell, p / cell, p);
    let q = p / cell;
    assert(q < n) by (nonlinear_arith)
        requires
            q * cell <= p,
            p < n * cell,
            cell > 0,
    ;
}

/// Whether the point `(px, py)` lies in the square that the tile of the cell
/// at column `col` and row `row` is pasted into.
pub open spec fn in_paste_region(cell: int, col: int, row: int, px: int, py: int) -> bool {
    col * cell <= px < col * cell + cell && row * cell <= py < row * cell + cell
}

/// Every point of a canvas of `cols` by `rows` cells lies in the paste
/// region of exactly one cell: that of column `px / cell` in row `py / cell`.
pub proof fn lemma_paste_regions_partition(cell: int, cols: int, rows: int, px: int, py: int)
    requires
        cell > 0,
        0 <= cols,
        0 <= rows,
        0 <= px < cols * cell,
        0 <= py < rows * cell,
    ensures
        0 <= px / cell < cols,
        0 <= py / cell < rows,
        forall|col: int, row: int|
            0 <= col && 0 <= row ==> (#[trigger] in_paste_region(cell, col, row, px, py) <==> (col
                == px / cell && row == py / cell)),
{
    lemma_point_in_grid(cell, cols, px);
    lemma_point_in_grid(cell, rows, py);
    assert forall|col: int, row: int| 0 <= col && 0 <= row implies (#[trigger] in_paste_region(
        cell,
        col,
        row,
        px,
        py,
    ) <==> (col == px / cell && row == py / cell)) by {
        lemma_cell_of_point(cell, col, px);
        lemma_cell_of_point(cell, row, py);
    }
}

/// Pastes the tiles for a grid of samples into a new canvas. The canvas is
/// `cols` by `rows` cells large and starts out transparent; the cell of each
/// sample receives the tile of the face its mean maps to in `preset`.
pub fn compose(
    samples: &Vec<CellSample>,
    cols: u32,
    rows: u32,
    dice: &DiceSet,
    preset: &IntensityPreset,
) -> (out: RgbaBuffer)
    requires
        dice.wf(),
        is_grid(samples@, cols as nat, rows as nat),
        cols * dice.cell_size <= u32::MAX,
        rows * dice.cell_size <= u32::MAX,
        fits(cols * dice.cell_size, rows * dice.cell_size, 4),
    ensures
        out.wf(),
        out.width == cols * dice.cell_size,
        out.height == rows * dice.cell_size,
        forall|px: int, py: int|
            0 <= px < out.width && 0 <= py < out.height ==> #[trigger] out@.pixel(px, py)
                == mosaic_pixel(samples@, cols as nat, *dice, *preset, px, py),
{
    let cell: u32 = dice.cell_size;
    let width: u32 = cols * cell;
    let height: u32 = rows * cell;
    let mut out = RgbaBuffer::blank(width, height);
    proof {
        assert forall|px: int, py: int| 0 <= px < width && 0 <= py < height implies #[trigger] out@.pixel(
            px,
            py,
        ) == transparent() by {
            lemma_flat_index_bounds(width as int, height as int, px, py);
            assert(out@.pixel(px, py) =~= transparent());
        }
    }
    let n = samples.len();
    let mut i: usize = 0;
    while i < n
        invariant
            dice.wf(),
            is_grid(samples@, cols as nat, rows as nat),
            cell == dice.cell_size,
            width == cols * cell,
            height == rows * cell,
            n == samples@.len(),
            i <= n,
            out.wf(),
            out.width == width,
            out.height == height,
            forall|px: int, py: int|
                0 <= px < width && 0 <= py < height ==> #[trigger] out@.pixel(px, py) == (
                if cell_position(cols as nat, cell as nat, px, py) < i {
                    mosaic_pixel(samples@, cols as nat, *dice, *preset, px, py)
                } else {
                    transparent()
                }),
        decreases n - i,
    {
        let sample = samples[i];
        let side = map_intensity_to_dice_side(sample.avg, preset);
        let tile = dice.tile(side);
        proof {
            lemma_flat_index_split(cols as int, rows as int, i as int);
            assert(sample.col * cell + cell <= cols * cell) by (nonlinear_arith)
                requires
                    0 <= sample.col < cols,
                    cell > 0,
            ;
            assert(sample.row * cell + cell <= rows * cell) by (nonlinear_arith)
                requires
                    0 <= sample.row < rows,
                    cell > 0,
            ;
        }
        let left: u32 = sample.col * cell;
        let top: u32 = sample.row * cell;
        let ghost before = out@;
        overlay_rgba(&mut out, tile, left, top);
        proof {
            assert forall|px: int, py: int| 0 <= px < width && 0 <= py < height implies #[trigger] out@.pixel(
                px,
                py,
            ) == (if cell_position(cols as nat, cell as nat, px, py) < i + 1 {
                mosaic_pixel(samples@, cols as nat, *dice, *preset, px, py)
            } else {
                transparent()
            }) by {
                lemma_paste_regions_partition(cell as int, cols as int, rows as int, px, py);
                lemma_cell_of_point(cell as int, sample.col as int, px);
                lemma_cell_of_point(cell as int, sample.row as int, py);
                let c = px / (cell as int);
                let r = py / (cell as int);
                lemma_flat_index_bounds(cols as int, rows as int, c, r);
                assert(before.pixel(px, py) == (if cell_position(cols as nat, cell as nat, px, py)
                    < i {
                    mosaic_pixel(samples@, cols as nat, *dice, *preset, px, py)
                } else {
                    transparent()
                }));
                if c == sample.col && r == sample.row {
                    assert(cell_position(cols as nat, cell as nat, px, py) == i);
                } else {
                    assert(cell_position(cols as nat, cell as nat, px, py) != i);
                }
            }
        }
        i += 1;
    }
    proof {
        assert forall|px: int, py: int| 0 <= px < out.width && 0 <= py < out.height implies #[trigger] out@.pixel(
            px,
            py,
        ) == mosaic_pixel(samples@, cols as nat, *dice, *preset, px, py) by {
            lemma_paste_regions_partition(cell as int, cols as int, rows as int, px, py);
            lemma_flat_index_bounds(
                cols as int,
                rows as int,
                px / (cell as int),
                py / (cell as int),
            );
        }
    }
    out
}

/// Whether `out` is the mosaic of `plane` in the tiles of `dice`: a canvas of
/// as many whole cells as fit in `plane`, each pixel taken from the tile that
/// the mean luminance of its cell maps to in `preset`.
pub open spec fn is_mosaic_of(
    plane: GrayPlane,
    dice: DiceSet,
    preset: IntensityPreset,
    out: RgbaPlane,
) -> bool {
    let cell = dice.cell_size as nat;
    let cols = cells_along(plane.width, cell);
    let rows = cells_along(plane.height, cell);
    &&& out.wf()
    &&& out.width == cols * cell
    &&& out.height == rows * cell
    &&& forall|px: int, py: int|
        0 <= px < out.width && 0 <= py < out.height ==> #[trigger] out.pixel(px, py)
            == mosaic_pixel(grid_samples(plane, cell), cols, dice, preset, px, py)
}

/// A cell that is black all over gets face one, whatever the preset.
pub proof fn lemma_black_cell_is_face_one(
    plane: GrayPlane,
    cell: nat,
    col: int,
    row: int,
    preset: IntensityPreset,
)
    requires
        cell > 0,
        forall|x: int, y: int|
            0 <= x < cell && 0 <= y < cell ==> #[trigger] plane.at(col * cell + x, row * cell + y)
                == 0,
    ensures
        preset.side_for(cell_average(plane, cell, col, row)) == DiceSides::One,
{
    lemma_uniform_cell_average(plane, cell, col, row, 0);
}

/// A photograph, a set of tiles and a preset have only one mosaic.
pub proof fn lemma_mosaic_unique(
    plane: GrayPlane,
    dice: DiceSet,
    preset: IntensityPreset,
    a: RgbaPlane,
    b: RgbaPlane,
)
    requires
        is_mosaic_of(plane, dice, preset, a),
        is_mosaic_of(plane, dice, preset, b),
    ensures
        a == b,
{
    a.lemma_ext(b);
}

/// Renders the mosaic of `image`: samples its grid for the cell size of
/// `dice` and pastes the tile chosen for each cell. What lies right of the
/// last whole column of cells, or below the last whole row, is left out.
pub fn render_mosaic(image: &GrayBuffer, dice: &DiceSet, preset: &IntensityPreset) -> (out:
    RgbaBuffer)
    requires
        image.wf(),
        dice.wf(),
        fits(
            cells_along(image.width as nat, dice.cell_size as nat) * dice.cell_size,
            cells_along(image.height as nat, dice.cell_size as nat) * dice.cell_size,
            4,
        ),
    ensures
        is_mosaic_of(image@, *dice, *preset, out@),
{
    let cell: u32 = dice.cell_size;
    let cols: u32 = image.width / cell;
    let rows: u32 = image.height / cell;
    proof {
        lemma_grid_coverage(image@, cell as nat);
        vstd::arithmetic::div_mod::lemma_fundamental_div_mod(image.width as int, cell as int);
        vstd::arithmetic::div_mod::lemma_fundamental_div_mod(image.height as int, cell as int);
        assert(cols * cell == cell * cols && rows * cell == cell * rows) by (nonlinear_arith);
    }
    let samples = sample_cells(image, cell);
    compose(&samples, cols, rows, dice, preset)
}

} // verus!
