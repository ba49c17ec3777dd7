//! The grid sampler: the image is cut into square cells, row by row, and each
//! cell yields the mean of its luminance samples, rounded down.

use vstd::prelude::*;
use crate::buffer::{lemma_flat_index_bounds, lemma_flat_index_split, GrayBuffer, GrayPlane};
use crate::error::RenderError;
use crate::normalize::window;

verus! {

/// The sum of a sequence of samples.
pub open spec fn sum_samples(samples: Seq<u8>) -> int
    decreases samples.len(),
{
    if samples.len() == 0 {
        0
    } else {
        sum_samples(samples.drop_last()) + samples.last()
    }
}

/// The number of whole cells of side `cell` that fit along `extent` points.
pub open spec fn cells_along(extent: nat, cell: nat) -> nat {
    extent / cell
}

/// The cell at column `col` and row `row` of the grid, as a plane of its own.
pub open spec fn cell_plane(plane: GrayPlane, cell: nat, col: int, row: int) -> GrayPlane {
    window(plane, col * cell, row * cell, cell, cell)
}

/// The mean luminance of a cell: the sum of its samples divided by their
/// number, rounded down.
pub open spec fn cell_average(plane: GrayPlane, cell: nat, col: int, row: int) -> int {
    sum_samples(cell_plane(plane, cell, col, row).samples) / ((cell * cell) as int)
}

/// One cell of the grid with its mean luminance.
#[derive(Clone, Copy, Debug, PartialEq, Eq, Structural)]
pub struct CellSample {
    /// Column of the cell, counted from the left.
    pub col: u32,
    /// Row of the cell, counted from the top.
    pub row: u32,
    /// Mean luminance of the cell.
    pub avg: u8,
}

/// The sample that stands at position `i` of a grid `cols` cells wide, read
/// row by row.
pub open spec fn sample_at(plane: GrayPlane, cell: nat, cols: nat, i: int) -> CellSample {
    CellSample {
        col: (i % (cols as int)) as u32,
        row: (i / (cols as int)) as u32,
        avg: cell_average(plane, cell, i % (cols as int), i / (cols as int)) as u8,
    }
}

/// The samples of all whole cells of `plane`, row by row from the top, each
/// row from the left. Points right of the last whole column or below the last
/// whole row belong to no cell.
pub open spec fn grid_samples(plane: GrayPlane, cell: nat) -> Seq<CellSample> {
    let cols = cells_along(plane.width, cell);
    let rows = cells_along(plane.height, cell);
    Seq::new(cols * rows, |i: int| sample_at(plane, cell, cols, i))
}

/// The sum of `n` samples is between 0 and `255 * n`.
pub proof fn lemma_sum_bounds(samples: Seq<u8>)
    ensures
        0 <= sum_samples(samples) <= 255 * samples.len(),
    decreases samples.len(),
{
    if samples.len() > 0 {
        lemma_sum_bounds(samples.drop_last());
    }
}

/// The whole cells along an axis lie inside it.
pub proof fn lemma_cell_inside(extent: nat, cell: nat, k: int, d: int)
    requires
        cell > 0,
        0 <= k < cells_along(extent, cell),
        0 <= d < cell,
    ensures
        0 <= k * cell + d < extent,
        k * cell + cell <= extent,
        (k * cell + d) / (cell as int) == k,
        (k * cell + d) % (cell as int) == d,
{
    vstd::arithmetic::div_mod::lemma_fundamental_div_mod(extent as int, cell as int);
    let q = extent as int / cell as int;
    assert(k * cell + cell <= cell * q) by (nonlinear_arith)
        requires
            0 <= k < q,
            cell > 0,
    ;
    vstd::arithmetic::div_mod::lemma_fundamental_div_mod_converse(
        k * cell + d,
        cell as int,
        k,
        d,
    );
}

/// The mean luminance of a whole cell is a luminance: it lies in 0..=255.
pub proof fn lemma_cell_average_range(plane: GrayPlane, cell: nat, col: int, row: int)
    requires
        cell > 0,
    ensures
        0 <= cell_average(plane, cell, col, row) <= 255,
{
    let samples = cell_plane(plane, cell, col, row).samples;
    lemma_sum_bounds(samples);
    let n = (cell * cell) as int;
    assert(n > 0) by (nonlinear_arith)
        requires
            n == cell * cell,
            cell > 0,
    ;
    assert(samples.len() == n);
    let s = sum_samples(samples);
    vstd::arithmetic::div_mod::lemma_fundamental_div_mod(s, n);
    assert(s / n <= 255) by (nonlinear_arith)
        requires
            s == n * (s / n) + s % n,
            0 <= s % n,
            s <= 255 * n,
            n > 0,
    ;
}

/// The sum of `n` samples that all equal `v` is `n * v`.
pub proof fn lemma_sum_of_equal_samples(samples: Seq<u8>, v: u8)
    requires
        forall|i: int| 0 <= i < samples.len() ==> samples[i] == v,
    ensures
        sum_samples(samples) == samples.len() * v,
    decreases samples.len(),
{
    if samples.len() > 0 {
        lemma_sum_of_equal_samples(samples.drop_last(), v);
        assert(samples.len() * v == (samples.len() - 1) * v + v) by (nonlinear_arith);
    }
}

/// A cell whose samples all equal `v` has the mean `v`.
pub proof fn lemma_uniform_cell_average(plane: GrayPlane, cell: nat, col: int, row: int, v: u8)
    requires
        cell > 0,
        forall|x: int, y: int|
            0 <= x < cell && 0 <= y < cell ==> #[trigger] plane.at(col * cell + x, row * cell + y)
                == v,
    ensures
        cell_average(plane, cell, col, row) == v,
{
    let samples = cell_plane(plane, cell, col, row).samples;
    let n = (cell * cell) as int;
    assert(n > 0) by (nonlinear_arith)
        requires
            n == cell * cell,
            cell > 0,
    ;
    assert forall|i: int| 0 <= i < samples.len() implies samples[i] == v by {
        lemma_flat_index_split(cell as int, cell as int, i);
        assert(plane.at(col * cell + i % (cell as int), row * cell + i / (cell as int)) == v);
    }
    lemma_sum_of_equal_samples(samples, v);
    vstd::arithmetic::div_mod::lemma_fundamental_div_mod_converse(n * v, n, v as int, 0);
}

/// The grid of a `W` by `H` plane with cells of side `c` has exactly
/// `floor(W / c) * floor(H / c)` samples; the sample at position `i` is that
/// of column `i % cols` in row `i / cols`, and its mean is the cell's mean
/// luminance, which lies in 0..=255.
pub proof fn lemma_grid_coverage(plane: GrayPlane, cell: nat)
    requires
        cell > 0,
        plane.width <= u32::MAX,
        plane.height <= u32::MAX,
    ensures
        grid_samples(plane, cell).len() == (plane.width / cell) * (plane.height / cell),
        forall|i: int|
            0 <= i < grid_samples(plane, cell).len() ==> {
                let s = #[trigger] grid_samples(plane, cell)[i];
                let cols = cells_along(plane.width, cell) as int;
                &&& s.col == i % cols
                &&& s.row == i / cols
                &&& 0 <= s.col < cols
                &&& 0 <= s.row < cells_along(plane.height, cell)
                &&& s.avg == cell_average(plane, cell, i % cols, i / cols)
                &&& 0 <= s.avg <= 255
            },
{
    let cols = cells_along(plane.width, cell) as int;
    let rows = cells_along(plane.height, cell) as int;
    assert(grid_samples(plane, cell).len() == cols * rows);
    assert forall|i: int| 0 <= i < grid_samples(plane, cell).len() implies {
        let s = #[trigger] grid_samples(plane, cell)[i];
        &&& s.col == i % cols
        &&& s.row == i / cols
        &&& 0 <= s.col < cols
        &&& 0 <= s.row < rows
        &&& s.avg == cell_average(plane, cell, i % cols, i / cols)
        &&& 0 <= s.avg <= 255
    } by {
        lemma_flat_index_split(cols, rows, i);
        lemma_cell_average_range(plane, cell, i % cols, i / cols);
    }
}

/// The mean luminance of the cell at column `col` and row `row`.
pub fn average_cell(image: &GrayBuffer, cell_size: u32, col: u32, row: u32) -> (avg: u8)
    requires
        image.wf(),
        cell_size > 0,
        col < cells_along(image.width as nat, cell_size as nat),
        row < cells_along(image.height as nat, cell_size as nat),
    ensures
        avg == cell_average(image@, cell_size as nat, col as int, row as int),
{
    let ghost cellp = cell_plane(image@, cell_size as nat, col as int, row as int);
    proof {
        lemma_cell_inside(image.width as nat, cell_size as nat, col as int, 0);
        lemma_cell_inside(image.height as nat, cell_size as nat, row as int, 0);
        assert(0 < cell_size * cell_size <= u64::MAX) by (nonlinear_arith)
            requires
                0 < cell_size <= u32::MAX,
        ;
    }
    let left: u32 = col * cell_size;
    let top: u32 = row * cell_size;
    let mut total: u128 = 0;
    let mut dy: u32 = 0;
    while dy < cell_size
        invariant
            image.wf(),
            cell_size > 0,
            left + cell_size <= image.width,
            top + cell_size <= image.height,
            left == col * cell_size,
            top == row * cell_size,
            cellp == cell_plane(image@, cell_size as nat, col as int, row as int),
            dy <= cell_size,
            total == sum_samples(cellp.samples.take(dy * cell_size)),
            total <= 255 * (dy * cell_size),
            0 < cell_size * cell_size <= u64::MAX,
        decreases cell_size - dy,
    {
        let mut dx: u32 = 0;
        while dx < cell_size
            invariant
                image.wf(),
                cell_size > 0,
                left + cell_size <= image.width,
                top + cell_size <= image.height,
                left == col * cell_size,
                top == row * cell_size,
                cellp == cell_plane(image@, cell_size as nat, col as int, row as int),
                dy < cell_size,
                dx <= cell_size,
                total == sum_samples(cellp.samples.take(dy * cell_size + dx)),
                total <= 255 * (dy * cell_size + dx),
                0 < cell_size * cell_size <= u64::MAX,
            decreases cell_size - dx,
        {
            let v = image.get(left + dx, top + dy);
            proof {
                let k = dy * cell_size + dx;
                lemma_flat_index_bounds(cell_size as int, cell_size as int, dx as int, dy as int);
                assert(cellp.samples.take(k + 1).drop_last() =~= cellp.samples.take(k));
                assert(cellp.samples.take(k + 1).last() == v);
            }
            total = total + v as u128;
            dx += 1;
        }
        proof {
            assert((dy + 1) * cell_size == dy * cell_size + cell_size) by (nonlinear_arith);
        }
        dy += 1;
    }
    proof {
        assert(cellp.samples.take(cell_size * cell_size) =~= cellp.samples);
        lemma_cell_average_range(image@, cell_size as nat, col as int, row as int);
    }
    let count: u128 = ((cell_size as u64) * (cell_size as u64)) as u128;
    (total / count) as u8
}

/// Samples the grid of `image` for cells of side `cell_size`: one sample for
/// each whole cell, row by row from the top and each row from the left. A
/// cell size of zero is a configuration error.
pub fn sample_grid(image: &GrayBuffer, cell_size: u32) -> (result: Result<
    Vec<CellSample>,
    RenderError,
>)
    requires
        image.wf(),
    ensures
        result is Err <==> cell_size == 0,
        result matches Err(e) ==> e == RenderError::ConfigurationError,
        result matches Ok(samples) ==> samples@ == grid_samples(image@, cell_size as nat),
{
    if cell_size == 0 {
        Err(RenderError::ConfigurationError)
    } else {
        Ok(sample_cells(image, cell_size))
    }
}

/// The samples of all whole cells of `image` for a positive cell size, row
/// by row from the top and each row from the left.
pub fn sample_cells(image: &GrayBuffer, cell_size: u32) -> (samples: Vec<CellSample>)
    requires
        image.wf(),
        cell_size > 0,
    ensures
        samples@ == grid_samples(image@, cell_size as nat),
{
    let cols: u32 = image.width / cell_size;
    let rows: u32 = image.height / cell_size;
    let mut samples: Vec<CellSample> = Vec::new();
    let mut row: u32 = 0;
    while row < rows
        invariant
            image.wf(),
            cell_size > 0,
            cols == cells_along(image.width as nat, cell_size as nat),
            rows == cells_along(image.height as nat, cell_size as nat),
            row <= rows,
            samples@.len() == row * cols,
            forall|i: int|
                0 <= i < samples@.len() ==> samples@[i] == sample_at(
                    image@,
                    cell_size as nat,
                    cols as nat,
                    i,
                ),
        decreases rows - row,
    {
        let mut col: u32 = 0;
        while col < cols
            invariant
                image.wf(),
                cell_size > 0,
                cols == cells_along(image.width as nat, cell_size as nat),
                rows == cells_along(image.height as nat, cell_size as nat),
                row < rows,
                col <= cols,
                samples@.len() == row * cols + col,
                forall|i: int|
                    0 <= i < samples@.len() ==> samples@[i] == sample_at(
                        image@,
                        cell_size as nat,
                        cols as nat,
                        i,
                    ),
            decreases cols - col,
        {
            let avg = average_cell(image, cell_size, col, row);
            proof {
                lemma_flat_index_bounds(cols as int, rows as int, col as int, row as int);
            }
            samples.push(CellSample { col, row, avg });
            col += 1;
        }
        proof {
            assert((row + 1) * cols == row * cols + cols) by (nonlinear_arith);
        }
        row += 1;
    }
    proof {
        assert(rows * cols == cols * rows) by (nonlinear_arith);
        assert(samples@ =~= grid_samples(image@, cell_size as nat));
    }
    samples
}

} // verus!
