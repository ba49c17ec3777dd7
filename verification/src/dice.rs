//! The set of six die-face tiles that a mosaic is built from.

use vstd::prelude::*;
use crate::buffer::{fits, RgbaBuffer, RgbaPlane};
use crate::error::RenderError;
use crate::imaging::resize_rgba;
use crate::preset::DiceSides;

verus! {

/// A die face with its picture.
#[derive(Clone, Debug)]
pub struct Dice {
    pub side: DiceSides,
    pub image: RgbaBuffer,
}

/// The colour negative of a plane: red, green and blue samples `v` become
/// `255 - v`, and alpha samples stay.
pub open spec fn inverted_colours(plane: RgbaPlane) -> RgbaPlane {
    RgbaPlane {
        width: plane.width,
        height: plane.height,
        samples: Seq::new(
            plane.samples.len(),
            |i: int|
                if i % 4 == 3 {
                    plane.samples[i]
                } else {
                    (255 - plane.samples[i]) as u8
                },
        ),
    }
}

/// The colour negative of an image, with its transparency kept.
pub fn invert_colours(image: &RgbaBuffer) -> (out: RgbaBuffer)
    ensures
        out@ == inverted_colours(image@),
{
    let n = image.data.len();
    let mut data: Vec<u8> = Vec::new();
    let mut i: usize = 0;
    while i < n
        invariant
            i <= n,
            n == image.data@.len(),
            data@.len() == i,
            forall|j: int| 0 <= j < i ==> data@[j] == inverted_colours(image@).samples[j],
        decreases n - i,
    {
        let v = image.data[i];
        if i % 4 == 3 {
            data.push(v);
        } else {
            data.push(255 - v);
        }
        i += 1;
    }
    let out = RgbaBuffer { width: image.width, height: image.height, data };
    assert(out@.samples =~= inverted_colours(image@).samples);
    out
}

/// Taking the colour negative twice gives the plane back, sample for sample.
pub proof fn lemma_invert_colours_involution(plane: RgbaPlane)
    ensures
        inverted_colours(inverted_colours(plane)) == plane,
{
    assert(inverted_colours(inverted_colours(plane)).samples =~= plane.samples);
}

/// Whether `tile` can be what preparing `image` for cells of side `cell`
/// gives: a well-formed square of that side, and where `image` already is
/// such a square, `image` itself, or its colour negative if `invert` is set.
/// Which samples a resampled tile holds is left open.
pub open spec fn prepared(image: RgbaPlane, invert: bool, cell: nat, tile: RgbaPlane) -> bool {
    &&& tile.wf()
    &&& tile.width == cell
    &&& tile.height == cell
    &&& (image.width == cell && image.height == cell ==> tile == if invert {
        inverted_colours(image)
    } else {
        image
    })
}

/// Prepares the picture of one face: takes its colour negative if `invert`
/// is set, and resamples it to a square of side `cell_size`.
pub fn prepare_tile(image: &RgbaBuffer, invert: bool, cell_size: u32) -> (tile: RgbaBuffer)
    requires
        image.wf(),
        fits(image.width as int, cell_size as int, 16),
        fits(cell_size as int, cell_size as int, 4),
    ensures
        prepared(image@, invert, cell_size as nat, tile@),
{
    if invert {
        let negative = invert_colours(image);
        resize_rgba(&negative, cell_size, cell_size)
    } else {
        resize_rgba(image, cell_size, cell_size)
    }
}

/// Six tiles of one size, one for each face.
#[derive(Clone, Debug)]
pub struct DiceSet {
    /// Side of every tile, in points.
    pub cell_size: u32,
    /// The tiles in the order of their faces, face one first.
    pub tiles: Vec<RgbaBuffer>,
}

impl DiceSet {
    /// The cell size is positive, and there are six well-formed square tiles
    /// of that size.
    pub open spec fn wf(&self) -> bool {
        &&& self.cell_size > 0
        &&& self.tiles@.len() == 6
        &&& forall|i: int|
            0 <= i < 6 ==> {
                &&& (#[trigger] self.tiles@[i]).wf()
                &&& self.tiles@[i].width == self.cell_size
                &&& self.tiles@[i].height == self.cell_size
            }
    }

    /// The tile that shows `side`.
    pub open spec fn tile_spec(&self, side: DiceSides) -> RgbaPlane {
        self.tiles@[side.index_spec()]@
    }

    /// The tile that shows `side`.
    pub fn tile(&self, side: DiceSides) -> (tile: &RgbaBuffer)
        requires
            self.wf(),
        ensures
            tile@ == self.tile_spec(side),
            tile.wf(),
            tile.width == self.cell_size,
            tile.height == self.cell_size,
    {
        &self.tiles[side.index()]
    }

    /// Builds the set from six pictures, one for each face, in any order.
    /// Each picture is prepared as `prepare_tile` does. The set is refused
    /// with the error that `dice_error` gives.
    pub fn new(dice: Vec<Dice>, cell_size: u32, invert: bool) -> (result: Result<
        DiceSet,
        RenderError,
    >)
        requires
            fits(cell_size as int, cell_size as int, 4),
            forall|k: int|
                0 <= k < dice@.len() ==> (#[trigger] dice@[k]).image.wf() && fits(
                    dice@[k].image.width as int,
                    cell_size as int,
                    16,
                ),
        ensures
            result matches Err(e) ==> dice_error(dice@, cell_size) == Some(e),
            result matches Ok(set) ==> {
                &&& dice_error(dice@, cell_size) is None
                &&& set.wf()
                &&& set.cell_size == cell_size
                &&& forall|k: int|
                    0 <= k < 6 ==> prepared(
                        (#[trigger] dice@[k]).image@,
                        invert,
                        cell_size as nat,
                        set.tile_spec(dice@[k].side),
                    )
            },
    {
        if cell_size == 0 {
            return Err(RenderError::ConfigurationError);
        }
        if dice.len() != 6 || has_repeated_face(&dice) {
            return Err(RenderError::IncompleteDiceSet);
        }
        let mut k: usize = 0;
        while k < 6
            invariant
                k <= 6,
                cell_size != 0,
                has_six_faces(dice@),
                forall|j: int| 0 <= j < k ==> !is_empty_image(#[trigger] dice@[j]),
            decreases 6 - k,
        {
            if dice[k].image.width == 0 || dice[k].image.height == 0 {
                assert(is_empty_image(dice@[k as int]));
                return Err(RenderError::InvalidDimensions);
            }
            k += 1;
        }
        let mut tiles: Vec<RgbaBuffer> = Vec::new();
        let mut face: usize = 0;
        while face < 6
            invariant
                face <= 6,
                has_six_faces(dice@),
                fits(cell_size as int, cell_size as int, 4),
                forall|k: int|
                    0 <= k < dice@.len() ==> (#[trigger] dice@[k]).image.wf() && fits(
                        dice@[k].image.width as int,
                        cell_size as int,
                        16,
                    ),
                tiles@.len() == face,
                forall|i: int|
                    0 <= i < face ==> {
                        &&& (#[trigger] tiles@[i]).wf()
                        &&& tiles@[i].width == cell_size
                        &&& tiles@[i].height == cell_size
                    },
                forall|k: int|
                    0 <= k < 6 && dice@[k].side.index_spec() < face ==> prepared(
                        (#[trigger] dice@[k]).image@,
                        invert,
                        cell_size as nat,
                        tiles@[dice@[k].side.index_spec()]@,
                    ),
            decreases 6 - face,
        {
            proof {
                lemma_every_face_present(dice@, face as int);
            }
            let at = position_of_face(&dice, face);
            let tile = prepare_tile(&dice[at].image, invert, cell_size);
            tiles.push(tile);
            face += 1;
        }
        Ok(DiceSet { cell_size, tiles })
    }
}

/// Whether the picture of `die` has no width or no height.
pub open spec fn is_empty_image(die: Dice) -> bool {
    die.image.width == 0 || die.image.height == 0
}

/// There are exactly six dice, and no two show the same face.
pub open spec fn has_six_faces(dice: Seq<Dice>) -> bool {
    &&& dice.len() == 6
    &&& forall|i: int, j: int| 0 <= i < j < 6 ==> dice[i].side != dice[j].side
}

/// The error that a set of dice is refused with, if any: a cell size of zero
/// is a configuration error; otherwise anything but six dice with six
/// different faces is an incomplete set; otherwise a picture without width or
/// height has invalid dimensions.
pub open spec fn dice_error(dice: Seq<Dice>, cell_size: u32) -> Option<RenderError> {
    if cell_size == 0 {
        Some(RenderError::ConfigurationError)
    } else if !has_six_faces(dice) {
        Some(RenderError::IncompleteDiceSet)
    } else if exists|k: int| 0 <= k < 6 && is_empty_image(#[trigger] dice[k]) {
        Some(RenderError::InvalidDimensions)
    } else {
        None
    }
}

/// Six dice with six different faces show every face.
pub proof fn lemma_every_face_present(dice: Seq<Dice>, face: int)
    requires
        has_six_faces(dice),
        0 <= face < 6,
    ensures
        exists|k: int| 0 <= k < 6 && #[trigger] shows(dice, k, face),
{
    let a = dice[0].side.index_spec();
    let b = dice[1].side.index_spec();
    let c = dice[2].side.index_spec();
    let d = dice[3].side.index_spec();
    let e = dice[4].side.index_spec();
    let f = dice[5].side.index_spec();
    assert(a != b && a != c && a != d && a != e && a != f);
    assert(b != c && b != d && b != e && b != f);
    assert(c != d && c != e && c != f);
    assert(d != e && d != f && e != f);
    assert(a == face || b == face || c == face || d == face || e == face || f == face);
    assert(shows(dice, 0, face) || shows(dice, 1, face) || shows(dice, 2, face) || shows(
        dice,
        3,
        face,
    ) || shows(dice, 4, face) || shows(dice, 5, face));
}

/// Whether the die at position `k` shows the face with index `face`.
pub open spec fn shows(dice: Seq<Dice>, k: int, face: int) -> bool {
    dice[k].side.index_spec() == face
}

/// Whether two of the six dice show the same face.
fn has_repeated_face(dice: &Vec<Dice>) -> (repeated: bool)
    requires
        dice@.len() == 6,
    ensures
        repeated == !has_six_faces(dice@),
{
    let mut i: usize = 0;
    while i < 6
        invariant
            i <= 6,
            dice@.len() == 6,
            forall|a: int, b: int| 0 <= a < b < 6 && a < i ==> dice@[a].side != dice@[b].side,
        decreases 6 - i,
    {
        let mut j: usize = i + 1;
        while j < 6
            invariant
                i < j <= 6,
                dice@.len() == 6,
                forall|a: int, b: int| 0 <= a < b < 6 && a < i ==> dice@[a].side != dice@[b].side,
                forall|b: int| i < b < j ==> dice@[i as int].side != dice@[b].side,
            decreases 6 - j,
        {
            if dice[i].side == dice[j].side {
                return true;
            }
            j += 1;
        }
        i += 1;
    }
    false
}

/// The position of the die that shows the face with index `face`.
fn position_of_face(dice: &Vec<Dice>, face: usize) -> (at: usize)
    requires
        dice@.len() == 6,
        exists|k: int| 0 <= k < 6 && #[trigger] shows(dice@, k, face as int),
    ensures
        at < 6,
        shows(dice@, at as int, face as int),
{
    let mut k: usize = 0;
    while k < 5
        invariant
            k <= 5,
            dice@.len() == 6,
            exists|j: int| k <= j < 6 && #[trigger] shows(dice@, j, face as int),
        decreases 5 - k,
    {
        if dice[k].side.index() == face {
            return k;
        }
        k += 1;
    }
    k
}

} // verus!
