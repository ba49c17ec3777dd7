use dice_mosaic::buffer::RgbaBuffer;
use dice_mosaic::dice::{invert_colours, prepare_tile, Dice, DiceSet};
use dice_mosaic::error::RenderError;
use dice_mosaic::preset::DiceSides;

const SIDES: [DiceSides; 6] = [
    DiceSides::One,
    DiceSides::Two,
    DiceSides::Three,
    DiceSides::Four,
    DiceSides::Five,
    DiceSides::Six,
];

fn solid(side: u32, rgba: [u8; 4]) -> RgbaBuffer {
    let mut data = Vec::new();
    for _ in 0..side * side {
        data.extend_from_slice(&rgba);
    }
    RgbaBuffer::from_raw(side, side, data).unwrap()
}

fn six_dice(side: u32) -> Vec<Dice> {
    SIDES
        .iter()
        .enumerate()
        .map(|(k, s)| Dice { side: *s, image: solid(side, [10 * k as u8, 20, 30, 255]) })
        .collect()
}

#[test]
fn invert_colours_keeps_alpha() {
    let image = RgbaBuffer::from_raw(2, 1, vec![0, 100, 255, 7, 1, 2, 3, 255]).unwrap();
    let out = invert_colours(&image);
    assert_eq!((out.width, out.height), (2, 1));
    assert_eq!(out.data, vec![255, 155, 0, 7, 254, 253, 252, 255]);
}

#[test]
fn invert_colours_twice_restores_the_image() {
    let image = RgbaBuffer::from_raw(1, 2, vec![9, 8, 7, 6, 5, 4, 3, 2]).unwrap();
    let back = invert_colours(&invert_colours(&image));
    assert_eq!(back.data, image.data);
}

#[test]
fn prepare_tile_of_the_cell_size_is_the_image() {
    let image = solid(8, [1, 2, 3, 4]);
    let tile = prepare_tile(&image, false, 8);
    assert_eq!((tile.width, tile.height), (8, 8));
    assert_eq!(tile.data, image.data);
}

#[test]
fn prepare_tile_inverts_when_asked() {
    let image = solid(4, [0, 10, 255, 200]);
    let tile = prepare_tile(&image, true, 4);
    assert_eq!(tile.data, solid(4, [255, 245, 0, 200]).data);
}

#[test]
fn prepare_tile_resamples_to_the_cell_size() {
    let image = solid(64, [40, 80, 120, 255]);
    let tile = prepare_tile(&image, false, 32);
    assert_eq!((tile.width, tile.height), (32, 32));
    assert_eq!(tile.data.len(), 32 * 32 * 4);
    for px in tile.data.chunks(4) {
        assert_eq!(px, [40, 80, 120, 255]);
    }
}

#[test]
fn prepare_tile_makes_a_square_of_any_rectangle() {
    let image = RgbaBuffer::from_raw(6, 2, vec![255; 48]).unwrap();
    let tile = prepare_tile(&image, false, 3);
    assert_eq!((tile.width, tile.height), (3, 3));
    assert_eq!(tile.data.len(), 36);
}

#[test]
fn set_holds_each_tile_under_its_face() {
    let dice = six_dice(4);
    let set = DiceSet::new(dice.clone(), 4, false).unwrap();
    assert_eq!(set.cell_size, 4);
    assert_eq!(set.tiles.len(), 6);
    for (k, s) in SIDES.iter().enumerate() {
        assert_eq!(set.tile(*s).data, dice[k].image.data);
        assert_eq!((set.tile(*s).width, set.tile(*s).height), (4, 4));
    }
}

#[test]
fn set_accepts_the_dice_in_any_order() {
    let mut dice = six_dice(4);
    dice.reverse();
    dice.swap(1, 4);
    let set = DiceSet::new(dice.clone(), 4, false).unwrap();
    for d in &dice {
        assert_eq!(set.tile(d.side).data, d.image.data);
    }
    assert_eq!(set.tile(DiceSides::One).data, solid(4, [0, 20, 30, 255]).data);
    assert_eq!(set.tile(DiceSides::Six).data, solid(4, [50, 20, 30, 255]).data);
}

#[test]
fn set_inverts_the_tiles_when_asked() {
    let set = DiceSet::new(six_dice(2), 2, true).unwrap();
    assert_eq!(set.tile(DiceSides::Two).data, solid(2, [245, 235, 225, 255]).data);
}

#[test]
fn set_resamples_tiles_of_another_size() {
    let set = DiceSet::new(six_dice(16), 8, false).unwrap();
    for s in SIDES {
        let tile = set.tile(s);
        assert_eq!((tile.width, tile.height), (8, 8));
        assert_eq!(tile.data.len(), 8 * 8 * 4);
    }
}

#[test]
fn fewer_than_six_tiles_is_an_incomplete_set() {
    let mut dice = six_dice(4);
    dice.pop();
    assert_eq!(DiceSet::new(dice, 4, false).unwrap_err(), RenderError::IncompleteDiceSet);
    assert_eq!(DiceSet::new(Vec::new(), 4, false).unwrap_err(), RenderError::IncompleteDiceSet);
}

#[test]
fn more_than_six_tiles_is_an_incomplete_set() {
    let mut dice = six_dice(4);
    dice.push(Dice { side: DiceSides::One, image: solid(4, [0, 0, 0, 255]) });
    assert_eq!(DiceSet::new(dice, 4, false).unwrap_err(), RenderError::IncompleteDiceSet);
}

#[test]
fn a_repeated_face_is_an_incomplete_set() {
    let mut dice = six_dice(4);
    dice[5].side = DiceSides::One;
    assert_eq!(DiceSet::new(dice, 4, false).unwrap_err(), RenderError::IncompleteDiceSet);
    let mut dice = six_dice(4);
    dice[2].side = DiceSides::Four;
    assert_eq!(DiceSet::new(dice, 4, false).unwrap_err(), RenderError::IncompleteDiceSet);
}

#[test]
fn a_tile_without_width_or_height_has_invalid_dimensions() {
    let mut dice = six_dice(4);
    dice[3].image = RgbaBuffer::from_raw(0, 4, Vec::new()).unwrap();
    assert_eq!(DiceSet::new(dice, 4, false).unwrap_err(), RenderError::InvalidDimensions);
    let mut dice = six_dice(4);
    dice[0].image = RgbaBuffer::from_raw(4, 0, Vec::new()).unwrap();
    assert_eq!(DiceSet::new(dice, 4, false).unwrap_err(), RenderError::InvalidDimensions);
}

#[test]
fn cell_size_zero_is_a_configuration_error_for_the_set() {
    assert_eq!(DiceSet::new(six_dice(4), 0, false).unwrap_err(), RenderError::ConfigurationError);
    // it is reported before anything about the dice
    assert_eq!(DiceSet::new(Vec::new(), 0, false).unwrap_err(), RenderError::ConfigurationError);
}

#[test]
fn an_incomplete_set_is_reported_before_an_empty_tile() {
    let mut dice = six_dice(4);
    dice[1].image = RgbaBuffer::from_raw(0, 0, Vec::new()).unwrap();
    dice[2].side = DiceSides::One;
    assert_eq!(DiceSet::new(dice, 4, false).unwrap_err(), RenderError::IncompleteDiceSet);
}
