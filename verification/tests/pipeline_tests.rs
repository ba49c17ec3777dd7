use dice_mosaic::buffer::{GrayBuffer, RgbaBuffer};
use dice_mosaic::dice::Dice;
use dice_mosaic::error::RenderError;
use dice_mosaic::options::DiceOptions;
use dice_mosaic::pipeline::{check_limits, process_dice_image};
use dice_mosaic::preset::{DiceSides, IntensityPreset};

const SIDES: [DiceSides; 6] = [
    DiceSides::One,
    DiceSides::Two,
    DiceSides::Three,
    DiceSides::Four,
    DiceSides::Five,
    DiceSides::Six,
];

fn tile(face: usize, side: u32) -> RgbaBuffer {
    let mut data = Vec::new();
    for y in 0..side {
        for x in 0..side {
            data.extend_from_slice(&[(face as u8 + 1) * 40, x as u8, y as u8, 255]);
        }
    }
    RgbaBuffer::from_raw(side, side, data).unwrap()
}

fn six_dice(side: u32) -> Vec<Dice> {
    SIDES.iter().enumerate().map(|(k, s)| Dice { side: *s, image: tile(k, side) }).collect()
}

fn uniform(width: u32, height: u32, v: u8) -> GrayBuffer {
    GrayBuffer::from_raw(width, height, vec![v; (width * height) as usize]).unwrap()
}

fn plain(cell: u32) -> DiceOptions {
    DiceOptions::new(cell, false, false, IntensityPreset::Default, None, None, false)
}

fn pixel(image: &RgbaBuffer, x: u32, y: u32) -> [u8; 4] {
    let i = ((y * image.width + x) * 4) as usize;
    [image.data[i], image.data[i + 1], image.data[i + 2], image.data[i + 3]]
}

fn assert_tiled_with(image: &RgbaBuffer, t: &RgbaBuffer) {
    for y in 0..image.height {
        for x in 0..image.width {
            assert_eq!(pixel(image, x, y), pixel(t, x % t.width, y % t.height));
        }
    }
}

#[test]
fn mid_gray_photograph_becomes_four_face_three_tiles() {
    let options = plain(32);
    let input = uniform(64, 64, 120);
    let dice = six_dice(32);
    assert!(check_limits(&input, &dice, &options));
    let mosaic = process_dice_image(input, dice, options).unwrap();
    assert_eq!((mosaic.image.width, mosaic.image.height), (64, 64));
    assert_tiled_with(&mosaic.image, &tile(2, 32));
    assert!(mosaic.caption.is_none());
}

#[test]
fn black_photograph_becomes_face_one() {
    for preset in [
        IntensityPreset::Default,
        IntensityPreset::HighContrast,
        IntensityPreset::LowContrast,
        IntensityPreset::Bright,
        IntensityPreset::Dark,
    ] {
        let options = DiceOptions::new(32, false, false, preset, None, None, false);
        let mosaic = process_dice_image(uniform(32, 32, 0), six_dice(32), options).unwrap();
        assert_eq!((mosaic.image.width, mosaic.image.height), (32, 32));
        assert_tiled_with(&mosaic.image, &tile(0, 32));
    }
}

#[test]
fn inverting_the_photograph_turns_black_into_face_six() {
    let options = DiceOptions::new(8, true, false, IntensityPreset::Default, None, None, false);
    let mosaic = process_dice_image(uniform(16, 16, 0), six_dice(8), options).unwrap();
    assert_tiled_with(&mosaic.image, &tile(5, 8));
}

#[test]
fn inverting_the_dice_inverts_the_tiles() {
    let options = DiceOptions::new(4, false, true, IntensityPreset::Default, None, None, false);
    let mosaic = process_dice_image(uniform(4, 4, 0), six_dice(4), options).unwrap();
    let one = tile(0, 4);
    for y in 0..4 {
        for x in 0..4 {
            let p = pixel(&one, x, y);
            assert_eq!(pixel(&mosaic.image, x, y), [255 - p[0], 255 - p[1], 255 - p[2], p[3]]);
        }
    }
}

#[test]
fn a_photograph_that_is_not_square_is_cropped_at_the_top_left() {
    // left half black, right half white: the square crop keeps the left half
    let mut data = Vec::new();
    for _ in 0..8 {
        data.extend_from_slice(&[0u8; 8]);
        data.extend_from_slice(&[255u8; 8]);
    }
    let input = GrayBuffer::from_raw(16, 8, data).unwrap();
    let mosaic = process_dice_image(input, six_dice(4), plain(4)).unwrap();
    assert_eq!((mosaic.image.width, mosaic.image.height), (8, 8));
    assert_tiled_with(&mosaic.image, &tile(0, 4));
}

#[test]
fn a_target_canvas_letterboxes_the_photograph() {
    let options =
        DiceOptions::new(50, false, false, IntensityPreset::Default, Some(200), Some(200), false);
    let input = uniform(100, 50, 255);
    let dice = six_dice(50);
    assert!(check_limits(&input, &dice, &options));
    let mosaic = process_dice_image(input, dice, options).unwrap();
    assert_eq!((mosaic.image.width, mosaic.image.height), (200, 200));
    // rows of cells: padding, image, image, padding
    for col in 0..4u32 {
        assert_eq!(pixel(&mosaic.image, col * 50, 0)[0], 40);
        assert_eq!(pixel(&mosaic.image, col * 50, 50)[0], 240);
        assert_eq!(pixel(&mosaic.image, col * 50, 100)[0], 240);
        assert_eq!(pixel(&mosaic.image, col * 50, 150)[0], 40);
    }
}

#[test]
fn a_target_equal_to_the_size_changes_nothing() {
    let with = DiceOptions::new(4, false, false, IntensityPreset::Default, Some(8), Some(8), false);
    let data: Vec<u8> = (0..64u32).map(|i| (i * 4) as u8).collect();
    let input = GrayBuffer::from_raw(8, 8, data).unwrap();
    let a = process_dice_image(input.clone(), six_dice(4), with).unwrap();
    let b = process_dice_image(input, six_dice(4), plain(4)).unwrap();
    assert_eq!(a.image.data, b.image.data);
}

#[test]
fn the_remainder_of_the_photograph_is_not_rendered() {
    let mosaic = process_dice_image(uniform(70, 70, 120), six_dice(32), plain(32)).unwrap();
    assert_eq!((mosaic.image.width, mosaic.image.height), (64, 64));
    assert_tiled_with(&mosaic.image, &tile(2, 32));
}

#[test]
fn a_cell_larger_than_the_photograph_gives_an_empty_mosaic() {
    let mut options = plain(32);
    options.add_debug = true;
    let mosaic = process_dice_image(uniform(20, 20, 120), six_dice(32), options).unwrap();
    assert_eq!((mosaic.image.width, mosaic.image.height), (0, 0));
    assert!(mosaic.image.data.is_empty());
    assert!(mosaic.caption.is_none());
}

#[test]
fn the_debug_banner_overdraws_the_top_left_corner() {
    let mut options = plain(32);
    options.add_debug = true;
    let mosaic = process_dice_image(uniform(64, 64, 120), six_dice(32), options).unwrap();
    assert_eq!(
        mosaic.caption.as_deref(),
        Some("Dice size: 32x32, Total dice: 4, Image size: 64x64")
    );
    assert_eq!((mosaic.image.width, mosaic.image.height), (64, 64));
    let three = tile(2, 32);
    for y in 0..64 {
        for x in 0..64 {
            if y < 24 {
                assert_eq!(pixel(&mosaic.image, x, y), [0, 0, 0, 255]);
            } else {
                assert_eq!(pixel(&mosaic.image, x, y), pixel(&three, x % 32, y % 32));
            }
        }
    }
}

#[test]
fn tiles_of_another_size_are_resampled() {
    let dice: Vec<Dice> = SIDES
        .iter()
        .enumerate()
        .map(|(k, s)| {
            let mut data = Vec::new();
            for _ in 0..64 * 64 {
                data.extend_from_slice(&[(k as u8 + 1) * 40, 0, 0, 255]);
            }
            Dice { side: *s, image: RgbaBuffer::from_raw(64, 64, data).unwrap() }
        })
        .collect();
    let mosaic = process_dice_image(uniform(32, 32, 255), dice, plain(16)).unwrap();
    assert_eq!((mosaic.image.width, mosaic.image.height), (32, 32));
    for px in mosaic.image.data.chunks(4) {
        assert_eq!(px, [240, 0, 0, 255]);
    }
}

#[test]
fn errors_come_in_a_fixed_order() {
    let empty = GrayBuffer::from_raw(0, 0, Vec::new()).unwrap();
    let mut zero_cell = plain(8);
    zero_cell.dice_size = 0;
    let zero_width =
        DiceOptions::new(8, false, false, IntensityPreset::Default, Some(0), Some(8), false);
    let zero_height =
        DiceOptions::new(8, false, false, IntensityPreset::Default, None, Some(0), false);

    // the choices are checked first
    for options in [zero_cell, zero_width, zero_height] {
        assert_eq!(
            process_dice_image(empty.clone(), Vec::new(), options).unwrap_err(),
            RenderError::ConfigurationError
        );
        assert_eq!(
            process_dice_image(uniform(8, 8, 1), six_dice(8), options).unwrap_err(),
            RenderError::ConfigurationError
        );
    }
    // then the photograph
    assert_eq!(
        process_dice_image(empty, Vec::new(), plain(8)).unwrap_err(),
        RenderError::InvalidDimensions
    );
    // then the dice
    let mut five = six_dice(8);
    five.pop();
    assert_eq!(
        process_dice_image(uniform(8, 8, 1), five, plain(8)).unwrap_err(),
        RenderError::IncompleteDiceSet
    );
    let mut twice = six_dice(8);
    twice[1].side = DiceSides::Six;
    assert_eq!(
        process_dice_image(uniform(8, 8, 1), twice, plain(8)).unwrap_err(),
        RenderError::IncompleteDiceSet
    );
    let mut hollow = six_dice(8);
    hollow[4].image = RgbaBuffer::from_raw(0, 3, Vec::new()).unwrap();
    assert_eq!(
        process_dice_image(uniform(8, 8, 1), hollow, plain(8)).unwrap_err(),
        RenderError::InvalidDimensions
    );
}

#[test]
fn limits_refuse_malformed_buffers_and_sizes_beyond_memory() {
    let options = plain(8);
    let good = uniform(8, 8, 1);
    assert!(check_limits(&good, &six_dice(8), &options));
    let short = GrayBuffer { width: 8, height: 8, data: vec![0; 63] };
    assert!(!check_limits(&short, &six_dice(8), &options));
    let mut dice = six_dice(8);
    dice[2].image.data.pop();
    assert!(!check_limits(&good, &dice, &options));
    let huge = DiceOptions::new(
        8,
        false,
        false,
        IntensityPreset::Default,
        Some(u32::MAX),
        Some(u32::MAX),
        false,
    );
    assert!(!check_limits(&good, &six_dice(8), &huge));
    let mut big_cell = plain(8);
    big_cell.dice_size = u32::MAX;
    assert!(!check_limits(&good, &six_dice(8), &big_cell));
}

#[test]
fn a_run_that_resamples_nothing_is_repeatable() {
    let data: Vec<u8> = (0..144u32).map(|i| (i * 5 % 256) as u8).collect();
    let input = GrayBuffer::from_raw(12, 12, data).unwrap();
    let mut options = plain(4);
    options.add_debug = true;
    let a = process_dice_image(input.clone(), six_dice(4), options).unwrap();
    let b = process_dice_image(input, six_dice(4), options).unwrap();
    assert_eq!(a.image.data, b.image.data);
    assert_eq!(a.caption, b.caption);
    assert_eq!(a.caption.as_deref(), Some("Dice size: 4x4, Total dice: 9, Image size: 12x12"));
}

#[test]
fn a_larger_photograph_is_fitted_sampled_and_tiled() {
    let data: Vec<u8> = (0..400u32 * 300).map(|i| ((i % 400) * 255 / 399) as u8).collect();
    let input = GrayBuffer::from_raw(400, 300, data).unwrap();
    let options =
        DiceOptions::new(8, false, false, IntensityPreset::Default, Some(640), Some(480), true);
    let dice = six_dice(8);
    assert!(check_limits(&input, &dice, &options));
    let mosaic = process_dice_image(input, dice, options).unwrap();
    // the canvas is 640x480, of which the top-left 480x480 square is sampled
    assert_eq!((mosaic.image.width, mosaic.image.height), (480, 480));
    assert_eq!(
        mosaic.caption.as_deref(),
        Some("Dice size: 8x8, Total dice: 3600, Image size: 480x480")
    );
    // the ramp runs from black on the left to white on the right: faces never
    // decrease along the bottom row of cells
    let mut last = 0u8;
    for col in 0..60u32 {
        let face = pixel(&mosaic.image, col * 8, 472)[0] / 40;
        assert!((1..=6).contains(&face));
        assert!(face >= last);
        last = face;
    }
    assert_eq!(pixel(&mosaic.image, 0, 472)[0], 40);
    // the banner covers the top-left corner
    assert_eq!(pixel(&mosaic.image, 0, 0), [0, 0, 0, 255]);
    assert_eq!(pixel(&mosaic.image, 479, 23), [0, 0, 0, 255]);
}
