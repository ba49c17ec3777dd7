use dice_mosaic::error::RenderError;
use dice_mosaic::options::{
    positive_or, DiceOptions, DEFAULT_DICE_SIZE, DEFAULT_OUTPUT_HEIGHT, DEFAULT_OUTPUT_WIDTH,
};
use dice_mosaic::preset::IntensityPreset;

#[test]
fn cell_size_zero_defaults_to_32() {
    let options = DiceOptions::new(0, false, false, IntensityPreset::Default, None, None, false);
    assert_eq!(options.dice_size, 32);
    assert_eq!(DEFAULT_DICE_SIZE, 32);
    assert_eq!(options.target(), Ok(None));
}

#[test]
fn new_keeps_every_other_choice() {
    let options =
        DiceOptions::new(16, true, false, IntensityPreset::Dark, Some(640), Some(480), true);
    assert_eq!(options.dice_size, 16);
    assert!(options.invert_input);
    assert!(!options.invert_dice);
    assert_eq!(options.preset, IntensityPreset::Dark);
    assert_eq!(options.output_width, Some(640));
    assert_eq!(options.output_height, Some(480));
    assert!(options.add_debug);
    let options = DiceOptions::new(1, false, true, IntensityPreset::Bright, None, Some(0), false);
    assert_eq!(options.dice_size, 1);
    assert!(options.invert_dice);
    assert_eq!(options.output_height, Some(0));
}

#[test]
fn target_needs_both_dimensions() {
    let p = IntensityPreset::Default;
    assert_eq!(DiceOptions::new(8, false, false, p, Some(3), Some(4), false).target(), Ok(Some((3, 4))));
    assert_eq!(DiceOptions::new(8, false, false, p, Some(3), None, false).target(), Ok(None));
    assert_eq!(DiceOptions::new(8, false, false, p, None, Some(4), false).target(), Ok(None));
    assert_eq!(DiceOptions::new(8, false, false, p, None, None, false).target(), Ok(None));
}

#[test]
fn a_dimension_given_as_zero_is_a_configuration_error() {
    let p = IntensityPreset::Default;
    let e = Err(RenderError::ConfigurationError);
    assert_eq!(DiceOptions::new(8, false, false, p, Some(0), Some(4), false).target(), e);
    assert_eq!(DiceOptions::new(8, false, false, p, Some(3), Some(0), false).target(), e);
    assert_eq!(DiceOptions::new(8, false, false, p, Some(0), None, false).target(), e);
    assert_eq!(DiceOptions::new(8, false, false, p, None, Some(0), false).target(), e);
}

#[test]
fn a_cell_size_set_to_zero_afterwards_is_a_configuration_error() {
    let mut options =
        DiceOptions::new(0, false, false, IntensityPreset::Default, None, None, false);
    assert_eq!(options.target(), Ok(None));
    options.dice_size = 0;
    assert_eq!(options.target(), Err(RenderError::ConfigurationError));
}

#[test]
fn error_messages_name_the_condition() {
    assert!(RenderError::ConfigurationError.message().starts_with("configuration error"));
    assert!(RenderError::InvalidDimensions.message().starts_with("invalid dimensions"));
    assert!(RenderError::IncompleteDiceSet.message().starts_with("incomplete dice set"));
}

#[test]
fn positive_or_falls_back_on_zero_and_nothing() {
    assert_eq!(positive_or(Some(640), 1920), 640);
    assert_eq!(positive_or(Some(1), 1920), 1);
    assert_eq!(positive_or(Some(u32::MAX), 7), u32::MAX);
    assert_eq!(positive_or(Some(0), 1920), 1920);
    assert_eq!(positive_or(None, 1080), 1080);
    assert_eq!(positive_or(None, 0), 0);
    assert_eq!(DEFAULT_OUTPUT_WIDTH, 1920);
    assert_eq!(DEFAULT_OUTPUT_HEIGHT, 1080);
}
