use dice_mosaic::preset::{map_intensity_to_dice_side, DiceSides, IntensityPreset};

const PRESETS: [IntensityPreset; 5] = [
    IntensityPreset::Default,
    IntensityPreset::HighContrast,
    IntensityPreset::LowContrast,
    IntensityPreset::Bright,
    IntensityPreset::Dark,
];

const SIDES: [DiceSides; 6] = [
    DiceSides::One,
    DiceSides::Two,
    DiceSides::Three,
    DiceSides::Four,
    DiceSides::Five,
    DiceSides::Six,
];

fn check_table(preset: IntensityPreset, uppers: [u8; 6]) {
    let mut lower: u16 = 0;
    for (k, upper) in uppers.iter().enumerate() {
        for v in lower..=(*upper as u16) {
            assert_eq!(
                map_intensity_to_dice_side(v as u8, &preset),
                SIDES[k],
                "luminance {} in {:?}",
                v,
                preset
            );
        }
        assert_eq!(preset.upper(SIDES[k]), *upper);
        assert_eq!(preset.lower(SIDES[k]) as u16, lower);
        lower = *upper as u16 + 1;
    }
    assert_eq!(lower, 256);
}

#[test]
fn default_table() {
    check_table(IntensityPreset::Default, [50, 100, 150, 200, 230, 255]);
}

#[test]
fn high_contrast_table() {
    check_table(IntensityPreset::HighContrast, [42, 85, 128, 171, 214, 255]);
}

#[test]
fn low_contrast_table() {
    check_table(IntensityPreset::LowContrast, [60, 120, 180, 210, 240, 255]);
}

#[test]
fn bright_table() {
    check_table(IntensityPreset::Bright, [30, 80, 130, 180, 220, 255]);
}

#[test]
fn dark_table() {
    check_table(IntensityPreset::Dark, [70, 120, 160, 200, 240, 255]);
}

#[test]
fn default_preset_boundaries() {
    let p = IntensityPreset::Default;
    assert_eq!(map_intensity_to_dice_side(0, &p), DiceSides::One);
    assert_eq!(map_intensity_to_dice_side(50, &p), DiceSides::One);
    assert_eq!(map_intensity_to_dice_side(51, &p), DiceSides::Two);
    assert_eq!(map_intensity_to_dice_side(100, &p), DiceSides::Two);
    assert_eq!(map_intensity_to_dice_side(101, &p), DiceSides::Three);
    assert_eq!(map_intensity_to_dice_side(120, &p), DiceSides::Three);
    assert_eq!(map_intensity_to_dice_side(150, &p), DiceSides::Three);
    assert_eq!(map_intensity_to_dice_side(151, &p), DiceSides::Four);
    assert_eq!(map_intensity_to_dice_side(200, &p), DiceSides::Four);
    assert_eq!(map_intensity_to_dice_side(201, &p), DiceSides::Five);
    assert_eq!(map_intensity_to_dice_side(230, &p), DiceSides::Five);
    assert_eq!(map_intensity_to_dice_side(231, &p), DiceSides::Six);
    assert_eq!(map_intensity_to_dice_side(255, &p), DiceSides::Six);
}

#[test]
fn every_luminance_has_exactly_one_face() {
    for preset in PRESETS {
        for v in 0..=255u8 {
            let side = map_intensity_to_dice_side(v, &preset);
            let holders = SIDES
                .iter()
                .filter(|s| preset.lower(**s) <= v && v <= preset.upper(**s))
                .count();
            assert_eq!(holders, 1);
            assert!(preset.lower(side) <= v && v <= preset.upper(side));
        }
    }
}

#[test]
fn lookup_never_decreases() {
    for preset in PRESETS {
        let mut last = 1u8;
        for v in 0..=255u8 {
            let pips = map_intensity_to_dice_side(v, &preset).value();
            assert!(pips >= last);
            last = pips;
        }
        assert_eq!(last, 6);
    }
}

#[test]
fn black_maps_to_face_one_in_every_preset() {
    for preset in PRESETS {
        assert_eq!(map_intensity_to_dice_side(0, &preset), DiceSides::One);
    }
}

#[test]
fn white_maps_to_face_six_in_every_preset() {
    for preset in PRESETS {
        assert_eq!(map_intensity_to_dice_side(255, &preset), DiceSides::Six);
    }
}

#[test]
fn ranges_adjoin_without_gap() {
    for preset in PRESETS {
        assert_eq!(preset.lower(DiceSides::One), 0);
        for k in 1..6 {
            assert_eq!(preset.lower(SIDES[k]), preset.upper(SIDES[k - 1]) + 1);
        }
        assert_eq!(preset.upper(DiceSides::Six), 255);
    }
}

#[test]
fn face_values_and_positions() {
    for (k, side) in SIDES.iter().enumerate() {
        assert_eq!(side.value() as usize, k + 1);
        assert_eq!(side.index(), k);
        assert_eq!(DiceSides::from_index(k), Some(*side));
    }
    assert_eq!(DiceSides::from_index(6), None);
    assert_eq!(DiceSides::from_index(usize::MAX), None);
}

#[test]
fn menu_entries_count_from_one() {
    assert_eq!(IntensityPreset::from_menu(1), IntensityPreset::Default);
    assert_eq!(IntensityPreset::from_menu(2), IntensityPreset::HighContrast);
    assert_eq!(IntensityPreset::from_menu(3), IntensityPreset::LowContrast);
    assert_eq!(IntensityPreset::from_menu(4), IntensityPreset::Bright);
    assert_eq!(IntensityPreset::from_menu(5), IntensityPreset::Dark);
}

#[test]
fn entries_outside_the_menu_give_the_default_preset() {
    assert_eq!(IntensityPreset::from_menu(0), IntensityPreset::Default);
    assert_eq!(IntensityPreset::from_menu(6), IntensityPreset::Default);
    assert_eq!(IntensityPreset::from_menu(u32::MAX), IntensityPreset::Default);
}
