//! Die faces and the luminance tables that choose among them.

use vstd::prelude::*;

verus! {

/// One of the six faces of a die, ordered by the number of pips.
#[derive(Clone, Copy, Debug, PartialEq, Eq, Hash, Structural)]
pub enum DiceSides {
    One,
    Two,
    Three,
    Four,
    Five,
    Six,
}

impl DiceSides {
    /// The number of pips on the face, from 1 to 6.
    pub open spec fn pips(self) -> int {
        match self {
            DiceSides::One => 1,
            DiceSides::Two => 2,
            DiceSides::Three => 3,
            DiceSides::Four => 4,
            DiceSides::Five => 5,
            DiceSides::Six => 6,
        }
    }

    /// The position of the face in a set of six tiles, from 0 to 5.
    pub open spec fn index_spec(self) -> int {
        self.pips() - 1
    }

    /// The number of pips on the face.
    pub fn value(&self) -> (v: u8)
        ensures
            v == self.pips(),
    {
        match self {
            DiceSides::One => 1,
            DiceSides::Two => 2,
            DiceSides::Three => 3,
            DiceSides::Four => 4,
            DiceSides::Five => 5,
            DiceSides::Six => 6,
        }
    }

    /// The position of the face in a set of six tiles.
    pub fn index(&self) -> (i: usize)
        ensures
            i == self.index_spec(),
            i < 6,
    {
        match self {
            DiceSides::One => 0,
            DiceSides::Two => 1,
            DiceSides::Three => 2,
            DiceSides::Four => 3,
            DiceSides::Five => 4,
            DiceSides::Six => 5,
        }
    }

    /// The face that stands at position `i` of a set of six tiles, if any.
    pub fn from_index(i: usize) -> (side: Option<DiceSides>)
        ensures
            i < 6 <==> side is Some,
            side matches Some(s) ==> s.index_spec() == i,
    {
        match i {
            0 => Some(DiceSides::One),
            1 => Some(DiceSides::Two),
            2 => Some(DiceSides::Three),
            3 => Some(DiceSides::Four),
            4 => Some(DiceSides::Five),
            5 => Some(DiceSides::Six),
            _ => None,
        }
    }
}

/// A fixed table that cuts the luminance scale 0..=255 into six adjoining
/// ranges, the darkest for face one and the brightest for face six.
#[derive(Clone, Copy, Debug, PartialEq, Eq, Hash, Structural)]
pub enum IntensityPreset {
    Default,
    HighContrast,
    LowContrast,
    Bright,
    Dark,
}

impl IntensityPreset {
    /// The preset that stands under `entry` in the menu of presets, which
    /// counts from 1: Default, HighContrast, LowContrast, Bright, Dark. An
    /// entry that is not in the menu gives the Default preset.
    pub fn from_menu(entry: u32) -> (preset: IntensityPreset)
        ensures
            preset == (if entry == 2 {
                IntensityPreset::HighContrast
            } else if entry == 3 {
                IntensityPreset::LowContrast
            } else if entry == 4 {
                IntensityPreset::Bright
            } else if entry == 5 {
                IntensityPreset::Dark
            } else {
                IntensityPreset::Default
            }),
    {
        match entry {
            2 => IntensityPreset::HighContrast,
            3 => IntensityPreset::LowContrast,
            4 => IntensityPreset::Bright,
            5 => IntensityPreset::Dark,
            _ => IntensityPreset::Default,
        }
    }

    /// The brightest luminance that still maps to `side`.
    pub open spec fn upper_spec(self, side: DiceSides) -> int {
        match self {
            IntensityPreset::Default => match side {
                DiceSides::One => 50,
                DiceSides::Two => 100,
                DiceSides::Three => 150,
                DiceSides::Four => 200,
                DiceSides::Five => 230,
                DiceSides::Six => 255,
            },
            IntensityPreset::HighContrast => match side {
                DiceSides::One => 42,
                DiceSides::Two => 85,
                DiceSides::Three => 128,
                DiceSides::Four => 171,
                DiceSides::Five => 214,
                DiceSides::Six => 255,
            },
            IntensityPreset::LowContrast => match side {
                DiceSides::One => 60,
                DiceSides::Two => 120,
                DiceSides::Three => 180,
                DiceSides::Four => 210,
                DiceSides::Five => 240,
                DiceSides::Six => 255,
            },
            IntensityPreset::Bright => match side {
                DiceSides::One => 30,
                DiceSides::Two => 80,
                DiceSides::Three => 130,
                DiceSides::Four => 180,
                DiceSides::Five => 220,
                DiceSides::Six => 255,
            },
            IntensityPreset::Dark => match side {
                DiceSides::One => 70,
                DiceSides::Two => 120,
                DiceSides::Three => 160,
                DiceSides::Four => 200,
                DiceSides::Five => 240,
                DiceSides::Six => 255,
            },
        }
    }

    /// The darkest luminance that maps to `side`: 0 for face one, and for
    /// every other face the value just above the range of the face before it.
    pub open spec fn lower_spec(self, side: DiceSides) -> int {
        match side {
            DiceSides::One => 0,
            DiceSides::Two => self.upper_spec(DiceSides::One) + 1,
            DiceSides::Three => self.upper_spec(DiceSides::Two) + 1,
            DiceSides::Four => self.upper_spec(DiceSides::Three) + 1,
            DiceSides::Five => self.upper_spec(DiceSides::Four) + 1,
            DiceSides::Six => self.upper_spec(DiceSides::Five) + 1,
        }
    }

    /// The face that luminance `v` maps to: the first face, from the darkest
    /// on, whose range reaches up to `v`.
    pub open spec fn side_for(self, v: int) -> DiceSides {
        if v <= self.upper_spec(DiceSides::One) {
            DiceSides::One
        } else if v <= self.upper_spec(DiceSides::Two) {
            DiceSides::Two
        } else if v <= self.upper_spec(DiceSides::Three) {
            DiceSides::Three
        } else if v <= self.upper_spec(DiceSides::Four) {
            DiceSides::Four
        } else if v <= self.upper_spec(DiceSides::Five) {
            DiceSides::Five
        } else {
            DiceSides::Six
        }
    }

    /// Whether luminance `v` lies in the closed range of `side`.
    pub open spec fn covers(self, side: DiceSides, v: int) -> bool {
        self.lower_spec(side) <= v <= self.upper_spec(side)
    }

    /// The brightest luminance that still maps to `side`.
    pub fn upper(&self, side: DiceSides) -> (v: u8)
        ensures
            v == self.upper_spec(side),
    {
        match self {
            IntensityPreset::Default => match side {
                DiceSides::One => 50,
                DiceSides::Two => 100,
                DiceSides::Three => 150,
                DiceSides::Four => 200,
                DiceSides::Five => 230,
                DiceSides::Six => 255,
            },
            IntensityPreset::HighContrast => match side {
                DiceSides::One => 42,
                DiceSides::Two => 85,
                DiceSides::Three => 128,
                DiceSides::Four => 171,
                DiceSides::Five => 214,
                DiceSides::Six => 255,
            },
            IntensityPreset::LowContrast => match side {
                DiceSides::One => 60,
                DiceSides::Two => 120,
                DiceSides::Three => 180,
                DiceSides::Four => 210,
                DiceSides::Five => 240,
                DiceSides::Six => 255,
            },
            IntensityPreset::Bright => match side {
                DiceSides::One => 30,
                DiceSides::Two => 80,
                DiceSides::Three => 130,
                DiceSides::Four => 180,
                DiceSides::Five => 220,
                DiceSides::Six => 255,
            },
            IntensityPreset::Dark => match side {
                DiceSides::One => 70,
                DiceSides::Two => 120,
                DiceSides::Three => 160,
                DiceSides::Four => 200,
                DiceSides::Five => 240,
                DiceSides::Six => 255,
            },
        }
    }

    /// The darkest luminance that maps to `side`.
    pub fn lower(&self, side: DiceSides) -> (v: u8)
        ensures
            v == self.lower_spec(side),
    {
        match side {
            DiceSides::One => 0,
            DiceSides::Two => self.upper(DiceSides::One) + 1,
            DiceSides::Three => self.upper(DiceSides::Two) + 1,
            DiceSides::Four => self.upper(DiceSides::Three) + 1,
            DiceSides::Five => self.upper(DiceSides::Four) + 1,
            DiceSides::Six => self.upper(DiceSides::Five) + 1,
        }
    }
}

/// The face whose range in `preset` holds `avg_intensity`.
pub fn map_intensity_to_dice_side(avg_intensity: u8, preset: &IntensityPreset) -> (side: DiceSides)
    ensures
        preset.covers(side, avg_intensity as int),
        side == preset.side_for(avg_intensity as int),
{
    if avg_intensity <= preset.upper(DiceSides::One) {
        DiceSides::One
    } else if avg_intensity <= preset.upper(DiceSides::Two) {
        DiceSides::Two
    } else if avg_intensity <= preset.upper(DiceSides::Three) {
        DiceSides::Three
    } else if avg_intensity <= preset.upper(DiceSides::Four) {
        DiceSides::Four
    } else if avg_intensity <= preset.upper(DiceSides::Five) {
        DiceSides::Five
    } else {
        DiceSides::Six
    }
}

/// Every luminance from 0 to 255 lies in the range of exactly one face, the
/// one that `side_for` gives.
pub proof fn lemma_ranges_partition(preset: IntensityPreset, v: int)
    requires
        0 <= v <= 255,
    ensures
        preset.covers(preset.side_for(v), v),
        forall|side: DiceSides| preset.covers(side, v) ==> side == preset.side_for(v),
{
}

/// A brighter luminance never maps to a face with fewer pips.
pub proof fn lemma_lookup_monotonic(preset: IntensityPreset, v: int, w: int)
    requires
        0 <= v <= w <= 255,
    ensures
        preset.side_for(v).pips() <= preset.side_for(w).pips(),
{
}

/// Luminance 0 maps to face one in every preset.
pub proof fn lemma_darkest_is_one(preset: IntensityPreset)
    ensures
        preset.side_for(0) == DiceSides::One,
{
}

} // verus!
