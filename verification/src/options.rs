//! The choices that govern one rendering run.

use vstd::prelude::*;
use crate::error::RenderError;
use crate::preset::IntensityPreset;

verus! {

/// The cell size that stands in where none, or zero, was given.
pub const DEFAULT_DICE_SIZE: u32 = 32;

/// The canvas width that stands in where an invalid one was entered.
pub const DEFAULT_OUTPUT_WIDTH: u32 = 1920;

/// The canvas height that stands in where an invalid one was entered.
pub const DEFAULT_OUTPUT_HEIGHT: u32 = 1080;

/// The number that was entered if there is one and it is positive, and
/// `fallback` otherwise.
pub fn positive_or(entered: Option<u32>, fallback: u32) -> (value: u32)
    ensures
        value == (match entered {
            Some(v) => if v > 0 {
                v
            } else {
                fallback
            },
            None => fallback,
        }),
{
    match entered {
        Some(v) => if v > 0 {
            v
        } else {
            fallback
        },
        None => fallback,
    }
}

/// The choices that govern one rendering run.
#[derive(Clone, Copy, Debug)]
pub struct DiceOptions {
    /// Side of a cell and of a tile, in points.
    pub dice_size: u32,
    /// Whether the photograph is inverted before it is sampled.
    pub invert_input: bool,
    /// Whether the colours of the tiles are inverted.
    pub invert_dice: bool,
    /// The table that maps a cell's mean luminance to a face.
    pub preset: IntensityPreset,
    /// Width of the canvas that the photograph is fitted into, if any.
    pub output_width: Option<u32>,
    /// Height of the canvas that the photograph is fitted into, if any.
    pub output_height: Option<u32>,
    /// Whether the debug banner is drawn on the finished mosaic.
    pub add_debug: bool,
}

impl DiceOptions {
    /// Collects the choices for a run. A cell size of zero stands for "not
    /// given" and becomes the default of 32.
    pub fn new(
        dice_size: u32,
        invert_input: bool,
        invert_dice: bool,
        preset: IntensityPreset,
        output_width: Option<u32>,
        output_height: Option<u32>,
        add_debug: bool,
    ) -> (options: DiceOptions)
        ensures
            options.dice_size == (if dice_size == 0 {
                DEFAULT_DICE_SIZE
            } else {
                dice_size
            }),
            options.invert_input == invert_input,
            options.invert_dice == invert_dice,
            options.preset == preset,
            options.output_width == output_width,
            options.output_height == output_height,
            options.add_debug == add_debug,
    {
        DiceOptions {
            dice_size: positive_or(Some(dice_size), DEFAULT_DICE_SIZE),
            invert_input,
            invert_dice,
            preset,
            output_width,
            output_height,
            add_debug,
        }
    }

    /// Whether the choices cannot be carried out: the cell size is zero, or
    /// an output dimension is given as zero.
    pub open spec fn is_misconfigured(&self) -> bool {
        self.dice_size == 0 || self.output_width == Some(0u32) || self.output_height == Some(0u32)
    }

    /// The canvas that the photograph is fitted into: the output width and
    /// height where both are given, and none otherwise.
    pub open spec fn target_spec(&self) -> Option<(u32, u32)> {
        match (self.output_width, self.output_height) {
            (Some(w), Some(h)) => Some((w, h)),
            _ => None,
        }
    }

    /// Checks the choices and gives the canvas that the photograph is fitted
    /// into, if any.
    pub fn target(&self) -> (result: Result<Option<(u32, u32)>, RenderError>)
        ensures
            result is Err <==> self.is_misconfigured(),
            result matches Err(e) ==> e == RenderError::ConfigurationError,
            result matches Ok(target) ==> target == self.target_spec(),
    {
        if self.dice_size == 0 {
            return Err(RenderError::ConfigurationError);
        }
        match self.output_width {
            Some(w) => {
                if w == 0 {
                    return Err(RenderError::ConfigurationError);
                }
                match self.output_height {
                    Some(h) => {
                        if h == 0 {
                            Err(RenderError::ConfigurationError)
                        } else {
                            Ok(Some((w, h)))
                        }
                    },
                    None => Ok(None),
                }
            },
            None => match self.output_height {
                Some(h) => {
                    if h == 0 {
                        Err(RenderError::ConfigurationError)
                    } else {
                        Ok(None)
                    }
                },
                None => Ok(None),
            },
        }
    }
}

} // verus!
