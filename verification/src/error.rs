//! The ways in which a rendering run can be refused.

use vstd::prelude::*;

verus! {

/// Why a run was refused. Every error ends the run before any output exists.
#[derive(Clone, Copy, Debug, PartialEq, Eq, Hash, Structural)]
pub enum RenderError {
    /// The cell size is zero, or an output dimension was given as zero.
    ConfigurationError,
    /// A pixel buffer has zero width or zero height.
    InvalidDimensions,
    /// The tiles are not exactly six, or two of them show the same face.
    IncompleteDiceSet,
}

impl RenderError {
    /// A sentence that names the violated condition.
    pub fn message(&self) -> (text: &'static str)
        ensures
            text@ == (match *self {
                RenderError::ConfigurationError => "configuration error: cell size and requested output dimensions must be positive"@,
                RenderError::InvalidDimensions => "invalid dimensions: a pixel buffer has zero width or height"@,
                RenderError::IncompleteDiceSet => "incomplete dice set: exactly six tiles with six different faces are required"@,
            }),
    {
        match self {
            RenderError::ConfigurationError => "configuration error: cell size and requested output dimensions must be positive",
            RenderError::InvalidDimensions => "invalid dimensions: a pixel buffer has zero width or height",
            RenderError::IncompleteDiceSet => "incomplete dice set: exactly six tiles with six different faces are required",
        }
    }
}

} // verus!
