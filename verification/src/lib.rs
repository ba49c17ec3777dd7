//! Dice mosaics: a photograph is cut into square cells, the mean luminance of
//! each cell picks one of six die faces, and the matching tile is pasted into
//! the output canvas at the cell's position.

pub mod annotate;
pub mod buffer;
pub mod dice;
pub mod error;
pub mod grid;
pub mod imaging;
pub mod mosaic;
pub mod normalize;
pub mod options;
pub mod pipeline;
pub mod preset;
