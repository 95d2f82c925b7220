//! Texture-definition model of a pixel-art texture generator: colors and
//! their hex notation, bit patterns, passes, undo history and the file format.

pub mod color;
mod rng;
pub mod text;
pub mod file;
pub mod pattern;
pub mod line;
pub mod definition;
pub mod util;
pub mod digest;
pub mod palettes;
pub mod noise;
pub mod settings;
pub mod logs;
pub mod preview;
pub mod storage;

use vstd::prelude::*;

verus! {

/// Width and height, in pixels, of every generated texture.
pub const IMG_SIZE: i32 = 128;

/// Number of pixels of a generated texture.
pub const IMG_PIXEL_COUNT: usize = 16384;

} // verus!
