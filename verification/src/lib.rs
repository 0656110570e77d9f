pub mod error;
pub mod trig;
pub mod random;
pub mod image_utils;
pub mod shape;
pub mod rectangle;
pub mod triangle;
pub mod individual;
pub mod simulation;

use vstd::prelude::*;

verus! {

/// Coordinates of canvas space are fixed-point numbers: `COORD_ONE` units
/// stand for one pixel.
pub const COORD_ONE: i64 = 65536;

/// The widest canvas the engine accepts, in pixels per axis.
pub const MAX_CANVAS: u32 = 65535;

/// Converts a pixel count into fixed-point canvas units.
pub fn coord_of_pixels(px: u32) -> (r: i64)
    requires
        px <= MAX_CANVAS,
    ensures
        r == px * COORD_ONE,
{
    (px as i64) * COORD_ONE
}

} // verus!
