//! Window dimensions and the 8-bit colour of a canvas pixel.

use vstd::prelude::*;

verus! {

pub const WINDOW_HEIGHT: u32 = 800;

pub const WINDOW_WIDTH: u32 = 800;

/// An RGBA colour with 8 bits per channel.
#[derive(Clone, Copy, Debug, PartialEq, Eq, Structural)]
pub struct ColorU8 {
    pub r: u8,
    pub g: u8,
    pub b: u8,
    pub a: u8,
}

impl ColorU8 {
    /// The colour of a pixel that no segment touches: opaque black.
    pub open spec fn background() -> ColorU8 {
        ColorU8 { r: 0, g: 0, b: 0, a: 255 }
    }

    /// The colour of a pixel that some segment touches: opaque white.
    pub open spec fn ink() -> ColorU8 {
        ColorU8 { r: 255, g: 255, b: 255, a: 255 }
    }
}

impl Default for ColorU8 {
    fn default() -> (color: Self)
        ensures
            color == ColorU8::background(),
    {
        Self { r: 0, g: 0, b: 0, a: 255 }
    }
}

} // verus!
