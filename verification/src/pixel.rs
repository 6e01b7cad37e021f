//! Pixel positions in buffer space.

use vstd::prelude::*;

verus! {

/// A position in buffer space: the origin is the top-left corner of the
/// canvas. The coordinates are signed, so that a position to the left of the
/// canvas or above it keeps its place; the compositor leaves such a position
/// out.
#[derive(Clone, Copy, Debug, PartialEq, Eq, Structural)]
pub struct Pixel {
    pub x: i64,
    pub y: i64,
}

impl Pixel {
    /// The buffer position of the canvas-centred lattice point `(x, y)`, on a
    /// canvas of the given size: the point moved by half the width and half
    /// the height.
    pub open spec fn of(x: int, y: int, width: u16, height: u16) -> Pixel {
        Pixel { x: (x + width / 2) as i64, y: (y + height / 2) as i64 }
    }

    /// Whether the position lies on a canvas of the given size.
    pub open spec fn on_canvas(self, width: u16, height: u16) -> bool {
        0 <= self.x < width && 0 <= self.y < height
    }

    /// Tells whether the position lies on a canvas of the given size.
    pub fn is_on_canvas(&self, width: u16, height: u16) -> (yes: bool)
        ensures
            yes == self.on_canvas(width, height),
    {
        0 <= self.x && self.x < width as i64 && 0 <= self.y && self.y < height as i64
    }

    /// Moves a canvas-centred lattice point into buffer space.
    pub fn place(x: i64, y: i64, width: u16, height: u16) -> (pixel: Pixel)
        requires
            x + width / 2 <= i64::MAX,
            y + height / 2 <= i64::MAX,
        ensures
            pixel == Pixel::of(x as int, y as int, width, height),
            pixel.x == x + width / 2,
            pixel.y == y + height / 2,
    {
        Pixel { x: x + (width / 2) as i64, y: y + (height / 2) as i64 }
    }
}

} // verus!
