//! Segments between points of the integer lattice, and their classification.

use vstd::prelude::*;

verus! {

/// A lattice point in canvas-centred coordinates: the origin is the middle of
/// the canvas.
#[derive(Clone, Copy, Debug, PartialEq, Eq, Structural)]
pub struct Point {
    pub x: i32,
    pub y: i32,
}

/// A segment from `start` to `end`. Nothing changes it once it is built.
#[derive(Clone, Copy, Debug, PartialEq, Eq, Structural)]
pub struct Line {
    pub start: Point,
    pub end: Point,
}

/// Whether a segment is closer to the horizontal or to the vertical.
#[derive(Clone, Copy, Debug, PartialEq, Eq, Structural)]
pub enum LineKind {
    /// At least as wide as tall: `|dy| <= |dx|`.
    Moderate,
    /// Taller than wide: `|dy| > |dx|`.
    Steep,
}

/// The absolute value of an integer.
pub open spec fn magnitude(v: int) -> int {
    if v < 0 {
        -v
    } else {
        v
    }
}

impl Line {
    /// The horizontal extent, signed: `end.x - start.x`.
    pub open spec fn dx(self) -> int {
        self.end.x - self.start.x
    }

    /// The vertical extent, signed: `end.y - start.y`.
    pub open spec fn dy(self) -> int {
        self.end.y - self.start.y
    }

    /// The extent along the longer axis: `max(|dx|, |dy|)`.
    pub open spec fn span(self) -> int {
        if magnitude(self.dy()) <= magnitude(self.dx()) {
            magnitude(self.dx())
        } else {
            magnitude(self.dy())
        }
    }

    /// A segment of length zero.
    pub open spec fn is_point(self) -> bool {
        self.start == self.end
    }

    /// The classification: a tie between the two extents is `Moderate`.
    pub open spec fn spec_kind(self) -> LineKind {
        if magnitude(self.dy()) <= magnitude(self.dx()) {
            LineKind::Moderate
        } else {
            LineKind::Steep
        }
    }

    /// The machine limit on a segment that is to be rasterized: one pixel per
    /// step along the longer axis, and their count is a `usize`.
    pub open spec fn drawable(self) -> bool {
        self.span() < usize::MAX
    }

    pub fn new(start: Point, end: Point) -> (line: Self)
        ensures
            line.start == start,
            line.end == end,
    {
        Self { start, end }
    }

    /// The horizontal extent as a machine integer.
    pub fn delta_x(&self) -> (d: i64)
        ensures
            d == self.dx(),
    {
        self.end.x as i64 - self.start.x as i64
    }

    /// The vertical extent as a machine integer.
    pub fn delta_y(&self) -> (d: i64)
        ensures
            d == self.dy(),
    {
        self.end.y as i64 - self.start.y as i64
    }

    /// Classifies the segment.
    pub fn kind(&self) -> (kind: LineKind)
        ensures
            kind == self.spec_kind(),
            magnitude(self.dx()) == magnitude(self.dy()) ==> kind == LineKind::Moderate,
    {
        let dx: i64 = self.delta_x();
        let dy: i64 = self.delta_y();
        let ax: i64 = if dx < 0 { -dx } else { dx };
        let ay: i64 = if dy < 0 { -dy } else { dy };
        if ay <= ax {
            LineKind::Moderate
        } else {
            LineKind::Steep
        }
    }

    /// Tells whether the segment meets the machine limit `drawable`.
    pub fn is_drawable(&self) -> (ok: bool)
        ensures
            ok == self.drawable(),
    {
        let dx: i64 = self.delta_x();
        let dy: i64 = self.delta_y();
        let ax: u64 = if dx < 0 { (-dx) as u64 } else { dx as u64 };
        let ay: u64 = if dy < 0 { (-dy) as u64 } else { dy as u64 };
        let span: u64 = if ay <= ax { ax } else { ay };
        span < usize::MAX as u64
    }
}

} // verus!
