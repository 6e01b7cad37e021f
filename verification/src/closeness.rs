//! Every pixel that a rasterizer draws lies within half a step of the
//! segment, and between its two ends.

use vstd::prelude::*;
use crate::agreement::lemma_lerp_straight;
use crate::agreement::lemma_minor_offset_straight;
use crate::bresenham::bresenham_pixels;
use crate::bresenham::minor_offset;
use crate::dda::dda_pixels;
use crate::laws::law_direction_is_ignored;
use crate::line::Line;
use crate::line::magnitude;
use crate::lines_renderer::LineAlgorithem;
use crate::lines_renderer::raster;
use crate::nearest::lemma_lerp_between;
use crate::nearest::lemma_round_half_away_nearest;
use crate::nearest::lemma_round_half_down_nearest;
use crate::nearest::lerp_round;
use crate::slope_intercept::slope_intercept_pixels;

verus! {

/// Whether the lattice point `(x, y)`, in canvas-centred coordinates, lies
/// within half a step of the line through a segment. The distance is taken
/// along the shorter axis of the segment: along y where `|dy| <= |dx|`, along
/// x elsewhere.
pub open spec fn hugs(line: Line, x: int, y: int) -> bool {
    let (x0, y0) = (line.start.x as int, line.start.y as int);
    let (dx, dy) = (line.dx(), line.dy());
    if magnitude(dy) <= magnitude(dx) {
        2 * magnitude((y - y0) * dx - dy * (x - x0)) <= magnitude(dx)
    } else {
        2 * magnitude((x - x0) * dy - dx * (y - y0)) <= magnitude(dy)
    }
}

/// The line through a segment is the line through the segment turned round.
proof fn lemma_hugs_turned(line: Line, x: int, y: int)
    ensures
        hugs(Line { start: line.end, end: line.start }, x, y) == hugs(line, x, y),
{
    let (x0, y0) = (line.start.x as int, line.start.y as int);
    let (x1, y1) = (line.end.x as int, line.end.y as int);
    assert((y - y1) * (x0 - x1) - (y0 - y1) * (x - x1) == -((y - y0) * (x1 - x0) - (y1 - y0) * (x
        - x0))) by (nonlinear_arith);
    assert((x - x1) * (y0 - y1) - (x0 - x1) * (y - y1) == -((x - x0) * (y1 - y0) - (x1 - x0) * (y
        - y0))) by (nonlinear_arith);
}

/// A rounded interpolation lies within half a step of the exact one.
proof fn lemma_lerp_is_close(v0: int, dv: int, i: int, n: int)
    requires
        n > 0,
    ensures
        2 * magnitude((lerp_round(v0, dv, i, n) - v0) * n - dv * i) <= n,
{
    let v = lerp_round(v0, dv, i, n);
    lemma_round_half_away_nearest(v0 * n + dv * i, n, v);
    assert((v - v0) * n == v * n - v0 * n) by (nonlinear_arith);
}

/// Bresenham's minor offset lies within half a step of the exact one.
proof fn lemma_offset_is_close(i: int, minor: int, major: int)
    requires
        major > 0,
    ensures
        2 * magnitude(minor_offset(i, minor, major) * major - magnitude(minor) * i) <= major,
{
    let k = minor_offset(i, minor, major);
    lemma_round_half_down_nearest(i * magnitude(minor), major, k);
    assert(i * magnitude(minor) == magnitude(minor) * i) by (nonlinear_arith);
}

/// Bresenham's minor offset stays between nothing and the whole minor
/// extent.
proof fn lemma_offset_between(i: int, minor: int, major: int)
    requires
        0 <= i <= major,
        magnitude(minor) <= major,
    ensures
        0 <= minor_offset(i, minor, major) <= magnitude(minor),
{
    let k = minor_offset(i, minor, major);
    let m = magnitude(minor);
    if major > 0 {
        lemma_round_half_down_nearest(i * m, major, k);
        assert(0 <= k) by (nonlinear_arith)
            requires
                0 <= i,
                0 <= m,
                major > 0,
                2 * (i * m) <= 2 * (k * major) + major,
        ;
        assert(k <= m) by (nonlinear_arith)
            requires
                0 <= i <= major,
                0 <= m,
                major > 0,
                2 * (k * major) - major < 2 * (i * m),
        ;
    }
}

/// The pixels of Bresenham's algorithm for a segment whose ends are in the
/// order of the walk.
proof fn lemma_bresenham_hugs_ordered(line: Line, width: u16, height: u16, i: int)
    requires
        0 <= i < bresenham_pixels(line, width, height).len(),
        magnitude(line.dy()) < magnitude(line.dx()) ==> line.start.x <= line.end.x,
        magnitude(line.dy()) >= magnitude(line.dx()) ==> line.start.y <= line.end.y,
    ensures
        hugs(
            line,
            bresenham_pixels(line, width, height)[i].x - width / 2,
            bresenham_pixels(line, width, height)[i].y - height / 2,
        ),
{
    let (x0, y0) = (line.start.x as int, line.start.y as int);
    let (dx, dy) = (line.dx(), line.dy());
    let p = bresenham_pixels(line, width, height)[i];
    let (x, y) = (p.x - width / 2, p.y - height / 2);
    if magnitude(dy) < magnitude(dx) {
        let k = minor_offset(i, dy, dx);
        lemma_offset_is_close(i, dy, dx);
        lemma_offset_between(i, dy, dx);
        assert(x - x0 == i);
        if dy < 0 {
            assert(y - y0 == -k);
            assert((-k) * dx - dy * i == -(k * dx - (-dy) * i)) by (nonlinear_arith);
        } else {
            assert(y - y0 == k);
        }
    } else if dy > 0 {
        let k = minor_offset(i, dx, dy);
        lemma_offset_is_close(i, dx, dy);
        lemma_offset_between(i, dx, dy);
        assert(y - y0 == i);
        if magnitude(dx) == dy {
            lemma_minor_offset_straight(i, dx, dy);
            assert(k == i);
            if dx < 0 {
                assert(x - x0 == -i);
                assert(i * dx - dy * (-i) == 0) by (nonlinear_arith)
                    requires
                        dx == -dy,
                ;
            } else {
                assert(x - x0 == i);
                assert(i * dx - dy * i == 0) by (nonlinear_arith)
                    requires
                        dx == dy,
                ;
            }
        } else if dx < 0 {
            assert(x - x0 == -k);
            assert((-k) * dy - dx * i == -(k * dy - (-dx) * i)) by (nonlinear_arith);
        } else {
            assert(x - x0 == k);
        }
    } else {
        assert(i == 0);
        assert(x == x0 && y == y0);
        assert((y - y0) * dx - dy * (x - x0) == 0) by (nonlinear_arith)
            requires
                x == x0,
                y == y0,
        ;
    }
}

/// The pixels of the slope-intercept rasterizer for a segment whose ends
/// are in the order of the walk.
proof fn lemma_slope_intercept_hugs_ordered(line: Line, width: u16, height: u16, i: int)
    requires
        0 <= i < slope_intercept_pixels(line, width, height).len(),
        magnitude(line.dy()) <= magnitude(line.dx()) ==> line.start.x <= line.end.x,
        magnitude(line.dy()) > magnitude(line.dx()) ==> line.start.y <= line.end.y,
    ensures
        hugs(
            line,
            slope_intercept_pixels(line, width, height)[i].x - width / 2,
            slope_intercept_pixels(line, width, height)[i].y - height / 2,
        ),
{
    let (x0, y0) = (line.start.x as int, line.start.y as int);
    let (dx, dy) = (line.dx(), line.dy());
    let p = slope_intercept_pixels(line, width, height)[i];
    let (x, y) = (p.x - width / 2, p.y - height / 2);
    if magnitude(dy) <= magnitude(dx) {
        if dx > 0 {
            lemma_lerp_is_close(y0, dy, i, dx);
            lemma_lerp_between(y0, dy, i, dx);
            assert(x - x0 == i);
            assert(y == lerp_round(y0, dy, i, dx));
        } else {
            assert(i == 0);
            assert(x == x0 && y == y0);
            assert((y - y0) * dx - dy * (x - x0) == 0) by (nonlinear_arith)
                requires
                    x == x0,
                    y == y0,
            ;
        }
    } else {
        lemma_lerp_is_close(x0, dx, i, dy);
        lemma_lerp_between(x0, dx, i, dy);
        assert(y - y0 == i);
        assert(x == lerp_round(x0, dx, i, dy));
    }
}

/// The samples of the analyzer.
proof fn lemma_dda_hugs(line: Line, width: u16, height: u16, i: int)
    requires
        0 <= i < dda_pixels(line, width, height).len(),
    ensures
        hugs(
            line,
            dda_pixels(line, width, height)[i].x - width / 2,
            dda_pixels(line, width, height)[i].y - height / 2,
        ),
{
    let (x0, y0) = (line.start.x as int, line.start.y as int);
    let (dx, dy) = (line.dx(), line.dy());
    let n = line.span();
    let p = dda_pixels(line, width, height)[i];
    let (x, y) = (p.x - width / 2, p.y - height / 2);
    lemma_lerp_between(x0, dx, i, n);
    lemma_lerp_between(y0, dy, i, n);
    assert(x == lerp_round(x0, dx, i, n));
    assert(y == lerp_round(y0, dy, i, n));
    if n == 0 {
        assert((y - y0) * dx - dy * (x - x0) == 0) by (nonlinear_arith)
            requires
                x == x0,
                y == y0,
        ;
    } else if magnitude(dy) <= magnitude(dx) {
        lemma_lerp_straight(x0, dx, i, n);
        lemma_lerp_is_close(y0, dy, i, n);
        if dx < 0 {
            assert(x - x0 == -i);
            assert((y - y0) * dx - dy * (-i) == -((y - y0) * n - dy * i)) by (nonlinear_arith)
                requires
                    dx == -n,
            ;
        } else {
            assert(x - x0 == i);
        }
    } else {
        lemma_lerp_straight(y0, dy, i, n);
        lemma_lerp_is_close(x0, dx, i, n);
        if dy < 0 {
            assert(y - y0 == -i);
            assert((x - x0) * dy - dx * (-i) == -((x - x0) * n - dx * i)) by (nonlinear_arith)
                requires
                    dy == -n,
            ;
        } else {
            assert(y - y0 == i);
        }
    }
}

/// Every pixel that a rasterizer of the processor draws lies within half a
/// step of the line through the segment: no lattice point of its column, or
/// of its row for a tall segment, is nearer.
pub proof fn law_pixels_hug_the_line(
    algorithem: LineAlgorithem,
    line: Line,
    width: u16,
    height: u16,
    i: int,
)
    requires
        0 <= i < raster(algorithem, line, width, height).len(),
    ensures
        hugs(
            line,
            raster(algorithem, line, width, height)[i].x - width / 2,
            raster(algorithem, line, width, height)[i].y - height / 2,
        ),
{
    let turned = Line { start: line.end, end: line.start };
    let p = raster(algorithem, line, width, height)[i];
    let (x, y) = (p.x - width / 2, p.y - height / 2);
    law_direction_is_ignored(line, width, height);
    lemma_hugs_turned(line, x, y);
    match algorithem {
        LineAlgorithem::Bresenham => {
            let along_x = magnitude(line.dy()) < magnitude(line.dx());
            if (along_x && line.start.x > line.end.x) || (!along_x && line.start.y
                > line.end.y) {
                lemma_bresenham_hugs_ordered(turned, width, height, i);
            } else {
                lemma_bresenham_hugs_ordered(line, width, height, i);
            }
        },
        LineAlgorithem::SlopeIntercept => {
            let along_x = magnitude(line.dy()) <= magnitude(line.dx());
            if (along_x && line.start.x > line.end.x) || (!along_x && line.start.y
                > line.end.y) {
                lemma_slope_intercept_hugs_ordered(turned, width, height, i);
            } else {
                lemma_slope_intercept_hugs_ordered(line, width, height, i);
            }
        },
        LineAlgorithem::DDA => {
            lemma_dda_hugs(line, width, height, i);
        },
        LineAlgorithem::SlopeInterceptFS => {},
    }
}

/// Whether the lattice point `(x, y)` lies in the smallest upright rectangle
/// that holds a segment.
pub open spec fn in_box(line: Line, x: int, y: int) -> bool {
    let (x0, y0) = (line.start.x as int, line.start.y as int);
    let (x1, y1) = (line.end.x as int, line.end.y as int);
    &&& (x0 <= x <= x1 || x1 <= x <= x0)
    &&& (y0 <= y <= y1 || y1 <= y <= y0)
}

/// Every pixel that a rasterizer of the processor draws lies between the two
/// ends of the segment, in x and in y.
pub proof fn law_pixels_stay_in_the_box(
    algorithem: LineAlgorithem,
    line: Line,
    width: u16,
    height: u16,
    i: int,
)
    requires
        0 <= i < raster(algorithem, line, width, height).len(),
    ensures
        in_box(
            line,
            raster(algorithem, line, width, height)[i].x - width / 2,
            raster(algorithem, line, width, height)[i].y - height / 2,
        ),
{
    let (x0, y0) = (line.start.x as int, line.start.y as int);
    let (x1, y1) = (line.end.x as int, line.end.y as int);
    let (dx, dy) = (line.dx(), line.dy());
    let n = line.span();
    match algorithem {
        LineAlgorithem::Bresenham => {
            if magnitude(dy) < magnitude(dx) {
                lemma_offset_between(i, dy, n);
                lemma_offset_between(i, -dy, n);
            } else {
                lemma_offset_between(i, dx, n);
                lemma_offset_between(i, -dx, n);
            }
        },
        LineAlgorithem::SlopeIntercept => {
            if magnitude(dy) <= magnitude(dx) {
                lemma_lerp_between(y0, dy, i, n);
                lemma_lerp_between(y1, -dy, i, n);
            } else {
                lemma_lerp_between(x0, dx, i, n);
                lemma_lerp_between(x1, -dx, i, n);
            }
        },
        LineAlgorithem::DDA => {
            lemma_lerp_between(x0, dx, i, n);
            lemma_lerp_between(y0, dy, i, n);
        },
        LineAlgorithem::SlopeInterceptFS => {},
    }
}

} // verus!
