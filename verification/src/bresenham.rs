//! Bresenham's algorithm: the nearest lattice points along a segment, found
//! with integer additions alone.

use vstd::prelude::*;
use crate::line::Line;
use crate::line::magnitude;
use crate::lines_renderer::LinesRenderer;
use crate::nearest::lemma_round_half_down_nearest;
use crate::nearest::nearest_half_down;
use crate::nearest::round_half_down;
use crate::pixel::Pixel;

verus! {

/// How far the walk has moved along its minor axis when it has made `i` of
/// its `major` steps along the major one: `i * minor / major`, rounded to the
/// nearest integer, a tie going to the smaller.
pub open spec fn minor_offset(i: int, minor: int, major: int) -> int {
    round_half_down(i * magnitude(minor), major)
}

/// Pixel `i` of the walk from `(xi, yi)` to `(xf, yf)` along x.
pub open spec fn low_pixel(
    xi: int,
    yi: int,
    xf: int,
    yf: int,
    width: u16,
    height: u16,
    i: int,
) -> Pixel {
    let k = minor_offset(i, yf - yi, xf - xi);
    Pixel::of(
        xi + i,
        if yf < yi {
            yi - k
        } else {
            yi + k
        },
        width,
        height,
    )
}

/// Pixel `i` of the walk from `(xi, yi)` to `(xf, yf)` along y.
pub open spec fn high_pixel(
    xi: int,
    yi: int,
    xf: int,
    yf: int,
    width: u16,
    height: u16,
    i: int,
) -> Pixel {
    let k = minor_offset(i, xf - xi, yf - yi);
    Pixel::of(
        if xf < xi {
            xi - k
        } else {
            xi + k
        },
        yi + i,
        width,
        height,
    )
}

/// The walk along x from `(xi, yi)` to `(xf, yf)`: one pixel for each x.
pub open spec fn low_pixels(xi: int, yi: int, xf: int, yf: int, width: u16, height: u16) -> Seq<
    Pixel,
> {
    Seq::new((xf - xi + 1) as nat, |i: int| low_pixel(xi, yi, xf, yf, width, height, i))
}

/// The walk along y from `(xi, yi)` to `(xf, yf)`: one pixel for each y.
pub open spec fn high_pixels(xi: int, yi: int, xf: int, yf: int, width: u16, height: u16) -> Seq<
    Pixel,
> {
    Seq::new((yf - yi + 1) as nat, |i: int| high_pixel(xi, yi, xf, yf, width, height, i))
}

/// What Bresenham's algorithm draws for a segment. A segment that is wider
/// than tall is walked along x, from its left end; any other is walked along
/// y, from its lower end.
pub open spec fn bresenham_pixels(line: Line, width: u16, height: u16) -> Seq<Pixel> {
    let (a, b) = (line.start, line.end);
    if magnitude(line.dy()) < magnitude(line.dx()) {
        if a.x > b.x {
            low_pixels(b.x as int, b.y as int, a.x as int, a.y as int, width, height)
        } else {
            low_pixels(a.x as int, a.y as int, b.x as int, b.y as int, width, height)
        }
    } else {
        if a.y > b.y {
            high_pixels(b.x as int, b.y as int, a.x as int, a.y as int, width, height)
        } else {
            high_pixels(a.x as int, a.y as int, b.x as int, b.y as int, width, height)
        }
    }
}

/// The error term of the walk when pixel `i` is drawn and `k` minor steps
/// have been made: twice the distance, in units of `1 / major`, by which the
/// segment, one major step further on, lies beyond the middle between row `k`
/// and row `k + 1`. Where it is positive the next pixel is nearer to row
/// `k + 1`.
pub open spec fn error_term(i: int, k: int, minor: int, major: int) -> int {
    2 * ((i + 1) * minor) - major - 2 * (k * major)
}

/// The error term before the first pixel.
proof fn lemma_error_start(minor: int, major: int)
    ensures
        error_term(0, 0, minor, major) == 2 * minor - major,
{
    assert((0 + 1) * minor == minor) by (nonlinear_arith);
    assert(0 * major == 0) by (nonlinear_arith);
}

/// While the error term stays in its band, the minor steps made so far are
/// those of the nearest lattice point.
proof fn lemma_error_band(i: int, k: int, e: int, minor: int, major: int)
    requires
        0 <= minor,
        0 <= major,
        e == error_term(i, k, minor, major),
        major > 0 ==> 2 * minor - 2 * major < e <= 2 * minor,
        major == 0 ==> k == 0,
    ensures
        k == minor_offset(i, minor, major),
{
    if major > 0 {
        assert((i + 1) * minor == i * minor + minor) by (nonlinear_arith);
        assert(nearest_half_down(i * minor, major, k));
        lemma_round_half_down_nearest(i * minor, major, k);
    }
}

/// One step of the walk keeps the error term in its band.
proof fn lemma_error_step(i: int, k: int, e: int, minor: int, major: int)
    requires
        0 <= minor <= major,
        e == error_term(i, k, minor, major),
        major > 0 ==> 2 * minor - 2 * major < e <= 2 * minor,
    ensures
        e > 0 ==> e + 2 * (minor - major) == error_term(i + 1, k + 1, minor, major),
        e <= 0 ==> e + 2 * minor == error_term(i + 1, k, minor, major),
        major > 0 && e > 0 ==> 2 * minor - 2 * major < e + 2 * (minor - major) <= 2 * minor,
        major > 0 && e <= 0 ==> 2 * minor - 2 * major < e + 2 * minor <= 2 * minor,
        major == 0 ==> e == 0,
{
    assert((i + 1 + 1) * minor == (i + 1) * minor + minor) by (nonlinear_arith);
    assert((k + 1) * major == k * major + major) by (nonlinear_arith);
    assert(major == 0 ==> k * major == 0 && (i + 1) * minor == 0) by (nonlinear_arith)
        requires
            0 <= minor <= major,
    ;
}

impl LinesRenderer {
    /// Bresenham's algorithm on a segment: see `bresenham_pixels`.
    pub fn render_bresenham(line: &Line, tex_width: u16, tex_height: u16) -> (pixels: Vec<Pixel>)
        requires
            line.drawable(),
        ensures
            pixels@ == bresenham_pixels(*line, tex_width, tex_height),
    {
        let xi: i32 = line.start.x;
        let yi: i32 = line.start.y;
        let xf: i32 = line.end.x;
        let yf: i32 = line.end.y;
        let dx: i64 = line.delta_x();
        let dy: i64 = line.delta_y();
        let ax: i64 = if dx < 0 { -dx } else { dx };
        let ay: i64 = if dy < 0 { -dy } else { dy };

        if ay < ax {
            if xi > xf {
                Self::bresenham_low(xf, yf, xi, yi, tex_width, tex_height)
            } else {
                Self::bresenham_low(xi, yi, xf, yf, tex_width, tex_height)
            }
        } else {
            if yi > yf {
                Self::bresenham_high(xf, yf, xi, yi, tex_width, tex_height)
            } else {
                Self::bresenham_high(xi, yi, xf, yf, tex_width, tex_height)
            }
        }
    }

    /// The walk along x, for a segment that runs rightwards and is at least
    /// as wide as tall.
    pub fn bresenham_low(
        xi: i32,
        yi: i32,
        xf: i32,
        yf: i32,
        tex_width: u16,
        tex_height: u16,
    ) -> (pixels: Vec<Pixel>)
        requires
            xi <= xf,
            magnitude(yf - yi) <= xf - xi,
            xf - xi < usize::MAX,
        ensures
            pixels@ == low_pixels(xi as int, yi as int, xf as int, yf as int, tex_width, tex_height),
    {
        let dx: i64 = xf as i64 - xi as i64;
        let dy: i64 = yf as i64 - yi as i64;
        let (dy, ys): (i64, i64) = if dy < 0 { (-dy, -1) } else { (dy, 1) };
        let count: usize = (dx + 1) as usize;
        let mut line_pixels: Vec<Pixel> = Vec::with_capacity(count);

        let mut e: i64 = (2 * dy) - dx;
        let mut y: i64 = yi as i64;
        let mut x: i64 = xi as i64;
        let ghost mut k: int = 0;
        proof {
            lemma_error_start(dy as int, dx as int);
        }

        let mut i: usize = 0;
        while i < count
            invariant
                0 <= dy <= dx < 0x1_0000_0000,
                dx == xf - xi,
                dy == magnitude(yf - yi),
                ys == (if yf < yi { -1i64 } else { 1i64 }),
                count == dx + 1,
                i <= count,
                line_pixels.len() == i,
                x == xi + i,
                0 <= k <= i,
                y == (if yf < yi { yi - k } else { yi + k }),
                e == error_term(i as int, k, dy as int, dx as int),
                dx > 0 ==> 2 * dy - 2 * dx < e <= 2 * dy,
                dx == 0 ==> k == 0,
                forall|j: int|
                    0 <= j < i ==> line_pixels@[j] == low_pixel(
                        xi as int,
                        yi as int,
                        xf as int,
                        yf as int,
                        tex_width,
                        tex_height,
                        j,
                    ),
            decreases count - i,
        {
            proof {
                lemma_error_band(i as int, k, e as int, dy as int, dx as int);
                lemma_error_step(i as int, k, e as int, dy as int, dx as int);
            }
            line_pixels.push(Pixel::place(x, y, tex_width, tex_height));

            if e > 0 {
                y = y + ys;
                e = e + (2 * (dy - dx));
                proof {
                    k = k + 1;
                }
            } else {
                e = e + 2 * dy;
            }
            x += 1;
            i += 1;
        }

        assert(line_pixels@ =~= low_pixels(
            xi as int,
            yi as int,
            xf as int,
            yf as int,
            tex_width,
            tex_height,
        ));
        line_pixels
    }

    /// The walk along y, for a segment that runs upwards and is at least as
    /// tall as wide.
    pub fn bresenham_high(
        xi: i32,
        yi: i32,
        xf: i32,
        yf: i32,
        tex_width: u16,
        tex_height: u16,
    ) -> (pixels: Vec<Pixel>)
        requires
            yi <= yf,
            magnitude(xf - xi) <= yf - yi,
            yf - yi < usize::MAX,
        ensures
            pixels@ == high_pixels(
                xi as int,
                yi as int,
                xf as int,
                yf as int,
                tex_width,
                tex_height,
            ),
    {
        let dx: i64 = xf as i64 - xi as i64;
        let dy: i64 = yf as i64 - yi as i64;
        let (dx, xs): (i64, i64) = if dx < 0 { (-dx, -1) } else { (dx, 1) };
        let count: usize = (dy + 1) as usize;
        let mut line_pixels: Vec<Pixel> = Vec::with_capacity(count);

        let mut e: i64 = (2 * dx) - dy;
        let mut y: i64 = yi as i64;
        let mut x: i64 = xi as i64;
        let ghost mut k: int = 0;
        proof {
            lemma_error_start(dx as int, dy as int);
        }

        let mut i: usize = 0;
        while i < count
            invariant
                0 <= dx <= dy < 0x1_0000_0000,
                dy == yf - yi,
                dx == magnitude(xf - xi),
                xs == (if xf < xi { -1i64 } else { 1i64 }),
                count == dy + 1,
                i <= count,
                line_pixels.len() == i,
                y == yi + i,
                0 <= k <= i,
                x == (if xf < xi { xi - k } else { xi + k }),
                e == error_term(i as int, k, dx as int, dy as int),
                dy > 0 ==> 2 * dx - 2 * dy < e <= 2 * dx,
                dy == 0 ==> k == 0,
                forall|j: int|
                    0 <= j < i ==> line_pixels@[j] == high_pixel(
                        xi as int,
                        yi as int,
                        xf as int,
                        yf as int,
                        tex_width,
                        tex_height,
                        j,
                    ),
            decreases count - i,
        {
            proof {
                lemma_error_band(i as int, k, e as int, dx as int, dy as int);
                lemma_error_step(i as int, k, e as int, dx as int, dy as int);
            }
            line_pixels.push(Pixel::place(x, y, tex_width, tex_height));

            if e > 0 {
                x = x + xs;
                e = e + (2 * (dx - dy));
                proof {
                    k = k + 1;
                }
            } else {
                e = e + 2 * dx;
            }
            y += 1;
            i += 1;
        }

        assert(line_pixels@ =~= high_pixels(
            xi as int,
            yi as int,
            xf as int,
            yf as int,
            tex_width,
            tex_height,
        ));
        line_pixels
    }
}

} // verus!
