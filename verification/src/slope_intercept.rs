//! The slope-intercept form of a segment, and the rasterizer that evaluates
//! it once for each step along the longer axis.

use vstd::prelude::*;
use crate::line::Line;
use crate::line::LineKind;
use crate::line::Point;
use crate::lines_renderer::LinesRenderer;
use crate::nearest::lemma_lerp_between;
use crate::nearest::lerp_round;
use crate::nearest::round_div;
use crate::nearest::round_half_away;
use crate::pixel::Pixel;

verus! {

/// The line through a segment, as an exact fraction: with `t` the coordinate
/// along the longer axis, the other coordinate is `(rise * t + offset) / run`.
/// The slope is `rise / run` and the intercept `offset / run`. For a
/// `Moderate` segment `t` is x, for a `Steep` one it is y.
#[derive(Clone, Copy, Debug, PartialEq, Eq, Structural)]
pub struct LineEquation {
    pub kind: LineKind,
    pub rise: i64,
    pub run: i64,
    pub offset: i128,
}

/// The two ends of a segment, the one with the smaller x first; the start
/// first where they have the same x.
pub open spec fn x_ordered(line: Line) -> (Point, Point) {
    if line.start.x > line.end.x {
        (line.end, line.start)
    } else {
        (line.start, line.end)
    }
}

/// The two ends of a segment, the one with the smaller y first; the start
/// first where they have the same y.
pub open spec fn y_ordered(line: Line) -> (Point, Point) {
    if line.start.y > line.end.y {
        (line.end, line.start)
    } else {
        (line.start, line.end)
    }
}

/// The equation of the line through a segment that is not a single point.
/// The slope and the intercept are taken along the longer axis.
pub open spec fn equation_of(line: Line) -> LineEquation {
    match line.spec_kind() {
        LineKind::Moderate => LineEquation {
            kind: LineKind::Moderate,
            rise: line.dy() as i64,
            run: line.dx() as i64,
            offset: (line.start.y * line.dx() - line.dy() * line.start.x) as i128,
        },
        LineKind::Steep => LineEquation {
            kind: LineKind::Steep,
            rise: line.dx() as i64,
            run: line.dy() as i64,
            offset: (line.start.x * line.dy() - line.dx() * line.start.y) as i128,
        },
    }
}

/// Pixel `i` of a `Moderate` segment: `i` steps to the right of its left end,
/// at the height of the segment there, rounded to the nearest integer, ties
/// away from zero.
pub open spec fn moderate_pixel(line: Line, width: u16, height: u16, i: int) -> Pixel {
    let (a, b) = x_ordered(line);
    Pixel::of(a.x + i, lerp_round(a.y as int, b.y - a.y, i, b.x - a.x), width, height)
}

/// Pixel `i` of a `Steep` segment: `i` steps above its lower end, at the
/// abscissa of the segment there, rounded to the nearest integer, ties away
/// from zero.
pub open spec fn steep_pixel(line: Line, width: u16, height: u16, i: int) -> Pixel {
    let (a, b) = y_ordered(line);
    Pixel::of(lerp_round(a.x as int, b.x - a.x, i, b.y - a.y), a.y + i, width, height)
}

/// What the slope-intercept rasterizer draws for a segment: one pixel for
/// each integer along the longer axis, from the smaller end to the larger. A
/// segment of length zero gives its one pixel.
pub open spec fn slope_intercept_pixels(line: Line, width: u16, height: u16) -> Seq<Pixel> {
    match line.spec_kind() {
        LineKind::Moderate => Seq::new(
            (line.span() + 1) as nat,
            |i: int| moderate_pixel(line, width, height, i),
        ),
        LineKind::Steep => Seq::new(
            (line.span() + 1) as nat,
            |i: int| steep_pixel(line, width, height, i),
        ),
    }
}

impl LineEquation {
    /// The equation has a slope: `run` is not zero, and the numbers are as
    /// small as those of a segment between two lattice points.
    pub open spec fn wf(self) -> bool {
        &&& self.run != 0
        &&& -0x1_0000_0000 < self.rise < 0x1_0000_0000
        &&& -0x1_0000_0000 < self.run < 0x1_0000_0000
        &&& -0x1_0000_0000_0000_0000 <= self.offset <= 0x1_0000_0000_0000_0000
    }

    /// The value `(rise * t + offset) / run`, rounded to the nearest integer,
    /// ties away from zero.
    pub open spec fn spec_value_at(self, t: int) -> int {
        if self.run > 0 {
            round_half_away(self.rise * t + self.offset, self.run as int)
        } else {
            round_half_away(-(self.rise * t + self.offset), -self.run)
        }
    }

    /// Evaluates the equation at `t` and rounds.
    pub fn value_at(&self, t: i64) -> (v: i128)
        requires
            self.wf(),
        ensures
            v == self.spec_value_at(t as int),
    {
        assert(-0x1_0000_0000 * 0x8000_0000_0000_0000 <= self.rise * t <= 0x1_0000_0000
            * 0x8000_0000_0000_0000) by (nonlinear_arith)
            requires
                -0x1_0000_0000 < self.rise < 0x1_0000_0000,
                -0x8000_0000_0000_0000 <= t <= 0x8000_0000_0000_0000,
        ;
        let num: i128 = self.rise as i128 * t as i128 + self.offset;
        if self.run > 0 {
            round_div(num, self.run as i128)
        } else {
            round_div(-num, -(self.run as i128))
        }
    }
}

/// The equation of a segment is well formed, and both ends of the segment
/// lie on it.
pub proof fn lemma_equation_through_ends(line: Line)
    requires
        !line.is_point(),
    ensures
        equation_of(line).wf(),
        equation_of(line).kind == line.spec_kind(),
        line.spec_kind() == LineKind::Moderate ==> {
            &&& equation_of(line).rise == line.dy()
            &&& equation_of(line).run == line.dx()
            &&& equation_of(line).offset == line.start.y * line.dx() - line.dy() * line.start.x
            &&& line.start.y * equation_of(line).run == equation_of(line).rise * line.start.x
                + equation_of(line).offset
            &&& line.end.y * equation_of(line).run == equation_of(line).rise * line.end.x
                + equation_of(line).offset
        },
        line.spec_kind() == LineKind::Steep ==> {
            &&& equation_of(line).rise == line.dx()
            &&& equation_of(line).run == line.dy()
            &&& equation_of(line).offset == line.start.x * line.dy() - line.dx() * line.start.y
            &&& line.start.x * equation_of(line).run == equation_of(line).rise * line.start.y
                + equation_of(line).offset
            &&& line.end.x * equation_of(line).run == equation_of(line).rise * line.end.y
                + equation_of(line).offset
        },
{
    let (x0, y0) = (line.start.x as int, line.start.y as int);
    let (x1, y1) = (line.end.x as int, line.end.y as int);
    let (dx, dy) = (line.dx(), line.dy());
    lemma_offset_bounds(y0, dx, dy, x0);
    lemma_offset_bounds(x0, dy, dx, y0);
    assert(y1 * dx == dy * x1 + (y0 * dx - dy * x0)) by (nonlinear_arith)
        requires
            dx == x1 - x0,
            dy == y1 - y0,
    ;
    assert(x1 * dy == dx * y1 + (x0 * dy - dx * y0)) by (nonlinear_arith)
        requires
            dx == x1 - x0,
            dy == y1 - y0,
    ;
}

/// The numerator of an intercept fits the field that holds it.
proof fn lemma_offset_bounds(a: int, d: int, e: int, b: int)
    requires
        -0x8000_0000 <= a < 0x8000_0000,
        -0x8000_0000 <= b < 0x8000_0000,
        -0x1_0000_0000 < d < 0x1_0000_0000,
        -0x1_0000_0000 < e < 0x1_0000_0000,
    ensures
        -0x8000_0000_0000_0000 <= a * d <= 0x8000_0000_0000_0000,
        -0x8000_0000_0000_0000 <= e * b <= 0x8000_0000_0000_0000,
        -0x1_0000_0000_0000_0000 <= a * d - e * b <= 0x1_0000_0000_0000_0000,
{
    assert(-0x8000_0000 * 0x1_0000_0000 <= a * d <= 0x8000_0000 * 0x1_0000_0000)
        by (nonlinear_arith)
        requires
            -0x8000_0000 <= a < 0x8000_0000,
            -0x1_0000_0000 < d < 0x1_0000_0000,
    ;
    assert(-0x8000_0000 * 0x1_0000_0000 <= e * b <= 0x8000_0000 * 0x1_0000_0000)
        by (nonlinear_arith)
        requires
            -0x8000_0000 <= b < 0x8000_0000,
            -0x1_0000_0000 < e < 0x1_0000_0000,
    ;
}

/// Evaluating the equation of a segment `i` steps after the smaller end is
/// the interpolation between the two ends.
proof fn lemma_value_is_lerp(line: Line, i: int)
    requires
        !line.is_point(),
    ensures
        line.spec_kind() == LineKind::Moderate ==> equation_of(line).spec_value_at(
            x_ordered(line).0.x + i,
        ) == lerp_round(
            x_ordered(line).0.y as int,
            x_ordered(line).1.y - x_ordered(line).0.y,
            i,
            x_ordered(line).1.x - x_ordered(line).0.x,
        ),
        line.spec_kind() == LineKind::Steep ==> equation_of(line).spec_value_at(
            y_ordered(line).0.y + i,
        ) == lerp_round(
            y_ordered(line).0.x as int,
            y_ordered(line).1.x - y_ordered(line).0.x,
            i,
            y_ordered(line).1.y - y_ordered(line).0.y,
        ),
{
    lemma_equation_through_ends(line);
    let (x0, y0) = (line.start.x as int, line.start.y as int);
    let (x1, y1) = (line.end.x as int, line.end.y as int);
    let (dx, dy) = (line.dx(), line.dy());
    if line.spec_kind() == LineKind::Moderate {
        if x0 > x1 {
            assert(-(dy * (x1 + i) + (y0 * dx - dy * x0)) == y1 * (x0 - x1) + (y0 - y1) * i)
                by (nonlinear_arith)
                requires
                    dx == x1 - x0,
                    dy == y1 - y0,
            ;
        } else {
            assert(dy * (x0 + i) + (y0 * dx - dy * x0) == y0 * (x1 - x0) + (y1 - y0) * i)
                by (nonlinear_arith)
                requires
                    dx == x1 - x0,
                    dy == y1 - y0,
            ;
        }
    } else {
        if y0 > y1 {
            assert(-(dx * (y1 + i) + (x0 * dy - dx * y0)) == x1 * (y0 - y1) + (x0 - x1) * i)
                by (nonlinear_arith)
                requires
                    dx == x1 - x0,
                    dy == y1 - y0,
            ;
        } else {
            assert(dx * (y0 + i) + (x0 * dy - dx * y0) == x0 * (y1 - y0) + (x1 - x0) * i)
                by (nonlinear_arith)
                requires
                    dx == x1 - x0,
                    dy == y1 - y0,
            ;
        }
    }
}

impl LinesRenderer {
    /// The slope-intercept rasterizer on a segment: see
    /// `slope_intercept_pixels`.
    pub fn render_slope_intercept(line: &Line, tex_width: u16, tex_height: u16) -> (pixels: Vec<
        Pixel,
    >)
        requires
            line.drawable(),
        ensures
            pixels@ == slope_intercept_pixels(*line, tex_width, tex_height),
    {
        let equation: LineEquation = match Self::comput_m_b(line) {
            Some(equation) => equation,
            None => {
                let only: Pixel = Pixel::place(
                    line.start.x as i64,
                    line.start.y as i64,
                    tex_width,
                    tex_height,
                );
                let line_pixels: Vec<Pixel> = vec![only];
                assert(line_pixels@ =~= slope_intercept_pixels(*line, tex_width, tex_height));
                return line_pixels;
            },
        };
        proof {
            lemma_equation_through_ends(*line);
        }
        let mut line_pixels: Vec<Pixel>;

        match equation.kind {
            LineKind::Moderate => {
                let (start, end) = Self::x_order_line_ends(line);
                let pixels_count: usize = (end.x as i64 - start.x as i64 + 1) as usize;
                line_pixels = Vec::with_capacity(pixels_count);

                let mut i: usize = 0;
                while i < pixels_count
                    invariant
                        line.drawable(),
                        !line.is_point(),
                        line.spec_kind() == LineKind::Moderate,
                        equation == equation_of(*line),
                        equation.wf(),
                        (*start, *end) == x_ordered(*line),
                        pixels_count == line.span() + 1,
                        i <= pixels_count,
                        line_pixels.len() == i,
                        forall|j: int|
                            0 <= j < i ==> line_pixels@[j] == moderate_pixel(
                                *line,
                                tex_width,
                                tex_height,
                                j,
                            ),
                    decreases pixels_count - i,
                {
                    proof {
                        lemma_value_is_lerp(*line, i as int);
                        lemma_lerp_between(
                            start.y as int,
                            end.y - start.y,
                            i as int,
                            end.x - start.x,
                        );
                    }
                    let x: i64 = i as i64 + start.x as i64;
                    let y: i128 = equation.value_at(x);
                    line_pixels.push(Pixel::place(x, y as i64, tex_width, tex_height));
                    i += 1;
                }
            },
            LineKind::Steep => {
                let (start, end) = Self::y_order_line_ends(line);
                let pixels_count: usize = (end.y as i64 - start.y as i64 + 1) as usize;
                line_pixels = Vec::with_capacity(pixels_count);

                let mut i: usize = 0;
                while i < pixels_count
                    invariant
                        line.drawable(),
                        !line.is_point(),
                        line.spec_kind() == LineKind::Steep,
                        equation == equation_of(*line),
                        equation.wf(),
                        (*start, *end) == y_ordered(*line),
                        pixels_count == line.span() + 1,
                        i <= pixels_count,
                        line_pixels.len() == i,
                        forall|j: int|
                            0 <= j < i ==> line_pixels@[j] == steep_pixel(
                                *line,
                                tex_width,
                                tex_height,
                                j,
                            ),
                    decreases pixels_count - i,
                {
                    proof {
                        lemma_value_is_lerp(*line, i as int);
                        lemma_lerp_between(
                            start.x as int,
                            end.x - start.x,
                            i as int,
                            end.y - start.y,
                        );
                    }
                    let y: i64 = i as i64 + start.y as i64;
                    let x: i128 = equation.value_at(y);
                    line_pixels.push(Pixel::place(x as i64, y, tex_width, tex_height));
                    i += 1;
                }
            },
        }

        assert(line_pixels@ =~= slope_intercept_pixels(*line, tex_width, tex_height));
        line_pixels
    }

    /// The slope, the intercept and the classification of a segment. A
    /// segment of length zero has no slope: the answer is `None` for it, and
    /// for no other.
    pub fn comput_m_b(line: &Line) -> (equation: Option<LineEquation>)
        ensures
            equation == (if line.is_point() {
                None
            } else {
                Some(equation_of(*line))
            }),
    {
        let dx: i64 = line.delta_x();
        let dy: i64 = line.delta_y();
        if dx == 0 && dy == 0 {
            return None;
        }
        proof {
            lemma_equation_through_ends(*line);
            lemma_offset_bounds(line.start.y as int, dx as int, dy as int, line.start.x as int);
            lemma_offset_bounds(line.start.x as int, dy as int, dx as int, line.start.y as int);
        }
        match line.kind() {
            LineKind::Moderate => Some(
                LineEquation {
                    kind: LineKind::Moderate,
                    rise: dy,
                    run: dx,
                    offset: line.start.y as i128 * dx as i128 - dy as i128 * line.start.x as i128,
                },
            ),
            LineKind::Steep => Some(
                LineEquation {
                    kind: LineKind::Steep,
                    rise: dx,
                    run: dy,
                    offset: line.start.x as i128 * dy as i128 - dx as i128 * line.start.y as i128,
                },
            ),
        }
    }

    /// The two ends of a segment, the left one first.
    pub fn x_order_line_ends(line: &Line) -> (ends: (&Point, &Point))
        ensures
            (*ends.0, *ends.1) == x_ordered(*line),
    {
        if line.start.x > line.end.x {
            (&line.end, &line.start)
        } else {
            (&line.start, &line.end)
        }
    }

    /// The two ends of a segment, the lower one first.
    pub fn y_order_line_ends(line: &Line) -> (ends: (&Point, &Point))
        ensures
            (*ends.0, *ends.1) == y_ordered(*line),
    {
        if line.start.y > line.end.y {
            (&line.end, &line.start)
        } else {
            (&line.start, &line.end)
        }
    }
}

} // verus!
