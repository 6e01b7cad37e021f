//! What holds of the rasterizers and of the canvas, for every segment.

use vstd::prelude::*;
use crate::bresenham::bresenham_pixels;
use crate::bresenham::minor_offset;
use crate::common::ColorU8;
use crate::dda::dda_pixels;
use crate::gpu::DrawCommand;
use crate::gpu::draw_of;
use crate::gpu::gpu_pass;
use crate::line::Line;
use crate::line::LineKind;
use crate::line::magnitude;
use crate::lines_renderer::LineAlgorithem;
use crate::lines_renderer::canvas_of;
use crate::lines_renderer::lemma_index_of_pixel;
use crate::lines_renderer::raster;
use crate::lines_renderer::touched;
use crate::nearest::lemma_lerp_ends;
use crate::nearest::lemma_round_half_down_nearest;
use crate::pixel::Pixel;
use crate::slope_intercept::equation_of;
use crate::slope_intercept::slope_intercept_pixels;

verus! {

/// The pixel of the start of a segment.
pub open spec fn start_pixel(line: Line, width: u16, height: u16) -> Pixel {
    Pixel::of(line.start.x as int, line.start.y as int, width, height)
}

/// The pixel of the end of a segment.
pub open spec fn end_pixel(line: Line, width: u16, height: u16) -> Pixel {
    Pixel::of(line.end.x as int, line.end.y as int, width, height)
}

/// Bresenham's walk makes no minor step before its first pixel, and has made
/// all of them at its last.
proof fn lemma_minor_offset_ends(minor: int, major: int)
    requires
        magnitude(minor) <= major,
    ensures
        minor_offset(0, minor, major) == 0,
        minor_offset(major, minor, major) == magnitude(minor),
{
    let m = magnitude(minor);
    if major > 0 {
        assert(0 * m == 0) by (nonlinear_arith);
        assert(0 * major == 0) by (nonlinear_arith);
        lemma_round_half_down_nearest(0, major, 0);
        assert(major * m == m * major) by (nonlinear_arith);
        lemma_round_half_down_nearest(major * m, major, m);
    }
}

/// Bresenham's algorithm and the slope-intercept rasterizer draw the two
/// ends of a segment as their first and their last pixel: the start first, or
/// the end first where the walk was turned round.
proof fn lemma_ends_are_first_and_last(
    algorithem: LineAlgorithem,
    line: Line,
    width: u16,
    height: u16,
)
    requires
        algorithem == LineAlgorithem::SlopeIntercept || algorithem == LineAlgorithem::Bresenham,
    ensures
        raster(algorithem, line, width, height).len() == line.span() + 1,
        ({
            &&& raster(algorithem, line, width, height).first() == start_pixel(line, width, height)
            &&& raster(algorithem, line, width, height).last() == end_pixel(line, width, height)
        }) || ({
            &&& raster(algorithem, line, width, height).first() == end_pixel(line, width, height)
            &&& raster(algorithem, line, width, height).last() == start_pixel(line, width, height)
        }),
{
    let (dx, dy) = (line.dx(), line.dy());
    if algorithem == LineAlgorithem::Bresenham {
        if magnitude(dy) < magnitude(dx) {
            lemma_minor_offset_ends(dy, magnitude(dx));
            lemma_minor_offset_ends(-dy, magnitude(dx));
        } else {
            lemma_minor_offset_ends(dx, magnitude(dy));
            lemma_minor_offset_ends(-dx, magnitude(dy));
        }
    } else {
        lemma_lerp_ends(line.start.y as int, dy, magnitude(dx));
        lemma_lerp_ends(line.end.y as int, -dy, magnitude(dx));
        lemma_lerp_ends(line.start.x as int, dx, magnitude(dy));
        lemma_lerp_ends(line.end.x as int, -dx, magnitude(dy));
    }
}

/// Every rasterizer draws the pixel of the start of a segment: it is the
/// first pixel, or the last where the walk was turned round.
pub proof fn law_start_is_drawn(
    algorithem: LineAlgorithem,
    line: Line,
    width: u16,
    height: u16,
)
    requires
        algorithem.on_cpu(),
    ensures
        raster(algorithem, line, width, height).contains(start_pixel(line, width, height)),
        algorithem == LineAlgorithem::DDA ==> raster(algorithem, line, width, height).first()
            == start_pixel(line, width, height),
{
    let pixels = raster(algorithem, line, width, height);
    let target = start_pixel(line, width, height);
    if algorithem == LineAlgorithem::DDA {
        lemma_lerp_ends(line.start.x as int, line.dx(), line.span());
        lemma_lerp_ends(line.start.y as int, line.dy(), line.span());
        assert(pixels[0] == target);
    } else {
        lemma_ends_are_first_and_last(algorithem, line, width, height);
        assert(pixels[0] == target || pixels[pixels.len() - 1] == target);
    }
}

/// The slope-intercept rasterizer and Bresenham's algorithm draw the pixel of
/// the end of a segment. The analyzer stops one step short of it, and draws
/// it only for a segment of length zero.
pub proof fn law_end_is_drawn(algorithem: LineAlgorithem, line: Line, width: u16, height: u16)
    requires
        algorithem == LineAlgorithem::SlopeIntercept || algorithem == LineAlgorithem::Bresenham
            || (algorithem == LineAlgorithem::DDA && line.is_point()),
    ensures
        raster(algorithem, line, width, height).contains(end_pixel(line, width, height)),
{
    let pixels = raster(algorithem, line, width, height);
    let target = end_pixel(line, width, height);
    if algorithem == LineAlgorithem::DDA {
        law_start_is_drawn(algorithem, line, width, height);
    } else {
        lemma_ends_are_first_and_last(algorithem, line, width, height);
        assert(pixels[0] == target || pixels[pixels.len() - 1] == target);
    }
}

/// The slope-intercept rasterizer moves one step along the longer axis from
/// each pixel to the next: along x for a `Moderate` segment, along y for a
/// `Steep` one.
pub proof fn law_slope_intercept_steps_by_one(line: Line, width: u16, height: u16, i: int)
    requires
        0 <= i,
        i + 1 < slope_intercept_pixels(line, width, height).len(),
    ensures
        line.spec_kind() == LineKind::Moderate ==> slope_intercept_pixels(line, width, height)[i
            + 1].x == slope_intercept_pixels(line, width, height)[i].x + 1,
        line.spec_kind() == LineKind::Steep ==> slope_intercept_pixels(line, width, height)[i
            + 1].y == slope_intercept_pixels(line, width, height)[i].y + 1,
{
}

/// Bresenham's algorithm moves one step along its major axis from each pixel
/// to the next: along x for a segment that is wider than tall, along y for
/// any other.
pub proof fn law_bresenham_steps_by_one(line: Line, width: u16, height: u16, i: int)
    requires
        0 <= i,
        i + 1 < bresenham_pixels(line, width, height).len(),
    ensures
        magnitude(line.dy()) < magnitude(line.dx()) ==> bresenham_pixels(line, width, height)[i
            + 1].x == bresenham_pixels(line, width, height)[i].x + 1,
        magnitude(line.dy()) >= magnitude(line.dx()) ==> bresenham_pixels(line, width, height)[i
            + 1].y == bresenham_pixels(line, width, height)[i].y + 1,
{
}

/// A segment that is as wide as it is tall is `Moderate`, and so is the
/// equation of the line through it.
pub proof fn law_tie_is_moderate(line: Line)
    requires
        magnitude(line.dx()) == magnitude(line.dy()),
    ensures
        line.spec_kind() == LineKind::Moderate,
        equation_of(line).kind == LineKind::Moderate,
{
}

/// The canvas holds one colour for each position. A position is white where
/// some segment has a pixel there, whatever else the segment has off the
/// canvas, and the background where none has.
pub proof fn law_canvas_shows_what_is_on_it(
    lines: Seq<Line>,
    algorithem: LineAlgorithem,
    width: u16,
    height: u16,
    pixel: Pixel,
)
    requires
        pixel.on_canvas(width, height),
    ensures
        canvas_of(lines, algorithem, width, height).len() == width * height,
        0 <= pixel.y * width + pixel.x < width * height,
        canvas_of(lines, algorithem, width, height)[pixel.y * width + pixel.x] == (if touched(
            lines,
            algorithem,
            width,
            height,
            pixel,
        ) {
            ColorU8::ink()
        } else {
            ColorU8::background()
        }),
{
    lemma_index_of_pixel(pixel, width, height);
}

/// How many pixels each rasterizer draws: one for each integer along the
/// longer axis, both ends counted; the analyzer one fewer, and one for a
/// segment of length zero.
pub proof fn law_pixel_counts(line: Line, width: u16, height: u16)
    ensures
        bresenham_pixels(line, width, height).len() == line.span() + 1,
        slope_intercept_pixels(line, width, height).len() == line.span() + 1,
        line.is_point() ==> dda_pixels(line, width, height).len() == 1,
        !line.is_point() ==> dda_pixels(line, width, height).len() == line.span(),
{
}

/// Bresenham's algorithm and the slope-intercept rasterizer order the ends
/// of a segment before they walk it: a segment and the same segment turned
/// round give the same pixels in the same order.
pub proof fn law_direction_is_ignored(line: Line, width: u16, height: u16)
    ensures
        bresenham_pixels(Line { start: line.end, end: line.start }, width, height)
            == bresenham_pixels(line, width, height),
        slope_intercept_pixels(Line { start: line.end, end: line.start }, width, height)
            == slope_intercept_pixels(line, width, height),
{
    let turned = Line { start: line.end, end: line.start };
    assert(bresenham_pixels(turned, width, height) =~= bresenham_pixels(line, width, height));
    assert(slope_intercept_pixels(turned, width, height) =~= slope_intercept_pixels(
        line,
        width,
        height,
    ));
}

/// An end of a segment that lies on the canvas is white on it, wherever the
/// rest of the segment lies: the start under every rasterizer of the
/// processor, the end under Bresenham's algorithm and the slope-intercept
/// rasterizer.
pub proof fn law_ends_on_canvas_are_white(
    lines: Seq<Line>,
    k: int,
    algorithem: LineAlgorithem,
    width: u16,
    height: u16,
)
    requires
        0 <= k < lines.len(),
        algorithem.on_cpu(),
    ensures
        start_pixel(lines[k], width, height).on_canvas(width, height) ==> canvas_of(
            lines,
            algorithem,
            width,
            height,
        )[start_pixel(lines[k], width, height).y * width + start_pixel(lines[k], width, height).x]
            == ColorU8::ink(),
        algorithem != LineAlgorithem::DDA && end_pixel(lines[k], width, height).on_canvas(
            width,
            height,
        ) ==> canvas_of(lines, algorithem, width, height)[end_pixel(lines[k], width, height).y
            * width + end_pixel(lines[k], width, height).x] == ColorU8::ink(),
{
    let first = start_pixel(lines[k], width, height);
    let last = end_pixel(lines[k], width, height);
    law_start_is_drawn(algorithem, lines[k], width, height);
    assert(raster(algorithem, lines[k], width, height).contains(first));
    if first.on_canvas(width, height) {
        law_canvas_shows_what_is_on_it(lines, algorithem, width, height, first);
    }
    if algorithem != LineAlgorithem::DDA {
        law_end_is_drawn(algorithem, lines[k], width, height);
        assert(raster(algorithem, lines[k], width, height).contains(last));
        if last.on_canvas(width, height) {
            law_canvas_shows_what_is_on_it(lines, algorithem, width, height, last);
        }
    }
}

/// One pass on the graphics processor has one draw for each segment, a
/// segment of length zero too. It clears the canvas, binds it, draws segment
/// `i` at place `i` of the draws, from that segment alone, and releases the
/// canvas last.
pub proof fn law_pass_draws_each_segment_once(back_color: ColorU8, lines: Seq<Line>, i: int)
    requires
        0 <= i < lines.len(),
    ensures
        gpu_pass(back_color, lines).len() == lines.len() + 3,
        gpu_pass(back_color, lines)[0] == DrawCommand::ClearCanvas(back_color),
        gpu_pass(back_color, lines)[1] == DrawCommand::BindCanvas,
        gpu_pass(back_color, lines)[i + 2] == draw_of(lines[i]),
        gpu_pass(back_color, lines).last() == DrawCommand::UnbindCanvas,
        draw_of(lines[i]) == (if lines[i].is_point() {
            DrawCommand::DrawPoint(lines[i].start)
        } else {
            DrawCommand::DrawLine(equation_of(lines[i]))
        }),
{
}

/// A pass for no segment clears the canvas, binds it and releases it.
pub proof fn law_empty_pass(back_color: ColorU8)
    ensures
        gpu_pass(back_color, Seq::empty()) == seq![
            DrawCommand::ClearCanvas(back_color),
            DrawCommand::BindCanvas,
            DrawCommand::UnbindCanvas,
        ],
{
    assert(gpu_pass(back_color, Seq::empty()) =~= seq![
        DrawCommand::ClearCanvas(back_color),
        DrawCommand::BindCanvas,
        DrawCommand::UnbindCanvas,
    ]);
}

} // verus!
