//! The three rasterizers of the processor draw the same pixels for a segment
//! that runs along an axis or along a diagonal.

use vstd::prelude::*;
use crate::bresenham::bresenham_pixels;
use crate::lines_renderer::LineAlgorithem;
use crate::lines_renderer::canvas_of;
use crate::lines_renderer::raster;
use crate::lines_renderer::touched;
use crate::lines_renderer::cell;
use crate::bresenham::minor_offset;
use crate::dda::dda_pixels;
use crate::laws::end_pixel;
use crate::line::Line;
use crate::line::LineKind;
use crate::line::magnitude;
use crate::nearest::lemma_lerp_whole_steps;
use crate::nearest::lemma_round_half_down_nearest;
use crate::nearest::lerp_round;
use crate::pixel::Pixel;
use crate::slope_intercept::slope_intercept_pixels;

verus! {

/// A segment that runs along an axis or along a diagonal: every lattice step
/// along it changes each coordinate by one or by nothing.
pub open spec fn is_straight(line: Line) -> bool {
    line.dx() == 0 || line.dy() == 0 || magnitude(line.dx()) == magnitude(line.dy())
}

/// The coordinate reached from `v0` by `i` unit steps in the direction of
/// `d`.
pub open spec fn stepped(v0: int, d: int, i: int) -> int {
    if d < 0 {
        v0 - i
    } else if d > 0 {
        v0 + i
    } else {
        v0
    }
}

/// The pixel reached from the start of a segment by `i` lattice steps towards
/// its end.
pub open spec fn walk_pixel(line: Line, width: u16, height: u16, i: int) -> Pixel {
    Pixel::of(
        stepped(line.start.x as int, line.dx(), i),
        stepped(line.start.y as int, line.dy(), i),
        width,
        height,
    )
}

/// The pixels of the lattice walk from the start of a segment to its end,
/// both included.
pub open spec fn walk_set(line: Line, width: u16, height: u16) -> Set<Pixel> {
    Set::new(
        |pixel: Pixel|
            exists|i: int|
                0 <= i <= line.span() && #[trigger] walk_pixel(line, width, height, i) == pixel,
    )
}

/// On a straight segment Bresenham's walk moves along its minor axis at
/// every step or at none.
pub proof fn lemma_minor_offset_straight(i: int, minor: int, major: int)
    requires
        0 <= major,
        minor == 0 || magnitude(minor) == major,
    ensures
        minor_offset(i, minor, major) == (if minor == 0 {
            0
        } else {
            i
        }),
{
    if major > 0 {
        if minor == 0 {
            assert(i * 0 == 0) by (nonlinear_arith);
            assert(0 * major == 0) by (nonlinear_arith);
            lemma_round_half_down_nearest(0, major, 0);
        } else {
            lemma_round_half_down_nearest(i * major, major, i);
        }
    }
}

/// On a straight segment an interpolation moves by a whole step each time.
pub proof fn lemma_lerp_straight(v0: int, dv: int, i: int, n: int)
    requires
        0 <= n,
        dv == 0 || magnitude(dv) == n,
    ensures
        lerp_round(v0, dv, i, n) == stepped(v0, dv, i),
{
    if n > 0 {
        if dv == 0 {
            assert(0 * n == 0) by (nonlinear_arith);
            assert(0 * i == 0) by (nonlinear_arith);
            lemma_lerp_whole_steps(v0, 0, i, n);
        } else if dv > 0 {
            assert(1 * n == n) by (nonlinear_arith);
            assert(1 * i == i) by (nonlinear_arith);
            lemma_lerp_whole_steps(v0, 1, i, n);
        } else {
            assert((-1) * n == -n) by (nonlinear_arith);
            assert((-1) * i == -i) by (nonlinear_arith);
            lemma_lerp_whole_steps(v0, -1, i, n);
        }
    }
}

/// A list that holds the pixels of the walk, from the start on or from the
/// end on, holds the set of the walk.
proof fn lemma_walk_covers(pixels: Seq<Pixel>, line: Line, width: u16, height: u16, turned: bool)
    requires
        pixels.len() == line.span() + 1,
        forall|i: int|
            0 <= i < pixels.len() ==> #[trigger] pixels[i] == walk_pixel(
                line,
                width,
                height,
                if turned {
                    line.span() - i
                } else {
                    i
                },
            ),
    ensures
        pixels.to_set() == walk_set(line, width, height),
{
    let n = line.span();
    assert forall|pixel: Pixel| pixels.to_set().contains(pixel) <==> walk_set(
        line,
        width,
        height,
    ).contains(pixel) by {
        if pixels.contains(pixel) {
            let j = choose|j: int| 0 <= j < pixels.len() && pixels[j] == pixel;
            let i = if turned { n - j } else { j };
            assert(0 <= i <= n && walk_pixel(line, width, height, i) == pixel);
        }
        if walk_set(line, width, height).contains(pixel) {
            let i = choose|i: int|
                0 <= i <= n && #[trigger] walk_pixel(line, width, height, i) == pixel;
            let j = if turned { n - i } else { i };
            assert(pixels[j] == pixel);
        }
    }
    assert(pixels.to_set() =~= walk_set(line, width, height));
}

/// On a straight segment Bresenham's algorithm draws the lattice walk.
proof fn lemma_bresenham_is_walk(line: Line, width: u16, height: u16)
    requires
        is_straight(line),
    ensures
        bresenham_pixels(line, width, height).to_set() == walk_set(line, width, height),
{
    let pixels = bresenham_pixels(line, width, height);
    let n = line.span();
    let (dx, dy) = (line.dx(), line.dy());
    let turned = if magnitude(dy) < magnitude(dx) {
        line.start.x > line.end.x
    } else {
        line.start.y > line.end.y
    };
    assert forall|i: int| 0 <= i < pixels.len() implies #[trigger] pixels[i] == walk_pixel(
        line,
        width,
        height,
        if turned {
            n - i
        } else {
            i
        },
    ) by {
        if magnitude(dy) < magnitude(dx) {
            lemma_minor_offset_straight(i, dy, n);
            lemma_minor_offset_straight(i, -dy, n);
        } else {
            lemma_minor_offset_straight(i, dx, n);
            lemma_minor_offset_straight(i, -dx, n);
        }
    }
    lemma_walk_covers(pixels, line, width, height, turned);
}

/// On a straight segment the slope-intercept rasterizer draws the lattice
/// walk.
proof fn lemma_slope_intercept_is_walk(line: Line, width: u16, height: u16)
    requires
        is_straight(line),
    ensures
        slope_intercept_pixels(line, width, height).to_set() == walk_set(line, width, height),
{
    let pixels = slope_intercept_pixels(line, width, height);
    let n = line.span();
    let (dx, dy) = (line.dx(), line.dy());
    let turned = if line.spec_kind() == LineKind::Moderate {
        line.start.x > line.end.x
    } else {
        line.start.y > line.end.y
    };
    assert forall|i: int| 0 <= i < pixels.len() implies #[trigger] pixels[i] == walk_pixel(
        line,
        width,
        height,
        if turned {
            n - i
        } else {
            i
        },
    ) by {
        if line.spec_kind() == LineKind::Moderate {
            lemma_lerp_straight(line.start.y as int, dy, i, n);
            lemma_lerp_straight(line.end.y as int, -dy, i, n);
        } else {
            lemma_lerp_straight(line.start.x as int, dx, i, n);
            lemma_lerp_straight(line.end.x as int, -dx, i, n);
        }
    }
    lemma_walk_covers(pixels, line, width, height, turned);
}

/// On a straight segment the analyzer draws the lattice walk but for its
/// last pixel, the end of the segment.
proof fn lemma_dda_is_walk(line: Line, width: u16, height: u16)
    requires
        is_straight(line),
    ensures
        dda_pixels(line, width, height).to_set().insert(end_pixel(line, width, height))
            == walk_set(line, width, height),
{
    let pixels = dda_pixels(line, width, height);
    let n = line.span();
    let (dx, dy) = (line.dx(), line.dy());
    let end = end_pixel(line, width, height);
    assert(walk_pixel(line, width, height, n) == end);
    assert forall|i: int| 0 <= i < pixels.len() implies #[trigger] pixels[i] == walk_pixel(
        line,
        width,
        height,
        i,
    ) by {
        lemma_lerp_straight(line.start.x as int, dx, i, n);
        lemma_lerp_straight(line.start.y as int, dy, i, n);
    }
    assert forall|pixel: Pixel| pixels.to_set().insert(end).contains(pixel) <==> walk_set(
        line,
        width,
        height,
    ).contains(pixel) by {
        if pixels.contains(pixel) {
            let j = choose|j: int| 0 <= j < pixels.len() && pixels[j] == pixel;
            assert(0 <= j <= n && walk_pixel(line, width, height, j) == pixel);
        }
        if walk_set(line, width, height).contains(pixel) {
            let i = choose|i: int|
                0 <= i <= n && #[trigger] walk_pixel(line, width, height, i) == pixel;
            if i < pixels.len() {
                assert(pixels[i] == pixel);
            }
        }
    }
    assert(pixels.to_set().insert(end) =~= walk_set(line, width, height));
}

/// For a segment along an axis or along a diagonal, Bresenham's algorithm and
/// the slope-intercept rasterizer draw the same set of pixels: the lattice
/// walk from one end to the other. The analyzer draws that set without the
/// pixel of the end, where it stops.
pub proof fn law_straight_segments_agree(line: Line, width: u16, height: u16)
    requires
        is_straight(line),
    ensures
        bresenham_pixels(line, width, height).to_set() == walk_set(line, width, height),
        slope_intercept_pixels(line, width, height).to_set() == bresenham_pixels(
            line,
            width,
            height,
        ).to_set(),
        dda_pixels(line, width, height).to_set().insert(end_pixel(line, width, height))
            == bresenham_pixels(line, width, height).to_set(),
        dda_pixels(line, width, height).to_set().subset_of(
            bresenham_pixels(line, width, height).to_set(),
        ),
{
    lemma_bresenham_is_walk(line, width, height);
    lemma_slope_intercept_is_walk(line, width, height);
    lemma_dda_is_walk(line, width, height);
}

/// Straight segments give the same canvas under Bresenham's algorithm and
/// under the slope-intercept rasterizer.
pub proof fn law_straight_canvases_agree(lines: Seq<Line>, width: u16, height: u16)
    requires
        forall|k: int| 0 <= k < lines.len() ==> is_straight(#[trigger] lines[k]),
    ensures
        canvas_of(lines, LineAlgorithem::Bresenham, width, height) == canvas_of(
            lines,
            LineAlgorithem::SlopeIntercept,
            width,
            height,
        ),
{
    let one = LineAlgorithem::Bresenham;
    let other = LineAlgorithem::SlopeIntercept;
    assert forall|pixel: Pixel|
        touched(lines, one, width, height, pixel) == touched(
            lines,
            other,
            width,
            height,
            pixel,
        ) by {
        assert forall|k: int| 0 <= k < lines.len() implies (#[trigger] raster(
            one,
            lines[k],
            width,
            height,
        )).contains(pixel) == (#[trigger] raster(other, lines[k], width, height)).contains(
            pixel,
        ) by {
            law_straight_segments_agree(lines[k], width, height);
            assert(raster(one, lines[k], width, height).to_set().contains(pixel) == raster(
                other,
                lines[k],
                width,
                height,
            ).to_set().contains(pixel));
        }
        if touched(lines, one, width, height, pixel) {
            let k = choose|k: int|
                0 <= k < lines.len() && (#[trigger] raster(one, lines[k], width, height)).contains(
                    pixel,
                );
            assert(raster(other, lines[k], width, height).contains(pixel));
        }
        if touched(lines, other, width, height, pixel) {
            let k = choose|k: int|
                0 <= k < lines.len() && (#[trigger] raster(
                    other,
                    lines[k],
                    width,
                    height,
                )).contains(pixel);
            assert(raster(one, lines[k], width, height).contains(pixel));
        }
    }
    assert forall|index: int| 0 <= index < width * height implies canvas_of(
        lines,
        one,
        width,
        height,
    )[index] == canvas_of(lines, other, width, height)[index] by {
        let here = cell(index, width);
        assert(touched(lines, one, width, height, here) == touched(
            lines,
            other,
            width,
            height,
            here,
        ));
    }
    assert(canvas_of(lines, one, width, height) =~= canvas_of(lines, other, width, height));
}

} // verus!
