//! The digital differential analyzer: equal steps from the start of a
//! segment towards its end, each rounded to the nearest lattice point.

use vstd::prelude::*;
use crate::line::Line;
use crate::lines_renderer::LinesRenderer;
use crate::nearest::lemma_lerp_between;
use crate::nearest::lerp_round;
use crate::nearest::round_div;
use crate::pixel::Pixel;

verus! {

/// Sample `i` of the analyzer: the point `start + i * (end - start) / span`,
/// each coordinate rounded to the nearest integer, ties away from zero.
pub open spec fn dda_pixel(line: Line, width: u16, height: u16, i: int) -> Pixel {
    Pixel::of(
        lerp_round(line.start.x as int, line.dx(), i, line.span()),
        lerp_round(line.start.y as int, line.dy(), i, line.span()),
        width,
        height,
    )
}

/// How many samples the analyzer takes: one for each unit of the span, and
/// one for a segment of length zero.
pub open spec fn dda_count(line: Line) -> nat {
    if line.is_point() {
        1
    } else {
        line.span() as nat
    }
}

/// What the analyzer draws for a segment: its samples from the start on. The
/// walk is not turned round, and it stops one step short of the end.
pub open spec fn dda_pixels(line: Line, width: u16, height: u16) -> Seq<Pixel> {
    Seq::new(dda_count(line), |i: int| dda_pixel(line, width, height, i))
}

/// The sums that the analyzer rounds stay within the range of the division.
proof fn lemma_dda_sum_bounds(v0: int, dv: int, i: int, m: int)
    requires
        -0x8000_0000 <= v0 < 0x8000_0000,
        -m <= dv <= m,
        0 <= i <= m < 0x1_0000_0000,
    ensures
        -0x1_0000_0000_0000_0000_0000 <= v0 * m + dv * i <= 0x1_0000_0000_0000_0000_0000,
        -0x1_0000_0000_0000_0000_0000 <= v0 * m + dv * (i + 1) <= 0x1_0000_0000_0000_0000_0000,
        v0 * m + dv * (i + 1) == v0 * m + dv * i + dv,
        -0x8000_0000_0000_0000 <= v0 * m <= 0x8000_0000_0000_0000,
        i == 0 ==> dv * i == 0,
{
    assert(-0x8000_0000 * 0x1_0000_0000 <= v0 * m <= 0x8000_0000 * 0x1_0000_0000)
        by (nonlinear_arith)
        requires
            -0x8000_0000 <= v0 < 0x8000_0000,
            0 <= m < 0x1_0000_0000,
    ;
    assert(-0x1_0000_0000 * 0x1_0000_0000 <= dv * i <= 0x1_0000_0000 * 0x1_0000_0000)
        by (nonlinear_arith)
        requires
            -0x1_0000_0000 < dv < 0x1_0000_0000,
            0 <= i < 0x1_0000_0000,
    ;
    assert(dv * (i + 1) == dv * i + dv) by (nonlinear_arith);
}

impl LinesRenderer {
    /// The digital differential analyzer on a segment: see `dda_pixels`.
    pub fn render_dda(line: &Line, tex_width: u16, tex_height: u16) -> (pixels: Vec<Pixel>)
        requires
            line.drawable(),
        ensures
            pixels@ == dda_pixels(*line, tex_width, tex_height),
    {
        let dx: i64 = line.delta_x();
        let dy: i64 = line.delta_y();
        let ax: i64 = if dx < 0 { -dx } else { dx };
        let ay: i64 = if dy < 0 { -dy } else { dy };
        let m: i64 = if ax >= ay { ax } else { ay };

        if m == 0 {
            let only: Pixel = Pixel::place(
                line.start.x as i64,
                line.start.y as i64,
                tex_width,
                tex_height,
            );
            let line_pixels: Vec<Pixel> = vec![only];
            assert(line_pixels@ =~= dda_pixels(*line, tex_width, tex_height));
            return line_pixels;
        }
        let count: usize = m as usize;
        let mut line_pixels: Vec<Pixel> = Vec::with_capacity(count);

        proof {
            lemma_dda_sum_bounds(line.start.x as int, dx as int, 0, m as int);
            lemma_dda_sum_bounds(line.start.y as int, dy as int, 0, m as int);
        }
        let mut x: i128 = line.start.x as i128 * m as i128;
        let mut y: i128 = line.start.y as i128 * m as i128;

        let mut i: usize = 0;
        while i < count
            invariant
                0 < m < 0x1_0000_0000,
                m == line.span(),
                count == m,
                dx == line.dx(),
                dy == line.dy(),
                -m <= dx <= m,
                -m <= dy <= m,
                i <= count,
                line_pixels.len() == i,
                x == line.start.x * m + dx * i,
                y == line.start.y * m + dy * i,
                forall|j: int|
                    0 <= j < i ==> line_pixels@[j] == dda_pixel(*line, tex_width, tex_height, j),
            decreases count - i,
        {
            proof {
                lemma_dda_sum_bounds(line.start.x as int, dx as int, i as int, m as int);
                lemma_dda_sum_bounds(line.start.y as int, dy as int, i as int, m as int);
                lemma_lerp_between(line.start.x as int, dx as int, i as int, m as int);
                lemma_lerp_between(line.start.y as int, dy as int, i as int, m as int);
            }
            let px: i128 = round_div(x, m as i128);
            let py: i128 = round_div(y, m as i128);
            line_pixels.push(Pixel::place(px as i64, py as i64, tex_width, tex_height));

            x = x + dx as i128;
            y = y + dy as i128;
            i += 1;
        }

        assert(line_pixels@ =~= dda_pixels(*line, tex_width, tex_height));
        line_pixels
    }
}

} // verus!
