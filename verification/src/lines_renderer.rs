//! The renderer: it owns the canvas and redraws it from a list of segments.

use vstd::prelude::*;
use vstd::arithmetic::div_mod::lemma_fundamental_div_mod;
use vstd::arithmetic::div_mod::lemma_fundamental_div_mod_converse;
use vstd::arithmetic::div_mod::lemma_mod_bound;
use crate::bresenham::bresenham_pixels;
use crate::common::ColorU8;
use crate::dda::dda_pixels;
use crate::gpu::DrawCommand;
use crate::gpu::draw_of;
use crate::gpu::gpu_pass;
use crate::line::Line;
use crate::pixel::Pixel;
use crate::slope_intercept::slope_intercept_pixels;

verus! {

pub const CANVAS_WIDTH: u16 = 800;

pub const CANVAS_HEIGHT: u16 = 800;

/// The ways in which the renderer can draw a segment.
#[derive(Clone, Copy, Debug, PartialEq, Eq, Structural)]
pub enum LineAlgorithem {
    SlopeIntercept,
    SlopeInterceptFS,
    DDA,
    Bresenham,
}

impl LineAlgorithem {
    /// Whether the algorithm yields a list of pixels. The one that does not
    /// hands the equation of each segment to the graphics processor.
    pub open spec fn on_cpu(self) -> bool {
        self != LineAlgorithem::SlopeInterceptFS
    }

    /// Tells whether the algorithm yields a list of pixels.
    pub fn is_on_cpu(&self) -> (yes: bool)
        ensures
            yes == self.on_cpu(),
    {
        match self {
            LineAlgorithem::SlopeInterceptFS => false,
            _ => true,
        }
    }
}

/// The pixels of a segment under an algorithm, in the order in which the
/// algorithm yields them. The algorithm of the graphics processor yields
/// none.
pub open spec fn raster(algorithem: LineAlgorithem, line: Line, width: u16, height: u16) -> Seq<
    Pixel,
> {
    match algorithem {
        LineAlgorithem::SlopeIntercept => slope_intercept_pixels(line, width, height),
        LineAlgorithem::SlopeInterceptFS => Seq::empty(),
        LineAlgorithem::DDA => dda_pixels(line, width, height),
        LineAlgorithem::Bresenham => bresenham_pixels(line, width, height),
    }
}

/// Whether one of the first `upto` segments has `pixel` among its pixels.
pub open spec fn touched_by_first(
    lines: Seq<Line>,
    upto: int,
    algorithem: LineAlgorithem,
    width: u16,
    height: u16,
    pixel: Pixel,
) -> bool {
    exists|k: int|
        0 <= k < upto && (#[trigger] raster(algorithem, lines[k], width, height)).contains(pixel)
}

/// Whether some segment of the list has `pixel` among its pixels.
pub open spec fn touched(
    lines: Seq<Line>,
    algorithem: LineAlgorithem,
    width: u16,
    height: u16,
    pixel: Pixel,
) -> bool {
    touched_by_first(lines, lines.len() as int, algorithem, width, height, pixel)
}

/// The position of entry `index` of a buffer that holds rows of `width`
/// colours.
pub open spec fn cell(index: int, width: u16) -> Pixel {
    Pixel { x: (index % (width as int)) as i64, y: (index / (width as int)) as i64 }
}

/// The canvas that shows a list of segments: `width * height` colours, row
/// after row. A position that some segment touches is opaque white, every
/// other is the background.
pub open spec fn canvas_of(
    lines: Seq<Line>,
    algorithem: LineAlgorithem,
    width: u16,
    height: u16,
) -> Seq<ColorU8> {
    Seq::new(
        (width * height) as nat,
        |index: int|
            if touched(lines, algorithem, width, height, cell(index, width)) {
                ColorU8::ink()
            } else {
                ColorU8::background()
            },
    )
}

/// Whether one of the first `upto` pixels of a list is `pixel`.
spec fn among_first(pixels: Seq<Pixel>, upto: int, pixel: Pixel) -> bool {
    exists|j: int| 0 <= j < upto && #[trigger] pixels[j] == pixel
}

/// Every entry of the buffer is a position on the canvas, and no two entries
/// are the same position.
pub proof fn lemma_cell_on_canvas(index: int, width: u16, height: u16)
    requires
        0 <= index < width * height,
    ensures
        cell(index, width).on_canvas(width, height),
        cell(index, width).y * width + cell(index, width).x == index,
{
    let w = width as int;
    assert(w > 0) by (nonlinear_arith)
        requires
            0 <= index < w * height,
            0 <= w,
    ;
    lemma_fundamental_div_mod(index, w);
    lemma_mod_bound(index, w);
    let q = index / w;
    assert(w * q == q * w) by (nonlinear_arith);
    assert(0 <= q < height) by (nonlinear_arith)
        requires
            0 <= index < w * height,
            index == q * w + index % w,
            0 <= index % w < w,
    ;
}

/// A position on the canvas is one entry of the buffer.
pub proof fn lemma_index_of_pixel(pixel: Pixel, width: u16, height: u16)
    requires
        pixel.on_canvas(width, height),
    ensures
        0 <= pixel.y * width + pixel.x < width * height,
        cell(pixel.y * width + pixel.x, width) == pixel,
{
    let w = width as int;
    let (x, y) = (pixel.x as int, pixel.y as int);
    assert(0 <= y * w + x < w * height) by (nonlinear_arith)
        requires
            0 <= x < w,
            0 <= y < height,
    ;
    lemma_fundamental_div_mod_converse(y * w + x, w, y, x);
}

/// The renderer. It owns the canvas: a dense buffer of `width * height`
/// colours, row after row from the top-left corner.
pub struct LinesRenderer {
    width: u16,
    height: u16,
    back_color: ColorU8,
    texture: Vec<ColorU8>,
}

impl LinesRenderer {
    /// The width of the canvas.
    pub closed spec fn width(&self) -> u16 {
        self.width
    }

    /// The height of the canvas.
    pub closed spec fn height(&self) -> u16 {
        self.height
    }

    /// The colour to which the graphics processor clears the canvas.
    pub closed spec fn back_color(&self) -> ColorU8 {
        self.back_color
    }

    /// The canvas: its colours, row after row.
    pub closed spec fn canvas(&self) -> Seq<ColorU8> {
        self.texture@
    }

    /// The buffer holds one colour for each position of the canvas.
    pub open spec fn wf(&self) -> bool {
        self.canvas().len() == self.width() * self.height()
    }

    /// A renderer with a canvas of the given size, every position of it the
    /// background.
    pub fn new(width: u16, height: u16) -> (renderer: Self)
        ensures
            renderer.wf(),
            renderer.width() == width,
            renderer.height() == height,
            renderer.back_color() == ColorU8::background(),
            renderer.canvas() == Seq::new((width * height) as nat, |i: int| ColorU8::background()),
    {
        assert(width * height <= 0xffff * 0xffff) by (nonlinear_arith)
            requires
                0 <= width <= 0xffff,
                0 <= height <= 0xffff,
        ;
        let size: usize = width as usize * height as usize;
        let texture: Vec<ColorU8> = vec![ColorU8::default(); size];
        assert(texture@ =~= Seq::new((width * height) as nat, |i: int| ColorU8::background()));
        Self { width, height, back_color: ColorU8::default(), texture }
    }

    /// The size of the canvas: its width, then its height.
    pub fn get_size(&self) -> (size: (u16, u16))
        ensures
            size == (self.width(), self.height()),
    {
        (self.width, self.height)
    }

    /// The canvas as it stands, to be read and shown.
    pub fn color_data(&self) -> (data: &Vec<ColorU8>)
        ensures
            data@ == self.canvas(),
    {
        &self.texture
    }

    /// The pixels of one segment under an algorithm of the processor; `None`
    /// for the algorithm of the graphics processor, and for no other.
    pub fn rasterize(algorithem: &LineAlgorithem, line: &Line, width: u16, height: u16) -> (pixels:
        Option<Vec<Pixel>>)
        requires
            line.drawable(),
        ensures
            pixels.is_some() == algorithem.on_cpu(),
            pixels.is_some() ==> pixels.unwrap()@ == raster(*algorithem, *line, width, height),
    {
        match algorithem {
            LineAlgorithem::SlopeInterceptFS => None,
            LineAlgorithem::SlopeIntercept => Some(
                Self::render_slope_intercept(line, width, height),
            ),
            LineAlgorithem::DDA => Some(Self::render_dda(line, width, height)),
            LineAlgorithem::Bresenham => Some(Self::render_bresenham(line, width, height)),
        }
    }

    /// Redraws the canvas from a list of segments. With an algorithm of the
    /// processor the canvas is rebuilt and nothing is returned; with that of
    /// the graphics processor the canvas stays and the commands of one pass
    /// are returned.
    pub fn render(&mut self, lines: &Vec<Line>, algorithem: &LineAlgorithem) -> (commands: Option<
        Vec<DrawCommand>,
    >)
        requires
            old(self).wf(),
            algorithem.on_cpu() ==> forall|k: int|
                0 <= k < lines@.len() ==> (#[trigger] lines@[k]).drawable(),
        ensures
            final(self).wf(),
            final(self).width() == old(self).width(),
            final(self).height() == old(self).height(),
            final(self).back_color() == old(self).back_color(),
            commands.is_none() == algorithem.on_cpu(),
            algorithem.on_cpu() ==> final(self).canvas() == canvas_of(
                lines@,
                *algorithem,
                old(self).width(),
                old(self).height(),
            ),
            !algorithem.on_cpu() ==> final(self).canvas() == old(self).canvas()
                && commands.unwrap()@ == gpu_pass(old(self).back_color(), lines@),
    {
        match algorithem {
            LineAlgorithem::SlopeInterceptFS => Some(self.render_slope_intercept_gpu(lines)),
            _ => {
                self.render_on_cpu(lines, algorithem);
                None
            },
        }
    }

    /// Rebuilds the canvas from a list of segments, with an algorithm of the
    /// processor. A pixel that lies off the canvas is left out; every other
    /// pixel of every segment is drawn.
    pub fn render_on_cpu(&mut self, lines: &Vec<Line>, algorithem: &LineAlgorithem)
        requires
            old(self).wf(),
            algorithem.on_cpu(),
            forall|k: int| 0 <= k < lines@.len() ==> (#[trigger] lines@[k]).drawable(),
        ensures
            final(self).wf(),
            final(self).width() == old(self).width(),
            final(self).height() == old(self).height(),
            final(self).back_color() == old(self).back_color(),
            final(self).canvas() == canvas_of(
                lines@,
                *algorithem,
                old(self).width(),
                old(self).height(),
            ),
    {
        let (tex_width, tex_height) = self.get_size();
        assert(tex_width * tex_height <= 0xffff * 0xffff) by (nonlinear_arith)
            requires
                0 <= tex_width <= 0xffff,
                0 <= tex_height <= 0xffff,
        ;
        let size: usize = tex_width as usize * tex_height as usize;
        let mut texture: Vec<ColorU8> = vec![ColorU8::default(); size];

        let mut k: usize = 0;
        while k < lines.len()
            invariant
                algorithem.on_cpu(),
                forall|n: int| 0 <= n < lines@.len() ==> (#[trigger] lines@[n]).drawable(),
                k <= lines.len(),
                texture.len() == tex_width * tex_height,
                forall|index: int|
                    0 <= index < texture.len() ==> #[trigger] texture@[index] == (if touched_by_first(
                        lines@,
                        k as int,
                        *algorithem,
                        tex_width,
                        tex_height,
                        cell(index, tex_width),
                    ) {
                        ColorU8::ink()
                    } else {
                        ColorU8::background()
                    }),
            decreases lines.len() - k,
        {
            let line_pixels: Vec<Pixel> = Self::rasterize(
                algorithem,
                &lines[k],
                tex_width,
                tex_height,
            ).unwrap();

            let mut j: usize = 0;
            while j < line_pixels.len()
                invariant
                    j <= line_pixels.len(),
                    texture.len() == tex_width * tex_height,
                    forall|index: int|
                        0 <= index < texture.len() ==> #[trigger] texture@[index] == (
                        if touched_by_first(
                            lines@,
                            k as int,
                            *algorithem,
                            tex_width,
                            tex_height,
                            cell(index, tex_width),
                        ) || among_first(line_pixels@, j as int, cell(index, tex_width)) {
                            ColorU8::ink()
                        } else {
                            ColorU8::background()
                        }),
                decreases line_pixels.len() - j,
            {
                let pixel_pos: Pixel = line_pixels[j];
                let ghost before = texture@;
                if pixel_pos.is_on_canvas(tex_width, tex_height) {
                    proof {
                        lemma_index_of_pixel(pixel_pos, tex_width, tex_height);
                    }
                    let index: usize = pixel_pos.y as usize * tex_width as usize
                        + pixel_pos.x as usize;
                    texture.set(index, ColorU8 { r: 255, g: 255, b: 255, a: 255 });
                }
                assert forall|index: int| 0 <= index < texture.len() implies #[trigger] texture@[index]
                    == (if touched_by_first(
                    lines@,
                    k as int,
                    *algorithem,
                    tex_width,
                    tex_height,
                    cell(index, tex_width),
                ) || among_first(line_pixels@, j + 1, cell(index, tex_width)) {
                    ColorU8::ink()
                } else {
                    ColorU8::background()
                }) by {
                    let here = cell(index, tex_width);
                    lemma_cell_on_canvas(index, tex_width, tex_height);
                    if among_first(line_pixels@, j as int, here) {
                        let w = choose|w: int| 0 <= w < j && #[trigger] line_pixels@[w] == here;
                        assert(0 <= w < j + 1 && line_pixels@[w] == here);
                    }
                    if here == pixel_pos {
                        assert(line_pixels@[j as int] == here);
                    }
                    if among_first(line_pixels@, j + 1, here) {
                        let w = choose|w: int| 0 <= w < j + 1 && #[trigger] line_pixels@[w] == here;
                        if w < j {
                            assert(among_first(line_pixels@, j as int, here));
                        }
                    }
                }
                j += 1;
            }

            assert forall|index: int| 0 <= index < texture.len() implies #[trigger] texture@[index]
                == (if touched_by_first(
                lines@,
                k + 1,
                *algorithem,
                tex_width,
                tex_height,
                cell(index, tex_width),
            ) {
                ColorU8::ink()
            } else {
                ColorU8::background()
            }) by {
                let here = cell(index, tex_width);
                let current = raster(*algorithem, lines@[k as int], tex_width, tex_height);
                if among_first(line_pixels@, line_pixels.len() as int, here) {
                    assert(current.contains(here));
                }
                if current.contains(here) {
                    let w = choose|w: int| 0 <= w < current.len() && current[w] == here;
                    assert(line_pixels@[w] == here);
                }
                if touched_by_first(lines@, k as int, *algorithem, tex_width, tex_height, here) {
                    let n = choose|n: int|
                        0 <= n < k && (#[trigger] raster(
                            *algorithem,
                            lines@[n],
                            tex_width,
                            tex_height,
                        )).contains(here);
                    assert(0 <= n < k + 1);
                }
                if touched_by_first(lines@, k + 1, *algorithem, tex_width, tex_height, here) {
                    let n = choose|n: int|
                        0 <= n < k + 1 && (#[trigger] raster(
                            *algorithem,
                            lines@[n],
                            tex_width,
                            tex_height,
                        )).contains(here);
                    if n < k {
                        assert(touched_by_first(
                            lines@,
                            k as int,
                            *algorithem,
                            tex_width,
                            tex_height,
                            here,
                        ));
                    }
                }
            }
            k += 1;
        }

        assert(texture@ =~= canvas_of(lines@, *algorithem, tex_width, tex_height));
        self.texture = texture;
    }

    /// The commands of one pass on the graphics processor: clear, bind, one
    /// draw for each segment in the order of the list, release. See
    /// `gpu_pass`.
    pub fn render_slope_intercept_gpu(&self, lines: &Vec<Line>) -> (commands: Vec<DrawCommand>)
        ensures
            commands@ == gpu_pass(self.back_color(), lines@),
            commands@.len() == lines@.len() + 3,
    {
        let mut commands: Vec<DrawCommand> = Vec::new();
        commands.push(DrawCommand::ClearCanvas(self.back_color));
        commands.push(DrawCommand::BindCanvas);

        let mut k: usize = 0;
        while k < lines.len()
            invariant
                k <= lines.len(),
                commands@.len() == k + 2,
                commands@[0] == DrawCommand::ClearCanvas(self.back_color),
                commands@[1] == DrawCommand::BindCanvas,
                forall|n: int| 0 <= n < k ==> #[trigger] commands@[n + 2] == draw_of(lines@[n]),
            decreases lines.len() - k,
        {
            commands.push(DrawCommand::for_line(&lines[k]));
            k += 1;
        }

        commands.push(DrawCommand::UnbindCanvas);
        assert forall|j: int| 0 <= j < commands@.len() implies commands@[j] == gpu_pass(
            self.back_color(),
            lines@,
        )[j] by {
            if 2 <= j < commands@.len() - 1 {
                assert(commands@[(j - 2) + 2] == draw_of(lines@[j - 2]));
            }
        }
        assert(commands@ =~= gpu_pass(self.back_color(), lines@));
        commands
    }
}

impl Default for LinesRenderer {
    /// A renderer with a canvas as large as the window.
    fn default() -> (renderer: Self)
        ensures
            renderer.wf(),
            renderer.width() == CANVAS_WIDTH,
            renderer.height() == CANVAS_HEIGHT,
            renderer.back_color() == ColorU8::background(),
            renderer.canvas() == Seq::new(
                (CANVAS_WIDTH * CANVAS_HEIGHT) as nat,
                |i: int| ColorU8::background(),
            ),
    {
        Self::new(CANVAS_WIDTH, CANVAS_HEIGHT)
    }
}

} // verus!
