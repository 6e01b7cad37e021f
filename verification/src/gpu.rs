//! The commands that draw segments on the graphics processor.

use vstd::prelude::*;
use crate::common::ColorU8;
use crate::line::Line;
use crate::line::Point;
use crate::lines_renderer::LinesRenderer;
use crate::slope_intercept::LineEquation;
use crate::slope_intercept::equation_of;

verus! {

/// One command to whoever drives the graphics processor.
#[derive(Clone, Copy, Debug, PartialEq, Eq, Structural)]
pub enum DrawCommand {
    /// Fill the canvas with a colour.
    ClearCanvas(ColorU8),
    /// Make the canvas the render target.
    BindCanvas,
    /// Draw a segment that has a slope: choose the shader by the equation's
    /// classification, hand it the slope and the intercept, and draw over the
    /// whole canvas.
    DrawLine(LineEquation),
    /// Draw a segment of length zero. It has no slope and no intercept: the
    /// command carries the one point of the segment instead.
    DrawPoint(Point),
    /// Release the canvas.
    UnbindCanvas,
}

/// The draw command of one segment: its equation where it has one, its one
/// point where its length is zero.
pub open spec fn draw_of(line: Line) -> DrawCommand {
    if line.is_point() {
        DrawCommand::DrawPoint(line.start)
    } else {
        DrawCommand::DrawLine(equation_of(line))
    }
}

/// The draw commands for a list of segments: one for each segment, in the
/// order of the list, each made from its own segment alone.
pub open spec fn line_draws(lines: Seq<Line>) -> Seq<DrawCommand> {
    Seq::new(lines.len(), |i: int| draw_of(lines[i]))
}

/// One pass on the graphics processor: clear the canvas, bind it, draw each
/// segment, release it.
pub open spec fn gpu_pass(back_color: ColorU8, lines: Seq<Line>) -> Seq<DrawCommand> {
    seq![DrawCommand::ClearCanvas(back_color), DrawCommand::BindCanvas] + line_draws(lines).push(
        DrawCommand::UnbindCanvas,
    )
}

impl DrawCommand {
    /// The draw command of one segment: see `draw_of`.
    pub fn for_line(line: &Line) -> (command: DrawCommand)
        ensures
            command == draw_of(*line),
    {
        match LinesRenderer::comput_m_b(line) {
            Some(equation) => DrawCommand::DrawLine(equation),
            None => DrawCommand::DrawPoint(line.start),
        }
    }
}

} // verus!
