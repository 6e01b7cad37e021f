use line_raster::common::ColorU8;
use line_raster::gpu::DrawCommand;
use line_raster::line::{Line, LineKind, Point};
use line_raster::lines_renderer::{LineAlgorithem, LinesRenderer};
use line_raster::slope_intercept::LineEquation;

fn segment(x0: i32, y0: i32, x1: i32, y1: i32) -> Line {
    Line::new(Point { x: x0, y: y0 }, Point { x: x1, y: y1 })
}

const BLACK: ColorU8 = ColorU8 { r: 0, g: 0, b: 0, a: 255 };

#[test]
fn equation_of_a_moderate_segment() {
    let equation = LinesRenderer::comput_m_b(&segment(1, 2, 5, 4));
    assert_eq!(
        equation,
        Some(LineEquation { kind: LineKind::Moderate, rise: 2, run: 4, offset: 6 })
    );
    let e = equation.unwrap();
    assert_eq!(e.rise as f64 / e.run as f64, 0.5);
    assert_eq!(e.offset as f64 / e.run as f64, 1.5);
}

#[test]
fn equation_of_a_steep_segment() {
    let equation = LinesRenderer::comput_m_b(&segment(1, 2, 3, -6));
    assert_eq!(
        equation,
        Some(LineEquation { kind: LineKind::Steep, rise: 2, run: -8, offset: -12 })
    );
    let e = equation.unwrap();
    assert_eq!(e.rise as f64 / e.run as f64, -0.25);
    assert_eq!(e.offset as f64 / e.run as f64, 1.5);
}

#[test]
fn equation_of_a_leftward_segment_keeps_its_signs() {
    let equation = LinesRenderer::comput_m_b(&segment(5, 4, 1, 2));
    assert_eq!(
        equation,
        Some(LineEquation { kind: LineKind::Moderate, rise: -2, run: -4, offset: -6 })
    );
}

#[test]
fn equation_of_a_diagonal_is_moderate() {
    let equation = LinesRenderer::comput_m_b(&segment(0, 0, -3, 3)).unwrap();
    assert_eq!(equation.kind, LineKind::Moderate);
    assert_eq!((equation.rise, equation.run, equation.offset), (3, -3, 0));
}

#[test]
fn point_has_no_equation() {
    assert_eq!(LinesRenderer::comput_m_b(&segment(7, -7, 7, -7)), None);
}

#[test]
fn equation_at_the_widest_segment() {
    let line = segment(i32::MIN, i32::MIN, i32::MAX, i32::MAX);
    let equation = LinesRenderer::comput_m_b(&line).unwrap();
    assert_eq!(equation.kind, LineKind::Moderate);
    assert_eq!(equation.rise, 4294967295);
    assert_eq!(equation.run, 4294967295);
    assert_eq!(equation.offset, 0);
    let line = segment(i32::MIN, i32::MAX, i32::MAX, i32::MIN);
    let equation = LinesRenderer::comput_m_b(&line).unwrap();
    assert_eq!(equation.rise, -4294967295);
    assert_eq!(equation.run, 4294967295);
    assert_eq!(equation.offset, -4294967295);
}

#[test]
fn equation_rounds_ties_away_from_zero() {
    let equation = LinesRenderer::comput_m_b(&segment(0, 0, 2, 1)).unwrap();
    assert_eq!(equation.value_at(0), 0);
    assert_eq!(equation.value_at(1), 1);
    assert_eq!(equation.value_at(2), 1);
    assert_eq!(equation.value_at(3), 2);
    assert_eq!(equation.value_at(-1), -1);
    assert_eq!(equation.value_at(-3), -2);
    assert_eq!(equation.value_at(i64::MAX), 4611686018427387904);
    assert_eq!(equation.value_at(i64::MIN), -4611686018427387904);
    let turned = LinesRenderer::comput_m_b(&segment(2, 1, 0, 0)).unwrap();
    assert_eq!(turned.value_at(1), 1);
    assert_eq!(turned.value_at(-1), -1);
}

#[test]
fn ends_are_ordered_along_each_axis() {
    let line = segment(3, -1, -2, 5);
    let (left, right) = LinesRenderer::x_order_line_ends(&line);
    assert_eq!((*left, *right), (Point { x: -2, y: 5 }, Point { x: 3, y: -1 }));
    let (low, high) = LinesRenderer::y_order_line_ends(&line);
    assert_eq!((*low, *high), (Point { x: 3, y: -1 }, Point { x: -2, y: 5 }));
    let level = segment(0, 1, 0, 1);
    let (first, second) = LinesRenderer::x_order_line_ends(&level);
    assert_eq!((*first, *second), (level.start, level.end));
}

#[test]
fn pass_of_no_segment_clears_binds_and_releases() {
    let renderer = LinesRenderer::new(8, 8);
    assert_eq!(
        renderer.render_slope_intercept_gpu(&vec![]),
        vec![DrawCommand::ClearCanvas(BLACK), DrawCommand::BindCanvas, DrawCommand::UnbindCanvas]
    );
}

#[test]
fn pass_draws_each_segment_once_in_order() {
    let renderer = LinesRenderer::new(8, 8);
    let lines = vec![segment(1, 2, 5, 4), segment(3, 3, 3, 3), segment(1, 2, 3, -6)];
    assert_eq!(
        renderer.render_slope_intercept_gpu(&lines),
        vec![
            DrawCommand::ClearCanvas(BLACK),
            DrawCommand::BindCanvas,
            DrawCommand::DrawLine(LineEquation {
                kind: LineKind::Moderate,
                rise: 2,
                run: 4,
                offset: 6
            }),
            DrawCommand::DrawPoint(Point { x: 3, y: 3 }),
            DrawCommand::DrawLine(LineEquation {
                kind: LineKind::Steep,
                rise: 2,
                run: -8,
                offset: -12
            }),
            DrawCommand::UnbindCanvas,
        ]
    );
}

#[test]
fn pass_of_one_point_has_one_draw() {
    let renderer = LinesRenderer::new(8, 8);
    assert_eq!(
        renderer.render_slope_intercept_gpu(&vec![segment(3, 3, 3, 3)]),
        vec![
            DrawCommand::ClearCanvas(BLACK),
            DrawCommand::BindCanvas,
            DrawCommand::DrawPoint(Point { x: 3, y: 3 }),
            DrawCommand::UnbindCanvas,
        ]
    );
}

#[test]
fn draw_after_a_point_keeps_its_place() {
    let renderer = LinesRenderer::new(8, 8);
    let lines = vec![segment(-1, 4, -1, 4), segment(0, 0, 2, 1)];
    let commands = renderer.render_slope_intercept_gpu(&lines);
    assert_eq!(commands.len(), 5);
    assert_eq!(commands[2], DrawCommand::DrawPoint(Point { x: -1, y: 4 }));
    assert_eq!(
        commands[3],
        DrawCommand::DrawLine(LineEquation { kind: LineKind::Moderate, rise: 1, run: 2, offset: 0 })
    );
}

#[test]
fn pass_has_as_many_draws_as_segments() {
    let renderer = LinesRenderer::new(8, 8);
    let mut lines = Vec::new();
    for n in 0..7 {
        let commands = renderer.render_slope_intercept_gpu(&lines);
        assert_eq!(commands.len(), n + 3);
        assert_eq!(commands[0], DrawCommand::ClearCanvas(BLACK));
        assert_eq!(commands[1], DrawCommand::BindCanvas);
        assert_eq!(commands[n + 2], DrawCommand::UnbindCanvas);
        for (i, line) in lines.iter().enumerate() {
            assert_eq!(commands[i + 2], DrawCommand::for_line(line));
        }
        lines.push(segment(n as i32, 0, (n as i32) % 3 * 2, (n as i32) % 2));
    }
}

#[test]
fn draw_command_of_one_segment() {
    assert_eq!(
        DrawCommand::for_line(&segment(1, 2, 5, 4)),
        DrawCommand::DrawLine(LineEquation { kind: LineKind::Moderate, rise: 2, run: 4, offset: 6 })
    );
    assert_eq!(
        DrawCommand::for_line(&segment(-7, 9, -7, 9)),
        DrawCommand::DrawPoint(Point { x: -7, y: 9 })
    );
}

#[test]
fn render_on_the_graphics_processor_leaves_the_canvas() {
    let mut renderer = LinesRenderer::new(8, 8);
    renderer.render(&vec![segment(0, 0, 5, 0)], &LineAlgorithem::Bresenham);
    let before = renderer.color_data().clone();
    let lines = vec![segment(-2, -2, 2, 2)];
    let commands = renderer.render(&lines, &LineAlgorithem::SlopeInterceptFS);
    assert_eq!(commands, Some(renderer.render_slope_intercept_gpu(&lines)));
    assert_eq!(commands.unwrap().len(), 4);
    assert_eq!(*renderer.color_data(), before);
    assert_eq!(renderer.get_size(), (8, 8));
}
