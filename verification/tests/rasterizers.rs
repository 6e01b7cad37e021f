use line_raster::line::{Line, LineKind, Point};
use line_raster::lines_renderer::{LineAlgorithem, LinesRenderer};
use line_raster::pixel::Pixel;

fn segment(x0: i32, y0: i32, x1: i32, y1: i32) -> Line {
    Line::new(Point { x: x0, y: y0 }, Point { x: x1, y: y1 })
}

fn places(pixels: &[Pixel]) -> Vec<(i64, i64)> {
    pixels.iter().map(|p| (p.x, p.y)).collect()
}

#[test]
fn bresenham_diagonal_on_small_canvas() {
    let pixels = LinesRenderer::render_bresenham(&segment(-2, -2, 2, 2), 8, 8);
    assert_eq!(places(&pixels), vec![(2, 2), (3, 3), (4, 4), (5, 5), (6, 6)]);
}

#[test]
fn bresenham_horizontal_runs_to_the_far_end() {
    let pixels = LinesRenderer::render_bresenham(&segment(0, 0, 5, 0), 8, 8);
    assert_eq!(places(&pixels), vec![(4, 4), (5, 4), (6, 4), (7, 4), (8, 4), (9, 4)]);
}

#[test]
fn slope_intercept_horizontal_runs_to_the_far_end() {
    let pixels = LinesRenderer::render_slope_intercept(&segment(0, 0, 5, 0), 8, 8);
    assert_eq!(places(&pixels), vec![(4, 4), (5, 4), (6, 4), (7, 4), (8, 4), (9, 4)]);
}

#[test]
fn dda_horizontal_stops_one_step_short() {
    let pixels = LinesRenderer::render_dda(&segment(0, 0, 5, 0), 8, 8);
    assert_eq!(places(&pixels), vec![(4, 4), (5, 4), (6, 4), (7, 4), (8, 4)]);
}

#[test]
fn bresenham_breaks_a_tie_towards_the_first_row() {
    let pixels = LinesRenderer::render_bresenham(&segment(0, 0, 2, 1), 0, 0);
    assert_eq!(places(&pixels), vec![(0, 0), (1, 0), (2, 1)]);
    let pixels = LinesRenderer::render_bresenham(&segment(0, 0, 2, -1), 0, 0);
    assert_eq!(places(&pixels), vec![(0, 0), (1, 0), (2, -1)]);
}

#[test]
fn slope_intercept_breaks_a_tie_away_from_zero() {
    let pixels = LinesRenderer::render_slope_intercept(&segment(0, 0, 2, 1), 0, 0);
    assert_eq!(places(&pixels), vec![(0, 0), (1, 1), (2, 1)]);
    let pixels = LinesRenderer::render_slope_intercept(&segment(0, 0, 2, -1), 0, 0);
    assert_eq!(places(&pixels), vec![(0, 0), (1, -1), (2, -1)]);
}

#[test]
fn dda_breaks_a_tie_away_from_zero() {
    let pixels = LinesRenderer::render_dda(&segment(0, 0, 2, 1), 0, 0);
    assert_eq!(places(&pixels), vec![(0, 0), (1, 1)]);
    let pixels = LinesRenderer::render_dda(&segment(0, 0, -2, -1), 0, 0);
    assert_eq!(places(&pixels), vec![(0, 0), (-1, -1)]);
}

#[test]
fn bresenham_turns_a_leftward_segment_round() {
    let pixels = LinesRenderer::render_bresenham(&segment(3, 1, -1, 0), 10, 10);
    assert_eq!(places(&pixels), vec![(4, 5), (5, 5), (6, 5), (7, 6), (8, 6)]);
}

#[test]
fn bresenham_steep_segment_walks_along_y() {
    let pixels = LinesRenderer::render_bresenham(&segment(0, 0, 1, 3), 0, 0);
    assert_eq!(places(&pixels), vec![(0, 0), (0, 1), (1, 2), (1, 3)]);
    let pixels = LinesRenderer::render_bresenham(&segment(0, 3, -1, 0), 0, 0);
    assert_eq!(places(&pixels), vec![(-1, 0), (-1, 1), (0, 2), (0, 3)]);
}

#[test]
fn slope_intercept_steep_segment_walks_along_y() {
    let pixels = LinesRenderer::render_slope_intercept(&segment(1, 3, 0, 0), 0, 0);
    assert_eq!(places(&pixels), vec![(0, 0), (0, 1), (1, 2), (1, 3)]);
}

#[test]
fn slope_intercept_orders_the_ends_by_x() {
    let forward = LinesRenderer::render_slope_intercept(&segment(-3, 2, 4, -1), 16, 16);
    let backward = LinesRenderer::render_slope_intercept(&segment(4, -1, -3, 2), 16, 16);
    assert_eq!(forward, backward);
    assert_eq!(
        places(&forward),
        vec![(5, 10), (6, 10), (7, 9), (8, 9), (9, 8), (10, 8), (11, 7), (12, 7)]
    );
}

#[test]
fn dda_walks_from_start_without_reordering() {
    let pixels = LinesRenderer::render_dda(&segment(2, 0, -2, 0), 0, 0);
    assert_eq!(places(&pixels), vec![(2, 0), (1, 0), (0, 0), (-1, 0)]);
    let pixels = LinesRenderer::render_dda(&segment(0, 0, 3, 4), 0, 0);
    assert_eq!(places(&pixels), vec![(0, 0), (1, 1), (2, 2), (2, 3)]);
}

#[test]
fn point_segment_gives_one_pixel() {
    let point = segment(3, -2, 3, -2);
    let expected = vec![(7, 2)];
    assert_eq!(places(&LinesRenderer::render_bresenham(&point, 8, 8)), expected);
    assert_eq!(places(&LinesRenderer::render_dda(&point, 8, 8)), expected);
    assert_eq!(places(&LinesRenderer::render_slope_intercept(&point, 8, 8)), expected);
}

#[test]
fn odd_canvas_shifts_by_the_rounded_down_half() {
    let pixels = LinesRenderer::render_bresenham(&segment(0, 0, 1, 0), 7, 5);
    assert_eq!(places(&pixels), vec![(3, 2), (4, 2)]);
    let pixels = LinesRenderer::render_slope_intercept(&segment(0, 0, 1, 0), 7, 5);
    assert_eq!(places(&pixels), vec![(3, 2), (4, 2)]);
    let pixels = LinesRenderer::render_dda(&segment(0, 0, 1, 0), 7, 5);
    assert_eq!(places(&pixels), vec![(3, 2)]);
}

#[test]
fn pixels_left_of_the_canvas_keep_their_sign() {
    let pixels = LinesRenderer::render_bresenham(&segment(-6, 0, -4, 0), 8, 8);
    assert_eq!(places(&pixels), vec![(-2, 4), (-1, 4), (0, 4)]);
}

#[test]
fn low_and_high_walks() {
    let low = LinesRenderer::bresenham_low(0, 0, 4, -2, 0, 0);
    assert_eq!(places(&low), vec![(0, 0), (1, 0), (2, -1), (3, -1), (4, -2)]);
    let high = LinesRenderer::bresenham_high(0, 0, 2, 4, 0, 0);
    assert_eq!(places(&high), vec![(0, 0), (0, 1), (1, 2), (1, 3), (2, 4)]);
}

#[test]
fn tie_between_extents_is_moderate() {
    assert_eq!(segment(0, 0, 3, 3).kind(), LineKind::Moderate);
    assert_eq!(segment(0, 0, -3, 3).kind(), LineKind::Moderate);
    assert_eq!(segment(1, 1, 1, 1).kind(), LineKind::Moderate);
    assert_eq!(segment(0, 0, 3, 4).kind(), LineKind::Steep);
    assert_eq!(segment(0, 0, 4, -3).kind(), LineKind::Moderate);
}

#[test]
fn rasterize_dispatches_by_algorithm() {
    let line = segment(0, 0, 2, 1);
    assert_eq!(
        LinesRenderer::rasterize(&LineAlgorithem::Bresenham, &line, 4, 4),
        Some(LinesRenderer::render_bresenham(&line, 4, 4))
    );
    assert_eq!(
        LinesRenderer::rasterize(&LineAlgorithem::DDA, &line, 4, 4),
        Some(LinesRenderer::render_dda(&line, 4, 4))
    );
    assert_eq!(
        LinesRenderer::rasterize(&LineAlgorithem::SlopeIntercept, &line, 4, 4),
        Some(LinesRenderer::render_slope_intercept(&line, 4, 4))
    );
    assert_eq!(LinesRenderer::rasterize(&LineAlgorithem::SlopeInterceptFS, &line, 4, 4), None);
}
