use line_raster::common::{ColorU8, WINDOW_HEIGHT, WINDOW_WIDTH};
use line_raster::line::{Line, LineKind, Point};
use line_raster::lines_renderer::LineAlgorithem;
use line_raster::nearest::{round_div, ROUND_DIV_MAX};
use line_raster::pixel::Pixel;

#[test]
fn default_color_is_opaque_black() {
    let color = ColorU8::default();
    assert_eq!((color.r, color.g, color.b, color.a), (0, 0, 0, 255));
}

#[test]
fn color_clone_keeps_every_channel() {
    let color = ColorU8 { r: 1, g: 2, b: 3, a: 4 };
    let copy = color.clone();
    assert_eq!((copy.r, copy.g, copy.b, copy.a), (1, 2, 3, 4));
}

#[test]
fn window_is_eight_hundred_square() {
    assert_eq!(WINDOW_WIDTH, 800);
    assert_eq!(WINDOW_HEIGHT, 800);
}

#[test]
fn line_new_keeps_both_ends() {
    let line = Line::new(Point { x: 1, y: -2 }, Point { x: -3, y: 4 });
    assert_eq!(line.start, Point { x: 1, y: -2 });
    assert_eq!(line.end, Point { x: -3, y: 4 });
    assert_eq!(line.delta_x(), -4);
    assert_eq!(line.delta_y(), 6);
    assert_eq!(line.kind(), LineKind::Steep);
}

#[test]
fn extents_of_the_widest_segment() {
    let line = Line::new(Point { x: i32::MIN, y: i32::MAX }, Point { x: i32::MAX, y: i32::MIN });
    assert_eq!(line.delta_x(), 4294967295);
    assert_eq!(line.delta_y(), -4294967295);
    assert_eq!(line.kind(), LineKind::Moderate);
    assert_eq!(line.is_drawable(), (usize::MAX as u128) > 4294967295);
}

#[test]
fn ordinary_segment_is_drawable() {
    assert!(Line::new(Point { x: -400, y: -400 }, Point { x: 400, y: 400 }).is_drawable());
    assert!(Line::new(Point { x: 0, y: 0 }, Point { x: 0, y: 0 }).is_drawable());
}

#[test]
fn round_div_goes_to_the_nearest() {
    assert_eq!(round_div(0, 3), 0);
    assert_eq!(round_div(1, 3), 0);
    assert_eq!(round_div(2, 3), 1);
    assert_eq!(round_div(3, 3), 1);
    assert_eq!(round_div(4, 3), 1);
    assert_eq!(round_div(5, 3), 2);
    assert_eq!(round_div(-1, 3), 0);
    assert_eq!(round_div(-2, 3), -1);
    assert_eq!(round_div(-4, 3), -1);
    assert_eq!(round_div(-5, 3), -2);
    assert_eq!(round_div(7, 1), 7);
    assert_eq!(round_div(-7, 1), -7);
}

#[test]
fn round_div_sends_a_tie_away_from_zero() {
    assert_eq!(round_div(1, 2), 1);
    assert_eq!(round_div(3, 2), 2);
    assert_eq!(round_div(5, 10), 1);
    assert_eq!(round_div(-1, 2), -1);
    assert_eq!(round_div(-3, 2), -2);
    assert_eq!(round_div(-25, 10), -3);
    assert_eq!(round_div(25, 10), 3);
}

#[test]
fn round_div_at_its_limits() {
    let top: i128 = 1 << 80;
    assert_eq!(round_div(top, 1 << 32), 1 << 48);
    assert_eq!(round_div(-top, 1 << 32), -(1 << 48));
    assert_eq!(round_div(top, 3), 402975273204876391568725);
    assert_eq!(round_div(-top, 3), -402975273204876391568725);
    assert_eq!(ROUND_DIV_MAX, 1 << 125);
    assert_eq!(round_div(ROUND_DIV_MAX, ROUND_DIV_MAX), 1);
    assert_eq!(round_div(-ROUND_DIV_MAX, ROUND_DIV_MAX), -1);
    assert_eq!(round_div(ROUND_DIV_MAX, 1), ROUND_DIV_MAX);
    assert_eq!(round_div(ROUND_DIV_MAX / 2, ROUND_DIV_MAX), 1);
    assert_eq!(round_div(ROUND_DIV_MAX / 2 - 1, ROUND_DIV_MAX), 0);
    assert_eq!(round_div(-(ROUND_DIV_MAX / 2), ROUND_DIV_MAX), -1);
}

#[test]
fn place_moves_by_half_the_canvas() {
    assert_eq!(Pixel::place(0, 0, 8, 8), Pixel { x: 4, y: 4 });
    assert_eq!(Pixel::place(-4, 3, 8, 8), Pixel { x: 0, y: 7 });
    assert_eq!(Pixel::place(-5, 4, 9, 7), Pixel { x: -1, y: 7 });
    assert_eq!(Pixel::place(2, -2, 0, 1), Pixel { x: 2, y: -2 });
    assert_eq!(Pixel::place(0, 0, 65535, 65535), Pixel { x: 32767, y: 32767 });
    assert_eq!(
        Pixel::place(i64::MAX - 32767, i64::MIN, 65535, 0),
        Pixel { x: i64::MAX, y: i64::MIN }
    );
}

#[test]
fn only_the_shader_algorithm_is_off_the_processor() {
    assert!(LineAlgorithem::SlopeIntercept.is_on_cpu());
    assert!(LineAlgorithem::DDA.is_on_cpu());
    assert!(LineAlgorithem::Bresenham.is_on_cpu());
    assert!(!LineAlgorithem::SlopeInterceptFS.is_on_cpu());
}

#[test]
fn canvas_holds_its_corners_and_nothing_beyond() {
    assert!(Pixel { x: 0, y: 0 }.is_on_canvas(4, 3));
    assert!(Pixel { x: 3, y: 2 }.is_on_canvas(4, 3));
    assert!(!Pixel { x: 4, y: 2 }.is_on_canvas(4, 3));
    assert!(!Pixel { x: 3, y: 3 }.is_on_canvas(4, 3));
    assert!(!Pixel { x: -1, y: 0 }.is_on_canvas(4, 3));
    assert!(!Pixel { x: 0, y: -1 }.is_on_canvas(4, 3));
    assert!(!Pixel { x: 0, y: 0 }.is_on_canvas(0, 3));
    assert!(!Pixel { x: 65536, y: 0 }.is_on_canvas(65535, 1));
}
