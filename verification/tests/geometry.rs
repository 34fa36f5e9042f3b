use spacemap::math::camera::Camera2D;
use spacemap::math::ellipsis::Ellipsis;
use spacemap::math::rect::Rect;
use spacemap::math::scalar::{isqrt_raw, Fixed, Scalar, Vec2};

fn v(x: i64, y: i64) -> Vec2 {
    Scalar::new([Fixed::from_int(x), Fixed::from_int(y)])
}

#[test]
fn transform_point_centers_origin() {
    let cam = Camera2D::new(v(400, 300), v(0, 0), Fixed::from_int(1));
    let p = cam.transform_point(v(0, 0));
    assert_eq!(p.x().raw, 400 * 1_000_000);
    assert_eq!(p.y().raw, 300 * 1_000_000);
}

#[test]
fn zoom_on_center_keeps_anchor() {
    let mut cam = Camera2D::new(v(400, 300), v(0, 0), Fixed::from_int(1));
    cam.scale_by_on_screen(v(400, 300), Fixed::from_int(2));
    let p = cam.transform_point(v(0, 0));
    assert_eq!(p.x().raw, 400 * 1_000_000);
    assert_eq!(p.y().raw, 300 * 1_000_000);
    let q = cam.transform_point(v(100, 0));
    assert_eq!(q.x().raw, 600 * 1_000_000);
    assert_eq!(q.y().raw, 300 * 1_000_000);
}

#[test]
fn pan_is_reversible() {
    let mut cam = Camera2D::new(v(400, 300), v(7, -3), Fixed::from_int(3));
    cam.translate_screen(v(10, 20));
    cam.translate_screen(v(-10, -20));
    assert_eq!(cam.pos.x().raw, 7 * 1_000_000);
    assert_eq!(cam.pos.y().raw, -3 * 1_000_000);
}

#[test]
fn transform_is_affine_on_grid() {
    let cam = Camera2D::new(v(400, 300), v(5, 9), Fixed::from_int(4));
    let a = v(12, -7);
    let b = v(-3, 2);
    let ta = cam.transform_point(a);
    let tb = cam.transform_point(b);
    assert_eq!(ta.x().raw - tb.x().raw, (12 - -3) * 4 * 1_000_000);
    assert_eq!(ta.y().raw - tb.y().raw, (-7 - 2) * 4 * 1_000_000);
}

#[test]
fn translate_world_moves_directly() {
    let mut cam = Camera2D::new(v(400, 300), v(0, 0), Fixed::from_int(2));
    cam.translate_world(v(3, -4));
    assert_eq!(cam.pos.x().raw, -3 * 1_000_000);
    assert_eq!(cam.pos.y().raw, 4 * 1_000_000);
}

#[test]
fn set_size_stores_half() {
    let mut cam = Camera2D::new(v(0, 0), v(0, 0), Fixed::from_int(1));
    cam.set_size(v(800, 600));
    assert_eq!(cam.size.x().raw, 400 * 1_000_000);
    assert_eq!(cam.size.y().raw, 300 * 1_000_000);
}

#[test]
fn world_rect_spans_view() {
    let cam = Camera2D::new(v(400, 300), v(0, 0), Fixed::from_int(2));
    let r = cam.world_rect();
    assert_eq!(r.top_left.x().raw, -200 * 1_000_000);
    assert_eq!(r.top_left.y().raw, -150 * 1_000_000);
    assert_eq!(r.bottom_right.x().raw, 200 * 1_000_000);
    assert_eq!(r.bottom_right.y().raw, 150 * 1_000_000);
}

#[test]
fn rect_from_center_and_radius() {
    let r = Rect::from_center_and_radius(v(10, 20), v(3, 4));
    assert_eq!(r.top_left.x().raw, 7 * 1_000_000);
    assert_eq!(r.bottom_right.y().raw, 24 * 1_000_000);
}

#[test]
fn scalar_get_checks_arity() {
    let p = v(1, 2);
    assert!(p.get(0).is_some());
    assert!(p.get(1).is_some());
    assert!(p.get(2).is_none());
}

#[test]
fn ellipse_position_on_axes() {
    let e = Ellipsis::new(v(0, 0), v(10, 5), Fixed::from_int(0));
    let p0 = e.position_at(Fixed::from_int(0));
    assert_eq!(p0.x().raw, 10 * 1_000_000);
    assert_eq!(p0.y().raw, 0);
    let pq = e.position_at(Fixed::from_micros(250_000));
    assert_eq!(pq.x().raw, 0);
    assert_eq!(pq.y().raw, 5 * 1_000_000);
}

#[test]
fn ellipse_axes_are_sorted() {
    let e = Ellipsis::new(v(0, 0), v(5, 10), Fixed::from_int(0));
    assert_eq!(e.a().raw, 10 * 1_000_000);
    assert_eq!(e.b().raw, 5 * 1_000_000);
}

#[test]
fn ellipse_is_periodic() {
    let e = Ellipsis::new(v(2, 3), v(10, 5), Fixed::from_micros(123_456));
    let p = e.position_at(Fixed::from_micros(300_000));
    let q = e.position_at(Fixed::from_micros(1_300_000));
    assert_eq!(p.x().raw, q.x().raw);
    assert_eq!(p.y().raw, q.y().raw);
}

#[test]
fn focal_center_offsets_by_focal_distance() {
    // a = 5, b = 3: the focal distance is exactly 4
    let e = Ellipsis::new_at_focal_pos(v(1, 2), v(5, 3), Fixed::from_int(0));
    assert_eq!(e.pos.x().raw, 5 * 1_000_000);
    assert_eq!(e.pos.y().raw, 2 * 1_000_000);
}

#[test]
fn focal_center_of_circle_is_the_focus() {
    let e = Ellipsis::new_at_focal_pos(v(1, 2), v(7, 7), Fixed::from_int(0));
    assert_eq!(e.pos.x().raw, 1 * 1_000_000);
    assert_eq!(e.pos.y().raw, 2 * 1_000_000);
}

#[test]
fn sample_count_has_floor() {
    assert_eq!(Ellipsis::sample_count(Fixed::from_int(0)), 200);
    assert_eq!(Ellipsis::sample_count(Fixed::from_int(10_000)), 200);
}

#[test]
fn sample_count_grows_with_screen_size() {
    // 1 + 1_000_000 units: the least n with n * n >= 1_000_001 is 1001
    assert_eq!(Ellipsis::sample_count(Fixed::from_int(1_000_000)), 1001);
}

#[test]
fn trig_hits_exact_quarters() {
    assert_eq!(Fixed::from_int(0).sin().raw, 0);
    assert_eq!(Fixed::from_int(0).cos().raw, 1_000_000);
    assert_eq!(Fixed::from_micros(250_000).sin().raw, 1_000_000);
    assert_eq!(Fixed::from_micros(500_000).sin().raw, 0);
    assert_eq!(Fixed::from_micros(750_000).sin().raw, -1_000_000);
    assert_eq!(Fixed::from_micros(250_000).cos().raw, 0);
}

#[test]
fn isqrt_is_exact_floor() {
    assert_eq!(isqrt_raw(0), 0);
    assert_eq!(isqrt_raw(15), 3);
    assert_eq!(isqrt_raw(16), 4);
    assert_eq!(isqrt_raw(75_000_000_000_000), 8_660_254);
}
