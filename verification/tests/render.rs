use spacemap::math::camera::Camera2D;
use spacemap::math::ellipsis::Ellipsis;
use spacemap::math::scalar::{Fixed, Scalar, Vec2};
use spacemap::widgets::{Body, Color, Primitive, SpaceMap, Stroke};

fn v(x: i64, y: i64) -> Vec2 {
    Scalar::new([Fixed::from_int(x), Fixed::from_int(y)])
}

fn cam() -> Camera2D {
    Camera2D::new(v(400, 300), v(0, 0), Fixed::from_int(1))
}

fn body(a: i64, b: i64, moons: Vec<Body>) -> Body {
    Body {
        a: Fixed::from_int(a),
        b: Fixed::from_int(b),
        axial_tilt: Fixed::from_int(0),
        orbital_period_days: Fixed::from_int(365),
        radius: Fixed::from_int(1),
        moons,
    }
}

fn counts(shapes: &[Primitive]) -> (usize, usize, usize) {
    let mut polygons = 0;
    let mut polylines = 0;
    let mut segments = 0;
    for s in shapes {
        if s.is_polygon() {
            polygons += 1;
        }
        if s.is_polyline() {
            polylines += 1;
        }
        if s.is_segment() {
            segments += 1;
        }
    }
    (polygons, polylines, segments)
}

#[test]
fn draw_emits_one_polygon() {
    let e = Ellipsis::new(v(0, 0), v(10, 5), Fixed::from_int(0));
    let mut shapes: Vec<Primitive> = Vec::new();
    let fill = Color { r: 1, g: 2, b: 3, a: 255 };
    let stroke = Stroke { width: Fixed::from_int(0), color: fill };
    e.draw(&mut shapes, &cam(), fill, stroke);
    assert_eq!(shapes.len(), 1);
    assert!(shapes[0].is_polygon());
}

#[test]
fn draw_line_emits_one_polyline() {
    let e = Ellipsis::new(v(0, 0), v(10, 5), Fixed::from_int(0));
    let mut shapes: Vec<Primitive> = Vec::new();
    let stroke = Stroke {
        width: Fixed::from_micros(750_000),
        color: Color { r: 128, g: 128, b: 128, a: 128 },
    };
    e.draw_line(&mut shapes, &cam(), stroke);
    assert_eq!(shapes.len(), 1);
    assert!(shapes[0].is_polyline());
}

#[test]
fn paint_counts_follow_the_tree() {
    // two planets, the first with one moon: 3 bodies in all
    let moons = vec![body(1, 1, Vec::new())];
    let planets = vec![body(10, 5, moons), body(20, 15, Vec::new())];
    let map = SpaceMap::new(
        Fixed::from_int(2),
        Color { r: 255, g: 200, b: 0, a: 255 },
        planets,
    );
    let shapes = map.paint(&cam(), Fixed::from_int(0));
    let (polygons, polylines, segments) = counts(&shapes);
    assert_eq!(polygons, 3 + 1);
    assert_eq!(polylines, 3);
    assert_eq!(segments, 2 * 3);
}

#[test]
fn paint_of_empty_system_draws_only_the_star() {
    let map = SpaceMap::new(
        Fixed::from_int(2),
        Color { r: 255, g: 200, b: 0, a: 255 },
        Vec::new(),
    );
    let shapes = map.paint(&cam(), Fixed::from_int(100));
    let (polygons, polylines, segments) = counts(&shapes);
    assert_eq!(polygons, 1);
    assert_eq!(polylines, 0);
    assert_eq!(segments, 0);
}

#[test]
fn paint_is_deterministic() {
    let planets = vec![body(10, 5, Vec::new())];
    let map = SpaceMap::new(
        Fixed::from_int(2),
        Color { r: 255, g: 200, b: 0, a: 255 },
        planets,
    );
    let a = map.paint(&cam(), Fixed::from_int(50));
    let b = map.paint(&cam(), Fixed::from_int(50));
    let (pa, la, sa) = counts(&a);
    let (pb, lb, sb) = counts(&b);
    assert_eq!((pa, la, sa), (pb, lb, sb));
    assert_eq!(a.len(), b.len());
}

#[test]
fn paint_emits_star_then_orbit_markers_disk() {
    let planets = vec![body(10, 5, Vec::new())];
    let map = SpaceMap::new(
        Fixed::from_int(2),
        Color { r: 255, g: 200, b: 0, a: 255 },
        planets,
    );
    let shapes = map.paint(&cam(), Fixed::from_int(0));
    assert_eq!(shapes.len(), 5);
    assert!(shapes[0].is_polygon());
    assert!(shapes[1].is_polyline());
    assert!(shapes[2].is_segment());
    assert!(shapes[3].is_segment());
    assert!(shapes[4].is_polygon());
    match &shapes[0] {
        Primitive::Polygon { fill, .. } => {
            assert_eq!((fill.r, fill.g, fill.b, fill.a), (255, 200, 0, 255));
        },
        _ => panic!("the star must come first"),
    }
}

#[test]
fn marker_sits_on_the_transformed_body_position() {
    // one planet with a = 10, b = 5, tilt 0, at phase 0: its position is the
    // orbit center (focal distance sqrt(75) east of the origin) plus (10, 0)
    let planets = vec![body(10, 5, Vec::new())];
    let map = SpaceMap::new(
        Fixed::from_int(2),
        Color { r: 255, g: 200, b: 0, a: 255 },
        planets,
    );
    let shapes = map.paint(&cam(), Fixed::from_int(0));
    let px: i128 = 8_660_254 + 10_000_000; // floor sqrt of 75e12, plus a
    let tx: i128 = px + 400_000_000; // unit zoom, screen center offset
    let ty: i128 = 300_000_000;
    match &shapes[2] {
        Primitive::Segment { a, b, stroke } => {
            assert_eq!(a.x().raw, tx - 4_000_000);
            assert_eq!(a.y().raw, ty - 4_000_000);
            assert_eq!(b.x().raw, tx + 4_000_000);
            assert_eq!(b.y().raw, ty + 4_000_000);
            assert_eq!((stroke.color.r, stroke.color.g, stroke.color.b), (128, 0, 0));
            assert_eq!(stroke.color.a, 128);
        },
        _ => panic!("the first marker segment must follow the orbit"),
    }
    match &shapes[3] {
        Primitive::Segment { a, b, .. } => {
            assert_eq!(a.x().raw, tx + 4_000_000);
            assert_eq!(a.y().raw, ty - 4_000_000);
            assert_eq!(b.x().raw, tx - 4_000_000);
            assert_eq!(b.y().raw, ty + 4_000_000);
        },
        _ => panic!("the second marker segment must follow the first"),
    }
}

#[test]
fn moons_orbit_their_planet() {
    // a circular orbit of radius 10 with a moon: the moon's orbit outline is
    // emitted right after its planet's disk
    let moons = vec![body(1, 1, Vec::new())];
    let planets = vec![body(10, 10, moons)];
    let map = SpaceMap::new(
        Fixed::from_int(2),
        Color { r: 255, g: 200, b: 0, a: 255 },
        planets,
    );
    let shapes = map.paint(&cam(), Fixed::from_int(0));
    assert_eq!(shapes.len(), 9);
    assert!(shapes[5].is_polyline());
    assert!(shapes[8].is_polygon());
}
