//! The orbital map: draw primitives, the body hierarchy and the recursive
//! render traversal that turns elapsed time into a frame's primitives.

use vstd::prelude::*;
use crate::math::camera::{Camera2D, WORLD_MAX};
use crate::math::ellipsis::{curve_x, curve_y, outline_samples, spec_sample_count, Ellipsis};
use crate::math::scalar::{
    fx_div, fx_mul, is_floor_sqrt, lemma_floor_sqrt_unique, lemma_fx_div_bound_denom,
    lemma_fx_mul_bound, lemma_fx_mul_nonneg, spec_cos, spec_sin, sqrt_floor, Fixed, Scalar,
    Vec2, MAX_RAW, UNIT,
};

verus! {

broadcast use vstd::seq::group_seq_axioms, vstd::std_specs::vec::group_vec_axioms;

/// Largest elapsed simulated time (raw seconds) a frame may be asked for.
pub const ELAPSED_MAX: i128 = 100_000_000_000_000;

/// An sRGB color with alpha.
#[derive(Clone, Copy, Debug, PartialEq, Eq, Structural)]
pub struct Color {
    pub r: u8,
    pub g: u8,
    pub b: u8,
    pub a: u8,
}

/// A stroke: line width (zero for no outline) and color.
#[derive(Clone, Copy, Debug, PartialEq, Eq, Structural)]
pub struct Stroke {
    pub width: Fixed,
    pub color: Color,
}

/// A draw primitive in screen coordinates.
pub enum Primitive {
    /// A filled convex polygon with an optional outline.
    Polygon { points: Vec<Vec2>, fill: Color, stroke: Stroke },
    /// A closed outline-only polyline.
    Polyline { points: Vec<Vec2>, stroke: Stroke },
    /// A single line segment.
    Segment { a: Vec2, b: Vec2, stroke: Stroke },
}

impl Primitive {
    /// The primitive's sample points (a segment's two ends).
    pub open spec fn points_of(self) -> Seq<Vec2> {
        match self {
            Primitive::Polygon { points, .. } => points@,
            Primitive::Polyline { points, .. } => points@,
            Primitive::Segment { a, b, .. } => seq![a, b],
        }
    }

    /// The fill color of a filled primitive.
    pub open spec fn fill_of(self) -> Color {
        match self {
            Primitive::Polygon { fill, .. } => fill,
            Primitive::Polyline { stroke, .. } => stroke.color,
            Primitive::Segment { stroke, .. } => stroke.color,
        }
    }

    /// The stroke.
    pub open spec fn stroke_of(self) -> Stroke {
        match self {
            Primitive::Polygon { stroke, .. } => stroke,
            Primitive::Polyline { stroke, .. } => stroke,
            Primitive::Segment { stroke, .. } => stroke,
        }
    }

    /// Whether this is a filled polygon.
    pub fn is_polygon(&self) -> (r: bool)
        ensures
            r == (*self is Polygon),
    {
        match self {
            Primitive::Polygon { .. } => true,
            _ => false,
        }
    }

    /// Whether this is an outline polyline.
    pub fn is_polyline(&self) -> (r: bool)
        ensures
            r == (*self is Polyline),
    {
        match self {
            Primitive::Polyline { .. } => true,
            _ => false,
        }
    }

    /// Whether this is a line segment.
    pub fn is_segment(&self) -> (r: bool)
        ensures
            r == (*self is Segment),
    {
        match self {
            Primitive::Segment { .. } => true,
            _ => false,
        }
    }
}

/// How many filled polygons a primitive sequence holds.
pub open spec fn n_polygons(s: Seq<Primitive>) -> int
    decreases s.len(),
{
    if s.len() == 0 {
        0
    } else {
        n_polygons(s.drop_last()) + if s.last() is Polygon {
            1int
        } else {
            0int
        }
    }
}

/// How many outline polylines a primitive sequence holds.
pub open spec fn n_polylines(s: Seq<Primitive>) -> int
    decreases s.len(),
{
    if s.len() == 0 {
        0
    } else {
        n_polylines(s.drop_last()) + if s.last() is Polyline {
            1int
        } else {
            0int
        }
    }
}

/// How many line segments a primitive sequence holds.
pub open spec fn n_segments(s: Seq<Primitive>) -> int
    decreases s.len(),
{
    if s.len() == 0 {
        0
    } else {
        n_segments(s.drop_last()) + if s.last() is Segment {
            1int
        } else {
            0int
        }
    }
}

/// Appending one primitive raises exactly its own kind's count by one.
pub proof fn lemma_counts_after_push(pre: Seq<Primitive>, post: Seq<Primitive>)
    requires
        post.len() == pre.len() + 1,
        post.subrange(0, pre.len() as int) == pre,
    ensures
        n_polygons(post) == n_polygons(pre) + if post.last() is Polygon { 1int } else { 0int },
        n_polylines(post) == n_polylines(pre) + if post.last() is Polyline { 1int } else { 0int },
        n_segments(post) == n_segments(pre) + if post.last() is Segment { 1int } else { 0int },
{
    assert(post.drop_last() =~= pre);
}

/// An orbiting body: orbital semi-axes, axial tilt in degrees, orbital
/// period in days, physical radius, and its satellites.
pub struct Body {
    pub a: Fixed,
    pub b: Fixed,
    pub axial_tilt: Fixed,
    pub orbital_period_days: Fixed,
    pub radius: Fixed,
    pub moons: Vec<Body>,
}

/// The larger raw semi-axis of a body's orbit.
pub open spec fn axmax(b: Body) -> int {
    if b.a.raw >= b.b.raw {
        b.a.raw as int
    } else {
        b.b.raw as int
    }
}

/// How many bodies a forest holds.
pub open spec fn count_seq(s: Seq<Body>) -> int
    decreases s,
{
    if s.len() == 0 {
        0
    } else {
        count_seq(s.drop_last()) + count_body(s.last())
    }
}

/// How many bodies a subtree holds, itself included.
pub open spec fn count_body(b: Body) -> int
    decreases b,
{
    1 + count_seq(b.moons@)
}

/// Every body of the forest keeps sane parameters and, laid out from an
/// origin of magnitude at most m, stays within the world range: each level
/// can move the origin out by at most three times its larger semi-axis.
pub open spec fn seq_fits(s: Seq<Body>, m: int) -> bool
    decreases s,
{
    s.len() == 0 || (seq_fits(s.drop_last(), m) && body_fits(s.last(), m))
}

/// A body's own parameters are in range from an origin of magnitude m, and
/// so are its satellites from wherever it can reach.
pub open spec fn body_fits(b: Body, m: int) -> bool
    decreases b,
{
    &&& 0 <= b.a.raw <= WORLD_MAX
    &&& 0 <= b.b.raw <= WORLD_MAX
    &&& b.axial_tilt.wf()
    &&& UNIT <= b.orbital_period_days.raw <= MAX_RAW
    &&& 0 <= b.radius.raw <= WORLD_MAX
    &&& 0 <= m
    &&& m + 3 * axmax(b) <= 2 * (WORLD_MAX as int)
    &&& seq_fits(b.moons@, m + 3 * axmax(b))
}

/// A forest that fits from m fits at every index.
pub proof fn lemma_seq_fits_index(s: Seq<Body>, m: int, i: int)
    requires
        seq_fits(s, m),
        0 <= i < s.len(),
    ensures
        body_fits(s[i], m),
    decreases s,
{
    if i == s.len() - 1 {
    } else {
        lemma_seq_fits_index(s.drop_last(), m, i);
        assert(s.drop_last()[i] == s[i]);
    }
}

/// The smaller raw semi-axis of a body's orbit.
pub open spec fn axmin(b: Body) -> int {
    if b.a.raw >= b.b.raw {
        b.b.raw as int
    } else {
        b.a.raw as int
    }
}

/// The body's axial tilt, converted from degrees to raw turns.
pub open spec fn tilt_turns(b: Body) -> int {
    fx_div(b.axial_tilt.raw as int, 360 * (UNIT as int))
}

/// The raw x of the body's orbit center: the parent position (the focus)
/// offset along the tilt direction by the focal distance.
pub open spec fn orbit_cx(px: int, b: Body) -> int {
    px + fx_mul(
        sqrt_floor(axmax(b) * axmax(b) - axmin(b) * axmin(b)),
        spec_cos(tilt_turns(b)),
    )
}

/// The raw y of the body's orbit center.
pub open spec fn orbit_cy(py: int, b: Body) -> int {
    py + fx_mul(
        sqrt_floor(axmax(b) * axmax(b) - axmin(b) * axmin(b)),
        spec_sin(tilt_turns(b)),
    )
}

/// The body's phase after elapsed simulated seconds, in raw turns: one
/// second advances 365 / period_days of an orbit.
pub open spec fn phase_of(elapsed: Fixed, b: Body) -> int {
    fx_div(365 * elapsed.raw, b.orbital_period_days.raw as int)
}

/// The raw x of the body's current world position: the orbit curve point
/// at its phase.
pub open spec fn planet_x(px: int, py: int, b: Body, elapsed: Fixed) -> int {
    curve_x(orbit_cx(px, b), axmax(b), axmin(b), tilt_turns(b), phase_of(elapsed, b))
}

/// The raw y of the body's current world position.
pub open spec fn planet_y(px: int, py: int, b: Body, elapsed: Fixed) -> int {
    curve_y(orbit_cy(py, b), axmax(b), axmin(b), tilt_turns(b), phase_of(elapsed, b))
}

/// The body disk's raw radius: the physical radius scaled by the fixed
/// unit conversion (one millionth).
pub open spec fn disk_radius_of(b: Body) -> int {
    fx_mul(b.radius.raw as int, 1)
}

/// The thin, half-opaque stroke of every orbit outline.
pub open spec fn spec_orbit_stroke() -> Stroke {
    Stroke { width: Fixed { raw: 750_000 }, color: Color { r: 128, g: 128, b: 128, a: 128 } }
}

/// The red, half-opaque stroke of every crosshair marker.
pub open spec fn spec_marker_stroke() -> Stroke {
    Stroke { width: Fixed { raw: 1_000_000 }, color: Color { r: 128, g: 0, b: 0, a: 128 } }
}

/// The translucent fill of every body disk.
pub open spec fn spec_disk_fill() -> Color {
    Color { r: 128, g: 128, b: 128, a: 255 }
}

/// The empty stroke of every body disk.
pub open spec fn spec_disk_stroke() -> Stroke {
    Stroke { width: Fixed { raw: 0 }, color: spec_disk_fill() }
}

/// The four primitives a body itself contributes, at the front of s, given
/// the parent position (px, py): its orbit outline sampled from the
/// focus-anchored orbit ellipse, the two diagonal crosshair segments of the
/// 8-pixel screen-space marker at its transformed position, and its disk
/// sampled at its position.
pub open spec fn body_own_prims(
    s: Seq<Primitive>,
    cam: Camera2D,
    px: int,
    py: int,
    b: Body,
    elapsed: Fixed,
) -> bool {
    let qx = planet_x(px, py, b, elapsed);
    let qy = planet_y(px, py, b, elapsed);
    let tx = cam.spec_tp_raw_x(qx);
    let ty = cam.spec_tp_raw_y(qy);
    let dr = disk_radius_of(b);
    &&& s.len() >= 4
    &&& s[0] is Polyline
    &&& s[0].stroke_of() == spec_orbit_stroke()
    &&& outline_samples(
        s[0].points_of(),
        cam,
        orbit_cx(px, b),
        orbit_cy(py, b),
        axmax(b),
        axmin(b),
        tilt_turns(b),
        spec_sample_count(fx_mul(axmax(b), cam.scale.raw as int)),
    )
    &&& s[1] is Segment
    &&& s[1].stroke_of() == spec_marker_stroke()
    &&& s[1].points_of()[0].rx() == tx - 4 * UNIT
    &&& s[1].points_of()[0].ry() == ty - 4 * UNIT
    &&& s[1].points_of()[1].rx() == tx + 4 * UNIT
    &&& s[1].points_of()[1].ry() == ty + 4 * UNIT
    &&& s[2] is Segment
    &&& s[2].stroke_of() == spec_marker_stroke()
    &&& s[2].points_of()[0].rx() == tx + 4 * UNIT
    &&& s[2].points_of()[0].ry() == ty - 4 * UNIT
    &&& s[2].points_of()[1].rx() == tx - 4 * UNIT
    &&& s[2].points_of()[1].ry() == ty + 4 * UNIT
    &&& s[3] is Polygon
    &&& s[3].fill_of() == spec_disk_fill()
    &&& s[3].stroke_of() == spec_disk_stroke()
    &&& outline_samples(
        s[3].points_of(),
        cam,
        qx,
        qy,
        dr,
        dr,
        0,
        spec_sample_count(fx_mul(dr, cam.scale.raw as int)),
    )
}

/// The primitives one body's subtree contributes: its own four, then its
/// moons' primitives laid out from the body's current position.
pub open spec fn body_emitted(
    s: Seq<Primitive>,
    cam: Camera2D,
    px: int,
    py: int,
    b: Body,
    elapsed: Fixed,
) -> bool
    decreases b,
{
    &&& s.len() == 4 * count_body(b)
    &&& body_own_prims(s, cam, px, py, b, elapsed)
    &&& forest_emitted(
        s.skip(4),
        cam,
        planet_x(px, py, b, elapsed),
        planet_y(px, py, b, elapsed),
        b.moons@,
        elapsed,
    )
}

/// The primitives a forest contributes from the parent position (px, py):
/// each body's subtree in the given sibling order, pre-order.
pub open spec fn forest_emitted(
    s: Seq<Primitive>,
    cam: Camera2D,
    px: int,
    py: int,
    bodies: Seq<Body>,
    elapsed: Fixed,
) -> bool
    decreases bodies,
{
    if bodies.len() == 0 {
        s.len() == 0
    } else {
        let tail = bodies.last();
        let pre = s.len() - 4 * count_body(tail);
        &&& s.len() == 4 * count_seq(bodies)
        &&& forest_emitted(s.take(pre), cam, px, py, bodies.drop_last(), elapsed)
        &&& body_emitted(s.skip(pre), cam, px, py, tail, elapsed)
    }
}

/// The orbital system to render: the primary star and the planet forest.
pub struct SpaceMap {
    pub star_radius: Fixed,
    pub star_color: Color,
    pub planets: Vec<Body>,
}

impl SpaceMap {
    /// Star in range, forest laid out from the world origin.
    pub open spec fn wf(self) -> bool {
        &&& 0 <= self.star_radius.raw <= WORLD_MAX
        &&& seq_fits(self.planets@, 0)
    }

    /// A map from a generated system.
    pub fn new(star_radius: Fixed, star_color: Color, planets: Vec<Body>) -> (r: SpaceMap)
        requires
            0 <= star_radius.raw <= WORLD_MAX,
            seq_fits(planets@, 0),
        ensures
            r.star_radius == star_radius,
            r.star_color == star_color,
            r.planets == planets,
            r.wf(),
    {
        SpaceMap { star_radius, star_color, planets }
    }

    /// One frame: the star's disk first, then every body's orbit outline,
    /// crosshair marker pair and disk, pre-order with siblings in their
    /// given order. For a forest of N bodies the frame holds exactly N + 1
    /// filled polygons, N orbit polylines and 2 N marker segments, and the
    /// whole sequence is a function of the map, camera and elapsed time.
    pub fn paint(&self, camera: &Camera2D, elapsed: Fixed) -> (r: Vec<Primitive>)
        requires
            self.wf(),
            camera.wf(),
            0 <= elapsed.raw <= ELAPSED_MAX,
        ensures
            r@.len() == 1 + 4 * count_seq(self.planets@),
            r@[0] is Polygon,
            r@[0].fill_of() == self.star_color,
            r@[0].stroke_of() == (Stroke { width: Fixed { raw: 0 }, color: self.star_color }),
            outline_samples(
                r@[0].points_of(),
                *camera,
                0,
                0,
                self.star_radius.raw as int,
                self.star_radius.raw as int,
                0,
                spec_sample_count(fx_mul(self.star_radius.raw as int, camera.scale.raw as int)),
            ),
            forest_emitted(r@.skip(1), *camera, 0, 0, self.planets@, elapsed),
            n_polygons(r@) == count_seq(self.planets@) + 1,
            n_polylines(r@) == count_seq(self.planets@),
            n_segments(r@) == 2 * count_seq(self.planets@),
    {
        let mut shapes: Vec<Primitive> = Vec::new();
        let star = Ellipsis::new_at_focal_pos(
            Vec2::zero(),
            Scalar::new([self.star_radius, self.star_radius]),
            Fixed { raw: 0 },
        );
        proof {
            assert(is_floor_sqrt(0, 0));
            assert(exists|c: int| is_floor_sqrt(c, 0));
            assert(is_floor_sqrt(sqrt_floor(0), 0));
            lemma_floor_sqrt_unique(0, sqrt_floor(0), 0);
            assert(sqrt_floor(0) == 0);
            vstd::arithmetic::div_mod::lemma_div_of0(UNIT as int);
            assert(fx_mul(0, spec_cos(0)) == 0);
            assert(fx_mul(0, spec_sin(0)) == 0);
            assert(star.pos.rx() == 0);
            assert(star.pos.ry() == 0);
            assert(star.axis.rx() == self.star_radius.raw);
            assert(star.axis.ry() == self.star_radius.raw);
        }
        let ghost pre = shapes@;
        star.draw(
            &mut shapes,
            camera,
            self.star_color,
            Stroke { width: Fixed { raw: 0 }, color: self.star_color },
        );
        proof {
            assert(spec_sample_count(fx_mul(star.axis.rx(), camera.scale.raw as int)) >= 200);
            lemma_counts_after_push(pre, shapes@);
        }
        self.planets_recursive(&mut shapes, camera, Vec2::zero(), &self.planets, elapsed, Ghost(0));
        proof {
            assert(shapes@[0] == shapes@.subrange(0, 1)[0]);
        }
        shapes
    }

    /// Walks the forest pre-order from the parent position pos, appending
    /// each body's orbit outline, marker pair and disk, then its moons from
    /// the body's own position; earlier elements of shapes are untouched.
    #[verifier::loop_isolation(false)]
    #[verifier::rlimit(100)]
    #[verifier::spinoff_prover]
    fn planets_recursive(
        &self,
        shapes: &mut Vec<Primitive>,
        camera: &Camera2D,
        pos: Vec2,
        planets: &Vec<Body>,
        elapsed: Fixed,
        Ghost(m): Ghost<int>,
    )
        requires
            camera.wf(),
            0 <= m,
            pos.bounded(m),
            seq_fits(planets@, m),
            0 <= elapsed.raw <= ELAPSED_MAX,
        ensures
            final(shapes)@.len() == old(shapes)@.len() + 4 * count_seq(planets@),
            final(shapes)@.subrange(0, old(shapes)@.len() as int) == old(shapes)@,
            forest_emitted(
                final(shapes)@.skip(old(shapes)@.len() as int),
                *camera,
                pos.rx(),
                pos.ry(),
                planets@,
                elapsed,
            ),
            n_polygons(final(shapes)@) == n_polygons(old(shapes)@) + count_seq(planets@),
            n_polylines(final(shapes)@) == n_polylines(old(shapes)@) + count_seq(planets@),
            n_segments(final(shapes)@) == n_segments(old(shapes)@) + 2 * count_seq(planets@),
        decreases planets@,
    {
        let ghost base = old(shapes)@.len() as int;
        let mut i: usize = 0;
        while i < planets.len()
            invariant
                0 <= i <= planets.len(),
                shapes@.len() == base + 4 * count_seq(planets@.take(i as int)),
                shapes@.subrange(0, base) == old(shapes)@,
                forest_emitted(
                    shapes@.skip(base),
                    *camera,
                    pos.rx(),
                    pos.ry(),
                    planets@.take(i as int),
                    elapsed,
                ),
                n_polygons(shapes@) == n_polygons(old(shapes)@) + count_seq(
                    planets@.take(i as int),
                ),
                n_polylines(shapes@) == n_polylines(old(shapes)@) + count_seq(
                    planets@.take(i as int),
                ),
                n_segments(shapes@) == n_segments(old(shapes)@) + 2 * count_seq(
                    planets@.take(i as int),
                ),
            decreases planets@.len() - i,
        {
            let planet = &planets[i];
            proof {
                lemma_seq_fits_index(planets@, m, i as int);
            }
            let ghost s_a = shapes@;
            let planet_pos = self.render_body(shapes, camera, pos, planet, elapsed, Ghost(m));
            let ghost s_b = shapes@;
            proof {
                let ghost pl = planets@[i as int];
                assert(decreases_to!(planets@ => pl));
                assert(decreases_to!(pl => pl.moons));
            }
            self.planets_recursive(
                shapes,
                camera,
                planet_pos,
                &planet.moons,
                elapsed,
                Ghost(m + 3 * axmax(planets@[i as int])),
            );
            let ghost s_c = shapes@;
            proof {
                let ghost pl = planets@[i as int];
                assert(planets@.take(i as int + 1).drop_last() =~= planets@.take(i as int));
                assert(planets@.take(i as int + 1).last() == pl);
                assert(count_body(pl) == 1 + count_seq(pl.moons@));
                assert(planet.moons@ == pl.moons@);
                // the new elements: the body's own four, then its moons' part
                assert(s_c.subrange(0, base) =~= old(shapes)@);
                let block = s_c.skip(s_a.len() as int);
                assert(block.len() == 4 * count_body(pl));
                assert(block[0] == s_b.skip(s_a.len() as int)[0]);
                assert(block[1] == s_b.skip(s_a.len() as int)[1]);
                assert(block[2] == s_b.skip(s_a.len() as int)[2]);
                assert(block[3] == s_b.skip(s_a.len() as int)[3]);
                assert(block.skip(4) =~= s_c.skip(s_b.len() as int));
                assert(body_own_prims(block, *camera, pos.rx(), pos.ry(), pl, elapsed));
                assert(body_emitted(block, *camera, pos.rx(), pos.ry(), pl, elapsed));
                // the earlier siblings' part is unchanged
                let whole = s_c.skip(base);
                assert(whole.take(whole.len() - 4 * count_body(pl)) =~= s_a.skip(base));
                assert(whole.skip(whole.len() - 4 * count_body(pl)) =~= block);
                assert(forest_emitted(
                    whole,
                    *camera,
                    pos.rx(),
                    pos.ry(),
                    planets@.take(i as int + 1),
                    elapsed,
                ));
            }
            i = i + 1;
        }
        proof {
            assert(planets@.take(planets@.len() as int) =~= planets@);
        }
    }

    /// One body's own primitives: its orbit outline anchored at the parent
    /// position, a fixed-size crosshair marker pair at its current position
    /// on the orbit, and its disk there. Returns the body's position, which
    /// seeds its moons' recursion.
    #[verifier::rlimit(100)]
    #[verifier::spinoff_prover]
    fn render_body(
        &self,
        shapes: &mut Vec<Primitive>,
        camera: &Camera2D,
        pos: Vec2,
        planet: &Body,
        elapsed: Fixed,
        Ghost(m): Ghost<int>,
    ) -> (planet_pos: Vec2)
        requires
            camera.wf(),
            0 <= m,
            pos.bounded(m),
            body_fits(*planet, m),
            0 <= elapsed.raw <= ELAPSED_MAX,
        ensures
            final(shapes)@.len() == old(shapes)@.len() + 4,
            final(shapes)@.subrange(0, old(shapes)@.len() as int) == old(shapes)@,
            body_own_prims(
                final(shapes)@.skip(old(shapes)@.len() as int),
                *camera,
                pos.rx(),
                pos.ry(),
                *planet,
                elapsed,
            ),
            planet_pos.rx() == planet_x(pos.rx(), pos.ry(), *planet, elapsed),
            planet_pos.ry() == planet_y(pos.rx(), pos.ry(), *planet, elapsed),
            n_polygons(final(shapes)@) == n_polygons(old(shapes)@) + 1,
            n_polylines(final(shapes)@) == n_polylines(old(shapes)@) + 1,
            n_segments(final(shapes)@) == n_segments(old(shapes)@) + 2,
            planet_pos.bounded(m + 3 * axmax(*planet)),
            planet_pos.wf(),
    {
        let ghost g0 = shapes@;
        let orbit_stroke = Stroke {
            width: Fixed { raw: 750_000 },
            color: Color { r: 128, g: 128, b: 128, a: 128 },
        };
        let marker_stroke = Stroke {
            width: Fixed { raw: 1_000_000 },
            color: Color { r: 128, g: 0, b: 0, a: 128 },
        };
        let disk_fill = Color { r: 128, g: 128, b: 128, a: 255 };
        let no_stroke = Stroke { width: Fixed { raw: 0 }, color: disk_fill };
        // the orbit's outline, anchored at the parent's focus
        proof {
            lemma_fx_div_bound_denom(planet.axial_tilt.raw as int, 360 * (UNIT as int));
        }
        let tilt = planet.axial_tilt.div(Fixed { raw: 360 * UNIT });
        let orbit = Ellipsis::new_at_focal_pos(pos, Scalar::new([planet.a, planet.b]), tilt);
        proof {
            assert(orbit.axis.rx() == axmax(*planet));
            assert(orbit.axis.ry() == axmin(*planet));
            assert(orbit.rotation.raw as int == tilt_turns(*planet));
            assert(orbit.pos.rx() == orbit_cx(pos.rx(), *planet));
            assert(orbit.pos.ry() == orbit_cy(pos.ry(), *planet));
        }
        orbit.draw_line(shapes, camera, orbit_stroke);
        let ghost g1 = shapes@;
        proof {
            assert(spec_sample_count(fx_mul(orbit.axis.rx(), camera.scale.raw as int)) >= 200);
            lemma_counts_after_push(g0, g1);
        }
        // the body's current position on it: 365 / period_days orbits per
        // simulated second
        let scaled = Fixed { raw: elapsed.raw * 365 };
        proof {
            lemma_fx_div_bound_denom(scaled.raw as int, planet.orbital_period_days.raw as int);
        }
        let phase = scaled.div(planet.orbital_period_days);
        let planet_pos = orbit.position_at(phase);
        proof {
            assert(phase.raw as int == phase_of(elapsed, *planet));
            assert(planet_pos.rx() == planet_x(pos.rx(), pos.ry(), *planet, elapsed));
            assert(planet_pos.ry() == planet_y(pos.rx(), pos.ry(), *planet, elapsed));
        }
        // a fixed-size screen-space crosshair marker at the position
        let t = camera.transform_point(planet_pos);
        let four = Fixed { raw: 4 * UNIT };
        let nfour = Fixed { raw: -4 * UNIT };
        shapes.push(
            Primitive::Segment {
                a: t.add(Scalar::new([nfour, nfour])),
                b: t.add(Scalar::new([four, four])),
                stroke: marker_stroke,
            },
        );
        let ghost g2 = shapes@;
        proof {
            assert(g2.subrange(0, g1.len() as int) =~= g1);
            lemma_counts_after_push(g1, g2);
        }
        shapes.push(
            Primitive::Segment {
                a: t.add(Scalar::new([four, nfour])),
                b: t.add(Scalar::new([nfour, four])),
                stroke: marker_stroke,
            },
        );
        let ghost g3 = shapes@;
        proof {
            assert(g3.subrange(0, g2.len() as int) =~= g2);
            lemma_counts_after_push(g2, g3);
        }
        // the body's disk, radius scaled by the unit conversion
        proof {
            lemma_fx_mul_bound(
                planet.radius.raw as int,
                1int,
                WORLD_MAX as int,
                1int,
                WORLD_MAX as int,
            );
            lemma_fx_mul_nonneg(planet.radius.raw as int, 1int);
        }
        let disk_radius = planet.radius.mul(Fixed { raw: 1 });
        let disk = Ellipsis::new(
            planet_pos,
            Scalar::new([disk_radius, disk_radius]),
            Fixed { raw: 0 },
        );
        disk.draw(shapes, camera, disk_fill, no_stroke);
        let ghost g4 = shapes@;
        proof {
            assert(spec_sample_count(fx_mul(disk.axis.rx(), camera.scale.raw as int)) >= 200);
            lemma_counts_after_push(g3, g4);
            let block = g4.skip(g0.len() as int);
            assert(g4.subrange(0, g0.len() as int) =~= g0);
            assert(block[0] == g1.last());
            assert(block[1] == g2.last());
            assert(block[2] == g3.last());
            assert(block[3] == g4.last());
            assert(disk.axis.rx() == disk_radius_of(*planet));
            assert(disk.axis.ry() == disk_radius_of(*planet));
            assert(body_own_prims(block, *camera, pos.rx(), pos.ry(), *planet, elapsed));
        }
        planet_pos
    }
}

} // verus!
