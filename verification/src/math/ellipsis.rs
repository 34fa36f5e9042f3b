//! Parametric ellipses and their screen-adaptive tessellation.
//!
//! An ellipse is stored with its geometric center, sorted semi-axes
//! (`a >= b >= 0`) and a rotation in turns. `position_at` evaluates the
//! parametric curve; `draw` and `draw_line` tessellate it into a filled
//! polygon or a closed polyline whose sample count adapts to the on-screen
//! size of the semi-major axis, with a floor of 200 samples and a
//! degenerate threshold of 5 below which nothing is emitted.

use vstd::prelude::*;
use crate::math::camera::{Camera2D, POINT_MAX, WORLD_MAX};
use crate::math::scalar::{
    abs_val, fx_mul, isqrt_raw, lemma_fx_mul_bound, lemma_fx_mul_nonneg, lemma_mul_bound,
    lemma_sin_periodic, lemma_tdiv_bound, spec_cos, spec_sin, sqrt_floor, tdiv, Fixed, Scalar,
    Vec2, UNIT,
};
use crate::widgets::{Color, Primitive, Stroke};

verus! {

/// An ellipse: geometric center, semi-axes (major first) and rotation in
/// turns.
pub struct Ellipsis {
    pub pos: Vec2,
    pub axis: Vec2,
    pub rotation: Fixed,
}

/// The phase angle, in raw turn-steps, of sample k out of n: the k-th of
/// n evenly spaced steps over one full revolution, each rounded down, so
/// the samples span the whole turn.
pub open spec fn spec_phase_raw(n: int, k: int) -> int {
    (k * (UNIT as int)) / n
}

/// The raw x coordinate of the curve point of an ellipse with center x
/// coordinate cx, semi-axes a and b and rotation rot, at phase ph (all raw).
pub open spec fn curve_x(cx: int, a: int, b: int, rot: int, ph: int) -> int {
    let x = fx_mul(a, spec_cos(ph));
    let y = fx_mul(b, spec_sin(ph));
    cx + fx_mul(x, spec_cos(rot)) - fx_mul(y, spec_sin(rot))
}

/// The raw y coordinate of the same curve point, from the center's y.
pub open spec fn curve_y(cy: int, a: int, b: int, rot: int, ph: int) -> int {
    let x = fx_mul(a, spec_cos(ph));
    let y = fx_mul(b, spec_sin(ph));
    cy + fx_mul(x, spec_sin(rot)) + fx_mul(y, spec_cos(rot))
}

/// The point sequence samples the screen outline of the ellipse with the
/// given raw center, semi-axes and rotation, in n evenly spaced phase steps
/// transformed through the camera.
pub open spec fn outline_samples(
    pts: Seq<Vec2>,
    cam: Camera2D,
    cx: int,
    cy: int,
    a: int,
    b: int,
    rot: int,
    n: int,
) -> bool {
    &&& pts.len() == n
    &&& forall|k: int|
        0 <= k < n ==> #[trigger] pts[k].rx() == cam.spec_tp_raw_x(
            curve_x(cx, a, b, rot, spec_phase_raw(n, k)),
        ) && pts[k].ry() == cam.spec_tp_raw_y(curve_y(cy, a, b, rot, spec_phase_raw(n, k)))
}

/// The adaptive sample count for an on-screen semi-major length of
/// len raw steps: the ceiling square root of (1 + the length in units),
/// floored at 200 samples.
pub open spec fn spec_sample_count(len: int) -> int {
    let w = 1 + (len + UNIT - 1) / (UNIT as int);
    let s = sqrt_floor(w);
    let n = if s * s == w {
        s
    } else {
        s + 1
    };
    if n < 200 {
        200
    } else {
        n
    }
}

impl Ellipsis {
    /// Sorted bounded axes, bounded center, in-range rotation.
    pub open spec fn wf(self) -> bool {
        &&& 0 <= self.axis.ry() <= self.axis.rx() <= WORLD_MAX
        &&& self.pos.bounded(3 * WORLD_MAX as int)
        &&& self.rotation.wf()
    }

    /// The raw x coordinate of the curve point at phase ph (raw turns).
    pub open spec fn spec_position_x(self, ph: int) -> int {
        curve_x(self.pos.rx(), self.axis.rx(), self.axis.ry(), self.rotation.raw as int, ph)
    }

    /// The raw y coordinate of the curve point at phase ph (raw turns).
    pub open spec fn spec_position_y(self, ph: int) -> int {
        curve_y(self.pos.ry(), self.axis.rx(), self.axis.ry(), self.rotation.raw as int, ph)
    }

    /// The semi-major axis.
    pub fn a(&self) -> (r: &Fixed)
        ensures
            r.raw == self.axis.rx(),
    {
        self.axis.x()
    }

    /// The semi-minor axis.
    pub fn b(&self) -> (r: &Fixed)
        ensures
            r.raw == self.axis.ry(),
    {
        self.axis.y()
    }

    /// An ellipse given by its geometric center; the axes are sorted so the
    /// larger one is the semi-major axis.
    pub fn new(pos: Vec2, axis: Vec2, rotation: Fixed) -> (r: Ellipsis)
        requires
            pos.bounded(3 * WORLD_MAX as int),
            0 <= axis.rx() <= WORLD_MAX,
            0 <= axis.ry() <= WORLD_MAX,
            rotation.wf(),
        ensures
            r.pos == pos,
            r.rotation == rotation,
            r.axis.rx() == if axis.rx() >= axis.ry() { axis.rx() } else { axis.ry() },
            r.axis.ry() == if axis.rx() >= axis.ry() { axis.ry() } else { axis.rx() },
            r.wf(),
    {
        let a = axis.x().max(*axis.y());
        let b = axis.x().min(*axis.y());
        Ellipsis { pos, axis: Scalar::new([a, b]), rotation }
    }

    /// An ellipse given by one focus: the geometric center is offset from
    /// the focus along the rotation direction by the focal distance
    /// `sqrt(a * a - b * b)` (its floor on the raw grid).
    pub fn new_at_focal_pos(pos: Vec2, axis: Vec2, rotation: Fixed) -> (r: Ellipsis)
        requires
            pos.bounded(2 * WORLD_MAX as int),
            0 <= axis.rx() <= WORLD_MAX,
            0 <= axis.ry() <= WORLD_MAX,
            rotation.wf(),
        ensures
            r.rotation == rotation,
            r.axis.rx() == if axis.rx() >= axis.ry() { axis.rx() } else { axis.ry() },
            r.axis.ry() == if axis.rx() >= axis.ry() { axis.ry() } else { axis.rx() },
            ({
                let c = sqrt_floor(r.axis.rx() * r.axis.rx() - r.axis.ry() * r.axis.ry());
                &&& r.pos.rx() == pos.rx() + fx_mul(c, spec_cos(rotation.raw as int))
                &&& r.pos.ry() == pos.ry() + fx_mul(c, spec_sin(rotation.raw as int))
            }),
            abs_val(r.pos.rx() - pos.rx()) <= r.axis.rx(),
            abs_val(r.pos.ry() - pos.ry()) <= r.axis.rx(),
            r.wf(),
    {
        let a = axis.x().max(*axis.y());
        let b = axis.x().min(*axis.y());
        let sorted = Scalar::new([a, b]);
        let center = Self::calc_focal_pos(pos, sorted, rotation);
        Ellipsis { pos: center, axis: sorted, rotation }
    }

    /// The geometric center of an ellipse whose focus sits at pos: the
    /// focal distance `sqrt(a * a - b * b)` laid out along the rotation.
    pub fn calc_focal_pos(pos: Vec2, axis: Vec2, rotation: Fixed) -> (r: Vec2)
        requires
            pos.bounded(2 * WORLD_MAX as int),
            0 <= axis.ry() <= axis.rx() <= WORLD_MAX,
            rotation.wf(),
        ensures
            ({
                let c = sqrt_floor(axis.rx() * axis.rx() - axis.ry() * axis.ry());
                &&& r.rx() == pos.rx() + fx_mul(c, spec_cos(rotation.raw as int))
                &&& r.ry() == pos.ry() + fx_mul(c, spec_sin(rotation.raw as int))
            }),
            abs_val(r.rx() - pos.rx()) <= axis.rx(),
            abs_val(r.ry() - pos.ry()) <= axis.rx(),
            r.bounded(3 * WORLD_MAX as int),
            r.wf(),
    {
        let ax = *axis.x();
        let ay = *axis.y();
        proof {
            assert(ax.raw * ax.raw <= WORLD_MAX * WORLD_MAX && ay.raw * ay.raw <= ax.raw
                * ax.raw && ay.raw * ay.raw >= 0) by (nonlinear_arith)
                requires
                    0 <= ay.raw <= ax.raw <= WORLD_MAX,
            ;
        }
        let m: i128 = ax.raw * ax.raw - ay.raw * ay.raw;
        let c = isqrt_raw(m);
        proof {
            assert(c <= ax.raw) by (nonlinear_arith)
                requires
                    0 <= c,
                    c * c <= m,
                    m <= ax.raw * ax.raw,
                    0 <= ax.raw,
            ;
        }
        let rc = rotation.cos();
        let rs = rotation.sin();
        let fc = Fixed { raw: c };
        proof {
            lemma_fx_mul_bound(c as int, rc.raw as int, c as int, UNIT as int, c as int);
            lemma_fx_mul_bound(c as int, rs.raw as int, c as int, UNIT as int, c as int);
        }
        let off = Scalar::new([fc.mul(rc), fc.mul(rs)]);
        pos.add(off)
    }

    /// The curve point at the given phase (in turns): the unrotated point
    /// `(a cos, b sin)` turned by the stored rotation and moved to the
    /// center. The point stays within `a + b` of the center on each axis.
    pub fn position_at(&self, phase: Fixed) -> (r: Vec2)
        requires
            self.wf(),
            phase.wf(),
        ensures
            r.rx() == self.spec_position_x(phase.raw as int),
            r.ry() == self.spec_position_y(phase.raw as int),
            abs_val(r.rx() - self.pos.rx()) <= self.axis.rx() + self.axis.ry(),
            abs_val(r.ry() - self.pos.ry()) <= self.axis.rx() + self.axis.ry(),
            r.bounded(POINT_MAX as int),
            r.wf(),
    {
        let c = phase.cos();
        let s = phase.sin();
        let a = *self.axis.x();
        let b = *self.axis.y();
        proof {
            lemma_fx_mul_bound(a.raw as int, c.raw as int, a.raw as int, UNIT as int, a.raw as int);
            lemma_fx_mul_bound(b.raw as int, s.raw as int, b.raw as int, UNIT as int, b.raw as int);
        }
        let x = a.mul(c);
        let y = b.mul(s);
        let rc = self.rotation.cos();
        let rs = self.rotation.sin();
        proof {
            lemma_fx_mul_bound(x.raw as int, rc.raw as int, a.raw as int, UNIT as int, a.raw as int);
            lemma_fx_mul_bound(x.raw as int, rs.raw as int, a.raw as int, UNIT as int, a.raw as int);
            lemma_fx_mul_bound(y.raw as int, rc.raw as int, b.raw as int, UNIT as int, b.raw as int);
            lemma_fx_mul_bound(y.raw as int, rs.raw as int, b.raw as int, UNIT as int, b.raw as int);
        }
        let px = self.pos.c[0].add(x.mul(rc).sub(y.mul(rs)));
        let py = self.pos.c[1].add(x.mul(rs).add(y.mul(rc)));
        Scalar::new([px, py])
    }

    /// The tessellation's sample count for an on-screen semi-major length:
    /// at least 200 samples, and exactly the adaptive formula.
    pub fn sample_count(len: Fixed) -> (r: usize)
        requires
            0 <= len.raw,
            len.wf(),
        ensures
            r as int == spec_sample_count(len.raw as int),
            200 <= r <= 2_000_000,
    {
        let wnum: i128 = len.raw + UNIT - 1;
        let q = exec_tdiv(wnum, UNIT);
        let w: i128 = 1 + q;
        proof {
            lemma_tdiv_bound(wnum as int, UNIT as int);
            assert(tdiv(wnum as int, UNIT as int) == (wnum as int) / (UNIT as int));
            assert((wnum as int) / (UNIT as int) >= 0) by {
                vstd::arithmetic::div_mod::lemma_div_pos_is_pos(wnum as int, UNIT as int);
            }
        }
        proof {
            vstd::arithmetic::div_mod::lemma_div_is_ordered(
                wnum as int,
                1_000_000_000_001 * (UNIT as int),
                UNIT as int,
            );
            vstd::arithmetic::div_mod::lemma_div_multiples_vanish(
                1_000_000_000_001int,
                UNIT as int,
            );
        }
        let s = isqrt_raw(w);
        proof {
            if s > 1_500_000 {
                vstd::arithmetic::mul::lemma_mul_inequality(1_500_001, s as int, s as int);
                vstd::arithmetic::mul::lemma_mul_inequality(1_500_001, s as int, 1_500_001);
                assert(false);
            }
        }
        proof {
            lemma_mul_bound(s as int, s as int, 1_500_000int, 1_500_000int);
        }
        let n: i128 = if s * s == w {
            s
        } else {
            s + 1
        };
        let r: i128 = if n < 200 {
            200
        } else {
            n
        };
        r as usize
    }

    /// The transformed sample points of one full revolution in n steps.
    #[verifier::loop_isolation(false)]
    fn sample_points(&self, camera: &Camera2D, n: usize) -> (pts: Vec<Vec2>)
        requires
            self.wf(),
            camera.wf(),
            1 <= n <= 2_000_000,
        ensures
            pts@.len() == n as int,
            forall|k: int|
                0 <= k < n ==> #[trigger] pts@[k].rx() == camera.spec_tp_raw_x(
                    self.spec_position_x(spec_phase_raw(n as int, k)),
                ) && pts@[k].ry() == camera.spec_tp_raw_y(
                    self.spec_position_y(spec_phase_raw(n as int, k)),
                ),
    {
        let mut pts: Vec<Vec2> = Vec::new();
        let mut k: usize = 0;
        while k < n
            invariant
                0 <= k <= n,
                pts@.len() == k as int,
                forall|j: int|
                    0 <= j < k ==> #[trigger] pts@[j].rx() == camera.spec_tp_raw_x(
                        self.spec_position_x(spec_phase_raw(n as int, j)),
                    ) && pts@[j].ry() == camera.spec_tp_raw_y(
                        self.spec_position_y(spec_phase_raw(n as int, j)),
                    ),
            decreases n - k,
        {
            let ph = Fixed { raw: exec_tdiv((k as i128) * UNIT, n as i128) };
            proof {
                lemma_tdiv_bound(k as int * (UNIT as int), n as int);
                assert(tdiv(k as int * (UNIT as int), n as int) == (k as int * (UNIT as int)) / (
                n as int));
                assert((k as int * (UNIT as int)) / (n as int) >= 0) by {
                    vstd::arithmetic::div_mod::lemma_div_pos_is_pos(
                        k as int * (UNIT as int),
                        n as int,
                    );
                }
                assert(ph.raw == spec_phase_raw(n as int, k as int));
            }
            let p = self.position_at(ph);
            let q = camera.transform_point(p);
            pts.push(q);
            k = k + 1;
        }
        pts
    }

    /// Tessellates the ellipse into a filled convex polygon of adaptively
    /// many screen-space samples and appends it; an ellipse whose sample
    /// count falls below 5 is degenerate and appends nothing.
    pub fn draw(&self, shapes: &mut Vec<Primitive>, camera: &Camera2D, fill: Color, stroke: Stroke)
        requires
            self.wf(),
            camera.wf(),
        ensures
            ({
                let n = spec_sample_count(fx_mul(self.axis.rx(), camera.scale.raw as int));
                &&& n < 5 ==> final(shapes)@ == old(shapes)@
                &&& n >= 5 ==> {
                    &&& final(shapes)@.len() == old(shapes)@.len() + 1
                    &&& final(shapes)@.subrange(0, old(shapes)@.len() as int) == old(shapes)@
                    &&& final(shapes)@.last() is Polygon
                    &&& final(shapes)@.last().fill_of() == fill
                    &&& final(shapes)@.last().stroke_of() == stroke
                    &&& self.sampled_outline(*camera, final(shapes)@.last().points_of(), n)
                }
            }),
    {
        let displacement = camera.transform_length(*self.a());
        proof {
            lemma_fx_mul_nonneg(self.axis.rx(), camera.scale.raw as int);
        }
        let points = Self::sample_count(displacement);
        if points < 5 {
            return ;
        }
        let pts = self.sample_points(camera, points);
        shapes.push(Primitive::Polygon { points: pts, fill, stroke });
        proof {
            assert(final(shapes)@.subrange(0, old(shapes)@.len() as int) =~= old(shapes)@);
        }
    }

    /// Tessellates the ellipse's outline into a closed polyline and appends
    /// it, under the same adaptive sampling and degenerate skip as `draw`.
    pub fn draw_line(&self, shapes: &mut Vec<Primitive>, camera: &Camera2D, stroke: Stroke)
        requires
            self.wf(),
            camera.wf(),
        ensures
            ({
                let n = spec_sample_count(fx_mul(self.axis.rx(), camera.scale.raw as int));
                &&& n < 5 ==> final(shapes)@ == old(shapes)@
                &&& n >= 5 ==> {
                    &&& final(shapes)@.len() == old(shapes)@.len() + 1
                    &&& final(shapes)@.subrange(0, old(shapes)@.len() as int) == old(shapes)@
                    &&& final(shapes)@.last() is Polyline
                    &&& final(shapes)@.last().stroke_of() == stroke
                    &&& self.sampled_outline(*camera, final(shapes)@.last().points_of(), n)
                }
            }),
    {
        let displacement = camera.transform_length(*self.a());
        proof {
            lemma_fx_mul_nonneg(self.axis.rx(), camera.scale.raw as int);
        }
        let points = Self::sample_count(displacement);
        if points < 5 {
            return ;
        }
        let pts = self.sample_points(camera, points);
        shapes.push(Primitive::Polyline { points: pts, stroke });
        proof {
            assert(final(shapes)@.subrange(0, old(shapes)@.len() as int) =~= old(shapes)@);
        }
    }

    /// The point sequence samples this ellipse's screen outline in n
    /// evenly spaced phase steps.
    pub open spec fn sampled_outline(self, camera: Camera2D, pts: Seq<Vec2>, n: int) -> bool {
        outline_samples(
            pts,
            camera,
            self.pos.rx(),
            self.pos.ry(),
            self.axis.rx(),
            self.axis.ry(),
            self.rotation.raw as int,
            n,
        )
    }
}

/// The curve is periodic: one full turn of phase returns the same point.
pub proof fn lemma_position_periodic(e: Ellipsis, phase: int)
    ensures
        e.spec_position_x(phase + UNIT) == e.spec_position_x(phase),
        e.spec_position_y(phase + UNIT) == e.spec_position_y(phase),
{
    lemma_sin_periodic(phase);
}

/// Truncating division on non-negative raw values.
fn exec_tdiv(a: i128, b: i128) -> (r: i128)
    requires
        0 <= a,
        0 < b,
    ensures
        r == tdiv(a as int, b as int),
{
    proof {
        lemma_tdiv_bound(a as int, b as int);
    }
    match a.checked_div(b) {
        Some(q) => q,
        None => {
            proof {
                assert(false);
            }
            0
        },
    }
}

} // verus!
