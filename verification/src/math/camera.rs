//! The world-to-screen camera: pan, zoom and the affine point transform.
//!
//! The exec methods state exactly which fixed-point value every field takes;
//! the proof functions at the end state the geometric laws of the transform
//! (zoom anchoring, affineness, pan reversibility) — the first two over an
//! exact rational model of the same formulas, since fixed-point rounding
//! perturbs them by at most one raw step per operation.

use vstd::prelude::*;
use crate::math::rect::Rect;
use crate::math::scalar::{
    abs_val, fits, fx_div, fx_mul, lemma_fx_div_bound, lemma_fx_mul_bound, lemma_fx_mul_error,
    lemma_tdiv_error, lemma_tdiv_neg, Fixed, Vec2, UNIT,
};
use vstd::arithmetic::div_mod::{lemma_div_is_ordered, lemma_div_multiples_vanish};

verus! {

/// Largest world-coordinate magnitude (raw) the camera is posed in.
pub const WORLD_MAX: i128 = 10_000_000_000_000;

/// Largest raw magnitude of a world point handed to the transform.
pub const POINT_MAX: i128 = 50_000_000_000_000;

/// Largest zoom factor (raw): a thousandfold magnification.
pub const SCALE_MAX: i128 = 1_000_000_000;

/// Largest half-screen extent (raw).
pub const SIZE_MAX: i128 = 10_000_000_000;

/// Half of one unit (raw): the factor that halves a viewport size.
pub const HALF_UNIT: i128 = 500_000;

/// Camera optimized to keep the screen stable as it is resized or scaled.
#[derive(Clone, Copy, Debug, PartialEq, Eq)]
pub struct Camera2D {
    /// half the size of the screen, in screen units
    pub size: Vec2,
    /// the world point at the center of the screen
    pub pos: Vec2,
    /// screen units per world unit
    pub scale: Fixed,
}

impl Default for Camera2D {
    /// Centered on the world origin at unit zoom, with no viewport yet.
    fn default() -> (r: Camera2D)
        ensures
            r.size.rx() == 0,
            r.size.ry() == 0,
            r.pos.rx() == 0,
            r.pos.ry() == 0,
            r.scale.raw == UNIT,
            r.wf(),
    {
        Camera2D { size: Vec2::zero(), pos: Vec2::zero(), scale: Fixed { raw: UNIT } }
    }
}

impl Camera2D {
    /// A usable camera pose: positive bounded zoom, bounded position,
    /// non-negative bounded half-size.
    pub open spec fn wf(self) -> bool {
        &&& 0 < self.scale.raw <= SCALE_MAX
        &&& self.pos.bounded(WORLD_MAX as int)
        &&& 0 <= self.size.rx() <= SIZE_MAX
        &&& 0 <= self.size.ry() <= SIZE_MAX
    }

    /// The raw x coordinate the transform maps a raw world x to.
    pub open spec fn spec_tp_raw_x(self, px: int) -> int {
        fx_mul(px - self.pos.rx(), self.scale.raw as int) + self.size.rx()
    }

    /// The raw y coordinate the transform maps a raw world y to.
    pub open spec fn spec_tp_raw_y(self, py: int) -> int {
        fx_mul(py - self.pos.ry(), self.scale.raw as int) + self.size.ry()
    }

    /// The raw x coordinate `transform_point` maps a world point to.
    pub open spec fn spec_tp_x(self, p: Vec2) -> int {
        self.spec_tp_raw_x(p.rx())
    }

    /// The raw y coordinate `transform_point` maps a world point to.
    pub open spec fn spec_tp_y(self, p: Vec2) -> int {
        self.spec_tp_raw_y(p.ry())
    }

    /// The raw x position after a screen-space pan by delta.
    pub open spec fn spec_pan_x(self, delta: Vec2) -> int {
        self.pos.rx() - fx_div(delta.rx(), self.scale.raw as int)
    }

    /// The raw y position after a screen-space pan by delta.
    pub open spec fn spec_pan_y(self, delta: Vec2) -> int {
        self.pos.ry() - fx_div(delta.ry(), self.scale.raw as int)
    }

    /// The raw zoom after scaling by delta.
    pub open spec fn spec_zoom_scale(self, delta: Fixed) -> int {
        fx_mul(self.scale.raw as int, delta.raw as int)
    }

    /// The raw x position after zooming by delta anchored at position.
    pub open spec fn spec_zoom_pos_x(self, position: Vec2, delta: Fixed) -> int {
        let off = position.rx() - self.size.rx();
        self.pos.rx() + fx_div(off, self.scale.raw as int) - fx_div(
            off,
            self.spec_zoom_scale(delta),
        )
    }

    /// The raw y position after zooming by delta anchored at position.
    pub open spec fn spec_zoom_pos_y(self, position: Vec2, delta: Fixed) -> int {
        let off = position.ry() - self.size.ry();
        self.pos.ry() + fx_div(off, self.scale.raw as int) - fx_div(
            off,
            self.spec_zoom_scale(delta),
        )
    }

    /// A camera with the given pose.
    ///
    /// The default pose is centered on the origin at unit zoom.
    pub fn new(size: Vec2, pos: Vec2, scale: Fixed) -> (r: Camera2D)
        ensures
            r.size == size,
            r.pos == pos,
            r.scale == scale,
    {
        Camera2D { size, pos, scale }
    }

    /// Stores half of the given viewport size; called every frame and
    /// idempotent while the viewport does not change.
    pub fn set_size(&mut self, size: Vec2)
        requires
            old(self).wf(),
            0 <= size.rx() <= 2 * SIZE_MAX,
            0 <= size.ry() <= 2 * SIZE_MAX,
        ensures
            final(self).size.rx() == fx_mul(size.rx(), HALF_UNIT as int),
            final(self).size.ry() == fx_mul(size.ry(), HALF_UNIT as int),
            final(self).pos == old(self).pos,
            final(self).scale == old(self).scale,
            final(self).wf(),
    {
        proof {
            lemma_fx_mul_bound(
                size.rx(),
                HALF_UNIT as int,
                2 * SIZE_MAX as int,
                HALF_UNIT as int,
                SIZE_MAX as int,
            );
            lemma_fx_mul_bound(
                size.ry(),
                HALF_UNIT as int,
                2 * SIZE_MAX as int,
                HALF_UNIT as int,
                SIZE_MAX as int,
            );
            assert(fx_mul(size.rx(), HALF_UNIT as int) >= 0) by {
                vstd::arithmetic::div_mod::lemma_div_pos_is_pos(
                    size.rx() * (HALF_UNIT as int),
                    UNIT as int,
                );
                assert(size.rx() * (HALF_UNIT as int) >= 0) by (nonlinear_arith)
                    requires
                        size.rx() >= 0,
                ;
            }
            assert(fx_mul(size.ry(), HALF_UNIT as int) >= 0) by {
                vstd::arithmetic::div_mod::lemma_div_pos_is_pos(
                    size.ry() * (HALF_UNIT as int),
                    UNIT as int,
                );
                assert(size.ry() * (HALF_UNIT as int) >= 0) by (nonlinear_arith)
                    requires
                        size.ry() >= 0,
                ;
            }
        }
        self.size = size.mul(Fixed { raw: HALF_UNIT });
    }

    /// Pans by a screen-space delta: a drag of a fixed number of pixels
    /// moves the view the same number of pixels at any zoom level.
    pub fn translate_screen(&mut self, delta: Vec2)
        requires
            old(self).wf(),
            delta.wf(),
            abs_val(old(self).spec_pan_x(delta)) <= WORLD_MAX,
            abs_val(old(self).spec_pan_y(delta)) <= WORLD_MAX,
        ensures
            final(self).pos.rx() == old(self).spec_pan_x(delta),
            final(self).pos.ry() == old(self).spec_pan_y(delta),
            final(self).size == old(self).size,
            final(self).scale == old(self).scale,
            final(self).wf(),
    {
        proof {
            lemma_fx_div_bound(delta.rx(), self.scale.raw as int);
            lemma_fx_div_bound(delta.ry(), self.scale.raw as int);
        }
        let shift = delta.div(self.scale);
        self.pos = self.pos.sub(shift);
    }

    /// Pans directly in world units.
    pub fn translate_world(&mut self, delta: Vec2)
        requires
            old(self).wf(),
            delta.wf(),
            abs_val(old(self).pos.rx() - delta.rx()) <= WORLD_MAX,
            abs_val(old(self).pos.ry() - delta.ry()) <= WORLD_MAX,
        ensures
            final(self).pos.rx() == old(self).pos.rx() - delta.rx(),
            final(self).pos.ry() == old(self).pos.ry() - delta.ry(),
            final(self).size == old(self).size,
            final(self).scale == old(self).scale,
            final(self).wf(),
    {
        self.pos = self.pos.sub(delta);
    }

    /// Multiplies the zoom by delta while keeping the world point under the
    /// screen anchor position visually fixed: the position is moved toward
    /// the anchor by its offset at the old zoom and back by its offset at
    /// the new one. `lemma_zoom_anchor` states the law this follows.
    pub fn scale_by_on_screen(&mut self, position: Vec2, delta: Fixed)
        requires
            old(self).wf(),
            delta.wf(),
            delta.raw > 0,
            position.bounded(2 * SIZE_MAX as int),
            0 < old(self).spec_zoom_scale(delta) <= SCALE_MAX,
            abs_val(old(self).spec_zoom_pos_x(position, delta)) <= WORLD_MAX,
            abs_val(old(self).spec_zoom_pos_y(position, delta)) <= WORLD_MAX,
        ensures
            final(self).scale.raw == old(self).spec_zoom_scale(delta),
            final(self).pos.rx() == old(self).spec_zoom_pos_x(position, delta),
            final(self).pos.ry() == old(self).spec_zoom_pos_y(position, delta),
            final(self).size == old(self).size,
            final(self).wf(),
    {
        let ghost c0 = *self;
        let screen_pos = position.sub(self.size);
        proof {
            lemma_fx_div_bound(screen_pos.rx(), self.scale.raw as int);
            lemma_fx_div_bound(screen_pos.ry(), self.scale.raw as int);
        }
        let q1 = screen_pos.div(self.scale);
        self.pos = self.pos.add(q1);
        self.scale = self.scale.mul(delta);
        proof {
            lemma_fx_div_bound(screen_pos.rx(), self.scale.raw as int);
            lemma_fx_div_bound(screen_pos.ry(), self.scale.raw as int);
        }
        let q2 = screen_pos.div(self.scale);
        self.pos = self.pos.sub(q2);
    }

    /// Maps a world point to screen coordinates:
    /// `(point - pos) * scale + size`.
    pub fn transform_point(&self, point: Vec2) -> (r: Vec2)
        requires
            self.wf(),
            point.bounded(POINT_MAX as int),
        ensures
            r.rx() == self.spec_tp_x(point),
            r.ry() == self.spec_tp_y(point),
            r.bounded(POINT_MAX as int * SCALE_MAX as int / (UNIT as int) + SIZE_MAX as int
                + WORLD_MAX as int * SCALE_MAX as int / (UNIT as int)),
            r.wf(),
    {
        proof {
            lemma_fx_mul_bound(
                point.rx() - self.pos.rx(),
                self.scale.raw as int,
                POINT_MAX as int + WORLD_MAX as int,
                SCALE_MAX as int,
                60_000_000_000_000_000int,
            );
            lemma_fx_mul_bound(
                point.ry() - self.pos.ry(),
                self.scale.raw as int,
                POINT_MAX as int + WORLD_MAX as int,
                SCALE_MAX as int,
                60_000_000_000_000_000int,
            );
        }
        point.sub(self.pos).mul(self.scale).add(self.size)
    }

    /// Maps a world-space length to a screen-space length:
    /// `length * scale`.
    pub fn transform_length(&self, length: Fixed) -> (r: Fixed)
        requires
            self.wf(),
            length.wf(),
            abs_val(length.raw as int) <= POINT_MAX,
        ensures
            r.raw == fx_mul(length.raw as int, self.scale.raw as int),
            abs_val(r.raw as int) <= POINT_MAX as int * SCALE_MAX as int / (UNIT as int),
            r.wf(),
    {
        proof {
            lemma_fx_mul_bound(
                length.raw as int,
                self.scale.raw as int,
                POINT_MAX as int,
                SCALE_MAX as int,
                50_000_000_000_000_000int,
            );
        }
        length.mul(self.scale)
    }

    /// The world-space box currently visible, for viewport culling:
    /// centered on the camera with radius `size / scale`.
    pub fn world_rect(&self) -> (r: Rect)
        requires
            self.wf(),
        ensures
            r.top_left.rx() == self.pos.rx() - fx_div(self.size.rx(), self.scale.raw as int),
            r.top_left.ry() == self.pos.ry() - fx_div(self.size.ry(), self.scale.raw as int),
            r.bottom_right.rx() == self.pos.rx() + fx_div(
                self.size.rx(),
                self.scale.raw as int,
            ),
            r.bottom_right.ry() == self.pos.ry() + fx_div(
                self.size.ry(),
                self.scale.raw as int,
            ),
    {
        proof {
            lemma_fx_div_bound(self.size.rx(), self.scale.raw as int);
            lemma_fx_div_bound(self.size.ry(), self.scale.raw as int);
        }
        let radius = self.size.div(self.scale);
        Rect::from_center_and_radius(self.pos, radius)
    }
}

/// An exact rational, the ideal-arithmetic model of one camera coordinate.
pub struct Rat {
    pub n: int,
    pub d: int,
}

/// A usable rational: positive denominator.
pub open spec fn rat_wf(a: Rat) -> bool {
    a.d > 0
}

/// Two rationals stand for the same value.
pub open spec fn rat_eq(a: Rat, b: Rat) -> bool {
    a.n * b.d == b.n * a.d
}

pub open spec fn rat_add(a: Rat, b: Rat) -> Rat {
    Rat { n: a.n * b.d + b.n * a.d, d: a.d * b.d }
}

pub open spec fn rat_sub(a: Rat, b: Rat) -> Rat {
    Rat { n: a.n * b.d - b.n * a.d, d: a.d * b.d }
}

pub open spec fn rat_mul(a: Rat, b: Rat) -> Rat {
    Rat { n: a.n * b.n, d: a.d * b.d }
}

pub open spec fn rat_div(a: Rat, b: Rat) -> Rat {
    Rat { n: a.n * b.d, d: a.d * b.n }
}

/// The ideal transform of one world coordinate x:
/// `(x - pos) * scale + size`.
pub open spec fn rat_transform(x: Rat, pos: Rat, scale: Rat, size: Rat) -> Rat {
    rat_add(rat_mul(rat_sub(x, pos), scale), size)
}

/// Two rationals equal to a third with a positive denominator are equal.
pub proof fn lemma_rat_eq_trans(a: Rat, b: Rat, c: Rat)
    requires
        rat_eq(a, b),
        rat_eq(b, c),
        b.d != 0,
    ensures
        rat_eq(a, c),
{
    assert(a.n * c.d == c.n * a.d) by (nonlinear_arith)
        requires
            a.n * b.d == b.n * a.d,
            b.n * c.d == c.n * b.d,
            b.d != 0,
    ;
}

/// Equal rationals stay equal when both are multiplied by the same one.
pub proof fn lemma_rat_mul_congr(a: Rat, b: Rat, c: Rat)
    requires
        rat_eq(a, b),
    ensures
        rat_eq(rat_mul(a, c), rat_mul(b, c)),
{
    assert((a.n * c.n) * (b.d * c.d) == (b.n * c.n) * (a.d * c.d)) by (nonlinear_arith)
        requires
            a.n * b.d == b.n * a.d,
    ;
}

/// Equal rationals stay equal when the same one is added to both.
pub proof fn lemma_rat_add_congr(a: Rat, b: Rat, c: Rat)
    requires
        rat_eq(a, b),
    ensures
        rat_eq(rat_add(a, c), rat_add(b, c)),
{
    assert((a.n * c.d + c.n * a.d) * (b.d * c.d) == (b.n * c.d + c.n * b.d) * (a.d * c.d))
        by (nonlinear_arith)
        requires
            a.n * b.d == b.n * a.d,
    ;
}

/// x - (x - y) stands for y.
pub proof fn lemma_rat_sub_sub(x: Rat, y: Rat)
    ensures
        rat_eq(rat_sub(x, rat_sub(x, y)), y),
{
    let l = rat_sub(x, rat_sub(x, y));
    assert(l.n * y.d == y.n * l.d) by (nonlinear_arith)
        requires
            l == rat_sub(x, rat_sub(x, y)),
    ;
}

/// (x / y) * y stands for x.
pub proof fn lemma_rat_div_mul_cancel(x: Rat, y: Rat)
    ensures
        rat_eq(rat_mul(rat_div(x, y), y), x),
{
    let l = rat_mul(rat_div(x, y), y);
    assert(l.n * x.d == x.n * l.d) by (nonlinear_arith)
        requires
            l == rat_mul(rat_div(x, y), y),
    ;
}

/// (x - y) + y stands for x.
pub proof fn lemma_rat_sub_add_cancel(x: Rat, y: Rat)
    ensures
        rat_eq(rat_add(rat_sub(x, y), y), x),
{
    let l = rat_add(rat_sub(x, y), y);
    assert(l.n * x.d == x.n * l.d) by (nonlinear_arith)
        requires
            l == rat_add(rat_sub(x, y), y),
    ;
}

/// (x + z) - (y + z) stands for x - y.
pub proof fn lemma_rat_add_sub(x: Rat, y: Rat, z: Rat)
    ensures
        rat_eq(rat_sub(rat_add(x, z), rat_add(y, z)), rat_sub(x, y)),
{
    let l = rat_sub(rat_add(x, z), rat_add(y, z));
    let r = rat_sub(x, y);
    let a = x.n;
    let b = x.d;
    let c = y.n;
    let d = y.d;
    let e = z.n;
    let f = z.d;
    let w = a * d - c * b;
    assert((a * f + e * b) * (d * f) == (a * f) * (d * f) + (e * b) * (d * f))
        by (nonlinear_arith);
    assert((c * f + e * d) * (b * f) == (c * f) * (b * f) + (e * d) * (b * f))
        by (nonlinear_arith);
    assert((a * f) * (d * f) == ((a * d) * f) * f) by (nonlinear_arith);
    assert((c * f) * (b * f) == ((c * b) * f) * f) by (nonlinear_arith);
    assert((e * b) * (d * f) == (e * d) * (b * f)) by (nonlinear_arith);
    assert(((a * d) * f) * f - ((c * b) * f) * f == (w * f) * f) by (nonlinear_arith)
        requires
            w == a * d - c * b,
    ;
    assert(((w * f) * f) * (b * d) == w * ((b * f) * (d * f))) by (nonlinear_arith);
    assert(l.n == (a * f + e * b) * (d * f) - (c * f + e * d) * (b * f));
    assert(l.d == (b * f) * (d * f));
}

/// u * s - v * s stands for (u - v) * s.
pub proof fn lemma_rat_mul_sub_distrib(u: Rat, v: Rat, s: Rat)
    ensures
        rat_eq(rat_sub(rat_mul(u, s), rat_mul(v, s)), rat_mul(rat_sub(u, v), s)),
{
    let l = rat_sub(rat_mul(u, s), rat_mul(v, s));
    let r = rat_mul(rat_sub(u, v), s);
    let a = u.n;
    let b = u.d;
    let c = v.n;
    let d = v.d;
    let e = s.n;
    let f = s.d;
    let w = a * d - c * b;
    assert((a * e) * (d * f) == ((a * d) * e) * f) by (nonlinear_arith);
    assert((c * e) * (b * f) == ((c * b) * e) * f) by (nonlinear_arith);
    assert(((a * d) * e) * f - ((c * b) * e) * f == ((a * d) * e - (c * b) * e) * f)
        by (nonlinear_arith);
    assert((a * d) * e - (c * b) * e == w * e) by (nonlinear_arith)
        requires
            w == a * d - c * b,
    ;
    assert((w * e) * f == w * (e * f)) by (nonlinear_arith);
    assert((w * (e * f)) * ((b * d) * f) == (w * e) * ((b * f) * (d * f))) by (nonlinear_arith);
    assert(l.n == (a * e) * (d * f) - (c * e) * (b * f));
    assert(l.d == (b * f) * (d * f));
}

/// (a - p) - (b - p) stands for a - b.
pub proof fn lemma_rat_sub_cancel(a: Rat, b: Rat, p: Rat)
    ensures
        rat_eq(rat_sub(rat_sub(a, p), rat_sub(b, p)), rat_sub(a, b)),
{
    let l = rat_sub(rat_sub(a, p), rat_sub(b, p));
    let r = rat_sub(a, b);
    let an = a.n;
    let ad = a.d;
    let bn = b.n;
    let bd = b.d;
    let pn = p.n;
    let pd = p.d;
    let w = an * bd - bn * ad;
    assert((an * pd - pn * ad) * (bd * pd) == (an * pd) * (bd * pd) - (pn * ad) * (bd * pd))
        by (nonlinear_arith);
    assert((bn * pd - pn * bd) * (ad * pd) == (bn * pd) * (ad * pd) - (pn * bd) * (ad * pd))
        by (nonlinear_arith);
    assert((an * pd) * (bd * pd) == ((an * bd) * pd) * pd) by (nonlinear_arith);
    assert((bn * pd) * (ad * pd) == ((bn * ad) * pd) * pd) by (nonlinear_arith);
    assert((pn * ad) * (bd * pd) == (pn * bd) * (ad * pd)) by (nonlinear_arith);
    assert(((an * bd) * pd) * pd - ((bn * ad) * pd) * pd == (w * pd) * pd) by (nonlinear_arith)
        requires
            w == an * bd - bn * ad,
    ;
    assert(((w * pd) * pd) * (ad * bd) == w * ((ad * pd) * (bd * pd))) by (nonlinear_arith);
    assert(l.n == (an * pd - pn * ad) * (bd * pd) - (bn * pd - pn * bd) * (ad * pd));
    assert(l.d == (ad * pd) * (bd * pd));
}

/// Zoom anchor law: in exact arithmetic, the world coordinate that the
/// transform maps to the anchor before `scale_by_on_screen`'s update is
/// mapped to the anchor again after it, for every positive zoom factor.
/// The fixed-point fields follow these formulas with rounding toward zero,
/// so on screen the anchor is stable to within a pixel fraction.
pub proof fn lemma_zoom_anchor(pos: Rat, size: Rat, scale: Rat, anchor: Rat, factor: Rat)
    requires
        rat_wf(pos),
        rat_wf(size),
        rat_wf(scale),
        rat_wf(anchor),
        rat_wf(factor),
        scale.n > 0,
        factor.n > 0,
    ensures
        ({
            let off = rat_sub(anchor, size);
            let w = rat_add(pos, rat_div(off, scale));
            let scale2 = rat_mul(scale, factor);
            let pos2 = rat_sub(rat_add(pos, rat_div(off, scale)), rat_div(off, scale2));
            rat_eq(rat_transform(w, pos2, scale2, size), anchor)
        }),
{
    let off = rat_sub(anchor, size);
    let w = rat_add(pos, rat_div(off, scale));
    let scale2 = rat_mul(scale, factor);
    let pos2 = rat_sub(w, rat_div(off, scale2));
    // w - pos2 stands for off / scale2
    lemma_rat_sub_sub(w, rat_div(off, scale2));
    // so (w - pos2) * scale2 stands for (off / scale2) * scale2, which is off
    lemma_rat_mul_congr(rat_sub(w, pos2), rat_div(off, scale2), scale2);
    lemma_rat_div_mul_cancel(off, scale2);
    let mid = rat_mul(rat_div(off, scale2), scale2);
    assert(mid.d != 0) by (nonlinear_arith)
        requires
            mid == rat_mul(rat_div(rat_sub(anchor, size), rat_mul(scale, factor)), rat_mul(scale, factor)),
            anchor.d > 0,
            size.d > 0,
            scale.d > 0,
            factor.d > 0,
            scale.n > 0,
            factor.n > 0,
    ;
    lemma_rat_eq_trans(rat_mul(rat_sub(w, pos2), scale2), mid, off);
    // adding back the size offset lands on the anchor
    lemma_rat_add_congr(rat_mul(rat_sub(w, pos2), scale2), off, size);
    lemma_rat_sub_add_cancel(anchor, size);
    let mid2 = rat_add(off, size);
    assert(mid2.d != 0) by (nonlinear_arith)
        requires
            mid2 == rat_add(rat_sub(anchor, size), size),
            anchor.d > 0,
            size.d > 0,
    ;
    lemma_rat_eq_trans(rat_transform(w, pos2, scale2, size), mid2, anchor);
}

/// Affine law: in exact arithmetic the transform of two world coordinates
/// differs by exactly their world difference times the zoom.
pub proof fn lemma_transform_affine(a: Rat, b: Rat, pos: Rat, scale: Rat, size: Rat)
    requires
        rat_wf(a),
        rat_wf(b),
        rat_wf(pos),
        rat_wf(scale),
        rat_wf(size),
    ensures
        rat_eq(
            rat_sub(rat_transform(a, pos, scale, size), rat_transform(b, pos, scale, size)),
            rat_mul(rat_sub(a, b), scale),
        ),
{
    let u = rat_sub(a, pos);
    let v = rat_sub(b, pos);
    // the size offsets cancel in the difference
    lemma_rat_add_sub(rat_mul(u, scale), rat_mul(v, scale), size);
    // the zoom distributes over the world difference
    lemma_rat_mul_sub_distrib(u, v, scale);
    let mid = rat_sub(rat_mul(u, scale), rat_mul(v, scale));
    assert(mid.d != 0) by (nonlinear_arith)
        requires
            mid == rat_sub(rat_mul(rat_sub(a, pos), scale), rat_mul(rat_sub(b, pos), scale)),
            a.d > 0,
            b.d > 0,
            pos.d > 0,
            scale.d > 0,
    ;
    lemma_rat_eq_trans(
        rat_sub(rat_transform(a, pos, scale, size), rat_transform(b, pos, scale, size)),
        mid,
        rat_mul(rat_sub(u, v), scale),
    );
    // and the common position offset cancels inside the difference
    lemma_rat_sub_cancel(a, b, pos);
    lemma_rat_mul_congr(rat_sub(u, v), rat_sub(a, b), scale);
    let mid2 = rat_mul(rat_sub(u, v), scale);
    assert(mid2.d != 0) by (nonlinear_arith)
        requires
            mid2 == rat_mul(rat_sub(rat_sub(a, pos), rat_sub(b, pos)), scale),
            a.d > 0,
            b.d > 0,
            pos.d > 0,
            scale.d > 0,
    ;
    lemma_rat_eq_trans(
        rat_sub(rat_transform(a, pos, scale, size), rat_transform(b, pos, scale, size)),
        mid2,
        rat_mul(rat_sub(a, b), scale),
    );
}

/// Affine law carried to fixed point, with its rounding tolerance: the
/// screen x coordinates the transform gives two world x coordinates differ
/// from the world difference times the zoom by less than two raw steps
/// (stated in pre-division units, scaled by UNIT). Together with
/// `lemma_transform_affine` this bounds how far the executable transform
/// strays from the exact model: one truncation per coordinate.
pub proof fn lemma_transform_affine_fixed(cam: Camera2D, ax: int, bx: int)
    ensures
        abs_val(
            (cam.spec_tp_raw_x(ax) - cam.spec_tp_raw_x(bx)) * (UNIT as int) - (ax - bx) * (
            cam.scale.raw as int),
        ) < 2 * UNIT,
{
    let s = cam.scale.raw as int;
    let p = cam.pos.rx();
    lemma_fx_mul_error(ax - p, s);
    lemma_fx_mul_error(bx - p, s);
    assert((ax - bx) * s == (ax - p) * s - (bx - p) * s) by (nonlinear_arith);
    assert((fx_mul(ax - p, s) - fx_mul(bx - p, s)) * (UNIT as int) == fx_mul(ax - p, s) * (
    UNIT as int) - fx_mul(bx - p, s) * (UNIT as int)) by (nonlinear_arith);
}

/// Zoom anchor law carried to fixed point, with its rounding tolerance:
/// for a world x coordinate wx that the camera maps exactly to the anchor,
/// the camera updated by `scale_by_on_screen`'s formulas maps wx back to
/// within about (UNIT / scale + 1) new-scale steps of the anchor (stated in
/// pre-division units, scaled by UNIT): one truncation in each of the two
/// position corrections and one per transform. At a zoom of one or more
/// this is below (3 * new scale + UNIT) pre-division units, a fraction of
/// a screen pixel. `lemma_zoom_anchor` states the same law exactly over
/// the rational model.
pub proof fn lemma_zoom_anchor_fixed(cam: Camera2D, anchor_x: int, wx: int, delta: Fixed)
    requires
        cam.wf(),
        0 < cam.spec_zoom_scale(delta),
        fx_mul(wx - cam.pos.rx(), cam.scale.raw as int) + cam.size.rx() == anchor_x,
    ensures
        ({
            let s = cam.scale.raw as int;
            let s2 = cam.spec_zoom_scale(delta);
            let off = anchor_x - cam.size.rx();
            let px2 = cam.pos.rx() + fx_div(off, s) - fx_div(off, s2);
            let after = fx_mul(wx - px2, s2) + cam.size.rx();
            abs_val(after - anchor_x) * (UNIT as int) < (((UNIT as int) + s - 1) / s + 1) * s2
                + UNIT
        }),
{
    let u = UNIT as int;
    let s = cam.scale.raw as int;
    let s2 = cam.spec_zoom_scale(delta);
    let p = cam.pos.rx();
    let off = anchor_x - cam.size.rx();
    let q1 = fx_div(off, s);
    let q2 = fx_div(off, s2);
    let px2 = p + q1 - q2;
    let after_m = fx_mul(wx - px2, s2);
    let k = (u + s - 1) / s;
    lemma_fx_mul_error(wx - p, s);
    lemma_tdiv_error(off * u, s);
    lemma_tdiv_error(off * u, s2);
    lemma_fx_mul_error(wx - px2, s2);
    let d = (wx - p) - q1;
    assert(d * s == (wx - p) * s - q1 * s) by (nonlinear_arith)
        requires
            d == (wx - p) - q1,
    ;
    assert(abs_val(d * s) < u + s);
    assert(abs_val(d * s) == abs_val(d) * s) by (nonlinear_arith)
        requires
            s > 0,
    ;
    lemma_div_multiples_vanish(abs_val(d), s);
    lemma_div_is_ordered(abs_val(d) * s, u + s - 1, s);
    assert(abs_val(d) <= k);
    assert(abs_val(d * s2) == abs_val(d) * s2) by (nonlinear_arith)
        requires
            s2 > 0,
    ;
    vstd::arithmetic::mul::lemma_mul_inequality(abs_val(d), k, s2);
    assert((wx - px2) * s2 == d * s2 + q2 * s2) by (nonlinear_arith)
        requires
            px2 == p + q1 - q2,
            d == (wx - p) - q1,
    ;
    assert(abs_val(after_m * u - off * u) < k * s2 + s2 + u);
    assert((k + 1) * s2 == k * s2 + s2) by (nonlinear_arith);
    assert(abs_val(after_m - off) * u == abs_val(after_m * u - off * u)) by (nonlinear_arith)
        requires
            u > 0,
    ;
}

/// Pan reversibility: panning the camera position p by a screen delta d and
/// then by -d restores p exactly, because truncating division is odd.
pub proof fn lemma_pan_reversible(p: int, d: int, s: int)
    requires
        s != 0,
    ensures
        (p - fx_div(d, s)) - fx_div(-d, s) == p,
{
    lemma_tdiv_neg(d * (UNIT as int), s);
    assert(-d * (UNIT as int) == -(d * (UNIT as int))) by (nonlinear_arith);
}

} // verus!
