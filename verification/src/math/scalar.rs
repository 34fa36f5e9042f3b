//! Fixed-point scalars and fixed-arity vectors.
//!
//! A `Fixed` stores a real value in micro-units on an `i128` (one unit is
//! `UNIT` raw steps), so all arithmetic is exact integer arithmetic and
//! every rounding step is stated in the contracts. `Scalar<N>` is an
//! ordered tuple of `N` such numbers; `Vec2` is its 2-component form used
//! throughout the camera and ellipse code.

use vstd::prelude::*;
use vstd::arithmetic::div_mod::{
    lemma_div_is_ordered, lemma_div_multiples_vanish, lemma_div_nonincreasing,
    lemma_div_pos_is_pos, lemma_add_mod_noop, lemma_mod_bound,
    lemma_mod_add_multiples_vanish, lemma_div_is_ordered_by_denominator,
    lemma_fundamental_div_mod,
};

verus! {

/// Raw steps in one unit: values are stored in micro-units.
pub const UNIT: i128 = 1_000_000;

/// A quarter of a full revolution, in raw steps (angles are in turns).
pub const QUARTER_TURN: i128 = 250_000;

/// Half of a full revolution, in raw steps.
pub const HALF_TURN: i128 = 500_000;

/// Largest raw magnitude the library computes with. Keeping every scalar
/// inside this bound means products of two scalars always fit an `i128`.
pub const MAX_RAW: i128 = 1_000_000_000_000_000_000;

pub open spec fn abs_val(x: int) -> int {
    if x < 0 { -x } else { x }
}

/// A raw value the library is willing to hold in a `Fixed`.
pub open spec fn fits(x: int) -> bool {
    -MAX_RAW <= x <= MAX_RAW
}

/// Truncating division: quotient rounded toward zero, the rounding of `/`
/// on machine integers (spec-level `/` alone rounds toward minus infinity).
pub open spec fn tdiv(a: int, b: int) -> int {
    if (a < 0) == (b < 0) {
        abs_val(a) / abs_val(b)
    } else {
        -(abs_val(a) / abs_val(b))
    }
}

/// The raw value of the product of two fixed-point numbers.
pub open spec fn fx_mul(a: int, b: int) -> int {
    tdiv(a * b, UNIT as int)
}

/// The raw value of the quotient of two fixed-point numbers.
pub open spec fn fx_div(a: int, b: int) -> int {
    tdiv(a * (UNIT as int), b)
}

/// Truncating division is an odd function of the dividend.
pub proof fn lemma_tdiv_neg(a: int, b: int)
    requires
        b != 0,
    ensures
        tdiv(-a, b) == -tdiv(a, b),
{
}

/// The quotient's magnitude never exceeds the dividend's when the divisor
/// is a whole raw step or more.
pub proof fn lemma_tdiv_bound(a: int, b: int)
    requires
        b != 0,
    ensures
        abs_val(tdiv(a, b)) <= abs_val(a),
{
    lemma_div_pos_is_pos(abs_val(a), abs_val(b));
    lemma_div_nonincreasing(abs_val(a), abs_val(b));
}

/// A fixed-point number: `raw` micro-units.
#[derive(Clone, Copy, Debug, PartialEq, Eq, Structural)]
pub struct Fixed {
    pub raw: i128,
}

impl Fixed {
    /// The value is inside the library's working range.
    pub open spec fn wf(self) -> bool {
        fits(self.raw as int)
    }

    /// Zero, the default pose of most quantities.
    pub fn zero() -> (r: Fixed)
        ensures
            r.raw == 0,
    {
        Fixed { raw: 0 }
    }

    /// A whole number of units.
    pub fn from_int(v: i64) -> (r: Fixed)
        requires
            -1_000_000_000_000 <= v <= 1_000_000_000_000,
        ensures
            r.raw == v * UNIT,
            r.wf(),
    {
        Fixed { raw: (v as i128) * UNIT }
    }

    /// A value given directly in micro-units.
    pub fn from_micros(raw: i64) -> (r: Fixed)
        requires
            fits(raw as int),
        ensures
            r.raw == raw,
            r.wf(),
    {
        Fixed { raw: raw as i128 }
    }

    /// Exact sum.
    pub fn add(self, o: Fixed) -> (r: Fixed)
        requires
            self.wf(),
            o.wf(),
            fits(self.raw + o.raw),
        ensures
            r.raw == self.raw + o.raw,
            r.wf(),
    {
        Fixed { raw: self.raw + o.raw }
    }

    /// Exact difference.
    pub fn sub(self, o: Fixed) -> (r: Fixed)
        requires
            self.wf(),
            o.wf(),
            fits(self.raw - o.raw),
        ensures
            r.raw == self.raw - o.raw,
            r.wf(),
    {
        Fixed { raw: self.raw - o.raw }
    }

    /// Exact negation.
    pub fn neg(self) -> (r: Fixed)
        requires
            self.wf(),
        ensures
            r.raw == -self.raw,
            r.wf(),
    {
        Fixed { raw: -self.raw }
    }

    /// Product, rounded toward zero to the fixed-point grid.
    pub fn mul(self, o: Fixed) -> (r: Fixed)
        requires
            self.wf(),
            o.wf(),
            fits(fx_mul(self.raw as int, o.raw as int)),
        ensures
            r.raw == fx_mul(self.raw as int, o.raw as int),
            r.wf(),
    {
        proof {
            lemma_mul_bound(self.raw as int, o.raw as int, MAX_RAW as int, MAX_RAW as int);
        }
        let p: i128 = self.raw * o.raw;
        div_raw(p, UNIT)
    }

    /// Quotient, rounded toward zero to the fixed-point grid.
    pub fn div(self, o: Fixed) -> (r: Fixed)
        requires
            self.wf(),
            o.wf(),
            o.raw != 0,
            fits(fx_div(self.raw as int, o.raw as int)),
        ensures
            r.raw == fx_div(self.raw as int, o.raw as int),
            r.wf(),
    {
        proof {
            lemma_mul_bound(self.raw as int, UNIT as int, MAX_RAW as int, UNIT as int);
        }
        let p: i128 = self.raw * UNIT;
        div_raw(p, o.raw)
    }

    /// The larger of two values.
    pub fn max(self, o: Fixed) -> (r: Fixed)
        ensures
            r.raw == if self.raw >= o.raw { self.raw } else { o.raw },
    {
        if self.raw >= o.raw { self } else { o }
    }

    /// The smaller of two values.
    pub fn min(self, o: Fixed) -> (r: Fixed)
        ensures
            r.raw == if self.raw <= o.raw { self.raw } else { o.raw },
    {
        if self.raw <= o.raw { self } else { o }
    }
}

impl Default for Fixed {
    /// Zero.
    fn default() -> (r: Fixed)
        ensures
            r.raw == 0,
    {
        Fixed { raw: 0 }
    }
}

impl<const N: usize> Default for Scalar<N> {
    /// All components zero.
    fn default() -> (r: Scalar<N>)
        ensures
            forall|i: int| 0 <= i < N ==> #[trigger] r.c@[i].raw == 0,
    {
        Scalar { c: [Fixed { raw: 0 }; N] }
    }
}

/// |x| <= a and |y| <= b bound the product by a * b.
pub proof fn lemma_mul_bound(x: int, y: int, a: int, b: int)
    requires
        abs_val(x) <= a,
        abs_val(y) <= b,
    ensures
        abs_val(x * y) <= a * b,
{
    assert(abs_val(x * y) <= a * b) by (nonlinear_arith)
        requires
            abs_val(x) <= a,
            abs_val(y) <= b,
    ;
}

/// A product of values bounded by ma and mb keeps its fixed-point form
/// below m raw steps whenever ma * mb <= m * UNIT.
pub proof fn lemma_fx_mul_bound(a: int, b: int, ma: int, mb: int, m: int)
    requires
        abs_val(a) <= ma,
        abs_val(b) <= mb,
        ma * mb <= m * (UNIT as int),
    ensures
        abs_val(fx_mul(a, b)) <= m,
{
    assert(abs_val(a * b) == abs_val(a) * abs_val(b)) by (nonlinear_arith);
    assert(abs_val(a) * abs_val(b) <= ma * mb) by (nonlinear_arith)
        requires
            0 <= abs_val(a) <= ma,
            0 <= abs_val(b) <= mb,
    ;
    lemma_div_is_ordered(abs_val(a * b), m * (UNIT as int), UNIT as int);
    lemma_div_multiples_vanish(m, UNIT as int);
    lemma_div_pos_is_pos(abs_val(a * b), UNIT as int);
}

/// A fixed-point quotient's magnitude is at most the dividend's times UNIT.
pub proof fn lemma_fx_div_bound(a: int, b: int)
    requires
        b != 0,
    ensures
        abs_val(fx_div(a, b)) <= abs_val(a) * (UNIT as int),
{
    lemma_tdiv_bound(a * (UNIT as int), b);
    assert(abs_val(a * (UNIT as int)) == abs_val(a) * (UNIT as int)) by (nonlinear_arith);
}

/// Truncating division misses the dividend by less than the divisor: the
/// rounding error of one fixed-point operation, in pre-division units.
pub proof fn lemma_tdiv_error(a: int, b: int)
    requires
        b != 0,
    ensures
        abs_val(a - tdiv(a, b) * b) < abs_val(b),
{
    let q = abs_val(a) / abs_val(b);
    let r = abs_val(a) % abs_val(b);
    lemma_fundamental_div_mod(abs_val(a), abs_val(b));
    lemma_mod_bound(abs_val(a), abs_val(b));
    if a >= 0 && b > 0 {
        assert(a - q * b == r) by (nonlinear_arith)
            requires
                a == b * q + r,
        ;
    } else if a >= 0 && b < 0 {
        assert(a - (-q) * b == r) by (nonlinear_arith)
            requires
                a == (-b) * q + r,
        ;
    } else if a < 0 && b > 0 {
        assert(a - (-q) * b == -r) by (nonlinear_arith)
            requires
                -a == b * q + r,
        ;
    } else {
        assert(a - q * b == -r) by (nonlinear_arith)
            requires
                -a == (-b) * q + r,
        ;
    }
}

/// A fixed-point product is within one raw step of the exact product:
/// fx_mul(a, b) * UNIT misses a * b by less than UNIT.
pub proof fn lemma_fx_mul_error(a: int, b: int)
    ensures
        abs_val(a * b - fx_mul(a, b) * (UNIT as int)) < UNIT,
{
    lemma_tdiv_error(a * b, UNIT as int);
}

/// A fixed-point product of non-negatives is non-negative.
pub proof fn lemma_fx_mul_nonneg(a: int, b: int)
    requires
        a >= 0,
        b >= 0,
    ensures
        fx_mul(a, b) >= 0,
{
    assert(a * b >= 0) by (nonlinear_arith)
        requires
            a >= 0,
            b >= 0,
    ;
    lemma_div_pos_is_pos(a * b, UNIT as int);
}

/// Dividing by a whole unit or more never grows a value's magnitude.
pub proof fn lemma_fx_div_bound_denom(a: int, b: int)
    requires
        b >= UNIT,
    ensures
        abs_val(fx_div(a, b)) <= abs_val(a),
{
    assert(abs_val(a * (UNIT as int)) == abs_val(a) * (UNIT as int)) by (nonlinear_arith);
    lemma_div_is_ordered_by_denominator(abs_val(a) * (UNIT as int), UNIT as int, b);
    lemma_div_multiples_vanish(abs_val(a), UNIT as int);
    lemma_div_pos_is_pos(abs_val(a) * (UNIT as int), b);
}

/// c is the floor of the square root of m.
pub open spec fn is_floor_sqrt(c: int, m: int) -> bool {
    0 <= c && c * c <= m && (c + 1) * (c + 1) > m
}

/// The floor square root, as the unique value meeting `is_floor_sqrt`.
pub open spec fn sqrt_floor(m: int) -> int {
    choose|c: int| is_floor_sqrt(c, m)
}

/// Floor square roots are unique.
pub proof fn lemma_floor_sqrt_unique(c1: int, c2: int, m: int)
    requires
        is_floor_sqrt(c1, m),
        is_floor_sqrt(c2, m),
    ensures
        c1 == c2,
{
    assert(c1 == c2) by (nonlinear_arith)
        requires
            0 <= c1 && c1 * c1 <= m && (c1 + 1) * (c1 + 1) > m,
            0 <= c2 && c2 * c2 <= m && (c2 + 1) * (c2 + 1) > m,
    ;
}

/// Truncating division on raw values, through `checked_div`.
fn div_raw(a: i128, b: i128) -> (r: Fixed)
    requires
        b != 0,
        a != i128::MIN,
    ensures
        r.raw == tdiv(a as int, b as int),
{
    proof {
        lemma_tdiv_bound(a as int, b as int);
    }
    match a.checked_div(b) {
        Some(q) => Fixed { raw: q },
        None => {
            proof {
                assert(false);
            }
            Fixed { raw: 0 }
        },
    }
}

/// One half-wave of the sine approximation: for p in [0, UNIT] this is
/// Bhaskara I's rational approximation of sin(pi * p / UNIT), in raw units.
/// It is exact at p = 0, p = UNIT / 2 and p = UNIT, and within about 0.2%
/// of the true sine elsewhere.
pub open spec fn sin_half_wave(p: int) -> int {
    16 * p * (UNIT - p) * UNIT / (5 * UNIT * UNIT - 4 * p * (UNIT - p))
}

/// The sine of an angle of x raw turn-steps (UNIT steps make a full turn),
/// in raw units: the angle is reduced to one period, the first half-turn is
/// the positive half-wave, the second the negative one.
pub open spec fn spec_sin(x: int) -> int {
    let r = x % (UNIT as int);
    if r < HALF_TURN {
        sin_half_wave(2 * r)
    } else {
        -sin_half_wave(2 * (r - HALF_TURN))
    }
}

/// The cosine of an angle in raw turn-steps: the sine a quarter turn ahead.
pub open spec fn spec_cos(x: int) -> int {
    spec_sin(x + QUARTER_TURN)
}

/// The half-wave stays within [0, UNIT].
pub proof fn lemma_half_wave_bounds(p: int)
    requires
        0 <= p <= UNIT,
    ensures
        0 <= sin_half_wave(p) <= UNIT,
        5 * UNIT * UNIT - 4 * p * (UNIT - p) >= 4 * UNIT * UNIT,
        0 <= 16 * p * (UNIT - p) * UNIT <= 4 * UNIT * UNIT * UNIT,
{
    let num = 16 * p * (UNIT - p) * UNIT;
    let den = 5 * UNIT * UNIT - 4 * p * (UNIT - p);
    assert(4 * p * (UNIT - p) <= UNIT * UNIT && 0 <= 16 * p * (UNIT - p) * UNIT
        && 16 * p * (UNIT - p) * UNIT <= 4 * UNIT * UNIT * UNIT
        && 16 * p * (UNIT - p) * UNIT <= (5 * UNIT * UNIT - 4 * p * (UNIT - p)) * UNIT)
        by (nonlinear_arith)
        requires
            0 <= p <= UNIT,
    ;
    lemma_div_pos_is_pos(num, den);
    lemma_div_is_ordered(num, den * UNIT, den);
    lemma_div_multiples_vanish(UNIT as int, den);
}

/// The sine depends only on the angle's residue in one turn.
pub proof fn lemma_sin_periodic(x: int)
    ensures
        spec_sin(x + UNIT) == spec_sin(x),
        spec_cos(x + UNIT) == spec_cos(x),
{
    lemma_mod_add_multiples_vanish(x, UNIT as int);
    lemma_mod_add_multiples_vanish(x + QUARTER_TURN, UNIT as int);
}

impl Fixed {
    /// Sine of an angle in turns (one full revolution is 1.0).
    pub fn sin(self) -> (r: Fixed)
        requires
            self.wf(),
        ensures
            r.raw == spec_sin(self.raw as int),
            -UNIT <= r.raw <= UNIT,
            r.wf(),
    {
        proof {
            lemma_mod_bound(self.raw as int, UNIT as int);
        }
        let m = mod_raw(self.raw, UNIT);
        if m < HALF_TURN {
            half_wave(2 * m)
        } else {
            let w = half_wave(2 * (m - HALF_TURN));
            proof {
                lemma_half_wave_bounds(2 * ((m as int) - HALF_TURN));
            }
            Fixed { raw: -w.raw }
        }
    }

    /// Cosine of an angle in turns: the sine a quarter turn ahead.
    pub fn cos(self) -> (r: Fixed)
        requires
            self.wf(),
        ensures
            r.raw == spec_cos(self.raw as int),
            -UNIT <= r.raw <= UNIT,
            r.wf(),
    {
        proof {
            lemma_mod_bound(self.raw as int, UNIT as int);
        }
        let m = mod_raw(self.raw, UNIT);
        let shifted = Fixed { raw: m + QUARTER_TURN };
        let r = shifted.sin();
        proof {
            lemma_add_mod_noop(self.raw as int, QUARTER_TURN as int, UNIT as int);
            lemma_mod_bound((self.raw as int) % (UNIT as int) + QUARTER_TURN, UNIT as int);
            lemma_mod_bound(self.raw + QUARTER_TURN, UNIT as int);
            assert((m + QUARTER_TURN) % (UNIT as int) == (self.raw + QUARTER_TURN) % (
            UNIT as int));
        }
        r
    }
}

/// One positive half-wave of the fixed-point sine.
fn half_wave(p: i128) -> (r: Fixed)
    requires
        0 <= p <= UNIT,
    ensures
        r.raw == sin_half_wave(p as int),
        0 <= r.raw <= UNIT,
        r.wf(),
{
    proof {
        lemma_half_wave_bounds(p as int);
    }
    let num: i128 = 16 * p * (UNIT - p) * UNIT;
    let den: i128 = 5 * UNIT * UNIT - 4 * p * (UNIT - p);
    div_raw(num, den)
}

/// Floor of the square root of a raw value, by binary search.
pub fn isqrt_raw(x: i128) -> (r: i128)
    requires
        0 <= x <= 1_000_000_000_000_000_000_000_000_000_000_000_000,
    ensures
        0 <= r,
        r * r <= x,
        (r + 1) * (r + 1) > x,
        r == sqrt_floor(x as int),
{
    let mut lo: i128 = 0;
    let mut hi: i128 = 1_000_000_000_000_000_001;
    proof {
        assert(hi * hi > x) by (nonlinear_arith)
            requires
                hi == 1_000_000_000_000_000_001int,
                x <= 1_000_000_000_000_000_000_000_000_000_000_000_000,
        ;
    }
    while hi - lo > 1
        invariant
            0 <= lo < hi <= 1_000_000_000_000_000_001,
            lo * lo <= x,
            hi * hi > x,
        decreases hi - lo,
    {
        let mid = lo + (hi - lo) / 2;
        proof {
            assert(mid * mid <= 1_000_000_000_000_000_000_000_000_000_000_000_000 + 1)
                by (nonlinear_arith)
                requires
                    0 <= mid <= 1_000_000_000_000_000_000int,
            ;
        }
        if mid * mid <= x {
            lo = mid;
        } else {
            hi = mid;
        }
    }
    proof {
        assert(is_floor_sqrt(lo as int, x as int));
        lemma_floor_sqrt_unique(lo as int, sqrt_floor(x as int), x as int);
    }
    lo
}

/// Euclidean remainder on raw values: the result is always in [0, b).
fn mod_raw(a: i128, b: i128) -> (r: i128)
    requires
        b > 0,
    ensures
        r == (a as int) % (b as int),
        0 <= r < b,
{
    proof {
        lemma_mod_bound(a as int, b as int);
    }
    match a.checked_rem_euclid(b) {
        Some(m) => m,
        None => {
            proof {
                assert(false);
            }
            0
        },
    }
}

/// An ordered tuple of N fixed-point numbers with component-wise arithmetic.
#[derive(Clone, Copy, Debug, PartialEq, Eq)]
pub struct Scalar<const N: usize> {
    pub c: [Fixed; N],
}

/// The 2-component vector used for world and screen coordinates.
pub type Vec2 = Scalar<2>;

impl<const N: usize> Scalar<N> {
    /// The components as a sequence of raw values.
    pub open spec fn raws(self) -> Seq<int> {
        self.c@.map(|i: int, f: Fixed| f.raw as int)
    }

    /// Builds a tuple from its components.
    pub fn new(arr: [Fixed; N]) -> (r: Self)
        ensures
            r.c@ == arr@,
    {
        Scalar { c: arr }
    }

    /// The component at idx, or nothing past the arity.
    pub fn get(&self, idx: usize) -> (r: Option<&Fixed>)
        ensures
            idx < N ==> r == Some(&self.c@[idx as int]),
            idx >= N ==> r is None,
    {
        if idx < N {
            Some(&self.c[idx])
        } else {
            None
        }
    }
}

impl Vec2 {
    /// The first component's raw value.
    pub open spec fn rx(self) -> int {
        self.c@[0].raw as int
    }

    /// The second component's raw value.
    pub open spec fn ry(self) -> int {
        self.c@[1].raw as int
    }

    /// Both components are in the library's working range.
    pub open spec fn wf(self) -> bool {
        fits(self.rx()) && fits(self.ry())
    }

    /// Both components' magnitudes are at most m.
    pub open spec fn bounded(self, m: int) -> bool {
        abs_val(self.rx()) <= m && abs_val(self.ry()) <= m
    }

    /// The zero vector.
    pub fn zero() -> (r: Vec2)
        ensures
            r.rx() == 0 && r.ry() == 0,
            r.wf(),
    {
        Scalar { c: [Fixed { raw: 0 }, Fixed { raw: 0 }] }
    }

    /// The x component.
    pub fn x(&self) -> (r: &Fixed)
        ensures
            r.raw == self.rx(),
    {
        &self.c[0]
    }

    /// The y component.
    pub fn y(&self) -> (r: &Fixed)
        ensures
            r.raw == self.ry(),
    {
        &self.c[1]
    }

    /// Component-wise exact sum.
    pub fn add(self, o: Vec2) -> (r: Vec2)
        requires
            self.wf(),
            o.wf(),
            fits(self.rx() + o.rx()),
            fits(self.ry() + o.ry()),
        ensures
            r.rx() == self.rx() + o.rx(),
            r.ry() == self.ry() + o.ry(),
            r.wf(),
    {
        Scalar { c: [self.c[0].add(o.c[0]), self.c[1].add(o.c[1])] }
    }

    /// Component-wise exact difference.
    pub fn sub(self, o: Vec2) -> (r: Vec2)
        requires
            self.wf(),
            o.wf(),
            fits(self.rx() - o.rx()),
            fits(self.ry() - o.ry()),
        ensures
            r.rx() == self.rx() - o.rx(),
            r.ry() == self.ry() - o.ry(),
            r.wf(),
    {
        Scalar { c: [self.c[0].sub(o.c[0]), self.c[1].sub(o.c[1])] }
    }

    /// Component-wise exact negation.
    pub fn neg(self) -> (r: Vec2)
        requires
            self.wf(),
        ensures
            r.rx() == -self.rx(),
            r.ry() == -self.ry(),
            r.wf(),
    {
        Scalar { c: [self.c[0].neg(), self.c[1].neg()] }
    }

    /// Scaling by a fixed-point factor, each component rounded toward zero.
    pub fn mul(self, k: Fixed) -> (r: Vec2)
        requires
            self.wf(),
            k.wf(),
            fits(fx_mul(self.rx(), k.raw as int)),
            fits(fx_mul(self.ry(), k.raw as int)),
        ensures
            r.rx() == fx_mul(self.rx(), k.raw as int),
            r.ry() == fx_mul(self.ry(), k.raw as int),
            r.wf(),
    {
        Scalar { c: [self.c[0].mul(k), self.c[1].mul(k)] }
    }

    /// Division by a fixed-point factor, each component rounded toward zero.
    pub fn div(self, k: Fixed) -> (r: Vec2)
        requires
            self.wf(),
            k.wf(),
            k.raw != 0,
            fits(fx_div(self.rx(), k.raw as int)),
            fits(fx_div(self.ry(), k.raw as int)),
        ensures
            r.rx() == fx_div(self.rx(), k.raw as int),
            r.ry() == fx_div(self.ry(), k.raw as int),
            r.wf(),
    {
        Scalar { c: [self.c[0].div(k), self.c[1].div(k)] }
    }
}

} // verus!
