//! Quadratic Beziers: coefficient form, evaluation, tangents, chopping at a
//! parameter and at axis extrema, and the maximum-curvature parameter.

use vstd::prelude::*;

use crate::fbits::{
    eq32, f32_abs, f32_eq, f32_le, f32_lt, f32_neg, le32, lemma_f32_small, lt32, neg32, F32_ONE,
    F32_ZERO,
};
use crate::fp::{add32, add32_of, div32, div32_of, mul32, mul32_of, sub32, sub32_of};
use crate::point::{pt_eq_s, pt_sub_s, Point};
use crate::roots::{valid_unit_divide, vud_s};
use crate::tvalue::{is_normalized_bits, NormalizedF32, TValue};

verus! {

/// Linear interpolation `v0 + (v1 - v0) * t` on one lane.
pub open spec fn interp1_s(v0: u32, v1: u32, t: u32) -> u32 {
    add32_of(v0, mul32_of(sub32_of(v1, v0), t))
}

/// Linear interpolation on both lanes of a point pair.
pub open spec fn interp_s(a: Point, b: Point, t: u32) -> Point {
    Point { x: interp1_s(a.x, b.x, t), y: interp1_s(a.y, b.y, t) }
}

/// `v + v` on both lanes.
pub open spec fn times_2_s(v: Point) -> Point {
    Point { x: add32_of(v.x, v.x), y: add32_of(v.y, v.y) }
}

/// Linear interpolation between two points at parameter `t`.
pub fn interp(a: Point, b: Point, t: u32) -> (r: Point)
    ensures
        r == interp_s(a, b, t),
{
    Point { x: add32(a.x, mul32(sub32(b.x, a.x), t)), y: add32(a.y, mul32(sub32(b.y, a.y), t)) }
}

/// Doubles both lanes by addition.
pub fn times_2(v: Point) -> (r: Point)
    ensures
        r == times_2_s(v),
{
    Point { x: add32(v.x, v.x), y: add32(v.y, v.y) }
}

/// Monomial coefficients of a quadratic: `eval(t) = a*t^2 + b*t + c`.
#[derive(Clone, Copy, Debug, PartialEq, Eq, Structural)]
pub struct QuadCoeff {
    pub a: Point,
    pub b: Point,
    pub c: Point,
}

pub open spec fn quad_coeff_s(p0: Point, p1: Point, p2: Point) -> QuadCoeff {
    QuadCoeff {
        a: Point {
            x: add32_of(sub32_of(p2.x, add32_of(p1.x, p1.x)), p0.x),
            y: add32_of(sub32_of(p2.y, add32_of(p1.y, p1.y)), p0.y),
        },
        b: times_2_s(pt_sub_s(p1, p0)),
        c: p0,
    }
}

/// One lane of `(a*t + b)*t + c`.
pub open spec fn quad_eval1_s(a: u32, b: u32, c: u32, t: u32) -> u32 {
    add32_of(mul32_of(add32_of(mul32_of(a, t), b), t), c)
}

pub open spec fn quad_eval_s(q: QuadCoeff, t: u32) -> Point {
    Point {
        x: quad_eval1_s(q.a.x, q.b.x, q.c.x, t),
        y: quad_eval1_s(q.a.y, q.b.y, q.c.y, t),
    }
}

impl QuadCoeff {
    /// `a = p2 - 2*p1 + p0`, `b = 2*(p1 - p0)`, `c = p0`.
    pub fn from_points(points: &[Point]) -> (r: QuadCoeff)
        requires
            points@.len() == 3,
        ensures
            r == quad_coeff_s(points@[0], points@[1], points@[2]),
    {
        let c = points[0];
        let p1 = points[1];
        let p2 = points[2];
        let b = times_2(p1.minus(c));
        let a = Point {
            x: add32(sub32(p2.x, add32(p1.x, p1.x)), c.x),
            y: add32(sub32(p2.y, add32(p1.y, p1.y)), c.y),
        };
        QuadCoeff { a, b, c }
    }

    /// Horner evaluation `(a*t + b)*t + c` on both lanes.
    pub fn eval(&self, t: u32) -> (r: Point)
        ensures
            r == quad_eval_s(*self, t),
    {
        Point {
            x: add32(mul32(add32(mul32(self.a.x, t), self.b.x), t), self.c.x),
            y: add32(mul32(add32(mul32(self.a.y, t), self.b.y), t), self.c.y),
        }
    }
}

/// The five de Casteljau points of a quadratic chopped at `t`.
pub open spec fn chop5_s(p0: Point, p1: Point, p2: Point, t: u32) -> Seq<Point> {
    let p01 = interp_s(p0, p1, t);
    let p12 = interp_s(p1, p2, t);
    seq![p0, p01, interp_s(p01, p12, t), p12, p2]
}

/// Chops a quadratic at `t`: five points, the outer two being the inputs.
pub fn chop_quad_at(src: &[Point], t: TValue, dst: &mut Vec<Point>)
    requires
        src@.len() >= 3,
        old(dst)@.len() == 5,
    ensures
        final(dst)@ == chop5_s(src@[0], src@[1], src@[2], t.bits_s()),
        final(dst)@[0] == src@[0],
        final(dst)@[4] == src@[2],
{
    let tt = t.get();
    let p0 = src[0];
    let p1 = src[1];
    let p2 = src[2];
    let p01 = interp(p0, p1, tt);
    let p12 = interp(p1, p2, tt);
    let mid = interp(p01, p12, tt);
    dst.set(0, p0);
    dst.set(1, p01);
    dst.set(2, mid);
    dst.set(3, p12);
    dst.set(4, p2);
    proof {
        assert(dst@ =~= chop5_s(src@[0], src@[1], src@[2], t.bits_s()));
    }
}

/// Non-monotonic control lane: `a - b` is zero, or `b - c` (sign-aligned)
/// is negative — the control value lies outside `[a, c]`.
pub open spec fn is_not_monotonic_s(a: u32, b: u32, c: u32) -> bool {
    let ab = sub32_of(a, b);
    let bc = sub32_of(b, c);
    let bc2 = if f32_lt(ab, F32_ZERO) {
        f32_neg(bc)
    } else {
        bc
    };
    f32_eq(ab, F32_ZERO) || f32_lt(bc2, F32_ZERO)
}

fn is_not_monotonic(a: u32, b: u32, c: u32) -> (r: bool)
    ensures
        r == is_not_monotonic_s(a, b, c),
{
    proof {
        lemma_f32_small(F32_ZERO);
    }
    let ab = sub32(a, b);
    let mut bc = sub32(b, c);
    if lt32(ab, F32_ZERO) {
        bc = neg32(bc);
    }
    eq32(ab, F32_ZERO) || lt32(bc, F32_ZERO)
}

/// The extremum parameter candidate of one quadratic lane,
/// `(a - b) / (a - 2b + c)`.
pub open spec fn quad_extremum_t_s(a: u32, b: u32, c: u32) -> Option<u32> {
    vud_s(sub32_of(a, b), add32_of(sub32_of(sub32_of(a, b), b), c))
}

/// When the division underflows, the control value snaps to the closer end.
pub open spec fn snapped_control_s(a: u32, b: u32, c: u32) -> u32 {
    if f32_lt(f32_abs(sub32_of(a, b)), f32_abs(sub32_of(b, c))) {
        a
    } else {
        c
    }
}

/// The five chop points with the junction x copied into its two neighbours.
pub open spec fn chop5_flat_x_s(p0: Point, p1: Point, p2: Point, t: u32) -> Seq<Point> {
    let c5 = chop5_s(p0, p1, p2, t);
    c5.update(1, Point { x: c5[2].x, y: c5[1].y }).update(
        3,
        Point { x: c5[2].x, y: c5[3].y },
    )
}

/// The five chop points with the junction y copied into its two neighbours.
pub open spec fn chop5_flat_y_s(p0: Point, p1: Point, p2: Point, t: u32) -> Seq<Point> {
    let c5 = chop5_s(p0, p1, p2, t);
    c5.update(1, Point { x: c5[1].x, y: c5[2].y }).update(
        3,
        Point { x: c5[3].x, y: c5[2].y },
    )
}

/// Chops at the x extremum so both pieces are monotonic in x. Returns the
/// number of splits (0 or 1). On a split the junction x is flattened into
/// the two neighbouring control points, so the three values agree exactly;
/// when the extremum parameter underflows, the control x snaps to the
/// closer endpoint instead and the input is copied out unsplit.
pub fn chop_quad_at_x_extrema(src: &[Point], dst: &mut Vec<Point>) -> (n: usize)
    requires
        src@.len() >= 3,
        old(dst)@.len() == 5,
    ensures
        n <= 1,
        final(dst)@.len() == 5,
        !is_not_monotonic_s(src@[0].x, src@[1].x, src@[2].x) ==> n == 0 && final(dst)@ == old(
            dst,
        )@.update(0, src@[0]).update(1, src@[1]).update(2, src@[2]),
        is_not_monotonic_s(src@[0].x, src@[1].x, src@[2].x) && quad_extremum_t_s(
            src@[0].x,
            src@[1].x,
            src@[2].x,
        ) is Some ==> n == 1 && final(dst)@ == chop5_flat_x_s(
            src@[0],
            src@[1],
            src@[2],
            quad_extremum_t_s(src@[0].x, src@[1].x, src@[2].x)->0,
        ),
        is_not_monotonic_s(src@[0].x, src@[1].x, src@[2].x) && quad_extremum_t_s(
            src@[0].x,
            src@[1].x,
            src@[2].x,
        ) is None ==> n == 0 && final(dst)@ == old(dst)@.update(0, src@[0]).update(
            1,
            (Point { x: snapped_control_s(src@[0].x, src@[1].x, src@[2].x), y: src@[1].y }),
        ).update(2, src@[2]),
        n == 1 ==> final(dst)@[1].x == final(dst)@[2].x && final(dst)@[3].x == final(dst)@[2].x,
    {
    let a = src[0].x;
    let mut b = src[1].x;
    let c = src[2].x;
    if is_not_monotonic(a, b, c) {
        let ab = sub32(a, b);
        let denom = add32(sub32(ab, b), c);
        if let Some(t) = valid_unit_divide(ab, denom) {
            chop_quad_at(src, t, dst);
            let jx = dst[2].x;
            let d1 = dst[1];
            dst.set(1, Point { x: jx, y: d1.y });
            let d3 = dst[3];
            dst.set(3, Point { x: jx, y: d3.y });
            proof {
                assert(dst@ =~= chop5_flat_x_s(src@[0], src@[1], src@[2], t.bits_s()));
            }
            return 1;
        }
        let babs = crate::fbits::abs32(ab);
        let cabs = crate::fbits::abs32(sub32(b, c));
        b = if lt32(babs, cabs) {
            a
        } else {
            c
        };
    }
    dst.set(0, Point { x: a, y: src[0].y });
    dst.set(1, Point { x: b, y: src[1].y });
    dst.set(2, Point { x: c, y: src[2].y });
    proof {
        if !is_not_monotonic_s(src@[0].x, src@[1].x, src@[2].x) {
            assert(Point { x: a, y: src@[0].y } == src@[0]);
            assert(Point { x: b, y: src@[1].y } == src@[1]);
            assert(Point { x: c, y: src@[2].y } == src@[2]);
        }
    }
    0
}

/// Chops at the y extremum so both pieces are monotonic in y; the mirror
/// image of `chop_quad_at_x_extrema`.
pub fn chop_quad_at_y_extrema(src: &[Point], dst: &mut Vec<Point>) -> (n: usize)
    requires
        src@.len() >= 3,
        old(dst)@.len() == 5,
    ensures
        n <= 1,
        final(dst)@.len() == 5,
        !is_not_monotonic_s(src@[0].y, src@[1].y, src@[2].y) ==> n == 0 && final(dst)@ == old(
            dst,
        )@.update(0, src@[0]).update(1, src@[1]).update(2, src@[2]),
        is_not_monotonic_s(src@[0].y, src@[1].y, src@[2].y) && quad_extremum_t_s(
            src@[0].y,
            src@[1].y,
            src@[2].y,
        ) is Some ==> n == 1 && final(dst)@ == chop5_flat_y_s(
            src@[0],
            src@[1],
            src@[2],
            quad_extremum_t_s(src@[0].y, src@[1].y, src@[2].y)->0,
        ),
        is_not_monotonic_s(src@[0].y, src@[1].y, src@[2].y) && quad_extremum_t_s(
            src@[0].y,
            src@[1].y,
            src@[2].y,
        ) is None ==> n == 0 && final(dst)@ == old(dst)@.update(0, src@[0]).update(
            1,
            (Point { x: src@[1].x, y: snapped_control_s(src@[0].y, src@[1].y, src@[2].y) }),
        ).update(2, src@[2]),
        n == 1 ==> final(dst)@[1].y == final(dst)@[2].y && final(dst)@[3].y == final(dst)@[2].y,
    {
    let a = src[0].y;
    let mut b = src[1].y;
    let c = src[2].y;
    if is_not_monotonic(a, b, c) {
        let ab = sub32(a, b);
        let denom = add32(sub32(ab, b), c);
        if let Some(t) = valid_unit_divide(ab, denom) {
            chop_quad_at(src, t, dst);
            let jy = dst[2].y;
            let d1 = dst[1];
            dst.set(1, Point { x: d1.x, y: jy });
            let d3 = dst[3];
            dst.set(3, Point { x: d3.x, y: jy });
            proof {
                assert(dst@ =~= chop5_flat_y_s(src@[0], src@[1], src@[2], t.bits_s()));
            }
            return 1;
        }
        let babs = crate::fbits::abs32(ab);
        let cabs = crate::fbits::abs32(sub32(b, c));
        b = if lt32(babs, cabs) {
            a
        } else {
            c
        };
    }
    dst.set(0, Point { x: src[0].x, y: a });
    dst.set(1, Point { x: src[1].x, y: b });
    dst.set(2, Point { x: src[2].x, y: c });
    proof {
        if !is_not_monotonic_s(src@[0].y, src@[1].y, src@[2].y) {
            assert(Point { x: src@[0].x, y: a } == src@[0]);
            assert(Point { x: src@[1].x, y: b } == src@[1]);
            assert(Point { x: src@[2].x, y: c } == src@[2]);
        }
    }
    0
}

/// The position on the quadratic at `t`.
pub fn eval_quad_at(src: &[Point], t: NormalizedF32) -> (r: Point)
    requires
        src@.len() == 3,
    ensures
        r == quad_eval_s(quad_coeff_s(src@[0], src@[1], src@[2]), t.bits_s()),
{
    QuadCoeff::from_points(src).eval(t.get())
}

/// The tangent of the quadratic at `t`: `2*(a*t + b)` in the derivative
/// basis; at a degenerate endpoint (parameter at an end and the control
/// point equal to that end) the chord `p2 - p0` stands in.
pub open spec fn quad_tangent_s(p0: Point, p1: Point, p2: Point, t: u32) -> Point {
    if (f32_eq(t, F32_ZERO) && pt_eq_s(p0, p1)) || (f32_eq(t, F32_ONE) && pt_eq_s(p1, p2)) {
        pt_sub_s(p2, p0)
    } else {
        let b = pt_sub_s(p1, p0);
        let a = pt_sub_s(pt_sub_s(p2, p1), b);
        times_2_s(
            Point {
                x: add32_of(mul32_of(a.x, t), b.x),
                y: add32_of(mul32_of(a.y, t), b.y),
            },
        )
    }
}

fn eval_quad_tangent_at(src: &[Point], tol: NormalizedF32) -> (r: Point)
    requires
        src@.len() == 3,
    ensures
        r == quad_tangent_s(src@[0], src@[1], src@[2], tol.bits_s()),
{
    proof {
        lemma_f32_small(F32_ZERO);
        lemma_f32_small(F32_ONE);
    }
    let tb = tol.get();
    if (eq32(tb, F32_ZERO) && src[0].float_eq(src[1])) || (eq32(tb, F32_ONE) && src[1].float_eq(
        src[2],
    )) {
        return src[2].minus(src[0]);
    }
    let p0 = src[0];
    let p1 = src[1];
    let p2 = src[2];
    let b = p1.minus(p0);
    let a = p2.minus(p1).minus(b);
    let t = Point { x: add32(mul32(a.x, tb), b.x), y: add32(mul32(a.y, tb), b.y) };
    times_2(t)
}

/// Position and tangent of the quadratic at `t`.
pub fn eval_quad_at2(src: &[Point], t: NormalizedF32, pt: &mut Point, tangent: &mut Point)
    requires
        src@.len() == 3,
    ensures
        *final(pt) == quad_eval_s(quad_coeff_s(src@[0], src@[1], src@[2]), t.bits_s()),
        *final(tangent) == quad_tangent_s(src@[0], src@[1], src@[2], t.bits_s()),
{
    *pt = eval_quad_at(src, t);
    *tangent = eval_quad_tangent_at(src, t);
}

/// The parameter of maximum curvature: `-(A.B) / (B.B)` with `A = p1 - p0`
/// and `B = p0 - 2*p1 + p2`, clamped into the closed unit interval: 0 when
/// the numerator is not positive, 1 when it reaches the denominator.
pub open spec fn quad_max_curvature_s(p0: Point, p1: Point, p2: Point) -> u32 {
    let ax = sub32_of(p1.x, p0.x);
    let ay = sub32_of(p1.y, p0.y);
    let bx = add32_of(sub32_of(sub32_of(p0.x, p1.x), p1.x), p2.x);
    let by = add32_of(sub32_of(sub32_of(p0.y, p1.y), p1.y), p2.y);
    let numer0 = f32_neg(add32_of(mul32_of(ax, bx), mul32_of(ay, by)));
    let denom0 = add32_of(mul32_of(bx, bx), mul32_of(by, by));
    let numer = if f32_lt(denom0, F32_ZERO) {
        f32_neg(numer0)
    } else {
        numer0
    };
    let denom = if f32_lt(denom0, F32_ZERO) {
        f32_neg(denom0)
    } else {
        denom0
    };
    if f32_le(numer, F32_ZERO) {
        F32_ZERO
    } else if f32_le(denom, numer) {
        F32_ONE
    } else {
        let t = div32_of(numer, denom);
        if f32_le(F32_ZERO, t) && f32_le(t, F32_ONE) {
            t
        } else {
            F32_ONE
        }
    }
}

/// Returns the parameter in [0,1] where the quadratic's curvature peaks:
/// exactly 0 or 1 when the numerator is clamped, strictly inside otherwise.
/// (A quotient of positive finite values cannot leave [0,1] here; the final
/// clamp to 1 only guards impossible bit patterns, since the division is
/// trusted and opaque.)
pub fn find_quad_max_curvature(src: &[Point]) -> (r: NormalizedF32)
    requires
        src@.len() == 3,
    ensures
        r.bits_s() == quad_max_curvature_s(src@[0], src@[1], src@[2]),
{
    proof {
        lemma_f32_small(F32_ZERO);
        lemma_f32_small(F32_ONE);
    }
    let ax = sub32(src[1].x, src[0].x);
    let ay = sub32(src[1].y, src[0].y);
    let bx = add32(sub32(sub32(src[0].x, src[1].x), src[1].x), src[2].x);
    let by = add32(sub32(sub32(src[0].y, src[1].y), src[1].y), src[2].y);
    let mut numer = neg32(add32(mul32(ax, bx), mul32(ay, by)));
    let mut denom = add32(mul32(bx, bx), mul32(by, by));
    if lt32(denom, F32_ZERO) {
        numer = neg32(numer);
        denom = neg32(denom);
    }
    if le32(numer, F32_ZERO) {
        return NormalizedF32::zero();
    }
    if le32(denom, numer) {
        return NormalizedF32::one();
    }
    let t = div32(numer, denom);
    match NormalizedF32::new(t) {
        Some(v) => v,
        None => NormalizedF32::one(),
    }
}

} // verus!
