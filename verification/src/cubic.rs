//! Cubic Beziers: coefficient form, evaluation, chopping at parameters and
//! at axis extrema, inflections, maximum curvature and cusp detection.

use vstd::prelude::*;

use crate::fbits::{
    abs32, bound32, eq32, f32_abs, f32_bound, f32_eq, f32_is_nearly_zero, f32_le, f32_lt, f32_neg,
    is_nearly_zero32, le32, lemma_f32_small, lt32, neg32, F32_EPSILON, F32_FIFTY_FOUR, F32_NEG_ONE,
    F32_NEG_TWO, F32_NINE, F32_ONE, F32_ONE_MINUS_EPSILON, F32_PI, F32_THREE,
    F32_TWENTY_SEVEN, F32_TWO,
    F32_ZERO, F32_1E_MINUS_8,
};
use crate::fp::{add32, add32_of, div32, div32_of, mul32, mul32_of, sub32, sub32_of};
use crate::fsqrt::{sqrt32_bits, sqrt32_s};
use crate::ftrans::{acos32, acos32_s, cos32, cos32_s, scalar_cube_root, scalar_cube_root_s};
use crate::point::{pt_cross_s, pt_distance_to_sqd_s, pt_eq_s, pt_length_sqd_s, pt_sub_s, Point};
use crate::quad::{interp, interp_s, quad_eval_s, times_2, times_2_s, QuadCoeff};
use crate::roots::{
    find_unit_quad_roots, roots_ascending_s, unit_quad_roots_s, valid_unit_divide, vud_s,
};
use crate::tvalue::{lemma_tvalue_bits_unit, NormalizedF32, TValue};

verus! {

/// Monomial coefficients of a cubic: `eval(t) = ((a*t + b)*t + c)*t + d`.
#[derive(Clone, Copy, Debug, PartialEq, Eq, Structural)]
pub struct CubicCoeff {
    pub a: Point,
    pub b: Point,
    pub c: Point,
    pub d: Point,
}

pub open spec fn cubic_coeff_s(p0: Point, p1: Point, p2: Point, p3: Point) -> CubicCoeff {
    CubicCoeff {
        a: Point {
            x: sub32_of(add32_of(p3.x, mul32_of(F32_THREE, sub32_of(p1.x, p2.x))), p0.x),
            y: sub32_of(add32_of(p3.y, mul32_of(F32_THREE, sub32_of(p1.y, p2.y))), p0.y),
        },
        b: Point {
            x: mul32_of(F32_THREE, add32_of(sub32_of(p2.x, add32_of(p1.x, p1.x)), p0.x)),
            y: mul32_of(F32_THREE, add32_of(sub32_of(p2.y, add32_of(p1.y, p1.y)), p0.y)),
        },
        c: Point {
            x: mul32_of(F32_THREE, sub32_of(p1.x, p0.x)),
            y: mul32_of(F32_THREE, sub32_of(p1.y, p0.y)),
        },
        d: p0,
    }
}

/// One lane of `((a*t + b)*t + c)*t + d`.
pub open spec fn cubic_eval1_s(a: u32, b: u32, c: u32, d: u32, t: u32) -> u32 {
    add32_of(mul32_of(add32_of(mul32_of(add32_of(mul32_of(a, t), b), t), c), t), d)
}

pub open spec fn cubic_eval_s(q: CubicCoeff, t: u32) -> Point {
    Point {
        x: cubic_eval1_s(q.a.x, q.b.x, q.c.x, q.d.x, t),
        y: cubic_eval1_s(q.a.y, q.b.y, q.c.y, q.d.y, t),
    }
}

impl CubicCoeff {
    /// `a = p3 + 3*(p1 - p2) - p0`, `b = 3*(p2 - 2*p1 + p0)`,
    /// `c = 3*(p1 - p0)`, `d = p0`.
    pub fn from_points(points: &[Point]) -> (r: CubicCoeff)
        requires
            points@.len() == 4,
        ensures
            r == cubic_coeff_s(points@[0], points@[1], points@[2], points@[3]),
    {
        let p0 = points[0];
        let p1 = points[1];
        let p2 = points[2];
        let p3 = points[3];
        CubicCoeff {
            a: Point {
                x: sub32(add32(p3.x, mul32(F32_THREE, sub32(p1.x, p2.x))), p0.x),
                y: sub32(add32(p3.y, mul32(F32_THREE, sub32(p1.y, p2.y))), p0.y),
            },
            b: Point {
                x: mul32(F32_THREE, add32(sub32(p2.x, add32(p1.x, p1.x)), p0.x)),
                y: mul32(F32_THREE, add32(sub32(p2.y, add32(p1.y, p1.y)), p0.y)),
            },
            c: Point {
                x: mul32(F32_THREE, sub32(p1.x, p0.x)),
                y: mul32(F32_THREE, sub32(p1.y, p0.y)),
            },
            d: p0,
        }
    }

    /// Horner evaluation on both lanes.
    pub fn eval(&self, t: u32) -> (r: Point)
        ensures
            r == cubic_eval_s(*self, t),
    {
        Point {
            x: add32(
                mul32(add32(mul32(add32(mul32(self.a.x, t), self.b.x), t), self.c.x), t),
                self.d.x,
            ),
            y: add32(
                mul32(add32(mul32(add32(mul32(self.a.y, t), self.b.y), t), self.c.y), t),
                self.d.y,
            ),
        }
    }
}

/// The seven de Casteljau points of a cubic chopped at `t`.
pub open spec fn chop7_s(p0: Point, p1: Point, p2: Point, p3: Point, t: u32) -> Seq<Point> {
    let ab = interp_s(p0, p1, t);
    let bc = interp_s(p1, p2, t);
    let cd = interp_s(p2, p3, t);
    let abc = interp_s(ab, bc, t);
    let bcd = interp_s(bc, cd, t);
    let abcd = interp_s(abc, bcd, t);
    seq![p0, ab, abc, abcd, bcd, cd, p3]
}

/// Writes the seven chop points at `offset`, leaving the rest of the buffer
/// alone.
fn chop7_into(
    p0: Point,
    p1: Point,
    p2: Point,
    p3: Point,
    t: TValue,
    dst: &mut Vec<Point>,
    offset: usize,
)
    requires
        offset + 7 <= old(dst)@.len(),
    ensures
        final(dst)@.len() == old(dst)@.len(),
        final(dst)@ == old(dst)@.take(offset as int) + chop7_s(p0, p1, p2, p3, t.bits_s()) + old(
            dst,
        )@.skip(offset as int + 7),
{
    let n = dst.len();
    let tt = t.get();
    let ab = interp(p0, p1, tt);
    let bc = interp(p1, p2, tt);
    let cd = interp(p2, p3, tt);
    let abc = interp(ab, bc, tt);
    let bcd = interp(bc, cd, tt);
    let abcd = interp(abc, bcd, tt);
    dst.set(offset, p0);
    dst.set(offset + 1, ab);
    dst.set(offset + 2, abc);
    dst.set(offset + 3, abcd);
    dst.set(offset + 4, bcd);
    dst.set(offset + 5, cd);
    dst.set(offset + 6, p3);
    proof {
        assert(dst@ =~= old(dst)@.take(offset as int) + chop7_s(p0, p1, p2, p3, t.bits_s()) + old(
            dst,
        )@.skip(offset as int + 7));
    }
}

/// Chops a cubic at one parameter: seven points, the outer two the inputs.
pub fn chop_cubic_at2(src: &[Point], t: TValue, dst: &mut Vec<Point>)
    requires
        src@.len() >= 4,
        old(dst)@.len() >= 7,
    ensures
        final(dst)@.len() == old(dst)@.len(),
        final(dst)@ == chop7_s(src@[0], src@[1], src@[2], src@[3], t.bits_s()) + old(dst)@.skip(7),
        final(dst)@[0] == src@[0],
        final(dst)@[6] == src@[3],
{
    chop7_into(src[0], src[1], src[2], src[3], t, dst, 0);
    proof {
        assert(old(dst)@.take(0int) + chop7_s(src@[0], src@[1], src@[2], src@[3], t.bits_s())
            + old(dst)@.skip(7) =~= chop7_s(src@[0], src@[1], src@[2], src@[3], t.bits_s()) + old(
            dst,
        )@.skip(7));
    }
}

/// The points written by chopping at the parameter list `ts` from index `i`
/// on, `t` being the parameter renormalized into the current piece. When a
/// renormalization collapses, the remaining output is a degenerate clump of
/// the current endpoint and chopping stops.
pub open spec fn chop_seq_s(
    p0: Point,
    p1: Point,
    p2: Point,
    p3: Point,
    ts: Seq<u32>,
    i: int,
    t: u32,
) -> Seq<Point>
    decreases ts.len() - i,
{
    let c7 = chop7_s(p0, p1, p2, p3, t);
    if i + 1 >= ts.len() {
        c7
    } else {
        match vud_s(sub32_of(ts[i + 1], ts[i]), sub32_of(F32_ONE, ts[i])) {
            Some(t2) => c7.take(3) + chop_seq_s(c7[3], c7[4], c7[5], c7[6], ts, i + 1, t2),
            None => c7 + seq![c7[6], c7[6], c7[6]],
        }
    }
}

/// The full output of the multi-parameter chop: with no parameters the
/// cubic itself, otherwise the chop chain starting at the first parameter.
pub open spec fn chop_cubic_multi_s(
    p0: Point,
    p1: Point,
    p2: Point,
    p3: Point,
    ts: Seq<u32>,
) -> Seq<Point> {
    if ts.len() == 0 {
        seq![p0, p1, p2, p3]
    } else {
        chop_seq_s(p0, p1, p2, p3, ts, 0, ts[0])
    }
}

proof fn lemma_chop_seq_len(p0: Point, p1: Point, p2: Point, p3: Point, ts: Seq<u32>, i: int, t: u32)
    requires
        0 <= i < ts.len(),
    ensures
        7 <= chop_seq_s(p0, p1, p2, p3, ts, i, t).len() <= 3 * (ts.len() - i) + 4,
        chop_seq_s(p0, p1, p2, p3, ts, i, t).len() % 3 == 1,
    decreases ts.len() - i,
{
    let c7 = chop7_s(p0, p1, p2, p3, t);
    if i + 1 < ts.len() {
        match vud_s(sub32_of(ts[i + 1], ts[i]), sub32_of(F32_ONE, ts[i])) {
            Some(t2) => {
                lemma_chop_seq_len(c7[3], c7[4], c7[5], c7[6], ts, i + 1, t2);
            },
            None => {},
        }
    }
}

/// The first point of the multi-chop output is the input head, and its last
/// point is the input tail: chopping preserves the endpoints exactly, the
/// degenerate clump included.
pub proof fn lemma_chop_multi_endpoints(
    p0: Point,
    p1: Point,
    p2: Point,
    p3: Point,
    ts: Seq<u32>,
)
    ensures
        chop_cubic_multi_s(p0, p1, p2, p3, ts).first() == p0,
        chop_cubic_multi_s(p0, p1, p2, p3, ts).last() == p3,
{
    if ts.len() > 0 {
        lemma_chop_seq_endpoints(p0, p1, p2, p3, ts, 0, ts[0]);
    }
}

proof fn lemma_chop_seq_endpoints(
    p0: Point,
    p1: Point,
    p2: Point,
    p3: Point,
    ts: Seq<u32>,
    i: int,
    t: u32,
)
    requires
        0 <= i < ts.len(),
    ensures
        chop_seq_s(p0, p1, p2, p3, ts, i, t).first() == p0,
        chop_seq_s(p0, p1, p2, p3, ts, i, t).last() == p3,
        chop_seq_s(p0, p1, p2, p3, ts, i, t).len() >= 7,
    decreases ts.len() - i,
{
    let c7 = chop7_s(p0, p1, p2, p3, t);
    if i + 1 < ts.len() {
        match vud_s(sub32_of(ts[i + 1], ts[i]), sub32_of(F32_ONE, ts[i])) {
            Some(t2) => {
                lemma_chop_seq_endpoints(c7[3], c7[4], c7[5], c7[6], ts, i + 1, t2);
            },
            None => {},
        }
    }
}

/// Chopping at two parameters in one call is chopping at the first, then
/// chopping the remaining piece at the second parameter renormalized into
/// it — exactly, point for point (the renormalization succeeding).
pub proof fn lemma_chop_two_is_sequential(
    p0: Point,
    p1: Point,
    p2: Point,
    p3: Point,
    t0: u32,
    t1: u32,
)
    requires
        vud_s(sub32_of(t1, t0), sub32_of(F32_ONE, t0)) is Some,
    ensures
        chop_cubic_multi_s(p0, p1, p2, p3, seq![t0, t1]) == chop7_s(p0, p1, p2, p3, t0).take(3)
            + chop7_s(
            chop7_s(p0, p1, p2, p3, t0)[3],
            chop7_s(p0, p1, p2, p3, t0)[4],
            chop7_s(p0, p1, p2, p3, t0)[5],
            chop7_s(p0, p1, p2, p3, t0)[6],
            vud_s(sub32_of(t1, t0), sub32_of(F32_ONE, t0))->0,
        ),
{
    let ts = seq![t0, t1];
    assert(ts[0] == t0 && ts[1] == t1);
    let t2 = vud_s(sub32_of(t1, t0), sub32_of(F32_ONE, t0))->0;
    let c7 = chop7_s(p0, p1, p2, p3, t0);
    assert(chop_cubic_multi_s(p0, p1, p2, p3, ts) == chop_seq_s(p0, p1, p2, p3, ts, 0, t0));
    assert(chop_seq_s(p0, p1, p2, p3, ts, 0, t0) == c7.take(3) + chop_seq_s(
        c7[3],
        c7[4],
        c7[5],
        c7[6],
        ts,
        1,
        t2,
    ));
    assert(chop_seq_s(c7[3], c7[4], c7[5], c7[6], ts, 1, t2) == chop7_s(
        c7[3],
        c7[4],
        c7[5],
        c7[6],
        t2,
    ));
}

/// Recursive worker: chops the piece `(p0,p1,p2,p3)` at `t`, then recurses
/// into the tail with the next parameter renormalized.
fn chop_cubic_rec(
    p0: Point,
    p1: Point,
    p2: Point,
    p3: Point,
    t_values: &[TValue],
    i: usize,
    t: TValue,
    dst: &mut Vec<Point>,
    offset: usize,
)
    requires
        t_values@.len() <= 4,
        i < t_values@.len(),
        offset + 3 * (t_values@.len() - i) + 4 <= old(dst)@.len(),
    ensures
        final(dst)@.len() == old(dst)@.len(),
        ({
            let written = chop_seq_s(
                p0,
                p1,
                p2,
                p3,
                t_values@.map_values(|v: TValue| v.bits_s()),
                i as int,
                t.bits_s(),
            );
            final(dst)@ == old(dst)@.take(offset as int) + written + old(dst)@.skip(
                offset as int + written.len(),
            )
        }),
    decreases t_values@.len() - i,
{
    let n = dst.len();
    let ghost tsb = t_values@.map_values(|v: TValue| v.bits_s());
    proof {
        lemma_chop_seq_len(p0, p1, p2, p3, tsb, i as int, t.bits_s());
    }
    chop7_into(p0, p1, p2, p3, t, dst, offset);
    if i + 1 >= t_values.len() {
        return ;
    }
    let tnext = sub32(t_values[i + 1].get(), t_values[i].get());
    let tleft = sub32(F32_ONE, t_values[i].get());
    let q0 = dst[offset + 3];
    let q1 = dst[offset + 4];
    let q2 = dst[offset + 5];
    let q3 = dst[offset + 6];
    match valid_unit_divide(tnext, tleft) {
        Some(t2) => {
            chop_cubic_rec(q0, q1, q2, q3, t_values, i + 1, t2, dst, offset + 3);
            proof {
                let c7 = chop7_s(p0, p1, p2, p3, t.bits_s());
                let inner = chop_seq_s(c7[3], c7[4], c7[5], c7[6], tsb, i + 1, t2.bits_s());
                lemma_chop_seq_len(c7[3], c7[4], c7[5], c7[6], tsb, i + 1, t2.bits_s());
                let written = chop_seq_s(p0, p1, p2, p3, tsb, i as int, t.bits_s());
                assert(written == c7.take(3) + inner);
                assert(final(dst)@ =~= old(dst)@.take(offset as int) + written + old(dst)@.skip(
                    offset as int + written.len(),
                ));
            }
        },
        None => {
            dst.set(offset + 7, q3);
            dst.set(offset + 8, q3);
            dst.set(offset + 9, q3);
            proof {
                let c7 = chop7_s(p0, p1, p2, p3, t.bits_s());
                let written = chop_seq_s(p0, p1, p2, p3, tsb, i as int, t.bits_s());
                assert(written == c7 + seq![c7[6], c7[6], c7[6]]);
                assert(final(dst)@ =~= old(dst)@.take(offset as int) + written + old(dst)@.skip(
                    offset as int + written.len(),
                ));
            }
        },
    }
}

/// Chops a cubic at 0 to 3 sorted parameters. With `n` parameters the first
/// `3n + 4` output points are populated (fewer when a renormalization
/// collapses: the output then ends early with a degenerate clump of the
/// endpoint); whatever lies beyond in the buffer is untouched. The first
/// and last written points are exactly the input endpoints.
pub fn chop_cubic_at(src: &[Point], t_values: &[TValue], dst: &mut Vec<Point>)
    requires
        src@.len() >= 4,
        t_values@.len() <= 3,
        old(dst)@.len() >= 3 * t_values@.len() + 4,
    ensures
        final(dst)@.len() == old(dst)@.len(),
        ({
            let written = chop_cubic_multi_s(
                src@[0],
                src@[1],
                src@[2],
                src@[3],
                t_values@.map_values(|v: TValue| v.bits_s()),
            );
            final(dst)@ == old(dst)@.take(0) + written + old(dst)@.skip(written.len() as int)
        }),
{
    if t_values.len() == 0 {
        dst.set(0, src[0]);
        dst.set(1, src[1]);
        dst.set(2, src[2]);
        dst.set(3, src[3]);
        proof {
            let written = chop_cubic_multi_s(
                src@[0],
                src@[1],
                src@[2],
                src@[3],
                t_values@.map_values(|v: TValue| v.bits_s()),
            );
            assert(written =~= seq![src@[0], src@[1], src@[2], src@[3]]);
            assert(final(dst)@ =~= old(dst)@.take(0) + written + old(dst)@.skip(4));
        }
    } else {
        let t = t_values[0];
        chop_cubic_rec(src[0], src[1], src[2], src[3], t_values, 0, t, dst, 0);
        proof {
            let tsb = t_values@.map_values(|v: TValue| v.bits_s());
            assert(tsb[0] == t.bits_s());
            let written = chop_cubic_multi_s(src@[0], src@[1], src@[2], src@[3], tsb);
            assert(written == chop_seq_s(src@[0], src@[1], src@[2], src@[3], tsb, 0, tsb[0]));
            assert(final(dst)@ =~= old(dst)@.take(0) + written + old(dst)@.skip(
                written.len() as int,
            ));
        }
    }
}


/// The quadratic coefficients (divided by 3) of one lane's derivative:
/// `na = d - a + 3*(b - c)`, `nb = 2*(a - 2b + c)`, `nc = b - a`.
pub open spec fn cubic_extrema_na_s(a: u32, b: u32, c: u32, d: u32) -> u32 {
    add32_of(sub32_of(d, a), mul32_of(F32_THREE, sub32_of(b, c)))
}

pub open spec fn cubic_extrema_nb_s(a: u32, b: u32, c: u32, d: u32) -> u32 {
    mul32_of(F32_TWO, add32_of(sub32_of(sub32_of(a, b), b), c))
}

pub open spec fn cubic_extrema_nc_s(a: u32, b: u32, c: u32, d: u32) -> u32 {
    sub32_of(b, a)
}

/// The extremum parameters of one coordinate lane of a cubic.
pub open spec fn cubic_extrema_s(a: u32, b: u32, c: u32, d: u32) -> Seq<u32> {
    unit_quad_roots_s(
        cubic_extrema_na_s(a, b, c, d),
        cubic_extrema_nb_s(a, b, c, d),
        cubic_extrema_nc_s(a, b, c, d),
    )
}

/// Derivative roots of one lane in (0,1), strictly ascending.
fn find_cubic_extrema(a: u32, b: u32, c: u32, d: u32) -> (r: Vec<TValue>)
    ensures
        r@.len() == cubic_extrema_s(a, b, c, d).len(),
        forall|i: int|
            0 <= i < r@.len() ==> #[trigger] r@[i].bits_s() == cubic_extrema_s(a, b, c, d)[i],
        roots_ascending_s(r@),
        r@.len() <= 2,
{
    let na = add32(sub32(d, a), mul32(F32_THREE, sub32(b, c)));
    let nb = mul32(F32_TWO, add32(sub32(sub32(a, b), b), c));
    let nc = sub32(b, a);
    find_unit_quad_roots(na, nb, nc)
}

/// The flattening of the chopped-axis x values at the junctions: with one
/// split the junction's two neighbours take its x; with two splits the same
/// at the second junction.
pub open spec fn flatten_x_s(s: Seq<Point>, n: int) -> Seq<Point> {
    if n == 0 {
        s
    } else {
        let s1 = s.update(2, Point { x: s[3].x, y: s[2].y }).update(
            4,
            Point { x: s[3].x, y: s[4].y },
        );
        if n == 2 {
            s1.update(5, Point { x: s1[6].x, y: s1[5].y }).update(
                7,
                Point { x: s1[6].x, y: s1[7].y },
            )
        } else {
            s1
        }
    }
}

/// The flattening of the chopped-axis y values at the junctions.
pub open spec fn flatten_y_s(s: Seq<Point>, n: int) -> Seq<Point> {
    if n == 0 {
        s
    } else {
        let s1 = s.update(2, Point { x: s[2].x, y: s[3].y }).update(
            4,
            Point { x: s[4].x, y: s[3].y },
        );
        if n == 2 {
            s1.update(5, Point { x: s1[5].x, y: s1[6].y }).update(
                7,
                Point { x: s1[7].x, y: s1[6].y },
            )
        } else {
            s1
        }
    }
}

/// Chops the cubic at its x extrema into 1 to 3 pieces, each monotonic in
/// x. Returns the split count; `3*(n+1) + 1` points are populated. At every
/// junction the x value is copied into the two adjacent control points, so
/// the junction x agrees exactly across neighbouring pieces.
pub fn chop_cubic_at_x_extrema(src: &[Point], dst: &mut Vec<Point>) -> (n: usize)
    requires
        src@.len() >= 4,
        old(dst)@.len() == 10,
    ensures
        n <= 2,
        final(dst)@.len() == 10,
        n == cubic_extrema_s(src@[0].x, src@[1].x, src@[2].x, src@[3].x).len(),
        ({
            let ts = cubic_extrema_s(src@[0].x, src@[1].x, src@[2].x, src@[3].x);
            let written = chop_cubic_multi_s(src@[0], src@[1], src@[2], src@[3], ts);
            final(dst)@ == flatten_x_s(written + old(dst)@.skip(written.len() as int), n as int)
        }),
        n >= 1 ==> final(dst)@[2].x == final(dst)@[3].x && final(dst)@[4].x == final(dst)@[3].x,
        n == 2 ==> final(dst)@[5].x == final(dst)@[6].x && final(dst)@[7].x == final(dst)@[6].x,
{
    let t_values = find_cubic_extrema(src[0].x, src[1].x, src[2].x, src[3].x);
    proof {
        assert(t_values@.map_values(|v: TValue| v.bits_s()) =~= cubic_extrema_s(
            src@[0].x,
            src@[1].x,
            src@[2].x,
            src@[3].x,
        ));
    }
    chop_cubic_at(src, t_values.as_slice(), dst);
    let n = t_values.len();
    if n >= 1 {
        let jx = dst[3].x;
        let d2 = dst[2];
        dst.set(2, Point { x: jx, y: d2.y });
        let d4 = dst[4];
        dst.set(4, Point { x: jx, y: d4.y });
        if n == 2 {
            let jx2 = dst[6].x;
            let d5 = dst[5];
            dst.set(5, Point { x: jx2, y: d5.y });
            let d7 = dst[7];
            dst.set(7, Point { x: jx2, y: d7.y });
        }
    }
    proof {
        let ts = cubic_extrema_s(src@[0].x, src@[1].x, src@[2].x, src@[3].x);
        let written = chop_cubic_multi_s(src@[0], src@[1], src@[2], src@[3], ts);
        if ts.len() > 0 {
            lemma_chop_seq_len(src@[0], src@[1], src@[2], src@[3], ts, 0, ts[0]);
        }
        assert(final(dst)@ =~= flatten_x_s(written + old(dst)@.skip(written.len() as int),
            n as int,
        ));
    }
    n
}

/// Chops the cubic at its y extrema into 1 to 3 pieces, each monotonic in
/// y; the mirror image of `chop_cubic_at_x_extrema`. This is what the scan
/// converter calls.
pub fn chop_cubic_at_y_extrema(src: &[Point], dst: &mut Vec<Point>) -> (n: usize)
    requires
        src@.len() >= 4,
        old(dst)@.len() == 10,
    ensures
        n <= 2,
        final(dst)@.len() == 10,
        n == cubic_extrema_s(src@[0].y, src@[1].y, src@[2].y, src@[3].y).len(),
        ({
            let ts = cubic_extrema_s(src@[0].y, src@[1].y, src@[2].y, src@[3].y);
            let written = chop_cubic_multi_s(src@[0], src@[1], src@[2], src@[3], ts);
            final(dst)@ == flatten_y_s(written + old(dst)@.skip(written.len() as int), n as int)
        }),
        n >= 1 ==> final(dst)@[2].y == final(dst)@[3].y && final(dst)@[4].y == final(dst)@[3].y,
        n == 2 ==> final(dst)@[5].y == final(dst)@[6].y && final(dst)@[7].y == final(dst)@[6].y,
{
    let t_values = find_cubic_extrema(src[0].y, src[1].y, src[2].y, src[3].y);
    proof {
        assert(t_values@.map_values(|v: TValue| v.bits_s()) =~= cubic_extrema_s(
            src@[0].y,
            src@[1].y,
            src@[2].y,
            src@[3].y,
        ));
    }
    chop_cubic_at(src, t_values.as_slice(), dst);
    let n = t_values.len();
    if n >= 1 {
        let jy = dst[3].y;
        let d2 = dst[2];
        dst.set(2, Point { x: d2.x, y: jy });
        let d4 = dst[4];
        dst.set(4, Point { x: d4.x, y: jy });
        if n == 2 {
            let jy2 = dst[6].y;
            let d5 = dst[5];
            dst.set(5, Point { x: d5.x, y: jy2 });
            let d7 = dst[7];
            dst.set(7, Point { x: d7.x, y: jy2 });
        }
    }
    proof {
        let ts = cubic_extrema_s(src@[0].y, src@[1].y, src@[2].y, src@[3].y);
        let written = chop_cubic_multi_s(src@[0], src@[1], src@[2], src@[3], ts);
        if ts.len() > 0 {
            lemma_chop_seq_len(src@[0], src@[1], src@[2], src@[3], ts, 0, ts[0]);
        }
        assert(final(dst)@ =~= flatten_y_s(written + old(dst)@.skip(written.len() as int),
            n as int,
        ));
    }
    n
}

/// The inflection equation coefficients of a cubic:
/// `(Bx*Cy - By*Cx) t^2 + (Ax*Cy - Ay*Cx) t + (Ax*By - Ay*Bx)` with
/// `A = p1 - p0`, `B = p2 - 2 p1 + p0`, `C = p3 + 3 (p1 - p2) - p0`.
pub open spec fn cubic_inflections_s(p0: Point, p1: Point, p2: Point, p3: Point) -> Seq<u32> {
    let ax = sub32_of(p1.x, p0.x);
    let ay = sub32_of(p1.y, p0.y);
    let bx = add32_of(sub32_of(p2.x, mul32_of(F32_TWO, p1.x)), p0.x);
    let by = add32_of(sub32_of(p2.y, mul32_of(F32_TWO, p1.y)), p0.y);
    let cx = sub32_of(add32_of(p3.x, mul32_of(F32_THREE, sub32_of(p1.x, p2.x))), p0.x);
    let cy = sub32_of(add32_of(p3.y, mul32_of(F32_THREE, sub32_of(p1.y, p2.y))), p0.y);
    unit_quad_roots_s(
        sub32_of(mul32_of(bx, cy), mul32_of(by, cx)),
        sub32_of(mul32_of(ax, cy), mul32_of(ay, cx)),
        sub32_of(mul32_of(ax, by), mul32_of(ay, bx)),
    )
}

/// The inflection parameters of the cubic: where its curvature crosses
/// zero. Zero to two roots, strictly ascending, inside (0,1).
pub fn find_cubic_inflections(src: &[Point]) -> (r: Vec<TValue>)
    requires
        src@.len() >= 4,
    ensures
        r@.len() == cubic_inflections_s(src@[0], src@[1], src@[2], src@[3]).len(),
        forall|i: int|
            0 <= i < r@.len() ==> #[trigger] r@[i].bits_s() == cubic_inflections_s(
                src@[0],
                src@[1],
                src@[2],
                src@[3],
            )[i],
        roots_ascending_s(r@),
        r@.len() <= 2,
{
    let ax = sub32(src[1].x, src[0].x);
    let ay = sub32(src[1].y, src[0].y);
    let bx = add32(sub32(src[2].x, mul32(F32_TWO, src[1].x)), src[0].x);
    let by = add32(sub32(src[2].y, mul32(F32_TWO, src[1].y)), src[0].y);
    let cx = sub32(add32(src[3].x, mul32(F32_THREE, sub32(src[1].x, src[2].x))), src[0].x);
    let cy = sub32(add32(src[3].y, mul32(F32_THREE, sub32(src[1].y, src[2].y))), src[0].y);
    find_unit_quad_roots(
        sub32(mul32(bx, cy), mul32(by, cx)),
        sub32(mul32(ax, cy), mul32(ay, cx)),
        sub32(mul32(ax, by), mul32(ay, bx)),
    )
}


/// The derivative of the cubic in quadratic coefficient form:
/// `a = p3 + 3*(p1 - p2) - p0`, `b = 2*(p2 - 2*p1 + p0)`, `c = p1 - p0`.
pub open spec fn cubic_deriv_coeff_s(p0: Point, p1: Point, p2: Point, p3: Point) -> QuadCoeff {
    QuadCoeff {
        a: Point {
            x: sub32_of(add32_of(p3.x, mul32_of(F32_THREE, sub32_of(p1.x, p2.x))), p0.x),
            y: sub32_of(add32_of(p3.y, mul32_of(F32_THREE, sub32_of(p1.y, p2.y))), p0.y),
        },
        b: times_2_s(
            Point {
                x: add32_of(sub32_of(p2.x, add32_of(p1.x, p1.x)), p0.x),
                y: add32_of(sub32_of(p2.y, add32_of(p1.y, p1.y)), p0.y),
            },
        ),
        c: pt_sub_s(p1, p0),
    }
}

/// The derivative vector `3a*t^2 + 2b*t + c` of the cubic at `t`.
pub open spec fn cubic_deriv_s(p0: Point, p1: Point, p2: Point, p3: Point, t: u32) -> Point {
    quad_eval_s(cubic_deriv_coeff_s(p0, p1, p2, p3), t)
}

fn eval_cubic_derivative(src: &[Point], t: u32) -> (r: Point)
    requires
        src@.len() >= 4,
    ensures
        r == cubic_deriv_s(src@[0], src@[1], src@[2], src@[3], t),
{
    let p0 = src[0];
    let p1 = src[1];
    let p2 = src[2];
    let p3 = src[3];
    let coeff = QuadCoeff {
        a: Point {
            x: sub32(add32(p3.x, mul32(F32_THREE, sub32(p1.x, p2.x))), p0.x),
            y: sub32(add32(p3.y, mul32(F32_THREE, sub32(p1.y, p2.y))), p0.y),
        },
        b: times_2(
            Point {
                x: add32(sub32(p2.x, add32(p1.x, p1.x)), p0.x),
                y: add32(sub32(p2.y, add32(p1.y, p1.y)), p0.y),
            },
        ),
        c: p1.minus(p0),
    };
    coeff.eval(t)
}

/// The second-derivative vector `2*(3a*t + b)` of the cubic, in the
/// derivative coefficient basis.
pub open spec fn cubic_2nd_deriv_s(p0: Point, p1: Point, p2: Point, p3: Point, t: u32) -> Point {
    let a = Point {
        x: sub32_of(add32_of(p3.x, mul32_of(F32_THREE, sub32_of(p1.x, p2.x))), p0.x),
        y: sub32_of(add32_of(p3.y, mul32_of(F32_THREE, sub32_of(p1.y, p2.y))), p0.y),
    };
    let b = Point {
        x: add32_of(sub32_of(p2.x, add32_of(p1.x, p1.x)), p0.x),
        y: add32_of(sub32_of(p2.y, add32_of(p1.y, p1.y)), p0.y),
    };
    Point { x: add32_of(mul32_of(a.x, t), b.x), y: add32_of(mul32_of(a.y, t), b.y) }
}

fn eval_cubic_2nd_derivative(src: &[Point], t: u32) -> (r: Point)
    requires
        src@.len() >= 4,
    ensures
        r == cubic_2nd_deriv_s(src@[0], src@[1], src@[2], src@[3], t),
{
    let p0 = src[0];
    let p1 = src[1];
    let p2 = src[2];
    let p3 = src[3];
    let a = Point {
        x: sub32(add32(p3.x, mul32(F32_THREE, sub32(p1.x, p2.x))), p0.x),
        y: sub32(add32(p3.y, mul32(F32_THREE, sub32(p1.y, p2.y))), p0.y),
    };
    let b = Point {
        x: add32(sub32(p2.x, add32(p1.x, p1.x)), p0.x),
        y: add32(sub32(p2.y, add32(p1.y, p1.y)), p0.y),
    };
    Point { x: add32(mul32(a.x, t), b.x), y: add32(mul32(a.y, t), b.y) }
}

/// The tangent of the cubic at `t`, with the degenerate-endpoint fallback:
/// at an end whose control point coincides with it, the neighbouring chord
/// stands in; if that chord has both components nonzero, the full chord
/// `p3 - p0` overrides it. (Overriding the fallback exactly when it is
/// already usable looks inverted, but it is the established rendering
/// behavior and is kept.)
pub open spec fn cubic_tangent_s(p0: Point, p1: Point, p2: Point, p3: Point, t: u32) -> Point {
    if (f32_eq(t, F32_ZERO) && pt_eq_s(p0, p1)) || (f32_eq(t, F32_ONE) && pt_eq_s(p2, p3)) {
        let base = if f32_eq(t, F32_ZERO) {
            pt_sub_s(p2, p0)
        } else {
            pt_sub_s(p3, p1)
        };
        if !f32_eq(base.x, F32_ZERO) && !f32_eq(base.y, F32_ZERO) {
            pt_sub_s(p3, p0)
        } else {
            base
        }
    } else {
        cubic_deriv_s(p0, p1, p2, p3, t)
    }
}

/// Position, tangent and second derivative of the cubic at `t`.
pub fn eval_cubic_at(src: &[Point], t: NormalizedF32) -> (r: (Point, Point, Point))
    requires
        src@.len() >= 4,
    ensures
        r.0 == cubic_eval_s(cubic_coeff_s(src@[0], src@[1], src@[2], src@[3]), t.bits_s()),
        r.1 == cubic_tangent_s(src@[0], src@[1], src@[2], src@[3], t.bits_s()),
        r.2 == cubic_2nd_deriv_s(src@[0], src@[1], src@[2], src@[3], t.bits_s()),
{
    proof {
        lemma_f32_small(F32_ZERO);
        lemma_f32_small(F32_ONE);
    }
    let four: [Point; 4] = [src[0], src[1], src[2], src[3]];
    let tb = t.get();
    let loc = CubicCoeff::from_points(four.as_slice()).eval(tb);
    let tangent = if (eq32(tb, F32_ZERO) && src[0].float_eq(src[1])) || (eq32(tb, F32_ONE)
        && src[2].float_eq(src[3])) {
        let base = if eq32(tb, F32_ZERO) {
            src[2].minus(src[0])
        } else {
            src[3].minus(src[1])
        };
        if !eq32(base.x, F32_ZERO) && !eq32(base.y, F32_ZERO) {
            src[3].minus(src[0])
        } else {
            base
        }
    } else {
        eval_cubic_derivative(src, tb)
    };
    let curvature = eval_cubic_2nd_derivative(src, tb);
    (loc, tangent, curvature)
}

/// One lane's `F' . F''` cubic coefficients `[C*C, 3*B*C, 2*B*B + C*A, A*B]`
/// with `A = v1 - v0`, `B = v2 - 2*v1 + v0`, `C = v3 + 3*(v1 - v2) - v0`.
pub open spec fn f1_dot_f2_k_s(v0: u32, v1: u32, v2: u32, v3: u32, k: int) -> u32 {
    let a = sub32_of(v1, v0);
    let b = add32_of(sub32_of(v2, mul32_of(F32_TWO, v1)), v0);
    let c = sub32_of(add32_of(v3, mul32_of(F32_THREE, sub32_of(v1, v2))), v0);
    if k == 0 {
        mul32_of(c, c)
    } else if k == 1 {
        mul32_of(mul32_of(F32_THREE, b), c)
    } else if k == 2 {
        add32_of(mul32_of(mul32_of(F32_TWO, b), b), mul32_of(c, a))
    } else {
        mul32_of(a, b)
    }
}

fn formulate_f1_dot_f2(v0: u32, v1: u32, v2: u32, v3: u32) -> (r: [u32; 4])
    ensures
        forall|k: int| 0 <= k < 4 ==> r[k] == f1_dot_f2_k_s(v0, v1, v2, v3, k),
{
    let a = sub32(v1, v0);
    let b = add32(sub32(v2, mul32(F32_TWO, v1)), v0);
    let c = sub32(add32(v3, mul32(F32_THREE, sub32(v1, v2))), v0);
    [
        mul32(c, c),
        mul32(mul32(F32_THREE, b), c),
        add32(mul32(mul32(F32_TWO, b), b), mul32(c, a)),
        mul32(a, b),
    ]
}

/// Stable three-element sort network (swap 0-1, 1-2, 0-1).
pub open spec fn sort3_s(v: Seq<u32>) -> Seq<u32> {
    let s1 = if f32_lt(v[1], v[0]) {
        seq![v[1], v[0], v[2]]
    } else {
        v
    };
    let s2 = if f32_lt(s1[2], s1[1]) {
        seq![s1[0], s1[2], s1[1]]
    } else {
        s1
    };
    if f32_lt(s2[1], s2[0]) {
        seq![s2[1], s2[0], s2[2]]
    } else {
        s2
    }
}

/// Duplicate collapse from the left: a triple with its first pair equal
/// keeps one value; with only its last pair equal it keeps two.
pub open spec fn collapse3_s(v: Seq<u32>) -> Seq<u32> {
    if f32_eq(v[0], v[1]) {
        v.take(1)
    } else if f32_eq(v[1], v[2]) {
        v.take(2)
    } else {
        v
    }
}

/// The three clamped roots of the three-real-roots branch.
pub open spec fn cubic_three_roots_s(q: u32, r: u32, adiv3: u32) -> Seq<u32> {
    let q3 = mul32_of(mul32_of(q, q), q);
    let theta = acos32_s(f32_bound(div32_of(r, sqrt32_s(q3)), F32_NEG_ONE, F32_ONE));
    let neg2_root_q = mul32_of(F32_NEG_TWO, sqrt32_s(q));
    let t0 = f32_bound(
        sub32_of(mul32_of(neg2_root_q, cos32_s(div32_of(theta, F32_THREE))), adiv3),
        F32_EPSILON,
        F32_ONE_MINUS_EPSILON,
    );
    let t1 = f32_bound(
        sub32_of(
            mul32_of(
                neg2_root_q,
                cos32_s(div32_of(add32_of(theta, mul32_of(F32_TWO, F32_PI)), F32_THREE)),
            ),
            adiv3,
        ),
        F32_EPSILON,
        F32_ONE_MINUS_EPSILON,
    );
    let t2 = f32_bound(
        sub32_of(
            mul32_of(
                neg2_root_q,
                cos32_s(div32_of(sub32_of(theta, mul32_of(F32_TWO, F32_PI)), F32_THREE)),
            ),
            adiv3,
        ),
        F32_EPSILON,
        F32_ONE_MINUS_EPSILON,
    );
    collapse3_s(sort3_s(seq![t0, t1, t2]))
}

/// The one clamped root of the single-real-root branch.
pub open spec fn cubic_one_root_s(q: u32, r: u32, r2_minus_q3: u32, adiv3: u32) -> u32 {
    let a0 = scalar_cube_root_s(add32_of(f32_abs(r), sqrt32_s(r2_minus_q3)));
    let a1 = if f32_lt(F32_ZERO, r) {
        f32_neg(a0)
    } else {
        a0
    };
    let a2 = if !f32_eq(a1, F32_ZERO) {
        add32_of(a1, div32_of(q, a1))
    } else {
        a1
    };
    f32_bound(sub32_of(a2, adiv3), F32_EPSILON, F32_ONE_MINUS_EPSILON)
}

/// All roots of `k0 t^3 + k1 t^2 + k2 t + k3` inside (0,1): the quadratic
/// fallback when the leading coefficient is nearly zero, else Cardano by
/// trigonometry (three real roots) or by cube root (one), every root
/// clamped into the open unit range, sorted, duplicates collapsed.
pub open spec fn solve_cubic_s(k0: u32, k1: u32, k2: u32, k3: u32) -> Seq<u32> {
    if f32_is_nearly_zero(k0) {
        unit_quad_roots_s(k1, k2, k3)
    } else {
        let inva = div32_of(F32_ONE, k0);
        let a = mul32_of(k1, inva);
        let b = mul32_of(k2, inva);
        let c = mul32_of(k3, inva);
        let q = div32_of(sub32_of(mul32_of(a, a), mul32_of(b, F32_THREE)), F32_NINE);
        let r = div32_of(
            add32_of(
                sub32_of(
                    mul32_of(mul32_of(mul32_of(F32_TWO, a), a), a),
                    mul32_of(mul32_of(F32_NINE, a), b),
                ),
                mul32_of(F32_TWENTY_SEVEN, c),
            ),
            F32_FIFTY_FOUR,
        );
        let q3 = mul32_of(mul32_of(q, q), q);
        let r2_minus_q3 = sub32_of(mul32_of(r, r), q3);
        let adiv3 = div32_of(a, F32_THREE);
        if f32_lt(r2_minus_q3, F32_ZERO) {
            cubic_three_roots_s(q, r, adiv3)
        } else {
            seq![cubic_one_root_s(q, r, r2_minus_q3, adiv3)]
        }
    }
}

/// Solves the cubic polynomial on (0,1); roots come out strictly ascending
/// and distinct.
pub fn solve_cubic_poly(k0: u32, k1: u32, k2: u32, k3: u32) -> (roots: Vec<TValue>)
    ensures
        roots@.len() == solve_cubic_s(k0, k1, k2, k3).len(),
        forall|i: int|
            0 <= i < roots@.len() ==> #[trigger] roots@[i].bits_s() == solve_cubic_s(
                k0,
                k1,
                k2,
                k3,
            )[i],
        roots_ascending_s(roots@),
        roots@.len() <= 3,
{
    proof {
        lemma_f32_small(F32_ZERO);
        lemma_f32_small(F32_ONE);
        lemma_f32_small(F32_EPSILON);
        lemma_f32_small(F32_ONE_MINUS_EPSILON);
    }
    if is_nearly_zero32(k0) {
        return find_unit_quad_roots(k1, k2, k3);
    }
    let inva = div32(F32_ONE, k0);
    let a = mul32(k1, inva);
    let b = mul32(k2, inva);
    let c = mul32(k3, inva);
    let q = div32(sub32(mul32(a, a), mul32(b, F32_THREE)), F32_NINE);
    let r = div32(
        add32(
            sub32(mul32(mul32(mul32(F32_TWO, a), a), a), mul32(mul32(F32_NINE, a), b)),
            mul32(F32_TWENTY_SEVEN, c),
        ),
        F32_FIFTY_FOUR,
    );
    let q3 = mul32(mul32(q, q), q);
    let r2_minus_q3 = sub32(mul32(r, r), q3);
    let adiv3 = div32(a, F32_THREE);
    let mut out: Vec<TValue> = Vec::new();
    if lt32(r2_minus_q3, F32_ZERO) {
        let theta = acos32(bound32(div32(r, sqrt32_bits(q3)), F32_NEG_ONE, F32_ONE));
        let neg2_root_q = mul32(F32_NEG_TWO, sqrt32_bits(q));
        let v0 = TValue::new_bounded(
            sub32(mul32(neg2_root_q, cos32(div32(theta, F32_THREE))), adiv3),
        );
        let v1 = TValue::new_bounded(
            sub32(
                mul32(
                    neg2_root_q,
                    cos32(div32(add32(theta, mul32(F32_TWO, F32_PI)), F32_THREE)),
                ),
                adiv3,
            ),
        );
        let v2 = TValue::new_bounded(
            sub32(
                mul32(
                    neg2_root_q,
                    cos32(div32(sub32(theta, mul32(F32_TWO, F32_PI)), F32_THREE)),
                ),
                adiv3,
            ),
        );
        let ghost raw = seq![v0.bits_s(), v1.bits_s(), v2.bits_s()];
        let (s0, s1) = if lt32(v1.get(), v0.get()) {
            (v1, v0)
        } else {
            (v0, v1)
        };
        let (u1, u2) = if lt32(v2.get(), s1.get()) {
            (v2, s1)
        } else {
            (s1, v2)
        };
        let (w0, w1) = if lt32(u1.get(), s0.get()) {
            (u1, s0)
        } else {
            (s0, u1)
        };
        proof {
            assert(sort3_s(raw) =~= seq![w0.bits_s(), w1.bits_s(), u2.bits_s()]);
        }
        if eq32(w0.get(), w1.get()) {
            out.push(w0);
        } else if eq32(w1.get(), u2.get()) {
            out.push(w0);
            out.push(w1);
        } else {
            out.push(w0);
            out.push(w1);
            out.push(u2);
        }
        proof {
            lemma_tvalue_bits_unit(w0.bits_s());
            lemma_tvalue_bits_unit(w1.bits_s());
            lemma_tvalue_bits_unit(u2.bits_s());
            assert(collapse3_s(sort3_s(raw)) =~= out@.map_values(|v: TValue| v.bits_s()));
        }
    } else {
        let a0 = scalar_cube_root(add32(abs32(r), sqrt32_bits(r2_minus_q3)));
        let a1 = if lt32(F32_ZERO, r) {
            neg32(a0)
        } else {
            a0
        };
        let a2 = if !eq32(a1, F32_ZERO) {
            add32(a1, div32(q, a1))
        } else {
            a1
        };
        out.push(TValue::new_bounded(sub32(a2, adiv3)));
    }
    out
}

/// The cubic coefficients of `F' . F''`: the per-lane formulations summed
/// componentwise.
pub open spec fn max_curv_coeff_s(p0: Point, p1: Point, p2: Point, p3: Point, k: int) -> u32 {
    add32_of(
        f1_dot_f2_k_s(p0.x, p1.x, p2.x, p3.x, k),
        f1_dot_f2_k_s(p0.y, p1.y, p2.y, p3.y, k),
    )
}

/// The maximum-curvature parameters of the cubic.
pub open spec fn cubic_max_curvature_s(p0: Point, p1: Point, p2: Point, p3: Point) -> Seq<u32> {
    solve_cubic_s(
        max_curv_coeff_s(p0, p1, p2, p3, 0),
        max_curv_coeff_s(p0, p1, p2, p3, 1),
        max_curv_coeff_s(p0, p1, p2, p3, 2),
        max_curv_coeff_s(p0, p1, p2, p3, 3),
    )
}

/// The parameters where `F' . F''` vanishes: the candidates for maximum
/// curvature. Zero to three roots, strictly ascending, inside (0,1).
pub fn find_cubic_max_curvature(src: &[Point]) -> (roots: Vec<TValue>)
    requires
        src@.len() >= 4,
    ensures
        roots@.len() == cubic_max_curvature_s(src@[0], src@[1], src@[2], src@[3]).len(),
        forall|i: int|
            0 <= i < roots@.len() ==> #[trigger] roots@[i].bits_s() == cubic_max_curvature_s(
                src@[0],
                src@[1],
                src@[2],
                src@[3],
            )[i],
        roots_ascending_s(roots@),
        roots@.len() <= 3,
{
    let cx = formulate_f1_dot_f2(src[0].x, src[1].x, src[2].x, src[3].x);
    let cy = formulate_f1_dot_f2(src[0].y, src[1].y, src[2].y, src[3].y);
    let k0 = add32(cx[0], cy[0]);
    let k1 = add32(cx[1], cy[1]);
    let k2 = add32(cx[2], cy[2]);
    let k3 = add32(cx[3], cy[3]);
    solve_cubic_poly(k0, k1, k2, k3)
}

/// Whether both points of the tested edge lie in one half plane of the line
/// through the other edge (their cross products do not have opposite signs).
pub open spec fn on_same_side_s(s: Seq<Point>, test_index: int, line_index: int) -> bool {
    let origin = s[line_index];
    let line = pt_sub_s(s[line_index + 1], origin);
    let c0 = pt_cross_s(line, pt_sub_s(s[test_index], origin));
    let c1 = pt_cross_s(line, pt_sub_s(s[test_index + 1], origin));
    f32_le(F32_ZERO, mul32_of(c0, c1))
}

fn on_same_side(src: &[Point], test_index: usize, line_index: usize) -> (r: bool)
    requires
        src@.len() >= 4,
        test_index + 1 < 4,
        line_index + 1 < 4,
    ensures
        r == on_same_side_s(src@, test_index as int, line_index as int),
{
    proof {
        lemma_f32_small(F32_ZERO);
    }
    let origin = src[line_index];
    let line = src[line_index + 1].minus(origin);
    let c0 = line.cross(src[test_index].minus(origin));
    let c1 = line.cross(src[test_index + 1].minus(origin));
    le32(F32_ZERO, mul32(c0, c1))
}

/// A squared-length tolerance proportional to the cubic's dimensions:
/// the summed squared control distances scaled by 1e-8.
pub open spec fn cubic_precision_s(p0: Point, p1: Point, p2: Point, p3: Point) -> u32 {
    mul32_of(
        add32_of(
            add32_of(pt_distance_to_sqd_s(p1, p0), pt_distance_to_sqd_s(p2, p1)),
            pt_distance_to_sqd_s(p3, p2),
        ),
        F32_1E_MINUS_8,
    )
}

fn calc_cubic_precision(src: &[Point]) -> (r: u32)
    requires
        src@.len() >= 4,
    ensures
        r == cubic_precision_s(src@[0], src@[1], src@[2], src@[3]),
{
    mul32(
        add32(
            add32(src[1].distance_to_sqd(src[0]), src[2].distance_to_sqd(src[1])),
            src[3].distance_to_sqd(src[2]),
        ),
        F32_1E_MINUS_8,
    )
}

/// The scan for the cusp: the first maximum-curvature parameter whose
/// derivative is shorter than the precision tolerance.
pub open spec fn cusp_scan_s(
    p0: Point,
    p1: Point,
    p2: Point,
    p3: Point,
    ts: Seq<u32>,
    i: int,
) -> Option<u32>
    decreases ts.len() - i,
{
    if i < 0 || i >= ts.len() {
        None
    } else if f32_lt(
        pt_length_sqd_s(cubic_deriv_s(p0, p1, p2, p3, ts[i])),
        cubic_precision_s(p0, p1, p2, p3),
    ) {
        Some(ts[i])
    } else {
        cusp_scan_s(p0, p1, p2, p3, ts, i + 1)
    }
}

/// Where `find_cubic_cusp` finds its cusp: nothing when either edge is
/// degenerate or the control cage does not cross; else the first maximum-
/// curvature parameter with a nearly vanishing derivative.
pub open spec fn find_cubic_cusp_s(p0: Point, p1: Point, p2: Point, p3: Point) -> Option<u32> {
    if pt_eq_s(p0, p1) || pt_eq_s(p2, p3) {
        None
    } else if on_same_side_s(seq![p0, p1, p2, p3], 0, 2) || on_same_side_s(
        seq![p0, p1, p2, p3],
        2,
        0,
    ) {
        None
    } else {
        cusp_scan_s(p0, p1, p2, p3, cubic_max_curvature_s(p0, p1, p2, p3), 0)
    }
}

/// Returns the parameter of the cubic's cusp, when the control cage shows
/// one: the edges must cross and the curve must have a point of maximum
/// curvature where the derivative nearly vanishes.
pub fn find_cubic_cusp(src: &[Point]) -> (r: Option<TValue>)
    requires
        src@.len() >= 4,
    ensures
        r is Some <==> find_cubic_cusp_s(src@[0], src@[1], src@[2], src@[3]) is Some,
        r is Some ==> (r->0).bits_s() == find_cubic_cusp_s(src@[0], src@[1], src@[2], src@[3])->0,
{
    let ghost p0 = src@[0];
    let ghost p1 = src@[1];
    let ghost p2 = src@[2];
    let ghost p3 = src@[3];
    if src[0].float_eq(src[1]) {
        return None;
    }
    if src[2].float_eq(src[3]) {
        return None;
    }
    proof {
        assert(seq![p0, p1, p2, p3] =~= src@.take(4));
        assert(on_same_side_s(seq![p0, p1, p2, p3], 0, 2) == on_same_side_s(src@, 0, 2));
        assert(on_same_side_s(seq![p0, p1, p2, p3], 2, 0) == on_same_side_s(src@, 2, 0));
    }
    if on_same_side(src, 0, 2) || on_same_side(src, 2, 0) {
        return None;
    }
    let max_curvature = find_cubic_max_curvature(src);
    let ghost ts = cubic_max_curvature_s(p0, p1, p2, p3);
    let mut i: usize = 0;
    while i < max_curvature.len()
        invariant
            src@.len() >= 4,
            p0 == src@[0] && p1 == src@[1] && p2 == src@[2] && p3 == src@[3],
            i <= max_curvature@.len(),
            max_curvature@.len() == ts.len(),
            forall|j: int|
                0 <= j < ts.len() ==> #[trigger] max_curvature@[j].bits_s() == ts[j],
            cusp_scan_s(p0, p1, p2, p3, ts, 0) == cusp_scan_s(p0, p1, p2, p3, ts, i as int),
            ts == cubic_max_curvature_s(p0, p1, p2, p3),
            !pt_eq_s(p0, p1),
            !pt_eq_s(p2, p3),
            !on_same_side_s(seq![p0, p1, p2, p3], 0, 2),
            !on_same_side_s(seq![p0, p1, p2, p3], 2, 0),
        decreases max_curvature@.len() - i,
    {
        let test_t = max_curvature[i];
        let d_pt = eval_cubic_derivative(src, test_t.get());
        let d_pt_magnitude = d_pt.length_sqd();
        let precision = calc_cubic_precision(src);
        if lt32(d_pt_magnitude, precision) {
            proof {
                assert(d_pt == cubic_deriv_s(p0, p1, p2, p3, ts[i as int]));
                assert(cusp_scan_s(p0, p1, p2, p3, ts, i as int) == Some(ts[i as int]));
                assert(find_cubic_cusp_s(p0, p1, p2, p3) == Some(ts[i as int]));
            }
            return Some(test_t);
        }
        proof {
            assert(cusp_scan_s(p0, p1, p2, p3, ts, i as int) == cusp_scan_s(
                p0,
                p1,
                p2,
                p3,
                ts,
                i as int + 1,
            ));
        }
        i = i + 1;
    }
    proof {
        assert(cusp_scan_s(p0, p1, p2, p3, ts, i as int) is None);
        assert(find_cubic_cusp_s(p0, p1, p2, p3) is None);
    }
    None
}

} // verus!
