//! Rational quadratics (conics): representation, halving with a double
//! precision fallback, subdivision into quadratics with a monotonicity
//! guard, and exact unit-arc construction.

use vstd::prelude::*;

use crate::fbits::{
    abs32, eq32, f32_abs, f32_eq, f32_is_finite, f32_le, f32_lt, f32_neg, is_finite32, le32,
    lemma_f32_small, lt32, neg32, F32_HALF, F32_NEARLY_ZERO, F32_NEG_ONE, F32_ONE,
    F32_ROOT_2_OVER_2, F32_TWO, F32_ZERO, F64_HALF, F64_ONE, F64_TWO,
};
use crate::fbits::{widen, widen_s};
use crate::fp::{
    add32, add32_of, add64, add64_of, div32, div32_of, div64, div64_of, mul32, mul32_of, mul64,
    mul64_of, narrow, narrow_of, sub32, sub32_of,
};
use crate::fsqrt::{sqrt32_bits, sqrt32_s};
use crate::point::{
    pt_almost_equal_s, pt_cross_s, pt_dot_s, pt_is_finite_s, pt_scaled_to_length_s,
    pt_set_length_ok_s, pt_sub_s, Point,
};

verus! {

/// The traversal direction of an arc.
#[derive(Clone, Copy, Debug, PartialEq, Eq, Structural)]
pub enum PathDirection {
    CW,
    CCW,
}

/// A rational quadratic: three control points and the weight of the middle
/// one. A weight of 1 is a plain quadratic; sqrt(2)/2 is a quarter arc.
#[derive(Clone, Copy, Debug, PartialEq)]
pub struct Conic {
    pub points: [Point; 3],
    pub weight: u32,
}

/// An affine transform: `map(x, y) = (sx*x + kx*y + tx, ky*x + sy*y + ty)`.
#[derive(Clone, Copy, Debug, PartialEq, Eq, Structural)]
pub struct Transform {
    pub sx: u32,
    pub kx: u32,
    pub ky: u32,
    pub sy: u32,
    pub tx: u32,
    pub ty: u32,
}

pub open spec fn map_pt_s(m: Transform, p: Point) -> Point {
    Point {
        x: add32_of(add32_of(mul32_of(m.sx, p.x), mul32_of(m.kx, p.y)), m.tx),
        y: add32_of(add32_of(mul32_of(m.ky, p.x), mul32_of(m.sy, p.y)), m.ty),
    }
}

impl Transform {
    pub fn identity() -> (r: Transform)
        ensures
            r == (Transform {
                sx: F32_ONE,
                kx: F32_ZERO,
                ky: F32_ZERO,
                sy: F32_ONE,
                tx: F32_ZERO,
                ty: F32_ZERO,
            }),
    {
        Transform { sx: F32_ONE, kx: F32_ZERO, ky: F32_ZERO, sy: F32_ONE, tx: F32_ZERO, ty: F32_ZERO }
    }

    /// The rotation taking (1,0) to (cos, sin).
    pub fn from_sin_cos(sin: u32, cos: u32) -> (r: Transform)
        ensures
            r == (Transform {
                sx: cos,
                kx: f32_neg(sin),
                ky: sin,
                sy: cos,
                tx: F32_ZERO,
                ty: F32_ZERO,
            }),
    {
        Transform { sx: cos, kx: neg32(sin), ky: sin, sy: cos, tx: F32_ZERO, ty: F32_ZERO }
    }

    /// Multiplies the mapped x by `sx2` and the mapped y by `sy2` before
    /// this transform applies (scales the source axes).
    pub fn pre_scale(&mut self, sx2: u32, sy2: u32)
        ensures
            *final(self) == (Transform {
                sx: mul32_of(old(self).sx, sx2),
                kx: mul32_of(old(self).kx, sy2),
                ky: mul32_of(old(self).ky, sx2),
                sy: mul32_of(old(self).sy, sy2),
                tx: old(self).tx,
                ty: old(self).ty,
            }),
    {
        self.sx = mul32(self.sx, sx2);
        self.kx = mul32(self.kx, sy2);
        self.ky = mul32(self.ky, sx2);
        self.sy = mul32(self.sy, sy2);
    }

    /// Applies `m` after this transform: `self <- m * self`.
    pub fn post_concat(&mut self, m: &Transform)
        ensures
            *final(self) == concat_s(*m, *old(self)),
    {
        let a = *m;
        let b = *self;
        self.sx = add32(mul32(a.sx, b.sx), mul32(a.kx, b.ky));
        self.kx = add32(mul32(a.sx, b.kx), mul32(a.kx, b.sy));
        self.tx = add32(add32(mul32(a.sx, b.tx), mul32(a.kx, b.ty)), a.tx);
        self.ky = add32(mul32(a.ky, b.sx), mul32(a.sy, b.ky));
        self.sy = add32(mul32(a.ky, b.kx), mul32(a.sy, b.sy));
        self.ty = add32(add32(mul32(a.ky, b.tx), mul32(a.sy, b.ty)), a.ty);
    }

    /// Maps one point.
    pub fn map_point(&self, p: Point) -> (r: Point)
        ensures
            r == map_pt_s(*self, p),
    {
        Point {
            x: add32(add32(mul32(self.sx, p.x), mul32(self.kx, p.y)), self.tx),
            y: add32(add32(mul32(self.ky, p.x), mul32(self.sy, p.y)), self.ty),
        }
    }
}

/// Composition `a` after `b`, each entry by the float products and sums.
pub open spec fn concat_s(a: Transform, b: Transform) -> Transform {
    Transform {
        sx: add32_of(mul32_of(a.sx, b.sx), mul32_of(a.kx, b.ky)),
        kx: add32_of(mul32_of(a.sx, b.kx), mul32_of(a.kx, b.sy)),
        tx: add32_of(add32_of(mul32_of(a.sx, b.tx), mul32_of(a.kx, b.ty)), a.tx),
        ky: add32_of(mul32_of(a.ky, b.sx), mul32_of(a.sy, b.ky)),
        sy: add32_of(mul32_of(a.ky, b.kx), mul32_of(a.sy, b.sy)),
        ty: add32_of(add32_of(mul32_of(a.ky, b.tx), mul32_of(a.sy, b.ty)), a.ty),
    }
}

pub open spec fn map_conic_s(m: Transform, c: Conic) -> Conic {
    Conic {
        points: [
            map_pt_s(m, c.points[0]),
            map_pt_s(m, c.points[1]),
            map_pt_s(m, c.points[2]),
        ],
        weight: c.weight,
    }
}

/// The halved weight `sqrt((1 + w) / 2)`, computed as `sqrt(0.5 + w*0.5)`.
pub open spec fn subdivide_weight_value_s(w: u32) -> u32 {
    sqrt32_s(add32_of(F32_HALF, mul32_of(w, F32_HALF)))
}

fn subdivide_weight_value(w: u32) -> (r: u32)
    ensures
        r == subdivide_weight_value_s(w),
{
    sqrt32_bits(add32(F32_HALF, mul32(w, F32_HALF)))
}

/// The junction point of the halving, in single precision.
pub open spec fn conic_mid_raw_s(c: Conic) -> Point {
    let w = c.weight;
    let scale = div32_of(F32_ONE, add32_of(F32_ONE, w));
    let wp1x = mul32_of(w, c.points[1].x);
    let wp1y = mul32_of(w, c.points[1].y);
    Point {
        x: mul32_of(
            mul32_of(add32_of(add32_of(c.points[0].x, add32_of(wp1x, wp1x)), c.points[2].x), scale),
            F32_HALF,
        ),
        y: mul32_of(
            mul32_of(add32_of(add32_of(c.points[0].y, add32_of(wp1y, wp1y)), c.points[2].y), scale),
            F32_HALF,
        ),
    }
}

/// The junction recomputed in double precision, the fallback for weights
/// whose single-precision junction overflows.
pub open spec fn conic_mid_wide_s(c: Conic) -> Point {
    let w_d = widen_s(c.weight);
    let w_2 = mul64_of(w_d, F64_TWO);
    let scale_half = mul64_of(div64_of(F64_ONE, add64_of(F64_ONE, w_d)), F64_HALF);
    Point {
        x: narrow_of(
            mul64_of(
                add64_of(
                    add64_of(widen_s(c.points[0].x), mul64_of(w_2, widen_s(c.points[1].x))),
                    widen_s(c.points[2].x),
                ),
                scale_half,
            ),
        ),
        y: narrow_of(
            mul64_of(
                add64_of(
                    add64_of(widen_s(c.points[0].y), mul64_of(w_2, widen_s(c.points[1].y))),
                    widen_s(c.points[2].y),
                ),
                scale_half,
            ),
        ),
    }
}

pub open spec fn conic_mid_s(c: Conic) -> Point {
    if pt_is_finite_s(conic_mid_raw_s(c)) {
        conic_mid_raw_s(c)
    } else {
        conic_mid_wide_s(c)
    }
}

/// The two halves of the conic around the junction.
pub open spec fn conic_chop_s(c: Conic) -> (Conic, Conic) {
    let w = c.weight;
    let scale = div32_of(F32_ONE, add32_of(F32_ONE, w));
    let new_w = subdivide_weight_value_s(w);
    let wp1x = mul32_of(w, c.points[1].x);
    let wp1y = mul32_of(w, c.points[1].y);
    let m = conic_mid_s(c);
    (
        Conic {
            points: [
                c.points[0],
                Point {
                    x: mul32_of(add32_of(c.points[0].x, wp1x), scale),
                    y: mul32_of(add32_of(c.points[0].y, wp1y), scale),
                },
                m,
            ],
            weight: new_w,
        },
        Conic {
            points: [
                m,
                Point {
                    x: mul32_of(add32_of(wp1x, c.points[2].x), scale),
                    y: mul32_of(add32_of(wp1y, c.points[2].y), scale),
                },
                c.points[2],
            ],
            weight: new_w,
        },
    )
}

impl Conic {
    pub fn new(pt0: Point, pt1: Point, pt2: Point, weight: u32) -> (r: Conic)
        ensures
            r == (Conic { points: [pt0, pt1, pt2], weight }),
    {
        Conic { points: [pt0, pt1, pt2], weight }
    }

    pub fn from_points(points: &[Point], weight: u32) -> (r: Conic)
        requires
            points@.len() >= 3,
        ensures
            r == (Conic { points: [points@[0], points@[1], points@[2]], weight }),
    {
        Conic { points: [points[0], points[1], points[2]], weight }
    }

    /// Splits the conic in two around the weighted midpoint; the junction
    /// falls back to a double-precision computation when single precision
    /// overflows.
    fn chop(&self) -> (r: (Conic, Conic))
        ensures
            r == conic_chop_s(*self),
    {
        let w = self.weight;
        let scale = div32(F32_ONE, add32(F32_ONE, w));
        let new_w = subdivide_weight_value(w);
        let p0 = self.points[0];
        let p1 = self.points[1];
        let p2 = self.points[2];
        let wp1x = mul32(w, p1.x);
        let wp1y = mul32(w, p1.y);
        let mut m_pt = Point {
            x: mul32(mul32(add32(add32(p0.x, add32(wp1x, wp1x)), p2.x), scale), F32_HALF),
            y: mul32(mul32(add32(add32(p0.y, add32(wp1y, wp1y)), p2.y), scale), F32_HALF),
        };
        if !m_pt.is_finite() {
            let w_d = widen(w);
            let w_2 = mul64(w_d, F64_TWO);
            let scale_half = mul64(div64(F64_ONE, add64(F64_ONE, w_d)), F64_HALF);
            m_pt = Point {
                x: narrow(
                    mul64(
                        add64(add64(widen(p0.x), mul64(w_2, widen(p1.x))), widen(p2.x)),
                        scale_half,
                    ),
                ),
                y: narrow(
                    mul64(
                        add64(add64(widen(p0.y), mul64(w_2, widen(p1.y))), widen(p2.y)),
                        scale_half,
                    ),
                ),
            };
        }
        (
            Conic {
                points: [
                    p0,
                    Point { x: mul32(add32(p0.x, wp1x), scale), y: mul32(add32(p0.y, wp1y), scale) },
                    m_pt,
                ],
                weight: new_w,
            },
            Conic {
                points: [
                    m_pt,
                    Point { x: mul32(add32(wp1x, p2.x), scale), y: mul32(add32(wp1y, p2.y), scale) },
                    p2,
                ],
                weight: new_w,
            },
        )
    }
}

/// `b` lies between `a` and `c`: `(a - b) * (c - b) <= 0`.
pub open spec fn between_s(a: u32, b: u32, c: u32) -> bool {
    f32_le(mul32_of(sub32_of(a, b), sub32_of(c, b)), F32_ZERO)
}

fn between(a: u32, b: u32, c: u32) -> (r: bool)
    ensures
        r == between_s(a, b, c),
{
    proof {
        lemma_f32_small(F32_ZERO);
    }
    le32(mul32(sub32(a, b), sub32(c, b)), F32_ZERO)
}

/// The two halves with the monotonic-y guard applied: when the input is
/// monotonic in y, the junction y is clamped to the closer endpoint if it
/// escapes, and each half's control y is pinned to its outer endpoint if it
/// escapes its own span.
pub open spec fn conic_chop_guarded_s(src: Conic) -> (Conic, Conic) {
    let halves = conic_chop_s(src);
    let d0 = halves.0;
    let d1 = halves.1;
    let start_y = src.points[0].y;
    let end_y = src.points[2].y;
    if between_s(start_y, src.points[1].y, end_y) {
        let mid_y = d0.points[2].y;
        let closer_y = if f32_lt(
            f32_abs(sub32_of(mid_y, start_y)),
            f32_abs(sub32_of(mid_y, end_y)),
        ) {
            start_y
        } else {
            end_y
        };
        let d0a = if !between_s(start_y, mid_y, end_y) {
            Conic {
                points: [
                    d0.points[0],
                    d0.points[1],
                    Point { x: d0.points[2].x, y: closer_y },
                ],
                weight: d0.weight,
            }
        } else {
            d0
        };
        let d1a = if !between_s(start_y, mid_y, end_y) {
            Conic {
                points: [
                    Point { x: d1.points[0].x, y: closer_y },
                    d1.points[1],
                    d1.points[2],
                ],
                weight: d1.weight,
            }
        } else {
            d1
        };
        let d0b = if !between_s(start_y, d0a.points[1].y, d0a.points[2].y) {
            Conic {
                points: [
                    d0a.points[0],
                    Point { x: d0a.points[1].x, y: start_y },
                    d0a.points[2],
                ],
                weight: d0a.weight,
            }
        } else {
            d0a
        };
        let d1b = if !between_s(d1a.points[0].y, d1a.points[1].y, end_y) {
            Conic {
                points: [
                    d1a.points[0],
                    Point { x: d1a.points[1].x, y: end_y },
                    d1a.points[2],
                ],
                weight: d1a.weight,
            }
        } else {
            d1a
        };
        (d0b, d1b)
    } else {
        (d0, d1)
    }
}

/// The points a depth-`level` subdivision emits: each leaf contributes its
/// control and end point, left first.
pub open spec fn subdivide_s(src: Conic, level: nat) -> Seq<Point>
    decreases level,
{
    if level == 0 {
        seq![src.points[1], src.points[2]]
    } else {
        let halves = conic_chop_guarded_s(src);
        subdivide_s(halves.0, (level - 1) as nat) + subdivide_s(halves.1, (level - 1) as nat)
    }
}

proof fn lemma_subdivide_len(src: Conic, level: nat)
    ensures
        level == 0 ==> subdivide_s(src, level).len() == 2,
        level == 1 ==> subdivide_s(src, level).len() == 4,
        level == 2 ==> subdivide_s(src, level).len() == 8,
        level == 3 ==> subdivide_s(src, level).len() == 16,
        subdivide_s(src, level).len() >= 2,
    decreases level,
{
    if level > 0 {
        let halves = conic_chop_guarded_s(src);
        lemma_subdivide_len(halves.0, (level - 1) as nat);
        lemma_subdivide_len(halves.1, (level - 1) as nat);
        if level > 3 {
            assert(subdivide_s(src, level).len() >= 2);
        }
    }
}

/// The last emitted point is the conic's own endpoint: the guard never
/// touches the right half's end.
proof fn lemma_subdivide_last(src: Conic, level: nat)
    ensures
        subdivide_s(src, level).last() == src.points[2],
    decreases level,
{
    if level > 0 {
        let halves = conic_chop_guarded_s(src);
        lemma_subdivide_len(halves.0, (level - 1) as nat);
        lemma_subdivide_len(halves.1, (level - 1) as nat);
        lemma_subdivide_last(halves.1, (level - 1) as nat);
        assert(halves.1.points[2] == src.points[2]);
    }
}

/// Recursive subdivision, writing `2^(level+1)` points at `offset`.
fn subdivide(src: &Conic, points: &mut Vec<Point>, offset: usize, level: u8) -> (end: usize)
    requires
        level <= 3,
        offset + subdivide_s(*src, level as nat).len() <= old(points)@.len(),
    ensures
        final(points)@.len() == old(points)@.len(),
        end == offset + subdivide_s(*src, level as nat).len(),
        final(points)@ == old(points)@.take(offset as int) + subdivide_s(*src, level as nat) + old(
            points,
        )@.skip(end as int),
    decreases level,
{
    proof {
        lemma_subdivide_len(*src, level as nat);
    }
    if level == 0 {
        let n = points.len();
        points.set(offset, src.points[1]);
        points.set(offset + 1, src.points[2]);
        proof {
            assert(points@ =~= old(points)@.take(offset as int) + subdivide_s(*src, 0) + old(
                points,
            )@.skip(offset as int + 2));
        }
        offset + 2
    } else {
        let halves = src.chop();
        let mut dst0 = halves.0;
        let mut dst1 = halves.1;
        let start_y = src.points[0].y;
        let end_y = src.points[2].y;
        if between(start_y, src.points[1].y, end_y) {
            let mid_y = dst0.points[2].y;
            if !between(start_y, mid_y, end_y) {
                let closer_y = if lt32(abs32(sub32(mid_y, start_y)), abs32(sub32(mid_y, end_y))) {
                    start_y
                } else {
                    end_y
                };
                dst0 = Conic {
                    points: [dst0.points[0], dst0.points[1], Point { x: dst0.points[2].x, y: closer_y }],
                    weight: dst0.weight,
                };
                dst1 = Conic {
                    points: [Point { x: dst1.points[0].x, y: closer_y }, dst1.points[1], dst1.points[2]],
                    weight: dst1.weight,
                };
            }
            if !between(start_y, dst0.points[1].y, dst0.points[2].y) {
                dst0 = Conic {
                    points: [dst0.points[0], Point { x: dst0.points[1].x, y: start_y }, dst0.points[2]],
                    weight: dst0.weight,
                };
            }
            if !between(dst1.points[0].y, dst1.points[1].y, end_y) {
                dst1 = Conic {
                    points: [dst1.points[0], Point { x: dst1.points[1].x, y: end_y }, dst1.points[2]],
                    weight: dst1.weight,
                };
            }
        }
        proof {
            assert(dst0 == conic_chop_guarded_s(*src).0);
            assert(dst1 == conic_chop_guarded_s(*src).1);
            lemma_subdivide_len(dst0, (level - 1) as nat);
            lemma_subdivide_len(dst1, (level - 1) as nat);
        }
        let mid = subdivide(&dst0, points, offset, level - 1);
        let end = subdivide(&dst1, points, mid, level - 1);
        proof {
            assert(points@ =~= old(points)@.take(offset as int) + subdivide_s(
                *src,
                level as nat,
            ) + old(points)@.skip(end as int));
        }
        end
    }
}

/// The seventeen points of the depth-3 subdivision before the finiteness
/// check: the start point, then the subdivision's sixteen.
pub open spec fn quads_raw_s(c: Conic) -> Seq<Point> {
    seq![c.points[0]] + subdivide_s(c, 3)
}

/// The final seventeen points: if any raw point is non-finite, the interior
/// fifteen are pinned to the hull midpoint (the middle control point).
pub open spec fn quads_final_s(c: Conic) -> Seq<Point> {
    let raw = quads_raw_s(c);
    if forall|i: int| 0 <= i < 17 ==> pt_is_finite_s(#[trigger] raw[i]) {
        raw
    } else {
        Seq::new(17, |i: int| if 1 <= i < 16 { c.points[1] } else { raw[i] })
    }
}

impl Conic {
    /// Chops this conic into `2^pow2` quadratics (this core fixes the depth
    /// at 3, so 8 quadratics, 17 points). If any produced point is not
    /// finite, the interior points are pinned to the middle control point,
    /// keeping the endpoints; a finite conic therefore always yields 17
    /// finite points.
    pub fn chop_into_quads_pow2(&self, pow2: u8, points: &mut Vec<Point>) -> (n: usize)
        requires
            pow2 == 3,
            old(points)@.len() >= 17,
        ensures
            n == 8,
            final(points)@.len() == old(points)@.len(),
            final(points)@ == quads_final_s(*self) + old(points)@.skip(17),
            pt_is_finite_s(self.points[0]) && pt_is_finite_s(self.points[1]) && pt_is_finite_s(
                self.points[2],
            ) ==> forall|i: int| 0 <= i < 17 ==> pt_is_finite_s(#[trigger] final(points)@[i]),
    {
        proof {
            lemma_subdivide_len(*self, 3);
            lemma_subdivide_last(*self, 3);
        }
        points.set(0, self.points[0]);
        let end = subdivide(self, points, 1, pow2);
        proof {
            assert(points@.take(17) =~= quads_raw_s(*self));
        }
        let mut any_bad = false;
        let mut i: usize = 0;
        while i < 17
            invariant
                points@.len() >= 17,
                i <= 17,
                points@.take(17) == quads_raw_s(*self),
                any_bad == exists|j: int|
                    0 <= j < i && !pt_is_finite_s(#[trigger] quads_raw_s(*self)[j]),
            decreases 17 - i,
        {
            proof {
                assert(points@[i as int] == points@.take(17)[i as int]);
            }
            if !points[i].is_finite() {
                any_bad = true;
                proof {
                    assert(!pt_is_finite_s(quads_raw_s(*self)[i as int]));
                }
            } else {
                proof {
                    assert(pt_is_finite_s(quads_raw_s(*self)[i as int]));
                    assert forall|j: int| 0 <= j < i + 1 implies pt_is_finite_s(
                        #[trigger] quads_raw_s(*self)[j],
                    ) || any_bad by {
                        if j < i && !pt_is_finite_s(quads_raw_s(*self)[j]) {
                            assert(exists|j2: int|
                                0 <= j2 < i && !pt_is_finite_s(
                                    #[trigger] quads_raw_s(*self)[j2],
                                ));
                        }
                    }
                }
            }
            i = i + 1;
        }
        if any_bad {
            let hull_mid = self.points[1];
            let mut k: usize = 1;
            while k < 16
                invariant
                    points@.len() == old(points)@.len(),
                    points@.len() >= 17,
                    1 <= k <= 16,
                    hull_mid == self.points[1],
                    points@[0] == quads_raw_s(*self)[0],
                    forall|j: int| 1 <= j < k ==> points@[j] == hull_mid,
                    forall|j: int| k <= j < 17 ==> points@[j] == quads_raw_s(*self)[j],
                    points@.skip(17) == old(points)@.skip(17),
                decreases 16 - k,
            {
                points.set(k, hull_mid);
                k = k + 1;
            }
            proof {
                assert(points@ =~= quads_final_s(*self) + old(points)@.skip(17));
            }
        } else {
            proof {
                assert(points@ =~= quads_final_s(*self) + old(points)@.skip(17));
            }
        }
        proof {
            if pt_is_finite_s(self.points[0]) && pt_is_finite_s(self.points[1]) && pt_is_finite_s(
                self.points[2],
            ) {
                let raw = quads_raw_s(*self);
                let fin = quads_final_s(*self);
                assert(raw.len() == 17);
                assert(raw[0] == self.points[0]);
                assert(raw[16] == subdivide_s(*self, 3).last());
                assert(fin.len() == 17);
                assert forall|i2: int| 0 <= i2 < 17 implies pt_is_finite_s(
                    #[trigger] fin[i2],
                ) by {
                    if forall|j: int| 0 <= j < 17 ==> pt_is_finite_s(#[trigger] raw[j]) {
                        assert(fin[i2] == raw[i2]);
                    } else {
                        assert(fin == Seq::new(
                            17,
                            |i: int|
                                if 1 <= i < 16 {
                                    self.points[1]
                                } else {
                                    raw[i]
                                },
                        ));
                    }
                }
                assert forall|i2: int| 0 <= i2 < 17 implies pt_is_finite_s(
                    #[trigger] points@[i2],
                ) by {
                    assert(points@[i2] == fin[i2]);
                }
            }
        }
        proof {
            assert(1usize << 3usize == 8usize) by (bit_vector);
        }
        1usize << 3
    }
}


/// The corner table of unit-quadrant conics: the four axis points with the
/// diagonal control points between them.
pub open spec fn quadrant_pt_s(i: int) -> Point {
    if i == 0 {
        Point { x: F32_ONE, y: F32_ZERO }
    } else if i == 1 {
        Point { x: F32_ONE, y: F32_ONE }
    } else if i == 2 {
        Point { x: F32_ZERO, y: F32_ONE }
    } else if i == 3 {
        Point { x: F32_NEG_ONE, y: F32_ONE }
    } else if i == 4 {
        Point { x: F32_NEG_ONE, y: F32_ZERO }
    } else if i == 5 {
        Point { x: F32_NEG_ONE, y: F32_NEG_ONE }
    } else if i == 6 {
        Point { x: F32_ZERO, y: F32_NEG_ONE }
    } else {
        Point { x: F32_ONE, y: F32_NEG_ONE }
    }
}

fn quadrant_point(i: usize) -> (r: Point)
    requires
        i < 8,
    ensures
        r == quadrant_pt_s(i as int),
{
    if i == 0 {
        Point { x: F32_ONE, y: F32_ZERO }
    } else if i == 1 {
        Point { x: F32_ONE, y: F32_ONE }
    } else if i == 2 {
        Point { x: F32_ZERO, y: F32_ONE }
    } else if i == 3 {
        Point { x: F32_NEG_ONE, y: F32_ONE }
    } else if i == 4 {
        Point { x: F32_NEG_ONE, y: F32_ZERO }
    } else if i == 5 {
        Point { x: F32_NEG_ONE, y: F32_NEG_ONE }
    } else if i == 6 {
        Point { x: F32_ZERO, y: F32_NEG_ONE }
    } else {
        Point { x: F32_ONE, y: F32_NEG_ONE }
    }
}

/// The arc from (1,0) to (x,y) is (effectively) empty: the angle is nearly
/// zero on the requested side.
pub open spec fn arc_is_degenerate_s(u_start: Point, u_stop: Point, dir: PathDirection) -> bool {
    let x = pt_dot_s(u_start, u_stop);
    let y = pt_cross_s(u_start, u_stop);
    f32_le(f32_abs(y), F32_NEARLY_ZERO) && f32_lt(F32_ZERO, x) && ((f32_le(F32_ZERO, y) && dir
        == PathDirection::CW) || (f32_le(y, F32_ZERO) && dir == PathDirection::CCW))
}

/// The direction-adjusted sine of the sweep.
pub open spec fn arc_y_s(u_start: Point, u_stop: Point, dir: PathDirection) -> u32 {
    if dir == PathDirection::CCW {
        f32_neg(pt_cross_s(u_start, u_stop))
    } else {
        pt_cross_s(u_start, u_stop)
    }
}

/// Which quadrant (x, y) lies in: 2 on the negative x axis, 1 or 3 on the
/// y axis, otherwise by the signs of x and y.
pub open spec fn arc_quadrant_s(x: u32, y: u32) -> int {
    if f32_eq(y, F32_ZERO) {
        2
    } else if f32_eq(x, F32_ZERO) {
        if f32_lt(F32_ZERO, y) {
            1
        } else {
            3
        }
    } else {
        (if f32_lt(y, F32_ZERO) {
            2int
        } else {
            0int
        }) + (if f32_lt(x, F32_ZERO) != f32_lt(y, F32_ZERO) {
            1int
        } else {
            0int
        })
    }
}

/// The untransformed conics of the arc: one quarter-circle conic per full
/// quadrant, then the remaining partial arc as a conic with weight
/// `sqrt((1 + dot) / 2)` and the rescaled bisector as its control point,
/// skipped when it nearly coincides with the quadrant corner.
pub open spec fn arc_pre_conics_s(x: u32, y: u32, quadrant: int) -> Seq<Conic> {
    let base = Seq::new(
        quadrant as nat,
        |i: int|
            Conic {
                points: [quadrant_pt_s(2 * i), quadrant_pt_s(2 * i + 1), quadrant_pt_s(2 * i + 2)],
                weight: F32_ROOT_2_OVER_2,
            },
    );
    let final_pt = Point { x, y };
    let last_q = quadrant_pt_s(2 * quadrant);
    let dot = pt_dot_s(last_q, final_pt);
    if f32_lt(dot, F32_ONE) {
        let off0 = Point { x: add32_of(last_q.x, x), y: add32_of(last_q.y, y) };
        let cos_half = sqrt32_s(div32_of(add32_of(F32_ONE, dot), F32_TWO));
        let len = div32_of(F32_ONE, cos_half);
        let off = if pt_set_length_ok_s(off0, len) {
            pt_scaled_to_length_s(off0, len)
        } else {
            Point { x: F32_ZERO, y: F32_ZERO }
        };
        if !pt_almost_equal_s(last_q, off) {
            base.push(Conic { points: [last_q, off, final_pt], weight: cos_half })
        } else {
            base
        }
    } else {
        base
    }
}

/// The output transform: the rotation taking (1,0) to `u_start`, mirrored
/// for a counterclockwise arc, then the user transform.
pub open spec fn arc_transform_s(u_start: Point, dir: PathDirection, user: Transform) -> Transform {
    let rot = Transform {
        sx: u_start.x,
        kx: f32_neg(u_start.y),
        ky: u_start.y,
        sy: u_start.x,
        tx: F32_ZERO,
        ty: F32_ZERO,
    };
    let rot2 = if dir == PathDirection::CCW {
        Transform {
            sx: mul32_of(rot.sx, F32_ONE),
            kx: mul32_of(rot.kx, F32_NEG_ONE),
            ky: mul32_of(rot.ky, F32_ONE),
            sy: mul32_of(rot.sy, F32_NEG_ONE),
            tx: rot.tx,
            ty: rot.ty,
        }
    } else {
        rot
    };
    concat_s(user, rot2)
}

/// The full arc: nothing when degenerate, else the pre-conics with every
/// control point mapped through the arc transform.
pub open spec fn build_unit_arc_s(
    u_start: Point,
    u_stop: Point,
    dir: PathDirection,
    user: Transform,
) -> Seq<Conic> {
    if arc_is_degenerate_s(u_start, u_stop, dir) {
        Seq::empty()
    } else {
        let x = pt_dot_s(u_start, u_stop);
        let y = arc_y_s(u_start, u_stop, dir);
        let m = arc_transform_s(u_start, dir, user);
        arc_pre_conics_s(x, y, arc_quadrant_s(x, y)).map_values(|c: Conic| map_conic_s(m, c))
    }
}

fn map_conic(m: &Transform, c: &Conic) -> (r: Conic)
    ensures
        r == map_conic_s(*m, *c),
{
    Conic {
        points: [m.map_point(c.points[0]), m.map_point(c.points[1]), m.map_point(c.points[2])],
        weight: c.weight,
    }
}

impl Conic {
    /// Builds the conics of the unit arc from `u_start` to `u_stop` in the
    /// given direction, already mapped by the user transform: one conic per
    /// full quadrant plus one partial, up to four in all; an empty list when
    /// the sweep is degenerate.
    pub fn build_unit_arc(
        u_start: Point,
        u_stop: Point,
        dir: PathDirection,
        user_transform: &Transform,
    ) -> (r: Vec<Conic>)
        ensures
            r@ == build_unit_arc_s(u_start, u_stop, dir, *user_transform),
            r@.len() <= 4,
    {
        proof {
            lemma_f32_small(F32_ZERO);
            lemma_f32_small(F32_ONE);
        }
        let x = u_start.dot(u_stop);
        let mut y = u_start.cross(u_stop);
        let abs_y = abs32(y);
        let mut out: Vec<Conic> = Vec::new();
        if le32(abs_y, F32_NEARLY_ZERO) && lt32(F32_ZERO, x) && ((le32(F32_ZERO, y) && dir
            == PathDirection::CW) || (le32(y, F32_ZERO) && dir == PathDirection::CCW)) {
            return out;
        }
        if dir == PathDirection::CCW {
            y = neg32(y);
        }
        let quadrant: usize = if eq32(y, F32_ZERO) {
            2
        } else if eq32(x, F32_ZERO) {
            if lt32(F32_ZERO, y) {
                1
            } else {
                3
            }
        } else {
            (if lt32(y, F32_ZERO) {
                2
            } else {
                0
            }) + (if lt32(x, F32_ZERO) != lt32(y, F32_ZERO) {
                1
            } else {
                0
            })
        };
        let ghost q = quadrant as int;
        if quadrant >= 1 {
            out.push(
                Conic::new(quadrant_point(0), quadrant_point(1), quadrant_point(2), F32_ROOT_2_OVER_2),
            );
        }
        if quadrant >= 2 {
            out.push(
                Conic::new(quadrant_point(2), quadrant_point(3), quadrant_point(4), F32_ROOT_2_OVER_2),
            );
        }
        if quadrant >= 3 {
            out.push(
                Conic::new(quadrant_point(4), quadrant_point(5), quadrant_point(6), F32_ROOT_2_OVER_2),
            );
        }
        proof {
            assert(out@ =~= Seq::new(
                q as nat,
                |i: int|
                    Conic {
                        points: [
                            quadrant_pt_s(2 * i),
                            quadrant_pt_s(2 * i + 1),
                            quadrant_pt_s(2 * i + 2),
                        ],
                        weight: F32_ROOT_2_OVER_2,
                    },
            ));
        }
        let final_pt = Point { x, y };
        let last_q = quadrant_point(2 * quadrant);
        let dotv = last_q.dot(final_pt);
        if lt32(dotv, F32_ONE) {
            let mut off_curve = Point { x: add32(last_q.x, x), y: add32(last_q.y, y) };
            let cos_theta_over_2 = sqrt32_bits(div32(add32(F32_ONE, dotv), F32_TWO));
            let _scaled = off_curve.set_length(div32(F32_ONE, cos_theta_over_2));
            if !last_q.almost_equal(off_curve) {
                out.push(Conic::new(last_q, off_curve, final_pt, cos_theta_over_2));
            }
        }
        proof {
            assert(out@ =~= arc_pre_conics_s(x, y, q));
        }
        let mut transform = Transform::from_sin_cos(u_start.y, u_start.x);
        if dir == PathDirection::CCW {
            transform.pre_scale(F32_ONE, F32_NEG_ONE);
        }
        transform.post_concat(user_transform);
        proof {
            assert(transform == arc_transform_s(u_start, dir, *user_transform));
        }
        let mut mapped: Vec<Conic> = Vec::new();
        let mut i: usize = 0;
        while i < out.len()
            invariant
                i <= out@.len(),
                out@.len() <= 4,
                transform == arc_transform_s(u_start, dir, *user_transform),
                mapped@ =~= out@.take(i as int).map_values(
                    |c: Conic| map_conic_s(transform, c),
                ),
            decreases out@.len() - i,
        {
            let c = map_conic(&transform, &out[i]);
            mapped.push(c);
            proof {
                assert(out@.take(i as int + 1) =~= out@.take(i as int).push(out@[i as int]));
            }
            i = i + 1;
        }
        proof {
            assert(out@.take(out@.len() as int) =~= out@);
            assert(mapped@ =~= build_unit_arc_s(u_start, u_stop, dir, *user_transform));
        }
        mapped
    }
}

} // verus!
