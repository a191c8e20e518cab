//! A 2D point of two single-precision coordinates held as bit patterns.

use vstd::prelude::*;

use crate::fbits::{eq32, f32_eq, f32_is_finite, f32_is_nearly_zero, is_finite32, is_nearly_zero32};
use crate::fbits::{widen, widen_s};
use crate::fp::{
    add32, add32_of, add64, add64_of, div64, div64_of, mul32, mul32_of, mul64, mul64_of, narrow,
    narrow_of, sub32, sub32_of,
};
use crate::fsqrt::{sqrt64_bits, sqrt64_s};

verus! {

#[derive(Clone, Copy, Debug, PartialEq, Eq, Structural)]
pub struct Point {
    pub x: u32,
    pub y: u32,
}

/// Coordinatewise float subtraction.
pub open spec fn pt_sub_s(a: Point, b: Point) -> Point {
    Point { x: sub32_of(a.x, b.x), y: sub32_of(a.y, b.y) }
}

/// Float equality of both coordinates (what `==` on float points means).
pub open spec fn pt_eq_s(a: Point, b: Point) -> bool {
    f32_eq(a.x, b.x) && f32_eq(a.y, b.y)
}

pub open spec fn pt_is_finite_s(p: Point) -> bool {
    f32_is_finite(p.x) && f32_is_finite(p.y)
}

/// Dot product `ax*bx + ay*by`.
pub open spec fn pt_dot_s(a: Point, b: Point) -> u32 {
    add32_of(mul32_of(a.x, b.x), mul32_of(a.y, b.y))
}

/// Scalar cross product `ax*by - ay*bx`.
pub open spec fn pt_cross_s(a: Point, b: Point) -> u32 {
    sub32_of(mul32_of(a.x, b.y), mul32_of(a.y, b.x))
}

/// Squared length, `x*x + y*y`.
pub open spec fn pt_length_sqd_s(p: Point) -> u32 {
    pt_dot_s(p, p)
}

/// Squared distance, the squared length of the difference.
pub open spec fn pt_distance_to_sqd_s(a: Point, b: Point) -> u32 {
    pt_length_sqd_s(pt_sub_s(a, b))
}

/// Both coordinate differences nearly zero (tolerance 2^-12).
pub open spec fn pt_almost_equal_s(a: Point, b: Point) -> bool {
    f32_is_nearly_zero(sub32_of(a.x, b.x)) && f32_is_nearly_zero(sub32_of(a.y, b.y))
}

/// The scaling of `p` to the requested length, done in double precision:
/// each coordinate is widened, multiplied by `length / sqrt(x^2 + y^2)` and
/// narrowed back.
pub open spec fn pt_scaled_to_length_s(p: Point, length: u32) -> Point {
    let xx = widen_s(p.x);
    let yy = widen_s(p.y);
    let dmag = sqrt64_s(add64_of(mul64_of(xx, xx), mul64_of(yy, yy)));
    let dscale = div64_of(widen_s(length), dmag);
    Point { x: narrow_of(mul64_of(xx, dscale)), y: narrow_of(mul64_of(yy, dscale)) }
}

/// Whether that scaling produced a usable (finite, nonzero) vector.
pub open spec fn pt_set_length_ok_s(p: Point, length: u32) -> bool {
    let r = pt_scaled_to_length_s(p, length);
    f32_is_finite(r.x) && f32_is_finite(r.y) && !(f32_eq(r.x, 0) && f32_eq(r.y, 0))
}

impl Point {
    pub fn from_xy(x: u32, y: u32) -> (r: Point)
        ensures
            r == (Point { x, y }),
    {
        Point { x, y }
    }

    pub fn zero() -> (r: Point)
        ensures
            r == (Point { x: 0u32, y: 0u32 }),
    {
        Point { x: 0, y: 0 }
    }

    /// Float subtraction of points (vector difference).
    pub fn minus(self, o: Point) -> (r: Point)
        ensures
            r == pt_sub_s(self, o),
    {
        Point { x: sub32(self.x, o.x), y: sub32(self.y, o.y) }
    }

    /// Float equality of both coordinates.
    pub fn float_eq(self, o: Point) -> (r: bool)
        ensures
            r == pt_eq_s(self, o),
    {
        eq32(self.x, o.x) && eq32(self.y, o.y)
    }

    pub fn is_finite(self) -> (r: bool)
        ensures
            r == pt_is_finite_s(self),
    {
        is_finite32(self.x) && is_finite32(self.y)
    }

    pub fn dot(self, o: Point) -> (r: u32)
        ensures
            r == pt_dot_s(self, o),
    {
        add32(mul32(self.x, o.x), mul32(self.y, o.y))
    }

    pub fn cross(self, o: Point) -> (r: u32)
        ensures
            r == pt_cross_s(self, o),
    {
        sub32(mul32(self.x, o.y), mul32(self.y, o.x))
    }

    pub fn length_sqd(self) -> (r: u32)
        ensures
            r == pt_length_sqd_s(self),
    {
        self.dot(self)
    }

    pub fn distance_to_sqd(self, o: Point) -> (r: u32)
        ensures
            r == pt_distance_to_sqd_s(self, o),
    {
        self.minus(o).length_sqd()
    }

    pub fn almost_equal(self, o: Point) -> (r: bool)
        ensures
            r == pt_almost_equal_s(self, o),
    {
        is_nearly_zero32(sub32(self.x, o.x)) && is_nearly_zero32(sub32(self.y, o.y))
    }

    /// Rescales the vector to the given length (double precision inside).
    /// On a non-finite or all-zero outcome the point is zeroed and `false`
    /// comes back.
    pub fn set_length(&mut self, length: u32) -> (ok: bool)
        ensures
            ok == pt_set_length_ok_s(*old(self), length),
            ok ==> *final(self) == pt_scaled_to_length_s(*old(self), length),
            !ok ==> *final(self) == (Point { x: 0u32, y: 0u32 }),
    {
        let xx = widen(self.x);
        let yy = widen(self.y);
        let dmag = sqrt64_bits(add64(mul64(xx, xx), mul64(yy, yy)));
        let dscale = div64(widen(length), dmag);
        let nx = narrow(mul64(xx, dscale));
        let ny = narrow(mul64(yy, dscale));
        if !is_finite32(nx) || !is_finite32(ny) || (eq32(nx, 0) && eq32(ny, 0)) {
            self.x = 0;
            self.y = 0;
            false
        } else {
            self.x = nx;
            self.y = ny;
            true
        }
    }
}

} // verus!
