//! Root finding with guaranteed open-interval outputs.

use vstd::prelude::*;

use crate::fbits::{
    eq32, f32_eq, f32_is_finite, f32_le, f32_lt, f32_neg, is_finite32, le32,
    lemma_f32_small, lt32, neg32, F32_ONE, F32_TWO, F32_ZERO, F64_FOUR, F64_ZERO,
};
use crate::fbits::{widen, widen_s};
use crate::fbits::{f64_lt, lt64};
use crate::fp::{
    add32, add32_of, div32, div32_of, mul64, mul64_of, narrow, narrow_of, sub32, sub32_of, sub64,
    sub64_of,
};
use crate::fsqrt::{sqrt64_bits, sqrt64_s};
use crate::tvalue::{is_tvalue_bits, lemma_tvalue_bits_unit, TValue};

verus! {

/// What `valid_unit_divide` returns: after aligning signs, the quotient, but
/// only when it lies strictly inside the unit interval.
pub open spec fn vud_s(numer: u32, denom: u32) -> Option<u32> {
    let n2 = if f32_lt(numer, F32_ZERO) {
        f32_neg(numer)
    } else {
        numer
    };
    let d2 = if f32_lt(numer, F32_ZERO) {
        f32_neg(denom)
    } else {
        denom
    };
    if f32_eq(d2, F32_ZERO) || f32_eq(n2, F32_ZERO) || f32_le(d2, n2) {
        None
    } else {
        let r = div32_of(n2, d2);
        if f32_lt(F32_ZERO, r) && f32_lt(r, F32_ONE) {
            Some(r)
        } else {
            None
        }
    }
}

/// Divides `numer / denom` and accepts the quotient only when it falls
/// strictly inside (0,1); returns nothing on zero input, zero denominator,
/// overshoot, or a quotient that collapses to an endpoint.
pub fn valid_unit_divide(numer: u32, denom: u32) -> (r: Option<TValue>)
    ensures
        r is Some <==> vud_s(numer, denom) is Some,
        r is Some ==> (r->0).bits_s() == vud_s(numer, denom)->0,
        r is Some ==> is_tvalue_bits((r->0).bits_s()),
{
    proof {
        lemma_f32_small(F32_ZERO);
    }
    let mut n = numer;
    let mut d = denom;
    if lt32(n, F32_ZERO) {
        n = neg32(n);
        d = neg32(d);
    }
    if eq32(d, F32_ZERO) || eq32(n, F32_ZERO) || le32(d, n) {
        return None;
    }
    let q = div32(n, d);
    let t = TValue::new(q);
    proof {
        lemma_f32_small(F32_ONE);
    }
    t
}

/// The discriminant `b*b - 4*a*c`, in double precision.
pub open spec fn quad_discr_s(a: u32, b: u32, c: u32) -> u64 {
    sub64_of(
        mul64_of(widen_s(b), widen_s(b)),
        mul64_of(mul64_of(F64_FOUR, widen_s(a)), widen_s(c)),
    )
}

/// The stable quadratic formula numerator `q = -(b + sign(b) * sqrt(d)) / 2`.
pub open spec fn quad_q_s(b: u32, r: u32) -> u32 {
    if f32_lt(b, F32_ZERO) {
        div32_of(f32_neg(sub32_of(b, r)), F32_TWO)
    } else {
        div32_of(f32_neg(add32_of(b, r)), F32_TWO)
    }
}

/// The full root list of `a*t^2 + b*t + c` inside (0,1): the candidate roots
/// `q/a` and `c/q` that survive the unit filter, in ascending order, a double
/// root collapsed to one.
pub open spec fn unit_quad_roots_s(a: u32, b: u32, c: u32) -> Seq<u32> {
    if f32_eq(a, F32_ZERO) {
        match vud_s(f32_neg(c), b) {
            Some(r) => seq![r],
            None => Seq::empty(),
        }
    } else {
        let dr = quad_discr_s(a, b, c);
        if f64_lt(dr, F64_ZERO) {
            Seq::empty()
        } else {
            let r = narrow_of(sqrt64_s(dr));
            if !f32_is_finite(r) {
                Seq::empty()
            } else {
                let q = quad_q_s(b, r);
                let list = match (vud_s(q, a), vud_s(c, q)) {
                    (Some(r0), Some(r1)) => seq![r0, r1],
                    (Some(r0), None) => seq![r0],
                    (None, Some(r1)) => seq![r1],
                    (None, None) => Seq::empty(),
                };
                if list.len() == 2 {
                    if f32_lt(list[1], list[0]) {
                        seq![list[1], list[0]]
                    } else if f32_eq(list[0], list[1]) {
                        seq![list[0]]
                    } else {
                        list
                    }
                } else {
                    list
                }
            }
        }
    }
}

/// Strictly ascending (in float order) over the bit patterns of a root list.
pub open spec fn roots_ascending_s(r: Seq<TValue>) -> bool {
    forall|i: int, j: int|
        0 <= i < j < r.len() ==> f32_lt(#[trigger] r[i].bits_s(), #[trigger] r[j].bits_s())
}

/// Solves `a*t^2 + b*t + c = 0` on the open unit interval, by the numerically
/// stable form from Numerical Recipes; the discriminant is taken in double
/// precision. Returns 0, 1 or 2 roots, strictly ascending, a double root
/// collapsed to one.
pub fn find_unit_quad_roots(a: u32, b: u32, c: u32) -> (roots: Vec<TValue>)
    ensures
        roots@.len() == unit_quad_roots_s(a, b, c).len(),
        forall|i: int|
            0 <= i < roots@.len() ==> #[trigger] roots@[i].bits_s() == unit_quad_roots_s(
                a,
                b,
                c,
            )[i],
        roots_ascending_s(roots@),
        roots@.len() <= 2,
{
    proof {
        lemma_f32_small(F32_ZERO);
    }
    let mut out: Vec<TValue> = Vec::new();
    if eq32(a, F32_ZERO) {
        if let Some(r) = valid_unit_divide(neg32(c), b) {
            out.push(r);
        }
        return out;
    }
    let dr = sub64(
        mul64(widen(b), widen(b)),
        mul64(mul64(F64_FOUR, widen(a)), widen(c)),
    );
    if lt64(dr, F64_ZERO) {
        return out;
    }
    let r = narrow(sqrt64_bits(dr));
    if !is_finite32(r) {
        return out;
    }
    let q = if lt32(b, F32_ZERO) {
        div32(neg32(sub32(b, r)), F32_TWO)
    } else {
        div32(neg32(add32(b, r)), F32_TWO)
    };
    let t0 = valid_unit_divide(q, a);
    let t1 = valid_unit_divide(c, q);
    match (t0, t1) {
        (Some(r0), Some(r1)) => {
            let b0 = r0.get();
            let b1 = r1.get();
            if lt32(b1, b0) {
                out.push(r1);
                out.push(r0);
            } else if eq32(b0, b1) {
                out.push(r0);
            } else {
                out.push(r0);
                out.push(r1);
                proof {
                    lemma_tvalue_bits_unit(b0);
                    lemma_tvalue_bits_unit(b1);
                    assert(f32_lt(b0, b1));
                }
            }
        },
        (Some(r0), None) => {
            out.push(r0);
        },
        (None, Some(r1)) => {
            out.push(r1);
        },
        (None, None) => {},
    }
    out
}

} // verus!
