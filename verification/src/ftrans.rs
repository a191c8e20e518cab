//! Cosine, arccosine and cube root on bit patterns, built from the trusted
//! rounding arithmetic: a truncated Taylor series for the cosine on
//! [-pi, pi], sixty bisection steps against that cosine for the arccosine,
//! and a Newton iteration for the cube root. Each is deterministic and its
//! contract pins the result exactly to its own construction.

use vstd::prelude::*;

use crate::fbits::{eq32, f32_eq, f32_is_finite, f64_lt, is_finite32, lemma_f32_small, lt64,
    F32_ZERO, F64_HALF, F64_PI, F64_ZERO};
use crate::fbits::{widen, widen_s};
use crate::fp::{
    add64, add64_of, div64, div64_of, mul64, mul64_of, narrow, narrow_of,
};

verus! {

/// 1/3 in double precision.
pub const F64_THIRD: u64 = 0x3FD5_5555_5555_5555;

/// The Taylor coefficients of the cosine, `(-1)^k / (2k)!` for k = 11
/// down to 1, as double bit patterns.
pub const COS_K11: u64 = 0xBB90_CE39_6DB7_F853;

pub const COS_K10: u64 = 0x3C1E_542B_A402_0225;

pub const COS_K9: u64 = 0xBCA6_8278_63B9_7D97;

pub const COS_K8: u64 = 0x3D2A_E7F3_E733_B81F;

pub const COS_K7: u64 = 0xBDA9_3974_A8C0_7C9D;

pub const COS_K6: u64 = 0x3E21_EED8_EFF8_D898;

pub const COS_K5: u64 = 0xBE92_7E4F_B778_9F5C;

pub const COS_K4: u64 = 0x3EFA_01A0_1A01_A01A;

pub const COS_K3: u64 = 0xBF56_C16C_16C1_6C17;

pub const COS_K2: u64 = 0x3FA5_5555_5555_5555;

pub const COS_K1: u64 = 0xBFE0_0000_0000_0000;

pub const F64_ONE_C: u64 = 0x3FF0_0000_0000_0000;

/// The cosine polynomial: Horner over `z = x*x`, eleven terms plus one.
pub open spec fn cos64_s(x: u64) -> u64 {
    let z = mul64_of(x, x);
    let p = COS_K11;
    let p = add64_of(mul64_of(p, z), COS_K10);
    let p = add64_of(mul64_of(p, z), COS_K9);
    let p = add64_of(mul64_of(p, z), COS_K8);
    let p = add64_of(mul64_of(p, z), COS_K7);
    let p = add64_of(mul64_of(p, z), COS_K6);
    let p = add64_of(mul64_of(p, z), COS_K5);
    let p = add64_of(mul64_of(p, z), COS_K4);
    let p = add64_of(mul64_of(p, z), COS_K3);
    let p = add64_of(mul64_of(p, z), COS_K2);
    let p = add64_of(mul64_of(p, z), COS_K1);
    add64_of(mul64_of(p, z), F64_ONE_C)
}

/// Cosine of a double bit pattern, accurate on [-pi, pi].
pub fn cos64(x: u64) -> (r: u64)
    ensures
        r == cos64_s(x),
{
    let z = mul64(x, x);
    let mut p = COS_K11;
    p = add64(mul64(p, z), COS_K10);
    p = add64(mul64(p, z), COS_K9);
    p = add64(mul64(p, z), COS_K8);
    p = add64(mul64(p, z), COS_K7);
    p = add64(mul64(p, z), COS_K6);
    p = add64(mul64(p, z), COS_K5);
    p = add64(mul64(p, z), COS_K4);
    p = add64(mul64(p, z), COS_K3);
    p = add64(mul64(p, z), COS_K2);
    p = add64(mul64(p, z), COS_K1);
    add64(mul64(p, z), F64_ONE_C)
}

/// Bisection for the angle whose cosine is `y`: the cosine decreases on
/// [0, pi], so keep the half that brackets the target.
pub open spec fn acos_bisect_s(y: u64, lo: u64, hi: u64, fuel: nat) -> u64
    decreases fuel,
{
    if fuel == 0 {
        mul64_of(add64_of(lo, hi), F64_HALF)
    } else {
        let mid = mul64_of(add64_of(lo, hi), F64_HALF);
        if f64_lt(y, cos64_s(mid)) {
            acos_bisect_s(y, mid, hi, (fuel - 1) as nat)
        } else {
            acos_bisect_s(y, lo, mid, (fuel - 1) as nat)
        }
    }
}

fn acos_bisect(y: u64, lo: u64, hi: u64, fuel: u64) -> (r: u64)
    ensures
        r == acos_bisect_s(y, lo, hi, fuel as nat),
    decreases fuel,
{
    let mid = mul64(add64(lo, hi), F64_HALF);
    if fuel == 0 {
        mid
    } else {
        if lt64(y, cos64(mid)) {
            acos_bisect(y, mid, hi, fuel - 1)
        } else {
            acos_bisect(y, lo, mid, fuel - 1)
        }
    }
}

/// The arccosine of a single: sixty bisection steps on [0, pi] against the
/// series cosine, narrowed back to single precision.
pub open spec fn acos32_s(x: u32) -> u32 {
    narrow_of(acos_bisect_s(widen_s(x), F64_ZERO, F64_PI, 60))
}

pub fn acos32(x: u32) -> (r: u32)
    ensures
        r == acos32_s(x),
{
    narrow(acos_bisect(widen(x), F64_ZERO, F64_PI, 60))
}

/// The cosine of a single: widened, taken by the series, narrowed back.
pub open spec fn cos32_s(x: u32) -> u32 {
    narrow_of(cos64_s(widen_s(x)))
}

pub fn cos32(x: u32) -> (r: u32)
    ensures
        r == cos32_s(x),
{
    narrow(cos64(widen(x)))
}

/// One Newton step for the cube root of `a`: `y <- (2y + a/y^2) / 3`.
pub open spec fn cbrt_step_s(a: u64, y: u64) -> u64 {
    mul64_of(add64_of(add64_of(y, y), div64_of(a, mul64_of(y, y))), F64_THIRD)
}

pub open spec fn cbrt_newton_s(a: u64, y: u64, fuel: nat) -> u64
    decreases fuel,
{
    if fuel == 0 {
        y
    } else {
        cbrt_newton_s(a, cbrt_step_s(a, y), (fuel - 1) as nat)
    }
}

fn cbrt_newton(a: u64, y: u64, fuel: u64) -> (r: u64)
    ensures
        r == cbrt_newton_s(a, y, fuel as nat),
    decreases fuel,
{
    if fuel == 0 {
        y
    } else {
        let y2 = mul64(y, y);
        let next = mul64(add64(add64(y, y), div64(a, y2)), F64_THIRD);
        cbrt_newton(a, next, fuel - 1)
    }
}

/// The exponent-thirding seed for the Newton cube root.
pub open spec fn cbrt_seed_s(a: u64) -> u64 {
    (a / 3 + 0x2AA0_0000_0000_0000) as u64
}

/// The cube root of a nonnegative single: zero and non-finite values pass
/// through; otherwise ten Newton steps in double precision from a seed a
/// third of the exponent up, narrowed back.
pub open spec fn scalar_cube_root_s(x: u32) -> u32 {
    if f32_eq(x, F32_ZERO) || !f32_is_finite(x) {
        x
    } else {
        narrow_of(cbrt_newton_s(widen_s(x), cbrt_seed_s(widen_s(x)), 10))
    }
}

pub fn scalar_cube_root(x: u32) -> (r: u32)
    ensures
        r == scalar_cube_root_s(x),
{
    proof {
        lemma_f32_small(F32_ZERO);
    }
    if eq32(x, F32_ZERO) || !is_finite32(x) {
        return x;
    }
    let a = widen(x);
    let seed = a / 3 + 0x2AA0_0000_0000_0000;
    narrow(cbrt_newton(a, seed, 10))
}

} // verus!
