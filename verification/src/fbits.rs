//! Verified bit-level model of IEEE 754 values.
//!
//! Comparison, classification, negation and absolute value of floats are pure
//! functions of the bit patterns, so they are implemented here as ordinary
//! verified integer code with exact specifications. A non-NaN float compares
//! like its sign-magnitude integer key (both zeros share the key 0); a NaN
//! never compares.

use vstd::arithmetic::power2::{lemma2_to64, lemma_pow2_adds, pow2};
use vstd::prelude::*;

verus! {

pub const F32_ZERO: u32 = 0x0000_0000;

pub const F32_ONE: u32 = 0x3F80_0000;

pub const F32_TWO: u32 = 0x4000_0000;

pub const F32_THREE: u32 = 0x4040_0000;

pub const F32_HALF: u32 = 0x3F00_0000;

pub const F32_NINE: u32 = 0x4110_0000;

pub const F32_TWENTY_SEVEN: u32 = 0x41D8_0000;

pub const F32_FIFTY_FOUR: u32 = 0x4258_0000;

pub const F32_NEG_ONE: u32 = 0xBF80_0000;

pub const F32_NEG_TWO: u32 = 0xC000_0000;

/// `f32::EPSILON`, 2^-23.
pub const F32_EPSILON: u32 = 0x3400_0000;

/// `1.0 - f32::EPSILON`, the top of the bounded parameter range.
pub const F32_ONE_MINUS_EPSILON: u32 = 0x3F7F_FFFE;

/// 2^-12, the nearly-zero tolerance used throughout the geometry.
pub const F32_NEARLY_ZERO: u32 = 0x3980_0000;

/// sqrt(2)/2, the weight of a quarter-circle conic.
pub const F32_ROOT_2_OVER_2: u32 = 0x3F35_04F3;

/// pi rounded to single precision.
pub const F32_PI: u32 = 0x4049_0FDB;

/// 1e-8, the cusp precision scale.
pub const F32_1E_MINUS_8: u32 = 0x322B_CC77;

pub const F64_ZERO: u64 = 0x0000_0000_0000_0000;

pub const F64_ONE: u64 = 0x3FF0_0000_0000_0000;

pub const F64_TWO: u64 = 0x4000_0000_0000_0000;

pub const F64_FOUR: u64 = 0x4010_0000_0000_0000;

pub const F64_HALF: u64 = 0x3FE0_0000_0000_0000;

/// pi rounded to double precision.
pub const F64_PI: u64 = 0x4009_21FB_5444_2D18;

// ---------------------------------------------------------------------------
// f32 model
// ---------------------------------------------------------------------------

pub open spec fn f32_sign(a: u32) -> bool {
    a >= 0x8000_0000u32
}

pub open spec fn f32_mag(a: u32) -> int {
    (a & 0x7FFF_FFFFu32) as int
}

pub open spec fn f32_is_nan(a: u32) -> bool {
    f32_mag(a) > 0x7F80_0000
}

pub open spec fn f32_is_finite(a: u32) -> bool {
    f32_mag(a) < 0x7F80_0000
}

/// Sign-magnitude integer key: non-NaN floats order like their keys.
pub open spec fn f32_key(a: u32) -> int {
    if f32_sign(a) {
        -f32_mag(a)
    } else {
        f32_mag(a)
    }
}

pub open spec fn f32_lt(a: u32, b: u32) -> bool {
    !f32_is_nan(a) && !f32_is_nan(b) && f32_key(a) < f32_key(b)
}

pub open spec fn f32_le(a: u32, b: u32) -> bool {
    !f32_is_nan(a) && !f32_is_nan(b) && f32_key(a) <= f32_key(b)
}

pub open spec fn f32_eq(a: u32, b: u32) -> bool {
    !f32_is_nan(a) && !f32_is_nan(b) && f32_key(a) == f32_key(b)
}

/// Bitwise negation of the sign, exactly what float negation does.
pub open spec fn f32_neg(a: u32) -> u32 {
    a ^ 0x8000_0000u32
}

/// Bitwise clearing of the sign, exactly what float `abs` does.
pub open spec fn f32_abs(a: u32) -> u32 {
    a & 0x7FFF_FFFFu32
}

/// `max` with the NaN-ignoring semantics of `f32::max`.
pub open spec fn f32_max(a: u32, b: u32) -> u32 {
    if f32_is_nan(a) {
        b
    } else if f32_is_nan(b) {
        a
    } else if f32_key(a) < f32_key(b) {
        b
    } else {
        a
    }
}

/// `min` with the NaN-ignoring semantics of `f32::min`.
pub open spec fn f32_min(a: u32, b: u32) -> u32 {
    if f32_is_nan(a) {
        b
    } else if f32_is_nan(b) {
        a
    } else if f32_key(a) > f32_key(b) {
        b
    } else {
        a
    }
}

/// Clamp to `[lo, hi]` the way the geometry bounds scalars: `max` then `min`.
pub open spec fn f32_bound(a: u32, lo: u32, hi: u32) -> u32 {
    f32_min(f32_max(a, lo), hi)
}

/// Nearly zero: magnitude at most 2^-12.
pub open spec fn f32_is_nearly_zero(a: u32) -> bool {
    f32_le(f32_abs(a), F32_NEARLY_ZERO)
}

proof fn lemma_f32_mag_bound(a: u32)
    ensures
        0 <= f32_mag(a) < 0x8000_0000,
        f32_mag(f32_neg(a)) == f32_mag(a),
        f32_sign(f32_neg(a)) == !f32_sign(a),
        f32_mag(f32_abs(a)) == f32_mag(a),
        !f32_sign(f32_abs(a)),
{
    assert(a & 0x7FFF_FFFFu32 < 0x8000_0000u32) by (bit_vector);
    assert((a ^ 0x8000_0000u32) & 0x7FFF_FFFFu32 == a & 0x7FFF_FFFFu32) by (bit_vector);
    assert((a >= 0x8000_0000u32) ==> !((a ^ 0x8000_0000u32) >= 0x8000_0000u32)) by (bit_vector);
    assert(!(a >= 0x8000_0000u32) ==> ((a ^ 0x8000_0000u32) >= 0x8000_0000u32)) by (bit_vector);
    assert((a & 0x7FFF_FFFFu32) & 0x7FFF_FFFFu32 == a & 0x7FFF_FFFFu32) by (bit_vector);
    assert(!((a & 0x7FFF_FFFFu32) >= 0x8000_0000u32)) by (bit_vector);
}

pub fn f32_magnitude(a: u32) -> (r: u32)
    ensures
        r == f32_mag(a),
        r == f32_abs(a),
{
    proof {
        lemma_f32_mag_bound(a);
    }
    a & 0x7FFF_FFFF
}

pub fn is_nan32(a: u32) -> (r: bool)
    ensures
        r == f32_is_nan(a),
{
    f32_magnitude(a) > 0x7F80_0000
}

pub fn is_finite32(a: u32) -> (r: bool)
    ensures
        r == f32_is_finite(a),
{
    f32_magnitude(a) < 0x7F80_0000
}

pub fn neg32(a: u32) -> (r: u32)
    ensures
        r == f32_neg(a),
{
    a ^ 0x8000_0000
}

pub fn abs32(a: u32) -> (r: u32)
    ensures
        r == f32_abs(a),
{
    a & 0x7FFF_FFFF
}

/// Signed comparison key as an executable value.
fn key32(a: u32) -> (r: i64)
    ensures
        r == f32_key(a),
{
    proof {
        lemma_f32_mag_bound(a);
    }
    let m = (a & 0x7FFF_FFFF) as i64;
    if a >= 0x8000_0000 {
        -m
    } else {
        m
    }
}

pub fn lt32(a: u32, b: u32) -> (r: bool)
    ensures
        r == f32_lt(a, b),
{
    if is_nan32(a) || is_nan32(b) {
        false
    } else {
        key32(a) < key32(b)
    }
}

pub fn le32(a: u32, b: u32) -> (r: bool)
    ensures
        r == f32_le(a, b),
{
    if is_nan32(a) || is_nan32(b) {
        false
    } else {
        key32(a) <= key32(b)
    }
}

pub fn eq32(a: u32, b: u32) -> (r: bool)
    ensures
        r == f32_eq(a, b),
{
    if is_nan32(a) || is_nan32(b) {
        false
    } else {
        key32(a) == key32(b)
    }
}

pub fn max32(a: u32, b: u32) -> (r: u32)
    ensures
        r == f32_max(a, b),
{
    if is_nan32(a) {
        b
    } else if is_nan32(b) {
        a
    } else if key32(a) < key32(b) {
        b
    } else {
        a
    }
}

pub fn min32(a: u32, b: u32) -> (r: u32)
    ensures
        r == f32_min(a, b),
{
    if is_nan32(a) {
        b
    } else if is_nan32(b) {
        a
    } else if key32(a) > key32(b) {
        b
    } else {
        a
    }
}

pub fn bound32(a: u32, lo: u32, hi: u32) -> (r: u32)
    ensures
        r == f32_bound(a, lo, hi),
{
    min32(max32(a, lo), hi)
}

pub fn is_nearly_zero32(a: u32) -> (r: bool)
    ensures
        r == f32_is_nearly_zero(a),
{
    le32(abs32(a), F32_NEARLY_ZERO)
}

// ---------------------------------------------------------------------------
// f64 model
// ---------------------------------------------------------------------------

pub open spec fn f64_sign(a: u64) -> bool {
    a >= 0x8000_0000_0000_0000u64
}

pub open spec fn f64_mag(a: u64) -> int {
    (a & 0x7FFF_FFFF_FFFF_FFFFu64) as int
}

pub open spec fn f64_is_nan(a: u64) -> bool {
    f64_mag(a) > 0x7FF0_0000_0000_0000
}

pub open spec fn f64_is_finite(a: u64) -> bool {
    f64_mag(a) < 0x7FF0_0000_0000_0000
}

pub open spec fn f64_key(a: u64) -> int {
    if f64_sign(a) {
        -f64_mag(a)
    } else {
        f64_mag(a)
    }
}

pub open spec fn f64_lt(a: u64, b: u64) -> bool {
    !f64_is_nan(a) && !f64_is_nan(b) && f64_key(a) < f64_key(b)
}

pub open spec fn f64_le(a: u64, b: u64) -> bool {
    !f64_is_nan(a) && !f64_is_nan(b) && f64_key(a) <= f64_key(b)
}

pub open spec fn f64_eq(a: u64, b: u64) -> bool {
    !f64_is_nan(a) && !f64_is_nan(b) && f64_key(a) == f64_key(b)
}

pub open spec fn f64_neg(a: u64) -> u64 {
    a ^ 0x8000_0000_0000_0000u64
}

pub open spec fn f64_abs(a: u64) -> u64 {
    a & 0x7FFF_FFFF_FFFF_FFFFu64
}

proof fn lemma_f64_mag_bound(a: u64)
    ensures
        0 <= f64_mag(a) < 0x8000_0000_0000_0000,
        f64_mag(f64_neg(a)) == f64_mag(a),
        f64_sign(f64_neg(a)) == !f64_sign(a),
        f64_mag(f64_abs(a)) == f64_mag(a),
        !f64_sign(f64_abs(a)),
{
    assert(a & 0x7FFF_FFFF_FFFF_FFFFu64 < 0x8000_0000_0000_0000u64) by (bit_vector);
    assert((a ^ 0x8000_0000_0000_0000u64) & 0x7FFF_FFFF_FFFF_FFFFu64 == a
        & 0x7FFF_FFFF_FFFF_FFFFu64) by (bit_vector);
    assert((a >= 0x8000_0000_0000_0000u64) ==> !((a ^ 0x8000_0000_0000_0000u64)
        >= 0x8000_0000_0000_0000u64)) by (bit_vector);
    assert(!(a >= 0x8000_0000_0000_0000u64) ==> ((a ^ 0x8000_0000_0000_0000u64)
        >= 0x8000_0000_0000_0000u64)) by (bit_vector);
    assert((a & 0x7FFF_FFFF_FFFF_FFFFu64) & 0x7FFF_FFFF_FFFF_FFFFu64 == a
        & 0x7FFF_FFFF_FFFF_FFFFu64) by (bit_vector);
    assert(!((a & 0x7FFF_FFFF_FFFF_FFFFu64) >= 0x8000_0000_0000_0000u64)) by (bit_vector);
}

pub fn f64_magnitude(a: u64) -> (r: u64)
    ensures
        r == f64_mag(a),
        r == f64_abs(a),
{
    proof {
        lemma_f64_mag_bound(a);
    }
    a & 0x7FFF_FFFF_FFFF_FFFF
}

pub fn is_nan64(a: u64) -> (r: bool)
    ensures
        r == f64_is_nan(a),
{
    f64_magnitude(a) > 0x7FF0_0000_0000_0000
}

pub fn is_finite64(a: u64) -> (r: bool)
    ensures
        r == f64_is_finite(a),
{
    f64_magnitude(a) < 0x7FF0_0000_0000_0000
}

pub fn neg64(a: u64) -> (r: u64)
    ensures
        r == f64_neg(a),
{
    a ^ 0x8000_0000_0000_0000
}

pub fn abs64(a: u64) -> (r: u64)
    ensures
        r == f64_abs(a),
{
    a & 0x7FFF_FFFF_FFFF_FFFF
}

fn key64(a: u64) -> (r: i128)
    ensures
        r == f64_key(a),
{
    proof {
        lemma_f64_mag_bound(a);
    }
    let m = (a & 0x7FFF_FFFF_FFFF_FFFF) as i128;
    if a >= 0x8000_0000_0000_0000 {
        -m
    } else {
        m
    }
}

pub fn lt64(a: u64, b: u64) -> (r: bool)
    ensures
        r == f64_lt(a, b),
{
    if is_nan64(a) || is_nan64(b) {
        false
    } else {
        key64(a) < key64(b)
    }
}

pub fn le64(a: u64, b: u64) -> (r: bool)
    ensures
        r == f64_le(a, b),
{
    if is_nan64(a) || is_nan64(b) {
        false
    } else {
        key64(a) <= key64(b)
    }
}

pub fn eq64(a: u64, b: u64) -> (r: bool)
    ensures
        r == f64_eq(a, b),
{
    if is_nan64(a) || is_nan64(b) {
        false
    } else {
        key64(a) == key64(b)
    }
}


/// A bit pattern below the sign bit is its own magnitude and key.
pub proof fn lemma_f32_small(a: u32)
    requires
        a < 0x8000_0000u32,
    ensures
        f32_mag(a) == a,
        f32_key(a) == a,
        !f32_sign(a),
{
    assert(a < 0x8000_0000u32 ==> a & 0x7FFF_FFFFu32 == a) by (bit_vector);
}

/// A bit pattern below the sign bit is its own magnitude and key.
pub proof fn lemma_f64_small(a: u64)
    requires
        a < 0x8000_0000_0000_0000u64,
    ensures
        f64_mag(a) == a,
        f64_key(a) == a,
        !f64_sign(a),
{
    assert(a < 0x8000_0000_0000_0000u64 ==> a & 0x7FFF_FFFF_FFFF_FFFFu64 == a) by (bit_vector);
}

/// Doubles `m` until it reaches the threshold `t` or the fuel runs out,
/// lowering the exponent in step; the value `m * 2^e` is preserved.
pub open spec fn norm_up_s(m: int, e: int, t: int, fuel: nat) -> (int, int)
    decreases fuel,
{
    if fuel == 0 || m >= t {
        (m, e)
    } else {
        norm_up_s(2 * m, e - 1, t, (fuel - 1) as nat)
    }
}

pub(crate) fn norm_up(m: u64, e: i64, t: u64, fuel: u64) -> (r: (u64, i64))
    requires
        0 < t <= 0x20_0000_0000_0000,
        m < 2 * t,
        fuel <= 64,
        -0x10000 + fuel <= e <= 0x10000,
    ensures
        r.0 as int == norm_up_s(m as int, e as int, t as int, fuel as nat).0,
        r.1 as int == norm_up_s(m as int, e as int, t as int, fuel as nat).1,
        r.1 <= e,
        e - r.1 <= fuel,
        r.0 as int == m as int * pow2((e - r.1) as nat),
        r.0 < 2 * t,
        m >= 1 ==> r.0 >= t || e - r.1 == fuel,
    decreases fuel,
{
    if fuel == 0 || m >= t {
        proof {
            lemma2_to64();
            assert(m as int * pow2(0) == m as int);
        }
        (m, e)
    } else {
        let r = norm_up(2 * m, e - 1, t, fuel - 1);
        proof {
            let k = ((e - 1) - r.1) as nat;
            assert(r.0 as int == (2 * m) as int * pow2(k));
            assert(pow2(k + 1) == 2 * pow2(k)) by {
                lemma_pow2_adds(1, k);
                lemma2_to64();
            }
            assert(r.0 as int == m as int * pow2(k + 1)) by (nonlinear_arith)
                requires
                    r.0 as int == (2 * m) as int * pow2(k),
                    pow2(k + 1) == 2 * pow2(k),
            ;
        }
        r
    }
}


/// The exact widening of a single to a double: the exponent is re-biased
/// and the mantissa shifted up; a subnormal single is normalized first; a
/// NaN keeps its sign and shifted payload; either zero keeps its sign.
pub open spec fn widen_s(a: u32) -> u64 {
    let sign: int = if f32_sign(a) {
        0x8000_0000_0000_0000
    } else {
        0
    };
    let e = f32_mag(a) / 0x80_0000;
    let f = a as int % 0x80_0000;
    if e == 0xFF {
        (sign + 0x7FF0_0000_0000_0000 + f * 0x2000_0000) as u64
    } else if e == 0 && f == 0 {
        sign as u64
    } else if e == 0 {
        let nf = norm_up_s(f, 0, 0x80_0000, 23).0;
        let k = norm_up_s(f, 0, 0x80_0000, 23).1;
        (sign + (897 + k) * 0x10_0000_0000_0000 + (nf - 0x80_0000) * 0x2000_0000) as u64
    } else {
        (sign + (e + 896) * 0x10_0000_0000_0000 + f * 0x2000_0000) as u64
    }
}

/// Converts a single-precision bit pattern to the double-precision pattern
/// of the same value (the conversion is exact).
pub fn widen(a: u32) -> (r: u64)
    ensures
        r == widen_s(a),
{
    let sign: u64 = if a >= 0x8000_0000 {
        0x8000_0000_0000_0000
    } else {
        0
    };
    let mag = f32_magnitude(a);
    let e = mag / 0x80_0000;
    let f = a % 0x80_0000;
    proof {
        assert(a % 0x80_0000u32 == (a & 0x7FFF_FFFFu32) % 0x80_0000u32) by (bit_vector);
        assert((a & 0x7FFF_FFFFu32) % 0x80_0000u32 < 0x80_0000u32) by (bit_vector);
    }
    if e == 0xFF {
        return sign + 0x7FF0_0000_0000_0000 + (f as u64) * 0x2000_0000;
    }
    if e == 0 && f == 0 {
        return sign;
    }
    if e == 0 {
        let n = norm_up(f as u64, 0, 0x80_0000, 23);
        proof {
            vstd::arithmetic::power2::lemma2_to64();
            assert(vstd::arithmetic::power2::pow2(23) == 0x80_0000);
            if (n.1 as int) > -23 {
                assert(n.0 >= 0x80_0000);
            } else {
                assert(n.0 as int == f as int * vstd::arithmetic::power2::pow2(23));
                assert(f >= 1);
                assert(n.0 as int >= vstd::arithmetic::power2::pow2(23)) by (nonlinear_arith)
                    requires
                        n.0 as int == f as int * vstd::arithmetic::power2::pow2(23),
                        f >= 1,
                ;
            }
        }
        let eb = (897i64 + n.1) as u64;
        return sign + eb * 0x10_0000_0000_0000 + ((n.0 - 0x80_0000) as u64) * 0x2000_0000;
    }
    sign + ((e as u64) + 896) * 0x10_0000_0000_0000 + (f as u64) * 0x2000_0000
}

} // verus!
