//! Verified square root on IEEE 754 bit patterns.
//!
//! The square root of a float is a pure function of its bits: with round to
//! nearest even it is exactly the integer square root of a scaled mantissa
//! followed by a rounding step. Both are implemented and verified here, so
//! the square roots the geometry takes need no trusted code.

use vstd::arithmetic::power2::{lemma2_to64, lemma2_to64_rest, lemma_pow2_adds, pow2};
use vstd::prelude::*;

use crate::fbits::{f32_mag, f32_sign, f64_mag, f64_sign, norm_up, norm_up_s};

verus! {

/// The integer square root: the unique `r >= 0` with `r^2 <= n < (r+1)^2`.
pub open spec fn isqrt_s(n: int) -> int {
    choose|r: int| 0 <= r && #[trigger] (r * r) <= n && n < (r + 1) * (r + 1)
}

pub proof fn lemma_isqrt_unique(n: int, r: int)
    requires
        0 <= r,
        r * r <= n,
        n < (r + 1) * (r + 1),
    ensures
        isqrt_s(n) == r,
{
    assert(exists|q: int| 0 <= q && #[trigger] (q * q) <= n && n < (q + 1) * (q + 1)) by {
        assert(0 <= r && #[trigger] (r * r) <= n && n < (r + 1) * (r + 1));
    }
    let c = isqrt_s(n);
    assert(0 <= c && c * c <= n && n < (c + 1) * (c + 1));
    if c < r {
        assert((c + 1) * (c + 1) <= r * r) by (nonlinear_arith)
            requires
                0 <= c,
                c < r,
        ;
    }
    if r < c {
        assert((r + 1) * (r + 1) <= c * c) by (nonlinear_arith)
            requires
                0 <= r,
                r < c,
        ;
    }
}

/// Bit-by-bit restoring integer square root of a 128-bit value.
pub fn isqrt_u128(n: u128) -> (r: u64)
    ensures
        (r as int) * (r as int) <= n as int,
        (n as int) < (r as int + 1) * (r as int + 1),
        r as int == isqrt_s(n as int),
{
    let mut acc: u128 = 0;
    let mut bit: u128 = 0x8000_0000_0000_0000u128;
    let ghost mut k: nat = 63;
    proof {
        lemma2_to64();
        lemma2_to64_rest();
        lemma_pow2_adds(63, 1);
        assert((acc as int + 2 * (bit as int)) * (acc as int + 2 * (bit as int)) > n as int)
            by (nonlinear_arith)
            requires
                acc == 0,
                bit == 0x8000_0000_0000_0000u128,
                n <= u128::MAX,
        ;
    }
    while bit > 0
        invariant
            bit > 0 ==> bit as int == pow2(k) && k <= 63,
            (acc as int) * (acc as int) <= n as int,
            bit > 0 ==> (acc as int + 2 * (bit as int)) * (acc as int + 2 * (bit as int))
                > n as int,
            bit > 0 ==> acc as int + 2 * (bit as int) <= 0x1_0000_0000_0000_0000,
            bit == 0 ==> (acc as int + 1) * (acc as int + 1) > n as int,
            (acc as int) < 0x1_0000_0000_0000_0000,
        decreases bit,
    {
        let cand = acc + bit;
        proof {
            assert((cand as int * cand as int) < 0x1_0000_0000_0000_0000 * 0x1_0000_0000_0000_0000)
                by (nonlinear_arith)
                requires
                    0 <= cand as int && (cand as int) < 0x1_0000_0000_0000_0000,
            ;
        }
        if cand * cand <= n {
            acc = cand;
        }
        proof {
            if k > 0 {
                assert(pow2(k) == 2 * pow2((k - 1) as nat)) by {
                    lemma_pow2_adds(1, (k - 1) as nat);
                    lemma2_to64();
                }
                k = (k - 1) as nat;
            } else {
                assert(pow2(0) == 1) by {
                    lemma2_to64();
                }
            }
        }
        bit = bit / 2;
    }
    proof {
        lemma_isqrt_unique(n as int, acc as int);
    }
    acc as u64
}

/// A quiet NaN, the result of taking the root of a negative value.
pub const F64_QNAN: u64 = 0x7FF8_0000_0000_0000;

pub const F32_QNAN: u32 = 0x7FC0_0000;

/// Mantissa and scale of a positive finite nonzero double: the value is
/// `m * 2^sc` with `m` in `[2^52, 2^53)`.
pub open spec fn f64_decompose_s(x: u64) -> (int, int) {
    let e = x as int / 0x10_0000_0000_0000;
    let f = x as int % 0x10_0000_0000_0000;
    if e > 0 {
        (f + 0x10_0000_0000_0000, e - 1075)
    } else {
        norm_up_s(f, -1074, 0x10_0000_0000_0000, 52)
    }
}

/// Rounding of the extended root `s` (one extra bit) to nearest, ties to even.
pub open spec fn round_half_even_s(s: int, exact: bool) -> int {
    let mant = s / 2;
    if s % 2 == 1 && (!exact || mant % 2 == 1) {
        mant + 1
    } else {
        mant
    }
}

/// The bit pattern of the correctly rounded square root of a double.
pub open spec fn sqrt64_s(x: u64) -> u64 {
    if f64_mag(x) > 0x7FF0_0000_0000_0000 {
        F64_QNAN
    } else if f64_sign(x) && f64_mag(x) > 0 {
        F64_QNAN
    } else if f64_mag(x) == 0 || f64_mag(x) == 0x7FF0_0000_0000_0000 {
        x
    } else {
        let m = f64_decompose_s(x).0;
        let sc = f64_decompose_s(x).1;
        let a = sc + 52 + 2048;
        let hs = a / 2;
        let nbig = if a % 2 == 0 {
            m * 0x40_0000_0000_0000
        } else {
            m * 0x80_0000_0000_0000
        };
        let s = isqrt_s(nbig);
        let mant = round_half_even_s(s, s * s == nbig);
        let mant2 = if mant == 0x20_0000_0000_0000 {
            0x10_0000_0000_0000
        } else {
            mant
        };
        let hs2 = if mant == 0x20_0000_0000_0000 {
            hs + 1
        } else {
            hs
        };
        ((hs2 - 1) * 0x10_0000_0000_0000 + (mant2 - 0x10_0000_0000_0000)) as u64
    }
}

/// Correctly rounded square root of a double-precision bit pattern.
pub fn sqrt64_bits(x: u64) -> (r: u64)
    ensures
        r == sqrt64_s(x),
{
    let mag = x & 0x7FFF_FFFF_FFFF_FFFF;
    proof {
        assert(x & 0x7FFF_FFFF_FFFF_FFFFu64 < 0x8000_0000_0000_0000u64) by (bit_vector);
        assert(x & 0x7FFF_FFFF_FFFF_FFFFu64 == x % 0x8000_0000_0000_0000u64) by (bit_vector);
    }
    if mag > 0x7FF0_0000_0000_0000 {
        return F64_QNAN;
    }
    if x >= 0x8000_0000_0000_0000 && mag > 0 {
        return F64_QNAN;
    }
    if mag == 0 || mag == 0x7FF0_0000_0000_0000 {
        return x;
    }
    let e = x / 0x10_0000_0000_0000;
    let f = x % 0x10_0000_0000_0000;
    let m: u64;
    let sc: i64;
    if e > 0 {
        m = f + 0x10_0000_0000_0000;
        sc = e as i64 - 1075;
    } else {
        let n = norm_up(f, -1074, 0x10_0000_0000_0000, 52);
        m = n.0;
        sc = n.1;
        proof {
            lemma2_to64();
            lemma2_to64_rest();
            assert(pow2(52) == 0x10_0000_0000_0000);
            if (sc as int) > -1074 - 52 {
                assert(m >= 0x10_0000_0000_0000);
            } else {
                assert(m as int == f as int * pow2(52));
                assert(f >= 1);
                assert(m as int >= pow2(52)) by (nonlinear_arith)
                    requires
                        m as int == f as int * pow2(52),
                        f >= 1,
                ;
            }
        }
    }
    let a: i64 = sc + 52 + 2048;
    let au = a as u64;
    let hs: u64 = au / 2;
    let nbig: u128 = if au % 2 == 0 {
        (m as u128) * 0x40_0000_0000_0000u128
    } else {
        (m as u128) * 0x80_0000_0000_0000u128
    };
    proof {
        assert(nbig as int >= 0x10_0000_0000_0000 * 0x40_0000_0000_0000) by (nonlinear_arith)
            requires
                nbig as int >= m as int * 0x40_0000_0000_0000,
                m >= 0x10_0000_0000_0000,
        ;
    }
    let s = isqrt_u128(nbig);
    proof {
        assert(s as int >= 0x20_0000_0000_0000) by (nonlinear_arith)
            requires
                (s as int + 1) * (s as int + 1) > nbig as int,
                nbig as int >= 0x10_0000_0000_0000 * 0x40_0000_0000_0000,
                s >= 0,
        ;
        assert((s as int) < 0x40_0000_0000_0000) by (nonlinear_arith)
            requires
                (s as int) * (s as int) <= nbig as int,
                (nbig as int) < 0x20_0000_0000_0000 * 0x80_0000_0000_0000,
                s >= 0,
        ;
    }
    let exact = (s as u128) * (s as u128) == nbig;
    let mant0 = s / 2;
    let mant = if s % 2 == 1 && (!exact || mant0 % 2 == 1) {
        mant0 + 1
    } else {
        mant0
    };
    let mant2: u64;
    let hs2: u64;
    if mant == 0x20_0000_0000_0000 {
        mant2 = 0x10_0000_0000_0000;
        hs2 = hs + 1;
    } else {
        mant2 = mant;
        hs2 = hs;
    }
    (hs2 - 1) * 0x10_0000_0000_0000 + (mant2 - 0x10_0000_0000_0000)
}

/// Mantissa and scale of a positive finite nonzero single: the value is
/// `m * 2^sc` with `m` in `[2^23, 2^24)`.
pub open spec fn f32_decompose_s(x: u32) -> (int, int) {
    let e = x as int / 0x80_0000;
    let f = x as int % 0x80_0000;
    if e > 0 {
        (f + 0x80_0000, e - 150)
    } else {
        norm_up_s(f, -149, 0x80_0000, 23)
    }
}

/// The bit pattern of the correctly rounded square root of a single.
pub open spec fn sqrt32_s(x: u32) -> u32 {
    if f32_mag(x) > 0x7F80_0000 {
        F32_QNAN
    } else if f32_sign(x) && f32_mag(x) > 0 {
        F32_QNAN
    } else if f32_mag(x) == 0 || f32_mag(x) == 0x7F80_0000 {
        x
    } else {
        let m = f32_decompose_s(x).0;
        let sc = f32_decompose_s(x).1;
        let a = sc + 23 + 512;
        let hs = a / 2;
        let nbig = if a % 2 == 0 {
            m * 0x200_0000
        } else {
            m * 0x400_0000
        };
        let s = isqrt_s(nbig);
        let mant = round_half_even_s(s, s * s == nbig);
        let mant2 = if mant == 0x100_0000 {
            0x80_0000
        } else {
            mant
        };
        let hs2 = if mant == 0x100_0000 {
            hs + 1
        } else {
            hs
        };
        ((hs2 - 129) * 0x80_0000 + (mant2 - 0x80_0000)) as u32
    }
}

/// Correctly rounded square root of a single-precision bit pattern.
pub fn sqrt32_bits(x: u32) -> (r: u32)
    ensures
        r == sqrt32_s(x),
{
    let mag = x & 0x7FFF_FFFF;
    proof {
        assert(x & 0x7FFF_FFFFu32 < 0x8000_0000u32) by (bit_vector);
        assert(x & 0x7FFF_FFFFu32 == x % 0x8000_0000u32) by (bit_vector);
    }
    if mag > 0x7F80_0000 {
        return F32_QNAN;
    }
    if x >= 0x8000_0000 && mag > 0 {
        return F32_QNAN;
    }
    if mag == 0 || mag == 0x7F80_0000 {
        return x;
    }
    let e = x / 0x80_0000;
    let f = x % 0x80_0000;
    let m32: u32;
    let sc32: i64;
    if e > 0 {
        m32 = f + 0x80_0000;
        sc32 = e as i64 - 150;
    } else {
        let n = norm_up(f as u64, -149, 0x80_0000, 23);
        m32 = n.0 as u32;
        sc32 = n.1;
        proof {
            lemma2_to64();
            assert(pow2(23) == 0x80_0000);
            if (sc32 as int) > -149 - 23 {
                assert(n.0 >= 0x80_0000);
            } else {
                assert(n.0 as int == f as int * pow2(23));
                assert(f >= 1);
                assert(n.0 as int >= pow2(23)) by (nonlinear_arith)
                    requires
                        n.0 as int == f as int * pow2(23),
                        f >= 1,
                ;
            }
        }
    }
    let m = m32 as u64;
    let a: i64 = sc32 + 23 + 512;
    let au = a as u64;
    let hs: u64 = au / 2;
    let nbig: u128 = if au % 2 == 0 {
        (m as u128) * 0x200_0000u128
    } else {
        (m as u128) * 0x400_0000u128
    };
    proof {
        assert(nbig as int >= 0x80_0000 * 0x200_0000) by (nonlinear_arith)
            requires
                nbig as int >= m as int * 0x200_0000,
                m >= 0x80_0000,
        ;
    }
    let s = isqrt_u128(nbig);
    proof {
        assert(s as int >= 0x100_0000) by (nonlinear_arith)
            requires
                (s as int + 1) * (s as int + 1) > nbig as int,
                nbig as int >= 0x80_0000 * 0x200_0000,
                s >= 0,
        ;
        assert((s as int) < 0x200_0000) by (nonlinear_arith)
            requires
                (s as int) * (s as int) <= nbig as int,
                (nbig as int) < 0x100_0000 * 0x400_0000,
                s >= 0,
        ;
    }
    let exact = (s as u128) * (s as u128) == nbig;
    let mant0 = s / 2;
    let mant = if s % 2 == 1 && (!exact || mant0 % 2 == 1) {
        mant0 + 1
    } else {
        mant0
    };
    let mant2: u64;
    let hs2: u64;
    if mant == 0x100_0000 {
        mant2 = 0x80_0000;
        hs2 = hs + 1;
    } else {
        mant2 = mant;
        hs2 = hs;
    }
    ((hs2 - 129) * 0x80_0000 + (mant2 - 0x80_0000)) as u32
}

} // verus!
