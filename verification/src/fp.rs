//! Trusted IEEE 754 arithmetic on raw bit patterns.
//!
//! The whole library stores single-precision values as `u32` bit patterns and
//! double-precision values as `u64` bit patterns. The four rounding
//! arithmetic operations, in each width, and the narrowing of a double to a
//! single are performed by the `rustc_apfloat` software implementation of
//! IEEE 754 (round to nearest, ties to even, as hardware does). Each result
//! is named by an uninterpreted spec function of the operands, so every
//! caller's contract pins its outputs exactly relative to these named
//! operations. Comparisons, classification, negation, clamping, widening
//! and square roots are bit-level functions and live as verified code in
//! `fbits` and `fsqrt`.

use rustc_apfloat::ieee::{Double, Single};
use rustc_apfloat::Float;
use rustc_apfloat::FloatConvert;
use vstd::prelude::*;

verus! {

pub uninterp spec fn add32_of(a: u32, b: u32) -> u32;

pub uninterp spec fn sub32_of(a: u32, b: u32) -> u32;

pub uninterp spec fn mul32_of(a: u32, b: u32) -> u32;

pub uninterp spec fn div32_of(a: u32, b: u32) -> u32;

pub uninterp spec fn add64_of(a: u64, b: u64) -> u64;

pub uninterp spec fn sub64_of(a: u64, b: u64) -> u64;

pub uninterp spec fn mul64_of(a: u64, b: u64) -> u64;

pub uninterp spec fn div64_of(a: u64, b: u64) -> u64;

pub uninterp spec fn narrow_of(a: u64) -> u32;

/// Relies on `rustc_apfloat::ieee::Single`'s `Add` (`Float::add_r`, round to
/// nearest even): IEEE 754 single-precision addition on the bit patterns.
#[verifier::external_body]
pub fn add32(a: u32, b: u32) -> (r: u32)
    ensures
        r == add32_of(a, b),
{
    (Single::from_bits(a as u128) + Single::from_bits(b as u128)).value.to_bits() as u32
}

/// Relies on `rustc_apfloat::ieee::Single`'s `Sub` (`Float::sub_r`, round to
/// nearest even): IEEE 754 single-precision subtraction on the bit patterns.
#[verifier::external_body]
pub fn sub32(a: u32, b: u32) -> (r: u32)
    ensures
        r == sub32_of(a, b),
{
    (Single::from_bits(a as u128) - Single::from_bits(b as u128)).value.to_bits() as u32
}

/// Relies on `rustc_apfloat::ieee::Single`'s `Mul` (`Float::mul_r`, round to
/// nearest even): IEEE 754 single-precision multiplication on the bit patterns.
#[verifier::external_body]
pub fn mul32(a: u32, b: u32) -> (r: u32)
    ensures
        r == mul32_of(a, b),
{
    (Single::from_bits(a as u128) * Single::from_bits(b as u128)).value.to_bits() as u32
}

/// Relies on `rustc_apfloat::ieee::Single`'s `Div` (`Float::div_r`, round to
/// nearest even): IEEE 754 single-precision division on the bit patterns.
#[verifier::external_body]
pub fn div32(a: u32, b: u32) -> (r: u32)
    ensures
        r == div32_of(a, b),
{
    (Single::from_bits(a as u128) / Single::from_bits(b as u128)).value.to_bits() as u32
}

/// Relies on `rustc_apfloat::ieee::Double`'s `Add` (`Float::add_r`, round to
/// nearest even): IEEE 754 double-precision addition on the bit patterns.
#[verifier::external_body]
pub fn add64(a: u64, b: u64) -> (r: u64)
    ensures
        r == add64_of(a, b),
{
    (Double::from_bits(a as u128) + Double::from_bits(b as u128)).value.to_bits() as u64
}

/// Relies on `rustc_apfloat::ieee::Double`'s `Sub` (`Float::sub_r`, round to
/// nearest even): IEEE 754 double-precision subtraction on the bit patterns.
#[verifier::external_body]
pub fn sub64(a: u64, b: u64) -> (r: u64)
    ensures
        r == sub64_of(a, b),
{
    (Double::from_bits(a as u128) - Double::from_bits(b as u128)).value.to_bits() as u64
}

/// Relies on `rustc_apfloat::ieee::Double`'s `Mul` (`Float::mul_r`, round to
/// nearest even): IEEE 754 double-precision multiplication on the bit patterns.
#[verifier::external_body]
pub fn mul64(a: u64, b: u64) -> (r: u64)
    ensures
        r == mul64_of(a, b),
{
    (Double::from_bits(a as u128) * Double::from_bits(b as u128)).value.to_bits() as u64
}

/// Relies on `rustc_apfloat::ieee::Double`'s `Div` (`Float::div_r`, round to
/// nearest even): IEEE 754 double-precision division on the bit patterns.
#[verifier::external_body]
pub fn div64(a: u64, b: u64) -> (r: u64)
    ensures
        r == div64_of(a, b),
{
    (Double::from_bits(a as u128) / Double::from_bits(b as u128)).value.to_bits() as u64
}

/// Relies on `rustc_apfloat`'s `FloatConvert::convert` from `Double` to
/// `Single`: IEEE 754 narrowing of a double to a single, round to nearest even.
#[verifier::external_body]
pub fn narrow(a: u64) -> (r: u32)
    ensures
        r == narrow_of(a),
{
    let mut loses_info = false;
    let s: rustc_apfloat::StatusAnd<Single> = Double::from_bits(a as u128).convert(&mut loses_info);
    s.value.to_bits() as u32
}

} // verus!
