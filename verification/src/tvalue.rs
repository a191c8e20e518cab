//! Parameter newtypes: the open interval (0,1) and the closed [0,1].
//!
//! A `TValue` is a finite single-precision value strictly between 0 and 1;
//! chopping a curve at such a parameter always yields two non-degenerate
//! pieces. A `NormalizedF32` is a finite value in the closed [0,1], used for
//! evaluation, where the endpoints are welcome. Both invariants are bit-range
//! facts and are enforced as type invariants.

use vstd::prelude::*;

use crate::fbits::{
    bound32, f32_bound, f32_is_finite, f32_key, f32_le, f32_lt, le32, lemma_f32_small, lt32,
    F32_EPSILON, F32_ONE, F32_ONE_MINUS_EPSILON, F32_ZERO,
};

verus! {

/// The bit patterns of finite floats strictly inside (0,1): positive sign and
/// a magnitude strictly between 0 and the pattern of 1.0.
pub open spec fn is_tvalue_bits(b: u32) -> bool {
    0 < f32_key(b) && f32_key(b) < 0x3F80_0000
}

/// The bit patterns of finite floats inside the closed [0,1] (either zero
/// included).
pub open spec fn is_normalized_bits(b: u32) -> bool {
    0 <= f32_key(b) && f32_key(b) <= 0x3F80_0000
}

/// Everything a root finder hands out is a `TValue`, and `TValue::get`
/// guarantees `is_tvalue_bits`; this lemma completes the statement: such a
/// bit pattern is a finite float strictly between 0 and 1.
pub proof fn lemma_tvalue_bits_unit(b: u32)
    requires
        is_tvalue_bits(b),
    ensures
        f32_lt(F32_ZERO, b),
        f32_lt(b, F32_ONE),
        f32_is_finite(b),
{
    lemma_f32_small(F32_ZERO);
    lemma_f32_small(F32_ONE);
}

/// A finite single-precision parameter strictly in (0,1), stored as bits.
#[derive(Clone, Copy, Debug, PartialEq, Eq, Structural)]
pub struct TValue {
    bits: u32,
}

/// A finite single-precision parameter in the closed [0,1], stored as bits.
#[derive(Clone, Copy, Debug, PartialEq, Eq, Structural)]
pub struct NormalizedF32 {
    bits: u32,
}

impl TValue {
    #[verifier::type_invariant]
    spec fn inv(self) -> bool {
        is_tvalue_bits(self.bits)
    }

    pub closed spec fn bits_s(self) -> u32 {
        self.bits
    }

    /// Accepts exactly the floats strictly between 0 and 1 (all such floats
    /// are finite); everything else, NaN included, is refused.
    pub fn new(n: u32) -> (r: Option<TValue>)
        ensures
            r is Some <==> (f32_lt(F32_ZERO, n) && f32_lt(n, F32_ONE)),
            r is Some ==> (r->0).bits_s() == n,
    {
        proof {
            lemma_f32_small(F32_ZERO);
            lemma_f32_small(F32_ONE);
        }
        if lt32(F32_ZERO, n) && lt32(n, F32_ONE) {
            Some(TValue { bits: n })
        } else {
            None
        }
    }

    /// Clamps into [epsilon, 1 - epsilon]; a NaN input lands on an endpoint
    /// of that range, as clamping through `max`/`min` does.
    pub fn new_bounded(n: u32) -> (r: TValue)
        ensures
            r.bits_s() == f32_bound(n, F32_EPSILON, F32_ONE_MINUS_EPSILON),
    {
        let b = bound32(n, F32_EPSILON, F32_ONE_MINUS_EPSILON);
        proof {
            lemma_f32_small(F32_EPSILON);
            lemma_f32_small(F32_ONE_MINUS_EPSILON);
        }
        TValue { bits: b }
    }

    pub fn get(self) -> (r: u32)
        ensures
            r == self.bits_s(),
            is_tvalue_bits(r),
    {
        proof {
            use_type_invariant(self);
        }
        self.bits
    }

    pub fn to_normalized(self) -> (r: NormalizedF32)
        ensures
            r.bits_s() == self.bits_s(),
            is_normalized_bits(r.bits_s()),
    {
        proof {
            use_type_invariant(self);
        }
        NormalizedF32 { bits: self.bits }
    }
}

impl NormalizedF32 {
    #[verifier::type_invariant]
    spec fn inv(self) -> bool {
        is_normalized_bits(self.bits)
    }

    pub closed spec fn bits_s(self) -> u32 {
        self.bits
    }

    pub fn zero() -> (r: NormalizedF32)
        ensures
            r.bits_s() == F32_ZERO,
    {
        proof {
            lemma_f32_small(F32_ZERO);
        }
        NormalizedF32 { bits: F32_ZERO }
    }

    pub fn one() -> (r: NormalizedF32)
        ensures
            r.bits_s() == F32_ONE,
    {
        proof {
            lemma_f32_small(F32_ONE);
        }
        NormalizedF32 { bits: F32_ONE }
    }

    /// Accepts exactly the floats between 0 and 1 inclusive (NaN refused).
    pub fn new(n: u32) -> (r: Option<NormalizedF32>)
        ensures
            r is Some <==> (f32_le(F32_ZERO, n) && f32_le(n, F32_ONE)),
            r is Some ==> (r->0).bits_s() == n,
    {
        proof {
            lemma_f32_small(F32_ZERO);
            lemma_f32_small(F32_ONE);
        }
        if le32(F32_ZERO, n) && le32(n, F32_ONE) {
            Some(NormalizedF32 { bits: n })
        } else {
            None
        }
    }

    pub fn get(self) -> (r: u32)
        ensures
            r == self.bits_s(),
            is_normalized_bits(r),
    {
        proof {
            use_type_invariant(self);
        }
        self.bits
    }
}

/// The defaulted parameter buffer: three placeholder values of one half.
pub fn new_t_values() -> (r: [TValue; 3])
    ensures
        forall|i: int| 0 <= i < 3 ==> r[i].bits_s() == 0x3F00_0000u32,
{
    proof {
        lemma_f32_small(0x3F00_0000u32);
    }
    let t = TValue { bits: 0x3F00_0000 };
    [t, t, t]
}

} // verus!
