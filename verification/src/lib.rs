//! Path geometry core of a 2D vector rasterizer.
//!
//! The numerical kernel that manipulates quadratic Beziers, cubic Beziers and
//! rational quadratic (conic) curves to prepare them for scan conversion and
//! stroking: polynomial coefficient forms, root finding with open-interval
//! outputs, de Casteljau chopping at parameters and at axis extrema,
//! curvature and inflection analysis, and exact unit-arc construction.
//!
//! Scalars are IEEE 754 values carried as raw bit patterns (`u32` for single
//! precision, `u64` for double precision); see `fp` for the trusted rounding
//! arithmetic and `fbits` for the verified bit-level ordering model.

pub mod conic;
pub mod cubic;
pub mod fbits;
pub mod fp;
pub mod fsqrt;
pub mod ftrans;
pub mod point;
pub mod quad;
pub mod roots;
pub mod tvalue;

pub use conic::{Conic, PathDirection, Transform};
pub use cubic::{
    chop_cubic_at, chop_cubic_at2, chop_cubic_at_x_extrema, chop_cubic_at_y_extrema,
    eval_cubic_at, find_cubic_cusp, find_cubic_inflections, find_cubic_max_curvature, CubicCoeff,
};
pub use point::Point;
pub use quad::{
    chop_quad_at, chop_quad_at_x_extrema, chop_quad_at_y_extrema, eval_quad_at, eval_quad_at2,
    find_quad_max_curvature, QuadCoeff,
};
pub use roots::{find_unit_quad_roots, valid_unit_divide};
pub use tvalue::{new_t_values, NormalizedF32, TValue};

use vstd::prelude::*;

verus! {

} // verus!
