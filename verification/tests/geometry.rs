//! End-to-end tests against real single-precision values: the library works
//! on raw bit patterns, so every input is converted with `to_bits` and every
//! output read back with `from_bits`.

use path_geometry::{
    chop_cubic_at, chop_cubic_at2, chop_cubic_at_x_extrema, chop_cubic_at_y_extrema, chop_quad_at,
    chop_quad_at_x_extrema, chop_quad_at_y_extrema, eval_cubic_at, eval_quad_at, eval_quad_at2,
    find_cubic_cusp, find_cubic_inflections, find_cubic_max_curvature, find_quad_max_curvature,
    find_unit_quad_roots, new_t_values, valid_unit_divide, Conic, NormalizedF32, PathDirection,
    Point, Transform, TValue,
};

fn pt(x: f32, y: f32) -> Point {
    Point::from_xy(x.to_bits(), y.to_bits())
}

fn xf(p: Point) -> f32 {
    f32::from_bits(p.x)
}

fn yf(p: Point) -> f32 {
    f32::from_bits(p.y)
}

fn tv(t: f32) -> TValue {
    TValue::new(t.to_bits()).unwrap()
}

fn nv(t: f32) -> NormalizedF32 {
    NormalizedF32::new(t.to_bits()).unwrap()
}

fn assert_pt(p: Point, x: f32, y: f32) {
    assert_eq!(xf(p), x, "x of {:?}", p);
    assert_eq!(yf(p), y, "y of {:?}", p);
}

fn buf(n: usize) -> Vec<Point> {
    vec![Point::zero(); n]
}

#[test]
fn chop_cubic_at_y_extrema_1() {
    let src = vec![pt(10.0, 20.0), pt(67.0, 437.0), pt(298.0, 213.0), pt(401.0, 214.0)];
    let mut dst = buf(10);
    let n = chop_cubic_at_y_extrema(&src, &mut dst);
    assert_eq!(n, 2);
    assert_pt(dst[0], 10.0, 20.0);
    assert_pt(dst[1], 37.508274, 221.24475);
    assert_pt(dst[2], 105.541855, 273.19803);
    assert_pt(dst[3], 180.15599, 273.19803);
    assert_pt(dst[4], 259.80502, 273.19803);
    assert_pt(dst[5], 346.9527, 213.99666);
    assert_pt(dst[6], 400.30844, 213.99666);
    assert_pt(dst[7], 400.53958, 213.99666);
    assert_pt(dst[8], 400.7701, 213.99777);
    assert_pt(dst[9], 401.0, 214.0);
}

#[test]
fn tvalue_accepts_exactly_the_open_interval() {
    assert!(TValue::new(0.5f32.to_bits()).is_some());
    assert!(TValue::new(0.0f32.to_bits()).is_none());
    assert!(TValue::new(1.0f32.to_bits()).is_none());
    assert!(TValue::new((-0.25f32).to_bits()).is_none());
    assert!(TValue::new(1.5f32.to_bits()).is_none());
    assert!(TValue::new(f32::NAN.to_bits()).is_none());
    assert!(TValue::new(f32::INFINITY.to_bits()).is_none());
    let t = TValue::new(0.25f32.to_bits()).unwrap();
    assert_eq!(f32::from_bits(t.get()), 0.25);
    assert_eq!(f32::from_bits(t.to_normalized().get()), 0.25);
}

#[test]
fn tvalue_bounded_clamps_into_open_interval() {
    let lo = f32::from_bits(TValue::new_bounded(0.0f32.to_bits()).get());
    assert_eq!(lo, f32::EPSILON);
    let hi = f32::from_bits(TValue::new_bounded(2.0f32.to_bits()).get());
    assert_eq!(hi, 1.0 - f32::EPSILON);
    let mid = f32::from_bits(TValue::new_bounded(0.5f32.to_bits()).get());
    assert_eq!(mid, 0.5);
    let nan = f32::from_bits(TValue::new_bounded(f32::NAN.to_bits()).get());
    assert!(nan > 0.0 && nan < 1.0);
}

#[test]
fn new_t_values_holds_placeholders() {
    let ts = new_t_values();
    for t in ts.iter() {
        assert_eq!(f32::from_bits(t.get()), 0.5);
    }
}

#[test]
fn unit_divide_filters_the_unit_interval() {
    assert!(valid_unit_divide(1.0f32.to_bits(), 2.0f32.to_bits()).is_some());
    assert!(valid_unit_divide(0.0f32.to_bits(), 2.0f32.to_bits()).is_none());
    assert!(valid_unit_divide(2.0f32.to_bits(), 2.0f32.to_bits()).is_none());
    assert!(valid_unit_divide(3.0f32.to_bits(), 2.0f32.to_bits()).is_none());
    assert!(valid_unit_divide(1.0f32.to_bits(), 0.0f32.to_bits()).is_none());
    let t = valid_unit_divide((-1.0f32).to_bits(), (-4.0f32).to_bits()).unwrap();
    assert_eq!(f32::from_bits(t.get()), 0.25);
}

#[test]
fn quad_roots_come_back_ascending_and_exact() {
    // (t - 1/4)(t - 3/4): every step is exact in single precision.
    let roots = find_unit_quad_roots(1.0f32.to_bits(), (-1.0f32).to_bits(), 0.1875f32.to_bits());
    assert_eq!(roots.len(), 2);
    assert_eq!(f32::from_bits(roots[0].get()), 0.25);
    assert_eq!(f32::from_bits(roots[1].get()), 0.75);
}

#[test]
fn quad_roots_match_the_hardware_formula() {
    // t^2 - 3t + 1: the discriminant is 5, whose root is irrational, so this
    // checks the double-precision square root against the machine's.
    let (a, b, c) = (1.0f32, -3.0f32, 1.0f32);
    let roots = find_unit_quad_roots(a.to_bits(), b.to_bits(), c.to_bits());
    let dr = (b as f64) * (b as f64) - 4.0 * (a as f64) * (c as f64);
    let r = dr.sqrt() as f32;
    let q = -(b - r) / 2.0;
    let expected = c / q;
    assert_eq!(roots.len(), 1);
    assert_eq!(f32::from_bits(roots[0].get()), expected);
    assert!(expected > 0.38 && expected < 0.39);
}

#[test]
fn quad_roots_empty_on_negative_discriminant() {
    let roots = find_unit_quad_roots(1.0f32.to_bits(), 0.0f32.to_bits(), 1.0f32.to_bits());
    assert_eq!(roots.len(), 0);
}

#[test]
fn quad_roots_every_result_is_inside_the_open_interval() {
    let cases = [
        (2.0f32, -3.0f32, 1.0f32),
        (1.0, -1.0, 0.1875),
        (0.0, 2.0, -1.0),
        (-4.0, 4.0, -0.75),
    ];
    for (a, b, c) in cases.iter() {
        let roots = find_unit_quad_roots(a.to_bits(), b.to_bits(), c.to_bits());
        for i in 0..roots.len() {
            let t = f32::from_bits(roots[i].get());
            assert!(t > 0.0 && t < 1.0 && t.is_finite(), "root {} of {:?}", t, (a, b, c));
            if i > 0 {
                assert!(f32::from_bits(roots[i - 1].get()) < t);
            }
        }
    }
}

#[test]
fn chop_quad_matches_hand_lerps() {
    let src = vec![pt(0.0, 0.0), pt(4.0, 8.0), pt(8.0, 0.0)];
    let mut dst = buf(5);
    chop_quad_at(&src, tv(0.25), &mut dst);
    // Exact dyadic arithmetic: p01 = (1, 2), p12 = (5, 6), mid = (2, 3).
    assert_pt(dst[0], 0.0, 0.0);
    assert_pt(dst[1], 1.0, 2.0);
    assert_pt(dst[2], 2.0, 3.0);
    assert_pt(dst[3], 5.0, 6.0);
    assert_pt(dst[4], 8.0, 0.0);
}

#[test]
fn monotonic_quad_is_copied_unsplit() {
    let src = vec![pt(0.0, 0.0), pt(1.0, 1.0), pt(2.0, 2.0)];
    let mut dst = buf(5);
    let n = chop_quad_at_x_extrema(&src, &mut dst);
    assert_eq!(n, 0);
    assert_pt(dst[0], 0.0, 0.0);
    assert_pt(dst[1], 1.0, 1.0);
    assert_pt(dst[2], 2.0, 2.0);
    let mut dst_y = buf(5);
    let n_y = chop_quad_at_y_extrema(&src, &mut dst_y);
    assert_eq!(n_y, 0);
    assert_pt(dst_y[1], 1.0, 1.0);
}

#[test]
fn quad_extrema_chop_flattens_the_junction() {
    let src = vec![pt(0.0, 0.0), pt(1.0, 1.0), pt(0.0, 2.0)];
    let mut dst = buf(5);
    let n = chop_quad_at_x_extrema(&src, &mut dst);
    assert_eq!(n, 1);
    assert_pt(dst[0], 0.0, 0.0);
    assert_pt(dst[1], 0.5, 0.5);
    assert_pt(dst[2], 0.5, 1.0);
    assert_pt(dst[3], 0.5, 1.5);
    assert_pt(dst[4], 0.0, 2.0);
    assert_eq!(dst[1].x, dst[2].x);
    assert_eq!(dst[3].x, dst[2].x);
}

#[test]
fn cubic_chop_preserves_endpoints() {
    let src = vec![pt(3.5, -2.0), pt(10.25, 7.75), pt(-4.0, 9.5), pt(8.0, 1.0)];
    let mut dst = buf(7);
    chop_cubic_at2(&src, tv(0.375), &mut dst);
    assert_eq!(dst[0], src[0]);
    assert_eq!(dst[6], src[3]);
    let mut dst2 = buf(10);
    let ts = [tv(0.25), tv(0.5)];
    chop_cubic_at(&src, &ts, &mut dst2);
    assert_eq!(dst2[0], src[0]);
    assert_eq!(dst2[9], src[3]);
}

#[test]
fn cubic_chop_matches_hand_lerps() {
    let src = vec![pt(0.0, 0.0), pt(4.0, 8.0), pt(8.0, 8.0), pt(12.0, 0.0)];
    let mut dst = buf(7);
    chop_cubic_at2(&src, tv(0.5), &mut dst);
    // Dyadic halving: ab = (2,4), bc = (6,8), cd = (10,4),
    // abc = (4,6), bcd = (8,6), abcd = (6,6).
    assert_pt(dst[0], 0.0, 0.0);
    assert_pt(dst[1], 2.0, 4.0);
    assert_pt(dst[2], 4.0, 6.0);
    assert_pt(dst[3], 6.0, 6.0);
    assert_pt(dst[4], 8.0, 6.0);
    assert_pt(dst[5], 10.0, 4.0);
    assert_pt(dst[6], 12.0, 0.0);
}

#[test]
fn multi_chop_equals_sequential_chops() {
    let src = vec![pt(0.0, 0.0), pt(30.0, 40.0), pt(70.0, -10.0), pt(100.0, 60.0)];
    let t0 = 0.25f32;
    let t1 = 0.625f32;
    let mut once = buf(10);
    let ts = [tv(t0), tv(t1)];
    chop_cubic_at(&src, &ts, &mut once);
    // Sequentially: chop at t0, then chop the tail at the renormalized
    // parameter (t1 - t0) / (1 - t0).
    let mut first = buf(7);
    chop_cubic_at2(&src, tv(t0), &mut first);
    let renorm = (t1 - t0) / (1.0 - t0);
    let tail = vec![first[3], first[4], first[5], first[6]];
    let mut second = buf(7);
    chop_cubic_at2(&tail, tv(renorm), &mut second);
    for i in 0..3 {
        assert_eq!(once[i], first[i], "head point {}", i);
    }
    for i in 0..7 {
        assert_eq!(once[3 + i], second[i], "tail point {}", i);
    }
}

#[test]
fn degenerate_renormalization_emits_a_clump() {
    let src = vec![
        pt(556.25, 523.03003),
        pt(556.23999, 522.96002),
        pt(556.21997, 522.89001),
        pt(556.21997, 522.82001),
    ];
    let mut dst = buf(10);
    let ts = [tv(0.33333334), tv(0.99999994)];
    chop_cubic_at(&src, &ts, &mut dst);
    for i in 0..10 {
        assert!(xf(dst[i]).is_finite() && yf(dst[i]).is_finite(), "point {}", i);
    }
    assert_eq!(dst[7], dst[9]);
    assert_eq!(dst[8], dst[9]);
    assert_eq!(dst[9], src[3]);
}

#[test]
fn cubic_y_extrema_junctions_are_flat() {
    let src = vec![pt(10.0, 20.0), pt(67.0, 437.0), pt(298.0, 213.0), pt(401.0, 214.0)];
    let mut dst = buf(10);
    let n = chop_cubic_at_y_extrema(&src, &mut dst);
    assert_eq!(n, 2);
    assert_eq!(dst[2].y, dst[3].y);
    assert_eq!(dst[4].y, dst[3].y);
    assert_eq!(dst[5].y, dst[6].y);
    assert_eq!(dst[7].y, dst[6].y);
}

#[test]
fn cubic_x_extrema_pieces_are_monotonic() {
    let src = vec![pt(10.0, 20.0), pt(437.0, 67.0), pt(213.0, 298.0), pt(214.0, 401.0)];
    let mut dst = buf(10);
    let n = chop_cubic_at_x_extrema(&src, &mut dst);
    assert!(n <= 2);
    // Junction x values are exactly flattened across the pieces.
    if n >= 1 {
        assert_eq!(dst[2].x, dst[3].x);
        assert_eq!(dst[4].x, dst[3].x);
    }
    if n == 2 {
        assert_eq!(dst[5].x, dst[6].x);
        assert_eq!(dst[7].x, dst[6].x);
    }
    // Each piece's x control values run monotonically.
    let pieces = n + 1;
    for p in 0..pieces {
        let xs: Vec<f32> = (0..4).map(|i| xf(dst[3 * p + i])).collect();
        let up = xs.windows(2).all(|w| w[0] <= w[1]);
        let down = xs.windows(2).all(|w| w[0] >= w[1]);
        assert!(up || down, "piece {} not monotonic: {:?}", p, xs);
    }
}

#[test]
fn eval_endpoints_return_the_control_points() {
    let q = vec![pt(1.5, -2.25), pt(80.0, 4.0), pt(-7.0, 9.0)];
    assert_eq!(eval_quad_at(&q, nv(0.0)), q[0]);
    assert_eq!(eval_quad_at(&q, nv(1.0)), q[2]);
    let c = vec![pt(1.5, -2.25), pt(80.0, 4.0), pt(-7.0, 9.0), pt(3.25, 11.5)];
    let (at0, _, _) = eval_cubic_at(&c, nv(0.0));
    let (at1, _, _) = eval_cubic_at(&c, nv(1.0));
    assert_eq!(at0, c[0]);
    assert_eq!(at1, c[3]);
}

#[test]
fn eval_quad_matches_hand_horner() {
    let (p0, p1, p2) = ((1.0f32, 2.0f32), (5.0f32, -3.0f32), (4.0f32, 7.0f32));
    let q = vec![pt(p0.0, p0.1), pt(p1.0, p1.1), pt(p2.0, p2.1)];
    let t = 0.3f32;
    let r = eval_quad_at(&q, nv(t));
    let horner = |a: f32, b: f32, c: f32| -> f32 {
        let ca = c - 2.0 * b + a;
        let cb = 2.0 * (b - a);
        (ca * t + cb) * t + a
    };
    assert_eq!(xf(r), horner(p0.0, p1.0, p2.0));
    assert_eq!(yf(r), horner(p0.1, p1.1, p2.1));
}

#[test]
fn quad_tangent_at_midpoint() {
    let q = vec![pt(0.0, 0.0), pt(1.0, 1.0), pt(2.0, 2.0)];
    let mut p = Point::zero();
    let mut tangent = Point::zero();
    eval_quad_at2(&q, nv(0.5), &mut p, &mut tangent);
    assert_pt(p, 1.0, 1.0);
    assert_pt(tangent, 2.0, 2.0);
}

#[test]
fn quad_tangent_degenerate_endpoint_uses_the_chord() {
    let q = vec![pt(1.0, 1.0), pt(1.0, 1.0), pt(5.0, 3.0)];
    let mut p = Point::zero();
    let mut tangent = Point::zero();
    eval_quad_at2(&q, nv(0.0), &mut p, &mut tangent);
    assert_pt(tangent, 4.0, 2.0);
}

#[test]
fn chop_then_eval_round_trip_within_one_ulp() {
    let src = vec![pt(0.0, 0.0), pt(100.0, 100.0), pt(0.0, 100.0), pt(100.0, 0.0)];
    let t = 0.375f32;
    let mut dst = buf(7);
    chop_cubic_at2(&src, tv(t), &mut dst);
    let (at_t, _, _) = eval_cubic_at(&src, nv(t));
    let ulp_close = |a: u32, b: u32| -> bool {
        let fa = f32::from_bits(a);
        let fb = f32::from_bits(b);
        fa == fb || (fa - fb).abs() <= (fa.abs().max(fb.abs())) * f32::EPSILON * 2.0
    };
    assert_eq!(dst[0], src[0]);
    assert_eq!(dst[6], src[3]);
    assert!(ulp_close(dst[3].x, at_t.x), "{} vs {}", xf(dst[3]), f32::from_bits(at_t.x));
    assert!(ulp_close(dst[3].y, at_t.y), "{} vs {}", yf(dst[3]), f32::from_bits(at_t.y));
}

#[test]
fn quad_max_curvature_interior_and_clamped() {
    // Symmetric corner: the peak is exactly halfway.
    let q = vec![pt(0.0, 0.0), pt(0.0, 1.0), pt(1.0, 1.0)];
    let t = find_quad_max_curvature(&q);
    assert_eq!(f32::from_bits(t.get()), 0.5);
    // Degenerate: a flat control polygon clamps to zero.
    let flat = vec![pt(0.0, 0.0), pt(1.0, 0.0), pt(2.0, 0.0)];
    assert_eq!(f32::from_bits(find_quad_max_curvature(&flat).get()), 0.0);
    // The curvature peak before the start clamps to zero, past the end to one.
    let past = vec![pt(0.0, 0.0), pt(2.0, 0.0), pt(2.0, 0.0)];
    assert_eq!(f32::from_bits(find_quad_max_curvature(&past).get()), 1.0);
}

#[test]
fn cubic_inflections_of_the_s_curve() {
    let src = vec![pt(0.0, 0.0), pt(100.0, 100.0), pt(0.0, 100.0), pt(100.0, 0.0)];
    let infl = find_cubic_inflections(&src);
    assert_eq!(infl.len(), 1);
    let t = f32::from_bits(infl[0].get());
    assert!((t - 0.5).abs() < 0.01, "inflection at {}", t);
}

#[test]
fn cubic_max_curvature_is_sorted_and_open() {
    let src = vec![pt(0.0, 0.0), pt(30.0, 40.0), pt(70.0, -10.0), pt(100.0, 60.0)];
    let ts = find_cubic_max_curvature(&src);
    assert!(ts.len() >= 1 && ts.len() <= 3);
    for i in 0..ts.len() {
        let t = f32::from_bits(ts[i].get());
        assert!(t > 0.0 && t < 1.0 && t.is_finite());
        if i > 0 {
            assert!(f32::from_bits(ts[i - 1].get()) < t);
        }
    }
}

#[test]
fn cusp_found_on_the_crossing_cage() {
    let src = vec![pt(0.0, 0.0), pt(100.0, 100.0), pt(0.0, 100.0), pt(100.0, 0.0)];
    let cusp = find_cubic_cusp(&src);
    assert!(cusp.is_some());
    let t = f32::from_bits(cusp.unwrap().get());
    assert!((t - 0.5).abs() < 0.01, "cusp at {}", t);
}

#[test]
fn cusp_rejected_on_degenerate_edges_and_open_cages() {
    // Coincident leading edge.
    let degenerate = vec![pt(1.0, 1.0), pt(1.0, 1.0), pt(2.0, 3.0), pt(4.0, 5.0)];
    assert!(find_cubic_cusp(&degenerate).is_none());
    // A convex cage: the edges do not cross, so no cusp.
    let convex = vec![pt(0.0, 0.0), pt(30.0, 40.0), pt(70.0, 40.0), pt(100.0, 0.0)];
    assert!(find_cubic_cusp(&convex).is_none());
}

#[test]
fn conic_quads_are_finite_and_keep_endpoints() {
    let conic = Conic::new(pt(0.0, 0.0), pt(10.0, 20.0), pt(30.0, 0.0), 0.5f32.to_bits());
    let mut dst = buf(17);
    let n = conic.chop_into_quads_pow2(3, &mut dst);
    assert_eq!(n, 8);
    for i in 0..17 {
        assert!(xf(dst[i]).is_finite() && yf(dst[i]).is_finite(), "point {}", i);
    }
    assert_eq!(dst[0], conic.points[0]);
    assert_eq!(dst[16], conic.points[2]);
}

#[test]
fn conic_quads_pin_to_the_hull_on_overflow() {
    // Coordinates near the single-precision limit overflow the halving, so
    // the interior points collapse onto the middle control point.
    let conic = Conic::new(pt(3.0e38, 0.0), pt(3.0e38, 3.0e38), pt(0.0, 0.0), 1.0f32.to_bits());
    let mut dst = buf(17);
    let n = conic.chop_into_quads_pow2(3, &mut dst);
    assert_eq!(n, 8);
    for i in 0..17 {
        assert!(xf(dst[i]).is_finite() && yf(dst[i]).is_finite(), "point {}", i);
    }
    assert_eq!(dst[0], conic.points[0]);
    assert_eq!(dst[16], conic.points[2]);
    for i in 1..16 {
        assert_eq!(dst[i], conic.points[1], "interior point {}", i);
    }
}

#[test]
fn conic_quads_survive_a_huge_weight() {
    // A weight at the single-precision limit forces the double-precision
    // fallback for the junction point.
    let conic = Conic::new(pt(0.0, 0.0), pt(1.0, 2.0), pt(4.0, 0.0), 3.0e38f32.to_bits());
    let mut dst = buf(17);
    let n = conic.chop_into_quads_pow2(3, &mut dst);
    assert_eq!(n, 8);
    for i in 0..17 {
        assert!(xf(dst[i]).is_finite() && yf(dst[i]).is_finite(), "point {}", i);
    }
    assert_eq!(dst[0], conic.points[0]);
    assert_eq!(dst[16], conic.points[2]);
}

#[test]
fn unit_arc_quarter_circle_clockwise() {
    let xform = Transform::identity();
    let arc = Conic::build_unit_arc(pt(1.0, 0.0), pt(0.0, 1.0), PathDirection::CW, &xform);
    assert_eq!(arc.len(), 1);
    assert_pt(arc[0].points[0], 1.0, 0.0);
    assert_pt(arc[0].points[1], 1.0, 1.0);
    assert_pt(arc[0].points[2], 0.0, 1.0);
    assert_eq!(f32::from_bits(arc[0].weight), std::f32::consts::FRAC_1_SQRT_2);
}

#[test]
fn unit_arc_half_circle_clockwise() {
    let xform = Transform::identity();
    let arc = Conic::build_unit_arc(pt(1.0, 0.0), pt(-1.0, 0.0), PathDirection::CW, &xform);
    assert_eq!(arc.len(), 2);
    assert_pt(arc[0].points[0], 1.0, 0.0);
    assert_pt(arc[0].points[1], 1.0, 1.0);
    assert_pt(arc[0].points[2], 0.0, 1.0);
    assert_pt(arc[1].points[0], 0.0, 1.0);
    assert_pt(arc[1].points[1], -1.0, 1.0);
    assert_pt(arc[1].points[2], -1.0, 0.0);
    assert_eq!(f32::from_bits(arc[0].weight), std::f32::consts::FRAC_1_SQRT_2);
    assert_eq!(f32::from_bits(arc[1].weight), std::f32::consts::FRAC_1_SQRT_2);
}

#[test]
fn unit_arc_empty_on_a_degenerate_sweep() {
    let xform = Transform::identity();
    let arc = Conic::build_unit_arc(pt(1.0, 0.0), pt(1.0, 0.0), PathDirection::CW, &xform);
    assert_eq!(arc.len(), 0);
}

#[test]
fn unit_arc_partial_eighth_circle() {
    let xform = Transform::identity();
    let c = std::f32::consts::FRAC_1_SQRT_2;
    let arc = Conic::build_unit_arc(pt(1.0, 0.0), pt(c, c), PathDirection::CW, &xform);
    assert_eq!(arc.len(), 1);
    let w = f32::from_bits(arc[0].weight);
    assert!((w - 0.9238795).abs() < 1e-4, "weight {}", w);
    assert_pt(arc[0].points[0], 1.0, 0.0);
    let ox = xf(arc[0].points[1]);
    let oy = yf(arc[0].points[1]);
    assert!((ox - 1.0).abs() < 1e-4 && (oy - 0.41421357).abs() < 1e-4, "off ({}, {})", ox, oy);
    let fx = xf(arc[0].points[2]);
    let fy = yf(arc[0].points[2]);
    assert!((fx - c).abs() < 1e-6 && (fy - c).abs() < 1e-6);
}

#[test]
fn unit_arc_counterclockwise_quarter() {
    let xform = Transform::identity();
    let arc = Conic::build_unit_arc(pt(1.0, 0.0), pt(0.0, -1.0), PathDirection::CCW, &xform);
    assert_eq!(arc.len(), 1);
    assert_pt(arc[0].points[0], 1.0, 0.0);
    let p1 = arc[0].points[1];
    assert!((xf(p1) - 1.0).abs() < 1e-6 && (yf(p1) + 1.0).abs() < 1e-6);
    let p2 = arc[0].points[2];
    assert!(xf(p2).abs() < 1e-6 && (yf(p2) + 1.0).abs() < 1e-6);
}

#[test]
fn coefficient_forms_match_the_definitions() {
    let q = vec![pt(1.0, 2.0), pt(3.0, 5.0), pt(4.0, -1.0)];
    let qc = path_geometry::QuadCoeff::from_points(&q);
    assert_pt(qc.a, 4.0 - 6.0 + 1.0, -1.0 - 10.0 + 2.0);
    assert_pt(qc.b, 4.0, 6.0);
    assert_pt(qc.c, 1.0, 2.0);
    let c = vec![pt(1.0, 2.0), pt(3.0, 5.0), pt(4.0, -1.0), pt(0.0, 6.0)];
    let cc = path_geometry::CubicCoeff::from_points(&c);
    assert_pt(cc.a, 0.0 + 3.0 * (3.0 - 4.0) - 1.0, 6.0 + 3.0 * (5.0 + 1.0) - 2.0);
    assert_pt(cc.b, 3.0 * (4.0 - 6.0 + 1.0), 3.0 * (-1.0 - 10.0 + 2.0));
    assert_pt(cc.c, 6.0, 9.0);
    assert_pt(cc.d, 1.0, 2.0);
    let at_half = cc.eval(0.5f32.to_bits());
    let horner = |a: f32, b: f32, cv: f32, d: f32| ((a * 0.5 + b) * 0.5 + cv) * 0.5 + d;
    assert_eq!(f32::from_bits(at_half.x), horner(-4.0, -3.0, 6.0, 1.0));
    assert_eq!(f32::from_bits(at_half.y), horner(22.0, -27.0, 9.0, 2.0));
}

#[test]
fn cubic_tangent_degenerate_endpoint_keeps_an_axis_chord() {
    // Start control on the start point; the neighbouring chord (5, 0) has a
    // zero component, so it is the tangent.
    let src = vec![pt(0.0, 0.0), pt(0.0, 0.0), pt(5.0, 0.0), pt(7.0, 3.0)];
    let (_, tangent, _) = eval_cubic_at(&src, nv(0.0));
    assert_pt(tangent, 5.0, 0.0);
}

#[test]
fn cubic_tangent_degenerate_endpoint_overrides_a_full_chord() {
    // The neighbouring chord (5, 2) has both components nonzero, so the
    // full chord p3 - p0 takes over (the established, if odd, behavior).
    let src = vec![pt(0.0, 0.0), pt(0.0, 0.0), pt(5.0, 2.0), pt(7.0, 3.0)];
    let (_, tangent, _) = eval_cubic_at(&src, nv(0.0));
    assert_pt(tangent, 7.0, 3.0);
}

#[test]
fn cubic_second_derivative_matches_the_coefficient_form() {
    let src = vec![pt(0.0, 0.0), pt(4.0, 8.0), pt(8.0, 8.0), pt(12.0, 0.0)];
    // a = p3 + 3*(p1 - p2) - p0 = (0, 0); b = p2 - 2*p1 + p0 = (0, -8);
    // the second derivative vector a*t + b is constant here.
    let (_, _, curvature) = eval_cubic_at(&src, nv(0.5));
    assert_pt(curvature, 0.0, -8.0);
}

#[test]
fn normalized_accepts_exactly_the_closed_interval() {
    assert!(NormalizedF32::new(0.0f32.to_bits()).is_some());
    assert!(NormalizedF32::new(1.0f32.to_bits()).is_some());
    assert!(NormalizedF32::new(0.75f32.to_bits()).is_some());
    assert!(NormalizedF32::new((-0.1f32).to_bits()).is_none());
    assert!(NormalizedF32::new(1.1f32.to_bits()).is_none());
    assert!(NormalizedF32::new(f32::NAN.to_bits()).is_none());
}

#[test]
fn straight_cubic_has_no_inflections() {
    let src = vec![pt(0.0, 0.0), pt(1.0, 1.0), pt(2.0, 2.0), pt(3.0, 3.0)];
    assert_eq!(find_cubic_inflections(&src).len(), 0);
}
