use glam::{Mat2, Vec2};
use matter::binary::double::Binary64;
use matter::binary::single::Binary32;
use matter::linalg;
use matter::numerics::{Host, Numerics, Unary};

fn b(x: f32) -> Binary32 {
    Binary32::from_bits(x.to_bits())
}

fn r(x: Binary32) -> f32 {
    f32::from_bits(x.to_bits())
}

fn lib(m: Mat2) -> linalg::Mat2 {
    linalg::Mat2::from_cols(
        linalg::Vec2::new(b(m.x_axis.x), b(m.x_axis.y)),
        linalg::Vec2::new(b(m.y_axis.x), b(m.y_axis.y)),
    )
}

fn mat(m: linalg::Mat2) -> Mat2 {
    Mat2::from_cols(
        Vec2::new(r(m.x_axis.x), r(m.x_axis.y)),
        Vec2::new(r(m.y_axis.x), r(m.y_axis.y)),
    )
}

fn single(f: Unary, x: f32) -> f32 {
    match f {
        Unary::Exp => x.exp(),
        Unary::Ln => x.ln(),
        Unary::Sinh => x.sinh(),
        Unary::Asin => x.asin(),
    }
}

fn double(f: Unary, x: f64) -> f64 {
    match f {
        Unary::Exp => x.exp(),
        Unary::Ln => x.ln(),
        Unary::Sinh => x.sinh(),
        Unary::Asin => x.asin(),
    }
}

/// Antoine's equation for water, in Pa.
fn saturation_pressure(temperature_k: f32) -> f32 {
    let celsius = temperature_k as f64 - 273.15;
    let mmhg = 10.0_f64.powf(8.07131 - 1730.63 / (233.426 + celsius));
    (mmhg * 133.322) as f32
}

/// The exponential of a 2x2 matrix.
fn exponential(m: Mat2) -> Mat2 {
    let (xx, xy, yx, yy) = (
        m.x_axis.x as f64,
        m.x_axis.y as f64,
        m.y_axis.x as f64,
        m.y_axis.y as f64,
    );
    let mean = 0.5 * (xx + yy);
    let (axx, ayy) = (xx - mean, yy - mean);
    let square = axx * axx + xy * yx;
    let (c, s) = if square > 0.0 {
        let w = square.sqrt();
        (w.cosh(), w.sinh() / w)
    } else if square < 0.0 {
        let w = (-square).sqrt();
        (w.cos(), w.sin() / w)
    } else {
        (1.0, 1.0)
    };
    let e = mean.exp();
    Mat2::from_cols(
        Vec2::new((e * (c + s * axx)) as f32, (e * s * xy) as f32),
        Vec2::new((e * s * yx) as f32, (e * (c + s * ayy)) as f32),
    )
}

/// Singular values in descending order, with rotations on both sides.
fn svd(m: Mat2) -> (Mat2, Vec2, Mat2) {
    let (a, c, bb, d) = (
        m.x_axis.x as f64,
        m.x_axis.y as f64,
        m.y_axis.x as f64,
        m.y_axis.y as f64,
    );
    let (e, f, g, h) = ((a + d) / 2.0, (a - d) / 2.0, (c + bb) / 2.0, (c - bb) / 2.0);
    let (q, p) = (e.hypot(h), f.hypot(g));
    let (a1, a2) = (g.atan2(f), h.atan2(e));
    let (theta, phi) = ((a2 - a1) / 2.0, (a2 + a1) / 2.0);
    let rot = |t: f64| {
        Mat2::from_cols(
            Vec2::new(t.cos() as f32, t.sin() as f32),
            Vec2::new(-t.sin() as f32, t.cos() as f32),
        )
    };
    (rot(phi), Vec2::new((q + p) as f32, (q - p) as f32), rot(theta))
}

fn host() -> impl Numerics {
    Host::new(
        |x: Binary32, y: Binary32| b(r(x).powf(r(y))),
        |x: Binary32, y: Binary32| b(r(x).powf(r(y))),
        |f: Unary, x: Binary32| b(single(f, r(x))),
        |f: Unary, x: Binary64| {
            Binary64::from_bits(double(f, f64::from_bits(x.to_bits())).to_bits())
        },
        |t: Binary32| b(saturation_pressure(r(t))),
        |m: linalg::Mat2| lib(exponential(mat(m))),
        |f: linalg::Mat2, step: linalg::Mat2, _v: Binary32, _v0: Binary32| {
            lib(exponential(mat(step)) * mat(f))
        },
        |m: linalg::Mat2| {
            let (u, s, vt) = svd(mat(m));
            (lib(u), linalg::Vec2::new(b(s.x), b(s.y)), lib(vt))
        },
        |x: Binary32, rho: Binary32, c: matter::particle::SimConfig| {
            b(r(x) / (r(rho) * r(c.dx_meters) * r(c.dx_meters)))
        },
        |x: Binary32, rho: Binary32, c: matter::particle::SimConfig| {
            b(r(x) / (r(rho) * r(c.dx_meters) * r(c.dx_meters)))
        },
    )
}
use matter::cavitating_eos::{
    p_v_gauge_pa_at_temperature, Branch, C1Patch, CavitatingEosParams, EosBranchInputs, EosError,
};
use matter::cavitating_table::CavitatingEosTable;

const RHO_L: f32 = 1000.0;
const C_L: f32 = 180.0;
const GAMMA_L: f32 = 7.0;
const RHO_V: f32 = 1000.0 / 6.0;
const GAMMA_V: f32 = 1.33;
const C_MIN: f32 = 1.0;
const STANDARD_ATMOSPHERE_PA: f32 = 101_325.0;

fn inputs() -> EosBranchInputs {
    EosBranchInputs {
        rho_l_ref_kg_m3: b(RHO_L),
        c_l_m_s: b(C_L),
        gamma_l: b(GAMMA_L),
        rho_v_ref_kg_m3: b(RHO_V),
        gamma_v: b(GAMMA_V),
        c_min_m_s: b(C_MIN),
    }
}

fn at_temperature(t: f32) -> CavitatingEosParams {
    CavitatingEosParams::at_temperature(
        b(RHO_L),
        b(C_L),
        b(GAMMA_L),
        b(RHO_V),
        b(GAMMA_V),
        b(C_MIN),
        b(t),
        &host(),
    )
}

fn real_test_params() -> CavitatingEosParams {
    let p_v_abs = saturation_pressure(300.0);
    CavitatingEosParams::new(
        b(RHO_L),
        b(C_L),
        b(GAMMA_L),
        b(RHO_V),
        b(GAMMA_V),
        b(C_MIN),
        b(p_v_abs - STANDARD_ATMOSPHERE_PA),
        &host(),
    )
}

fn build() -> CavitatingEosTable {
    CavitatingEosTable::build(
        b(RHO_L),
        b(C_L),
        b(GAMMA_L),
        b(RHO_V),
        b(GAMMA_V),
        b(C_MIN),
        b(273.15),
        &host(),
    )
}

fn closure_max() -> f32 {
    r(inputs().t_liquid_closure_max(b(273.15), b(373.15), &host()).unwrap())
}

fn pressure(params: &CavitatingEosParams, rho: f32) -> f32 {
    r(params.pressure_gauge_pa(b(rho), &host()))
}

fn sound(params: &CavitatingEosParams, rho: f32) -> f32 {
    r(params.acoustic_c2_si(b(rho), &host()))
}

#[test]
fn at_temperature_matches_new_given_the_equivalent_gauge_pressure() {
    let n = host();
    let p_v_gauge_pa = p_v_gauge_pa_at_temperature(b(300.0), &n);
    let via_new = CavitatingEosParams::new(
        b(RHO_L),
        b(C_L),
        b(GAMMA_L),
        b(RHO_V),
        b(GAMMA_V),
        b(C_MIN),
        p_v_gauge_pa,
        &n,
    );
    let via_at_temperature = at_temperature(300.0);
    assert_eq!(via_new.rho_m_plus_kg_m3, via_at_temperature.rho_m_plus_kg_m3);
    assert_eq!(via_new.rho_m_minus_kg_m3, via_at_temperature.rho_m_minus_kg_m3);
    assert_eq!(pressure(&via_new, 999.0), pressure(&via_at_temperature, 999.0));
    assert_eq!(via_new, via_at_temperature);
}

#[test]
fn t_liquid_closure_max_lands_just_below_the_true_boiling_point() {
    let t_max = closure_max();
    assert!(t_max < 373.15 && t_max > 372.0, "t_liquid_closure_max={t_max}");
    let params = at_temperature(t_max);
    assert!(r(params.liquid_patch_outer_edge_kg_m3()) < RHO_L);
}

#[test]
fn dense_temperature_sweep_holds_every_real_invariant_up_to_the_closure_boundary() {
    let t_max = closure_max();
    let n = host();
    const N: usize = 500;
    for i in 0..=N {
        let t = 273.15 + (t_max - 273.15) * (i as f32 / N as f32);
        let params = at_temperature(t);
        let (plus, minus) = (r(params.rho_m_plus_kg_m3), r(params.rho_m_minus_kg_m3));
        assert!(minus > 0.0 && minus < plus && plus < RHO_L, "T={t}K");
        assert!(params.is_continuous(b(1.0), &n), "T={t}K");
        let (lo_l, hi_l) = params.patch_liquid_junction.derivative_extrema();
        let (lo_v, hi_v) = params.patch_vapor_junction.derivative_extrema();
        assert!(r(lo_l) > 0.0 && r(hi_l).is_finite() && r(lo_v) > 0.0 && r(hi_v).is_finite());
        let rho_lo = RHO_V * 0.5;
        let rho_hi = RHO_L * 1.05;
        const M: usize = 40;
        let mut prev_p = pressure(&params, rho_lo);
        for j in 1..=M {
            let rho = rho_lo + (rho_hi - rho_lo) * (j as f32 / M as f32);
            let p = pressure(&params, rho);
            assert!(p >= prev_p, "T={t}K rho={rho} p={p} prev_p={prev_p}");
            prev_p = p;
        }
    }
}

#[test]
fn table_build_converges_to_a_real_bounded_node_count() {
    let table = build();
    assert!(
        table.node_count() >= 4 && table.node_count() < 4096,
        "node_count={}",
        table.node_count()
    );
    let (p_err, d_err) = table.measure_worst_case_interpolation_error(&host()).unwrap();
    assert!(r(p_err) < 1.0e-3 && r(d_err) < 0.05);
    assert_eq!(r(table.t_min_k()), 273.15);
    assert_eq!(r(table.t_max_k()), closure_max());
    assert!(table.node_count().is_power_of_two());
}

#[test]
fn reconstruct_at_a_table_node_matches_the_direct_solve() {
    let table = build();
    let t_node = r(table.t_min_k());
    let via_table = table.reconstruct(b(t_node), &host());
    let via_direct = at_temperature(t_node);
    for rho in [200.0, 500.0, 999.0, 999.999] {
        let p_table = pressure(&via_table, rho);
        let p_direct = pressure(&via_direct, rho);
        assert!((p_table - p_direct).abs() < 1.0, "rho={rho}: {p_table} vs {p_direct}");
    }
    assert_eq!(via_table.rho_m_plus_kg_m3, via_direct.rho_m_plus_kg_m3);
    assert_eq!(via_table.rho_m_minus_kg_m3, via_direct.rho_m_minus_kg_m3);
}

#[test]
fn pressure_is_exactly_zero_gauge_at_rest_density() {
    let params = real_test_params();
    let p = pressure(&params, r(params.rho_l_ref_kg_m3));
    assert!(p.abs() < 1.0, "got {p} Pa");
    assert_eq!(p, 0.0);
}

#[test]
fn rest_density_is_classified_as_pure_liquid() {
    let params = real_test_params();
    assert!(r(params.rho_l_ref_kg_m3) > r(params.rho_m_plus_kg_m3));
    assert_eq!(params.branch(params.rho_l_ref_kg_m3), Branch::Liquid);
}

#[test]
fn shared_stiffness_matches_the_real_c_squared_equals_b_gamma_over_rho_identity() {
    let params = real_test_params();
    let expected_b = C_L * C_L * RHO_L / GAMMA_L;
    let b_pa = r(params.b_pa);
    assert!((b_pa - expected_b).abs() / expected_b < 1.0e-4);
    let c_v = (b_pa * GAMMA_V / RHO_V).sqrt();
    assert!(c_v.is_finite() && c_v > 0.0);
}

#[test]
fn vapor_branch_acoustic_speed_can_exceed_the_liquid_branch_at_its_own_boundary() {
    let params = real_test_params();
    let c_l2 = C_L * C_L;
    let c_v2_at_boundary = sound(&params, r(params.rho_m_minus_kg_m3) - 1.0);
    assert!(c_v2_at_boundary > c_l2, "{c_v2_at_boundary} vs {c_l2}");
}

#[test]
fn acoustic_c2_stays_finite_exactly_at_the_mixture_bands_own_edges() {
    let params = real_test_params();
    for rho in [params.rho_m_plus_kg_m3, params.rho_m_minus_kg_m3] {
        let c2 = sound(&params, r(rho));
        assert!(c2.is_finite() && c2 > 0.0, "rho={} got {c2}", r(rho));
    }
}

#[test]
fn c1_patches_keep_their_derivative_within_the_real_principled_bound() {
    let params = real_test_params();
    let c_min2 = C_MIN * C_MIN;
    let c_l2 = C_L * C_L;
    let s_max_vapor =
        r(inputs().vapor_slope(params.rho_m_minus_kg_m3, params.b_pa, &host()));
    let (lo_liquid, hi_liquid) = params.patch_liquid_junction.derivative_extrema();
    assert!(r(lo_liquid) >= c_min2 * 0.999 && r(hi_liquid) <= c_l2 * 1.001);
    let (lo_vapor, hi_vapor) = params.patch_vapor_junction.derivative_extrema();
    assert!(r(lo_vapor) >= c_min2 * 0.999 && r(hi_vapor) <= s_max_vapor * 1.001);
}

#[test]
fn acoustic_c2_matches_finite_difference_of_pressure_outside_the_c1_patches() {
    let params = real_test_params();
    let rho_lo = RHO_V * 0.5;
    let rho_hi = RHO_L * 1.05;
    let n = 5000;
    let h = 0.1_f32;
    let overlaps_patch = |lo: f32, hi: f32, patch: &C1Patch| -> bool {
        r(patch.rho_left) <= hi && r(patch.rho_left) + r(patch.width) >= lo
    };
    let (plus, minus) = (r(params.rho_m_plus_kg_m3), r(params.rho_m_minus_kg_m3));
    let junction_exclusion = 0.05 * (plus - minus);
    let near_junction = |rho: f32, junction: f32| (rho - junction).abs() < junction_exclusion;
    let mut max_rel_err = 0.0_f32;
    for i in 1..n {
        let rho = rho_lo + (rho_hi - rho_lo) * (i as f32 / n as f32);
        if overlaps_patch(rho - h, rho + h, &params.patch_liquid_junction)
            || overlaps_patch(rho - h, rho + h, &params.patch_vapor_junction)
            || near_junction(rho, plus)
            || near_junction(rho, minus)
        {
            continue;
        }
        let analytic = sound(&params, rho);
        let numeric = (pressure(&params, rho + h) - pressure(&params, rho - h)) / (2.0 * h);
        let rel_err = (analytic - numeric).abs() / analytic.abs().max(1.0);
        max_rel_err = max_rel_err.max(rel_err);
    }
    assert!(max_rel_err < 0.05, "max relative error {max_rel_err}");
}

#[test]
fn derived_parameters_produce_a_continuous_pressure_curve() {
    assert!(real_test_params().is_continuous(b(1.0), &host()));
}

#[test]
fn pressure_is_monotonically_increasing_with_density_everywhere() {
    let params = real_test_params();
    let rho_lo = RHO_V * 0.5;
    let rho_hi = RHO_L * 1.2;
    let n = 2000;
    let mut prev_p = pressure(&params, rho_lo);
    for i in 1..=n {
        let rho = rho_lo + (rho_hi - rho_lo) * (i as f32 / n as f32);
        let p = pressure(&params, rho);
        assert!(p >= prev_p - 1.0e-3, "rho={rho} gave p={p}, previous {prev_p}");
        prev_p = p;
    }
}

#[test]
fn mixture_branch_passes_through_saturation_pressure_at_its_own_midpoint() {
    let params = real_test_params();
    let midpoint = (r(params.rho_m_plus_kg_m3) + r(params.rho_m_minus_kg_m3)) / 2.0;
    let p_mid = pressure(&params, midpoint);
    assert!((p_mid - r(params.p_v_gauge_pa)).abs() < 1.0, "got {p_mid} Pa");
}

#[test]
#[should_panic]
fn rejects_a_c_min_with_no_real_mixture_band_solution() {
    let p_v_abs = saturation_pressure(300.0);
    let bad = EosBranchInputs { c_min_m_s: b(1.0e6), ..inputs() };
    CavitatingEosParams::try_new(bad, b(p_v_abs - STANDARD_ATMOSPHERE_PA), &host()).unwrap();
}

#[test]
fn each_error_has_an_input_that_gives_it() {
    let n = host();
    let p = b(saturation_pressure(300.0) - STANDARD_ATMOSPHERE_PA);
    let error = |i: EosBranchInputs| CavitatingEosParams::try_new(i, p, &n).unwrap_err();
    assert_eq!(error(EosBranchInputs { c_min_m_s: b(0.0), ..inputs() }), EosError::Input);
    assert_eq!(error(EosBranchInputs { gamma_v: b(f32::NAN), ..inputs() }), EosError::Input);
    assert_eq!(error(EosBranchInputs { c_l_m_s: b(1.0e30), ..inputs() }), EosError::Stiffness);
    assert_eq!(error(EosBranchInputs { c_min_m_s: b(1.0e6), ..inputs() }), EosError::Band);
    let hot = b(saturation_pressure(380.0) - STANDARD_ATMOSPHERE_PA);
    assert_eq!(CavitatingEosParams::try_new(inputs(), hot, &n).unwrap_err(), EosError::Order);
    assert_eq!(
        inputs().t_liquid_closure_max(b(273.15), b(300.0), &n).unwrap_err(),
        EosError::Range
    );
    assert_eq!(
        inputs().t_liquid_closure_max(b(400.0), b(500.0), &n).unwrap_err(),
        EosError::Range
    );
    assert!(CavitatingEosTable::try_build(inputs(), b(500.0), &n).is_err());
}

#[test]
fn a_patch_runs_from_its_left_end_to_its_right_end() {
    let patch = C1Patch {
        rho_left: b(10.0),
        width: b(2.0),
        p0: b(1.0),
        m0: b(1.0),
        p1: b(6.0),
        m1: b(3.0),
    };
    // mean slope 2.5: the ramp of length 1 stands at the left end
    let (l, at_start) = patch.ramp();
    assert_eq!((r(l), at_start), (1.0, true));
    let value = |x: f32| r(patch.value(b(x)));
    let slope = |x: f32| r(patch.derivative(b(x)));
    assert_eq!((value(10.0), value(10.5), value(11.0), value(12.0)), (1.0, 1.75, 3.0, 6.0));
    assert_eq!((slope(10.0), slope(10.5), slope(11.0), slope(12.0)), (1.0, 2.0, 3.0, 3.0));
    assert_eq!((value(9.0), value(20.0)), (1.0, 6.0));
    assert!(patch.contains(b(12.0)) && !patch.contains(b(12.5)) && !patch.contains(b(9.5)));

    // mean slope 1.5: the ramp stands at the right end
    let late = C1Patch { p1: b(4.0), ..patch };
    let (l, at_start) = late.ramp();
    assert_eq!((r(l), at_start), (1.0, false));
    assert_eq!((r(late.value(b(11.0))), r(late.value(b(12.0)))), (2.0, 4.0));
    assert_eq!((r(late.derivative(b(11.0))), r(late.derivative(b(11.5)))), (1.0, 2.0));

    let flat = C1Patch { m1: b(1.0), p1: b(3.0), ..patch };
    assert_eq!((r(flat.value(b(11.0))), r(flat.derivative(b(11.0)))), (2.0, 1.0));
}

#[test]
fn branches_cover_all_densities() {
    let params = real_test_params();
    let at = |rho: f32| params.branch(b(rho));
    assert_eq!(at(50.0), Branch::Vapor);
    assert_eq!(at(500.0), Branch::Mixture);
    assert_eq!(at(1100.0), Branch::Liquid);
    assert_eq!(params.branch(params.rho_m_plus_kg_m3), Branch::LiquidPatch);
    assert_eq!(params.branch(params.rho_m_minus_kg_m3), Branch::VaporPatch);
}
