use glam::{Mat2, Vec2};
use matter::binary::double::Binary64;
use matter::binary::single::Binary32;
use matter::linalg;
use matter::numerics::{Host, Numerics, Unary};

fn b(x: f32) -> Binary32 {
    Binary32::from_bits(x.to_bits())
}

fn r(x: Binary32) -> f32 {
    f32::from_bits(x.to_bits())
}

fn lib(m: Mat2) -> linalg::Mat2 {
    linalg::Mat2::from_cols(
        linalg::Vec2::new(b(m.x_axis.x), b(m.x_axis.y)),
        linalg::Vec2::new(b(m.y_axis.x), b(m.y_axis.y)),
    )
}

fn mat(m: linalg::Mat2) -> Mat2 {
    Mat2::from_cols(
        Vec2::new(r(m.x_axis.x), r(m.x_axis.y)),
        Vec2::new(r(m.y_axis.x), r(m.y_axis.y)),
    )
}

fn single(f: Unary, x: f32) -> f32 {
    match f {
        Unary::Exp => x.exp(),
        Unary::Ln => x.ln(),
        Unary::Sinh => x.sinh(),
        Unary::Asin => x.asin(),
    }
}

fn double(f: Unary, x: f64) -> f64 {
    match f {
        Unary::Exp => x.exp(),
        Unary::Ln => x.ln(),
        Unary::Sinh => x.sinh(),
        Unary::Asin => x.asin(),
    }
}

/// Antoine's equation for water, in Pa.
fn saturation_pressure(temperature_k: f32) -> f32 {
    let celsius = temperature_k as f64 - 273.15;
    let mmhg = 10.0_f64.powf(8.07131 - 1730.63 / (233.426 + celsius));
    (mmhg * 133.322) as f32
}

/// The exponential of a 2x2 matrix.
fn exponential(m: Mat2) -> Mat2 {
    let (xx, xy, yx, yy) = (
        m.x_axis.x as f64,
        m.x_axis.y as f64,
        m.y_axis.x as f64,
        m.y_axis.y as f64,
    );
    let mean = 0.5 * (xx + yy);
    let (axx, ayy) = (xx - mean, yy - mean);
    let square = axx * axx + xy * yx;
    let (c, s) = if square > 0.0 {
        let w = square.sqrt();
        (w.cosh(), w.sinh() / w)
    } else if square < 0.0 {
        let w = (-square).sqrt();
        (w.cos(), w.sin() / w)
    } else {
        (1.0, 1.0)
    };
    let e = mean.exp();
    Mat2::from_cols(
        Vec2::new((e * (c + s * axx)) as f32, (e * s * xy) as f32),
        Vec2::new((e * s * yx) as f32, (e * (c + s * ayy)) as f32),
    )
}

/// Singular values in descending order, with rotations on both sides.
fn svd(m: Mat2) -> (Mat2, Vec2, Mat2) {
    let (a, c, bb, d) = (
        m.x_axis.x as f64,
        m.x_axis.y as f64,
        m.y_axis.x as f64,
        m.y_axis.y as f64,
    );
    let (e, f, g, h) = ((a + d) / 2.0, (a - d) / 2.0, (c + bb) / 2.0, (c - bb) / 2.0);
    let (q, p) = (e.hypot(h), f.hypot(g));
    let (a1, a2) = (g.atan2(f), h.atan2(e));
    let (theta, phi) = ((a2 - a1) / 2.0, (a2 + a1) / 2.0);
    let rot = |t: f64| {
        Mat2::from_cols(
            Vec2::new(t.cos() as f32, t.sin() as f32),
            Vec2::new(-t.sin() as f32, t.cos() as f32),
        )
    };
    (rot(phi), Vec2::new((q + p) as f32, (q - p) as f32), rot(theta))
}

fn host() -> impl Numerics {
    Host::new(
        |x: Binary32, y: Binary32| b(r(x).powf(r(y))),
        |x: Binary32, y: Binary32| b(r(x).powf(r(y))),
        |f: Unary, x: Binary32| b(single(f, r(x))),
        |f: Unary, x: Binary64| {
            Binary64::from_bits(double(f, f64::from_bits(x.to_bits())).to_bits())
        },
        |t: Binary32| b(saturation_pressure(r(t))),
        |m: linalg::Mat2| lib(exponential(mat(m))),
        |f: linalg::Mat2, step: linalg::Mat2, _v: Binary32, _v0: Binary32| {
            lib(exponential(mat(step)) * mat(f))
        },
        |m: linalg::Mat2| {
            let (u, s, vt) = svd(mat(m));
            (lib(u), linalg::Vec2::new(b(s.x), b(s.y)), lib(vt))
        },
        |x: Binary32, rho: Binary32, c: matter::particle::SimConfig| {
            b(r(x) / (r(rho) * r(c.dx_meters) * r(c.dx_meters)))
        },
        |x: Binary32, rho: Binary32, c: matter::particle::SimConfig| {
            b(r(x) / (r(rho) * r(c.dx_meters) * r(c.dx_meters)))
        },
    )
}

use matter::bingham::BinghamFluidMaterial;
use matter::boiling_mixture::{BoilingMixtureMaterial, c_mix2_m2_s2};
use matter::cavitating_eos::{
    Branch, C1Patch, CavitatingEosParams, EosBranchInputs, EosError, MixtureJunctionEdges, Side,
    p_v_gauge_pa_at_temperature,
};
use matter::cavitating_table::CavitatingEosTable;
use matter::corotated::{CorotatedMaterial, corotated_stress};
use matter::elastic::NeoHookeanMaterial;
use matter::fluid::{NewtonianFluidMaterial, tait_pressure};
use matter::gas::GasMaterial;
use matter::granular_fluid::GranularFluidMaterial;
use matter::mechanics::{
    acoustic_bound, bounded_density, dashpot_stress, entry_ratio, isotropic_deformation,
    polar_decomposition_2d, seeded, shear_stress, step_ratio, viscous_bound,
    von_neumann_richtmyer_q,
};
use matter::model::{MaterialModel, Response};
use matter::nacc::NaccMaterial;
use matter::particle::Particle;

fn undeformed() -> Particle {
    let mut p = Particle::zeroed();
    p.deformation_gradient = lib(Mat2::IDENTITY);
    p.mass = b(2.0);
    p.initial_volume = b(1.0);
    p.plastic_volume_ratio = b(1.0);
    p.hardening_scale = b(1.0);
    p
}

fn vanishes(m: linalg::Mat2) -> bool {
    mat(m) == Mat2::ZERO
}

fn branch_inputs() -> EosBranchInputs {
    EosBranchInputs {
        rho_l_ref_kg_m3: b(1000.0),
        c_l_m_s: b(180.0),
        gamma_l: b(7.0),
        rho_v_ref_kg_m3: b(1000.0 / 6.0),
        gamma_v: b(1.33),
        c_min_m_s: b(1.0),
    }
}

#[test]
fn root_of_a_rounded_square_is_the_number() {
    for x in [1.1f32, -3.7, 1.0e-18, 1.2345678e19, 16_777_215.0, 0.333_333_34] {
        let square = b(x).mul(b(x));
        assert_eq!(r(square.sqrt()), x.abs(), "{x:e}");
    }
    // below that, squares lose digits
    assert_ne!(r(b(1.0e-22).mul(b(1.0e-22)).sqrt()), 1.0e-22);
}

#[test]
fn doubling_is_undone_by_halving() {
    for x in [1.0f32, -0.1, 1.0e-45, 1.7e38, 1.0e-40] {
        assert_eq!(r(b(x).add(b(x)).mul(b(0.5))), x);
    }
    assert_eq!(r(b(3.0e38).add(b(3.0e38)).mul(b(0.5))), f32::INFINITY);
}

#[test]
fn quotients_by_oneself_are_one() {
    for x in [1.0e-45f32, -7.3, 3.4e38, 0.1] {
        assert_eq!(r(b(x).div(b(x))), 1.0);
    }
    assert!(b(0.0).div(b(0.0)).is_nan());
}

#[test]
fn order_survives_rounding() {
    let (lo, hi, c) = (b(0.1), b(0.100_000_02), b(3.0));
    assert!(lo.add(c).le(hi.add(c)));
    assert!(lo.mul(c).le(hi.mul(c)));
    assert!(lo.div(c).le(hi.div(c)));
    assert!(c.div(hi).le(c.div(lo)));
    assert!(c.sub(hi).le(c.sub(lo)));
    assert_eq!(r(c.add(lo)), r(lo.add(c)));
}

#[test]
fn close_numbers_have_a_difference() {
    let x = Binary32::from_bits(1);
    let y = Binary32::from_bits(2);
    assert!(y.sub(x).gt(b(0.0)));
    let z = b(1.0);
    assert!(z.next().sub(z).gt(b(0.0)));
}

#[test]
fn expansion_makes_no_shock() {
    let q = |div: f32| {
        r(von_neumann_richtmyer_q(b(1000.0), b(1.0), b(div), b(1.0), b(20.0), b(7.15)))
    };
    assert_eq!(q(0.0), 0.0);
    assert_eq!(q(5.0), 0.0);
    assert!(q(-5.0) > 0.0);
}

#[test]
fn step_bounds_only_shrink() {
    let bound = b(0.5);
    assert_eq!(r(acoustic_bound(bound, b(4.0), b(1.0), b(0.5))), 0.25);
    assert_eq!(r(acoustic_bound(bound, b(0.01), b(1.0), b(0.5))), 0.5);
    assert_eq!(r(viscous_bound(bound, b(8.0), b(2.0), b(1.0), b(0.25))), 0.0625);
    assert_eq!(r(viscous_bound(bound, b(0.0), b(2.0), b(1.0), b(0.25))), 0.5);
}

#[test]
fn undeformed_particles_spawn_at_rest_density() {
    let p = seeded(undeformed(), b(3.0));
    assert_eq!(r(p.density), 3.0);
    assert_eq!(r(p.volume), r(p.initial_volume));
    assert_eq!(r(p.initial_volume), 2.0 / 3.0);
}

#[test]
fn densities_stay_within_their_bounds() {
    let density = |j: f32| r(bounded_density(b(1000.0), b(j), b(1.0), b(2000.0)));
    assert_eq!(density(1.0e-9), 2000.0);
    assert_eq!(density(1.0e9), 1.0);
    assert_eq!(density(0.8), 1250.0);
}

#[test]
fn volume_ratios_stay_within_their_bounds() {
    let mut p = undeformed();
    p.velocity_gradient = lib(Mat2::from_diagonal(Vec2::splat(-100.0)));
    assert_eq!(r(step_ratio(&p, b(1.0), b(0.5), b(2.0), &host())), 0.5);
    p.velocity_gradient = lib(Mat2::from_diagonal(Vec2::splat(100.0)));
    assert_eq!(r(step_ratio(&p, b(1.0), b(0.5), b(2.0), &host())), 2.0);
}

#[test]
fn divergence_free_motion_keeps_the_volume_ratio() {
    let mut p = undeformed();
    p.deformation_gradient = lib(Mat2::from_diagonal(Vec2::new(0.9, 1.3)));
    p.velocity_gradient = lib(Mat2::from_cols(Vec2::new(0.3, 7.0), Vec2::new(-2.0, -0.3)));
    let j = r(step_ratio(&p, b(0.25), b(0.5), b(2.0), &host()));
    assert_eq!(j, mat(p.deformation_gradient).determinant());
}

#[test]
fn symmetric_deformations_have_no_rotation() {
    for m in [
        Mat2::from_cols(Vec2::new(1.3, 0.2), Vec2::new(0.2, 0.7)),
        Mat2::from_diagonal(Vec2::new(0.123_456_79, 1.1)),
        Mat2::IDENTITY,
    ] {
        assert_eq!(mat(polar_decomposition_2d(lib(m))), Mat2::IDENTITY);
    }
    let turned = Mat2::from_angle(0.4);
    let rotation = mat(polar_decomposition_2d(lib(turned)));
    assert!((rotation.x_axis - turned.x_axis).length() < 1.0e-6);
}

#[test]
fn entry_at_rest_density_is_undeformed() {
    let mut p = undeformed();
    p.volume = p.mass.div(b(3.0));
    let j = entry_ratio(p, b(3.0), b(0.5), b(2.0));
    assert_eq!(r(j), 1.0);
    assert_eq!(mat(isotropic_deformation(j)), Mat2::IDENTITY);
    p.volume = b(1000.0);
    assert_eq!(r(entry_ratio(p, b(3.0), b(0.5), b(2.0))), 2.0);
}

#[test]
fn rotations_are_not_sheared() {
    let spin = lib(Mat2::from_cols(Vec2::new(0.0, 1.7), Vec2::new(-1.7, 0.0)));
    assert_eq!(r(spin.trace()), 0.0);
    assert!(vanishes(shear_stress(b(0.3), spin)));
    assert!(vanishes(dashpot_stress(b(0.3), spin)));
    let shear = lib(Mat2::from_cols(Vec2::new(0.0, 1.0), Vec2::new(1.0, 0.0)));
    assert_eq!(r(shear_stress(b(0.5), shear).x_axis.y), 1.0);
}

#[test]
fn tait_pressure_grows_from_its_floor() {
    assert_eq!(r(tait_pressure(b(10.0), b(0.5), b(-2.0))), -2.0);
    assert_eq!(r(tait_pressure(b(10.0), b(1.5), b(-2.0))), 5.0);
    assert!(tait_pressure(b(10.0), b(1.25), b(-2.0)).le(tait_pressure(b(10.0), b(1.5), b(-2.0))));
}

#[test]
fn resting_fluid_has_no_pressure() {
    let m = NewtonianFluidMaterial::new(b(3.7), b(0.1), b(123.0), b(7.15));
    let mut p = undeformed();
    p.density = b(3.7);
    let stress = mat(m.kirchhoff_stress(&p, &host()));
    assert_eq!(stress.x_axis.x, 0.0);
    assert_eq!(stress.y_axis.y, 0.0);
}

#[test]
fn faster_shear_thins_the_fluid() {
    let m = BinghamFluidMaterial::high_yield(b(4.0), b(10.0));
    assert_eq!(r(m.apparent_viscosity(b(2.0))), 50.5);
    assert_eq!(r(m.apparent_viscosity(b(4.0))), 25.5);
}

#[test]
fn dilation_does_not_break_the_plug() {
    let m = BinghamFluidMaterial::high_yield(b(4.0), b(10.0));
    for rate in [0.1f32, -33.3, 1.0e20] {
        let c = linalg::Mat2::isotropic(b(rate));
        let d = BinghamFluidMaterial::strain_rate_deviator(c);
        assert_eq!(r(BinghamFluidMaterial::shear_rate(d)), 0.0);
        assert!(vanishes(m.deviatoric_stress(c)));
    }
}

#[test]
fn gas_pressure_is_never_tension() {
    let m = GasMaterial::new(b(1.2), b(0.0), b(287.0), b(1.4), b(300.0));
    assert_eq!(r(m.isentropic_pressure(b(0.0), b(1.5))), 0.0);
    assert_eq!(r(m.isentropic_pressure(b(300.0), b(-1.0))), 0.0);
    assert_eq!(r(m.isentropic_pressure(b(300.0), b(1.0))), 1.2 * 287.0 * 300.0);
}

#[test]
fn resting_solids_carry_nothing() {
    let p = undeformed();
    let corotated = CorotatedMaterial::new(b(1000.0), b(700.0));
    assert!(vanishes(corotated.kirchhoff_stress(&p, &host())));
    let elastic = NeoHookeanMaterial::new(b(1000.0), b(700.0));
    assert!(vanishes(elastic.kirchhoff_stress(&p, &host())));
}

#[test]
fn rates_do_not_reach_solids_without_viscosity() {
    let mut p = undeformed();
    p.deformation_gradient = lib(Mat2::from_diagonal(Vec2::new(1.1, 0.95)));
    let corotated = CorotatedMaterial::new(b(1000.0), b(700.0));
    let elastic = NeoHookeanMaterial::new(b(1000.0), b(700.0));
    let still = (
        mat(corotated.kirchhoff_stress(&p, &host())),
        mat(elastic.kirchhoff_stress(&p, &host())),
    );
    p.velocity_gradient = lib(Mat2::from_cols(Vec2::new(5.0, 1.0), Vec2::new(-3.0, 2.0)));
    assert_eq!(mat(corotated.kirchhoff_stress(&p, &host())), still.0);
    assert_eq!(mat(elastic.kirchhoff_stress(&p, &host())), still.1);
}

#[test]
fn damage_needs_a_softening_rate() {
    let mut m = NeoHookeanMaterial::new(b(1000.0), b(700.0));
    let mut p = undeformed();
    p.friction_hardening = b(3.0);
    m.damage_softening_rate = b(0.0);
    assert_eq!(r(m.effective_moduli(&p, &host()).0), 700.0);
    m.damage_softening_rate = b(0.5);
    assert_eq!(r(m.effective_moduli(&p, &host()).0), 700.0 * (-1.5f32).exp());
}

#[test]
fn crushed_solids_carry_nothing() {
    let m = NeoHookeanMaterial::new(b(1000.0), b(700.0));
    let mut p = undeformed();
    p.deformation_gradient = lib(Mat2::from_diagonal(Vec2::splat(1.0e-4)));
    assert!(vanishes(m.kirchhoff_stress(&p, &host())));
}

#[test]
fn granular_return_respects_its_limits() {
    let m = GranularFluidMaterial::saturated_loam(b(1.0e4), b(0.3));
    let far = lib(Mat2::from_diagonal(Vec2::new(3.0, 0.2)));
    let p = m.return_to_limits(undeformed(), far, &host());
    let (_, sigma, _) = svd(mat(p.deformation_gradient));
    assert!(sigma.x <= r(m.sigma_max()) + 1.0e-6);
    assert!(sigma.y >= r(m.sigma_min()) - 1.0e-6);
    assert!(m.min_plastic_jacobian.le(p.plastic_volume_ratio));
    assert!(p.plastic_volume_ratio.le(m.max_plastic_jacobian));
    assert!(r(p.hardening_scale) >= 1.0 && r(p.hardening_scale) <= 7.0);
}

#[test]
fn granular_state_within_limits_gains_no_history() {
    let m = GranularFluidMaterial::saturated_loam(b(1.0e4), b(0.3));
    let s = 0.5 * (1.0 + r(m.sigma_min()));
    let f = lib(Mat2::from_diagonal(Vec2::splat(s)));
    let p = m.return_to_limits(undeformed(), f, &host());
    assert_eq!(r(p.plastic_volume_ratio), 1.0);
    assert_eq!(r(p.hardening_scale), 1.0);
}

#[test]
fn suction_falls_from_dry_to_saturated() {
    let mut m = NaccMaterial::soft_clay(b(5.0e4), b(0.3));
    m.saturation_cohesion_coeff = b(40.0);
    let bonus = |s: f32| r(m.cohesion_bonus_pa(b(s)));
    assert_eq!(bonus(0.0), 40.0);
    assert_eq!(bonus(-1.0), 40.0);
    assert_eq!(bonus(0.25), 30.0);
    assert_eq!(bonus(0.75), 10.0);
    assert_eq!(bonus(1.0), 0.0);
    assert_eq!(bonus(9.0), 0.0);
}

#[test]
fn loading_beyond_the_cap_only_compacts() {
    let m = NaccMaterial::new(b(3000.0), b(2000.0), b(1.2), b(0.0), b(2.0));
    for alpha in [0.0f32, -0.1, -0.3] {
        for s in [0.9f32, 0.7, 0.5] {
            let f = lib(Mat2::from_diagonal(Vec2::splat(s)));
            let (_, after) = m.project(f, b(alpha), b(0.0), &host());
            assert!(r(after) <= alpha, "alpha {alpha} stretch {s}: {}", r(after));
        }
    }
}

#[test]
fn hardening_solve_ends_on_its_bracket() {
    let m = NaccMaterial::new(b(3000.0), b(2000.0), b(1.2), b(0.0), b(2.0));
    // well outside the ellipse on the wet side: compressed and sheared
    let f = lib(Mat2::from_diagonal(Vec2::new(0.99, 0.72)));
    let (_, after) = m.project(f, b(-0.2), b(0.0), &host());
    assert!(r(after) < -0.2);
    assert!(r(after) > -0.6);
}

#[test]
fn patches_start_at_their_left_end() {
    let patch = C1Patch {
        rho_left: b(950.0),
        width: b(10.0),
        p0: b(-400.0),
        m0: b(2.0),
        p1: b(-300.0),
        m1: b(30.0),
    };
    assert_eq!(r(patch.value(b(950.0))), -400.0);
    assert_eq!(r(patch.derivative(b(950.0))), 2.0);
    assert_eq!(r(patch.value(b(0.0))), -400.0);
    let other = C1Patch { p1: b(-150.0), ..patch };
    assert_eq!(r(other.value(b(950.0))), -400.0);
    let flat = C1Patch { m1: b(2.0), ..patch };
    assert_eq!(r(flat.value(b(955.0))), -390.0);
}

#[test]
fn patches_end_at_their_right_end_and_stay_between() {
    let patch = C1Patch {
        rho_left: b(950.3),
        width: b(10.7),
        p0: b(-400.1),
        m0: b(2.3),
        p1: b(-300.7),
        m1: b(30.9),
    };
    assert_eq!(r(patch.value(patch.right())), -300.7);
    assert_eq!(r(patch.derivative(patch.right())), 30.9);
    let (lo, hi) = patch.derivative_extrema();
    assert_eq!((r(lo), r(hi)), (2.3, 30.9));
    for k in 0..200 {
        let rho = b(950.0 + 0.06 * k as f32);
        assert!(lo.le(patch.derivative(rho)) && patch.derivative(rho).le(hi));
        assert!(patch.p0.le(patch.value(rho)) && patch.value(rho).le(patch.p1));
    }
}

#[test]
fn each_branch_stiffens() {
    let i = branch_inputs();
    assert!(i.liquid_pressure(b(999.0)).le(i.liquid_pressure(b(1001.0))));
    assert_eq!(r(i.liquid_pressure(b(1001.0))), 180.0 * 180.0);
    let stiffness = i.stiffness();
    assert!(i.vapor_pressure(b(1.0), stiffness, &host()).le(
        i.vapor_pressure(b(2.0), stiffness, &host())
    ));
    let edges = MixtureJunctionEdges {
        rho_m_plus_kg_m3: b(996.0),
        rho_m_minus_kg_m3: b(4.0),
        c_min_m_s: b(1.0),
        p_v_gauge_pa: b(-97_000.0),
    };
    assert_eq!(r(edges.mixture_pressure_gauge(b(500.0), &host())), -97_000.0);
    let mut last = f32::NEG_INFINITY;
    for k in 0..100 {
        let p = r(edges.mixture_pressure_gauge(b(4.0 + 9.92 * k as f32), &host()));
        assert!(p >= last);
        last = p;
    }
}

#[test]
fn tables_do_not_extrapolate() {
    let table = CavitatingEosTable::build(
        b(1000.0),
        b(180.0),
        b(7.0),
        b(1000.0 / 6.0),
        b(1.33),
        b(1.0),
        b(280.0),
        &host(),
    );
    let at = |t: f32| table.interpolate_primitives_at_temperature(b(t));
    assert_eq!(at(100.0), at(280.0));
    assert_eq!(at(2000.0), at(r(table.t_max_k())));
    assert_eq!(at(280.0), table.nodes[0]);

    let m = BoilingMixtureMaterial::from_table(&table, b(0.01), b(0.0), b(0.5), b(4.0));
    let x = b(0.1);
    let rho = m.rho_eq_kg_m3(x);
    assert_eq!(r(m.pressure_gauge_pa(rho, x)), 0.0);
    assert!(b(0.0).lt(m.pressure_gauge_pa(rho.mul(b(1.5)), x)));
}

#[test]
fn gas_at_rest_is_ideal_and_vacuum_is_empty() {
    let m = GasMaterial::new(b(1.2), b(0.0), b(287.0), b(1.4), b(300.0));
    assert_eq!(r(m.isentropic_pressure(b(250.0), b(1.0))), 1.2 * 287.0 * 250.0);
    assert_eq!(r(m.isentropic_pressure(b(250.0), b(0.0))), 0.0);
}

#[test]
fn declared_lame_parameters_give_the_stress() {
    let m = CorotatedMaterial::new(b(1000.0), b(700.0));
    assert_eq!(m.corotated_lame_params(), Some((b(1000.0), b(700.0))));
    let mut p = undeformed();
    p.temperature = b(300.0);
    p.deformation_gradient = lib(Mat2::from_cols(Vec2::new(1.1, 0.2), Vec2::new(-0.1, 0.9)));
    let f = p.deformation_gradient;
    let expected = corotated_stress(
        b(700.0),
        b(1000.0),
        f,
        polar_decomposition_2d(f),
        f.determinant(),
    );
    assert_eq!(m.kirchhoff_stress(&p, &host()), expected);
    m.update_particle(&mut p, b(0.01), &host());
    assert_eq!(r(p.hardening_scale), 1.0);
}

#[test]
fn hydrostatic_ratio_carries_its_pressure() {
    let m = NewtonianFluidMaterial::new(b(1.0), b(0.0), b(1000.0), b(7.0));
    let j = m.hydrostatic_volume_ratio(b(200.0), &host()).unwrap();
    assert!(r(j) < 1.0);
    assert!((r(m.pressure(j, &host())) - 200.0).abs() < 0.05);
    assert_eq!(m.hydrostatic_volume_ratio(b(0.0), &host()), None);
    assert_eq!(m.hydrostatic_volume_ratio(b(-1.0), &host()), None);
}

#[test]
fn hotter_and_denser_gas_presses_more() {
    let m = GasMaterial::new(b(1.2), b(0.0), b(287.0), b(1.4), b(300.0));
    let cold = m.isentropic_pressure(b(250.0), b(1.0));
    assert!(cold.lt(m.isentropic_pressure(b(400.0), b(1.0))));
    assert!(cold.lt(m.isentropic_pressure(b(250.0), b(2.0))));
    assert!(cold.lt(m.isentropic_pressure(b(400.0), b(2.0))));
}

#[test]
fn closed_liquid_ends_below_its_rest_density() {
    let i = branch_inputs();
    assert!(b(0.0).lt(i.density_guard()));
    for t in [280.0f32, 300.0, 320.0] {
        assert_eq!(i.is_closed_at(b(t), &host()), Ok(true));
        let p_v = p_v_gauge_pa_at_temperature(b(t), &host());
        let eos = CavitatingEosParams::try_new(i, p_v, &host()).unwrap();
        assert!(eos.liquid_patch_outer_edge_kg_m3().le(i.rho_l_ref_kg_m3));
        assert_eq!(r(eos.pressure_gauge_pa(b(1000.0), &host())), 0.0);
    }
}

#[test]
fn a_band_as_narrow_as_rounding_has_no_patch() {
    let i = branch_inputs();
    let edges = MixtureJunctionEdges {
        rho_m_plus_kg_m3: b(1000.0),
        rho_m_minus_kg_m3: b(999.999_94),
        c_min_m_s: b(1.0),
        p_v_gauge_pa: b(0.0),
    };
    let none = Binary64::from_bits(0);
    for side in [Side::Liquid, Side::Vapor] {
        assert_eq!(
            i.build_junction_patch(side, none, &edges, i.stiffness(), &host()),
            Err(EosError::Patch)
        );
    }
}

#[test]
fn viscosities_follow_the_strain_rate() {
    let mut soil =
        GranularFluidMaterial::new(b(0.0), b(0.0), b(1.0), b(0.0), b(0.0), b(0.025));
    soil.dynamic_viscosity = b(3.0);
    let mut p = undeformed();
    p.velocity_gradient = lib(Mat2::from_cols(Vec2::new(0.0, 1.0), Vec2::new(1.0, 0.0)));
    let expected = Mat2::from_cols(Vec2::new(0.0, 3.0), Vec2::new(3.0, 0.0));
    assert_eq!(mat(soil.kirchhoff_stress(&p, &host())), expected);

    let mut mud = BinghamFluidMaterial::new(b(1.0), b(0.0), b(0.0), b(7.0), b(0.0));
    mud.bulk_viscosity = b(2.0);
    let mut p = undeformed();
    p.density = b(1.0);
    p.volume = b(1.0);
    p.velocity_gradient = lib(Mat2::IDENTITY);
    let expected = Mat2::from_diagonal(Vec2::splat(4.0));
    assert_eq!(mat(mud.kirchhoff_stress(&p, &host())), expected);
}

#[test]
fn cap_return_lands_on_the_hardened_cap() {
    let m = NaccMaterial::new(b(3000.0), b(2000.0), b(1.2), b(0.0), b(27.8));
    let (j, u) = m.cap_return(b(0.01), b(1.0), b(0.0), &host());
    assert!((r(j) - 0.010175).abs() < 1.0e-5, "{}", r(j));
    assert!((r(u) - 0.017308).abs() < 1.0e-5, "{}", r(u));
    let carried = 1000.0 * (1.0 - r(j) as f64 * r(j) as f64);
    let cap = 2000.0 * (1.0e-5 + (27.8f32 as f64 * r(u) as f64).sinh());
    assert!((carried - cap).abs() < 1.0e-3, "{carried} {cap}");
    // not beyond the cap: nothing to compact
    assert_eq!(m.cap_return(b(0.9), b(0.8), b(0.0), &host()), (b(0.8), b(0.0)));
}

#[test]
fn branches_that_do_not_join_are_refused() {
    let i = EosBranchInputs { c_l_m_s: b(500.0), c_min_m_s: b(0.1), ..branch_inputs() };
    assert_eq!(CavitatingEosParams::try_new(i, b(-100.0), &host()), Err(EosError::Joint));
    let eos = CavitatingEosParams::try_new(branch_inputs(), b(-97_788.0), &host()).unwrap();
    assert!(eos.is_continuous(b(1.0), &host()));
    assert!(eos.check(&host()));
}

#[test]
fn close_differences_and_small_multiples_are_exact() {
    for (x, y) in [(1000.0f32, 999.999_94f32), (3.7, 2.2), (0.1, 0.17)] {
        let d = b(x).sub(b(y));
        assert_eq!(r(d) as f64, x as f64 - y as f64);
        assert_eq!(r(b(y).add(d)), x);
    }
    for x in [1000.1f32, 3.3e-9, 7.7e30] {
        assert_eq!(4.0 * r(b(0.25).mul(b(x))) as f64, x as f64);
        assert_eq!(r(b(8.0).mul(b(x))) as f64, 8.0 * x as f64);
        let spacing = r(b(x).next().sub(b(x))) as f64;
        assert!(8_388_608.0 * spacing <= x as f64 && x as f64 <= 16_777_216.0 * spacing);
        let product = r(b(x).mul(b(0.3))) as f64;
        assert!((product - x as f64 * 0.3f32 as f64).abs() * 16_777_216.0 <= product);
        let sum = r(b(x).add(b(0.3))) as f64;
        assert!((sum - (x as f64 + 0.3f32 as f64)).abs() * 16_777_216.0 <= sum);
    }
}

#[test]
fn pressure_rises_over_the_whole_curve() {
    let i = branch_inputs();
    for p_v in [-100_000.0f32, -97_788.0, -60_000.0] {
        let eos = CavitatingEosParams::try_new(i, b(p_v), &host()).unwrap();
        let v = eos.patch_vapor_junction;
        let l = eos.patch_liquid_junction;
        // the pieces follow each other
        assert!(v.width.lt(v.rho_left));
        assert!(v.rho_left.le(eos.rho_m_minus_kg_m3) && eos.rho_m_minus_kg_m3.lt(v.right()));
        assert!(v.right().lt(l.rho_left));
        assert!(l.rho_left.lt(eos.rho_m_plus_kg_m3) && eos.rho_m_plus_kg_m3.le(l.right()));
        assert!(v.is_rising() && l.is_rising());
        // they meet in pressure and in slope
        assert_eq!(v.p0, i.vapor_pressure(v.rho_left, eos.b_pa, &host()));
        assert_eq!(v.m0, i.vapor_slope(v.rho_left, eos.b_pa, &host()));
        assert_eq!(v.p1, eos.band().mixture_pressure_gauge(v.right(), &host()));
        assert_eq!(l.p0, eos.band().mixture_pressure_gauge(l.rho_left, &host()));
        assert_eq!(l.p1, i.liquid_pressure(l.right()));
        assert_eq!(r(l.m1), 180.0 * 180.0);
        // the width of the band solves its relation
        let width = eos.rho_m_plus_kg_m3.sub(eos.rho_m_minus_kg_m3);
        let miss = |f: f32| r(i.mismatch(eos.b_pa, b(p_v), width.mul(b(f)), &host()));
        assert!(miss(0.999_99) > 0.0 && miss(1.000_01) < 0.0, "{p_v}");
        // the middle of the band is saturated
        let middle = eos.rho_m_plus_kg_m3.add(eos.rho_m_minus_kg_m3).div(b(2.0));
        assert_eq!(eos.branch(middle), Branch::Mixture);
        assert_eq!(r(eos.pressure_gauge_pa(middle, &host())), p_v);
        let mut last = f32::NEG_INFINITY;
        for k in 0..3000 {
            let p = r(eos.pressure_gauge_pa(b(0.37 * k as f32), &host()));
            assert!(p >= last, "{p_v} {k}");
            last = p;
        }
    }
}

#[test]
fn liquid_pressure_has_the_sound_slope() {
    let eos = CavitatingEosParams::try_new(branch_inputs(), b(-97_788.0), &host()).unwrap();
    let (x, y) = (b(1001.5), b(1040.25));
    assert_eq!(eos.branch(x), Branch::Liquid);
    let rise = r(eos.pressure_gauge_pa(y, &host())) - r(eos.pressure_gauge_pa(x, &host()));
    let c2 = r(eos.acoustic_c2_si(x, &host()));
    assert_eq!(c2, r(eos.acoustic_c2_si(y, &host())));
    assert_eq!(rise, c2 * (1040.25 - 1001.5));
    let l = eos.patch_liquid_junction;
    assert_eq!(eos.acoustic_c2_si(l.right(), &host()), l.m1);
}

#[test]
fn tables_meet_their_nodes_and_stay_between_them() {
    let table = CavitatingEosTable::try_build(branch_inputs(), b(280.0), &host()).unwrap();
    let last = table.node_count() - 1;
    let at = |t: Binary32| table.interpolate_primitives_at_temperature(t);
    for i in 0..last {
        let t = EosBranchInputs::node_temperature(
            table.t_min_k(),
            table.t_max_k(),
            i as u64,
            last as u64,
        );
        let (a, z) = (table.nodes[i], table.nodes[i + 1]);
        let got = at(t);
        let gap = r(got.rho_m_plus_kg_m3) - r(a.rho_m_plus_kg_m3);
        assert!(gap.abs() <= 1.0e-6 * r(a.rho_m_plus_kg_m3));
        let next = EosBranchInputs::node_temperature(
            table.t_min_k(),
            table.t_max_k(),
            i as u64 + 1,
            last as u64,
        );
        let between = at(b(0.5).mul(t.add(next)));
        let (lo, hi) = if a.rho_m_plus_kg_m3.le(z.rho_m_plus_kg_m3) {
            (a.rho_m_plus_kg_m3, z.rho_m_plus_kg_m3)
        } else {
            (z.rho_m_plus_kg_m3, a.rho_m_plus_kg_m3)
        };
        assert!(lo.le(between.rho_m_plus_kg_m3) && between.rho_m_plus_kg_m3.le(hi));
    }
    assert_eq!(at(table.t_min_k()), table.nodes[0]);
    let end = r(at(table.t_max_k()).rho_m_plus_kg_m3);
    assert!((end - r(table.nodes[last].rho_m_plus_kg_m3)).abs() <= 1.0e-4);
}

#[test]
fn granular_step_respects_its_limits() {
    let m = GranularFluidMaterial::saturated_loam(b(1.0e4), b(0.3));
    let mut p = undeformed();
    p.volume = b(1.0);
    p.velocity_gradient = lib(Mat2::from_diagonal(Vec2::new(40.0, -30.0)));
    let mut q = p;
    m.update_particle(&mut q, b(0.01), &host());
    let (_, sigma, _) = svd(mat(q.deformation_gradient));
    assert!(sigma.x <= r(m.sigma_max()) + 1.0e-6 && sigma.y >= r(m.sigma_min()) - 1.0e-6);
    assert!(m.min_plastic_jacobian.le(q.plastic_volume_ratio));
    assert!(q.plastic_volume_ratio.le(m.max_plastic_jacobian));
    assert!(r(q.hardening_scale) >= 1.0 && r(q.hardening_scale) <= 7.0);
    assert_eq!(q.density, p.mass.div(q.volume));
}

#[test]
fn rounding_is_at_most_one_part_in_two_to_the_23() {
    let part = 1.0 / 8_388_608.0f64;
    for (x, y) in [(1.1f32, 3.3f32), (-7.7e5, 0.03), (9.9e-12, -4.4e9), (1.0e8, 1.0)] {
        let (a, c) = (x as f64, y as f64);
        let near = |got: Binary32, exact: f64| (r(got) as f64 - exact).abs() <= part * exact.abs();
        assert!(near(b(x).add(b(y)), a + c));
        assert!(near(b(x).sub(b(y)), a - c));
        assert!(near(b(x).mul(b(y)), a * c));
        assert!(near(b(x).div(b(y)), a / c));
        assert_eq!(r(b(x).to_double().to_single()), x);
    }
}

#[test]
fn patches_pass_on_what_is_no_number() {
    let patch = C1Patch {
        rho_left: b(950.0),
        width: b(10.0),
        p0: b(-400.0),
        m0: b(2.0),
        p1: b(-300.0),
        m1: b(30.0),
    };
    assert!(patch.value(b(f32::NAN)).is_nan());
    assert!(patch.derivative(b(f32::NAN)).is_nan());
    // flat: one slope, whatever the density
    let flat = C1Patch { m1: b(2.0), ..patch };
    assert!(flat.value(b(f32::NAN)).is_nan());
    assert_eq!(r(flat.derivative(b(f32::NAN))), 2.0);
}

#[test]
fn a_patch_narrower_than_the_spacing_starts_with_its_left_end() {
    let patch = C1Patch {
        rho_left: b(1000.0),
        width: b(1.0e-6),
        p0: b(5.0),
        m0: b(2.0),
        p1: b(5.1),
        m1: b(30.0),
    };
    assert_eq!(r(patch.right()), 1000.0);
    assert_eq!(r(patch.value(b(1000.0))), 5.0);
    assert_eq!(r(patch.derivative(b(1000.0))), 2.0);
    assert_eq!(r(patch.value(b(1001.0))), 5.1);
}

#[test]
fn only_the_patch_that_holds_a_density_is_evaluated() {
    let mut eos = CavitatingEosParams::try_new(branch_inputs(), b(-97_788.0), &host()).unwrap();
    let before = eos.pressure_gauge_pa(b(1010.0), &host());
    eos.patch_vapor_junction.width = b(-1.0);
    eos.patch_liquid_junction.width = b(-1.0);
    assert_eq!(eos.pressure_gauge_pa(b(1010.0), &host()), before);
    assert_eq!(r(eos.acoustic_c2_si(b(1010.0), &host())), 180.0 * 180.0);
}

#[test]
fn patch_pressure_rises_up_to_rounding() {
    let eos = CavitatingEosParams::try_new(branch_inputs(), b(-97_788.0), &host()).unwrap();
    for patch in [eos.patch_vapor_junction, eos.patch_liquid_junction] {
        let slopes = (r(patch.m0) + r(patch.m1) + 1.0) * (1.0 + r(patch.width)).powi(2);
        let slack = (8.0 * r(patch.p0).abs() + 80.0 * slopes) / 8_388_608.0;
        assert!(slack < 1.0);
        let mut last = r(patch.p0);
        let mut rho = patch.rho_left;
        while rho.le(patch.right()) {
            let p = r(patch.value(rho));
            assert!(p >= last - slack);
            assert!(r(patch.p0) <= p && p <= r(patch.p1));
            last = p;
            rho = rho.next();
        }
    }
}

#[test]
fn recorded_reaches_are_positive_and_short() {
    let i = branch_inputs();
    for t in [280.0f32, 300.0, 320.0] {
        let q = i.primitives_at_temperature(b(t), &host()).unwrap();
        let p_v = p_v_gauge_pa_at_temperature(b(t), &host());
        let eos = CavitatingEosParams::try_new(i, p_v, &host()).unwrap();
        assert_eq!(q.rho_m_plus_kg_m3, eos.rho_m_plus_kg_m3);
        assert_eq!(q.rho_m_minus_kg_m3, eos.rho_m_minus_kg_m3);
        let band = r(q.rho_m_plus_kg_m3) - r(q.rho_m_minus_kg_m3);
        for reach in [q.delta_mix_liquid_kg_m3, q.delta_mix_vapor_kg_m3] {
            assert!(0.0 < r(reach) && 10.0 * r(reach) <= band + 0.002, "{t}");
        }
    }
}

#[test]
fn vapor_and_mixture_have_the_sound_slope() {
    let eos = CavitatingEosParams::try_new(branch_inputs(), b(-97_788.0), &host()).unwrap();
    for rho in [90.0f32, 120.0, 300.0, 500.0, 900.0] {
        let c2 = r(eos.acoustic_c2_si(b(rho), &host()));
        let high = r(eos.pressure_gauge_pa(b(rho + 0.5), &host()));
        let low = r(eos.pressure_gauge_pa(b(rho - 0.5), &host()));
        assert!((high - low - c2).abs() < 0.05 * c2.max(1.0), "{rho}: {} {c2}", high - low);
    }
}

#[test]
fn hydrostatic_ratio_is_a_compression() {
    let m = NewtonianFluidMaterial::new(b(1.0), b(0.0), b(100.0), b(1.0));
    assert_eq!(m.hydrostatic_volume_ratio(b(100.0), &host()), Some(b(0.5)));
    let m = NewtonianFluidMaterial::new(b(1.0), b(0.0), b(1000.0), b(7.0));
    for p in [0.1f32, 10.0, 1.0e6] {
        let j = r(m.hydrostatic_volume_ratio(b(p), &host()).unwrap());
        assert!(0.0 < j && j < 1.0);
    }
    // not felt next to one
    assert_eq!(m.hydrostatic_volume_ratio(b(1.0e-6), &host()), Some(b(1.0)));
}

#[test]
fn the_softest_mixture_is_a_pure_phase() {
    let table = CavitatingEosTable::try_build(branch_inputs(), b(280.0), &host()).unwrap();
    let least = r(table.measure_min_c2());
    let c_l2 = table.c_l_m_s.mul(table.c_l_m_s);
    for k in 0..1000 {
        let c2 = c_mix2_m2_s2(
            b(k as f32 / 999.0),
            table.rho_l_ref_kg_m3,
            c_l2,
            table.rho_v_ref_kg_m3,
            table.vapor_c2(),
        );
        assert!(r(c2) >= least * (1.0 - 32.0 / 8_388_608.0));
    }
    assert!((least - r(c_l2).min(r(table.vapor_c2()))).abs() <= 1.0e-4 * least);
}

#[test]
fn a_soil_remembers_the_cap_it_was_returned_to() {
    let m = NaccMaterial::new(b(3000.0), b(2000.0), b(1.2), b(0.0), b(27.8));
    let squeezed = lib(Mat2::from_diagonal(Vec2::splat(0.9)));
    let (f, alpha) = m.project(squeezed, b(-0.001), b(0.0), &host());
    assert!(r(alpha) < -0.001);
    let s = mat(f).x_axis.length();
    for ease in [1.0001f32, 1.001, 1.01] {
        let eased = lib(Mat2::from_diagonal(Vec2::splat(s * ease)));
        let (g, kept) = m.project(eased, alpha, b(0.0), &host());
        assert_eq!(kept, alpha);
        assert_eq!(mat(g), mat(eased));
    }
    // the returned state itself, up to rounding
    let (_, again) = m.project(f, alpha, b(0.0), &host());
    assert!((r(again) - r(alpha)).abs() <= 1.0e-6);
}
