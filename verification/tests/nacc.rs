use glam::{Mat2, Vec2};
use matter::binary::double::Binary64;
use matter::binary::single::Binary32;
use matter::linalg;
use matter::numerics::{Host, Numerics, Unary};

fn b(x: f32) -> Binary32 {
    Binary32::from_bits(x.to_bits())
}

fn r(x: Binary32) -> f32 {
    f32::from_bits(x.to_bits())
}

fn lib(m: Mat2) -> linalg::Mat2 {
    linalg::Mat2::from_cols(
        linalg::Vec2::new(b(m.x_axis.x), b(m.x_axis.y)),
        linalg::Vec2::new(b(m.y_axis.x), b(m.y_axis.y)),
    )
}

fn mat(m: linalg::Mat2) -> Mat2 {
    Mat2::from_cols(
        Vec2::new(r(m.x_axis.x), r(m.x_axis.y)),
        Vec2::new(r(m.y_axis.x), r(m.y_axis.y)),
    )
}

fn single(f: Unary, x: f32) -> f32 {
    match f {
        Unary::Exp => x.exp(),
        Unary::Ln => x.ln(),
        Unary::Sinh => x.sinh(),
        Unary::Asin => x.asin(),
    }
}

fn double(f: Unary, x: f64) -> f64 {
    match f {
        Unary::Exp => x.exp(),
        Unary::Ln => x.ln(),
        Unary::Sinh => x.sinh(),
        Unary::Asin => x.asin(),
    }
}

/// Antoine's equation for water, in Pa.
fn saturation_pressure(temperature_k: f32) -> f32 {
    let celsius = temperature_k as f64 - 273.15;
    let mmhg = 10.0_f64.powf(8.07131 - 1730.63 / (233.426 + celsius));
    (mmhg * 133.322) as f32
}

/// The exponential of a 2x2 matrix.
fn exponential(m: Mat2) -> Mat2 {
    let (xx, xy, yx, yy) = (
        m.x_axis.x as f64,
        m.x_axis.y as f64,
        m.y_axis.x as f64,
        m.y_axis.y as f64,
    );
    let mean = 0.5 * (xx + yy);
    let (axx, ayy) = (xx - mean, yy - mean);
    let square = axx * axx + xy * yx;
    let (c, s) = if square > 0.0 {
        let w = square.sqrt();
        (w.cosh(), w.sinh() / w)
    } else if square < 0.0 {
        let w = (-square).sqrt();
        (w.cos(), w.sin() / w)
    } else {
        (1.0, 1.0)
    };
    let e = mean.exp();
    Mat2::from_cols(
        Vec2::new((e * (c + s * axx)) as f32, (e * s * xy) as f32),
        Vec2::new((e * s * yx) as f32, (e * (c + s * ayy)) as f32),
    )
}

/// Singular values in descending order, with rotations on both sides.
fn svd(m: Mat2) -> (Mat2, Vec2, Mat2) {
    let (a, c, bb, d) = (
        m.x_axis.x as f64,
        m.x_axis.y as f64,
        m.y_axis.x as f64,
        m.y_axis.y as f64,
    );
    let (e, f, g, h) = ((a + d) / 2.0, (a - d) / 2.0, (c + bb) / 2.0, (c - bb) / 2.0);
    let (q, p) = (e.hypot(h), f.hypot(g));
    let (a1, a2) = (g.atan2(f), h.atan2(e));
    let (theta, phi) = ((a2 - a1) / 2.0, (a2 + a1) / 2.0);
    let rot = |t: f64| {
        Mat2::from_cols(
            Vec2::new(t.cos() as f32, t.sin() as f32),
            Vec2::new(-t.sin() as f32, t.cos() as f32),
        )
    };
    (rot(phi), Vec2::new((q + p) as f32, (q - p) as f32), rot(theta))
}

fn host() -> impl Numerics {
    Host::new(
        |x: Binary32, y: Binary32| b(r(x).powf(r(y))),
        |x: Binary32, y: Binary32| b(r(x).powf(r(y))),
        |f: Unary, x: Binary32| b(single(f, r(x))),
        |f: Unary, x: Binary64| {
            Binary64::from_bits(double(f, f64::from_bits(x.to_bits())).to_bits())
        },
        |t: Binary32| b(saturation_pressure(r(t))),
        |m: linalg::Mat2| lib(exponential(mat(m))),
        |f: linalg::Mat2, step: linalg::Mat2, _v: Binary32, _v0: Binary32| {
            lib(exponential(mat(step)) * mat(f))
        },
        |m: linalg::Mat2| {
            let (u, s, vt) = svd(mat(m));
            (lib(u), linalg::Vec2::new(b(s.x), b(s.y)), lib(vt))
        },
        |x: Binary32, rho: Binary32, c: matter::particle::SimConfig| {
            b(r(x) / (r(rho) * r(c.dx_meters) * r(c.dx_meters)))
        },
        |x: Binary32, rho: Binary32, c: matter::particle::SimConfig| {
            b(r(x) / (r(rho) * r(c.dx_meters) * r(c.dx_meters)))
        },
    )
}
use matter::mechanics::Elastic;
use matter::model::{MaterialModel, Response};
use matter::nacc::{NaccMaterial, NaccMaterialParams, NaccProps, Region};
use matter::particle::{Particle, SimConfig};

fn soil(mu: f32, kappa: f32, friction: f32, cohesion: f32, xi: f32) -> NaccMaterial {
    NaccMaterial::new(b(mu), b(kappa), b(friction), b(cohesion), b(xi))
}

fn project(m: &NaccMaterial, f: Mat2, alpha: f32, bonus: f32) -> (Mat2, f32) {
    let (g, a) = m.project(lib(f), b(alpha), b(bonus), &host());
    (mat(g), r(a))
}

fn rate_particle(f: Mat2, alpha: f32) -> Particle {
    let mut p = Particle::zeroed();
    p.deformation_gradient = lib(f);
    p.mass = b(1.0);
    p.initial_volume = b(1.0);
    p.log_volume_strain = b(alpha);
    p
}

fn run_rate_step(m: &NaccMaterial, p: &mut Particle, rate: Mat2, dt: f32) {
    p.velocity_gradient = lib(rate);
    m.update_particle(p, b(dt), &host());
}

fn matrix_error(x: Mat2, y: Mat2) -> f32 {
    (x.x_axis - y.x_axis).length() + (x.y_axis - y.y_axis).length()
}

fn pressure_from_j(kappa: f32, j: f32) -> f32 {
    let psi_kappa = kappa * 0.5 * (j - j.recip());
    -psi_kappa * j
}

fn det(p: &Particle) -> f32 {
    mat(p.deformation_gradient).determinant()
}

#[test]
fn compression_cap_projects_exactly_to_p0() {
    let m = soil(3000.0, 2000.0, 1.2, 0.0, 0.0);
    let kappa = r(m.kappa);
    let p0 = kappa * 1.0e-5;
    let j_trial = 0.5_f32;
    let f = Mat2::from_diagonal(Vec2::splat(j_trial.sqrt()));
    let p_trial = pressure_from_j(kappa, j_trial);
    assert!(p_trial > p0);
    let (f_after, _alpha_after) = project(&m, f, 0.0, 0.0);
    let p_after = pressure_from_j(kappa, f_after.determinant());
    assert!((p_after - p0).abs() < 1.0e-2, "p0={p0:.6}, got {p_after:.6}");
}

#[test]
fn rigid_rotation_preserves_volume_and_cam_clay_history() {
    let m = NaccMaterial::soft_clay(b(5.0e4), b(0.3));
    let mut p = rate_particle(Mat2::IDENTITY, 0.0);
    let omega = 1.7;
    let dt = 0.2;
    let spin = Mat2::from_cols(Vec2::new(0.0, omega), Vec2::new(-omega, 0.0));
    run_rate_step(&m, &mut p, spin, dt);
    let expected = Mat2::from_angle(omega * dt);
    assert!(matrix_error(mat(p.deformation_gradient), expected) < 3.0e-6);
    assert!((det(&p) - 1.0).abs() < 2.0e-6);
    assert!(r(p.log_volume_strain).abs() < 1.0e-6);
}

#[test]
fn opposite_subcap_rates_are_reversible_without_alpha_ratchet() {
    let m = soil(3000.0, 2000.0, 1.2, 0.0, 2.0);
    let alpha = -0.1;
    let baseline = Mat2::from_diagonal(Vec2::splat(0.95));
    let mut p = rate_particle(baseline, alpha);
    let rate = Mat2::from_diagonal(Vec2::new(0.001, -0.001));
    run_rate_step(&m, &mut p, rate, 1.0);
    assert!((r(p.log_volume_strain) - alpha).abs() < 1.0e-6);
    run_rate_step(&m, &mut p, -rate, 1.0);
    assert!(matrix_error(mat(p.deformation_gradient), baseline) < 3.0e-6);
    assert!((r(p.log_volume_strain) - alpha).abs() < 1.0e-6);
}

#[test]
fn exponential_trial_respects_both_sides_of_compression_cap() {
    let m = soil(3000.0, 2000.0, 1.2, 0.0, 2.0);
    let (kappa, xi) = (r(m.kappa), r(m.hardening_factor));
    let alpha = -0.1;
    let p0 = kappa * (1.0e-5 + (xi * -alpha).sinh());
    let j_cap = (1.0 - 2.0 * p0 / kappa).sqrt();
    let dt = 0.1;

    let j_inside = j_cap + 1.0e-4;
    let sigma_inside = j_inside.sqrt();
    let mut inside = rate_particle(Mat2::IDENTITY, alpha);
    let inside_rate = Mat2::from_diagonal(Vec2::splat(sigma_inside.ln() / dt));
    run_rate_step(&m, &mut inside, inside_rate, dt);
    assert!((det(&inside) - j_inside).abs() < 3.0e-6);
    assert!((r(inside.log_volume_strain) - alpha).abs() < 1.0e-6);

    let j_outside = j_cap - 1.0e-4;
    let sigma_outside = j_outside.sqrt();
    let mut outside = rate_particle(Mat2::IDENTITY, alpha);
    let outside_rate = Mat2::from_diagonal(Vec2::splat(sigma_outside.ln() / dt));
    run_rate_step(&m, &mut outside, outside_rate, dt);
    let j_after = det(&outside);
    let alpha_after = r(outside.log_volume_strain);
    let p0_after = kappa * (1.0e-5 + (xi * -alpha_after).sinh());
    let p_after = pressure_from_j(kappa, j_after);
    assert!(
        j_after < j_cap && j_after > j_outside - 3.0e-6,
        "trial J={j_outside} old cap J={j_cap}, got {j_after}"
    );
    assert!((p_after - p0_after).abs() <= 1.0e-3 * p0_after, "p={p_after} p0={p0_after}");
    assert!(alpha_after < alpha);
}

#[test]
fn small_elastic_strain_is_not_projected() {
    let m = soil(3000.0, 2000.0, 1.2, 0.0, 2.0);
    let alpha = -1.0;
    let f = Mat2::from_diagonal(Vec2::new(0.99895, 0.99905));
    let (f_after, alpha_after) = project(&m, f, alpha, 0.0);
    assert!((f_after - f).x_axis.length() < 1.0e-6 && (f_after - f).y_axis.length() < 1.0e-6);
    assert_eq!(alpha_after, alpha);
    assert_eq!(f_after, f);
}

#[test]
fn virgin_loading_keeps_p0_equal_to_the_carried_pressure() {
    for xi in [0.5_f32, 2.0, 27.8] {
        let m = soil(3000.0, 2000.0, 1.2, 0.0, xi);
        let kappa = r(m.kappa);
        let (mut f, mut alpha) = (Mat2::IDENTITY, 0.0_f32);
        for step in 0..40 {
            f = Mat2::from_diagonal(Vec2::splat(0.9995)) * f;
            (f, alpha) = project(&m, f, alpha, 0.0);
            let p = pressure_from_j(kappa, f.determinant());
            let p0 = kappa * (1.0e-5 + (xi * (-alpha).max(0.0)).sinh());
            assert!((p0 - p).abs() <= 1.0e-3 * p, "xi={xi} step {step}: p0={p0} p={p}");
        }
    }
}

fn p_and_shear(m: &NaccMaterial, f: Mat2) -> (f32, f32) {
    let (_, sigma, _) = svd(f);
    let sv_sq = Vec2::new(sigma.x * sigma.x, sigma.y * sigma.y);
    let j = sigma.x * sigma.y;
    let s = r(m.mu) / j * (sv_sq - Vec2::splat((sv_sq.x + sv_sq.y) * 0.5));
    (pressure_from_j(r(m.kappa), j), s.length())
}

fn p0_through(m: &NaccMaterial, p: f32, shear: f32) -> f32 {
    let friction = r(m.friction);
    p + 2.0 * shear * shear / (friction * friction * p)
}

#[test]
fn wet_side_shear_lands_on_the_hardened_surface() {
    for xi in [2.0_f32, 27.8] {
        let m = soil(3000.0, 2000.0, 1.2, 0.0, xi);
        let mut fixed = m;
        fixed.hardening_enabled = false;
        let kappa = r(m.kappa);
        for (x, y) in [(0.985_f32, 0.975_f32), (0.99, 0.965), (0.995, 0.96)] {
            let f = Mat2::from_diagonal(Vec2::new(x, y));
            let (p_tr, _) = p_and_shear(&m, f);
            let p0_start = 1.3 * p_tr;
            let alpha = -((p0_start / kappa - 1.0e-5).asinh()) / xi;

            let (f_after, alpha_after) = project(&m, f, alpha, 0.0);
            let (p, shear) = p_and_shear(&m, f_after);
            let p0 = kappa * (1.0e-5 + (xi * (-alpha_after).max(0.0)).sinh());
            let hardened_miss = (p0 / p0_through(&m, p, shear) - 1.0).abs();

            let (f_fixed, _) = project(&fixed, f, alpha, 0.0);
            let (pf, sf) = p_and_shear(&m, f_fixed);
            let projection_miss = (p0_start / p0_through(&m, pf, sf) - 1.0).abs();

            assert!(alpha_after < alpha, "the wet side must harden");
            assert!(
                hardened_miss <= projection_miss + 1.0e-4,
                "xi={xi} F=diag({x}, {y}): {hardened_miss} vs {projection_miss}"
            );
        }
    }
}

#[test]
fn reloading_is_elastic_until_the_previous_maximum() {
    let m = soil(3000.0, 2000.0, 1.2, 0.0, 2.0);
    let kappa = r(m.kappa);
    let squeeze = Mat2::from_diagonal(Vec2::splat(0.9995));
    let release = Mat2::from_diagonal(Vec2::splat(0.9995_f32.recip()));
    let (mut f, mut alpha) = (Mat2::IDENTITY, 0.0_f32);
    for _ in 0..40 {
        (f, alpha) = project(&m, squeeze * f, alpha, 0.0);
    }
    let alpha_max_load = alpha;
    for _ in 0..20 {
        (f, alpha) = project(&m, release * f, alpha, 0.0);
    }
    for _ in 0..20 {
        (f, alpha) = project(&m, squeeze * f, alpha, 0.0);
    }
    assert!((alpha - alpha_max_load).abs() < 1.0e-6, "alpha {alpha_max_load} -> {alpha}");
    (f, alpha) = project(&m, squeeze * squeeze * f, alpha, 0.0);
    let p = pressure_from_j(kappa, f.determinant());
    let p0 = kappa * (1.0e-5 + (r(m.hardening_factor) * (-alpha).max(0.0)).sinh());
    assert!(alpha < alpha_max_load);
    assert!((p0 - p).abs() <= 1.0e-3 * p, "p0={p0} p={p}");
}

#[test]
fn peat_hardens_slower_than_wet_soil_after_the_same_prior_compaction() {
    let peat = NaccMaterial::peat(b(3000.0), b(0.3));
    let wet_soil = NaccMaterial::wet_soil(b(3000.0), b(0.3));
    assert!(r(peat.hardening_factor) < r(wet_soil.hardening_factor));
    let n = host();
    let peat_p0 = r(peat.preconsolidation_pressure(b(-1.0), &n));
    let wet_soil_p0 = r(wet_soil.preconsolidation_pressure(b(-1.0), &n));
    assert!(peat_p0 < wet_soil_p0, "peat_p0={peat_p0} wet_soil_p0={wet_soil_p0}");
}

#[test]
fn nacc_nonzero_elastic_viscosity_adds_a_real_viscous_stress_term() {
    let elastic_only = soil(3000.0, 5000.0, 0.5, 0.0, 0.0);
    let mut damped = elastic_only;
    damped.elastic_viscosity = b(50.0);
    let mut p = Particle::zeroed();
    p.deformation_gradient = lib(Mat2::IDENTITY);
    p.velocity_gradient = lib(Mat2::from_cols(Vec2::new(0.0, 1.0), Vec2::new(1.0, 0.0)));
    let n = host();
    let diff = mat(damped.kirchhoff_stress(&p, &n)) - mat(elastic_only.kirchhoff_stress(&p, &n));
    let max_abs = diff.x_axis.abs().max_element().max(diff.y_axis.abs().max_element());
    assert!(max_abs > 1.0e-6);
}

#[test]
fn nacc_zero_elastic_viscosity_ignores_the_velocity_gradient() {
    let m = soil(3000.0, 5000.0, 0.5, 0.0, 0.0);
    assert_eq!(r(m.elastic_viscosity), 0.0);
    let mut p_rest = Particle::zeroed();
    p_rest.deformation_gradient =
        lib(Mat2::from_cols(Vec2::new(1.05, 0.02), Vec2::new(0.01, 0.97)));
    let mut p_shearing = p_rest;
    p_shearing.velocity_gradient =
        lib(Mat2::from_cols(Vec2::new(0.3, -0.1), Vec2::new(0.2, 0.4)));
    let n = host();
    assert_eq!(m.kirchhoff_stress(&p_rest, &n), m.kirchhoff_stress(&p_shearing, &n));
}

#[test]
fn zero_coefficient_is_inert_at_any_saturation() {
    let m = soil(3000.0, 2000.0, 1.2, 0.0, 0.0);
    assert_eq!(r(m.saturation_cohesion_coeff), 0.0);
    for sr in [0.0, 0.25, 0.5, 0.75, 1.0] {
        assert_eq!(r(m.cohesion_bonus_pa(b(sr))), 0.0);
    }
}

fn sticky() -> NaccMaterial {
    NaccMaterial { saturation_cohesion_coeff: b(500.0), ..soil(3000.0, 2000.0, 1.2, 0.0, 0.0) }
}

#[test]
fn cohesion_bonus_decreases_monotonically_with_saturation() {
    let bonus = |sr: f32| r(sticky().cohesion_bonus_pa(b(sr)));
    assert_eq!(bonus(0.0), 500.0);
    assert_eq!(bonus(1.0), 0.0);
    let mid = bonus(0.5);
    assert!(mid > 0.0 && mid < 500.0, "got {mid}");
    assert!(bonus(0.25) > bonus(0.75));
    assert_eq!(bonus(-3.0), 500.0);
    assert_eq!(bonus(7.0), 0.0);
}

#[test]
fn dry_apparent_cohesion_holds_a_tension_state_wet_cannot() {
    let m = sticky();
    let f = Mat2::from_diagonal(Vec2::splat(1.001));
    let wet_bonus = r(m.cohesion_bonus_pa(b(1.0)));
    let dry_bonus = r(m.cohesion_bonus_pa(b(0.0)));
    assert_eq!(wet_bonus, 0.0);
    assert_eq!(dry_bonus, 500.0);
    let (f_wet, _) = project(&m, f, 0.0, wet_bonus);
    let (f_dry, _) = project(&m, f, 0.0, dry_bonus);
    assert_ne!(f_wet, f);
    assert_eq!(f_dry, f);
}

fn clay(e: f32, nu: f32, rho: f32, friction: f32, xi: f32) -> NaccProps {
    NaccProps {
        elastic: Elastic { e_pa: b(e), nu: b(nu), rho_kg_m3: b(rho) },
        friction: b(friction),
        cohesion: b(0.0),
        hardening_factor: b(xi),
    }
}

fn earth(dx: f32, dt: f32) -> SimConfig {
    SimConfig { dx_meters: b(dx), dt_seconds: b(dt), reference_density_kg_m3: b(1000.0) }
}

#[test]
fn from_physical_is_dt_independent() {
    let props = clay(5.0e6, 0.3, 1600.0, 1.0, 2.0);
    let n = host();
    let mat_a = NaccMaterial::from_physical(&props, &earth(0.01, 0.1), &n);
    let mat_b = NaccMaterial::from_physical(&props, &earth(0.01, 0.001), &n);
    assert_eq!(mat_a.mu, mat_b.mu);
    assert_eq!(mat_a.kappa, mat_b.kappa);
    assert_eq!(mat_a.friction, props.friction);
    assert_eq!(mat_a.cohesion, props.cohesion);
    assert_eq!(mat_a.hardening_factor, props.hardening_factor);
}

#[test]
fn from_physical_matches_scale_lame_plus_plane_strain_kappa() {
    let props = clay(1.0e6, 0.25, 1000.0, 1.2, 3.0);
    let config = earth(0.01, 0.05);
    let n = host();
    let m = NaccMaterial::from_physical(&props, &config, &n);
    let (lambda, mu) = props.elastic.scale_lame(&config, &n);
    assert_eq!(m.mu, mu);
    assert_eq!(r(m.kappa), r(lambda) + r(mu));
}

#[test]
fn trial_states_are_told_apart() {
    let m = soil(3000.0, 2000.0, 1.2, 0.0, 2.0);
    let n = host();
    let at = |x: f32, y: f32, alpha: f32| {
        let t = m.trial(lib(Mat2::from_diagonal(Vec2::new(x, y))), b(alpha), b(0.0), &n);
        m.region(&t)
    };
    assert_eq!(at(0.9, 0.9, 0.0), Region::Cap);
    assert_eq!(at(1.1, 1.1, 0.0), Region::Tip);
    assert_eq!(at(0.99905, 0.99895, -1.0), Region::Inside);
    assert_eq!(at(1.05, 0.93, -0.1), Region::Outside);
}

#[test]
fn a_soil_without_hardening_keeps_its_history() {
    let m = soil(3000.0, 2000.0, 1.2, 0.0, 0.0);
    for (x, y) in [(0.8, 0.8), (1.2, 1.2), (1.1, 0.9), (1.0, 1.0)] {
        let (_, alpha) = project(&m, Mat2::from_diagonal(Vec2::new(x, y)), -0.25, 0.0);
        assert_eq!(alpha, -0.25);
    }
}

#[test]
fn nacc_answers_and_parameters() {
    let m = NaccMaterial::from_params(NaccMaterialParams {
        mu: b(3.0),
        kappa: b(5.0),
        friction: b(1.5),
        cohesion: b(0.25),
        hardening_factor: b(2.0),
    });
    assert!(m.hardening_enabled);
    assert!(m.needs_cpu_update());
    assert!(m.gpu_unsupported_reason().is_some_and(|s| s.starts_with("NaccMaterial")));
    let params = m.params();
    assert_eq!(params.model, 2);
    assert_eq!((r(params.lambda), r(params.mu)), (2.0, 3.0));
    assert_eq!(
        (r(params.hardening_exponent), r(params.compression_limit), r(params.stretch_limit)),
        (2.0, 0.25, 1.5)
    );
    let presets = [
        (NaccMaterial::soft_clay(b(1.0), b(0.0)), 1.2, 2.0),
        (NaccMaterial::wet_soil(b(1.0), b(0.0)), 1.0, 3.0),
        (NaccMaterial::low_hardening(b(1.0), b(0.0)), 1.5, 1.0),
        (NaccMaterial::peat(b(1.0), b(0.0)), 1.2, 0.5),
    ];
    for (p, friction, xi) in presets {
        assert_eq!((r(p.friction), r(p.hardening_factor)), (friction, xi));
        assert_eq!((r(p.mu), r(p.kappa)), (0.5, 0.5));
    }
    let mut p = Particle::zeroed();
    p.log_volume_strain = b(-2.0);
    m.init_particle(&mut p);
    assert_eq!(r(p.log_volume_strain), 0.0);
}
