use glam::{Mat2, Vec2};
use matter::binary::double::Binary64;
use matter::binary::single::Binary32;
use matter::linalg;
use matter::numerics::{Host, Numerics, Unary};

fn b(x: f32) -> Binary32 {
    Binary32::from_bits(x.to_bits())
}

fn r(x: Binary32) -> f32 {
    f32::from_bits(x.to_bits())
}

fn lib(m: Mat2) -> linalg::Mat2 {
    linalg::Mat2::from_cols(
        linalg::Vec2::new(b(m.x_axis.x), b(m.x_axis.y)),
        linalg::Vec2::new(b(m.y_axis.x), b(m.y_axis.y)),
    )
}

fn mat(m: linalg::Mat2) -> Mat2 {
    Mat2::from_cols(
        Vec2::new(r(m.x_axis.x), r(m.x_axis.y)),
        Vec2::new(r(m.y_axis.x), r(m.y_axis.y)),
    )
}

fn single(f: Unary, x: f32) -> f32 {
    match f {
        Unary::Exp => x.exp(),
        Unary::Ln => x.ln(),
        Unary::Sinh => x.sinh(),
        Unary::Asin => x.asin(),
    }
}

fn double(f: Unary, x: f64) -> f64 {
    match f {
        Unary::Exp => x.exp(),
        Unary::Ln => x.ln(),
        Unary::Sinh => x.sinh(),
        Unary::Asin => x.asin(),
    }
}

/// Antoine's equation for water, in Pa.
fn saturation_pressure(temperature_k: f32) -> f32 {
    let celsius = temperature_k as f64 - 273.15;
    let mmhg = 10.0_f64.powf(8.07131 - 1730.63 / (233.426 + celsius));
    (mmhg * 133.322) as f32
}

/// The exponential of a 2x2 matrix.
fn exponential(m: Mat2) -> Mat2 {
    let (xx, xy, yx, yy) = (
        m.x_axis.x as f64,
        m.x_axis.y as f64,
        m.y_axis.x as f64,
        m.y_axis.y as f64,
    );
    let mean = 0.5 * (xx + yy);
    let (axx, ayy) = (xx - mean, yy - mean);
    let square = axx * axx + xy * yx;
    let (c, s) = if square > 0.0 {
        let w = square.sqrt();
        (w.cosh(), w.sinh() / w)
    } else if square < 0.0 {
        let w = (-square).sqrt();
        (w.cos(), w.sin() / w)
    } else {
        (1.0, 1.0)
    };
    let e = mean.exp();
    Mat2::from_cols(
        Vec2::new((e * (c + s * axx)) as f32, (e * s * xy) as f32),
        Vec2::new((e * s * yx) as f32, (e * (c + s * ayy)) as f32),
    )
}

/// Singular values in descending order, with rotations on both sides.
fn svd(m: Mat2) -> (Mat2, Vec2, Mat2) {
    let (a, c, bb, d) = (
        m.x_axis.x as f64,
        m.x_axis.y as f64,
        m.y_axis.x as f64,
        m.y_axis.y as f64,
    );
    let (e, f, g, h) = ((a + d) / 2.0, (a - d) / 2.0, (c + bb) / 2.0, (c - bb) / 2.0);
    let (q, p) = (e.hypot(h), f.hypot(g));
    let (a1, a2) = (g.atan2(f), h.atan2(e));
    let (theta, phi) = ((a2 - a1) / 2.0, (a2 + a1) / 2.0);
    let rot = |t: f64| {
        Mat2::from_cols(
            Vec2::new(t.cos() as f32, t.sin() as f32),
            Vec2::new(-t.sin() as f32, t.cos() as f32),
        )
    };
    (rot(phi), Vec2::new((q + p) as f32, (q - p) as f32), rot(theta))
}

fn host() -> impl Numerics {
    Host::new(
        |x: Binary32, y: Binary32| b(r(x).powf(r(y))),
        |x: Binary32, y: Binary32| b(r(x).powf(r(y))),
        |f: Unary, x: Binary32| b(single(f, r(x))),
        |f: Unary, x: Binary64| {
            Binary64::from_bits(double(f, f64::from_bits(x.to_bits())).to_bits())
        },
        |t: Binary32| b(saturation_pressure(r(t))),
        |m: linalg::Mat2| lib(exponential(mat(m))),
        |f: linalg::Mat2, step: linalg::Mat2, _v: Binary32, _v0: Binary32| {
            lib(exponential(mat(step)) * mat(f))
        },
        |m: linalg::Mat2| {
            let (u, s, vt) = svd(mat(m));
            (lib(u), linalg::Vec2::new(b(s.x), b(s.y)), lib(vt))
        },
        |x: Binary32, rho: Binary32, c: matter::particle::SimConfig| {
            b(r(x) / (r(rho) * r(c.dx_meters) * r(c.dx_meters)))
        },
        |x: Binary32, rho: Binary32, c: matter::particle::SimConfig| {
            b(r(x) / (r(rho) * r(c.dx_meters) * r(c.dx_meters)))
        },
    )
}
use matter::elastic::NeoHookeanMaterial;
use matter::model::{MaterialModel, Response};
use matter::particle::Particle;

fn particle_with(f: Mat2, friction_hardening: f32) -> Particle {
    let mut p = Particle::zeroed();
    p.deformation_gradient = lib(f);
    p.mass = b(1.0);
    p.initial_volume = b(1.0);
    p.volume = b(1.0);
    p.density = b(1.0);
    p.plastic_volume_ratio = b(1.0);
    p.hardening_scale = b(1.0);
    p.friction_hardening = b(friction_hardening);
    p
}

fn stress(m: &NeoHookeanMaterial, p: &Particle) -> Mat2 {
    mat(m.kirchhoff_stress(p, &host()))
}

fn linear_elastic_prediction(lambda: f32, mu: f32, eps: Mat2) -> Mat2 {
    let tr_eps = eps.x_axis.x + eps.y_axis.y;
    Mat2::from_diagonal(Vec2::splat(lambda * tr_eps)) + 2.0 * mu * eps
}

fn hooke_error(lambda: f32, mu: f32, e: Mat2, delta: f32) -> f32 {
    let m = NeoHookeanMaterial::new(b(lambda), b(mu));
    let f = Mat2::IDENTITY + delta * e;
    let tau = stress(&m, &particle_with(f, 0.0));
    let predicted = linear_elastic_prediction(lambda, mu, delta * e);
    let diff = tau - predicted;
    let err = (diff.x_axis.length_squared() + diff.y_axis.length_squared()).sqrt();
    let scale = (predicted.x_axis.length_squared() + predicted.y_axis.length_squared()).sqrt();
    err / scale
}

#[test]
fn elastic_tests_small_uniaxial_strain_matches_hookes_law() {
    let err = hooke_error(1000.0, 800.0, Mat2::from_diagonal(Vec2::new(1.0, 0.0)), 1.0e-4);
    assert!(err < 1.0e-3, "relative_err={err:.2e}");
}

#[test]
fn elastic_tests_small_shear_strain_matches_hookes_law() {
    let e = Mat2::from_cols(Vec2::new(0.0, 1.0), Vec2::new(1.0, 0.0));
    let err = hooke_error(500.0, 1200.0, e, 1.0e-4);
    assert!(err < 1.0e-3, "relative_err={err:.2e}");
}

#[test]
fn hookes_law_match_improves_as_strain_shrinks() {
    let e = Mat2::from_diagonal(Vec2::new(1.0, -0.3));
    let err_large = hooke_error(1000.0, 800.0, e, 1.0e-2);
    let err_small = hooke_error(1000.0, 800.0, e, 5.0e-3);
    assert!(
        err_small < err_large * 0.7 && err_small > err_large * 0.3,
        "err(1e-2)={err_large:.2e} err(5e-3)={err_small:.2e}"
    );
}

#[test]
fn zero_softening_rate_matches_undamaged_stress() {
    let f = Mat2::from_cols(Vec2::new(1.3, 0.0), Vec2::new(0.0, 1.1));
    let mut m = NeoHookeanMaterial::new(b(1000.0), b(1000.0));
    m.damage_softening_rate = b(0.0);
    let tau_undamaged = stress(&m, &particle_with(f, 0.0));
    let tau_damaged = stress(&m, &particle_with(f, 5.0));
    assert_eq!(tau_undamaged, tau_damaged);
}

#[test]
fn damage_softens_stress_magnitude() {
    let f = Mat2::from_cols(Vec2::new(1.3, 0.0), Vec2::new(0.0, 1.1));
    let mut m = NeoHookeanMaterial::new(b(1000.0), b(1000.0));
    m.damage_softening_rate = b(0.5);
    let tau_healthy = stress(&m, &particle_with(f, 0.0));
    let tau_damaged = stress(&m, &particle_with(f, 3.0));
    assert!(tau_damaged.x_axis.length() < tau_healthy.x_axis.length());
}

#[test]
fn severe_damage_approaches_near_zero_stiffness() {
    let f = Mat2::from_cols(Vec2::new(1.3, 0.0), Vec2::new(0.0, 1.1));
    let mut m = NeoHookeanMaterial::new(b(1000.0), b(1000.0));
    m.damage_softening_rate = b(1.0);
    let tau = stress(&m, &particle_with(f, 20.0));
    assert!(tau.x_axis.length() < 1.0e-3, "got {tau:?}");
}

fn loss(m: &NeoHookeanMaterial, f: Mat2, g: Mat2) -> f32 {
    let tau = stress(m, &particle_with(f, 0.0));
    tau.x_axis.x * g.x_axis.x
        + tau.x_axis.y * g.x_axis.y
        + tau.y_axis.x * g.y_axis.x
        + tau.y_axis.y * g.y_axis.y
}

fn numeric_grad_component(
    m: &NeoHookeanMaterial,
    mut f: Mat2,
    g: Mat2,
    h: f32,
    set: impl Fn(&mut Mat2, f32),
    get: impl Fn(Mat2) -> f32,
) -> f32 {
    let base = get(f);
    set(&mut f, base + h);
    let loss_plus = loss(m, f, g);
    set(&mut f, base - h);
    let loss_minus = loss(m, f, g);
    (loss_plus - loss_minus) / (2.0 * h)
}

fn check_vjp_matches_finite_difference(m: &NeoHookeanMaterial, f: Mat2, g: Mat2) {
    let analytic = mat(m.kirchhoff_stress_vjp(&particle_with(f, 0.0), lib(g), &host()));
    let h = 1.0e-3_f32;
    let checks: [f32; 4] = [
        numeric_grad_component(m, f, g, h, |m, v| m.x_axis.x = v, |m| m.x_axis.x),
        numeric_grad_component(m, f, g, h, |m, v| m.x_axis.y = v, |m| m.x_axis.y),
        numeric_grad_component(m, f, g, h, |m, v| m.y_axis.x = v, |m| m.y_axis.x),
        numeric_grad_component(m, f, g, h, |m, v| m.y_axis.y = v, |m| m.y_axis.y),
    ];
    let analytic_vals =
        [analytic.x_axis.x, analytic.x_axis.y, analytic.y_axis.x, analytic.y_axis.y];
    for (numeric, analytic_val) in checks.iter().zip(analytic_vals) {
        let diff = (numeric - analytic_val).abs();
        let scale = numeric.abs().max(analytic_val.abs()).max(1.0);
        assert!(diff / scale < 1.0e-2, "analytic={analytic_val:.6} numeric={numeric:.6}");
    }
}

#[test]
fn vjp_matches_finite_difference_at_identity() {
    let m = NeoHookeanMaterial::new(b(1000.0), b(800.0));
    check_vjp_matches_finite_difference(&m, Mat2::IDENTITY, Mat2::IDENTITY);
}

#[test]
fn vjp_matches_finite_difference_under_stretch() {
    let m = NeoHookeanMaterial::new(b(1000.0), b(800.0));
    let f = Mat2::from_cols(Vec2::new(1.3, 0.05), Vec2::new(-0.02, 0.9));
    let g = Mat2::from_cols(Vec2::new(0.7, -0.3), Vec2::new(0.4, 1.1));
    check_vjp_matches_finite_difference(&m, f, g);
}

#[test]
fn vjp_matches_finite_difference_under_shear() {
    let m = NeoHookeanMaterial::new(b(500.0), b(1200.0));
    let f = Mat2::from_cols(Vec2::new(1.0, 0.4), Vec2::new(0.15, 1.05));
    let g = Mat2::from_cols(Vec2::new(-0.5, 0.9), Vec2::new(0.2, -0.6));
    check_vjp_matches_finite_difference(&m, f, g);
}

#[test]
fn vjp_matches_finite_difference_with_nonsymmetric_g() {
    let m = NeoHookeanMaterial::new(b(800.0), b(800.0));
    let f = Mat2::from_cols(Vec2::new(1.1, -0.1), Vec2::new(0.2, 0.95));
    let g = Mat2::from_cols(Vec2::new(0.3, 1.2), Vec2::new(-0.8, 0.1));
    check_vjp_matches_finite_difference(&m, f, g);
}

#[test]
fn vjp_respects_thermal_and_damage_scaling() {
    let mut m = NeoHookeanMaterial::new(b(900.0), b(700.0));
    m.thermal_expansion = b(-0.01);
    m.damage_softening_rate = b(0.3);
    let f = Mat2::from_cols(Vec2::new(1.15, 0.08), Vec2::new(-0.05, 0.92));
    let at = |f: Mat2| -> Particle {
        let mut p = particle_with(f, 2.0);
        p.temperature = b(12.0);
        p
    };
    let g = Mat2::from_cols(Vec2::new(0.6, -0.4), Vec2::new(0.5, 0.7));
    let analytic = mat(m.kirchhoff_stress_vjp(&at(f), lib(g), &host()));
    let h = 1.0e-3_f32;
    let mut f_plus = f;
    f_plus.x_axis.x += h;
    let mut f_minus = f;
    f_minus.x_axis.x -= h;
    let dot = |t: Mat2| {
        t.x_axis.x * g.x_axis.x
            + t.x_axis.y * g.x_axis.y
            + t.y_axis.x * g.y_axis.x
            + t.y_axis.y * g.y_axis.y
    };
    let numeric = (dot(stress(&m, &at(f_plus))) - dot(stress(&m, &at(f_minus)))) / (2.0 * h);
    let diff = (numeric - analytic.x_axis.x).abs();
    let scale = numeric.abs().max(analytic.x_axis.x.abs()).max(1.0);
    assert!(diff / scale < 1.0e-2, "analytic={:.6} numeric={numeric:.6}", analytic.x_axis.x);
}

#[test]
fn crushed_particles_carry_no_stress() {
    let m = NeoHookeanMaterial::new(b(900.0), b(700.0));
    let f = Mat2::from_diagonal(Vec2::new(-1.0, 1.0));
    assert_eq!(stress(&m, &particle_with(f, 0.0)), Mat2::ZERO);
    let g = Mat2::IDENTITY;
    assert_eq!(
        mat(m.kirchhoff_stress_vjp(&particle_with(f, 0.0), lib(g), &host())),
        Mat2::ZERO
    );
}

#[test]
fn neo_hookean_step_and_bounds() {
    let mut m = NeoHookeanMaterial::from_young_modulus(b(2600.0), b(0.3));
    m.viscosity = b(2.0);
    let n = host();
    let mut p = particle_with(Mat2::IDENTITY, 0.0);
    p.velocity_gradient = lib(Mat2::from_diagonal(Vec2::splat(0.5)));
    m.update_particle(&mut p, b(1.0), &n);
    assert_eq!(mat(p.deformation_gradient), Mat2::from_diagonal(Vec2::splat(1.5)));
    assert_eq!((r(p.volume), r(p.density)), (2.25, 1.0 / 2.25));
    let dt = r(m.timestep_bound(b(1.0), b(1.0), b(1.0), b(100.0), b(0.5), &n));
    assert_eq!(dt, 0.25);
    assert_eq!(m.params().dynamic_viscosity, b(2.0));
    assert_eq!(m.params().model, 2);
}
