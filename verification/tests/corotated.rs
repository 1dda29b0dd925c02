use glam::{Mat2, Vec2};
use matter::binary::double::Binary64;
use matter::binary::single::Binary32;
use matter::linalg;
use matter::numerics::{Host, Numerics, Unary};

fn b(x: f32) -> Binary32 {
    Binary32::from_bits(x.to_bits())
}

fn r(x: Binary32) -> f32 {
    f32::from_bits(x.to_bits())
}

fn lib(m: Mat2) -> linalg::Mat2 {
    linalg::Mat2::from_cols(
        linalg::Vec2::new(b(m.x_axis.x), b(m.x_axis.y)),
        linalg::Vec2::new(b(m.y_axis.x), b(m.y_axis.y)),
    )
}

fn mat(m: linalg::Mat2) -> Mat2 {
    Mat2::from_cols(
        Vec2::new(r(m.x_axis.x), r(m.x_axis.y)),
        Vec2::new(r(m.y_axis.x), r(m.y_axis.y)),
    )
}

fn single(f: Unary, x: f32) -> f32 {
    match f {
        Unary::Exp => x.exp(),
        Unary::Ln => x.ln(),
        Unary::Sinh => x.sinh(),
        Unary::Asin => x.asin(),
    }
}

fn double(f: Unary, x: f64) -> f64 {
    match f {
        Unary::Exp => x.exp(),
        Unary::Ln => x.ln(),
        Unary::Sinh => x.sinh(),
        Unary::Asin => x.asin(),
    }
}

/// Antoine's equation for water, in Pa.
fn saturation_pressure(temperature_k: f32) -> f32 {
    let celsius = temperature_k as f64 - 273.15;
    let mmhg = 10.0_f64.powf(8.07131 - 1730.63 / (233.426 + celsius));
    (mmhg * 133.322) as f32
}

/// The exponential of a 2x2 matrix.
fn exponential(m: Mat2) -> Mat2 {
    let (xx, xy, yx, yy) = (
        m.x_axis.x as f64,
        m.x_axis.y as f64,
        m.y_axis.x as f64,
        m.y_axis.y as f64,
    );
    let mean = 0.5 * (xx + yy);
    let (axx, ayy) = (xx - mean, yy - mean);
    let square = axx * axx + xy * yx;
    let (c, s) = if square > 0.0 {
        let w = square.sqrt();
        (w.cosh(), w.sinh() / w)
    } else if square < 0.0 {
        let w = (-square).sqrt();
        (w.cos(), w.sin() / w)
    } else {
        (1.0, 1.0)
    };
    let e = mean.exp();
    Mat2::from_cols(
        Vec2::new((e * (c + s * axx)) as f32, (e * s * xy) as f32),
        Vec2::new((e * s * yx) as f32, (e * (c + s * ayy)) as f32),
    )
}

/// Singular values in descending order, with rotations on both sides.
fn svd(m: Mat2) -> (Mat2, Vec2, Mat2) {
    let (a, c, bb, d) = (
        m.x_axis.x as f64,
        m.x_axis.y as f64,
        m.y_axis.x as f64,
        m.y_axis.y as f64,
    );
    let (e, f, g, h) = ((a + d) / 2.0, (a - d) / 2.0, (c + bb) / 2.0, (c - bb) / 2.0);
    let (q, p) = (e.hypot(h), f.hypot(g));
    let (a1, a2) = (g.atan2(f), h.atan2(e));
    let (theta, phi) = ((a2 - a1) / 2.0, (a2 + a1) / 2.0);
    let rot = |t: f64| {
        Mat2::from_cols(
            Vec2::new(t.cos() as f32, t.sin() as f32),
            Vec2::new(-t.sin() as f32, t.cos() as f32),
        )
    };
    (rot(phi), Vec2::new((q + p) as f32, (q - p) as f32), rot(theta))
}

fn host() -> impl Numerics {
    Host::new(
        |x: Binary32, y: Binary32| b(r(x).powf(r(y))),
        |x: Binary32, y: Binary32| b(r(x).powf(r(y))),
        |f: Unary, x: Binary32| b(single(f, r(x))),
        |f: Unary, x: Binary64| {
            Binary64::from_bits(double(f, f64::from_bits(x.to_bits())).to_bits())
        },
        |t: Binary32| b(saturation_pressure(r(t))),
        |m: linalg::Mat2| lib(exponential(mat(m))),
        |f: linalg::Mat2, step: linalg::Mat2, _v: Binary32, _v0: Binary32| {
            lib(exponential(mat(step)) * mat(f))
        },
        |m: linalg::Mat2| {
            let (u, s, vt) = svd(mat(m));
            (lib(u), linalg::Vec2::new(b(s.x), b(s.y)), lib(vt))
        },
        |x: Binary32, rho: Binary32, c: matter::particle::SimConfig| {
            b(r(x) / (r(rho) * r(c.dx_meters) * r(c.dx_meters)))
        },
        |x: Binary32, rho: Binary32, c: matter::particle::SimConfig| {
            b(r(x) / (r(rho) * r(c.dx_meters) * r(c.dx_meters)))
        },
    )
}
use matter::corotated::CorotatedMaterial;
use matter::mechanics::polar_decomposition_2d;
use matter::model::{MaterialModel, Response};
use matter::particle::Particle;

fn particle_with(f: Mat2, c: Mat2) -> Particle {
    let mut p = Particle::zeroed();
    p.velocity_gradient = lib(c);
    p.deformation_gradient = lib(f);
    p.mass = b(1.0);
    p.initial_volume = b(1.0);
    p.volume = b(1.0);
    p.density = b(1.0);
    p.plastic_volume_ratio = b(1.0);
    p.hardening_scale = b(1.0);
    p
}

fn linear_elastic_prediction(lambda: f32, mu: f32, eps: Mat2) -> Mat2 {
    let tr_eps = eps.x_axis.x + eps.y_axis.y;
    Mat2::from_diagonal(Vec2::splat(lambda * tr_eps)) + 2.0 * mu * eps
}

fn hooke_error(lambda: f32, mu: f32, e: Mat2) -> f32 {
    let m = CorotatedMaterial::new(b(lambda), b(mu));
    let delta = 1.0e-4_f32;
    let f = Mat2::IDENTITY + delta * e;
    let tau = mat(m.kirchhoff_stress(&particle_with(f, Mat2::ZERO), &host()));
    let predicted = linear_elastic_prediction(lambda, mu, delta * e);
    let diff = tau - predicted;
    let err = (diff.x_axis.length_squared() + diff.y_axis.length_squared()).sqrt();
    let scale = (predicted.x_axis.length_squared() + predicted.y_axis.length_squared()).sqrt();
    err / scale
}

#[test]
fn corotated_small_uniaxial_strain_matches_hookes_law() {
    let err = hooke_error(1000.0, 800.0, Mat2::from_diagonal(Vec2::new(1.0, 0.0)));
    assert!(err < 1.0e-3, "relative_err={err:.2e}");
}

#[test]
fn corotated_small_shear_strain_matches_hookes_law() {
    let e = Mat2::from_cols(Vec2::new(0.0, 1.0), Vec2::new(1.0, 0.0));
    let err = hooke_error(500.0, 1200.0, e);
    assert!(err < 1.0e-3, "relative_err={err:.2e}");
}

#[test]
fn symmetric_deformation_gradient_has_exact_identity_rotation() {
    let e = Mat2::from_cols(Vec2::new(0.3, -0.15), Vec2::new(-0.15, 0.6));
    let f = Mat2::IDENTITY + e;
    let q = mat(polar_decomposition_2d(lib(f)));
    assert!(
        (q - Mat2::IDENTITY).x_axis.length() < 1.0e-6
            && (q - Mat2::IDENTITY).y_axis.length() < 1.0e-6,
        "got {q:?}"
    );
    assert_eq!(q, Mat2::IDENTITY);
}

#[test]
fn polar_rotation_of_a_rotation_is_itself() {
    let f = Mat2::from_angle(0.7);
    let q = mat(polar_decomposition_2d(lib(f)));
    assert!((q - f).x_axis.length() < 1.0e-6 && (q - f).y_axis.length() < 1.0e-6);
    assert_eq!(mat(polar_decomposition_2d(lib(Mat2::ZERO))), Mat2::IDENTITY);
}

#[test]
fn corotated_nonzero_elastic_viscosity_adds_a_real_viscous_stress_term() {
    let elastic_only = CorotatedMaterial::new(b(2000.0), b(3000.0));
    let mut damped = elastic_only;
    damped.elastic_viscosity = b(50.0);
    let c = Mat2::from_cols(Vec2::new(0.0, 1.0), Vec2::new(1.0, 0.0));
    let p = particle_with(Mat2::IDENTITY, c);
    let n = host();
    let diff = mat(damped.kirchhoff_stress(&p, &n)) - mat(elastic_only.kirchhoff_stress(&p, &n));
    let max_abs = diff.x_axis.abs().max_element().max(diff.y_axis.abs().max_element());
    assert!(max_abs > 1.0e-6);
    assert_eq!(diff, Mat2::from_cols(Vec2::new(0.0, 50.0), Vec2::new(50.0, 0.0)));
}

#[test]
fn corotated_zero_elastic_viscosity_ignores_the_velocity_gradient() {
    let m = CorotatedMaterial::new(b(2000.0), b(3000.0));
    assert_eq!(r(m.elastic_viscosity), 0.0);
    let f = Mat2::from_cols(Vec2::new(1.05, 0.02), Vec2::new(0.01, 0.97));
    let c = Mat2::from_cols(Vec2::new(0.3, -0.1), Vec2::new(0.2, 0.4));
    let n = host();
    let tau_rest = m.kirchhoff_stress(&particle_with(f, Mat2::ZERO), &n);
    let tau_shearing = m.kirchhoff_stress(&particle_with(f, c), &n);
    assert_eq!(tau_rest, tau_shearing);
}

#[test]
fn opposite_velocity_gradients_cancel_exactly_no_volumetric_ratchet() {
    let m = CorotatedMaterial::new(b(1000.0), b(800.0));
    let n = host();
    let dt = 0.05;
    let c = Mat2::from_cols(Vec2::new(0.3, -0.15), Vec2::new(0.1, -0.3));
    let mut p = particle_with(Mat2::IDENTITY, c);
    m.update_particle(&mut p, b(dt), &n);
    p.velocity_gradient = lib(-c);
    m.update_particle(&mut p, b(dt), &n);
    let f_after = mat(p.deformation_gradient);
    let err = (f_after.x_axis - Mat2::IDENTITY.x_axis).length()
        + (f_after.y_axis - Mat2::IDENTITY.y_axis).length();
    assert!(err < 1.0e-5, "f_after={f_after:?} err={err}");
}

#[test]
fn rigid_rotation_preserves_volume_exactly() {
    let m = CorotatedMaterial::new(b(1000.0), b(800.0));
    let n = host();
    let spin = Mat2::from_cols(Vec2::new(0.0, 0.4), Vec2::new(-0.4, 0.0));
    let mut p = particle_with(Mat2::IDENTITY, spin);
    for _ in 0..50 {
        m.update_particle(&mut p, b(0.02), &n);
    }
    let j = mat(p.deformation_gradient).determinant();
    assert!((j - 1.0).abs() < 1.0e-4, "J={j}");
}

#[test]
fn lame_parameters_are_offered_only_for_the_plain_law() {
    let m = CorotatedMaterial::from_young_modulus(b(2600.0), b(0.3));
    assert!((r(m.mu) - 1000.0).abs() < 1.0e-3 && (r(m.lambda) - 1500.0).abs() < 1.0e-2);
    assert_eq!(m.corotated_lame_params(), Some((m.lambda, m.mu)));
    let mut damped = m;
    damped.elastic_viscosity = b(1.0);
    assert_eq!(damped.corotated_lame_params(), None);
    let mut warm = m;
    warm.thermal_expansion = b(-0.1);
    assert_eq!(warm.corotated_lame_params(), None);
    let mut active = m;
    active.active_stress_coeff = b(2.0);
    assert_eq!(active.corotated_lame_params(), None);
    assert_eq!(r(active.activation_scale()), 2.0);
    assert_eq!(r(m.pressure_scale()), 1.0);
    assert_eq!(m.params().model, 3);
    assert_eq!(r(m.params().volume_ratio_min), 0.01);
}
