use glam::{Mat2, Vec2};
use matter::binary::double::Binary64;
use matter::binary::single::Binary32;
use matter::linalg;
use matter::numerics::{Host, Numerics, Unary};

fn b(x: f32) -> Binary32 {
    Binary32::from_bits(x.to_bits())
}

fn r(x: Binary32) -> f32 {
    f32::from_bits(x.to_bits())
}

fn lib(m: Mat2) -> linalg::Mat2 {
    linalg::Mat2::from_cols(
        linalg::Vec2::new(b(m.x_axis.x), b(m.x_axis.y)),
        linalg::Vec2::new(b(m.y_axis.x), b(m.y_axis.y)),
    )
}

fn mat(m: linalg::Mat2) -> Mat2 {
    Mat2::from_cols(
        Vec2::new(r(m.x_axis.x), r(m.x_axis.y)),
        Vec2::new(r(m.y_axis.x), r(m.y_axis.y)),
    )
}

fn single(f: Unary, x: f32) -> f32 {
    match f {
        Unary::Exp => x.exp(),
        Unary::Ln => x.ln(),
        Unary::Sinh => x.sinh(),
        Unary::Asin => x.asin(),
    }
}

fn double(f: Unary, x: f64) -> f64 {
    match f {
        Unary::Exp => x.exp(),
        Unary::Ln => x.ln(),
        Unary::Sinh => x.sinh(),
        Unary::Asin => x.asin(),
    }
}

/// Antoine's equation for water, in Pa.
fn saturation_pressure(temperature_k: f32) -> f32 {
    let celsius = temperature_k as f64 - 273.15;
    let mmhg = 10.0_f64.powf(8.07131 - 1730.63 / (233.426 + celsius));
    (mmhg * 133.322) as f32
}

/// The exponential of a 2x2 matrix.
fn exponential(m: Mat2) -> Mat2 {
    let (xx, xy, yx, yy) = (
        m.x_axis.x as f64,
        m.x_axis.y as f64,
        m.y_axis.x as f64,
        m.y_axis.y as f64,
    );
    let mean = 0.5 * (xx + yy);
    let (axx, ayy) = (xx - mean, yy - mean);
    let square = axx * axx + xy * yx;
    let (c, s) = if square > 0.0 {
        let w = square.sqrt();
        (w.cosh(), w.sinh() / w)
    } else if square < 0.0 {
        let w = (-square).sqrt();
        (w.cos(), w.sin() / w)
    } else {
        (1.0, 1.0)
    };
    let e = mean.exp();
    Mat2::from_cols(
        Vec2::new((e * (c + s * axx)) as f32, (e * s * xy) as f32),
        Vec2::new((e * s * yx) as f32, (e * (c + s * ayy)) as f32),
    )
}

/// Singular values in descending order, with rotations on both sides.
fn svd(m: Mat2) -> (Mat2, Vec2, Mat2) {
    let (a, c, bb, d) = (
        m.x_axis.x as f64,
        m.x_axis.y as f64,
        m.y_axis.x as f64,
        m.y_axis.y as f64,
    );
    let (e, f, g, h) = ((a + d) / 2.0, (a - d) / 2.0, (c + bb) / 2.0, (c - bb) / 2.0);
    let (q, p) = (e.hypot(h), f.hypot(g));
    let (a1, a2) = (g.atan2(f), h.atan2(e));
    let (theta, phi) = ((a2 - a1) / 2.0, (a2 + a1) / 2.0);
    let rot = |t: f64| {
        Mat2::from_cols(
            Vec2::new(t.cos() as f32, t.sin() as f32),
            Vec2::new(-t.sin() as f32, t.cos() as f32),
        )
    };
    (rot(phi), Vec2::new((q + p) as f32, (q - p) as f32), rot(theta))
}

fn host() -> impl Numerics {
    Host::new(
        |x: Binary32, y: Binary32| b(r(x).powf(r(y))),
        |x: Binary32, y: Binary32| b(r(x).powf(r(y))),
        |f: Unary, x: Binary32| b(single(f, r(x))),
        |f: Unary, x: Binary64| {
            Binary64::from_bits(double(f, f64::from_bits(x.to_bits())).to_bits())
        },
        |t: Binary32| b(saturation_pressure(r(t))),
        |m: linalg::Mat2| lib(exponential(mat(m))),
        |f: linalg::Mat2, step: linalg::Mat2, _v: Binary32, _v0: Binary32| {
            lib(exponential(mat(step)) * mat(f))
        },
        |m: linalg::Mat2| {
            let (u, s, vt) = svd(mat(m));
            (lib(u), linalg::Vec2::new(b(s.x), b(s.y)), lib(vt))
        },
        |x: Binary32, rho: Binary32, c: matter::particle::SimConfig| {
            b(r(x) / (r(rho) * r(c.dx_meters) * r(c.dx_meters)))
        },
        |x: Binary32, rho: Binary32, c: matter::particle::SimConfig| {
            b(r(x) / (r(rho) * r(c.dx_meters) * r(c.dx_meters)))
        },
    )
}
use matter::model::{MaterialModel, Response};
use matter::no_compression::{NoCompressionMaterial, Tension};
use matter::particle::Particle;

fn silk() -> NoCompressionMaterial {
    NoCompressionMaterial::new(b(100.0), b(200.0))
}

fn particle_with_f(f: Mat2) -> Particle {
    let mut p = Particle::zeroed();
    p.deformation_gradient = lib(f);
    p.mass = b(1.0);
    p.initial_volume = b(1.0);
    p.volume = b(1.0);
    p.density = b(1.0);
    p
}

fn principal(x: f32, y: f32) -> Vec2 {
    let tau = silk().relaxed_principal_stress(linalg::Vec2::new(b(x), b(y)));
    Vec2::new(r(tau.x), r(tau.y))
}

#[test]
fn stretch_gives_full_stiffness_compression_gives_zero() {
    let n = host();
    let stretched = particle_with_f(Mat2::from_diagonal(Vec2::new(1.2, 1.0)));
    let tau_stretch = mat(silk().kirchhoff_stress(&stretched, &n));
    assert!(tau_stretch.x_axis.x > 1.0, "{tau_stretch:?}");
    let compressed = particle_with_f(Mat2::from_diagonal(Vec2::new(0.8, 1.0)));
    let tau_compress = mat(silk().kirchhoff_stress(&compressed, &n));
    assert!(tau_compress.x_axis.x.abs() < 1e-5, "{tau_compress:?}");
}

#[test]
fn transverse_slack_contraction_does_not_erase_carrying_tension() {
    let axial_log_strain = 0.1;
    let tau_a = principal(axial_log_strain, -0.1);
    let tau_b = principal(axial_log_strain, -2.0);
    assert!(tau_a.x > 0.0 && tau_a.y == 0.0);
    assert_eq!(tau_a, tau_b);
}

#[test]
fn relaxed_stress_is_continuous_at_taut_wrinkled_junction() {
    let m = silk();
    let eps_x = 0.2;
    let junction_y = -r(m.lambda) * eps_x / (2.0 * r(m.mu) + r(m.lambda));
    let at = principal(eps_x, junction_y);
    let just_taut = principal(eps_x, junction_y + 1.0e-6);
    assert!((at - just_taut).length() < 1.0e-3, "wrinkled={at:?} taut={just_taut:?}");
}

#[test]
fn update_particle_is_a_no_op_only_under_zero_velocity_gradient() {
    assert!(!silk().needs_cpu_update());
    let f_before = Mat2::from_diagonal(Vec2::new(0.7, 1.3));
    let mut p = particle_with_f(f_before);
    silk().update_particle(&mut p, b(1.0), &host());
    assert_eq!(mat(p.deformation_gradient), f_before);
}

#[test]
fn update_particle_integrates_exact_constant_rate_elastic_strain() {
    let mut p = particle_with_f(Mat2::IDENTITY);
    let c = Mat2::from_diagonal(Vec2::new(0.1, -0.05));
    p.velocity_gradient = lib(c);
    let dt = 0.02;
    silk().update_particle(&mut p, b(dt), &host());
    let expected =
        Mat2::from_diagonal(Vec2::new((dt * c.x_axis.x).exp(), (dt * c.y_axis.y).exp()));
    let got = mat(p.deformation_gradient);
    assert!(
        (got.x_axis - expected.x_axis).length() < 1.0e-6
            && (got.y_axis - expected.y_axis).length() < 1.0e-6,
        "expected={expected:?} got={got:?}"
    );
    let expected_volume = (r(p.initial_volume) * expected.determinant()).max(1.0e-6);
    assert!((r(p.volume) - expected_volume).abs() < 1.0e-6);
}

#[test]
fn compress_then_restretch_matches_a_fresh_particle_at_the_same_f() {
    let mut p = particle_with_f(Mat2::IDENTITY);
    let n = host();
    let dt = 0.01;
    p.velocity_gradient = lib(Mat2::from_diagonal(Vec2::new(-2.0, 0.0)));
    silk().update_particle(&mut p, b(dt), &n);
    p.velocity_gradient = lib(Mat2::from_diagonal(Vec2::new(2.0, 0.0)));
    silk().update_particle(&mut p, b(dt), &n);
    let f = mat(p.deformation_gradient);
    let diff = (f.x_axis - Mat2::IDENTITY.x_axis).length()
        + (f.y_axis - Mat2::IDENTITY.y_axis).length();
    assert!(diff < 1.0e-6, "F={f:?}");
}

#[test]
fn tension_states_are_told_apart() {
    let at = |x: f32, y: f32| silk().tension(linalg::Vec2::new(b(x), b(y)));
    assert_eq!(at(0.0, -0.5), Tension::Slack);
    assert_eq!(at(-0.1, -0.5), Tension::Slack);
    assert_eq!(at(0.5, -0.1), Tension::Wrinkled);
    assert_eq!(at(0.5, -0.099), Tension::Taut);
    assert_eq!(principal(-0.1, -0.2), Vec2::ZERO);
    // the uniaxial tangent is 4 * 200 * 300 / 500
    assert_eq!(principal(0.5, -1.0), Vec2::new(240.0, 0.0));
    assert_eq!(principal(0.5, 0.25), Vec2::new(275.0, 175.0));
}

#[test]
fn the_stress_depends_on_the_deformation_gradient_alone() {
    let n = host();
    let f = Mat2::from_cols(Vec2::new(1.2, 0.1), Vec2::new(0.05, 1.1));
    let p = particle_with_f(f);
    let mut q = p;
    q.volume = b(3.0);
    q.velocity_gradient = lib(Mat2::IDENTITY);
    q.temperature = b(20.0);
    assert_eq!(silk().kirchhoff_stress(&p, &n), silk().kirchhoff_stress(&q, &n));
    assert_eq!(silk().params().model, 12);
    let crushed = particle_with_f(Mat2::ZERO);
    assert_eq!(mat(silk().kirchhoff_stress(&crushed, &n)), Mat2::ZERO);
}
