use glam::{Mat2, Vec2};
use matter::binary::double::Binary64;
use matter::binary::single::Binary32;
use matter::linalg;
use matter::numerics::{Host, Numerics, Unary};

fn b(x: f32) -> Binary32 {
    Binary32::from_bits(x.to_bits())
}

fn r(x: Binary32) -> f32 {
    f32::from_bits(x.to_bits())
}

fn lib(m: Mat2) -> linalg::Mat2 {
    linalg::Mat2::from_cols(
        linalg::Vec2::new(b(m.x_axis.x), b(m.x_axis.y)),
        linalg::Vec2::new(b(m.y_axis.x), b(m.y_axis.y)),
    )
}

fn mat(m: linalg::Mat2) -> Mat2 {
    Mat2::from_cols(
        Vec2::new(r(m.x_axis.x), r(m.x_axis.y)),
        Vec2::new(r(m.y_axis.x), r(m.y_axis.y)),
    )
}

fn single(f: Unary, x: f32) -> f32 {
    match f {
        Unary::Exp => x.exp(),
        Unary::Ln => x.ln(),
        Unary::Sinh => x.sinh(),
        Unary::Asin => x.asin(),
    }
}

fn double(f: Unary, x: f64) -> f64 {
    match f {
        Unary::Exp => x.exp(),
        Unary::Ln => x.ln(),
        Unary::Sinh => x.sinh(),
        Unary::Asin => x.asin(),
    }
}

/// Antoine's equation for water, in Pa.
fn saturation_pressure(temperature_k: f32) -> f32 {
    let celsius = temperature_k as f64 - 273.15;
    let mmhg = 10.0_f64.powf(8.07131 - 1730.63 / (233.426 + celsius));
    (mmhg * 133.322) as f32
}

/// The exponential of a 2x2 matrix.
fn exponential(m: Mat2) -> Mat2 {
    let (xx, xy, yx, yy) = (
        m.x_axis.x as f64,
        m.x_axis.y as f64,
        m.y_axis.x as f64,
        m.y_axis.y as f64,
    );
    let mean = 0.5 * (xx + yy);
    let (axx, ayy) = (xx - mean, yy - mean);
    let square = axx * axx + xy * yx;
    let (c, s) = if square > 0.0 {
        let w = square.sqrt();
        (w.cosh(), w.sinh() / w)
    } else if square < 0.0 {
        let w = (-square).sqrt();
        (w.cos(), w.sin() / w)
    } else {
        (1.0, 1.0)
    };
    let e = mean.exp();
    Mat2::from_cols(
        Vec2::new((e * (c + s * axx)) as f32, (e * s * xy) as f32),
        Vec2::new((e * s * yx) as f32, (e * (c + s * ayy)) as f32),
    )
}

/// Singular values in descending order, with rotations on both sides.
fn svd(m: Mat2) -> (Mat2, Vec2, Mat2) {
    let (a, c, bb, d) = (
        m.x_axis.x as f64,
        m.x_axis.y as f64,
        m.y_axis.x as f64,
        m.y_axis.y as f64,
    );
    let (e, f, g, h) = ((a + d) / 2.0, (a - d) / 2.0, (c + bb) / 2.0, (c - bb) / 2.0);
    let (q, p) = (e.hypot(h), f.hypot(g));
    let (a1, a2) = (g.atan2(f), h.atan2(e));
    let (theta, phi) = ((a2 - a1) / 2.0, (a2 + a1) / 2.0);
    let rot = |t: f64| {
        Mat2::from_cols(
            Vec2::new(t.cos() as f32, t.sin() as f32),
            Vec2::new(-t.sin() as f32, t.cos() as f32),
        )
    };
    (rot(phi), Vec2::new((q + p) as f32, (q - p) as f32), rot(theta))
}

fn host() -> impl Numerics {
    Host::new(
        |x: Binary32, y: Binary32| b(r(x).powf(r(y))),
        |x: Binary32, y: Binary32| b(r(x).powf(r(y))),
        |f: Unary, x: Binary32| b(single(f, r(x))),
        |f: Unary, x: Binary64| {
            Binary64::from_bits(double(f, f64::from_bits(x.to_bits())).to_bits())
        },
        |t: Binary32| b(saturation_pressure(r(t))),
        |m: linalg::Mat2| lib(exponential(mat(m))),
        |f: linalg::Mat2, step: linalg::Mat2, _v: Binary32, _v0: Binary32| {
            lib(exponential(mat(step)) * mat(f))
        },
        |m: linalg::Mat2| {
            let (u, s, vt) = svd(mat(m));
            (lib(u), linalg::Vec2::new(b(s.x), b(s.y)), lib(vt))
        },
        |x: Binary32, rho: Binary32, c: matter::particle::SimConfig| {
            b(r(x) / (r(rho) * r(c.dx_meters) * r(c.dx_meters)))
        },
        |x: Binary32, rho: Binary32, c: matter::particle::SimConfig| {
            b(r(x) / (r(rho) * r(c.dx_meters) * r(c.dx_meters)))
        },
    )
}
use matter::elastic::NeoHookeanMaterial;
use matter::granular_fluid::GranularFluidMaterial;
use matter::model::{MaterialModel, Response};
use matter::particle::Particle;

fn loam(rho: f32) -> GranularFluidMaterial {
    GranularFluidMaterial::new(b(500.0), b(200.0), b(rho), b(100.0), b(10.0), b(0.025))
}

fn particle() -> Particle {
    let mut p = Particle::zeroed();
    p.deformation_gradient = lib(Mat2::IDENTITY);
    p.mass = b(1.0);
    p.initial_volume = b(1.0);
    p.plastic_volume_ratio = b(1.0);
    p.hardening_scale = b(1.0);
    p
}

fn run_rate_step(m: &GranularFluidMaterial, p: &mut Particle, rate: Mat2, dt: f32) {
    p.velocity_gradient = lib(rate);
    m.update_particle(p, b(dt), &host());
}

fn matrix_error(x: Mat2, y: Mat2) -> f32 {
    (x.x_axis - y.x_axis).length() + (x.y_axis - y.y_axis).length()
}

#[test]
fn rigid_rotation_preserves_eos_volume_and_plastic_history() {
    let m = loam(1.0);
    let mut p = particle();
    let omega = 2.1;
    let dt = 0.2;
    let spin = Mat2::from_cols(Vec2::new(0.0, omega), Vec2::new(-omega, 0.0));
    run_rate_step(&m, &mut p, spin, dt);
    let expected = Mat2::from_angle(omega * dt);
    assert!(matrix_error(mat(p.deformation_gradient), expected) < 3.0e-6);
    assert!((mat(p.deformation_gradient).determinant() - 1.0).abs() < 2.0e-6);
    assert_eq!(r(p.plastic_volume_ratio), 1.0);
    assert_eq!(r(p.hardening_scale), 1.0);
}

#[test]
fn opposite_subclamp_rates_are_reversible_without_false_hardening() {
    let m = loam(1.0);
    let mut p = particle();
    let rate = Mat2::from_diagonal(Vec2::new(-0.01, 0.005));
    let dt = 0.1;
    run_rate_step(&m, &mut p, rate, dt);
    assert_eq!(r(p.plastic_volume_ratio), 1.0);
    assert_eq!(r(p.hardening_scale), 1.0);
    run_rate_step(&m, &mut p, -rate, dt);
    assert!(matrix_error(mat(p.deformation_gradient), Mat2::IDENTITY) < 3.0e-6);
    assert_eq!(r(p.plastic_volume_ratio), 1.0);
    assert_eq!(r(p.hardening_scale), 1.0);
}

#[test]
fn exponential_trial_respects_both_sides_of_compression_clamp() {
    let m = loam(1.0);
    let floor = 1.0 - r(m.compression_limit);
    let dt = 0.1;

    let inside_sigma = floor + 1.0e-4;
    let mut inside = particle();
    let rate = Mat2::from_diagonal(Vec2::new(inside_sigma.ln() / dt, 0.0));
    run_rate_step(&m, &mut inside, rate, dt);
    assert!((r(inside.deformation_gradient.x_axis.x) - inside_sigma).abs() < 2.0e-6);
    assert_eq!(r(inside.plastic_volume_ratio), 1.0);

    let outside_sigma = floor - 1.0e-4;
    let mut outside = particle();
    let rate = Mat2::from_diagonal(Vec2::new(outside_sigma.ln() / dt, 0.0));
    run_rate_step(&m, &mut outside, rate, dt);
    assert!((r(outside.deformation_gradient.x_axis.x) - floor).abs() < 2.0e-6);
    let expected_jp = outside_sigma / floor;
    assert!((r(outside.plastic_volume_ratio) - expected_jp).abs() < 2.0e-6);
    assert!(r(outside.hardening_scale) > 1.0);
}

#[test]
fn init_particle_seeds_real_conserved_volume_and_density() {
    let m = loam(4.0);
    let mut p = Particle::zeroed();
    p.deformation_gradient = lib(Mat2::IDENTITY);
    p.mass = b(2.0);
    m.init_particle(&mut p);
    let expected_volume = r(p.mass) / r(m.rest_density);
    assert!((r(p.initial_volume) - expected_volume).abs() < 1.0e-6);
    assert!((r(p.volume) - expected_volume).abs() < 1.0e-6);
    assert!((r(p.density) - r(m.rest_density)).abs() < 1.0e-6);
}

#[test]
fn init_particle_respects_real_prior_compression() {
    let m = loam(4.0);
    let mut p = Particle::zeroed();
    let s = 0.8_f32.sqrt();
    p.deformation_gradient = lib(Mat2::from_diagonal(Vec2::splat(s)));
    p.mass = b(2.0);
    m.init_particle(&mut p);
    let j = mat(p.deformation_gradient).determinant();
    assert!((j - 0.8).abs() < 1.0e-5);
    let expected_initial_volume = r(p.mass) / r(m.rest_density);
    assert!((r(p.initial_volume) - expected_initial_volume).abs() < 1.0e-6);
    assert!((r(p.volume) - expected_initial_volume * j).abs() < 1.0e-6);
    assert!((r(p.density) - r(m.rest_density) / j).abs() < 1.0e-6);
}

#[test]
fn owns_deformation_volume_state_is_true_and_reaches_gpu_params() {
    let m = loam(4.0);
    assert!(m.owns_deformation_volume_state());
    assert_eq!(m.params().owns_deformation_volume_state, 1);
}

#[test]
fn non_friction_materials_return_none() {
    let p = Particle::zeroed();
    assert_eq!(NeoHookeanMaterial::new(b(1.0e5), b(0.2)).current_friction_coefficient(&p), None);
    assert_eq!(
        GranularFluidMaterial::saturated_loam(b(1.0e5), b(0.2)).current_friction_coefficient(&p),
        None
    );
}

#[test]
fn granular_presets_hold_their_documented_values() {
    let m = GranularFluidMaterial::saturated_loam(b(2600.0), b(0.3));
    let mu = r(m.mu);
    assert!((mu - 1000.0).abs() < 1.0e-3, "mu={mu}");
    assert_eq!(
        (r(m.eos_stiffness), r(m.hardening_exponent), r(m.compression_limit)),
        (200.0, 5.0, 0.4)
    );
    assert_eq!((r(m.eos_power), r(m.stretch_limit), r(m.bulk_viscosity)), (2.0, 0.01, 100.0));
    assert_eq!(r(m.dynamic_viscosity), 0.3 * mu);
    let m = GranularFluidMaterial::consolidated_clay(b(2600.0), b(0.3));
    assert_eq!(
        (r(m.eos_stiffness), r(m.hardening_exponent), r(m.compression_limit)),
        (500.0, 3.0, 0.3)
    );
    assert_eq!((r(m.min_plastic_jacobian), r(m.max_plastic_jacobian)), (0.3, 2.5));
    assert_eq!((r(m.rest_density), r(m.bulk_viscosity)), (1.2, 250.0));
    let m = GranularFluidMaterial::cytoplasmic(b(2600.0), b(0.3));
    assert_eq!(
        (r(m.eos_stiffness), r(m.hardening_exponent), r(m.compression_limit)),
        (50.0, 1.0, 0.6)
    );
    assert_eq!(
        (r(m.stretch_limit), r(m.min_plastic_jacobian), r(m.max_plastic_jacobian)),
        (0.05, 0.1, 5.0)
    );
    assert_eq!(r(m.dynamic_viscosity), 0.15 * mu);
}

#[test]
fn granular_stress_at_rest_vanishes_and_compression_pushes_back() {
    let m = loam(1.0);
    let n = host();
    let mut p = particle();
    let rest = mat(m.kirchhoff_stress(&p, &n));
    assert!(matrix_error(rest, Mat2::ZERO) < 1.0e-4, "got {rest:?}");
    p.deformation_gradient = lib(Mat2::from_diagonal(Vec2::splat(0.98)));
    let squeezed = mat(m.kirchhoff_stress(&p, &n));
    assert!(squeezed.x_axis.x < 0.0);
    let dt = r(m.timestep_bound(b(1.0), b(1.0), b(1.0), b(0.5), b(0.5), &n));
    assert_eq!(dt, 0.5 / 900.0_f32.sqrt());
}
