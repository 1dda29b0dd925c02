use glam::{Mat2, Vec2};
use matter::binary::double::Binary64;
use matter::binary::single::Binary32;
use matter::linalg;
use matter::numerics::{Host, Numerics, Unary};

fn b(x: f32) -> Binary32 {
    Binary32::from_bits(x.to_bits())
}

fn r(x: Binary32) -> f32 {
    f32::from_bits(x.to_bits())
}

fn lib(m: Mat2) -> linalg::Mat2 {
    linalg::Mat2::from_cols(
        linalg::Vec2::new(b(m.x_axis.x), b(m.x_axis.y)),
        linalg::Vec2::new(b(m.y_axis.x), b(m.y_axis.y)),
    )
}

fn mat(m: linalg::Mat2) -> Mat2 {
    Mat2::from_cols(
        Vec2::new(r(m.x_axis.x), r(m.x_axis.y)),
        Vec2::new(r(m.y_axis.x), r(m.y_axis.y)),
    )
}

fn single(f: Unary, x: f32) -> f32 {
    match f {
        Unary::Exp => x.exp(),
        Unary::Ln => x.ln(),
        Unary::Sinh => x.sinh(),
        Unary::Asin => x.asin(),
    }
}

fn double(f: Unary, x: f64) -> f64 {
    match f {
        Unary::Exp => x.exp(),
        Unary::Ln => x.ln(),
        Unary::Sinh => x.sinh(),
        Unary::Asin => x.asin(),
    }
}

/// Antoine's equation for water, in Pa.
fn saturation_pressure(temperature_k: f32) -> f32 {
    let celsius = temperature_k as f64 - 273.15;
    let mmhg = 10.0_f64.powf(8.07131 - 1730.63 / (233.426 + celsius));
    (mmhg * 133.322) as f32
}

/// The exponential of a 2x2 matrix.
fn exponential(m: Mat2) -> Mat2 {
    let (xx, xy, yx, yy) = (
        m.x_axis.x as f64,
        m.x_axis.y as f64,
        m.y_axis.x as f64,
        m.y_axis.y as f64,
    );
    let mean = 0.5 * (xx + yy);
    let (axx, ayy) = (xx - mean, yy - mean);
    let square = axx * axx + xy * yx;
    let (c, s) = if square > 0.0 {
        let w = square.sqrt();
        (w.cosh(), w.sinh() / w)
    } else if square < 0.0 {
        let w = (-square).sqrt();
        (w.cos(), w.sin() / w)
    } else {
        (1.0, 1.0)
    };
    let e = mean.exp();
    Mat2::from_cols(
        Vec2::new((e * (c + s * axx)) as f32, (e * s * xy) as f32),
        Vec2::new((e * s * yx) as f32, (e * (c + s * ayy)) as f32),
    )
}

/// Singular values in descending order, with rotations on both sides.
fn svd(m: Mat2) -> (Mat2, Vec2, Mat2) {
    let (a, c, bb, d) = (
        m.x_axis.x as f64,
        m.x_axis.y as f64,
        m.y_axis.x as f64,
        m.y_axis.y as f64,
    );
    let (e, f, g, h) = ((a + d) / 2.0, (a - d) / 2.0, (c + bb) / 2.0, (c - bb) / 2.0);
    let (q, p) = (e.hypot(h), f.hypot(g));
    let (a1, a2) = (g.atan2(f), h.atan2(e));
    let (theta, phi) = ((a2 - a1) / 2.0, (a2 + a1) / 2.0);
    let rot = |t: f64| {
        Mat2::from_cols(
            Vec2::new(t.cos() as f32, t.sin() as f32),
            Vec2::new(-t.sin() as f32, t.cos() as f32),
        )
    };
    (rot(phi), Vec2::new((q + p) as f32, (q - p) as f32), rot(theta))
}

fn host() -> impl Numerics {
    Host::new(
        |x: Binary32, y: Binary32| b(r(x).powf(r(y))),
        |x: Binary32, y: Binary32| b(r(x).powf(r(y))),
        |f: Unary, x: Binary32| b(single(f, r(x))),
        |f: Unary, x: Binary64| {
            Binary64::from_bits(double(f, f64::from_bits(x.to_bits())).to_bits())
        },
        |t: Binary32| b(saturation_pressure(r(t))),
        |m: linalg::Mat2| lib(exponential(mat(m))),
        |f: linalg::Mat2, step: linalg::Mat2, _v: Binary32, _v0: Binary32| {
            lib(exponential(mat(step)) * mat(f))
        },
        |m: linalg::Mat2| {
            let (u, s, vt) = svd(mat(m));
            (lib(u), linalg::Vec2::new(b(s.x), b(s.y)), lib(vt))
        },
        |x: Binary32, rho: Binary32, c: matter::particle::SimConfig| {
            b(r(x) / (r(rho) * r(c.dx_meters) * r(c.dx_meters)))
        },
        |x: Binary32, rho: Binary32, c: matter::particle::SimConfig| {
            b(r(x) / (r(rho) * r(c.dx_meters) * r(c.dx_meters)))
        },
    )
}
use matter::gas::GasMaterial;
use matter::model::{ConstitutiveModel, MaterialModel, Response};
use matter::particle::{Particle, SimConfig};

const AIR_ADIABATIC_INDEX: f32 = 1.4;

fn unit_config() -> SimConfig {
    SimConfig { dx_meters: b(1.0), dt_seconds: b(0.05), reference_density_kg_m3: b(1000.0) }
}

fn air(rho: f32, t: f32) -> GasMaterial {
    GasMaterial::air(b(rho), b(t), &unit_config())
}

fn one_particle_at_rest(gas: &GasMaterial) -> Particle {
    let mut p = Particle::zeroed();
    p.mass = gas.rest_density;
    p.deformation_gradient = lib(Mat2::IDENTITY);
    gas.init_particle(&mut p);
    p
}

fn pressure(gas: &GasMaterial, p: &Particle) -> f32 {
    -mat(gas.kirchhoff_stress(p, &host())).x_axis.x
}

#[test]
fn rest_pressure_matches_real_ideal_gas_law_reference() {
    let gas = air(1.204, 293.15);
    let pressure = pressure(&gas, &one_particle_at_rest(&gas));
    assert!((pressure - 101_325.0).abs() / 101_325.0 < 0.01, "got {pressure:.1} Pa");
}

#[test]
fn pressure_vanishes_as_density_vanishes() {
    let gas = air(1.204, 293.15);
    let mut p = one_particle_at_rest(&gas);
    p.deformation_gradient = lib(Mat2::from_diagonal(Vec2::splat(1000.0)));
    let pressure = pressure(&gas, &p);
    assert!(pressure < 1.0, "got {pressure}");
}

#[test]
fn hotter_gas_has_higher_pressure_at_the_same_density() {
    let cold = air(1.204, 250.0);
    let hot = air(1.204, 400.0);
    let p_cold = pressure(&cold, &one_particle_at_rest(&cold));
    let p_hot = pressure(&hot, &one_particle_at_rest(&hot));
    assert!(p_hot > p_cold, "p_cold={p_cold:.1} p_hot={p_hot:.1}");
}

#[test]
fn compression_increases_pressure_at_fixed_temperature() {
    let gas = air(1.204, 293.15);
    let mut p = one_particle_at_rest(&gas);
    let rest_pressure = pressure(&gas, &p);
    p.deformation_gradient = lib(Mat2::from_diagonal(Vec2::splat(0.5)));
    let pressure = pressure(&gas, &p);
    assert!(pressure > rest_pressure, "rest={rest_pressure:.1} compressed={pressure:.1}");
}

#[test]
fn rest_acoustic_c2_matches_timestep_bound_derivation() {
    let gas = air(1.204, 293.15);
    let c2 = r(gas.rest_acoustic_c2().expect("air has an acoustic term"));
    let expected = AIR_ADIABATIC_INDEX * r(gas.specific_gas_constant) * 293.15;
    assert!((c2 - expected).abs() / expected < 1.0e-4, "got {c2}, expected {expected}");
    let dt = r(gas.timestep_bound(b(1.2), b(1.0), b(1.0), b(0.5), b(0.5), &host()));
    assert_eq!(dt, 0.5 / c2.sqrt());
}

#[test]
fn constitutive_model_is_gas() {
    let gas = GasMaterial::new(b(0.1), b(0.0), b(287.05), b(1.4), b(293.15));
    assert_eq!(gas.constitutive_model(), ConstitutiveModel::Gas);
    assert_eq!(gas.constitutive_model() as u32, 13);
    assert_eq!(gas.params().model, 13);
}

#[test]
fn gas_from_si_keeps_the_pressure_in_pascal() {
    let mut config = unit_config();
    config.dx_meters = b(0.5);
    let gas = GasMaterial::from_physical(b(2.0), b(0.25), b(100.0), b(1.5), b(300.0), &config);
    assert_eq!(r(gas.rest_density), 0.5);
    assert_eq!(r(gas.specific_gas_constant), 400.0);
    assert_eq!(r(gas.rest_density) * r(gas.specific_gas_constant) * 300.0, 2.0 * 100.0 * 300.0);
    assert_eq!(
        GasMaterial::new(b(1.0), b(0.0), b(0.0), b(1.4), b(300.0)).rest_acoustic_c2(),
        None
    );
}

#[test]
fn gas_entering_from_a_dense_material_starts_compressed() {
    let gas = GasMaterial::new(b(1.0), b(0.0), b(1.0), b(1.4), b(300.0));
    let mut p = Particle::zeroed();
    p.mass = b(2.0);
    p.volume = b(1.0e-3);
    gas.init_particle_from_transition(&mut p);
    assert_eq!(r(p.initial_volume), 2.0);
    assert_eq!(r(p.volume), 2.0 * 0.05);
    assert_eq!(r(p.density), 2.0 / (2.0_f32 * 0.05));
    assert_eq!(r(p.temperature), 300.0);
    let n = host();
    p.velocity_gradient = lib(Mat2::from_diagonal(Vec2::splat(1.0e4)));
    gas.update_particle(&mut p, b(1.0), &n);
    assert!((mat(p.deformation_gradient).determinant() - 20.0).abs() < 1.0e-4);
}
