use glam::{Mat2, Vec2};
use matter::binary::double::Binary64;
use matter::binary::single::Binary32;
use matter::linalg;
use matter::numerics::{Host, Numerics, Unary};

fn b(x: f32) -> Binary32 {
    Binary32::from_bits(x.to_bits())
}

fn r(x: Binary32) -> f32 {
    f32::from_bits(x.to_bits())
}

fn lib(m: Mat2) -> linalg::Mat2 {
    linalg::Mat2::from_cols(
        linalg::Vec2::new(b(m.x_axis.x), b(m.x_axis.y)),
        linalg::Vec2::new(b(m.y_axis.x), b(m.y_axis.y)),
    )
}

fn mat(m: linalg::Mat2) -> Mat2 {
    Mat2::from_cols(
        Vec2::new(r(m.x_axis.x), r(m.x_axis.y)),
        Vec2::new(r(m.y_axis.x), r(m.y_axis.y)),
    )
}

fn single(f: Unary, x: f32) -> f32 {
    match f {
        Unary::Exp => x.exp(),
        Unary::Ln => x.ln(),
        Unary::Sinh => x.sinh(),
        Unary::Asin => x.asin(),
    }
}

fn double(f: Unary, x: f64) -> f64 {
    match f {
        Unary::Exp => x.exp(),
        Unary::Ln => x.ln(),
        Unary::Sinh => x.sinh(),
        Unary::Asin => x.asin(),
    }
}

/// Antoine's equation for water, in Pa.
fn saturation_pressure(temperature_k: f32) -> f32 {
    let celsius = temperature_k as f64 - 273.15;
    let mmhg = 10.0_f64.powf(8.07131 - 1730.63 / (233.426 + celsius));
    (mmhg * 133.322) as f32
}

/// The exponential of a 2x2 matrix.
fn exponential(m: Mat2) -> Mat2 {
    let (xx, xy, yx, yy) = (
        m.x_axis.x as f64,
        m.x_axis.y as f64,
        m.y_axis.x as f64,
        m.y_axis.y as f64,
    );
    let mean = 0.5 * (xx + yy);
    let (axx, ayy) = (xx - mean, yy - mean);
    let square = axx * axx + xy * yx;
    let (c, s) = if square > 0.0 {
        let w = square.sqrt();
        (w.cosh(), w.sinh() / w)
    } else if square < 0.0 {
        let w = (-square).sqrt();
        (w.cos(), w.sin() / w)
    } else {
        (1.0, 1.0)
    };
    let e = mean.exp();
    Mat2::from_cols(
        Vec2::new((e * (c + s * axx)) as f32, (e * s * xy) as f32),
        Vec2::new((e * s * yx) as f32, (e * (c + s * ayy)) as f32),
    )
}

/// Singular values in descending order, with rotations on both sides.
fn svd(m: Mat2) -> (Mat2, Vec2, Mat2) {
    let (a, c, bb, d) = (
        m.x_axis.x as f64,
        m.x_axis.y as f64,
        m.y_axis.x as f64,
        m.y_axis.y as f64,
    );
    let (e, f, g, h) = ((a + d) / 2.0, (a - d) / 2.0, (c + bb) / 2.0, (c - bb) / 2.0);
    let (q, p) = (e.hypot(h), f.hypot(g));
    let (a1, a2) = (g.atan2(f), h.atan2(e));
    let (theta, phi) = ((a2 - a1) / 2.0, (a2 + a1) / 2.0);
    let rot = |t: f64| {
        Mat2::from_cols(
            Vec2::new(t.cos() as f32, t.sin() as f32),
            Vec2::new(-t.sin() as f32, t.cos() as f32),
        )
    };
    (rot(phi), Vec2::new((q + p) as f32, (q - p) as f32), rot(theta))
}

fn host() -> impl Numerics {
    Host::new(
        |x: Binary32, y: Binary32| b(r(x).powf(r(y))),
        |x: Binary32, y: Binary32| b(r(x).powf(r(y))),
        |f: Unary, x: Binary32| b(single(f, r(x))),
        |f: Unary, x: Binary64| {
            Binary64::from_bits(double(f, f64::from_bits(x.to_bits())).to_bits())
        },
        |t: Binary32| b(saturation_pressure(r(t))),
        |m: linalg::Mat2| lib(exponential(mat(m))),
        |f: linalg::Mat2, step: linalg::Mat2, _v: Binary32, _v0: Binary32| {
            lib(exponential(mat(step)) * mat(f))
        },
        |m: linalg::Mat2| {
            let (u, s, vt) = svd(mat(m));
            (lib(u), linalg::Vec2::new(b(s.x), b(s.y)), lib(vt))
        },
        |x: Binary32, rho: Binary32, c: matter::particle::SimConfig| {
            b(r(x) / (r(rho) * r(c.dx_meters) * r(c.dx_meters)))
        },
        |x: Binary32, rho: Binary32, c: matter::particle::SimConfig| {
            b(r(x) / (r(rho) * r(c.dx_meters) * r(c.dx_meters)))
        },
    )
}
use matter::bingham::{BinghamFluidMaterial, BinghamProps};
use matter::model::{MaterialModel, Response};
use matter::particle::{Particle, SimConfig};

fn mud() -> BinghamFluidMaterial {
    BinghamFluidMaterial::new(b(1000.0), b(0.5), b(5000.0), b(7.0), b(100.0))
}

#[test]
fn below_critical_shear_rate_gives_zero_deviatoric_stress() {
    let c = Mat2::from_cols(Vec2::new(0.0, 1.0e-6), Vec2::new(1.0e-6, 0.0));
    let tau = mat(mud().deviatoric_stress(lib(c)));
    assert_eq!(tau, Mat2::ZERO);
}

#[test]
fn above_yield_matches_bingham_formula_exactly() {
    let m = mud();
    let g = 5.0_f32;
    let c = Mat2::from_cols(Vec2::new(0.0, g), Vec2::new(g, 0.0));
    let tau = mat(m.deviatoric_stress(lib(c)));
    let shear_rate = 2.0 * g;
    let eta_app = r(m.yield_stress) / shear_rate + r(m.dynamic_viscosity);
    let d_dev = Mat2::from_cols(Vec2::new(0.0, g), Vec2::new(g, 0.0));
    let predicted = d_dev * eta_app;
    let diff = tau - predicted;
    let err = (diff.x_axis.length_squared() + diff.y_axis.length_squared()).sqrt();
    assert!(err < 1.0e-3, "predicted={predicted:?} actual={tau:?}");
}

#[test]
fn apparent_viscosity_decreases_as_shear_rate_increases() {
    let m = mud();
    let slow = Mat2::from_cols(Vec2::new(0.0, 1.0), Vec2::new(1.0, 0.0));
    let fast = Mat2::from_cols(Vec2::new(0.0, 10.0), Vec2::new(10.0, 0.0));
    let tau_slow = mat(m.deviatoric_stress(lib(slow)));
    let tau_fast = mat(m.deviatoric_stress(lib(fast)));
    let eff_visc_slow = tau_slow.x_axis.y / 2.0;
    let eff_visc_fast = tau_fast.x_axis.y / 20.0;
    assert!(eff_visc_fast < eff_visc_slow, "slow={eff_visc_slow:.4} fast={eff_visc_fast:.4}");
}

#[test]
fn pure_dilation_is_no_shear() {
    let c = Mat2::from_diagonal(Vec2::splat(3.0));
    assert_eq!(mat(mud().deviatoric_stress(lib(c))), Mat2::ZERO);
}

#[test]
fn bingham_presets_and_si_properties() {
    let p = BinghamFluidMaterial::high_yield(b(1.0), b(2.0));
    assert_eq!((r(p.dynamic_viscosity), r(p.yield_stress)), (0.5, 100.0));
    let p = BinghamFluidMaterial::viscous_high_yield(b(1.0), b(2.0));
    assert_eq!((r(p.dynamic_viscosity), r(p.yield_stress)), (500.0, 1000.0));
    let p = BinghamFluidMaterial::low_yield(b(1.0), b(2.0));
    assert_eq!((r(p.dynamic_viscosity), r(p.yield_stress)), (0.01, 1.0));
    let p = BinghamFluidMaterial::medium_yield(b(1.0), b(2.0));
    assert_eq!((r(p.dynamic_viscosity), r(p.yield_stress)), (0.1, 10.0));
    assert_eq!((r(p.critical_shear_rate), r(p.eos_power)), (1.0e-4, 7.0));

    let config =
        SimConfig { dx_meters: b(0.5), dt_seconds: b(1.0), reference_density_kg_m3: b(1.0) };
    let props = BinghamProps {
        rho_kg_m3: b(8.0),
        eta_pa_s: b(3.0),
        yield_stress_pa: b(4.0),
        bulk_modulus_pa: b(70.0),
    };
    let m = BinghamFluidMaterial::from_physical(&props, &config);
    assert_eq!(r(m.rest_density), 2.0);
    assert_eq!((r(m.dynamic_viscosity), r(m.yield_stress)), (3.0, 4.0));
    assert_eq!(r(m.eos_stiffness), 10.0);
    assert_eq!(m.params().compression_limit, b(4.0));
}

#[test]
fn mud_keeps_volume_and_density_together() {
    let m = BinghamFluidMaterial::new(b(1.0), b(0.0), b(10.0), b(7.0), b(1.0));
    let n = host();
    let mut p = Particle::zeroed();
    p.mass = b(1.0);
    p.deformation_gradient = lib(Mat2::IDENTITY);
    m.init_particle(&mut p);
    assert_eq!((r(p.volume), r(p.density)), (1.0, 1.0));
    p.velocity_gradient = lib(Mat2::from_diagonal(Vec2::splat(-0.1)));
    m.update_particle(&mut p, b(1.0), &n);
    let j = mat(p.deformation_gradient).determinant();
    assert!((j - 0.81).abs() < 1.0e-5, "got {j}");
    assert!((r(p.volume) - 0.81).abs() < 1.0e-5);
    assert!((r(p.density) * r(p.volume) - 1.0).abs() < 1.0e-5);
    let stress = mat(m.kirchhoff_stress(&p, &n));
    assert!(stress.x_axis.x < 0.0);
}
