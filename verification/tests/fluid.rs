use glam::{Mat2, Vec2};
use matter::binary::double::Binary64;
use matter::binary::single::Binary32;
use matter::linalg;
use matter::numerics::{Host, Numerics, Unary};

fn b(x: f32) -> Binary32 {
    Binary32::from_bits(x.to_bits())
}

fn r(x: Binary32) -> f32 {
    f32::from_bits(x.to_bits())
}

fn lib(m: Mat2) -> linalg::Mat2 {
    linalg::Mat2::from_cols(
        linalg::Vec2::new(b(m.x_axis.x), b(m.x_axis.y)),
        linalg::Vec2::new(b(m.y_axis.x), b(m.y_axis.y)),
    )
}

fn mat(m: linalg::Mat2) -> Mat2 {
    Mat2::from_cols(
        Vec2::new(r(m.x_axis.x), r(m.x_axis.y)),
        Vec2::new(r(m.y_axis.x), r(m.y_axis.y)),
    )
}

fn single(f: Unary, x: f32) -> f32 {
    match f {
        Unary::Exp => x.exp(),
        Unary::Ln => x.ln(),
        Unary::Sinh => x.sinh(),
        Unary::Asin => x.asin(),
    }
}

fn double(f: Unary, x: f64) -> f64 {
    match f {
        Unary::Exp => x.exp(),
        Unary::Ln => x.ln(),
        Unary::Sinh => x.sinh(),
        Unary::Asin => x.asin(),
    }
}

/// Antoine's equation for water, in Pa.
fn saturation_pressure(temperature_k: f32) -> f32 {
    let celsius = temperature_k as f64 - 273.15;
    let mmhg = 10.0_f64.powf(8.07131 - 1730.63 / (233.426 + celsius));
    (mmhg * 133.322) as f32
}

/// The exponential of a 2x2 matrix.
fn exponential(m: Mat2) -> Mat2 {
    let (xx, xy, yx, yy) = (
        m.x_axis.x as f64,
        m.x_axis.y as f64,
        m.y_axis.x as f64,
        m.y_axis.y as f64,
    );
    let mean = 0.5 * (xx + yy);
    let (axx, ayy) = (xx - mean, yy - mean);
    let square = axx * axx + xy * yx;
    let (c, s) = if square > 0.0 {
        let w = square.sqrt();
        (w.cosh(), w.sinh() / w)
    } else if square < 0.0 {
        let w = (-square).sqrt();
        (w.cos(), w.sin() / w)
    } else {
        (1.0, 1.0)
    };
    let e = mean.exp();
    Mat2::from_cols(
        Vec2::new((e * (c + s * axx)) as f32, (e * s * xy) as f32),
        Vec2::new((e * s * yx) as f32, (e * (c + s * ayy)) as f32),
    )
}

/// Singular values in descending order, with rotations on both sides.
fn svd(m: Mat2) -> (Mat2, Vec2, Mat2) {
    let (a, c, bb, d) = (
        m.x_axis.x as f64,
        m.x_axis.y as f64,
        m.y_axis.x as f64,
        m.y_axis.y as f64,
    );
    let (e, f, g, h) = ((a + d) / 2.0, (a - d) / 2.0, (c + bb) / 2.0, (c - bb) / 2.0);
    let (q, p) = (e.hypot(h), f.hypot(g));
    let (a1, a2) = (g.atan2(f), h.atan2(e));
    let (theta, phi) = ((a2 - a1) / 2.0, (a2 + a1) / 2.0);
    let rot = |t: f64| {
        Mat2::from_cols(
            Vec2::new(t.cos() as f32, t.sin() as f32),
            Vec2::new(-t.sin() as f32, t.cos() as f32),
        )
    };
    (rot(phi), Vec2::new((q + p) as f32, (q - p) as f32), rot(theta))
}

fn host() -> impl Numerics {
    Host::new(
        |x: Binary32, y: Binary32| b(r(x).powf(r(y))),
        |x: Binary32, y: Binary32| b(r(x).powf(r(y))),
        |f: Unary, x: Binary32| b(single(f, r(x))),
        |f: Unary, x: Binary64| {
            Binary64::from_bits(double(f, f64::from_bits(x.to_bits())).to_bits())
        },
        |t: Binary32| b(saturation_pressure(r(t))),
        |m: linalg::Mat2| lib(exponential(mat(m))),
        |f: linalg::Mat2, step: linalg::Mat2, _v: Binary32, _v0: Binary32| {
            lib(exponential(mat(step)) * mat(f))
        },
        |m: linalg::Mat2| {
            let (u, s, vt) = svd(mat(m));
            (lib(u), linalg::Vec2::new(b(s.x), b(s.y)), lib(vt))
        },
        |x: Binary32, rho: Binary32, c: matter::particle::SimConfig| {
            b(r(x) / (r(rho) * r(c.dx_meters) * r(c.dx_meters)))
        },
        |x: Binary32, rho: Binary32, c: matter::particle::SimConfig| {
            b(r(x) / (r(rho) * r(c.dx_meters) * r(c.dx_meters)))
        },
    )
}
use matter::fluid::{NewtonianFluid, NewtonianFluidMaterial};
use matter::model::{ConstitutiveModel, MaterialModel, Response};
use matter::particle::{Particle, SimConfig};

fn config(dx: f32, dt: f32) -> SimConfig {
    SimConfig { dx_meters: b(dx), dt_seconds: b(dt), reference_density_kg_m3: b(1000.0) }
}

fn water(a: f32, v: f32, k: f32, g: f32) -> NewtonianFluidMaterial {
    NewtonianFluidMaterial::new(b(a), b(v), b(k), b(g))
}

fn particle_with_f(f: Mat2) -> Particle {
    let mut p = Particle::zeroed();
    p.deformation_gradient = lib(f);
    p.mass = b(1.0);
    p.initial_volume = b(1.0);
    p.volume = b(f.determinant());
    p.density = b(1.0);
    p
}

#[test]
fn si_constructor_preserves_pressure_and_viscosity_units() {
    let cfg = config(0.01, 0.1);
    let material =
        NewtonianFluidMaterial::weakly_compressible(b(1000.0), b(1.0e-3), b(20.0), &cfg);
    assert!((r(material.rest_density) - 0.1).abs() < 1.0e-7);
    assert!((r(material.dynamic_viscosity) - 1.0e-3).abs() < 1.0e-9);
    assert!((r(material.eos_stiffness) - (1000.0 * 20.0 * 20.0 / 7.0)).abs() < 1.0e-3);
}

#[test]
fn si_constructors_convert_pressure_floor_not_just_stiffness() {
    let cfg = config(0.01, 0.1);
    let wc = NewtonianFluidMaterial::weakly_compressible(b(1000.0), b(1.0e-3), b(20.0), &cfg);
    assert!((r(wc.pressure_floor) - (-100_000.0)).abs() < 1.0e-3);

    let props = NewtonianFluid {
        rho_kg_m3: b(1000.0),
        eta_pa_s: b(1.0e-3),
        bulk_modulus_pa: b(1000.0 * 20.0 * 20.0),
    };
    let n = host();
    let si = NewtonianFluidMaterial::from_physical(&props, &cfg, &n);
    let expected = r(n.scaled_stress(b(-100_000.0), props.rho_kg_m3, cfg));
    assert!((r(si.pressure_floor) - expected).abs() < 1.0e-6);
    assert_ne!(r(si.pressure_floor), -0.1);
    assert_eq!(r(si.rest_density), 1.0);
    assert_eq!(r(si.eos_power), 7.0);
}

#[test]
fn rigid_rotation_leaves_j_exactly_unchanged() {
    let mat_ = water(1.0, 0.0, 100.0, 7.0);
    let n = host();
    let mut p = particle_with_f(Mat2::IDENTITY);
    let dt = 0.01;
    let omega = 5.0_f32;
    p.velocity_gradient = lib(Mat2::from_cols(Vec2::new(0.0, omega), Vec2::new(-omega, 0.0)));
    for _ in 0..500 {
        mat_.update_particle(&mut p, b(dt), &n);
    }
    let j = mat(p.deformation_gradient).determinant();
    assert!((j - 1.0).abs() < 1.0e-5, "got {j}");
}

#[test]
fn constant_dilation_matches_exact_exponential_solution() {
    let mat_ = water(1.0, 0.0, 100.0, 7.0);
    let n = host();
    let mut p = particle_with_f(Mat2::IDENTITY);
    let dt = 0.001;
    let k = 2.0_f32;
    const N: i32 = 50;
    p.velocity_gradient = lib(Mat2::from_diagonal(Vec2::splat(k)));
    for _ in 0..N {
        mat_.update_particle(&mut p, b(dt), &n);
    }
    let j = mat(p.deformation_gradient).determinant();
    let expected = (N as f32 * dt * 2.0 * k).exp();
    assert!((j - expected).abs() / expected < 1.0e-4, "got {j}, expected {expected}");
}

#[test]
fn condensing_from_a_much_larger_prior_volume_clamps_to_the_upper_compression_bound() {
    let water = water(1.0, 0.0, 5.0, 7.0);
    let mut p = Particle::zeroed();
    p.mass = b(1.0);
    p.volume = b(6.0);
    water.init_particle_from_transition(&mut p);

    let true_initial_volume = r(p.mass) / r(water.rest_density);
    assert_eq!(r(p.initial_volume), true_initial_volume);
    let j = mat(p.deformation_gradient).determinant();
    assert!((j - 2.0).abs() < 1.0e-4, "got {j}");
    assert!((r(p.volume) - true_initial_volume * 2.0).abs() < 1.0e-4, "got {}", r(p.volume));
}

#[test]
fn transitioning_from_a_much_smaller_prior_volume_clamps_to_the_lower_compression_bound() {
    let water = water(1.0, 0.0, 5.0, 7.0);
    let mut p = Particle::zeroed();
    p.mass = b(1.0);
    p.volume = b(0.1);
    water.init_particle_from_transition(&mut p);
    let j = mat(p.deformation_gradient).determinant();
    assert!((j - 0.5).abs() < 1.0e-4, "got {j}");
}

#[test]
fn transitioning_from_an_already_matching_volume_introduces_no_artificial_jump() {
    let water = water(1.0, 0.0, 5.0, 7.0);
    let mut p = Particle::zeroed();
    p.mass = b(1.0);
    p.volume = b(1.0);
    water.init_particle_from_transition(&mut p);
    let j = mat(p.deformation_gradient).determinant();
    assert!((j - 1.0).abs() < 1.0e-5, "got j={j}");
}

#[test]
fn fluid_stress_is_the_native_formula_to_the_bit() {
    let mut w = water(2.0, 0.3, 50.0, 7.0);
    w.bulk_viscosity = b(0.7);
    w.surface_tension_coeff = b(0.2);
    w.thermal_viscosity_coeff = b(0.01);
    let f = Mat2::from_cols(Vec2::new(0.9, 0.1), Vec2::new(-0.05, 1.02));
    let c = Mat2::from_cols(Vec2::new(-0.4, 0.2), Vec2::new(0.3, -0.1));
    let mut p = particle_with_f(f);
    p.velocity_gradient = lib(c);
    p.temperature = b(20.0);
    let got = mat(w.kirchhoff_stress(&p, &host()));

    let j = f.determinant().max(1.0e-6);
    let density = (2.0_f32 / j).max(1.0e-6).min(2.0 * 2.0);
    let pressure = (50.0_f32 * ((density / 2.0).powf(7.0) - 1.0)).max(-0.1);
    let viscosity = 0.3_f32 * (-0.01_f32 * 20.0).exp();
    let sym = c + c.transpose();
    let div = sym.x_axis.x + sym.y_axis.y;
    let mut want = Mat2::from_diagonal(Vec2::splat(-pressure));
    want += viscosity * (sym - Mat2::from_diagonal(Vec2::splat(div * 0.5)));
    want += Mat2::from_diagonal(Vec2::splat(0.7 * div * 0.5));
    want += Mat2::from_diagonal(Vec2::splat(0.2 * f.determinant()));
    let c2 = 50.0_f32 * 7.0 * (1.0 / j).powf(6.0) / 2.0;
    let (rho, jump) = (2.0 / j, 1.0 * (0.5 * div));
    let q = 8.0_f32 * 0.25 * rho * jump * jump - rho * c2.max(0.0).sqrt() * jump;
    want += Mat2::from_diagonal(Vec2::splat(-q));
    assert_eq!(got, want);
}

#[test]
fn fluid_answers_and_parameters() {
    let mut w = water(2.0, 0.3, 50.0, 7.0);
    w.settling_damping = b(0.5);
    assert_eq!(w.constitutive_model(), ConstitutiveModel::Fluid);
    assert!(w.owns_deformation_volume_state());
    assert!(!w.needs_density_recompute());
    assert_eq!(w.rest_acoustic_c2(), Some(b(50.0 * 7.0 / 2.0)));
    assert_eq!(w.acoustic_c2_at_temperature(b(300.0)), Some(b(175.0)));
    assert_eq!(water(0.0, 0.0, 50.0, 7.0).rest_acoustic_c2(), None);
    let params = w.params();
    assert_eq!(params.model, 1);
    assert_eq!(params.dp_h0, b(0.5));
    assert_eq!(params.volume_ratio_max, b(2.0));
    assert_eq!(params.owns_deformation_volume_state, 1);
    let n = host();
    assert_eq!(w.hydrostatic_volume_ratio(b(0.0), &n), None);
    assert_eq!(w.hydrostatic_volume_ratio(b(f32::NAN), &n), None);
    let ratio = r(w.hydrostatic_volume_ratio(b(50.0), &n).unwrap());
    assert_eq!(ratio, 2.0_f32.powf(-1.0 / 7.0));
    let low = NewtonianFluidMaterial::low_viscosity(b(1.0), b(2.0));
    assert_eq!((r(low.dynamic_viscosity), r(low.eos_power)), (1.0e-3, 7.0));
}

#[test]
fn fluid_step_bounds() {
    let w = water(1.0, 0.5, 4.0, 1.0);
    let n = host();
    // c^2 = 4: the sound bound is cfl * h / 2, the viscous one cfl * h^2 / 0.5
    let dt = r(w.timestep_bound(b(1.0), b(1.0), b(1.0), b(0.4), b(0.3), &n));
    assert_eq!(dt, 0.2);
    let dt = r(w.timestep_bound(b(1.0), b(1.0), b(1.0), b(0.4), b(0.05), &n));
    assert_eq!(dt, 0.05 / 0.5);
    let inert = water(1.0, 0.0, 0.0, 1.0);
    assert_eq!(r(inert.timestep_bound(b(1.0), b(1.0), b(1.0), b(0.4), b(0.3), &n)), f32::INFINITY);
}

#[test]
fn settling_damping_takes_its_share_of_the_velocity() {
    let n = host();
    let mut w = water(1.0, 0.0, 100.0, 7.0);
    w.settling_damping = b(1.0);
    let mut p = particle_with_f(Mat2::IDENTITY);
    p.v = linalg::Vec2::new(b(1.0), b(0.0));
    w.update_particle(&mut p, b(0.8), &n);
    assert!((r(p.v.x) - 0.2).abs() < 1.0e-6);
    assert_eq!(r(p.v.y), 0.0);
}

#[test]
fn volume_ratio_stays_bounded_under_any_step() {
    let n = host();
    let w = water(1.0, 0.0, 1.0, 7.0);
    for k in [-1.0e6_f32, -3.0, 0.0, 3.0, 1.0e6] {
        let mut p = particle_with_f(Mat2::IDENTITY);
        p.velocity_gradient = lib(Mat2::from_diagonal(Vec2::splat(k)));
        w.update_particle(&mut p, b(1.0), &n);
        let s = r(p.deformation_gradient.x_axis.x);
        assert!(s >= 0.5_f32.sqrt() && s <= 2.0_f32.sqrt(), "k={k} s={s}");
        assert!(r(p.density) >= 0.5 && r(p.density) <= 2.0);
    }
}
