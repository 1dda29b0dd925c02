use glam::{Mat2, Vec2};
use matter::binary::double::Binary64;
use matter::binary::single::Binary32;
use matter::linalg;
use matter::numerics::{Host, Numerics, Unary};

fn b(x: f32) -> Binary32 {
    Binary32::from_bits(x.to_bits())
}

fn r(x: Binary32) -> f32 {
    f32::from_bits(x.to_bits())
}

fn lib(m: Mat2) -> linalg::Mat2 {
    linalg::Mat2::from_cols(
        linalg::Vec2::new(b(m.x_axis.x), b(m.x_axis.y)),
        linalg::Vec2::new(b(m.y_axis.x), b(m.y_axis.y)),
    )
}

fn mat(m: linalg::Mat2) -> Mat2 {
    Mat2::from_cols(
        Vec2::new(r(m.x_axis.x), r(m.x_axis.y)),
        Vec2::new(r(m.y_axis.x), r(m.y_axis.y)),
    )
}

fn single(f: Unary, x: f32) -> f32 {
    match f {
        Unary::Exp => x.exp(),
        Unary::Ln => x.ln(),
        Unary::Sinh => x.sinh(),
        Unary::Asin => x.asin(),
    }
}

fn double(f: Unary, x: f64) -> f64 {
    match f {
        Unary::Exp => x.exp(),
        Unary::Ln => x.ln(),
        Unary::Sinh => x.sinh(),
        Unary::Asin => x.asin(),
    }
}

/// Antoine's equation for water, in Pa.
fn saturation_pressure(temperature_k: f32) -> f32 {
    let celsius = temperature_k as f64 - 273.15;
    let mmhg = 10.0_f64.powf(8.07131 - 1730.63 / (233.426 + celsius));
    (mmhg * 133.322) as f32
}

/// The exponential of a 2x2 matrix.
fn exponential(m: Mat2) -> Mat2 {
    let (xx, xy, yx, yy) = (
        m.x_axis.x as f64,
        m.x_axis.y as f64,
        m.y_axis.x as f64,
        m.y_axis.y as f64,
    );
    let mean = 0.5 * (xx + yy);
    let (axx, ayy) = (xx - mean, yy - mean);
    let square = axx * axx + xy * yx;
    let (c, s) = if square > 0.0 {
        let w = square.sqrt();
        (w.cosh(), w.sinh() / w)
    } else if square < 0.0 {
        let w = (-square).sqrt();
        (w.cos(), w.sin() / w)
    } else {
        (1.0, 1.0)
    };
    let e = mean.exp();
    Mat2::from_cols(
        Vec2::new((e * (c + s * axx)) as f32, (e * s * xy) as f32),
        Vec2::new((e * s * yx) as f32, (e * (c + s * ayy)) as f32),
    )
}

/// Singular values in descending order, with rotations on both sides.
fn svd(m: Mat2) -> (Mat2, Vec2, Mat2) {
    let (a, c, bb, d) = (
        m.x_axis.x as f64,
        m.x_axis.y as f64,
        m.y_axis.x as f64,
        m.y_axis.y as f64,
    );
    let (e, f, g, h) = ((a + d) / 2.0, (a - d) / 2.0, (c + bb) / 2.0, (c - bb) / 2.0);
    let (q, p) = (e.hypot(h), f.hypot(g));
    let (a1, a2) = (g.atan2(f), h.atan2(e));
    let (theta, phi) = ((a2 - a1) / 2.0, (a2 + a1) / 2.0);
    let rot = |t: f64| {
        Mat2::from_cols(
            Vec2::new(t.cos() as f32, t.sin() as f32),
            Vec2::new(-t.sin() as f32, t.cos() as f32),
        )
    };
    (rot(phi), Vec2::new((q + p) as f32, (q - p) as f32), rot(theta))
}

fn host() -> impl Numerics {
    Host::new(
        |x: Binary32, y: Binary32| b(r(x).powf(r(y))),
        |x: Binary32, y: Binary32| b(r(x).powf(r(y))),
        |f: Unary, x: Binary32| b(single(f, r(x))),
        |f: Unary, x: Binary64| {
            Binary64::from_bits(double(f, f64::from_bits(x.to_bits())).to_bits())
        },
        |t: Binary32| b(saturation_pressure(r(t))),
        |m: linalg::Mat2| lib(exponential(mat(m))),
        |f: linalg::Mat2, step: linalg::Mat2, _v: Binary32, _v0: Binary32| {
            lib(exponential(mat(step)) * mat(f))
        },
        |m: linalg::Mat2| {
            let (u, s, vt) = svd(mat(m));
            (lib(u), linalg::Vec2::new(b(s.x), b(s.y)), lib(vt))
        },
        |x: Binary32, rho: Binary32, c: matter::particle::SimConfig| {
            b(r(x) / (r(rho) * r(c.dx_meters) * r(c.dx_meters)))
        },
        |x: Binary32, rho: Binary32, c: matter::particle::SimConfig| {
            b(r(x) / (r(rho) * r(c.dx_meters) * r(c.dx_meters)))
        },
    )
}
use matter::boiling_mixture::{c_mix2_m2_s2, rho_eq_kg_m3, BoilingMixtureMaterial};
use matter::cavitating_fluid::{
    CavitatingFluidMaterial, CavitatingFluidMaterialParams, IsothermalCavitatingFluidMaterial,
    IsothermalCavitatingFluidMaterialParams,
};
use matter::cavitating_table::CavitatingEosTable;
use matter::model::{ConstitutiveModel, MaterialModel, Response};
use matter::particle::Particle;

fn real_table() -> CavitatingEosTable {
    CavitatingEosTable::build(
        b(1000.0),
        b(180.0),
        b(7.0),
        b(1000.0 / 6.0),
        b(1.33),
        b(1.0),
        b(273.15),
        &host(),
    )
}

fn boiling(table: &CavitatingEosTable) -> BoilingMixtureMaterial {
    BoilingMixtureMaterial::from_table(table, b(1.0), b(0.0), b(0.5), b(8.0))
}

fn coupled(dx: f32) -> CavitatingFluidMaterial {
    CavitatingFluidMaterial::new(real_table(), b(dx), b(1.0e-3), b(0.5), b(8.0))
}

fn make_particle(material: &BoilingMixtureMaterial, x: f32, j: f32) -> Particle {
    let mut p = Particle::zeroed();
    p.mass = material.rest_density_grid;
    p.deformation_gradient = lib(Mat2::IDENTITY);
    material.init_particle(&mut p);
    p.deformation_gradient = lib(Mat2::from_diagonal(Vec2::splat(j.sqrt())));
    p.friction_hardening = b(x);
    p
}

#[test]
fn gpu_refuses_the_boiling_mixture() {
    let reason = boiling(&real_table()).gpu_unsupported_reason();
    assert!(reason.is_some_and(|s| s.starts_with("BoilingMixtureMaterial")));
}

#[test]
fn pressure_is_zero_at_x_zero_and_rest_liquid_density() {
    let material = boiling(&real_table());
    let p = make_particle(&material, 0.0, 1.0);
    let pressure_gauge = -mat(material.kirchhoff_stress(&p, &host())).x_axis.x;
    assert!(pressure_gauge.abs() < 1.0, "got {pressure_gauge} Pa");
}

#[test]
fn pressure_is_zero_at_x_one_and_rest_vapor_density() {
    let table = real_table();
    let material = boiling(&table);
    let j_eq_vapor = r(table.rho_l_ref_kg_m3) / r(table.rho_v_ref_kg_m3);
    let p = make_particle(&material, 1.0, j_eq_vapor);
    let pressure_gauge = -mat(material.kirchhoff_stress(&p, &host())).x_axis.x;
    assert!(pressure_gauge.abs() < 1.0, "got {pressure_gauge} Pa");
}

#[test]
fn equilibrium_j_matches_the_real_mass_fraction_mixture_line() {
    let table = real_table();
    let ratio = r(table.rho_l_ref_kg_m3) / r(table.rho_v_ref_kg_m3);
    let material = boiling(&table);
    for x in [0.0, 0.25, 0.5, 0.75, 1.0] {
        let rho_eq = r(rho_eq_kg_m3(b(x), table.rho_l_ref_kg_m3, table.rho_v_ref_kg_m3));
        let j_eq = r(table.rho_l_ref_kg_m3) / rho_eq;
        let expected = 1.0 + (ratio - 1.0) * x;
        assert!((j_eq - expected).abs() < 1.0e-3, "x={x}: J_eq={j_eq}, expected {expected}");
        assert_eq!(r(material.j_eq(b(x))), j_eq);
    }
}

#[test]
fn mixture_stiffness_matches_both_pure_phase_references_at_the_endpoints() {
    let table = real_table();
    let material = boiling(&table);
    let c_l2 = r(table.c_l_m_s) * r(table.c_l_m_s);
    let c_v_ref2 = r(material.c_v_ref_m_s) * r(material.c_v_ref_m_s);
    let c2 = |x: f32| {
        r(c_mix2_m2_s2(
            b(x),
            table.rho_l_ref_kg_m3,
            b(c_l2),
            table.rho_v_ref_kg_m3,
            b(c_v_ref2),
        ))
    };
    assert!((c2(0.0) - c_l2).abs() / c_l2 < 1.0e-4);
    assert!((c2(1.0) - c_v_ref2).abs() / c_v_ref2 < 1.0e-4);
    assert_eq!((c2(0.0), c2(1.0)), (c_l2, c_v_ref2));
}

#[test]
fn acoustic_c2_at_particle_genuinely_differs_with_quality() {
    let material = boiling(&real_table());
    let n = host();
    let c2 = |x: f32, j: f32| {
        r(material.acoustic_c2_at_particle(&make_particle(&material, x, j), &n).unwrap())
    };
    let (c2_low, c2_high) = (c2(0.1, 1.5), c2(0.9, 5.0));
    assert!((c2_low - c2_high).abs() > 1.0, "x=0.1 gave {c2_low}, x=0.9 gave {c2_high}");
}

#[test]
fn measured_minimum_stiffness_is_a_genuine_lower_bound() {
    let table = real_table();
    let material = boiling(&table);
    for k in 0..=1000 {
        let x = k as f32 / 1000.0;
        let c2 = r(material.c_mix2_m2_s2(b(x)));
        assert!(c2 >= r(material.min_c_mix2_grid) - 1.0, "x={x}: c_mix2={c2}");
    }
}

#[test]
fn a_soft_table_gives_no_mixture() {
    let mut table = real_table();
    assert!(BoilingMixtureMaterial::try_from_table(&table, b(1.0), b(0.0), b(0.5), b(8.0))
        .is_some());
    table.gamma_v = b(0.0);
    assert!(BoilingMixtureMaterial::try_from_table(&table, b(1.0), b(0.0), b(0.5), b(8.0))
        .is_none());
    table.gamma_v = b(1.33);
    table.rho_l_ref_kg_m3 = b(f32::INFINITY);
    assert!(BoilingMixtureMaterial::try_from_table(&table, b(1.0), b(0.0), b(0.5), b(8.0))
        .is_none());
}

#[test]
fn pressure_genuinely_differs_with_the_particles_own_live_temperature() {
    let material = coupled(1.0);
    let mut p_cold = Particle::zeroed();
    p_cold.mass = material.rest_density_grid;
    p_cold.deformation_gradient = lib(Mat2::IDENTITY);
    material.init_particle(&mut p_cold);
    p_cold.deformation_gradient = lib(Mat2::from_diagonal(Vec2::splat(1.02f32.sqrt())));
    p_cold.temperature = b(275.0);
    let mut p_hot = p_cold;
    p_hot.temperature = b(370.0);
    let n = host();
    let p_cold_pa = -mat(material.kirchhoff_stress(&p_cold, &n)).x_axis.x;
    let p_hot_pa = -mat(material.kirchhoff_stress(&p_hot, &n)).x_axis.x;
    assert!((p_cold_pa - p_hot_pa).abs() > 1.0, "{p_cold_pa} Pa vs {p_hot_pa} Pa");
}

#[test]
fn pressure_is_exactly_zero_gauge_at_rest_density_for_any_real_temperature() {
    let material = coupled(1.0);
    let n = host();
    for t in [275.0, 300.0, 340.0, 372.0] {
        let mut p = Particle::zeroed();
        p.mass = material.rest_density_grid;
        p.deformation_gradient = lib(Mat2::IDENTITY);
        p.temperature = b(t);
        material.init_particle(&mut p);
        let pressure_gauge = -mat(material.kirchhoff_stress(&p, &n)).x_axis.x;
        assert!(pressure_gauge.abs() < 1.0, "T={t}K: got {pressure_gauge} Pa");
    }
}

#[test]
fn acoustic_c2_at_genuinely_differs_with_temperature() {
    let dx = 1.0_f32;
    let material = coupled(dx);
    let n = host();
    let density_grid = b(500.0 * dx * dx);
    let c2_cold = r(material.acoustic_c2_at(density_grid, b(275.0), &n).unwrap());
    let c2_hot = r(material.acoustic_c2_at(density_grid, b(370.0), &n).unwrap());
    assert!(
        c2_cold.is_finite() && c2_cold > 0.0 && c2_hot.is_finite() && c2_hot > 0.0,
        "cold={c2_cold} hot={c2_hot}"
    );
}

#[test]
fn pressure_and_sound_speed_stay_real_and_bounded_at_the_material_own_extremes() {
    let (volume_ratio_min, volume_ratio_max) = (0.5_f32, 8.0_f32);
    let material = coupled(1.0);
    let n = host();
    let temperature_k = b(300.0);
    let particle_at_j = |j: f32| -> Particle {
        let mut p = Particle::zeroed();
        p.mass = material.rest_density_grid;
        p.deformation_gradient = lib(Mat2::IDENTITY);
        material.init_particle(&mut p);
        p.deformation_gradient = lib(Mat2::from_diagonal(Vec2::splat(j.sqrt())));
        p.temperature = temperature_k;
        p
    };
    let pressure = |j: f32| -mat(material.kirchhoff_stress(&particle_at_j(j), &n)).x_axis.x;
    let sound = |j: f32| {
        let density = b(r(material.rest_density_grid) / j);
        r(material.acoustic_c2_at(density, temperature_k, &n).unwrap())
    };
    let j_tension = volume_ratio_max * 0.99;
    let pressure_tension = pressure(j_tension);
    let c2_tension = sound(j_tension);
    assert!(pressure_tension.is_finite(), "got {pressure_tension} Pa");
    assert!(c2_tension.is_finite() && c2_tension > 0.0, "got {c2_tension}");
    let j_compression = volume_ratio_min * 1.01;
    let pressure_compression = pressure(j_compression);
    let c2_compression = sound(j_compression);
    assert!(pressure_compression.is_finite() && pressure_compression > 0.0);
    assert!(c2_compression.is_finite() && c2_compression > 0.0);
    assert!(pressure_compression > pressure_tension);
}

fn shock_check(stress: impl Fn(&Particle) -> Mat2, base: Particle) {
    let with_rate = |k: f32| {
        let mut p = base;
        p.velocity_gradient = lib(Mat2::from_diagonal(Vec2::splat(k)));
        stress(&p).x_axis.x
    };
    let (rest, expanding, compressing) = (with_rate(0.0), with_rate(0.5), with_rate(-0.5));
    assert!((expanding - rest).abs() < 1.0e-6, "rest={rest:?} expanding={expanding:?}");
    assert!(compressing < rest - 1.0e-6, "rest={rest:?} compressing={compressing:?}");
}

#[test]
fn isothermal_shock_viscosity_activates_only_under_compression() {
    let n = host();
    let eos = real_table().reconstruct(b(300.0), &n);
    let material =
        IsothermalCavitatingFluidMaterial::new(eos, b(1.0), b(1.0e-3), b(0.5), b(8.0));
    let mut p = Particle::zeroed();
    p.mass = material.rest_density_grid;
    p.deformation_gradient = lib(Mat2::IDENTITY);
    material.init_particle(&mut p);
    p.deformation_gradient = lib(Mat2::from_diagonal(Vec2::splat(0.98f32.sqrt())));
    shock_check(|p| mat(material.kirchhoff_stress(p, &n)), p);
}

#[test]
fn temperature_coupled_shock_viscosity_activates_only_under_compression() {
    let n = host();
    let material = coupled(1.0);
    let mut p = Particle::zeroed();
    p.mass = material.rest_density_grid;
    p.deformation_gradient = lib(Mat2::IDENTITY);
    material.init_particle(&mut p);
    p.deformation_gradient = lib(Mat2::from_diagonal(Vec2::splat(0.98f32.sqrt())));
    p.temperature = b(300.0);
    shock_check(|p| mat(material.kirchhoff_stress(p, &n)), p);
}

#[test]
fn gpu_refuses_both_cavitating_fluids() {
    let table = real_table();
    let isothermal = IsothermalCavitatingFluidMaterial::new(
        table.reconstruct(b(300.0), &host()),
        b(1.0),
        b(1.0e-3),
        b(0.5),
        b(8.0),
    );
    let coupled = CavitatingFluidMaterial::new(table, b(1.0), b(1.0e-3), b(0.5), b(8.0));
    assert!(isothermal
        .gpu_unsupported_reason()
        .is_some_and(|s| s.starts_with("IsothermalCavitatingFluidMaterial")));
    assert!(coupled
        .gpu_unsupported_reason()
        .is_some_and(|s| s.starts_with("CavitatingFluidMaterial")));
}

#[test]
fn cavitating_fluids_from_parameter_structs() {
    let n = host();
    let table = real_table();
    let eos = table.reconstruct(b(300.0), &n);
    let isothermal = IsothermalCavitatingFluidMaterial::from_params(
        IsothermalCavitatingFluidMaterialParams {
            eos,
            dx_meters: b(0.5),
            dynamic_viscosity: b(2.0),
            volume_ratio_min: b(0.5),
            volume_ratio_max: b(8.0),
        },
    );
    assert_eq!(r(isothermal.rest_density_grid), 250.0);
    assert_eq!(isothermal.rest_acoustic_c2(), Some(b(180.0 * 180.0 / 0.25)));
    let params = isothermal.params();
    assert_eq!((params.model, r(params.eos_power)), (1, 7.0));
    assert_eq!((r(params.rest_density), r(params.dynamic_viscosity)), (250.0, 2.0));
    let coupled = CavitatingFluidMaterial::from_params(CavitatingFluidMaterialParams {
        table,
        dx_meters: b(0.5),
        dynamic_viscosity: b(2.0),
        volume_ratio_min: b(0.5),
        volume_ratio_max: b(8.0),
    });
    assert_eq!(coupled.params(), params);
    assert_eq!(coupled.constitutive_model(), ConstitutiveModel::Fluid);
    let mut p = Particle::zeroed();
    p.mass = b(250.0);
    p.volume = b(100.0);
    coupled.init_particle_from_transition(&mut p);
    assert_eq!((r(p.initial_volume), r(p.volume)), (1.0, 8.0));
    p.velocity_gradient = lib(Mat2::from_diagonal(Vec2::splat(-100.0)));
    coupled.update_particle(&mut p, b(1.0), &n);
    assert!((mat(p.deformation_gradient).determinant() - 0.5).abs() < 1.0e-6);
    assert_eq!(r(p.density), 500.0);
    let bound = |m: f32, v: f32| {
        r(coupled.timestep_bound(b(250.0), b(1.0), b(1.0), b(m), b(v), &n))
    };
    assert_eq!(bound(0.36, 1.0e9), 0.36 / 360.0);
    assert_eq!(bound(1.0e9, 0.5), 0.5 / (2.0 / 250.0));
}
