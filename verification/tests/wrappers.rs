use glam::{Mat2, Vec2};
use matter::binary::double::Binary64;
use matter::binary::single::Binary32;
use matter::linalg;
use matter::numerics::{Host, Numerics, Unary};

fn b(x: f32) -> Binary32 {
    Binary32::from_bits(x.to_bits())
}

fn r(x: Binary32) -> f32 {
    f32::from_bits(x.to_bits())
}

fn lib(m: Mat2) -> linalg::Mat2 {
    linalg::Mat2::from_cols(
        linalg::Vec2::new(b(m.x_axis.x), b(m.x_axis.y)),
        linalg::Vec2::new(b(m.y_axis.x), b(m.y_axis.y)),
    )
}

fn mat(m: linalg::Mat2) -> Mat2 {
    Mat2::from_cols(
        Vec2::new(r(m.x_axis.x), r(m.x_axis.y)),
        Vec2::new(r(m.y_axis.x), r(m.y_axis.y)),
    )
}

fn single(f: Unary, x: f32) -> f32 {
    match f {
        Unary::Exp => x.exp(),
        Unary::Ln => x.ln(),
        Unary::Sinh => x.sinh(),
        Unary::Asin => x.asin(),
    }
}

fn double(f: Unary, x: f64) -> f64 {
    match f {
        Unary::Exp => x.exp(),
        Unary::Ln => x.ln(),
        Unary::Sinh => x.sinh(),
        Unary::Asin => x.asin(),
    }
}

/// Antoine's equation for water, in Pa.
fn saturation_pressure(temperature_k: f32) -> f32 {
    let celsius = temperature_k as f64 - 273.15;
    let mmhg = 10.0_f64.powf(8.07131 - 1730.63 / (233.426 + celsius));
    (mmhg * 133.322) as f32
}

/// The exponential of a 2x2 matrix.
fn exponential(m: Mat2) -> Mat2 {
    let (xx, xy, yx, yy) = (
        m.x_axis.x as f64,
        m.x_axis.y as f64,
        m.y_axis.x as f64,
        m.y_axis.y as f64,
    );
    let mean = 0.5 * (xx + yy);
    let (axx, ayy) = (xx - mean, yy - mean);
    let square = axx * axx + xy * yx;
    let (c, s) = if square > 0.0 {
        let w = square.sqrt();
        (w.cosh(), w.sinh() / w)
    } else if square < 0.0 {
        let w = (-square).sqrt();
        (w.cos(), w.sin() / w)
    } else {
        (1.0, 1.0)
    };
    let e = mean.exp();
    Mat2::from_cols(
        Vec2::new((e * (c + s * axx)) as f32, (e * s * xy) as f32),
        Vec2::new((e * s * yx) as f32, (e * (c + s * ayy)) as f32),
    )
}

/// Singular values in descending order, with rotations on both sides.
fn svd(m: Mat2) -> (Mat2, Vec2, Mat2) {
    let (a, c, bb, d) = (
        m.x_axis.x as f64,
        m.x_axis.y as f64,
        m.y_axis.x as f64,
        m.y_axis.y as f64,
    );
    let (e, f, g, h) = ((a + d) / 2.0, (a - d) / 2.0, (c + bb) / 2.0, (c - bb) / 2.0);
    let (q, p) = (e.hypot(h), f.hypot(g));
    let (a1, a2) = (g.atan2(f), h.atan2(e));
    let (theta, phi) = ((a2 - a1) / 2.0, (a2 + a1) / 2.0);
    let rot = |t: f64| {
        Mat2::from_cols(
            Vec2::new(t.cos() as f32, t.sin() as f32),
            Vec2::new(-t.sin() as f32, t.cos() as f32),
        )
    };
    (rot(phi), Vec2::new((q + p) as f32, (q - p) as f32), rot(theta))
}

fn host() -> impl Numerics {
    Host::new(
        |x: Binary32, y: Binary32| b(r(x).powf(r(y))),
        |x: Binary32, y: Binary32| b(r(x).powf(r(y))),
        |f: Unary, x: Binary32| b(single(f, r(x))),
        |f: Unary, x: Binary64| {
            Binary64::from_bits(double(f, f64::from_bits(x.to_bits())).to_bits())
        },
        |t: Binary32| b(saturation_pressure(r(t))),
        |m: linalg::Mat2| lib(exponential(mat(m))),
        |f: linalg::Mat2, step: linalg::Mat2, _v: Binary32, _v0: Binary32| {
            lib(exponential(mat(step)) * mat(f))
        },
        |m: linalg::Mat2| {
            let (u, s, vt) = svd(mat(m));
            (lib(u), linalg::Vec2::new(b(s.x), b(s.y)), lib(vt))
        },
        |x: Binary32, rho: Binary32, c: matter::particle::SimConfig| {
            b(r(x) / (r(rho) * r(c.dx_meters) * r(c.dx_meters)))
        },
        |x: Binary32, rho: Binary32, c: matter::particle::SimConfig| {
            b(r(x) / (r(rho) * r(c.dx_meters) * r(c.dx_meters)))
        },
    )
}
use matter::elastic::NeoHookeanMaterial;
use matter::model::{
    ConstitutiveModel, FallbackMaterial, MaterialModel, MixturePhase, Response, MAX_MIXTURE_PHASES,
};
use matter::nacc::NaccMaterial;
use matter::params::{MaterialParams, PARAMS_WORDS};
use matter::particle::Particle;
use matter::wrappers::{WithLatentHeat, WithLatentHeatTable, WithMixturePhase, WithPreStress};

const ICE_ID: u32 = 0;
const STEAM_ID: u32 = 2;

fn jelly() -> NeoHookeanMaterial {
    NeoHookeanMaterial::new(b(10.0), b(20.0))
}

#[test]
fn with_latent_heat_ignores_source_and_stays_flat() {
    let water = WithLatentHeat::new(jelly(), b(334_000.0));
    assert_eq!(r(water.latent_heat(ICE_ID)), 334_000.0);
    assert_eq!(r(water.latent_heat(STEAM_ID)), 334_000.0);
    assert_eq!(r(water.latent_heat(999)), 334_000.0);
}

#[test]
fn with_latent_heat_table_picks_the_real_value_for_each_real_source() {
    let water = WithLatentHeatTable::new(
        jelly(),
        vec![(ICE_ID, b(334_000.0)), (STEAM_ID, b(-2_257_000.0))],
    );
    assert_eq!(r(water.latent_heat(ICE_ID)), 334_000.0);
    assert_eq!(r(water.latent_heat(STEAM_ID)), -2_257_000.0);
}

#[test]
fn with_latent_heat_table_defaults_to_zero_for_an_undeclared_source() {
    let water = WithLatentHeatTable::new(jelly(), vec![(ICE_ID, b(334_000.0))]);
    assert_eq!(r(water.latent_heat(STEAM_ID)), 0.0);
    assert_eq!(r(water.latent_heat(999)), 0.0);
}

#[test]
fn the_first_entry_of_a_source_counts() {
    let water = WithLatentHeatTable::new(
        jelly(),
        vec![(7, b(1.0)), (3, b(2.0)), (7, b(3.0))],
    );
    assert_eq!(r(water.latent_heat(7)), 1.0);
    assert_eq!(r(water.latent_heat(3)), 2.0);
}

#[test]
fn a_phase_is_added_and_all_else_forwarded() {
    let soil = NaccMaterial::soft_clay(b(1000.0), b(0.25));
    let phased = WithMixturePhase::new(soil, MixturePhase::fluid());
    assert_eq!(phased.mixture_phase(), Some(MixturePhase(1)));
    assert_eq!(soil.mixture_phase(), None);
    assert_eq!(phased.constitutive_model(), ConstitutiveModel::Nacc);
    assert!(phased.needs_cpu_update());
    assert_eq!(phased.gpu_unsupported_reason(), soil.gpu_unsupported_reason());
    assert_eq!(phased.params(), soil.params());
    assert_eq!(r(phased.latent_heat(3)), 0.0);
    let n = host();
    let mut p = Particle::zeroed();
    p.deformation_gradient = lib(Mat2::from_diagonal(Vec2::new(1.1, 0.9)));
    p.initial_volume = b(2.0);
    assert_eq!(phased.kirchhoff_stress(&p, &n), soil.kirchhoff_stress(&p, &n));
    assert_eq!(phased.stress_volume(&p), b(2.0));
    assert_eq!(
        phased.timestep_bound(b(1.0), b(1.0), b(1.0), b(0.5), b(0.5), &n),
        soil.timestep_bound(b(1.0), b(1.0), b(1.0), b(0.5), b(0.5), &n)
    );
    assert_eq!(MixturePhase::solid(), MixturePhase(0));
    assert_eq!(MAX_MIXTURE_PHASES, 4);
}

#[test]
fn wrappers_nest() {
    let inner = WithLatentHeat::new(jelly(), b(5.0));
    let both = WithMixturePhase::new(inner, MixturePhase::solid());
    assert_eq!(r(both.latent_heat(1)), 5.0);
    let outer = WithPreStress::new(both, b(3.0));
    assert_eq!(outer.mixture_phase(), Some(MixturePhase(0)));
    assert_eq!(r(outer.latent_heat(1)), 5.0);
}

#[test]
fn pre_stress_is_set_on_spawn_and_on_transition() {
    let m = WithPreStress::new(NaccMaterial::peat(b(1000.0), b(0.25)), b(7.0));
    let mut p = Particle::zeroed();
    p.log_volume_strain = b(-3.0);
    m.init_particle(&mut p);
    assert_eq!((r(p.internal_pressure), r(p.log_volume_strain)), (7.0, 0.0));
    let mut q = Particle::zeroed();
    q.log_volume_strain = b(-3.0);
    m.init_particle_from_transition(&mut q);
    assert_eq!((r(q.internal_pressure), r(q.log_volume_strain)), (7.0, 0.0));
}

#[test]
fn wrappers_forward_what_they_do_not_override() {
    let n = host();
    let mut water = matter::fluid::NewtonianFluidMaterial::low_viscosity(b(1000.0), b(1.0e5));
    water.specific_heat_j_kg_k = b(4184.0);
    water.optics = Some(matter::optical::pure_water());
    let wrapped = WithLatentHeat::new(water, b(334.0));
    assert_eq!(wrapped.rest_acoustic_c2(), Some(b(700.0)));
    assert_eq!(wrapped.acoustic_c2_at_temperature(b(300.0)), Some(b(700.0)));
    assert_eq!(wrapped.acoustic_c2_at(b(1.0), b(300.0), &n), Some(b(700.0)));
    assert_eq!(wrapped.acoustic_c2_at_particle(&Particle::zeroed(), &n), Some(b(700.0)));
    assert_eq!(wrapped.optical_properties(), water.optics);
    assert_eq!(r(wrapped.specific_heat_j_kg_k()), 4184.0);
    assert!(wrapped.hydrostatic_volume_ratio(b(10.0), &n).is_some());
    assert!(wrapped.owns_deformation_volume_state());
    let tissue = WithPreStress::new(
        matter::corotated::CorotatedMaterial::new(b(3.0), b(4.0)),
        b(1.0),
    );
    assert_eq!(tissue.corotated_lame_params(), Some((b(3.0), b(4.0))));
    assert_eq!(tissue.current_friction_coefficient(&Particle::zeroed()), None);
    assert_eq!(r(tissue.luminous_emission_w_m3()), 0.0);
}

#[test]
fn materials_without_a_shader_say_so() {
    let silk = matter::no_compression::NoCompressionMaterial::new(b(100.0), b(200.0));
    assert!(silk.gpu_unsupported_reason().unwrap().starts_with("NoCompressionMaterial"));
    let air = matter::gas::GasMaterial::new(b(1.2), b(0.0), b(287.0), b(1.4), b(300.0));
    assert!(air.gpu_unsupported_reason().unwrap().starts_with("GasMaterial"));
    assert_eq!(jelly().gpu_unsupported_reason(), None);
}

#[test]
fn the_fallback_material_does_nothing() {
    let n = host();
    let mut p = Particle::zeroed();
    p.volume = b(2.0);
    let before = p;
    let m = FallbackMaterial;
    m.init_particle(&mut p);
    m.init_particle_from_transition(&mut p);
    m.update_particle(&mut p, b(1.0), &n);
    assert_eq!(p, before);
    assert_eq!(m.constitutive_model(), ConstitutiveModel::Fallback);
    assert_eq!(mat(m.kirchhoff_stress(&p, &n)), Mat2::ZERO);
    assert_eq!(
        r(m.timestep_bound(b(1.0), b(1.0), b(1.0), b(1.0), b(1.0), &n)),
        f32::INFINITY
    );
    assert_eq!(m.params(), MaterialParams::default());
    assert_eq!(m.mixture_phase(), None);
    assert_eq!(m.gpu_unsupported_reason(), None);
    assert_eq!(r(m.luminous_emission_w_m3()), 0.0);
    assert_eq!(r(m.cohesion_bonus_pa(b(0.5))), 0.0);
    assert_eq!(m.hydrostatic_volume_ratio(b(1.0), &n), None);
}

#[test]
fn discriminants_are_the_shader_branches() {
    let all = [
        ConstitutiveModel::Fallback,
        ConstitutiveModel::Fluid,
        ConstitutiveModel::NeoHookean,
        ConstitutiveModel::Corotated,
        ConstitutiveModel::Snow,
        ConstitutiveModel::DruckerPrager,
        ConstitutiveModel::VonMises,
        ConstitutiveModel::Rankine,
        ConstitutiveModel::DruckerPragerMuI,
        ConstitutiveModel::Viscoelastic,
        ConstitutiveModel::Nacc,
        ConstitutiveModel::GranularFluid,
        ConstitutiveModel::NoCompression,
        ConstitutiveModel::Gas,
    ];
    for (i, model) in all.iter().enumerate() {
        assert_eq!(model.discriminant(), i as u32);
        assert_eq!(*model as u32, i as u32);
    }
}

#[test]
fn an_upload_is_twenty_eight_words_in_order() {
    let mut params = MaterialParams::zeroed();
    assert_eq!(params.words(), vec![0u32; PARAMS_WORDS]);
    params.model = 3;
    params.lambda = b(1.0);
    params.cohesion_coeff = b(2.0);
    params.owns_deformation_volume_state = 1;
    let words = params.words();
    assert_eq!(words.len() * 4, 112);
    assert_eq!((words[0], words[1], words[23], words[24]), (3, 0x3f80_0000, 0x4000_0000, 1));
    assert_eq!(words[2], 0);
}
