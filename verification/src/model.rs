use vstd::prelude::*;

use crate::binary::single::Binary32;
use crate::linalg::Mat2;
use crate::numerics::Numerics;
use crate::optical::OpticalCoefficientsSi;
use crate::params::MaterialParams;
use crate::particle::Particle;

verus! {

/// The constitutive model that a material implements. The discriminants are the
/// branch numbers of the shaders that read [`MaterialParams::model`].
#[non_exhaustive]
#[derive(Clone, Copy, Debug, PartialEq, Eq, Structural)]
pub enum ConstitutiveModel {
    Fallback,
    /// Weakly compressible fluid, Tait equation of state.
    Fluid,
    /// Neo-Hookean hyperelastic solid.
    NeoHookean,
    /// Corotated linear elastic solid.
    Corotated,
    /// Corotated with clamped singular values.
    Snow,
    /// Corotated with a Drucker-Prager yield surface.
    DruckerPrager,
    /// J2 plasticity.
    VonMises,
    /// Tensile cutoff with softening.
    Rankine,
    /// Rate-dependent Drucker-Prager.
    DruckerPragerMuI,
    /// Kelvin-Voigt solid.
    Viscoelastic,
    /// Non-associated Cam-Clay.
    Nacc,
    /// Tait equation of state with a corotated deviator and plastic clamps.
    GranularFluid,
    /// Tension-only elastic solid.
    NoCompression,
    /// Ideal gas.
    Gas,
}

impl ConstitutiveModel {
    pub open spec fn number(self) -> u32 {
        match self {
            ConstitutiveModel::Fallback => 0,
            ConstitutiveModel::Fluid => 1,
            ConstitutiveModel::NeoHookean => 2,
            ConstitutiveModel::Corotated => 3,
            ConstitutiveModel::Snow => 4,
            ConstitutiveModel::DruckerPrager => 5,
            ConstitutiveModel::VonMises => 6,
            ConstitutiveModel::Rankine => 7,
            ConstitutiveModel::DruckerPragerMuI => 8,
            ConstitutiveModel::Viscoelastic => 9,
            ConstitutiveModel::Nacc => 10,
            ConstitutiveModel::GranularFluid => 11,
            ConstitutiveModel::NoCompression => 12,
            ConstitutiveModel::Gas => 13,
        }
    }

    /// The branch number of the model.
    #[verifier::when_used_as_spec(number)]
    pub fn discriminant(self) -> (r: u32)
        ensures
            r == self.number(),
    {
        match self {
            ConstitutiveModel::Fallback => 0,
            ConstitutiveModel::Fluid => 1,
            ConstitutiveModel::NeoHookean => 2,
            ConstitutiveModel::Corotated => 3,
            ConstitutiveModel::Snow => 4,
            ConstitutiveModel::DruckerPrager => 5,
            ConstitutiveModel::VonMises => 6,
            ConstitutiveModel::Rankine => 7,
            ConstitutiveModel::DruckerPragerMuI => 8,
            ConstitutiveModel::Viscoelastic => 9,
            ConstitutiveModel::Nacc => 10,
            ConstitutiveModel::GranularFluid => 11,
            ConstitutiveModel::NoCompression => 12,
            ConstitutiveModel::Gas => 13,
        }
    }
}

/// No two models share a branch number.
pub proof fn law_discriminants_are_distinct(a: ConstitutiveModel, b: ConstitutiveModel)
    requires
        a.number() == b.number(),
    ensures
        a == b,
{
}

/// The most phases that one grid resolves.
pub const MAX_MIXTURE_PHASES: usize = 4;

/// The phase of a mixture that a material's particles belong to.
#[derive(Clone, Copy, Debug, PartialEq, Eq, Structural)]
pub struct MixturePhase(pub u8);

impl MixturePhase {
    /// The solid skeleton.
    #[verifier::allow_in_spec]
    pub fn solid() -> MixturePhase
        returns
            MixturePhase(0),
    {
        MixturePhase(0)
    }

    /// The pore fluid.
    #[verifier::allow_in_spec]
    pub fn fluid() -> MixturePhase
        returns
            MixturePhase(1),
    {
        MixturePhase(1)
    }
}

/// What a solver asks of a material, without its stress response.
///
/// A method that a material does not define answers as its `default_ensures` says.
pub trait MaterialModel: Sized {
    /// Particles of other materials can pass into this one.
    open spec fn enterable(&self) -> bool {
        true
    }

    fn constitutive_model(&self) -> (r: ConstitutiveModel)
        default_ensures
            r == ConstitutiveModel::Fallback,
    {
        ConstitutiveModel::Fallback
    }

    /// The volume that the stress of a particle acts on.
    fn stress_volume(&self, particle: &Particle) -> (r: Binary32)
        default_ensures
            r == particle.initial_volume,
    {
        particle.initial_volume
    }

    /// Squared sound speed at rest, in grid units.
    fn rest_acoustic_c2(&self) -> (r: Option<Binary32>)
        default_ensures
            r == None::<Binary32>,
    {
        None
    }

    /// Squared sound speed at a temperature.
    fn acoustic_c2_at_temperature(&self, temperature_k: Binary32) -> (r: Option<Binary32>)
        default_ensures
            call_ensures(Self::rest_acoustic_c2, (self,), r),
    {
        self.rest_acoustic_c2()
    }

    /// The friction coefficient of a particle, for materials that have one.
    fn current_friction_coefficient(&self, particle: &Particle) -> (r: Option<Binary32>)
        default_ensures
            r == None::<Binary32>,
    {
        None
    }

    /// A particle as it is spawned into this material.
    spec fn initialised(&self, p: Particle) -> Particle;

    fn init_particle(&self, particle: &mut Particle)
        ensures
            *final(particle) == self.initialised(*old(particle)),
    ;

    /// A particle as it passes into this material from another one.
    spec fn transitioned(&self, p: Particle) -> Particle;

    fn init_particle_from_transition(&self, particle: &mut Particle)
        requires
            self.enterable(),
        ensures
            *final(particle) == self.transitioned(*old(particle)),
    ;

    /// Whether the plastic update has to run beside the shader.
    fn needs_cpu_update(&self) -> (r: bool)
        default_ensures
            !r,
    {
        false
    }

    /// Why the shaders cannot run this material; starts with the type's name.
    fn gpu_unsupported_reason(&self) -> (r: Option<&'static str>)
        default_ensures
            r == None::<&'static str>,
    {
        None
    }

    /// Whether density comes from the mass gathered on the grid.
    fn needs_density_recompute(&self) -> (r: bool)
        default_ensures
            !r,
    {
        false
    }

    /// Whether the material keeps volume and density itself.
    fn owns_deformation_volume_state(&self) -> (r: bool)
        default_ensures
            !r,
    {
        false
    }

    fn mixture_phase(&self) -> (r: Option<MixturePhase>)
        default_ensures
            r == None::<MixturePhase>,
    {
        None
    }

    /// The Lame parameters, where the stress is the plain corotated one.
    fn corotated_lame_params(&self) -> (r: Option<(Binary32, Binary32)>)
        default_ensures
            r == None::<(Binary32, Binary32)>,
    {
        None
    }

    /// Stress per unit of activation.
    fn activation_scale(&self) -> (r: Binary32)
        default_ensures
            r == Binary32::zero(),
    {
        Binary32::zero()
    }

    /// Stress per unit of internal pressure.
    fn pressure_scale(&self) -> (r: Binary32)
        default_ensures
            r == Binary32::zero(),
    {
        Binary32::zero()
    }

    /// Light emitted per volume.
    fn luminous_emission_w_m3(&self) -> (r: Binary32)
        default_ensures
            r == Binary32::zero(),
    {
        Binary32::zero()
    }

    fn optical_properties(&self) -> (r: Option<OpticalCoefficientsSi>)
        default_ensures
            r == None::<OpticalCoefficientsSi>,
    {
        None
    }

    fn specific_heat_j_kg_k(&self) -> (r: Binary32)
        default_ensures
            r == Binary32::zero(),
    {
        Binary32::zero()
    }

    /// The parameters to upload.
    fn params(&self) -> (r: MaterialParams)
        default_ensures
            r == MaterialParams::zeroed(),
    {
        MaterialParams::zeroed()
    }

    /// Heat per mass taken up by a particle that passes over from a material.
    fn latent_heat(&self, from_material_id: u32) -> (r: Binary32)
        default_ensures
            r == Binary32::zero(),
    {
        Binary32::zero()
    }

    /// Extra cohesion at a value of the particle's scalar field.
    fn cohesion_bonus_pa(&self, scalar_field: Binary32) -> (r: Binary32)
        default_ensures
            r == Binary32::zero(),
    {
        Binary32::zero()
    }
}

/// The stress response of a material, for the numerical routines of an engine.
pub trait Response<N: Numerics>: MaterialModel {
    /// A particle whose stress can be evaluated.
    open spec fn admits(&self, p: Particle, n: &N) -> bool {
        true
    }

    /// A step bound can be evaluated.
    open spec fn has_step_bound(&self) -> bool {
        true
    }

    /// Particles can be moved by a step.
    open spec fn steppable(&self) -> bool {
        true
    }

    /// A state whose sound speed can be evaluated.
    open spec fn audible(&self, density: Binary32, temperature_k: Binary32, n: &N) -> bool {
        true
    }

    fn kirchhoff_stress(&self, particle: &Particle, n: &N) -> (r: Mat2)
        requires
            self.admits(*particle, n),
        default_ensures
            r == Mat2::zero(),
    {
        Mat2::zero()
    }

    /// The largest stable step.
    fn timestep_bound(
        &self,
        density: Binary32,
        hardening_scale: Binary32,
        cell_width: Binary32,
        material_cfl: Binary32,
        viscous_cfl: Binary32,
        n: &N,
    ) -> (r: Binary32)
        requires
            self.has_step_bound(),
        default_ensures
            r == Binary32::infinity(),
    {
        Binary32::infinity()
    }

    /// Squared sound speed at a density and a temperature.
    fn acoustic_c2_at(&self, density: Binary32, temperature_k: Binary32, n: &N) -> (r: Option<
        Binary32,
    >)
        requires
            self.audible(density, temperature_k, n),
        default_ensures
            call_ensures(Self::acoustic_c2_at_temperature, (self, temperature_k), r),
    {
        self.acoustic_c2_at_temperature(temperature_k)
    }

    /// Squared sound speed at the state of a particle.
    fn acoustic_c2_at_particle(&self, particle: &Particle, n: &N) -> (r: Option<Binary32>)
        requires
            self.audible(particle.density, particle.temperature, n),
        default_ensures
            call_ensures(
                <Self as Response<N>>::acoustic_c2_at,
                (self, particle.density, particle.temperature, n),
                r,
            ),
    {
        self.acoustic_c2_at(particle.density, particle.temperature, n)
    }

    /// A particle after a step `dt`.
    spec fn updated(&self, p: Particle, dt: Binary32, n: &N) -> Particle;

    fn update_particle(&self, particle: &mut Particle, dt: Binary32, n: &N)
        requires
            self.steppable(),
        ensures
            *final(particle) == self.updated(*old(particle), dt, n),
    ;

    /// The volume ratio at which the material carries a pressure at rest.
    fn hydrostatic_volume_ratio(&self, pressure: Binary32, n: &N) -> (r: Option<Binary32>)
        default_ensures
            r == None::<Binary32>,
    {
        None
    }
}

/// The material of an unassigned slot: no stress, no update.
#[derive(Clone, Copy, Debug, PartialEq, Eq, Structural)]
pub struct FallbackMaterial;

impl MaterialModel for FallbackMaterial {
    open spec fn initialised(&self, p: Particle) -> Particle {
        p
    }

    fn init_particle(&self, particle: &mut Particle) {
    }

    open spec fn transitioned(&self, p: Particle) -> Particle {
        p
    }

    fn init_particle_from_transition(&self, particle: &mut Particle) {
    }
}

impl<N: Numerics> Response<N> for FallbackMaterial {
    open spec fn updated(&self, p: Particle, dt: Binary32, n: &N) -> Particle {
        p
    }

    fn update_particle(&self, particle: &mut Particle, dt: Binary32, n: &N) {
    }
}

} // verus!
