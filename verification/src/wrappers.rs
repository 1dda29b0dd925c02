use vstd::prelude::*;

use crate::binary::single::Binary32;
use crate::linalg::Mat2;
use crate::model::ConstitutiveModel;
use crate::model::MaterialModel;
use crate::model::MixturePhase;
use crate::model::Response;
use crate::numerics::Numerics;
use crate::optical::OpticalCoefficientsSi;
use crate::params::MaterialParams;
use crate::particle::Particle;

verus! {

/// The value of the first entry for `id`, zero if there is none.
pub open spec fn first_entry(entries: Seq<(u32, Binary32)>, id: u32) -> Binary32
    decreases entries.len(),
{
    if entries.len() == 0 {
        Binary32::zero()
    } else if entries[0].0 == id {
        entries[0].1
    } else {
        first_entry(entries.skip(1), id)
    }
}

/// A material with one latent heat, whichever material a particle comes from.
///
/// All else is what `inner` answers.
#[derive(Clone, Copy, Debug)]
pub struct WithLatentHeat<M> {
    pub inner: M,
    /// Heat per mass.
    pub latent_heat: Binary32,
}

impl<M> WithLatentHeat<M> {
    pub fn new(inner: M, latent_heat: Binary32) -> (r: Self)
        ensures
            r.inner == inner,
            r.latent_heat == latent_heat,
    {
        WithLatentHeat { inner, latent_heat }
    }
}

impl<M: MaterialModel> MaterialModel for WithLatentHeat<M> {
    open spec fn enterable(&self) -> bool {
        self.inner.enterable()
    }

    fn constitutive_model(&self) -> (r: ConstitutiveModel)
        ensures
            call_ensures(M::constitutive_model, (&self.inner,), r),
    {
        self.inner.constitutive_model()
    }

    fn rest_acoustic_c2(&self) -> (r: Option<Binary32>)
        ensures
            call_ensures(M::rest_acoustic_c2, (&self.inner,), r),
    {
        self.inner.rest_acoustic_c2()
    }

    fn acoustic_c2_at_temperature(&self, temperature_k: Binary32) -> (r: Option<Binary32>)
        ensures
            call_ensures(M::acoustic_c2_at_temperature, (&self.inner, temperature_k), r),
    {
        self.inner.acoustic_c2_at_temperature(temperature_k)
    }

    fn current_friction_coefficient(&self, particle: &Particle) -> (r: Option<Binary32>)
        ensures
            call_ensures(M::current_friction_coefficient, (&self.inner, particle), r),
    {
        self.inner.current_friction_coefficient(particle)
    }

    fn corotated_lame_params(&self) -> (r: Option<(Binary32, Binary32)>)
        ensures
            call_ensures(M::corotated_lame_params, (&self.inner,), r),
    {
        self.inner.corotated_lame_params()
    }

    fn luminous_emission_w_m3(&self) -> (r: Binary32)
        ensures
            call_ensures(M::luminous_emission_w_m3, (&self.inner,), r),
    {
        self.inner.luminous_emission_w_m3()
    }

    fn optical_properties(&self) -> (r: Option<OpticalCoefficientsSi>)
        ensures
            call_ensures(M::optical_properties, (&self.inner,), r),
    {
        self.inner.optical_properties()
    }

    fn specific_heat_j_kg_k(&self) -> (r: Binary32)
        ensures
            call_ensures(M::specific_heat_j_kg_k, (&self.inner,), r),
    {
        self.inner.specific_heat_j_kg_k()
    }

    fn needs_cpu_update(&self) -> (r: bool)
        ensures
            call_ensures(M::needs_cpu_update, (&self.inner,), r),
    {
        self.inner.needs_cpu_update()
    }

    fn gpu_unsupported_reason(&self) -> (r: Option<&'static str>)
        ensures
            call_ensures(M::gpu_unsupported_reason, (&self.inner,), r),
    {
        self.inner.gpu_unsupported_reason()
    }

    fn needs_density_recompute(&self) -> (r: bool)
        ensures
            call_ensures(M::needs_density_recompute, (&self.inner,), r),
    {
        self.inner.needs_density_recompute()
    }

    fn owns_deformation_volume_state(&self) -> (r: bool)
        ensures
            call_ensures(M::owns_deformation_volume_state, (&self.inner,), r),
    {
        self.inner.owns_deformation_volume_state()
    }

    fn activation_scale(&self) -> (r: Binary32)
        ensures
            call_ensures(M::activation_scale, (&self.inner,), r),
    {
        self.inner.activation_scale()
    }

    fn pressure_scale(&self) -> (r: Binary32)
        ensures
            call_ensures(M::pressure_scale, (&self.inner,), r),
    {
        self.inner.pressure_scale()
    }

    fn params(&self) -> (r: MaterialParams)
        ensures
            call_ensures(M::params, (&self.inner,), r),
    {
        self.inner.params()
    }

    fn stress_volume(&self, particle: &Particle) -> (r: Binary32)
        ensures
            call_ensures(M::stress_volume, (&self.inner, particle), r),
    {
        self.inner.stress_volume(particle)
    }

    fn cohesion_bonus_pa(&self, scalar_field: Binary32) -> (r: Binary32)
        ensures
            call_ensures(M::cohesion_bonus_pa, (&self.inner, scalar_field), r),
    {
        self.inner.cohesion_bonus_pa(scalar_field)
    }

    open spec fn initialised(&self, p: Particle) -> Particle {
        self.inner.initialised(p)
    }

    fn init_particle(&self, particle: &mut Particle) {
        self.inner.init_particle(particle)
    }

    open spec fn transitioned(&self, p: Particle) -> Particle {
        self.inner.transitioned(p)
    }

    fn init_particle_from_transition(&self, particle: &mut Particle) {
        self.inner.init_particle_from_transition(particle)
    }

    fn mixture_phase(&self) -> (r: Option<MixturePhase>)
        ensures
            call_ensures(M::mixture_phase, (&self.inner,), r),
    {
        self.inner.mixture_phase()
    }

    fn latent_heat(&self, from_material_id: u32) -> (r: Binary32)
        ensures
            r == self.latent_heat,
    {
        self.latent_heat
    }
}

impl<M: Response<N>, N: Numerics> Response<N> for WithLatentHeat<M> {
    open spec fn admits(&self, p: Particle, n: &N) -> bool {
        self.inner.admits(p, n)
    }

    open spec fn has_step_bound(&self) -> bool {
        <M as Response<N>>::has_step_bound(&self.inner)
    }

    open spec fn steppable(&self) -> bool {
        <M as Response<N>>::steppable(&self.inner)
    }

    open spec fn audible(&self, density: Binary32, temperature_k: Binary32, n: &N) -> bool {
        self.inner.audible(density, temperature_k, n)
    }

    fn kirchhoff_stress(&self, particle: &Particle, n: &N) -> (r: Mat2)
        ensures
            call_ensures(<M as Response<N>>::kirchhoff_stress, (&self.inner, particle, n), r),
    {
        self.inner.kirchhoff_stress(particle, n)
    }

    fn timestep_bound(
        &self,
        density: Binary32,
        hardening_scale: Binary32,
        cell_width: Binary32,
        material_cfl: Binary32,
        viscous_cfl: Binary32,
        n: &N,
    ) -> (r: Binary32)
        ensures
            call_ensures(
                <M as Response<N>>::timestep_bound,
                (&self.inner, density, hardening_scale, cell_width, material_cfl, viscous_cfl, n),
                r,
            ),
    {
        self.inner.timestep_bound(
            density,
            hardening_scale,
            cell_width,
            material_cfl,
            viscous_cfl,
            n,
        )
    }

    fn acoustic_c2_at(&self, density: Binary32, temperature_k: Binary32, n: &N) -> (r: Option<
        Binary32,
    >)
        ensures
            call_ensures(
                <M as Response<N>>::acoustic_c2_at,
                (&self.inner, density, temperature_k, n),
                r,
            ),
    {
        self.inner.acoustic_c2_at(density, temperature_k, n)
    }

    fn acoustic_c2_at_particle(&self, particle: &Particle, n: &N) -> (r: Option<Binary32>)
        ensures
            call_ensures(
                <M as Response<N>>::acoustic_c2_at_particle,
                (&self.inner, particle, n),
                r,
            ),
    {
        self.inner.acoustic_c2_at_particle(particle, n)
    }

    fn hydrostatic_volume_ratio(&self, pressure: Binary32, n: &N) -> (r: Option<Binary32>)
        ensures
            call_ensures(
                <M as Response<N>>::hydrostatic_volume_ratio,
                (&self.inner, pressure, n),
                r,
            ),
    {
        self.inner.hydrostatic_volume_ratio(pressure, n)
    }

    open spec fn updated(&self, p: Particle, dt: Binary32, n: &N) -> Particle {
        self.inner.updated(p, dt, n)
    }

    fn update_particle(&self, particle: &mut Particle, dt: Binary32, n: &N) {
        self.inner.update_particle(particle, dt, n)
    }
}

/// A material with a latent heat per source material; sources that are not listed
/// take up none.
///
/// All else is what `inner` answers.
#[derive(Clone, Debug)]
pub struct WithLatentHeatTable<M> {
    pub inner: M,
    /// Heat per mass by the id of the source material; the first entry counts.
    pub latent_heat_by_source: Vec<(u32, Binary32)>,
}

impl<M> WithLatentHeatTable<M> {
    pub fn new(inner: M, latent_heat_by_source: Vec<(u32, Binary32)>) -> (r: Self)
        ensures
            r.inner == inner,
            r.latent_heat_by_source == latent_heat_by_source,
    {
        WithLatentHeatTable { inner, latent_heat_by_source }
    }
}

impl<M: MaterialModel> MaterialModel for WithLatentHeatTable<M> {
    open spec fn enterable(&self) -> bool {
        self.inner.enterable()
    }

    fn constitutive_model(&self) -> (r: ConstitutiveModel)
        ensures
            call_ensures(M::constitutive_model, (&self.inner,), r),
    {
        self.inner.constitutive_model()
    }

    fn rest_acoustic_c2(&self) -> (r: Option<Binary32>)
        ensures
            call_ensures(M::rest_acoustic_c2, (&self.inner,), r),
    {
        self.inner.rest_acoustic_c2()
    }

    fn acoustic_c2_at_temperature(&self, temperature_k: Binary32) -> (r: Option<Binary32>)
        ensures
            call_ensures(M::acoustic_c2_at_temperature, (&self.inner, temperature_k), r),
    {
        self.inner.acoustic_c2_at_temperature(temperature_k)
    }

    fn current_friction_coefficient(&self, particle: &Particle) -> (r: Option<Binary32>)
        ensures
            call_ensures(M::current_friction_coefficient, (&self.inner, particle), r),
    {
        self.inner.current_friction_coefficient(particle)
    }

    fn corotated_lame_params(&self) -> (r: Option<(Binary32, Binary32)>)
        ensures
            call_ensures(M::corotated_lame_params, (&self.inner,), r),
    {
        self.inner.corotated_lame_params()
    }

    fn luminous_emission_w_m3(&self) -> (r: Binary32)
        ensures
            call_ensures(M::luminous_emission_w_m3, (&self.inner,), r),
    {
        self.inner.luminous_emission_w_m3()
    }

    fn optical_properties(&self) -> (r: Option<OpticalCoefficientsSi>)
        ensures
            call_ensures(M::optical_properties, (&self.inner,), r),
    {
        self.inner.optical_properties()
    }

    fn specific_heat_j_kg_k(&self) -> (r: Binary32)
        ensures
            call_ensures(M::specific_heat_j_kg_k, (&self.inner,), r),
    {
        self.inner.specific_heat_j_kg_k()
    }

    fn needs_cpu_update(&self) -> (r: bool)
        ensures
            call_ensures(M::needs_cpu_update, (&self.inner,), r),
    {
        self.inner.needs_cpu_update()
    }

    fn gpu_unsupported_reason(&self) -> (r: Option<&'static str>)
        ensures
            call_ensures(M::gpu_unsupported_reason, (&self.inner,), r),
    {
        self.inner.gpu_unsupported_reason()
    }

    fn needs_density_recompute(&self) -> (r: bool)
        ensures
            call_ensures(M::needs_density_recompute, (&self.inner,), r),
    {
        self.inner.needs_density_recompute()
    }

    fn owns_deformation_volume_state(&self) -> (r: bool)
        ensures
            call_ensures(M::owns_deformation_volume_state, (&self.inner,), r),
    {
        self.inner.owns_deformation_volume_state()
    }

    fn activation_scale(&self) -> (r: Binary32)
        ensures
            call_ensures(M::activation_scale, (&self.inner,), r),
    {
        self.inner.activation_scale()
    }

    fn pressure_scale(&self) -> (r: Binary32)
        ensures
            call_ensures(M::pressure_scale, (&self.inner,), r),
    {
        self.inner.pressure_scale()
    }

    fn params(&self) -> (r: MaterialParams)
        ensures
            call_ensures(M::params, (&self.inner,), r),
    {
        self.inner.params()
    }

    fn stress_volume(&self, particle: &Particle) -> (r: Binary32)
        ensures
            call_ensures(M::stress_volume, (&self.inner, particle), r),
    {
        self.inner.stress_volume(particle)
    }

    fn cohesion_bonus_pa(&self, scalar_field: Binary32) -> (r: Binary32)
        ensures
            call_ensures(M::cohesion_bonus_pa, (&self.inner, scalar_field), r),
    {
        self.inner.cohesion_bonus_pa(scalar_field)
    }

    open spec fn initialised(&self, p: Particle) -> Particle {
        self.inner.initialised(p)
    }

    fn init_particle(&self, particle: &mut Particle) {
        self.inner.init_particle(particle)
    }

    open spec fn transitioned(&self, p: Particle) -> Particle {
        self.inner.transitioned(p)
    }

    fn init_particle_from_transition(&self, particle: &mut Particle) {
        self.inner.init_particle_from_transition(particle)
    }

    fn mixture_phase(&self) -> (r: Option<MixturePhase>)
        ensures
            call_ensures(M::mixture_phase, (&self.inner,), r),
    {
        self.inner.mixture_phase()
    }

    fn latent_heat(&self, from_material_id: u32) -> (r: Binary32)
        ensures
            r == first_entry(self.latent_heat_by_source@, from_material_id),
    {
        let mut i: usize = 0;
        proof {
            assert(self.latent_heat_by_source@.skip(0) =~= self.latent_heat_by_source@);
        }
        while i < self.latent_heat_by_source.len()
            invariant
                i <= self.latent_heat_by_source.len(),
                first_entry(self.latent_heat_by_source@, from_material_id) == first_entry(
                    self.latent_heat_by_source@.skip(i as int),
                    from_material_id,
                ),
            decreases self.latent_heat_by_source.len() - i,
        {
            let ghost rest = self.latent_heat_by_source@.skip(i as int);
            let entry = self.latent_heat_by_source[i];
            proof {
                assert(rest[0] == entry);
                assert(rest.skip(1) =~= self.latent_heat_by_source@.skip(i + 1));
            }
            if entry.0 == from_material_id {
                return entry.1;
            }
            i = i + 1;
        }
        Binary32::zero()
    }
}

impl<M: Response<N>, N: Numerics> Response<N> for WithLatentHeatTable<M> {
    open spec fn admits(&self, p: Particle, n: &N) -> bool {
        self.inner.admits(p, n)
    }

    open spec fn has_step_bound(&self) -> bool {
        <M as Response<N>>::has_step_bound(&self.inner)
    }

    open spec fn steppable(&self) -> bool {
        <M as Response<N>>::steppable(&self.inner)
    }

    open spec fn audible(&self, density: Binary32, temperature_k: Binary32, n: &N) -> bool {
        self.inner.audible(density, temperature_k, n)
    }

    fn kirchhoff_stress(&self, particle: &Particle, n: &N) -> (r: Mat2)
        ensures
            call_ensures(<M as Response<N>>::kirchhoff_stress, (&self.inner, particle, n), r),
    {
        self.inner.kirchhoff_stress(particle, n)
    }

    fn timestep_bound(
        &self,
        density: Binary32,
        hardening_scale: Binary32,
        cell_width: Binary32,
        material_cfl: Binary32,
        viscous_cfl: Binary32,
        n: &N,
    ) -> (r: Binary32)
        ensures
            call_ensures(
                <M as Response<N>>::timestep_bound,
                (&self.inner, density, hardening_scale, cell_width, material_cfl, viscous_cfl, n),
                r,
            ),
    {
        self.inner.timestep_bound(
            density,
            hardening_scale,
            cell_width,
            material_cfl,
            viscous_cfl,
            n,
        )
    }

    fn acoustic_c2_at(&self, density: Binary32, temperature_k: Binary32, n: &N) -> (r: Option<
        Binary32,
    >)
        ensures
            call_ensures(
                <M as Response<N>>::acoustic_c2_at,
                (&self.inner, density, temperature_k, n),
                r,
            ),
    {
        self.inner.acoustic_c2_at(density, temperature_k, n)
    }

    fn acoustic_c2_at_particle(&self, particle: &Particle, n: &N) -> (r: Option<Binary32>)
        ensures
            call_ensures(
                <M as Response<N>>::acoustic_c2_at_particle,
                (&self.inner, particle, n),
                r,
            ),
    {
        self.inner.acoustic_c2_at_particle(particle, n)
    }

    fn hydrostatic_volume_ratio(&self, pressure: Binary32, n: &N) -> (r: Option<Binary32>)
        ensures
            call_ensures(
                <M as Response<N>>::hydrostatic_volume_ratio,
                (&self.inner, pressure, n),
                r,
            ),
    {
        self.inner.hydrostatic_volume_ratio(pressure, n)
    }

    open spec fn updated(&self, p: Particle, dt: Binary32, n: &N) -> Particle {
        self.inner.updated(p, dt, n)
    }

    fn update_particle(&self, particle: &mut Particle, dt: Binary32, n: &N) {
        self.inner.update_particle(particle, dt, n)
    }
}

/// A material whose particles belong to a phase of a mixture.
///
/// All else is what `inner` answers.
#[derive(Clone, Copy, Debug)]
pub struct WithMixturePhase<M> {
    pub inner: M,
    /// The phase.
    pub phase: MixturePhase,
}

impl<M> WithMixturePhase<M> {
    pub fn new(inner: M, phase: MixturePhase) -> (r: Self)
        ensures
            r.inner == inner,
            r.phase == phase,
    {
        WithMixturePhase { inner, phase }
    }
}

impl<M: MaterialModel> MaterialModel for WithMixturePhase<M> {
    open spec fn enterable(&self) -> bool {
        self.inner.enterable()
    }

    fn constitutive_model(&self) -> (r: ConstitutiveModel)
        ensures
            call_ensures(M::constitutive_model, (&self.inner,), r),
    {
        self.inner.constitutive_model()
    }

    fn rest_acoustic_c2(&self) -> (r: Option<Binary32>)
        ensures
            call_ensures(M::rest_acoustic_c2, (&self.inner,), r),
    {
        self.inner.rest_acoustic_c2()
    }

    fn acoustic_c2_at_temperature(&self, temperature_k: Binary32) -> (r: Option<Binary32>)
        ensures
            call_ensures(M::acoustic_c2_at_temperature, (&self.inner, temperature_k), r),
    {
        self.inner.acoustic_c2_at_temperature(temperature_k)
    }

    fn current_friction_coefficient(&self, particle: &Particle) -> (r: Option<Binary32>)
        ensures
            call_ensures(M::current_friction_coefficient, (&self.inner, particle), r),
    {
        self.inner.current_friction_coefficient(particle)
    }

    fn corotated_lame_params(&self) -> (r: Option<(Binary32, Binary32)>)
        ensures
            call_ensures(M::corotated_lame_params, (&self.inner,), r),
    {
        self.inner.corotated_lame_params()
    }

    fn luminous_emission_w_m3(&self) -> (r: Binary32)
        ensures
            call_ensures(M::luminous_emission_w_m3, (&self.inner,), r),
    {
        self.inner.luminous_emission_w_m3()
    }

    fn optical_properties(&self) -> (r: Option<OpticalCoefficientsSi>)
        ensures
            call_ensures(M::optical_properties, (&self.inner,), r),
    {
        self.inner.optical_properties()
    }

    fn specific_heat_j_kg_k(&self) -> (r: Binary32)
        ensures
            call_ensures(M::specific_heat_j_kg_k, (&self.inner,), r),
    {
        self.inner.specific_heat_j_kg_k()
    }

    fn needs_cpu_update(&self) -> (r: bool)
        ensures
            call_ensures(M::needs_cpu_update, (&self.inner,), r),
    {
        self.inner.needs_cpu_update()
    }

    fn gpu_unsupported_reason(&self) -> (r: Option<&'static str>)
        ensures
            call_ensures(M::gpu_unsupported_reason, (&self.inner,), r),
    {
        self.inner.gpu_unsupported_reason()
    }

    fn needs_density_recompute(&self) -> (r: bool)
        ensures
            call_ensures(M::needs_density_recompute, (&self.inner,), r),
    {
        self.inner.needs_density_recompute()
    }

    fn owns_deformation_volume_state(&self) -> (r: bool)
        ensures
            call_ensures(M::owns_deformation_volume_state, (&self.inner,), r),
    {
        self.inner.owns_deformation_volume_state()
    }

    fn activation_scale(&self) -> (r: Binary32)
        ensures
            call_ensures(M::activation_scale, (&self.inner,), r),
    {
        self.inner.activation_scale()
    }

    fn pressure_scale(&self) -> (r: Binary32)
        ensures
            call_ensures(M::pressure_scale, (&self.inner,), r),
    {
        self.inner.pressure_scale()
    }

    fn params(&self) -> (r: MaterialParams)
        ensures
            call_ensures(M::params, (&self.inner,), r),
    {
        self.inner.params()
    }

    fn stress_volume(&self, particle: &Particle) -> (r: Binary32)
        ensures
            call_ensures(M::stress_volume, (&self.inner, particle), r),
    {
        self.inner.stress_volume(particle)
    }

    fn cohesion_bonus_pa(&self, scalar_field: Binary32) -> (r: Binary32)
        ensures
            call_ensures(M::cohesion_bonus_pa, (&self.inner, scalar_field), r),
    {
        self.inner.cohesion_bonus_pa(scalar_field)
    }

    open spec fn initialised(&self, p: Particle) -> Particle {
        self.inner.initialised(p)
    }

    fn init_particle(&self, particle: &mut Particle) {
        self.inner.init_particle(particle)
    }

    open spec fn transitioned(&self, p: Particle) -> Particle {
        self.inner.transitioned(p)
    }

    fn init_particle_from_transition(&self, particle: &mut Particle) {
        self.inner.init_particle_from_transition(particle)
    }

    fn mixture_phase(&self) -> (r: Option<MixturePhase>)
        ensures
            r == Some(self.phase),
    {
        Some(self.phase)
    }

    fn latent_heat(&self, from_material_id: u32) -> (r: Binary32)
        ensures
            call_ensures(M::latent_heat, (&self.inner, from_material_id), r),
    {
        self.inner.latent_heat(from_material_id)
    }
}

impl<M: Response<N>, N: Numerics> Response<N> for WithMixturePhase<M> {
    open spec fn admits(&self, p: Particle, n: &N) -> bool {
        self.inner.admits(p, n)
    }

    open spec fn has_step_bound(&self) -> bool {
        <M as Response<N>>::has_step_bound(&self.inner)
    }

    open spec fn steppable(&self) -> bool {
        <M as Response<N>>::steppable(&self.inner)
    }

    open spec fn audible(&self, density: Binary32, temperature_k: Binary32, n: &N) -> bool {
        self.inner.audible(density, temperature_k, n)
    }

    fn kirchhoff_stress(&self, particle: &Particle, n: &N) -> (r: Mat2)
        ensures
            call_ensures(<M as Response<N>>::kirchhoff_stress, (&self.inner, particle, n), r),
    {
        self.inner.kirchhoff_stress(particle, n)
    }

    fn timestep_bound(
        &self,
        density: Binary32,
        hardening_scale: Binary32,
        cell_width: Binary32,
        material_cfl: Binary32,
        viscous_cfl: Binary32,
        n: &N,
    ) -> (r: Binary32)
        ensures
            call_ensures(
                <M as Response<N>>::timestep_bound,
                (&self.inner, density, hardening_scale, cell_width, material_cfl, viscous_cfl, n),
                r,
            ),
    {
        self.inner.timestep_bound(
            density,
            hardening_scale,
            cell_width,
            material_cfl,
            viscous_cfl,
            n,
        )
    }

    fn acoustic_c2_at(&self, density: Binary32, temperature_k: Binary32, n: &N) -> (r: Option<
        Binary32,
    >)
        ensures
            call_ensures(
                <M as Response<N>>::acoustic_c2_at,
                (&self.inner, density, temperature_k, n),
                r,
            ),
    {
        self.inner.acoustic_c2_at(density, temperature_k, n)
    }

    fn acoustic_c2_at_particle(&self, particle: &Particle, n: &N) -> (r: Option<Binary32>)
        ensures
            call_ensures(
                <M as Response<N>>::acoustic_c2_at_particle,
                (&self.inner, particle, n),
                r,
            ),
    {
        self.inner.acoustic_c2_at_particle(particle, n)
    }

    fn hydrostatic_volume_ratio(&self, pressure: Binary32, n: &N) -> (r: Option<Binary32>)
        ensures
            call_ensures(
                <M as Response<N>>::hydrostatic_volume_ratio,
                (&self.inner, pressure, n),
                r,
            ),
    {
        self.inner.hydrostatic_volume_ratio(pressure, n)
    }

    open spec fn updated(&self, p: Particle, dt: Binary32, n: &N) -> Particle {
        self.inner.updated(p, dt, n)
    }

    fn update_particle(&self, particle: &mut Particle, dt: Binary32, n: &N) {
        self.inner.update_particle(particle, dt, n)
    }
}

/// A material whose particles start under an internal pressure.
///
/// All else is what `inner` answers.
#[derive(Clone, Copy, Debug)]
pub struct WithPreStress<M> {
    pub inner: M,
    /// The internal pressure that a spawned or converted particle starts with.
    pub pressure: Binary32,
}

impl<M> WithPreStress<M> {
    pub fn new(inner: M, pressure: Binary32) -> (r: Self)
        ensures
            r.inner == inner,
            r.pressure == pressure,
    {
        WithPreStress { inner, pressure }
    }
}

impl<M: MaterialModel> MaterialModel for WithPreStress<M> {
    open spec fn enterable(&self) -> bool {
        self.inner.enterable()
    }

    fn constitutive_model(&self) -> (r: ConstitutiveModel)
        ensures
            call_ensures(M::constitutive_model, (&self.inner,), r),
    {
        self.inner.constitutive_model()
    }

    fn rest_acoustic_c2(&self) -> (r: Option<Binary32>)
        ensures
            call_ensures(M::rest_acoustic_c2, (&self.inner,), r),
    {
        self.inner.rest_acoustic_c2()
    }

    fn acoustic_c2_at_temperature(&self, temperature_k: Binary32) -> (r: Option<Binary32>)
        ensures
            call_ensures(M::acoustic_c2_at_temperature, (&self.inner, temperature_k), r),
    {
        self.inner.acoustic_c2_at_temperature(temperature_k)
    }

    fn current_friction_coefficient(&self, particle: &Particle) -> (r: Option<Binary32>)
        ensures
            call_ensures(M::current_friction_coefficient, (&self.inner, particle), r),
    {
        self.inner.current_friction_coefficient(particle)
    }

    fn corotated_lame_params(&self) -> (r: Option<(Binary32, Binary32)>)
        ensures
            call_ensures(M::corotated_lame_params, (&self.inner,), r),
    {
        self.inner.corotated_lame_params()
    }

    fn luminous_emission_w_m3(&self) -> (r: Binary32)
        ensures
            call_ensures(M::luminous_emission_w_m3, (&self.inner,), r),
    {
        self.inner.luminous_emission_w_m3()
    }

    fn optical_properties(&self) -> (r: Option<OpticalCoefficientsSi>)
        ensures
            call_ensures(M::optical_properties, (&self.inner,), r),
    {
        self.inner.optical_properties()
    }

    fn specific_heat_j_kg_k(&self) -> (r: Binary32)
        ensures
            call_ensures(M::specific_heat_j_kg_k, (&self.inner,), r),
    {
        self.inner.specific_heat_j_kg_k()
    }

    fn needs_cpu_update(&self) -> (r: bool)
        ensures
            call_ensures(M::needs_cpu_update, (&self.inner,), r),
    {
        self.inner.needs_cpu_update()
    }

    fn gpu_unsupported_reason(&self) -> (r: Option<&'static str>)
        ensures
            call_ensures(M::gpu_unsupported_reason, (&self.inner,), r),
    {
        self.inner.gpu_unsupported_reason()
    }

    fn needs_density_recompute(&self) -> (r: bool)
        ensures
            call_ensures(M::needs_density_recompute, (&self.inner,), r),
    {
        self.inner.needs_density_recompute()
    }

    fn owns_deformation_volume_state(&self) -> (r: bool)
        ensures
            call_ensures(M::owns_deformation_volume_state, (&self.inner,), r),
    {
        self.inner.owns_deformation_volume_state()
    }

    fn activation_scale(&self) -> (r: Binary32)
        ensures
            call_ensures(M::activation_scale, (&self.inner,), r),
    {
        self.inner.activation_scale()
    }

    fn pressure_scale(&self) -> (r: Binary32)
        ensures
            call_ensures(M::pressure_scale, (&self.inner,), r),
    {
        self.inner.pressure_scale()
    }

    fn params(&self) -> (r: MaterialParams)
        ensures
            call_ensures(M::params, (&self.inner,), r),
    {
        self.inner.params()
    }

    fn stress_volume(&self, particle: &Particle) -> (r: Binary32)
        ensures
            call_ensures(M::stress_volume, (&self.inner, particle), r),
    {
        self.inner.stress_volume(particle)
    }

    fn cohesion_bonus_pa(&self, scalar_field: Binary32) -> (r: Binary32)
        ensures
            call_ensures(M::cohesion_bonus_pa, (&self.inner, scalar_field), r),
    {
        self.inner.cohesion_bonus_pa(scalar_field)
    }

    open spec fn initialised(&self, p: Particle) -> Particle {
        Particle { internal_pressure: self.pressure, ..self.inner.initialised(p) }
    }

    fn init_particle(&self, particle: &mut Particle) {
        self.inner.init_particle(particle);
        particle.internal_pressure = self.pressure;
    }

    open spec fn transitioned(&self, p: Particle) -> Particle {
        Particle { internal_pressure: self.pressure, ..self.inner.transitioned(p) }
    }

    fn init_particle_from_transition(&self, particle: &mut Particle) {
        self.inner.init_particle_from_transition(particle);
        particle.internal_pressure = self.pressure;
    }

    fn mixture_phase(&self) -> (r: Option<MixturePhase>)
        ensures
            call_ensures(M::mixture_phase, (&self.inner,), r),
    {
        self.inner.mixture_phase()
    }

    fn latent_heat(&self, from_material_id: u32) -> (r: Binary32)
        ensures
            call_ensures(M::latent_heat, (&self.inner, from_material_id), r),
    {
        self.inner.latent_heat(from_material_id)
    }
}

impl<M: Response<N>, N: Numerics> Response<N> for WithPreStress<M> {
    open spec fn admits(&self, p: Particle, n: &N) -> bool {
        self.inner.admits(p, n)
    }

    open spec fn has_step_bound(&self) -> bool {
        <M as Response<N>>::has_step_bound(&self.inner)
    }

    open spec fn steppable(&self) -> bool {
        <M as Response<N>>::steppable(&self.inner)
    }

    open spec fn audible(&self, density: Binary32, temperature_k: Binary32, n: &N) -> bool {
        self.inner.audible(density, temperature_k, n)
    }

    fn kirchhoff_stress(&self, particle: &Particle, n: &N) -> (r: Mat2)
        ensures
            call_ensures(<M as Response<N>>::kirchhoff_stress, (&self.inner, particle, n), r),
    {
        self.inner.kirchhoff_stress(particle, n)
    }

    fn timestep_bound(
        &self,
        density: Binary32,
        hardening_scale: Binary32,
        cell_width: Binary32,
        material_cfl: Binary32,
        viscous_cfl: Binary32,
        n: &N,
    ) -> (r: Binary32)
        ensures
            call_ensures(
                <M as Response<N>>::timestep_bound,
                (&self.inner, density, hardening_scale, cell_width, material_cfl, viscous_cfl, n),
                r,
            ),
    {
        self.inner.timestep_bound(
            density,
            hardening_scale,
            cell_width,
            material_cfl,
            viscous_cfl,
            n,
        )
    }

    fn acoustic_c2_at(&self, density: Binary32, temperature_k: Binary32, n: &N) -> (r: Option<
        Binary32,
    >)
        ensures
            call_ensures(
                <M as Response<N>>::acoustic_c2_at,
                (&self.inner, density, temperature_k, n),
                r,
            ),
    {
        self.inner.acoustic_c2_at(density, temperature_k, n)
    }

    fn acoustic_c2_at_particle(&self, particle: &Particle, n: &N) -> (r: Option<Binary32>)
        ensures
            call_ensures(
                <M as Response<N>>::acoustic_c2_at_particle,
                (&self.inner, particle, n),
                r,
            ),
    {
        self.inner.acoustic_c2_at_particle(particle, n)
    }

    fn hydrostatic_volume_ratio(&self, pressure: Binary32, n: &N) -> (r: Option<Binary32>)
        ensures
            call_ensures(
                <M as Response<N>>::hydrostatic_volume_ratio,
                (&self.inner, pressure, n),
                r,
            ),
    {
        self.inner.hydrostatic_volume_ratio(pressure, n)
    }

    open spec fn updated(&self, p: Particle, dt: Binary32, n: &N) -> Particle {
        self.inner.updated(p, dt, n)
    }

    fn update_particle(&self, particle: &mut Particle, dt: Binary32, n: &N) {
        self.inner.update_particle(particle, dt, n)
    }
}

} // verus!
