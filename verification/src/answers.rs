use vstd::prelude::*;

use crate::binary::single::Binary32;
use crate::bingham::BinghamFluidMaterial;
use crate::boiling_mixture::BoilingMixtureMaterial;
use crate::cavitating_fluid::CavitatingFluidMaterial;
use crate::cavitating_fluid::IsothermalCavitatingFluidMaterial;
use crate::corotated::CorotatedMaterial;
use crate::elastic::NeoHookeanMaterial;
use crate::fluid::NewtonianFluidMaterial;
use crate::gas::GasMaterial;
use crate::granular_fluid::GranularFluidMaterial;
use crate::linalg::Mat2;
use crate::mechanics::MIN_J;
use crate::mechanics::elastic_wave_dt;
use crate::model::MaterialModel;
use crate::model::Response;
use crate::nacc::NaccMaterial;
use crate::no_compression::NoCompressionMaterial;
use crate::numerics::Numerics;
use crate::params::MaterialParams;
use crate::particle::Particle;

verus! {

/// The answers of the newtonian model: its stress and its step bound.
pub proof fn law_newtonian_answers<N: Numerics>(
    m: NewtonianFluidMaterial,
    p: Particle,
    stress: Mat2,
    density: Binary32,
    hardening_scale: Binary32,
    cell_width: Binary32,
    material_cfl: Binary32,
    viscous_cfl: Binary32,
    bound: Binary32,
    n: &N,
)
    requires
        call_ensures(<NewtonianFluidMaterial as Response<N>>::kirchhoff_stress, (&m, &p, n), stress),
        call_ensures(
            <NewtonianFluidMaterial as Response<N>>::timestep_bound,
            (
                &m,
                density,
                hardening_scale,
                cell_width,
                material_cfl,
                viscous_cfl,
                n,
            ),
            bound,
        ),
    ensures
        stress == m.stress(p, n),
        bound == m.step_bound(density, cell_width, material_cfl, viscous_cfl, n),
{
}

/// The answers of the bingham model: its stress and its step bound.
pub proof fn law_bingham_answers<N: Numerics>(
    m: BinghamFluidMaterial,
    p: Particle,
    stress: Mat2,
    density: Binary32,
    hardening_scale: Binary32,
    cell_width: Binary32,
    material_cfl: Binary32,
    viscous_cfl: Binary32,
    bound: Binary32,
    n: &N,
)
    requires
        call_ensures(<BinghamFluidMaterial as Response<N>>::kirchhoff_stress, (&m, &p, n), stress),
        call_ensures(
            <BinghamFluidMaterial as Response<N>>::timestep_bound,
            (
                &m,
                density,
                hardening_scale,
                cell_width,
                material_cfl,
                viscous_cfl,
                n,
            ),
            bound,
        ),
    ensures
        stress == m.stress(p, n),
        bound == m.step_bound(density, cell_width, material_cfl, viscous_cfl, n),
{
}

/// The answers of the gas model: its stress and its step bound.
pub proof fn law_gas_answers<N: Numerics>(
    m: GasMaterial,
    p: Particle,
    stress: Mat2,
    density: Binary32,
    hardening_scale: Binary32,
    cell_width: Binary32,
    material_cfl: Binary32,
    viscous_cfl: Binary32,
    bound: Binary32,
    n: &N,
)
    requires
        call_ensures(<GasMaterial as Response<N>>::kirchhoff_stress, (&m, &p, n), stress),
        call_ensures(
            <GasMaterial as Response<N>>::timestep_bound,
            (
                &m,
                density,
                hardening_scale,
                cell_width,
                material_cfl,
                viscous_cfl,
                n,
            ),
            bound,
        ),
    ensures
        stress == m.stress(p, n),
        bound == m.step_bound(density, cell_width, material_cfl, viscous_cfl),
{
}

/// The answers of the granular model: its stress and its step bound.
pub proof fn law_granular_answers<N: Numerics>(
    m: GranularFluidMaterial,
    p: Particle,
    stress: Mat2,
    density: Binary32,
    hardening_scale: Binary32,
    cell_width: Binary32,
    material_cfl: Binary32,
    viscous_cfl: Binary32,
    bound: Binary32,
    n: &N,
)
    requires
        call_ensures(<GranularFluidMaterial as Response<N>>::kirchhoff_stress, (&m, &p, n), stress),
        call_ensures(
            <GranularFluidMaterial as Response<N>>::timestep_bound,
            (
                &m,
                density,
                hardening_scale,
                cell_width,
                material_cfl,
                viscous_cfl,
                n,
            ),
            bound,
        ),
    ensures
        stress == m.stress(p, n),
        bound == m.step_bound(density, hardening_scale, cell_width, material_cfl, viscous_cfl),
{
}

/// The answers of the corotated model: its stress and its step bound.
pub proof fn law_corotated_answers<N: Numerics>(
    m: CorotatedMaterial,
    p: Particle,
    stress: Mat2,
    density: Binary32,
    hardening_scale: Binary32,
    cell_width: Binary32,
    material_cfl: Binary32,
    viscous_cfl: Binary32,
    bound: Binary32,
    n: &N,
)
    requires
        call_ensures(<CorotatedMaterial as Response<N>>::kirchhoff_stress, (&m, &p, n), stress),
        call_ensures(
            <CorotatedMaterial as Response<N>>::timestep_bound,
            (
                &m,
                density,
                hardening_scale,
                cell_width,
                material_cfl,
                viscous_cfl,
                n,
            ),
            bound,
        ),
    ensures
        stress == m.stress(p),
        bound == m.step_bound(density, hardening_scale, cell_width, material_cfl, viscous_cfl),
{
}

/// The answers of the neo hookean model: its stress and its step bound.
pub proof fn law_neo_hookean_answers<N: Numerics>(
    m: NeoHookeanMaterial,
    p: Particle,
    stress: Mat2,
    density: Binary32,
    hardening_scale: Binary32,
    cell_width: Binary32,
    material_cfl: Binary32,
    viscous_cfl: Binary32,
    bound: Binary32,
    n: &N,
)
    requires
        call_ensures(<NeoHookeanMaterial as Response<N>>::kirchhoff_stress, (&m, &p, n), stress),
        call_ensures(
            <NeoHookeanMaterial as Response<N>>::timestep_bound,
            (
                &m,
                density,
                hardening_scale,
                cell_width,
                material_cfl,
                viscous_cfl,
                n,
            ),
            bound,
        ),
    ensures
        stress == m.stress(p, n),
        bound == m.step_bound(density, cell_width, material_cfl, viscous_cfl),
{
}

/// The answers of the soil model: its stress and its step bound.
pub proof fn law_soil_answers<N: Numerics>(
    m: NaccMaterial,
    p: Particle,
    stress: Mat2,
    density: Binary32,
    hardening_scale: Binary32,
    cell_width: Binary32,
    material_cfl: Binary32,
    viscous_cfl: Binary32,
    bound: Binary32,
    n: &N,
)
    requires
        call_ensures(<NaccMaterial as Response<N>>::kirchhoff_stress, (&m, &p, n), stress),
        call_ensures(
            <NaccMaterial as Response<N>>::timestep_bound,
            (
                &m,
                density,
                hardening_scale,
                cell_width,
                material_cfl,
                viscous_cfl,
                n,
            ),
            bound,
        ),
    ensures
        stress == m.stress(p),
        bound == m.step_bound(density, hardening_scale, cell_width, material_cfl, viscous_cfl),
{
}

/// The answers of the no compression model: its stress and its step bound.
pub proof fn law_no_compression_answers<N: Numerics>(
    m: NoCompressionMaterial,
    p: Particle,
    stress: Mat2,
    density: Binary32,
    hardening_scale: Binary32,
    cell_width: Binary32,
    material_cfl: Binary32,
    viscous_cfl: Binary32,
    bound: Binary32,
    n: &N,
)
    requires
        call_ensures(<NoCompressionMaterial as Response<N>>::kirchhoff_stress, (&m, &p, n), stress),
        call_ensures(
            <NoCompressionMaterial as Response<N>>::timestep_bound,
            (
                &m,
                density,
                hardening_scale,
                cell_width,
                material_cfl,
                viscous_cfl,
                n,
            ),
            bound,
        ),
    ensures
        stress == m.stress(p, n),
        bound == elastic_wave_dt(
            m.lambda,
            m.mu,
            Binary32::one(),
            density,
            Binary32::from_bits(MIN_J),
            cell_width,
            material_cfl,
        ),
{
}

/// The answers of the isothermal cavitating model: its stress and its step bound.
pub proof fn law_isothermal_cavitating_answers<N: Numerics>(
    m: IsothermalCavitatingFluidMaterial,
    p: Particle,
    stress: Mat2,
    density: Binary32,
    hardening_scale: Binary32,
    cell_width: Binary32,
    material_cfl: Binary32,
    viscous_cfl: Binary32,
    bound: Binary32,
    n: &N,
)
    requires
        call_ensures(<IsothermalCavitatingFluidMaterial as Response<N>>::kirchhoff_stress, (&m, &p, n), stress),
        call_ensures(
            <IsothermalCavitatingFluidMaterial as Response<N>>::timestep_bound,
            (
                &m,
                density,
                hardening_scale,
                cell_width,
                material_cfl,
                viscous_cfl,
                n,
            ),
            bound,
        ),
    ensures
        stress == m.stress(p, n),
        bound == m.grid().step_bound(m.sound_at(density, n), density, cell_width, material_cfl, viscous_cfl),
{
}

/// The answers of the cavitating model: its stress and its step bound.
pub proof fn law_cavitating_answers<N: Numerics>(
    m: CavitatingFluidMaterial,
    p: Particle,
    stress: Mat2,
    density: Binary32,
    hardening_scale: Binary32,
    cell_width: Binary32,
    material_cfl: Binary32,
    viscous_cfl: Binary32,
    bound: Binary32,
    n: &N,
)
    requires
        call_ensures(<CavitatingFluidMaterial as Response<N>>::kirchhoff_stress, (&m, &p, n), stress),
        call_ensures(
            <CavitatingFluidMaterial as Response<N>>::timestep_bound,
            (
                &m,
                density,
                hardening_scale,
                cell_width,
                material_cfl,
                viscous_cfl,
                n,
            ),
            bound,
        ),
    ensures
        stress == m.stress(p, n),
        bound == m.grid().step_bound(m.rest_c2(), density, cell_width, material_cfl, viscous_cfl),
{
}

/// The answers of the boiling model: its stress and its step bound.
pub proof fn law_boiling_answers<N: Numerics>(
    m: BoilingMixtureMaterial,
    p: Particle,
    stress: Mat2,
    density: Binary32,
    hardening_scale: Binary32,
    cell_width: Binary32,
    material_cfl: Binary32,
    viscous_cfl: Binary32,
    bound: Binary32,
    n: &N,
)
    requires
        call_ensures(<BoilingMixtureMaterial as Response<N>>::kirchhoff_stress, (&m, &p, n), stress),
        call_ensures(
            <BoilingMixtureMaterial as Response<N>>::timestep_bound,
            (
                &m,
                density,
                hardening_scale,
                cell_width,
                material_cfl,
                viscous_cfl,
                n,
            ),
            bound,
        ),
    ensures
        stress == m.stress(p),
        bound == m.grid().step_bound(m.min_c_mix2_grid, density, cell_width, material_cfl, viscous_cfl),
{
}

/// The upload of the newtonian model carries its density, equation of state and viscosities, each in its slot.
pub proof fn law_newtonian_upload(m: NewtonianFluidMaterial, r: MaterialParams)
    requires
        call_ensures(<NewtonianFluidMaterial as MaterialModel>::params, (&m,), r),
    ensures
        r.rest_density == m.rest_density,
        r.eos_stiffness == m.eos_stiffness,
        r.eos_power == m.eos_power,
        r.dynamic_viscosity == m.dynamic_viscosity,
        r.thermal_viscosity_coeff == m.thermal_viscosity_coeff,
        r.pressure_floor == m.pressure_floor,
        r.bulk_viscosity == m.bulk_viscosity,
        r.dp_h0 == m.settling_damping,
{
}

/// The upload of the bingham model carries its density, equation of state, yield stress and viscosities, each in its slot.
pub proof fn law_bingham_upload(m: BinghamFluidMaterial, r: MaterialParams)
    requires
        call_ensures(<BinghamFluidMaterial as MaterialModel>::params, (&m,), r),
    ensures
        r.rest_density == m.rest_density,
        r.eos_stiffness == m.eos_stiffness,
        r.eos_power == m.eos_power,
        r.dynamic_viscosity == m.dynamic_viscosity,
        r.compression_limit == m.yield_stress,
        r.pressure_floor == m.pressure_floor,
        r.dp_h0 == m.settling_damping,
        r.bulk_viscosity == m.bulk_viscosity,
{
}

/// The upload of the gas model carries its gas law and bounds, each in its slot.
pub proof fn law_gas_upload(m: GasMaterial, r: MaterialParams)
    requires
        call_ensures(<GasMaterial as MaterialModel>::params, (&m,), r),
    ensures
        r.rest_density == m.rest_density,
        r.eos_stiffness == m.specific_gas_constant,
        r.eos_power == m.adiabatic_index,
        r.dynamic_viscosity == m.dynamic_viscosity,
        r.volume_ratio_min == m.volume_ratio_min,
        r.volume_ratio_max == m.volume_ratio_max,
{
}

/// The upload of the granular model carries its moduli, equation of state and limits, each in its slot.
pub proof fn law_granular_upload(m: GranularFluidMaterial, r: MaterialParams)
    requires
        call_ensures(<GranularFluidMaterial as MaterialModel>::params, (&m,), r),
    ensures
        r.mu == m.mu,
        r.lambda == m.lambda,
        r.rest_density == m.rest_density,
        r.eos_stiffness == m.eos_stiffness,
        r.eos_power == m.eos_power,
        r.hardening_exponent == m.hardening_exponent,
        r.compression_limit == m.compression_limit,
        r.stretch_limit == m.stretch_limit,
        r.volume_ratio_min == m.min_plastic_jacobian,
        r.volume_ratio_max == m.max_plastic_jacobian,
        r.pressure_floor == m.pressure_floor,
        r.dynamic_viscosity == m.dynamic_viscosity,
        r.bulk_viscosity == m.bulk_viscosity,
{
}

/// The upload of the corotated model carries its moduli and couplings, each in its slot.
pub proof fn law_corotated_upload(m: CorotatedMaterial, r: MaterialParams)
    requires
        call_ensures(<CorotatedMaterial as MaterialModel>::params, (&m,), r),
    ensures
        r.lambda == m.lambda,
        r.mu == m.mu,
        r.thermal_expansion == m.thermal_expansion,
        r.active_stress_coeff == m.active_stress_coeff,
        r.volume_ratio_min == m.j_min,
{
}

/// The upload of the neo hookean model carries its moduli and couplings, each in its slot.
pub proof fn law_neo_hookean_upload(m: NeoHookeanMaterial, r: MaterialParams)
    requires
        call_ensures(<NeoHookeanMaterial as MaterialModel>::params, (&m,), r),
    ensures
        r.lambda == m.lambda,
        r.mu == m.mu,
        r.thermal_expansion == m.thermal_expansion,
        r.active_stress_coeff == m.active_stress_coeff,
        r.cohesion_coeff == m.damage_softening_rate,
        r.dynamic_viscosity == m.viscosity,
{
}

/// The upload of the soil model carries its moduli and yield surface, each in its slot.
pub proof fn law_soil_upload(m: NaccMaterial, r: MaterialParams)
    requires
        call_ensures(<NaccMaterial as MaterialModel>::params, (&m,), r),
    ensures
        r.lambda == m.kappa.sub(m.mu),
        r.mu == m.mu,
        r.hardening_exponent == m.hardening_factor,
        r.compression_limit == m.cohesion,
        r.stretch_limit == m.friction,
{
}

/// The upload of the no compression model carries its moduli, each in its slot.
pub proof fn law_no_compression_upload(m: NoCompressionMaterial, r: MaterialParams)
    requires
        call_ensures(<NoCompressionMaterial as MaterialModel>::params, (&m,), r),
    ensures
        r.lambda == m.lambda,
        r.mu == m.mu,
{
}

} // verus!
