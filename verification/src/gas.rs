use vstd::prelude::*;

use crate::binary::laws::law_finite_product_is_a_number;
use crate::binary::laws::law_multiplication_commutes;
use crate::binary::laws::law_multiplication_is_monotone;
use crate::binary::laws::law_one_is_neutral;
use crate::binary::laws::law_zero_absorbs;
use crate::binary::single::Binary32;
use crate::binary::single::half;
use crate::binary::single::lemma_single_constants;
use crate::linalg::Mat2;
use crate::mechanics::MICRO;
use crate::mechanics::NANO;
use crate::mechanics::acoustic_bound;
use crate::mechanics::entry_ratio;
use crate::mechanics::explicit_trial;
use crate::mechanics::isotropic_deformation;
use crate::mechanics::seeded;
use crate::mechanics::shear_stress;
use crate::mechanics::viscous_bound;
use crate::mechanics::von_neumann_richtmyer_q;
use crate::mechanics::with_volume_ratio;
use crate::model::ConstitutiveModel;
use crate::model::MaterialModel;
use crate::model::Response;
use crate::numerics::Numerics;
use crate::params::MaterialParams;
use crate::particle::Particle;
use crate::particle::SimConfig;

verus! {

/// Specific gas constant of dry air, 287.05 J/(kg K).
pub const AIR_SPECIFIC_GAS_CONSTANT_J_KG_K: u32 = 0x438f_8666;

/// Adiabatic index of dry air, 1.4.
pub const AIR_ADIABATIC_INDEX: u32 = 0x3fb3_3333;

/// Dynamic viscosity of air at room temperature, 1.81e-5 Pa s.
pub const AIR_VISCOSITY_PA_S: u32 = 0x3797_d574;

/// Smallest volume ratio of a gas, 0.05.
pub const GAS_VOLUME_RATIO_MIN: u32 = 0x3d4c_cccd;

/// Largest volume ratio of a gas, 20.
pub const GAS_VOLUME_RATIO_MAX: u32 = 0x41a0_0000;

/// Compressible ideal gas with the isentropic law `p = p0 (rho / rho0)^gamma`,
/// `p0 = rho0 R T`: no pressure without density.
#[derive(Clone, Copy, Debug, PartialEq, Eq, Structural)]
pub struct GasMaterial {
    pub rest_density: Binary32,
    pub dynamic_viscosity: Binary32,
    /// Specific gas constant in grid units.
    pub specific_gas_constant: Binary32,
    pub adiabatic_index: Binary32,
    /// The temperature that particles start with, and that step bounds are taken at.
    pub reference_temperature_k: Binary32,
    pub min_density: Binary32,
    pub min_volume: Binary32,
    pub volume_ratio_min: Binary32,
    pub volume_ratio_max: Binary32,
}

/// `gamma R T`, the squared adiabatic sound speed.
#[verifier::allow_in_spec]
pub fn adiabatic_c2(gamma: Binary32, gas_constant: Binary32, temperature: Binary32) -> Binary32
    returns
        gamma.mul(gas_constant).mul(temperature),
{
    gamma.mul(gas_constant).mul(temperature)
}

impl GasMaterial {
    /// A gas in grid units.
    #[verifier::allow_in_spec]
    pub fn new(
        rest_density: Binary32,
        dynamic_viscosity: Binary32,
        specific_gas_constant: Binary32,
        adiabatic_index: Binary32,
        reference_temperature_k: Binary32,
    ) -> GasMaterial
        returns
            (GasMaterial {
                rest_density,
                dynamic_viscosity,
                specific_gas_constant,
                adiabatic_index,
                reference_temperature_k,
                min_density: Binary32::from_bits(MICRO),
                min_volume: Binary32::from_bits(MICRO),
                volume_ratio_min: Binary32::from_bits(GAS_VOLUME_RATIO_MIN),
                volume_ratio_max: Binary32::from_bits(GAS_VOLUME_RATIO_MAX),
            }),
    {
        GasMaterial {
            rest_density,
            dynamic_viscosity,
            specific_gas_constant,
            adiabatic_index,
            reference_temperature_k,
            min_density: Binary32::from_bits(MICRO),
            min_volume: Binary32::from_bits(MICRO),
            volume_ratio_min: Binary32::from_bits(GAS_VOLUME_RATIO_MIN),
            volume_ratio_max: Binary32::from_bits(GAS_VOLUME_RATIO_MAX),
        }
    }

    /// Dry air at an SI density and temperature.
    pub fn air(rho_kg_m3: Binary32, temperature_k: Binary32, config: &SimConfig) -> (r: GasMaterial)
        requires
            config.has_cell_width(),
        ensures
            r == Self::grid_gas(
                rho_kg_m3,
                Binary32::from_bits(AIR_VISCOSITY_PA_S),
                Binary32::from_bits(AIR_SPECIFIC_GAS_CONSTANT_J_KG_K),
                Binary32::from_bits(AIR_ADIABATIC_INDEX),
                temperature_k,
                *config,
            ),
    {
        Self::from_physical(
            rho_kg_m3,
            Binary32::from_bits(AIR_VISCOSITY_PA_S),
            Binary32::from_bits(AIR_SPECIFIC_GAS_CONSTANT_J_KG_K),
            Binary32::from_bits(AIR_ADIABATIC_INDEX),
            temperature_k,
            config,
        )
    }

    /// A gas from SI properties. Pressure stays in Pa: the density takes the factor
    /// `dx^2`, so the gas constant takes its inverse.
    pub open spec fn grid_gas(
        rho_kg_m3: Binary32,
        eta_pa_s: Binary32,
        specific_gas_constant_j_kg_k: Binary32,
        adiabatic_index: Binary32,
        temperature_k: Binary32,
        config: SimConfig,
    ) -> GasMaterial {
        let dx2 = config.dx_meters.mul(config.dx_meters);
        Self::new(
            rho_kg_m3.mul(dx2),
            eta_pa_s,
            specific_gas_constant_j_kg_k.div(dx2),
            adiabatic_index,
            temperature_k,
        )
    }

    /// A gas from SI properties.
    pub fn from_physical(
        rho_kg_m3: Binary32,
        eta_pa_s: Binary32,
        specific_gas_constant_j_kg_k: Binary32,
        adiabatic_index: Binary32,
        temperature_k: Binary32,
        config: &SimConfig,
    ) -> (r: GasMaterial)
        requires
            config.has_cell_width(),
        ensures
            r == Self::grid_gas(
                rho_kg_m3,
                eta_pa_s,
                specific_gas_constant_j_kg_k,
                adiabatic_index,
                temperature_k,
                *config,
            ),
    {
        let dx2 = config.dx_meters.mul(config.dx_meters);
        let rho_grid = rho_kg_m3.mul(dx2);
        let r_grid = specific_gas_constant_j_kg_k.div(dx2);
        Self::new(rho_grid, eta_pa_s, r_grid, adiabatic_index, temperature_k)
    }

    /// The density at volume ratio `j`.
    #[verifier::allow_in_spec]
    pub fn density_at(&self, j: Binary32) -> Binary32
        returns
            self.rest_density.div(j).max(self.min_density),
    {
        self.rest_density.div(j).max(self.min_density)
    }

    /// The pressure at a temperature and a power of the density ratio.
    #[verifier::allow_in_spec]
    pub fn isentropic_pressure(&self, temperature: Binary32, powered: Binary32) -> Binary32
        returns
            self.rest_density.mul(self.specific_gas_constant).mul(temperature).mul(powered).max(
                Binary32::zero(),
            ),
    {
        self.rest_density.mul(self.specific_gas_constant).mul(temperature).mul(powered).max(
            Binary32::zero(),
        )
    }

    /// `base` with the shear stress.
    #[verifier::allow_in_spec]
    pub fn add_shear(&self, base: Mat2, p: &Particle) -> Mat2
        returns
            if self.dynamic_viscosity.gt(Binary32::zero()) {
                base.add(shear_stress(self.dynamic_viscosity, p.velocity_gradient))
            } else {
                base
            },
    {
        if self.dynamic_viscosity.gt(Binary32::zero()) {
            base.add(shear_stress(self.dynamic_viscosity, p.velocity_gradient))
        } else {
            base
        }
    }

    /// The artificial viscosity at a particle with volume ratio `j`.
    #[verifier::allow_in_spec]
    pub fn shock_at(&self, p: &Particle, j: Binary32, temperature: Binary32) -> Binary32
        returns
            von_neumann_richtmyer_q(
                self.rest_density,
                j,
                half().mul(p.velocity_gradient.symmetrised().trace()),
                Binary32::one(),
                adiabatic_c2(
                    self.adiabatic_index,
                    self.specific_gas_constant,
                    temperature,
                ).sqrt(),
                self.adiabatic_index,
            ),
    {
        von_neumann_richtmyer_q(
            self.rest_density,
            j,
            half().mul(p.velocity_gradient.symmetrised().trace()),
            Binary32::one(),
            adiabatic_c2(self.adiabatic_index, self.specific_gas_constant, temperature).sqrt(),
            self.adiabatic_index,
        )
    }

    /// The pressure of a particle.
    pub open spec fn pressure_of<N: Numerics>(&self, p: Particle, n: &N) -> Binary32 {
        let j = p.deformation_gradient.determinant().max(Binary32::from_bits(MICRO));
        self.isentropic_pressure(
            p.temperature.max(Binary32::zero()),
            n.fast_pow_of(self.density_at(j).div(self.rest_density), self.adiabatic_index),
        )
    }

    /// The Kirchhoff stress of a particle.
    pub open spec fn stress<N: Numerics>(&self, p: Particle, n: &N) -> Mat2 {
        let j = p.deformation_gradient.determinant().max(Binary32::from_bits(MICRO));
        let t = p.temperature.max(Binary32::zero());
        self.add_shear(Mat2::isotropic(self.pressure_of(p, n).neg()), &p).add(
            Mat2::isotropic(self.shock_at(&p, j, t).neg()),
        )
    }

    /// The squared sound speed at the reference temperature.
    #[verifier::allow_in_spec]
    pub fn reference_c2(&self) -> Binary32
        returns
            adiabatic_c2(
                self.adiabatic_index,
                self.specific_gas_constant,
                self.reference_temperature_k,
            ),
    {
        adiabatic_c2(
            self.adiabatic_index,
            self.specific_gas_constant,
            self.reference_temperature_k,
        )
    }

    /// The step bound from sound and from viscous diffusion.
    #[verifier::allow_in_spec]
    pub fn step_bound(
        &self,
        density: Binary32,
        cell_width: Binary32,
        material_cfl: Binary32,
        viscous_cfl: Binary32,
    ) -> Binary32
        returns
            viscous_bound(
                acoustic_bound(
                    Binary32::infinity(),
                    self.reference_c2(),
                    cell_width,
                    material_cfl,
                ),
                self.dynamic_viscosity,
                density.max(self.min_density),
                cell_width,
                viscous_cfl,
            ),
    {
        viscous_bound(
            acoustic_bound(Binary32::infinity(), self.reference_c2(), cell_width, material_cfl),
            self.dynamic_viscosity,
            density.max(self.min_density),
            cell_width,
            viscous_cfl,
        )
    }
}

impl MaterialModel for GasMaterial {
    /// The bounds of the volume ratio are in order.
    open spec fn enterable(&self) -> bool {
        self.volume_ratio_min.le(self.volume_ratio_max)
    }

    fn constitutive_model(&self) -> (r: ConstitutiveModel)
        ensures
            r == ConstitutiveModel::Gas,
    {
        ConstitutiveModel::Gas
    }

    fn stress_volume(&self, particle: &Particle) -> (r: Binary32)
        ensures
            r == particle.volume.max(self.min_volume),
    {
        particle.volume.max(self.min_volume)
    }

    fn rest_acoustic_c2(&self) -> (r: Option<Binary32>)
        ensures
            r == if self.specific_gas_constant.gt(Binary32::zero())
                && self.reference_temperature_k.gt(Binary32::zero()) {
                Some(self.reference_c2())
            } else {
                None
            },
    {
        if self.specific_gas_constant.gt(Binary32::zero()) && self.reference_temperature_k.gt(
            Binary32::zero(),
        ) {
            Some(self.reference_c2())
        } else {
            None
        }
    }

    open spec fn initialised(&self, p: Particle) -> Particle {
        Particle { temperature: self.reference_temperature_k, ..seeded(p, self.rest_density) }
    }

    fn init_particle(&self, particle: &mut Particle) {
        *particle =
        Particle {
            temperature: self.reference_temperature_k,
            ..seeded(*particle, self.rest_density)
        };
    }

    open spec fn transitioned(&self, p: Particle) -> Particle {
        let j = entry_ratio(p, self.rest_density, self.volume_ratio_min, self.volume_ratio_max);
        let volume = p.mass.div(self.rest_density).mul(j);
        Particle {
            deformation_gradient: isotropic_deformation(j),
            initial_volume: p.mass.div(self.rest_density),
            volume,
            density: p.mass.div(volume.max(Binary32::from_bits(NANO))),
            temperature: self.reference_temperature_k,
            ..p
        }
    }

    fn init_particle_from_transition(&self, particle: &mut Particle) {
        let p = *particle;
        let j = entry_ratio(p, self.rest_density, self.volume_ratio_min, self.volume_ratio_max);
        let initial_volume = p.mass.div(self.rest_density);
        let volume = initial_volume.mul(j);
        *particle =
        Particle {
            deformation_gradient: isotropic_deformation(j),
            initial_volume,
            volume,
            density: p.mass.div(volume.max(Binary32::from_bits(NANO))),
            temperature: self.reference_temperature_k,
            ..p
        };
    }

    fn owns_deformation_volume_state(&self) -> (r: bool)
        ensures
            r,
    {
        true
    }

    fn gpu_unsupported_reason(&self) -> (r: Option<&'static str>)
        ensures
            r == Some(
                "GasMaterial has no GPU stress path: the shaders have no branch for it, so the GPU would run without its pressure",
            ),
    {
        Some(
            "GasMaterial has no GPU stress path: the shaders have no branch for it, so the GPU would run without its pressure",
        )
    }

    fn params(&self) -> (r: MaterialParams)
        ensures
            r == (MaterialParams {
                model: ConstitutiveModel::Gas.discriminant(),
                rest_density: self.rest_density,
                eos_stiffness: self.specific_gas_constant,
                eos_power: self.adiabatic_index,
                dynamic_viscosity: self.dynamic_viscosity,
                volume_ratio_min: self.volume_ratio_min,
                volume_ratio_max: self.volume_ratio_max,
                owns_deformation_volume_state: 1,
                ..MaterialParams::zeroed()
            }),
    {
        MaterialParams {
            model: ConstitutiveModel::Gas.discriminant(),
            rest_density: self.rest_density,
            eos_stiffness: self.specific_gas_constant,
            eos_power: self.adiabatic_index,
            dynamic_viscosity: self.dynamic_viscosity,
            volume_ratio_min: self.volume_ratio_min,
            volume_ratio_max: self.volume_ratio_max,
            owns_deformation_volume_state: 1,
            ..MaterialParams::zeroed()
        }
    }
}

impl<N: Numerics> Response<N> for GasMaterial {
    /// The bounds of the volume ratio are in order.
    open spec fn steppable(&self) -> bool {
        self.volume_ratio_min.le(self.volume_ratio_max)
    }

    fn kirchhoff_stress(&self, particle: &Particle, n: &N) -> (r: Mat2)
        ensures
            r == self.stress(*particle, n),
    {
        let j = particle.deformation_gradient.determinant().max(Binary32::from_bits(MICRO));
        let t = particle.temperature.max(Binary32::zero());
        let powered = n.fast_pow(self.density_at(j).div(self.rest_density), self.adiabatic_index);
        let pressure = self.isentropic_pressure(t, powered);
        self.add_shear(Mat2::isotropic(pressure.neg()), particle).add(
            Mat2::isotropic(self.shock_at(particle, j, t).neg()),
        )
    }

    fn timestep_bound(
        &self,
        density: Binary32,
        hardening_scale: Binary32,
        cell_width: Binary32,
        material_cfl: Binary32,
        viscous_cfl: Binary32,
        n: &N,
    ) -> (r: Binary32)
        ensures
            r == self.step_bound(density, cell_width, material_cfl, viscous_cfl),
    {
        self.step_bound(density, cell_width, material_cfl, viscous_cfl)
    }

    open spec fn updated(&self, p: Particle, dt: Binary32, n: &N) -> Particle {
        let j = explicit_trial(p, dt).determinant().clamp(
            self.volume_ratio_min,
            self.volume_ratio_max,
        );
        with_volume_ratio(p, j, self.density_at(j), Binary32::from_bits(NANO))
    }

    fn update_particle(&self, particle: &mut Particle, dt: Binary32, n: &N) {
        let p = *particle;
        let j = explicit_trial(p, dt).determinant().clamp(
            self.volume_ratio_min,
            self.volume_ratio_max,
        );
        *particle = with_volume_ratio(p, j, self.density_at(j), Binary32::from_bits(NANO));
    }
}

/// A gas is never under tension.
pub proof fn law_pressure_is_not_negative<N: Numerics>(m: GasMaterial, p: Particle, n: &N)
    ensures
        Binary32::zero().le(m.pressure_of(p, n)),
{
}

/// At absolute zero there is no pressure.
pub proof fn law_no_pressure_at_absolute_zero(m: GasMaterial, powered: Binary32)
    requires
        m.rest_density.mul(m.specific_gas_constant).is_finite(),
        powered.is_finite(),
    ensures
        m.isentropic_pressure(Binary32::zero(), powered).eq(Binary32::zero()),
{
    law_zero_absorbs(Binary32::zero(), m.rest_density.mul(m.specific_gas_constant));
    law_zero_absorbs(
        m.rest_density.mul(m.specific_gas_constant).mul(Binary32::zero()),
        powered,
    );
}

/// Where nothing is left of the density, nothing is left of the pressure.
pub proof fn law_no_pressure_in_vacuum(m: GasMaterial, temperature: Binary32)
    requires
        m.rest_density.mul(m.specific_gas_constant).mul(temperature).is_finite(),
    ensures
        m.isentropic_pressure(temperature, Binary32::zero()).eq(Binary32::zero()),
{
    law_zero_absorbs(
        Binary32::zero(),
        m.rest_density.mul(m.specific_gas_constant).mul(temperature),
    );
}

/// At the rest density the gas obeys the ideal gas law, where one to any power is one.
pub proof fn law_ideal_gas_at_rest(m: GasMaterial, temperature: Binary32)
    requires
        Binary32::zero().le(m.rest_density.mul(m.specific_gas_constant).mul(temperature)),
    ensures
        m.isentropic_pressure(temperature, Binary32::one()) == m.rest_density.mul(
            m.specific_gas_constant,
        ).mul(temperature),
{
    law_one_is_neutral(m.rest_density.mul(m.specific_gas_constant).mul(temperature));
}

/// Hotter or denser gas has no less pressure.
pub proof fn law_pressure_grows_with_heat_and_density(
    m: GasMaterial,
    temperature: Binary32,
    hotter: Binary32,
    powered: Binary32,
    denser: Binary32,
)
    requires
        m.rest_density.mul(m.specific_gas_constant).bits < 0x8000_0000,
        m.rest_density.mul(m.specific_gas_constant).mul(temperature).is_finite(),
        m.rest_density.mul(m.specific_gas_constant).mul(hotter).is_finite(),
        m.rest_density.mul(m.specific_gas_constant).mul(temperature).bits < 0x8000_0000,
        temperature.le(hotter),
        powered.bits < 0x8000_0000,
        denser.is_finite(),
        powered.le(denser),
    ensures
        m.isentropic_pressure(temperature, powered).le(m.isentropic_pressure(hotter, denser)),
{
    lemma_single_constants();
    let c = m.rest_density.mul(m.specific_gas_constant);
    let cold = c.mul(temperature);
    let hot = c.mul(hotter);
    law_multiplication_commutes(c, temperature);
    law_multiplication_commutes(c, hotter);
    law_multiplication_is_monotone(temperature, hotter, c);
    law_finite_product_is_a_number(cold, powered);
    law_finite_product_is_a_number(hot, powered);
    law_finite_product_is_a_number(hot, denser);
    law_multiplication_is_monotone(cold, hot, powered);
    law_multiplication_commutes(hot, powered);
    law_multiplication_commutes(hot, denser);
    if hot.bits < 0x8000_0000 {
        law_multiplication_is_monotone(powered, denser, hot);
    } else {
        law_zero_absorbs(cold, powered);
        law_zero_absorbs(hot, denser);
    }
}

} // verus!
