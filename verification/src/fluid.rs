use vstd::prelude::*;

use crate::binary::close::law_negative_reciprocal;
use crate::binary::laws::law_cancellation;
use crate::binary::laws::law_division_is_monotone;
use crate::binary::laws::law_finite_difference_is_a_number;
use crate::binary::laws::law_finite_product_is_a_number;
use crate::binary::laws::law_finite_quotient_is_a_number;
use crate::binary::laws::law_multiplication_commutes;
use crate::binary::laws::law_multiplication_is_monotone;
use crate::binary::laws::law_non_negative_steps;
use crate::binary::laws::law_one_is_neutral;
use crate::binary::laws::law_self_quotient_is_one;
use crate::binary::laws::law_subtraction_is_monotone;
use crate::binary::laws::law_zero_divided;
use crate::binary::single::Binary32;
use crate::binary::single::half;
use crate::binary::single::lemma_single_constants;
use crate::binary::single::two;
use crate::linalg::Mat2;
use crate::mechanics::MICRO;
use crate::mechanics::NANO;
use crate::mechanics::acoustic_bound;
use crate::mechanics::bounded_density;
use crate::mechanics::damped_velocity;
use crate::mechanics::entry_ratio;
use crate::mechanics::isotropic_deformation;
use crate::mechanics::seeded;
use crate::mechanics::shear_stress;
use crate::mechanics::step_ratio;
use crate::mechanics::stepped_ratio;
use crate::mechanics::viscous_bound;
use crate::mechanics::von_neumann_richtmyer_q;
use crate::mechanics::with_volume_ratio;
use crate::model::ConstitutiveModel;
use crate::model::MaterialModel;
use crate::model::Response;
use crate::numerics::Numerics;
use crate::numerics::Unary;
use crate::optical::OpticalCoefficientsSi;
use crate::params::MaterialParams;
use crate::particle::Particle;
use crate::particle::SimConfig;

verus! {

/// Exponent of the Tait equation of state of water, 7.
pub const TAIT_GAMMA: u32 = 0x40e0_0000;

/// Pressure floor of a fluid built from grid units, -0.1.
pub const DEFAULT_PRESSURE_FLOOR: u32 = 0xbdcc_cccd;

/// Onset of cavitation by dissolved gas, -100000 Pa gauge.
pub const CAVITATION_PRESSURE_PA: u32 = 0xc7c3_5000;

/// Viscosity of water, 1.0e-3 Pa s.
pub const WATER_VISCOSITY: u32 = 0x3a83_126f;

/// Whether volumes can be divided: both finite and positive.
pub open spec fn positive_volumes(initial_volume: Binary32, volume: Binary32) -> bool {
    &&& initial_volume.is_finite() && initial_volume.gt(Binary32::zero())
    &&& volume.is_finite() && volume.gt(Binary32::zero())
}

/// The volume ratio of the volumes that a particle carries.
#[verifier::allow_in_spec]
pub fn volume_j(initial_volume: Binary32, volume: Binary32) -> Binary32
    requires
        positive_volumes(initial_volume, volume),
    returns
        volume.div(initial_volume),
{
    volume.div(initial_volume)
}

/// Squared sound speed of the Tait equation of state at a power of the density
/// ratio.
#[verifier::allow_in_spec]
pub fn tait_c2(
    eos_stiffness: Binary32,
    eos_power: Binary32,
    powered: Binary32,
    density: Binary32,
) -> Binary32
    returns
        eos_stiffness.mul(eos_power).mul(powered).div(density),
{
    eos_stiffness.mul(eos_power).mul(powered).div(density)
}

/// The artificial viscosity of a Tait fluid at volume ratio `j`.
pub open spec fn artificial_viscosity<N: Numerics>(
    eos_stiffness: Binary32,
    eos_power: Binary32,
    rest_density: Binary32,
    j: Binary32,
    div_v: Binary32,
    grid_cell_size: Binary32,
    n: &N,
) -> Binary32 {
    let powered = n.fast_pow_of(Binary32::one().div(j), eos_power.sub(Binary32::one()));
    let c2 = tait_c2(eos_stiffness, eos_power, powered, rest_density);
    von_neumann_richtmyer_q(
        rest_density,
        j,
        div_v,
        grid_cell_size,
        c2.max(Binary32::zero()).sqrt(),
        eos_power,
    )
}

/// The artificial viscosity of a Tait fluid at volume ratio `j`.
pub fn artificial_bulk_viscosity<N: Numerics>(
    eos_stiffness: Binary32,
    eos_power: Binary32,
    rest_density: Binary32,
    j: Binary32,
    div_v: Binary32,
    grid_cell_size: Binary32,
    n: &N,
) -> (r: Binary32)
    ensures
        r == artificial_viscosity(
            eos_stiffness,
            eos_power,
            rest_density,
            j,
            div_v,
            grid_cell_size,
            n,
        ),
{
    let powered = n.fast_pow(Binary32::one().div(j), eos_power.sub(Binary32::one()));
    let c2 = tait_c2(eos_stiffness, eos_power, powered, rest_density);
    let c_sound = c2.max(Binary32::zero()).sqrt();
    von_neumann_richtmyer_q(rest_density, j, div_v, grid_cell_size, c_sound, eos_power)
}

/// The Tait pressure at a power of the density ratio, not below `floor`.
#[verifier::allow_in_spec]
pub fn tait_pressure(eos_stiffness: Binary32, powered: Binary32, floor: Binary32) -> Binary32
    returns
        eos_stiffness.mul(powered.sub(Binary32::one())).max(floor),
{
    eos_stiffness.mul(powered.sub(Binary32::one())).max(floor)
}

/// SI properties of a Newtonian fluid.
#[derive(Clone, Copy, Debug, PartialEq, Eq, Structural)]
pub struct NewtonianFluid {
    pub rho_kg_m3: Binary32,
    pub eta_pa_s: Binary32,
    pub bulk_modulus_pa: Binary32,
}

/// Weakly compressible Newtonian fluid: Tait equation of state, shear and bulk
/// viscosity, artificial viscosity under compression.
#[derive(Clone, Copy, Debug, PartialEq, Eq)]
pub struct NewtonianFluidMaterial {
    pub rest_density: Binary32,
    pub dynamic_viscosity: Binary32,
    pub eos_stiffness: Binary32,
    pub eos_power: Binary32,
    /// Lower bound of the pressure.
    pub pressure_floor: Binary32,
    pub specific_heat_j_kg_k: Binary32,
    pub optics: Option<OpticalCoefficientsSi>,
    pub min_density: Binary32,
    pub min_volume: Binary32,
    /// Rate of thermal thinning; zero is isothermal.
    pub thermal_viscosity_coeff: Binary32,
    pub bulk_viscosity: Binary32,
    pub surface_tension_coeff: Binary32,
    /// Decay of the velocity per time; zero is off.
    pub settling_damping: Binary32,
}

impl NewtonianFluidMaterial {
    /// A fluid in grid units.
    #[verifier::allow_in_spec]
    pub fn new(
        rest_density: Binary32,
        dynamic_viscosity: Binary32,
        eos_stiffness: Binary32,
        eos_power: Binary32,
    ) -> NewtonianFluidMaterial
        returns
            (NewtonianFluidMaterial {
                rest_density,
                dynamic_viscosity,
                eos_stiffness,
                eos_power,
                pressure_floor: Binary32::from_bits(DEFAULT_PRESSURE_FLOOR),
                specific_heat_j_kg_k: Binary32::zero(),
                optics: None,
                min_density: Binary32::from_bits(MICRO),
                min_volume: Binary32::from_bits(MICRO),
                thermal_viscosity_coeff: Binary32::zero(),
                bulk_viscosity: Binary32::zero(),
                surface_tension_coeff: Binary32::zero(),
                settling_damping: Binary32::zero(),
            }),
    {
        NewtonianFluidMaterial {
            rest_density,
            dynamic_viscosity,
            eos_stiffness,
            eos_power,
            pressure_floor: Binary32::from_bits(DEFAULT_PRESSURE_FLOOR),
            specific_heat_j_kg_k: Binary32::zero(),
            optics: None,
            min_density: Binary32::from_bits(MICRO),
            min_volume: Binary32::from_bits(MICRO),
            thermal_viscosity_coeff: Binary32::zero(),
            bulk_viscosity: Binary32::zero(),
            surface_tension_coeff: Binary32::zero(),
            settling_damping: Binary32::zero(),
        }
    }

    /// The viscosity and the exponent of water.
    #[verifier::allow_in_spec]
    pub fn low_viscosity(rest_density: Binary32, eos_stiffness: Binary32) -> NewtonianFluidMaterial
        returns
            Self::new(
                rest_density,
                Binary32::from_bits(WATER_VISCOSITY),
                eos_stiffness,
                Binary32::from_bits(TAIT_GAMMA),
            ),
    {
        Self::new(
            rest_density,
            Binary32::from_bits(WATER_VISCOSITY),
            eos_stiffness,
            Binary32::from_bits(TAIT_GAMMA),
        )
    }

    /// A fluid whose sound speed is `c_ref_m_s`. Stress and viscosity stay in SI
    /// units; only the density is taken to the grid.
    pub fn weakly_compressible(
        rho_kg_m3: Binary32,
        eta_pa_s: Binary32,
        c_ref_m_s: Binary32,
        config: &SimConfig,
    ) -> (r: NewtonianFluidMaterial)
        requires
            config.has_cell_width(),
        ensures
            r == (NewtonianFluidMaterial {
                pressure_floor: Binary32::from_bits(CAVITATION_PRESSURE_PA),
                ..NewtonianFluidMaterial::new(
                    rho_kg_m3.mul(config.dx_meters).mul(config.dx_meters),
                    eta_pa_s,
                    rho_kg_m3.mul(c_ref_m_s).mul(c_ref_m_s).div(Binary32::from_bits(TAIT_GAMMA)),
                    Binary32::from_bits(TAIT_GAMMA),
                )
            }),
    {
        let gamma = Binary32::from_bits(TAIT_GAMMA);
        let rho_grid = rho_kg_m3.mul(config.dx_meters).mul(config.dx_meters);
        let tait_b_pa = rho_kg_m3.mul(c_ref_m_s).mul(c_ref_m_s).div(gamma);
        let mut material = Self::new(rho_grid, eta_pa_s, tait_b_pa, gamma);
        material.pressure_floor = Binary32::from_bits(CAVITATION_PRESSURE_PA);
        material
    }

    /// A fluid from SI properties: stresses and viscosity through the engine's
    /// conversion, density relative to the reference density.
    pub fn from_physical<N: Numerics>(
        props: &NewtonianFluid,
        config: &SimConfig,
        n: &N,
    ) -> (r: NewtonianFluidMaterial)
        ensures
            r == (NewtonianFluidMaterial {
                pressure_floor: n.scaled_stress_of(
                    Binary32::from_bits(CAVITATION_PRESSURE_PA),
                    props.rho_kg_m3,
                    *config,
                ),
                ..NewtonianFluidMaterial::new(
                    props.rho_kg_m3.div(config.reference_density_kg_m3),
                    n.scaled_viscosity_of(props.eta_pa_s, props.rho_kg_m3, *config),
                    n.scaled_stress_of(
                        props.bulk_modulus_pa.div(Binary32::from_bits(TAIT_GAMMA)),
                        props.rho_kg_m3,
                        *config,
                    ),
                    Binary32::from_bits(TAIT_GAMMA),
                )
            }),
    {
        let gamma = Binary32::from_bits(TAIT_GAMMA);
        let visc = n.scaled_viscosity(props.eta_pa_s, props.rho_kg_m3, *config);
        let eos = n.scaled_stress(props.bulk_modulus_pa.div(gamma), props.rho_kg_m3, *config);
        let rho_grid = props.rho_kg_m3.div(config.reference_density_kg_m3);
        let mut material = Self::new(rho_grid, visc, eos, gamma);
        material.pressure_floor = n.scaled_stress(
            Binary32::from_bits(CAVITATION_PRESSURE_PA),
            props.rho_kg_m3,
            *config,
        );
        material
    }

    /// The density at volume ratio `j`: at most twice the rest density.
    #[verifier::allow_in_spec]
    pub fn density_at(&self, j: Binary32) -> Binary32
        returns
            bounded_density(
                self.rest_density,
                j,
                self.min_density,
                self.rest_density.mul(two()),
            ),
    {
        bounded_density(self.rest_density, j, self.min_density, self.rest_density.mul(two()))
    }

    /// The volume ratio that the stress is evaluated at.
    #[verifier::allow_in_spec]
    pub fn stress_ratio(&self, p: &Particle) -> Binary32
        returns
            p.deformation_gradient.determinant().max(Binary32::from_bits(MICRO)),
    {
        p.deformation_gradient.determinant().max(Binary32::from_bits(MICRO))
    }

    /// The equation of state at volume ratio `j`.
    pub open spec fn pressure_at<N: Numerics>(&self, j: Binary32, n: &N) -> Binary32 {
        tait_pressure(
            self.eos_stiffness,
            n.pow_of(self.density_at(j).div(self.rest_density), self.eos_power),
            self.pressure_floor,
        )
    }

    /// The equation of state at volume ratio `j`.
    pub fn pressure<N: Numerics>(&self, j: Binary32, n: &N) -> (r: Binary32)
        ensures
            r == self.pressure_at(j, n),
    {
        tait_pressure(
            self.eos_stiffness,
            n.pow(self.density_at(j).div(self.rest_density), self.eos_power),
            self.pressure_floor,
        )
    }

    /// The viscosity at a temperature.
    pub open spec fn viscosity_at<N: Numerics>(&self, temperature: Binary32, n: &N) -> Binary32 {
        if self.thermal_viscosity_coeff.gt(Binary32::zero()) {
            self.dynamic_viscosity.mul(
                n.unary_of(Unary::Exp, self.thermal_viscosity_coeff.neg().mul(temperature)),
            )
        } else {
            self.dynamic_viscosity
        }
    }

    /// Pressure and shear.
    pub open spec fn base_stress<N: Numerics>(&self, p: Particle, n: &N) -> Mat2 {
        Mat2::isotropic(self.pressure_at(self.stress_ratio(&p), n).neg()).add(
            shear_stress(self.viscosity_at(p.temperature, n), p.velocity_gradient),
        )
    }

    /// `base` with the bulk viscosity.
    #[verifier::allow_in_spec]
    pub fn add_bulk(&self, base: Mat2, p: &Particle) -> Mat2
        returns
            if self.bulk_viscosity.gt(Binary32::zero()) {
                base.add(
                    Mat2::isotropic(
                        self.bulk_viscosity.mul(p.velocity_gradient.symmetrised().trace()).mul(
                            half(),
                        ),
                    ),
                )
            } else {
                base
            },
    {
        if self.bulk_viscosity.gt(Binary32::zero()) {
            base.add(
                Mat2::isotropic(
                    self.bulk_viscosity.mul(p.velocity_gradient.symmetrised().trace()).mul(half()),
                ),
            )
        } else {
            base
        }
    }

    /// `base` with the surface tension.
    #[verifier::allow_in_spec]
    pub fn add_surface(&self, base: Mat2, p: &Particle) -> Mat2
        returns
            if !self.surface_tension_coeff.eq(Binary32::zero()) {
                base.add(
                    Mat2::isotropic(
                        self.surface_tension_coeff.mul(p.deformation_gradient.determinant()),
                    ),
                )
            } else {
                base
            },
    {
        if !self.surface_tension_coeff.eq(Binary32::zero()) {
            base.add(
                Mat2::isotropic(
                    self.surface_tension_coeff.mul(p.deformation_gradient.determinant()),
                ),
            )
        } else {
            base
        }
    }

    /// The artificial viscosity at a particle.
    pub open spec fn shock_at<N: Numerics>(&self, p: Particle, n: &N) -> Binary32 {
        artificial_viscosity(
            self.eos_stiffness,
            self.eos_power,
            self.rest_density,
            self.stress_ratio(&p),
            half().mul(p.velocity_gradient.symmetrised().trace()),
            Binary32::one(),
            n,
        )
    }

    /// The Kirchhoff stress of a particle.
    pub open spec fn stress<N: Numerics>(&self, p: Particle, n: &N) -> Mat2 {
        self.add_surface(self.add_bulk(self.base_stress(p, n), &p), &p).add(
            Mat2::isotropic(self.shock_at(p, n).neg()),
        )
    }

    /// The step bound from sound and from viscous diffusion.
    pub open spec fn step_bound<N: Numerics>(
        &self,
        density: Binary32,
        cell_width: Binary32,
        material_cfl: Binary32,
        viscous_cfl: Binary32,
        n: &N,
    ) -> Binary32 {
        let rho = density.max(self.min_density);
        let rho0 = self.rest_density.max(self.min_density);
        let ratio = rho.div(rho0).max(Binary32::from_bits(MICRO));
        let c2 = tait_c2(
            self.eos_stiffness,
            self.eos_power,
            n.pow_of(ratio, self.eos_power.sub(Binary32::one())),
            rho0,
        );
        viscous_bound(
            acoustic_bound(Binary32::infinity(), c2, cell_width, material_cfl),
            self.dynamic_viscosity.add(self.bulk_viscosity.max(Binary32::zero())),
            rho,
            cell_width,
            viscous_cfl,
        )
    }
}

/// The pressure never falls below its floor.
pub proof fn law_pressure_has_a_floor(
    eos_stiffness: Binary32,
    powered: Binary32,
    floor: Binary32,
)
    requires
        !floor.is_nan(),
    ensures
        floor.le(tait_pressure(eos_stiffness, powered, floor)),
{
}

/// A larger power of the density ratio gives no smaller pressure.
pub proof fn law_pressure_grows_with_density(
    eos_stiffness: Binary32,
    powered: Binary32,
    larger: Binary32,
    floor: Binary32,
)
    requires
        eos_stiffness.gt(Binary32::zero()),
        eos_stiffness.is_finite(),
        powered.is_finite(),
        larger.is_finite(),
        powered.le(larger),
        !floor.is_nan(),
    ensures
        tait_pressure(eos_stiffness, powered, floor).le(
            tait_pressure(eos_stiffness, larger, floor),
        ),
{
    lemma_single_constants();
    let a = powered.sub(Binary32::one());
    let b = larger.sub(Binary32::one());
    law_finite_difference_is_a_number(powered, Binary32::one());
    law_finite_difference_is_a_number(larger, Binary32::one());
    law_subtraction_is_monotone(powered, larger, Binary32::one());
    law_multiplication_commutes(eos_stiffness, a);
    law_multiplication_commutes(eos_stiffness, b);
    if eos_stiffness.is_finite() {
        law_finite_product_is_a_number(a, eos_stiffness);
        law_finite_product_is_a_number(b, eos_stiffness);
    }
    if !a.mul(eos_stiffness).is_nan() && !b.mul(eos_stiffness).is_nan() {
        law_multiplication_is_monotone(a, b, eos_stiffness);
    }
}

/// At rest density there is no pressure, where one to any power is one.
pub proof fn law_no_pressure_at_rest<N: Numerics>(m: NewtonianFluidMaterial, n: &N)
    requires
        m.rest_density.is_finite(),
        m.rest_density.gt(Binary32::zero()),
        m.min_density.le(m.rest_density),
        m.eos_stiffness.is_finite(),
        m.pressure_floor.le(Binary32::zero()),
        n.pow_of(Binary32::one(), m.eos_power) == Binary32::one(),
    ensures
        m.density_at(Binary32::one()) == m.rest_density,
        m.pressure_at(Binary32::one(), n).eq(Binary32::zero()),
{
    lemma_single_constants();
    law_one_is_neutral(m.rest_density);
    law_multiplication_commutes(m.rest_density, two());
    law_multiplication_commutes(m.rest_density, Binary32::one());
    law_finite_product_is_a_number(two(), m.rest_density);
    law_multiplication_is_monotone(Binary32::one(), two(), m.rest_density);
    law_self_quotient_is_one(m.rest_density);
    law_cancellation(Binary32::one());
    law_cancellation(m.eos_stiffness);
}

impl MaterialModel for NewtonianFluidMaterial {
    fn constitutive_model(&self) -> (r: ConstitutiveModel)
        ensures
            r == ConstitutiveModel::Fluid,
    {
        ConstitutiveModel::Fluid
    }

    fn stress_volume(&self, particle: &Particle) -> (r: Binary32)
        ensures
            r == particle.volume.max(self.min_volume),
    {
        particle.volume.max(self.min_volume)
    }

    fn rest_acoustic_c2(&self) -> (r: Option<Binary32>)
        ensures
            r == if self.eos_stiffness.gt(Binary32::zero()) && self.rest_density.gt(
                Binary32::zero(),
            ) {
                Some(self.eos_stiffness.mul(self.eos_power).div(self.rest_density))
            } else {
                None
            },
    {
        if self.eos_stiffness.gt(Binary32::zero()) && self.rest_density.gt(Binary32::zero()) {
            Some(self.eos_stiffness.mul(self.eos_power).div(self.rest_density))
        } else {
            None
        }
    }

    open spec fn initialised(&self, p: Particle) -> Particle {
        seeded(p, self.rest_density)
    }

    fn init_particle(&self, particle: &mut Particle) {
        *particle = seeded(*particle, self.rest_density);
    }

    open spec fn transitioned(&self, p: Particle) -> Particle {
        let j = entry_ratio(p, self.rest_density, half(), two());
        Particle {
            deformation_gradient: isotropic_deformation(j),
            initial_volume: p.mass.div(self.rest_density),
            volume: p.mass.div(self.rest_density).mul(j),
            density: self.rest_density.div(j),
            ..p
        }
    }

    fn init_particle_from_transition(&self, particle: &mut Particle) {
        proof {
            lemma_single_constants();
        }
        let p = *particle;
        let j = entry_ratio(p, self.rest_density, half(), two());
        let initial_volume = p.mass.div(self.rest_density);
        *particle = Particle {
            deformation_gradient: isotropic_deformation(j),
            initial_volume,
            volume: initial_volume.mul(j),
            density: self.rest_density.div(j),
            ..p
        };
    }

    fn owns_deformation_volume_state(&self) -> (r: bool)
        ensures
            r,
    {
        true
    }

    fn specific_heat_j_kg_k(&self) -> (r: Binary32)
        ensures
            r == self.specific_heat_j_kg_k,
    {
        self.specific_heat_j_kg_k
    }

    fn optical_properties(&self) -> (r: Option<OpticalCoefficientsSi>)
        ensures
            r == self.optics,
    {
        self.optics
    }

    fn params(&self) -> (r: MaterialParams)
        ensures
            r == (MaterialParams {
                model: ConstitutiveModel::Fluid.discriminant(),
                rest_density: self.rest_density,
                eos_stiffness: self.eos_stiffness,
                eos_power: self.eos_power,
                dynamic_viscosity: self.dynamic_viscosity,
                thermal_viscosity_coeff: self.thermal_viscosity_coeff,
                volume_ratio_max: two(),
                pressure_floor: self.pressure_floor,
                bulk_viscosity: self.bulk_viscosity,
                dp_h0: self.settling_damping,
                owns_deformation_volume_state: 1,
                ..MaterialParams::zeroed()
            }),
    {
        MaterialParams {
            model: ConstitutiveModel::Fluid.discriminant(),
            rest_density: self.rest_density,
            eos_stiffness: self.eos_stiffness,
            eos_power: self.eos_power,
            dynamic_viscosity: self.dynamic_viscosity,
            thermal_viscosity_coeff: self.thermal_viscosity_coeff,
            volume_ratio_max: two(),
            pressure_floor: self.pressure_floor,
            bulk_viscosity: self.bulk_viscosity,
            dp_h0: self.settling_damping,
            owns_deformation_volume_state: 1,
            ..MaterialParams::zeroed()
        }
    }
}

impl<N: Numerics> Response<N> for NewtonianFluidMaterial {
    fn kirchhoff_stress(&self, particle: &Particle, n: &N) -> (r: Mat2)
        ensures
            r == self.stress(*particle, n),
    {
        let j = self.stress_ratio(particle);
        let pressure = self.pressure(j, n);
        let viscosity = if self.thermal_viscosity_coeff.gt(Binary32::zero()) {
            self.dynamic_viscosity.mul(
                n.unary(
                    Unary::Exp,
                    self.thermal_viscosity_coeff.neg().mul(particle.temperature),
                ),
            )
        } else {
            self.dynamic_viscosity
        };
        let base = Mat2::isotropic(pressure.neg()).add(
            shear_stress(viscosity, particle.velocity_gradient),
        );
        let q = artificial_bulk_viscosity(
            self.eos_stiffness,
            self.eos_power,
            self.rest_density,
            j,
            half().mul(particle.velocity_gradient.symmetrised().trace()),
            Binary32::one(),
            n,
        );
        self.add_surface(self.add_bulk(base, particle), particle).add(Mat2::isotropic(q.neg()))
    }

    fn timestep_bound(
        &self,
        density: Binary32,
        hardening_scale: Binary32,
        cell_width: Binary32,
        material_cfl: Binary32,
        viscous_cfl: Binary32,
        n: &N,
    ) -> (r: Binary32)
        ensures
            r == self.step_bound(density, cell_width, material_cfl, viscous_cfl, n),
    {
        let rho = density.max(self.min_density);
        let rho0 = self.rest_density.max(self.min_density);
        let ratio = rho.div(rho0).max(Binary32::from_bits(MICRO));
        let c2 = tait_c2(
            self.eos_stiffness,
            self.eos_power,
            n.pow(ratio, self.eos_power.sub(Binary32::one())),
            rho0,
        );
        viscous_bound(
            acoustic_bound(Binary32::infinity(), c2, cell_width, material_cfl),
            self.dynamic_viscosity.add(self.bulk_viscosity.max(Binary32::zero())),
            rho,
            cell_width,
            viscous_cfl,
        )
    }

    open spec fn updated(&self, p: Particle, dt: Binary32, n: &N) -> Particle {
        let j = stepped_ratio(p, dt, half(), two(), n);
        Particle {
            v: damped_velocity(p.v, self.settling_damping, dt),
            ..with_volume_ratio(p, j, self.density_at(j), Binary32::from_bits(NANO))
        }
    }

    fn update_particle(&self, particle: &mut Particle, dt: Binary32, n: &N) {
        proof {
            lemma_single_constants();
        }
        let p = *particle;
        let j = step_ratio(&p, dt, half(), two(), n);
        *particle = Particle {
            v: damped_velocity(p.v, self.settling_damping, dt),
            ..with_volume_ratio(p, j, self.density_at(j), Binary32::from_bits(NANO))
        };
    }

    fn hydrostatic_volume_ratio(&self, pressure: Binary32, n: &N) -> (r: Option<Binary32>)
        ensures
            r == if pressure.is_finite() && !pressure.le(Binary32::zero())
                && !self.eos_stiffness.le(Binary32::zero()) {
                Some(
                    n.pow_of(
                        Binary32::one().add(pressure.div(self.eos_stiffness)),
                        Binary32::one().neg().div(self.eos_power),
                    ),
                )
            } else {
                None
            },
    {
        if !pressure.is_finite() || pressure.le(Binary32::zero()) || self.eos_stiffness.le(
            Binary32::zero(),
        ) {
            return None;
        }
        Some(
            n.pow(
                Binary32::one().add(pressure.div(self.eos_stiffness)),
                Binary32::one().neg().div(self.eos_power),
            ),
        )
    }
}

/// The hydrostatic ratio inverts the equation of state, where the two powers are inverse
/// to each other: the pressure there is the given one, up to the rounding of
/// `1 + p / B`.
pub proof fn law_hydrostatic_ratio_inverts_the_pressure<N: Numerics>(
    m: NewtonianFluidMaterial,
    pressure: Binary32,
    n: &N,
)
    requires
        ({
            let powered = Binary32::one().add(pressure.div(m.eos_stiffness));
            let j = n.pow_of(powered, Binary32::one().neg().div(m.eos_power));
            n.pow_of(m.density_at(j).div(m.rest_density), m.eos_power) == powered
        }),
        !m.pressure_floor.is_nan(),
    ensures
        ({
            let ratio = pressure.div(m.eos_stiffness);
            let powered = Binary32::one().add(ratio);
            let j = n.pow_of(powered, Binary32::one().neg().div(m.eos_power));
            let at = m.pressure_at(j, n);
            &&& at == m.eos_stiffness.mul(powered.sub(Binary32::one())).max(m.pressure_floor)
            &&& powered.sub(Binary32::one()) == ratio && m.eos_stiffness.mul(ratio) == pressure
                && m.pressure_floor.le(pressure) ==> at == pressure
        }),
{
}

/// The hydrostatic ratio is a compression: above zero and at most one, and below one where
/// `1 + p / B` is felt above one. Powers with a negative exponent are taken to lie there for
/// bases of at least one, and strictly below one for larger bases.
pub proof fn law_hydrostatic_ratio_is_a_compression<N: Numerics>(
    m: NewtonianFluidMaterial,
    pressure: Binary32,
    n: &N,
)
    requires
        pressure.is_finite(),
        pressure.gt(Binary32::zero()),
        m.eos_stiffness.gt(Binary32::zero()),
        m.eos_power.gt(Binary32::zero()),
        m.eos_power.is_finite(),
        forall|x: Binary32, y: Binary32|
            Binary32::one().le(x) && y.lt(Binary32::zero()) ==> {
                &&& (#[trigger] n.pow_of(x, y)).gt(Binary32::zero())
                &&& n.pow_of(x, y).le(Binary32::one())
                &&& x.gt(Binary32::one()) ==> n.pow_of(x, y).lt(Binary32::one())
            },
    ensures
        ({
            let powered = Binary32::one().add(pressure.div(m.eos_stiffness));
            let j = n.pow_of(powered, Binary32::one().neg().div(m.eos_power));
            &&& j.gt(Binary32::zero())
            &&& j.le(Binary32::one())
            &&& powered.gt(Binary32::one()) ==> j.lt(Binary32::one())
        }),
{
    lemma_single_constants();
    let zero = Binary32::zero();
    let b = m.eos_stiffness;
    law_zero_divided(b);
    law_finite_quotient_is_a_number(pressure, b);
    law_division_is_monotone(zero, pressure, b);
    law_non_negative_steps(Binary32::one(), pressure.div(b));
    law_negative_reciprocal(m.eos_power);
}

} // verus!
