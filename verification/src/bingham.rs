use vstd::prelude::*;

use crate::binary::laws::law_addition_is_monotone;
use crate::binary::laws::law_cancellation;
use crate::binary::laws::law_division_is_antitone;
use crate::binary::laws::law_finite_quotient_is_a_number;
use crate::binary::laws::law_half_of_double;
use crate::binary::laws::law_sum_with_finite_is_a_number;
use crate::binary::laws::lemma_zero_arithmetic;
use crate::binary::single::Binary32;
use crate::binary::single::half;
use crate::binary::single::lemma_single_constants;
use crate::binary::single::two;
use crate::fluid::TAIT_GAMMA;
use crate::fluid::artificial_bulk_viscosity;
use crate::fluid::artificial_viscosity;
use crate::fluid::positive_volumes;
use crate::fluid::tait_c2;
use crate::fluid::tait_pressure;
use crate::fluid::volume_j;
use crate::linalg::Mat2;
use crate::mechanics::MICRO;
use crate::mechanics::NANO;
use crate::mechanics::acoustic_bound;
use crate::mechanics::bounded_density;
use crate::mechanics::damped_velocity;
use crate::mechanics::explicit_trial;
use crate::mechanics::seeded;
use crate::mechanics::viscous_bound;
use crate::mechanics::with_volume_ratio;
use crate::model::ConstitutiveModel;
use crate::model::MaterialModel;
use crate::model::Response;
use crate::numerics::Numerics;
use crate::params::MaterialParams;
use crate::particle::Particle;
use crate::particle::SimConfig;

verus! {

/// Shear rate below which the plug is rigid, 1.0e-4.
pub const CRITICAL_SHEAR_RATE: u32 = 0x38d1_b717;

/// SI properties of a Bingham fluid.
#[derive(Clone, Copy, Debug, PartialEq, Eq, Structural)]
pub struct BinghamProps {
    pub rho_kg_m3: Binary32,
    pub eta_pa_s: Binary32,
    pub yield_stress_pa: Binary32,
    pub bulk_modulus_pa: Binary32,
}

/// Bingham fluid: a rigid plug below the critical shear rate, above it the apparent
/// viscosity `yield_stress / shear_rate + dynamic_viscosity`; Tait pressure.
#[derive(Clone, Copy, Debug, PartialEq, Eq, Structural)]
pub struct BinghamFluidMaterial {
    pub rest_density: Binary32,
    pub dynamic_viscosity: Binary32,
    pub eos_stiffness: Binary32,
    pub eos_power: Binary32,
    pub yield_stress: Binary32,
    pub critical_shear_rate: Binary32,
    /// Lower bound of the pressure.
    pub pressure_floor: Binary32,
    pub min_density: Binary32,
    pub min_volume: Binary32,
    pub surface_tension_coeff: Binary32,
    pub settling_damping: Binary32,
    pub bulk_viscosity: Binary32,
}

impl BinghamFluidMaterial {
    /// A fluid in grid units.
    #[verifier::allow_in_spec]
    pub fn new(
        rest_density: Binary32,
        dynamic_viscosity: Binary32,
        eos_stiffness: Binary32,
        eos_power: Binary32,
        yield_stress: Binary32,
    ) -> BinghamFluidMaterial
        returns
            (BinghamFluidMaterial {
                rest_density,
                dynamic_viscosity,
                eos_stiffness,
                eos_power,
                yield_stress,
                critical_shear_rate: Binary32::from_bits(CRITICAL_SHEAR_RATE),
                pressure_floor: Binary32::zero(),
                min_density: Binary32::from_bits(MICRO),
                min_volume: Binary32::from_bits(MICRO),
                surface_tension_coeff: Binary32::zero(),
                settling_damping: Binary32::zero(),
                bulk_viscosity: Binary32::zero(),
            }),
    {
        BinghamFluidMaterial {
            rest_density,
            dynamic_viscosity,
            eos_stiffness,
            eos_power,
            yield_stress,
            critical_shear_rate: Binary32::from_bits(CRITICAL_SHEAR_RATE),
            pressure_floor: Binary32::zero(),
            min_density: Binary32::from_bits(MICRO),
            min_volume: Binary32::from_bits(MICRO),
            surface_tension_coeff: Binary32::zero(),
            settling_damping: Binary32::zero(),
            bulk_viscosity: Binary32::zero(),
        }
    }

    /// Wet mud: yield stress 100, viscosity 0.5.
    #[verifier::allow_in_spec]
    pub fn high_yield(rest_density: Binary32, eos_stiffness: Binary32) -> BinghamFluidMaterial
        returns
            Self::new(
                rest_density,
                Binary32::from_bits(0x3f00_0000),
                eos_stiffness,
                Binary32::from_bits(TAIT_GAMMA),
                Binary32::from_bits(0x42c8_0000),
            ),
    {
        Self::new(
            rest_density,
            Binary32::from_bits(0x3f00_0000),
            eos_stiffness,
            Binary32::from_bits(TAIT_GAMMA),
            Binary32::from_bits(0x42c8_0000),
        )
    }

    /// Basaltic lava: yield stress 1000, viscosity 500.
    #[verifier::allow_in_spec]
    pub fn viscous_high_yield(
        rest_density: Binary32,
        eos_stiffness: Binary32,
    ) -> BinghamFluidMaterial
        returns
            Self::new(
                rest_density,
                Binary32::from_bits(0x43fa_0000),
                eos_stiffness,
                Binary32::from_bits(TAIT_GAMMA),
                Binary32::from_bits(0x447a_0000),
            ),
    {
        Self::new(
            rest_density,
            Binary32::from_bits(0x43fa_0000),
            eos_stiffness,
            Binary32::from_bits(TAIT_GAMMA),
            Binary32::from_bits(0x447a_0000),
        )
    }

    /// Cytoplasm: yield stress 1, viscosity 0.01.
    #[verifier::allow_in_spec]
    pub fn low_yield(rest_density: Binary32, eos_stiffness: Binary32) -> BinghamFluidMaterial
        returns
            Self::new(
                rest_density,
                Binary32::from_bits(0x3c23_d70a),
                eos_stiffness,
                Binary32::from_bits(TAIT_GAMMA),
                Binary32::one(),
            ),
    {
        Self::new(
            rest_density,
            Binary32::from_bits(0x3c23_d70a),
            eos_stiffness,
            Binary32::from_bits(TAIT_GAMMA),
            Binary32::one(),
        )
    }

    /// Dense biological fluid: yield stress 10, viscosity 0.1.
    #[verifier::allow_in_spec]
    pub fn medium_yield(rest_density: Binary32, eos_stiffness: Binary32) -> BinghamFluidMaterial
        returns
            Self::new(
                rest_density,
                Binary32::from_bits(0x3dcc_cccd),
                eos_stiffness,
                Binary32::from_bits(TAIT_GAMMA),
                Binary32::from_bits(0x4120_0000),
            ),
    {
        Self::new(
            rest_density,
            Binary32::from_bits(0x3dcc_cccd),
            eos_stiffness,
            Binary32::from_bits(TAIT_GAMMA),
            Binary32::from_bits(0x4120_0000),
        )
    }

    /// A fluid from SI properties: only the density is taken to the grid.
    #[verifier::allow_in_spec]
    pub fn from_physical(props: &BinghamProps, config: &SimConfig) -> BinghamFluidMaterial
        returns
            Self::new(
                props.rho_kg_m3.mul(config.dx_meters).mul(config.dx_meters),
                props.eta_pa_s,
                props.bulk_modulus_pa.div(Binary32::from_bits(TAIT_GAMMA)),
                Binary32::from_bits(TAIT_GAMMA),
                props.yield_stress_pa,
            ),
    {
        Self::new(
            props.rho_kg_m3.mul(config.dx_meters).mul(config.dx_meters),
            props.eta_pa_s,
            props.bulk_modulus_pa.div(Binary32::from_bits(TAIT_GAMMA)),
            Binary32::from_bits(TAIT_GAMMA),
            props.yield_stress_pa,
        )
    }

    /// The deviator of the strain rate.
    #[verifier::allow_in_spec]
    pub fn strain_rate_deviator(c: Mat2) -> Mat2
        returns
            c.symmetrised().scale(half()).deviator(),
    {
        c.symmetrised().scale(half()).deviator()
    }

    /// The scalar shear rate of a strain rate deviator: the root of twice its square.
    #[verifier::allow_in_spec]
    pub fn shear_rate(d: Mat2) -> Binary32
        returns
            two().mul(
                d.x_axis.x.mul(d.x_axis.x).add(d.y_axis.y.mul(d.y_axis.y)).add(
                    two().mul(d.x_axis.y).mul(d.x_axis.y),
                ),
            ).sqrt(),
    {
        two().mul(
            d.x_axis.x.mul(d.x_axis.x).add(d.y_axis.y.mul(d.y_axis.y)).add(
                two().mul(d.x_axis.y).mul(d.x_axis.y),
            ),
        ).sqrt()
    }

    /// The apparent viscosity at a shear rate.
    #[verifier::allow_in_spec]
    pub fn apparent_viscosity(&self, rate: Binary32) -> Binary32
        returns
            self.yield_stress.div(rate).add(self.dynamic_viscosity),
    {
        self.yield_stress.div(rate).add(self.dynamic_viscosity)
    }

    /// The Bingham stress of a velocity gradient: none below the critical shear rate.
    #[verifier::allow_in_spec]
    pub fn deviatoric_stress(&self, c: Mat2) -> Mat2
        returns
            if Self::shear_rate(Self::strain_rate_deviator(c)).lt(self.critical_shear_rate) {
                Mat2::zero()
            } else {
                Self::strain_rate_deviator(c).scale(
                    self.apparent_viscosity(Self::shear_rate(Self::strain_rate_deviator(c))),
                )
            },
    {
        let d = Self::strain_rate_deviator(c);
        let rate = Self::shear_rate(d);
        if rate.lt(self.critical_shear_rate) {
            return Mat2::zero();
        }
        d.scale(self.apparent_viscosity(rate))
    }

    /// The surface tension of a particle.
    #[verifier::allow_in_spec]
    pub fn surface_stress(&self, p: &Particle) -> Mat2
        returns
            if !self.surface_tension_coeff.eq(Binary32::zero()) {
                Mat2::isotropic(
                    self.surface_tension_coeff.mul(p.deformation_gradient.determinant()),
                )
            } else {
                Mat2::zero()
            },
    {
        if !self.surface_tension_coeff.eq(Binary32::zero()) {
            Mat2::isotropic(self.surface_tension_coeff.mul(p.deformation_gradient.determinant()))
        } else {
            Mat2::zero()
        }
    }

    /// The bulk viscous stress of a particle, `zeta div(v) I`.
    #[verifier::allow_in_spec]
    pub fn bulk_stress(&self, p: &Particle) -> Mat2
        returns
            if self.bulk_viscosity.gt(Binary32::zero()) {
                Mat2::isotropic(self.bulk_viscosity.mul(p.velocity_gradient.trace()))
            } else {
                Mat2::zero()
            },
    {
        if self.bulk_viscosity.gt(Binary32::zero()) {
            Mat2::isotropic(self.bulk_viscosity.mul(p.velocity_gradient.trace()))
        } else {
            Mat2::zero()
        }
    }

    /// The carried density within its bounds.
    #[verifier::allow_in_spec]
    pub fn stress_density(&self, p: &Particle) -> Binary32
        returns
            p.density.max(self.min_density).min(self.rest_density.mul(two())),
    {
        p.density.max(self.min_density).min(self.rest_density.mul(two()))
    }

    /// The density at volume ratio `j`: at most twice the rest density.
    #[verifier::allow_in_spec]
    pub fn density_at(&self, j: Binary32) -> Binary32
        returns
            bounded_density(
                self.rest_density,
                j,
                self.min_density,
                self.rest_density.mul(two()),
            ),
    {
        bounded_density(self.rest_density, j, self.min_density, self.rest_density.mul(two()))
    }

    /// The Tait pressure of a particle.
    pub open spec fn pressure_of<N: Numerics>(&self, p: Particle, n: &N) -> Binary32 {
        tait_pressure(
            self.eos_stiffness,
            n.pow_of(self.stress_density(&p).div(self.rest_density), self.eos_power),
            self.pressure_floor,
        )
    }

    /// The artificial viscosity at a particle.
    pub open spec fn shock_at<N: Numerics>(&self, p: Particle, n: &N) -> Binary32 {
        artificial_viscosity(
            self.eos_stiffness,
            self.eos_power,
            self.rest_density,
            p.volume.div(p.initial_volume),
            p.velocity_gradient.trace(),
            Binary32::one(),
            n,
        )
    }

    /// The Kirchhoff stress of a particle.
    pub open spec fn stress<N: Numerics>(&self, p: Particle, n: &N) -> Mat2 {
        Mat2::isotropic(self.pressure_of(p, n).neg()).add(
            self.deviatoric_stress(p.velocity_gradient),
        ).add(self.surface_stress(&p)).add(self.bulk_stress(&p)).add(
            Mat2::isotropic(self.shock_at(p, n).neg()),
        )
    }

    /// The step bound from sound and from viscous diffusion.
    pub open spec fn step_bound<N: Numerics>(
        &self,
        density: Binary32,
        cell_width: Binary32,
        material_cfl: Binary32,
        viscous_cfl: Binary32,
        n: &N,
    ) -> Binary32 {
        let rho = density.max(self.min_density);
        let rho0 = self.rest_density.max(self.min_density);
        let ratio = rho.div(rho0).max(Binary32::from_bits(MICRO));
        let c2 = tait_c2(
            self.eos_stiffness,
            self.eos_power,
            n.pow_of(ratio, self.eos_power.sub(Binary32::one())),
            rho0,
        );
        viscous_bound(
            acoustic_bound(Binary32::infinity(), c2, cell_width, material_cfl),
            self.dynamic_viscosity,
            rho,
            cell_width,
            viscous_cfl,
        )
    }
}

impl MaterialModel for BinghamFluidMaterial {
    fn constitutive_model(&self) -> (r: ConstitutiveModel)
        ensures
            r == ConstitutiveModel::Fluid,
    {
        ConstitutiveModel::Fluid
    }

    fn stress_volume(&self, particle: &Particle) -> (r: Binary32)
        ensures
            r == particle.volume.max(self.min_volume),
    {
        particle.volume.max(self.min_volume)
    }

    fn rest_acoustic_c2(&self) -> (r: Option<Binary32>)
        ensures
            r == if self.eos_stiffness.gt(Binary32::zero()) && self.rest_density.gt(
                Binary32::zero(),
            ) {
                Some(self.eos_stiffness.mul(self.eos_power).div(self.rest_density))
            } else {
                None
            },
    {
        if self.eos_stiffness.gt(Binary32::zero()) && self.rest_density.gt(Binary32::zero()) {
            Some(self.eos_stiffness.mul(self.eos_power).div(self.rest_density))
        } else {
            None
        }
    }

    open spec fn initialised(&self, p: Particle) -> Particle {
        seeded(p, self.rest_density)
    }

    fn init_particle(&self, particle: &mut Particle) {
        *particle = seeded(*particle, self.rest_density);
    }

    open spec fn transitioned(&self, p: Particle) -> Particle {
        self.initialised(p)
    }

    fn init_particle_from_transition(&self, particle: &mut Particle) {
        self.init_particle(particle)
    }

    fn owns_deformation_volume_state(&self) -> (r: bool)
        ensures
            r,
    {
        true
    }

    fn params(&self) -> (r: MaterialParams)
        ensures
            r == (MaterialParams {
                model: ConstitutiveModel::Fluid.discriminant(),
                rest_density: self.rest_density,
                eos_stiffness: self.eos_stiffness,
                eos_power: self.eos_power,
                dynamic_viscosity: self.dynamic_viscosity,
                compression_limit: self.yield_stress,
                volume_ratio_max: two(),
                pressure_floor: self.pressure_floor,
                dp_h0: self.settling_damping,
                bulk_viscosity: self.bulk_viscosity,
                owns_deformation_volume_state: 1,
                ..MaterialParams::zeroed()
            }),
    {
        MaterialParams {
            model: ConstitutiveModel::Fluid.discriminant(),
            rest_density: self.rest_density,
            eos_stiffness: self.eos_stiffness,
            eos_power: self.eos_power,
            dynamic_viscosity: self.dynamic_viscosity,
            compression_limit: self.yield_stress,
            volume_ratio_max: two(),
            pressure_floor: self.pressure_floor,
            dp_h0: self.settling_damping,
            bulk_viscosity: self.bulk_viscosity,
            owns_deformation_volume_state: 1,
            ..MaterialParams::zeroed()
        }
    }
}

impl<N: Numerics> Response<N> for BinghamFluidMaterial {
    open spec fn admits(&self, p: Particle, n: &N) -> bool {
        positive_volumes(p.initial_volume, p.volume)
    }

    fn kirchhoff_stress(&self, particle: &Particle, n: &N) -> (r: Mat2)
        ensures
            r == self.stress(*particle, n),
    {
        let powered = n.pow(
            self.stress_density(particle).div(self.rest_density),
            self.eos_power,
        );
        let pressure = tait_pressure(self.eos_stiffness, powered, self.pressure_floor);
        let q = artificial_bulk_viscosity(
            self.eos_stiffness,
            self.eos_power,
            self.rest_density,
            volume_j(particle.initial_volume, particle.volume),
            particle.velocity_gradient.trace(),
            Binary32::one(),
            n,
        );
        Mat2::isotropic(pressure.neg()).add(
            self.deviatoric_stress(particle.velocity_gradient),
        ).add(self.surface_stress(particle)).add(self.bulk_stress(particle)).add(
            Mat2::isotropic(q.neg()),
        )
    }

    fn timestep_bound(
        &self,
        density: Binary32,
        hardening_scale: Binary32,
        cell_width: Binary32,
        material_cfl: Binary32,
        viscous_cfl: Binary32,
        n: &N,
    ) -> (r: Binary32)
        ensures
            r == self.step_bound(density, cell_width, material_cfl, viscous_cfl, n),
    {
        let rho = density.max(self.min_density);
        let rho0 = self.rest_density.max(self.min_density);
        let ratio = rho.div(rho0).max(Binary32::from_bits(MICRO));
        let c2 = tait_c2(
            self.eos_stiffness,
            self.eos_power,
            n.pow(ratio, self.eos_power.sub(Binary32::one())),
            rho0,
        );
        viscous_bound(
            acoustic_bound(Binary32::infinity(), c2, cell_width, material_cfl),
            self.dynamic_viscosity,
            rho,
            cell_width,
            viscous_cfl,
        )
    }

    open spec fn updated(&self, p: Particle, dt: Binary32, n: &N) -> Particle {
        let j = explicit_trial(p, dt).determinant().clamp(half(), two());
        Particle {
            v: damped_velocity(p.v, self.settling_damping, dt),
            ..with_volume_ratio(p, j, self.density_at(j), Binary32::from_bits(NANO))
        }
    }

    fn update_particle(&self, particle: &mut Particle, dt: Binary32, n: &N) {
        proof {
            lemma_single_constants();
        }
        let p = *particle;
        let j = explicit_trial(p, dt).determinant().clamp(half(), two());
        *particle = Particle {
            v: damped_velocity(p.v, self.settling_damping, dt),
            ..with_volume_ratio(p, j, self.density_at(j), Binary32::from_bits(NANO))
        };
    }
}

/// The faster the shear, the less viscous the fluid appears.
pub proof fn law_apparent_viscosity_falls(
    m: BinghamFluidMaterial,
    rate: Binary32,
    faster: Binary32,
)
    requires
        Binary32::zero().lt(rate),
        rate.le(faster),
        Binary32::zero().lt(m.yield_stress),
        m.yield_stress.is_finite(),
        m.dynamic_viscosity.is_finite(),
    ensures
        m.apparent_viscosity(faster).le(m.apparent_viscosity(rate)),
{
    law_finite_quotient_is_a_number(m.yield_stress, rate);
    law_finite_quotient_is_a_number(m.yield_stress, faster);
    law_division_is_antitone(m.yield_stress, rate, faster);
    law_sum_with_finite_is_a_number(m.yield_stress.div(rate), m.dynamic_viscosity);
    law_sum_with_finite_is_a_number(m.yield_stress.div(faster), m.dynamic_viscosity);
    law_addition_is_monotone(
        m.yield_stress.div(faster),
        m.yield_stress.div(rate),
        m.dynamic_viscosity,
    );
}

/// A pure dilation is no shear: the fluid stays a plug at any rate.
pub proof fn law_dilation_is_no_shear(m: BinghamFluidMaterial, rate: Binary32)
    requires
        rate.is_finite(),
        rate.add(rate).is_finite(),
        Binary32::zero().lt(m.critical_shear_rate),
    ensures
        BinghamFluidMaterial::shear_rate(
            BinghamFluidMaterial::strain_rate_deviator(Mat2::isotropic(rate)),
        ) == Binary32::zero(),
        m.deviatoric_stress(Mat2::isotropic(rate)) == Mat2::zero(),
{
    law_half_of_double(rate);
    law_cancellation(rate);
    lemma_zero_arithmetic();
    let d = BinghamFluidMaterial::strain_rate_deviator(Mat2::isotropic(rate));
    assert(d.x_axis.x == Binary32::zero());
    assert(d.x_axis.y == Binary32::zero());
    assert(d.y_axis.y == Binary32::zero());
}

} // verus!
