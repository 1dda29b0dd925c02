use vstd::prelude::*;

use crate::binary::laws::law_clamp_is_bounded;
use crate::binary::laws::law_finite_product_is_a_number;
use crate::binary::laws::law_finite_quotient_is_a_number;
use crate::binary::laws::law_multiplication_commutes;
use crate::binary::laws::law_multiplication_is_monotone;
use crate::binary::laws::law_one_is_neutral;
use crate::binary::laws::law_positive_difference_is_finite;
use crate::binary::laws::law_self_quotient_is_one;
use crate::binary::laws::law_zero_absorbs;
use crate::binary::single::Binary32;
use crate::binary::single::half;
use crate::binary::single::lemma_single_constants;
use crate::binary::single::two;
use crate::fluid::tait_pressure;
use crate::linalg::Mat2;
use crate::linalg::Vec2;
use crate::mechanics::MICRO;
use crate::mechanics::MIN_J;
use crate::mechanics::dashpot_stress;
use crate::mechanics::elastic_wave_dt;
use crate::mechanics::lame_from_young;
use crate::mechanics::polar_decomposition_2d;
use crate::mechanics::recompose;
use crate::mechanics::viscous_bound;
use crate::mechanics::with_deformation;
use crate::model::ConstitutiveModel;
use crate::model::MaterialModel;
use crate::model::Response;
use crate::numerics::Numerics;
use crate::numerics::Unary;
use crate::params::MaterialParams;
use crate::particle::Particle;

verus! {

/// Largest hardening scale, 7. The smallest is one: a softer one would let dilation
/// feed itself.
pub const HARDENING_MAX: u32 = 0x40e0_0000;

/// Least product of clamped singular values, 1.0e-10.
pub const MIN_SIGMA_PRODUCT: u32 = 0x2edb_e6ff;

/// Granular-fluid mixture: Tait pressure, corotated deviator, singular values of the
/// deformation gradient clamped with the excess kept as plastic volume ratio.
#[derive(Clone, Copy, Debug, PartialEq, Eq, Structural)]
pub struct GranularFluidMaterial {
    pub mu: Binary32,
    pub lambda: Binary32,
    pub rest_density: Binary32,
    pub eos_stiffness: Binary32,
    pub eos_power: Binary32,
    /// `xi` in the hardening `exp(xi (1 - Jp))`.
    pub hardening_exponent: Binary32,
    /// Singular values stay above one minus this.
    pub compression_limit: Binary32,
    /// Singular values stay below one plus this.
    pub stretch_limit: Binary32,
    pub min_plastic_jacobian: Binary32,
    pub max_plastic_jacobian: Binary32,
    /// Lower bound of the pressure.
    pub pressure_floor: Binary32,
    pub dynamic_viscosity: Binary32,
    pub bulk_viscosity: Binary32,
}

impl GranularFluidMaterial {
    /// A mixture in grid units.
    #[verifier::allow_in_spec]
    pub fn new(
        lambda: Binary32,
        mu: Binary32,
        rest_density: Binary32,
        eos_stiffness: Binary32,
        hardening_exponent: Binary32,
        compression_limit: Binary32,
    ) -> GranularFluidMaterial
        returns
            (GranularFluidMaterial {
                mu,
                lambda,
                rest_density,
                eos_stiffness,
                eos_power: two(),
                hardening_exponent,
                compression_limit,
                stretch_limit: Binary32::from_bits(0x3c23_d70a),
                min_plastic_jacobian: Binary32::from_bits(0x3e4c_cccd),
                max_plastic_jacobian: Binary32::from_bits(0x4040_0000),
                pressure_floor: Binary32::zero(),
                dynamic_viscosity: Binary32::zero(),
                bulk_viscosity: Binary32::zero(),
            }),
    {
        GranularFluidMaterial {
            mu,
            lambda,
            rest_density,
            eos_stiffness,
            // squared density ratio: granular flow
            eos_power: two(),
            hardening_exponent,
            compression_limit,
            // 0.01
            stretch_limit: Binary32::from_bits(0x3c23_d70a),
            // 0.2
            min_plastic_jacobian: Binary32::from_bits(0x3e4c_cccd),
            // 3
            max_plastic_jacobian: Binary32::from_bits(0x4040_0000),
            pressure_floor: Binary32::zero(),
            dynamic_viscosity: Binary32::zero(),
            bulk_viscosity: Binary32::zero(),
        }
    }

    /// Saturated loam: stiffness 200, hardening 5, compression limit 0.4.
    pub fn saturated_loam(young_modulus: Binary32, poisson_ratio: Binary32) -> (r:
        GranularFluidMaterial)
        ensures
            r == (GranularFluidMaterial {
                // 0.3 mu and half the stiffness
                dynamic_viscosity: Binary32::from_bits(0x3e99_999a).mul(
                    lame_from_young(young_modulus, poisson_ratio).1,
                ),
                bulk_viscosity: half().mul(Binary32::from_bits(0x4348_0000)),
                ..Self::new(
                    lame_from_young(young_modulus, poisson_ratio).0,
                    lame_from_young(young_modulus, poisson_ratio).1,
                    Binary32::one(),
                    Binary32::from_bits(0x4348_0000),
                    Binary32::from_bits(0x40a0_0000),
                    Binary32::from_bits(0x3ecc_cccd),
                )
            }),
    {
        let (lambda, mu) = lame_from_young(young_modulus, poisson_ratio);
        GranularFluidMaterial {
            dynamic_viscosity: Binary32::from_bits(0x3e99_999a).mul(mu),
            bulk_viscosity: half().mul(Binary32::from_bits(0x4348_0000)),
            ..Self::new(
                lambda,
                mu,
                Binary32::one(),
                Binary32::from_bits(0x4348_0000),
                Binary32::from_bits(0x40a0_0000),
                Binary32::from_bits(0x3ecc_cccd),
            )
        }
    }

    /// Consolidated clay: stiffness 500, hardening 3, compression limit 0.3.
    pub fn consolidated_clay(young_modulus: Binary32, poisson_ratio: Binary32) -> (r:
        GranularFluidMaterial)
        ensures
            r == (GranularFluidMaterial {
                // 0.3 and 2.5
                min_plastic_jacobian: Binary32::from_bits(0x3e99_999a),
                max_plastic_jacobian: Binary32::from_bits(0x4020_0000),
                // half of mu and of the stiffness
                dynamic_viscosity: half().mul(lame_from_young(young_modulus, poisson_ratio).1),
                bulk_viscosity: half().mul(Binary32::from_bits(0x43fa_0000)),
                ..Self::new(
                    lame_from_young(young_modulus, poisson_ratio).0,
                    lame_from_young(young_modulus, poisson_ratio).1,
                    Binary32::from_bits(0x3f99_999a),
                    Binary32::from_bits(0x43fa_0000),
                    Binary32::from_bits(0x4040_0000),
                    Binary32::from_bits(0x3e99_999a),
                )
            }),
    {
        let (lambda, mu) = lame_from_young(young_modulus, poisson_ratio);
        GranularFluidMaterial {
            min_plastic_jacobian: Binary32::from_bits(0x3e99_999a),
            max_plastic_jacobian: Binary32::from_bits(0x4020_0000),
            dynamic_viscosity: half().mul(mu),
            bulk_viscosity: half().mul(Binary32::from_bits(0x43fa_0000)),
            ..Self::new(
                lambda,
                mu,
                Binary32::from_bits(0x3f99_999a),
                Binary32::from_bits(0x43fa_0000),
                Binary32::from_bits(0x4040_0000),
                Binary32::from_bits(0x3e99_999a),
            )
        }
    }

    /// Cytoplasmic matrix: stiffness 50, hardening 1, compression limit 0.6.
    pub fn cytoplasmic(young_modulus: Binary32, poisson_ratio: Binary32) -> (r:
        GranularFluidMaterial)
        ensures
            r == (GranularFluidMaterial {
                // 0.05, 0.1 and 5
                stretch_limit: Binary32::from_bits(0x3d4c_cccd),
                min_plastic_jacobian: Binary32::from_bits(0x3dcc_cccd),
                max_plastic_jacobian: Binary32::from_bits(0x40a0_0000),
                // 0.15 mu and half the stiffness
                dynamic_viscosity: Binary32::from_bits(0x3e19_999a).mul(
                    lame_from_young(young_modulus, poisson_ratio).1,
                ),
                bulk_viscosity: half().mul(Binary32::from_bits(0x4248_0000)),
                ..Self::new(
                    lame_from_young(young_modulus, poisson_ratio).0,
                    lame_from_young(young_modulus, poisson_ratio).1,
                    Binary32::one(),
                    Binary32::from_bits(0x4248_0000),
                    Binary32::one(),
                    Binary32::from_bits(0x3f19_999a),
                )
            }),
    {
        let (lambda, mu) = lame_from_young(young_modulus, poisson_ratio);
        GranularFluidMaterial {
            stretch_limit: Binary32::from_bits(0x3d4c_cccd),
            min_plastic_jacobian: Binary32::from_bits(0x3dcc_cccd),
            max_plastic_jacobian: Binary32::from_bits(0x40a0_0000),
            dynamic_viscosity: Binary32::from_bits(0x3e19_999a).mul(mu),
            bulk_viscosity: half().mul(Binary32::from_bits(0x4248_0000)),
            ..Self::new(
                lambda,
                mu,
                Binary32::one(),
                Binary32::from_bits(0x4248_0000),
                Binary32::one(),
                Binary32::from_bits(0x3f19_999a),
            )
        }
    }

    /// Whether singular values are clamped at all.
    #[verifier::allow_in_spec]
    pub fn is_plastic(&self) -> bool
        returns
            self.compression_limit.gt(Binary32::zero()) || self.stretch_limit.gt(Binary32::zero()),
    {
        self.compression_limit.gt(Binary32::zero()) || self.stretch_limit.gt(Binary32::zero())
    }

    /// The least singular value.
    #[verifier::allow_in_spec]
    pub fn sigma_min(&self) -> Binary32
        returns
            Binary32::one().sub(self.compression_limit),
    {
        Binary32::one().sub(self.compression_limit)
    }

    /// The largest singular value.
    #[verifier::allow_in_spec]
    pub fn sigma_max(&self) -> Binary32
        returns
            Binary32::one().add(self.stretch_limit),
    {
        Binary32::one().add(self.stretch_limit)
    }

    /// The limits of the singular values and of the plastic volume ratio are in order.
    pub open spec fn has_limits(&self) -> bool {
        self.is_plastic() ==> {
            &&& self.sigma_min().le(self.sigma_max())
            &&& self.min_plastic_jacobian.le(self.max_plastic_jacobian)
        }
    }

    /// Singular values within the limits.
    pub open spec fn clamped_sigma(&self, sigma: Vec2) -> Vec2 {
        Vec2 {
            x: sigma.x.clamp(self.sigma_min(), self.sigma_max()),
            y: sigma.y.clamp(self.sigma_min(), self.sigma_max()),
        }
    }

    /// The plastic volume ratio after a clamp: what the clamp took off the volume.
    pub open spec fn plastic_ratio(&self, jp: Binary32, sigma: Vec2) -> Binary32 {
        let c = self.clamped_sigma(sigma);
        jp.mul(sigma.x.mul(sigma.y)).div(
            c.x.mul(c.y).max(Binary32::from_bits(MIN_SIGMA_PRODUCT)),
        ).clamp(self.min_plastic_jacobian, self.max_plastic_jacobian)
    }

    /// The hardening scale at a plastic volume ratio.
    pub open spec fn hardening<N: Numerics>(&self, jp: Binary32, n: &N) -> Binary32 {
        n.unary_of(
            Unary::Exp,
            self.hardening_exponent.mul(Binary32::one().sub(jp)),
        ).clamp(Binary32::one(), Binary32::from_bits(HARDENING_MAX))
    }

    /// A particle with trial deformation gradient `f`, returned to the limits.
    pub open spec fn returned<N: Numerics>(&self, p: Particle, f: Mat2, n: &N) -> Particle {
        if self.is_plastic() {
            let (u, sigma, vt) = n.svd_of(f);
            let jp = self.plastic_ratio(p.plastic_volume_ratio, sigma);
            Particle {
                plastic_volume_ratio: jp,
                hardening_scale: self.hardening(jp, n),
                ..with_deformation(p, recompose(u, self.clamped_sigma(sigma), vt))
            }
        } else {
            with_deformation(p, f)
        }
    }

    /// A particle with trial deformation gradient `f`, returned to the limits.
    pub fn return_to_limits<N: Numerics>(&self, p: Particle, f: Mat2, n: &N) -> (r: Particle)
        requires
            self.has_limits(),
        ensures
            r == self.returned(p, f, n),
    {
        if self.is_plastic() {
            proof {
                lemma_single_constants();
            }
            let (u, sigma, vt) = n.svd(f);
            let clamped = Vec2::new(
                sigma.x.clamp(self.sigma_min(), self.sigma_max()),
                sigma.y.clamp(self.sigma_min(), self.sigma_max()),
            );
            let jp = p.plastic_volume_ratio.mul(sigma.x.mul(sigma.y)).div(
                clamped.x.mul(clamped.y).max(Binary32::from_bits(MIN_SIGMA_PRODUCT)),
            ).clamp(self.min_plastic_jacobian, self.max_plastic_jacobian);
            let hardening_scale = n.unary(
                Unary::Exp,
                self.hardening_exponent.mul(Binary32::one().sub(jp)),
            ).clamp(Binary32::one(), Binary32::from_bits(HARDENING_MAX));
            Particle {
                plastic_volume_ratio: jp,
                hardening_scale,
                ..with_deformation(p, recompose(u, clamped, vt))
            }
        } else {
            with_deformation(p, f)
        }
    }

    /// The density ratio at volume ratio `j`.
    #[verifier::allow_in_spec]
    pub fn density_ratio(&self, j: Binary32) -> Binary32
        returns
            self.rest_density.div(j).max(Binary32::from_bits(MICRO)).div(
                self.rest_density.max(Binary32::from_bits(MICRO)),
            ).max(Binary32::from_bits(MICRO)),
    {
        self.rest_density.div(j).max(Binary32::from_bits(MICRO)).div(
            self.rest_density.max(Binary32::from_bits(MICRO)),
        ).max(Binary32::from_bits(MICRO))
    }

    /// Pressure, corotated deviator and corotated volume term.
    #[verifier::allow_in_spec]
    pub fn elastic_stress(&self, p: &Particle, j: Binary32, pressure: Binary32) -> Mat2
        returns
            Mat2::isotropic(pressure.neg()).add(
                p.deformation_gradient.sub(polar_decomposition_2d(p.deformation_gradient)).scale(
                    two().mul(self.mu.mul(p.hardening_scale)),
                ).mul(p.deformation_gradient.transpose()).deviator(),
            ).add(
                Mat2::identity().scale(
                    self.lambda.mul(p.hardening_scale).mul(j.sub(Binary32::one())).mul(j),
                ),
            ),
    {
        let f = p.deformation_gradient;
        let rotation = polar_decomposition_2d(f);
        let corotated = f.sub(rotation).scale(two().mul(self.mu.mul(p.hardening_scale))).mul(
            f.transpose(),
        );
        Mat2::isotropic(pressure.neg()).add(corotated.deviator()).add(
            Mat2::identity().scale(
                self.lambda.mul(p.hardening_scale).mul(j.sub(Binary32::one())).mul(j),
            ),
        )
    }

    /// `base` with shear and bulk viscosity: `eta dev(D) + zeta div(v) I`, `D` the
    /// symmetric part of the velocity gradient.
    #[verifier::allow_in_spec]
    pub fn add_viscous(&self, base: Mat2, p: &Particle) -> Mat2
        returns
            self.add_bulk(
                if self.dynamic_viscosity.gt(Binary32::zero()) {
                    base.add(dashpot_stress(self.dynamic_viscosity, p.velocity_gradient))
                } else {
                    base
                },
                p,
            ),
    {
        let sheared = if self.dynamic_viscosity.gt(Binary32::zero()) {
            base.add(dashpot_stress(self.dynamic_viscosity, p.velocity_gradient))
        } else {
            base
        };
        self.add_bulk(sheared, p)
    }

    /// `base` with bulk viscosity.
    #[verifier::allow_in_spec]
    pub fn add_bulk(&self, base: Mat2, p: &Particle) -> Mat2
        returns
            if self.bulk_viscosity.gt(Binary32::zero()) {
                base.add(
                    Mat2::isotropic(
                        self.bulk_viscosity.mul(p.velocity_gradient.symmetrised().trace()).mul(
                            half(),
                        ),
                    ),
                )
            } else {
                base
            },
    {
        if self.bulk_viscosity.gt(Binary32::zero()) {
            base.add(
                Mat2::isotropic(
                    self.bulk_viscosity.mul(p.velocity_gradient.symmetrised().trace()).mul(half()),
                ),
            )
        } else {
            base
        }
    }

    /// The pressure at volume ratio `j`.
    pub open spec fn pressure_at<N: Numerics>(&self, j: Binary32, n: &N) -> Binary32 {
        tait_pressure(
            self.eos_stiffness,
            n.fast_pow_of(self.density_ratio(j), self.eos_power),
            self.pressure_floor,
        )
    }

    /// The Kirchhoff stress of a particle.
    pub open spec fn stress<N: Numerics>(&self, p: Particle, n: &N) -> Mat2 {
        let j = p.deformation_gradient.determinant().max(Binary32::from_bits(MIN_J));
        self.add_viscous(self.elastic_stress(&p, j, self.pressure_at(j, n)), &p)
    }

    /// The step bound from elastic waves and from viscous diffusion.
    #[verifier::allow_in_spec]
    pub fn step_bound(
        &self,
        density: Binary32,
        hardening_scale: Binary32,
        cell_width: Binary32,
        material_cfl: Binary32,
        viscous_cfl: Binary32,
    ) -> Binary32
        returns
            viscous_bound(
                elastic_wave_dt(
                    self.lambda,
                    self.mu,
                    hardening_scale,
                    density,
                    Binary32::from_bits(MIN_J),
                    cell_width,
                    material_cfl,
                ),
                self.dynamic_viscosity.add(self.bulk_viscosity),
                density.max(Binary32::from_bits(MICRO)),
                cell_width,
                viscous_cfl,
            ),
    {
        viscous_bound(
            elastic_wave_dt(
                self.lambda,
                self.mu,
                hardening_scale,
                density,
                Binary32::from_bits(MIN_J),
                cell_width,
                material_cfl,
            ),
            self.dynamic_viscosity.add(self.bulk_viscosity),
            density.max(Binary32::from_bits(MICRO)),
            cell_width,
            viscous_cfl,
        )
    }
}

impl MaterialModel for GranularFluidMaterial {
    fn constitutive_model(&self) -> (r: ConstitutiveModel)
        ensures
            r == ConstitutiveModel::GranularFluid,
    {
        ConstitutiveModel::GranularFluid
    }

    fn stress_volume(&self, particle: &Particle) -> (r: Binary32)
        ensures
            r == particle.volume.max(Binary32::from_bits(MICRO)),
    {
        particle.volume.max(Binary32::from_bits(MICRO))
    }

    open spec fn initialised(&self, p: Particle) -> Particle {
        let j = p.deformation_gradient.determinant().max(Binary32::from_bits(MIN_J));
        let initial_volume = p.mass.div(self.rest_density.max(Binary32::from_bits(MICRO)));
        Particle {
            plastic_volume_ratio: Binary32::one(),
            hardening_scale: Binary32::one(),
            initial_volume,
            volume: initial_volume.mul(j),
            density: self.rest_density.div(j),
            ..p
        }
    }

    fn init_particle(&self, particle: &mut Particle) {
        let p = *particle;
        let j = p.deformation_gradient.determinant().max(Binary32::from_bits(MIN_J));
        let initial_volume = p.mass.div(self.rest_density.max(Binary32::from_bits(MICRO)));
        *particle =
        Particle {
            plastic_volume_ratio: Binary32::one(),
            hardening_scale: Binary32::one(),
            initial_volume,
            volume: initial_volume.mul(j),
            density: self.rest_density.div(j),
            ..p
        };
    }

    open spec fn transitioned(&self, p: Particle) -> Particle {
        self.initialised(p)
    }

    fn init_particle_from_transition(&self, particle: &mut Particle) {
        self.init_particle(particle)
    }

    fn owns_deformation_volume_state(&self) -> (r: bool)
        ensures
            r,
    {
        true
    }

    fn params(&self) -> (r: MaterialParams)
        ensures
            r == (MaterialParams {
                model: ConstitutiveModel::GranularFluid.discriminant(),
                mu: self.mu,
                lambda: self.lambda,
                rest_density: self.rest_density,
                eos_stiffness: self.eos_stiffness,
                eos_power: self.eos_power,
                hardening_exponent: self.hardening_exponent,
                compression_limit: self.compression_limit,
                stretch_limit: self.stretch_limit,
                volume_ratio_min: self.min_plastic_jacobian,
                volume_ratio_max: self.max_plastic_jacobian,
                pressure_floor: self.pressure_floor,
                dynamic_viscosity: self.dynamic_viscosity,
                bulk_viscosity: self.bulk_viscosity,
                owns_deformation_volume_state: 1,
                ..MaterialParams::zeroed()
            }),
    {
        MaterialParams {
            model: ConstitutiveModel::GranularFluid.discriminant(),
            mu: self.mu,
            lambda: self.lambda,
            rest_density: self.rest_density,
            eos_stiffness: self.eos_stiffness,
            eos_power: self.eos_power,
            hardening_exponent: self.hardening_exponent,
            compression_limit: self.compression_limit,
            stretch_limit: self.stretch_limit,
            volume_ratio_min: self.min_plastic_jacobian,
            volume_ratio_max: self.max_plastic_jacobian,
            pressure_floor: self.pressure_floor,
            dynamic_viscosity: self.dynamic_viscosity,
            bulk_viscosity: self.bulk_viscosity,
            owns_deformation_volume_state: 1,
            ..MaterialParams::zeroed()
        }
    }
}

impl<N: Numerics> Response<N> for GranularFluidMaterial {
    open spec fn steppable(&self) -> bool {
        self.has_limits()
    }

    fn kirchhoff_stress(&self, particle: &Particle, n: &N) -> (r: Mat2)
        ensures
            r == self.stress(*particle, n),
    {
        let j = particle.deformation_gradient.determinant().max(Binary32::from_bits(MIN_J));
        let powered = n.fast_pow(self.density_ratio(j), self.eos_power);
        let pressure = tait_pressure(self.eos_stiffness, powered, self.pressure_floor);
        self.add_viscous(self.elastic_stress(particle, j, pressure), particle)
    }

    fn timestep_bound(
        &self,
        density: Binary32,
        hardening_scale: Binary32,
        cell_width: Binary32,
        material_cfl: Binary32,
        viscous_cfl: Binary32,
        n: &N,
    ) -> (r: Binary32)
        ensures
            r == self.step_bound(density, hardening_scale, cell_width, material_cfl, viscous_cfl),
    {
        self.step_bound(density, hardening_scale, cell_width, material_cfl, viscous_cfl)
    }

    open spec fn updated(&self, p: Particle, dt: Binary32, n: &N) -> Particle {
        self.returned(
            p,
            n.advanced_of(
                p.deformation_gradient,
                p.velocity_gradient.scale(dt),
                p.volume,
                p.initial_volume,
            ),
            n,
        )
    }

    fn update_particle(&self, particle: &mut Particle, dt: Binary32, n: &N) {
        let p = *particle;
        let f = n.advanced(
            p.deformation_gradient,
            p.velocity_gradient.scale(dt),
            p.volume,
            p.initial_volume,
        );
        *particle = self.return_to_limits(p, f, n);
    }
}

impl GranularFluidMaterial {
    /// The limits are finite and not negative, the product of the singular values at their
    /// limit does not overflow, and the hardening exponent is finite.
    pub open spec fn has_finite_limits(&self) -> bool {
        &&& self.has_limits()
        &&& Binary32::zero().le(self.sigma_min())
        &&& self.sigma_max().mul(self.sigma_max()).is_finite()
        &&& self.min_plastic_jacobian.is_finite()
        &&& Binary32::zero().le(self.min_plastic_jacobian)
        &&& self.max_plastic_jacobian.is_finite()
        &&& self.hardening_exponent.is_finite()
    }
}

/// The exponential of a number is a number.
pub open spec fn exponentials_are_numbers<N: Numerics>(n: &N) -> bool {
    forall|x: Binary32| !x.is_nan() ==> !(#[trigger] n.unary_of(Unary::Exp, x)).is_nan()
}

/// What the clamp took off the volume is a number.
proof fn lemma_plastic_quotient_is_a_number(m: GranularFluidMaterial, jp: Binary32, sigma: Vec2)
    requires
        m.has_finite_limits(),
        m.is_plastic(),
        sigma.x.is_finite(),
        sigma.y.is_finite(),
        jp.is_finite(),
        !jp.eq(Binary32::zero()) || sigma.x.mul(sigma.y).is_finite(),
    ensures
        !jp.mul(sigma.x.mul(sigma.y)).div(
            m.clamped_sigma(sigma).x.mul(m.clamped_sigma(sigma).y).max(
                Binary32::from_bits(MIN_SIGMA_PRODUCT),
            ),
        ).is_nan(),
{
    lemma_single_constants();
    let zero = Binary32::zero();
    let least = Binary32::from_bits(MIN_SIGMA_PRODUCT);
    let lo = m.sigma_min();
    let hi = m.sigma_max();
    law_clamp_is_bounded(sigma.x, lo, hi);
    law_clamp_is_bounded(sigma.y, lo, hi);
    let x = m.clamped_sigma(sigma).x;
    let y = m.clamped_sigma(sigma).y;
    assert(hi.is_finite()) by {
        reveal(Binary32::spec_mul);
    }
    // the product of the clamped values does not exceed that of the limits
    law_finite_product_is_a_number(x, y);
    law_finite_product_is_a_number(hi, y);
    law_finite_product_is_a_number(hi, hi);
    law_multiplication_commutes(hi, y);
    if y.bits < 0x8000_0000 {
        law_multiplication_is_monotone(x, hi, y);
    } else {
        law_zero_absorbs(y, x);
        law_multiplication_commutes(x, y);
    }
    if hi.bits < 0x8000_0000 {
        law_multiplication_is_monotone(y, hi, hi);
    } else {
        law_zero_absorbs(y, x);
        law_multiplication_commutes(x, y);
    }
    let below = x.mul(y).max(least);
    assert(below.is_finite() && !below.eq(zero));
    law_finite_product_is_a_number(sigma.x, sigma.y);
    law_finite_product_is_a_number(jp, sigma.x.mul(sigma.y));
    law_finite_quotient_is_a_number(jp.mul(sigma.x.mul(sigma.y)), below);
}

/// The return keeps the singular values, the plastic volume ratio and the hardening
/// within their limits, for finite singular values and a finite history. A history of zero
/// is left out where the product of the singular values overflows: zero times infinity is
/// not a number.
pub proof fn law_return_respects_the_limits<N: Numerics>(
    m: GranularFluidMaterial,
    jp: Binary32,
    sigma: Vec2,
    n: &N,
)
    requires
        m.has_finite_limits(),
        m.is_plastic(),
        sigma.x.is_finite(),
        sigma.y.is_finite(),
        jp.is_finite(),
        !jp.eq(Binary32::zero()) || sigma.x.mul(sigma.y).is_finite(),
        exponentials_are_numbers(n),
    ensures
        m.sigma_min().le(m.clamped_sigma(sigma).x),
        m.clamped_sigma(sigma).x.le(m.sigma_max()),
        m.sigma_min().le(m.clamped_sigma(sigma).y),
        m.clamped_sigma(sigma).y.le(m.sigma_max()),
        m.min_plastic_jacobian.le(m.plastic_ratio(jp, sigma)),
        m.plastic_ratio(jp, sigma).le(m.max_plastic_jacobian),
        Binary32::one().le(m.hardening(m.plastic_ratio(jp, sigma), n)),
        m.hardening(m.plastic_ratio(jp, sigma), n).le(Binary32::from_bits(HARDENING_MAX)),
{
    lemma_single_constants();
    lemma_plastic_quotient_is_a_number(m, jp, sigma);
    let q = m.plastic_ratio(jp, sigma);
    law_positive_difference_is_finite(Binary32::one(), q);
    law_finite_product_is_a_number(m.hardening_exponent, Binary32::one().sub(q));
}

/// Where no singular value passes its limit, material without a plastic history
/// gets none.
pub proof fn law_elastic_states_gain_no_history(m: GranularFluidMaterial, sigma: Vec2)
    requires
        m.sigma_min().le(sigma.x) && sigma.x.le(m.sigma_max()),
        m.sigma_min().le(sigma.y) && sigma.y.le(m.sigma_max()),
        Binary32::from_bits(MIN_SIGMA_PRODUCT).le(sigma.x.mul(sigma.y)),
        sigma.x.mul(sigma.y).is_finite(),
        m.min_plastic_jacobian.le(Binary32::one()),
        Binary32::one().le(m.max_plastic_jacobian),
    ensures
        m.clamped_sigma(sigma) == sigma,
        m.plastic_ratio(Binary32::one(), sigma) == Binary32::one(),
{
    lemma_single_constants();
    let s = sigma.x.mul(sigma.y);
    law_multiplication_commutes(Binary32::one(), s);
    law_one_is_neutral(s);
    law_self_quotient_is_one(s);
}

/// The pressure never falls below its floor.
pub proof fn law_pressure_has_a_floor<N: Numerics>(
    m: GranularFluidMaterial,
    j: Binary32,
    n: &N,
)
    requires
        !m.pressure_floor.is_nan(),
    ensures
        m.pressure_floor.le(m.pressure_at(j, n)),
{
}

/// After a step every limit holds, where the decomposition of the trial state is finite and
/// exponentials are numbers: the deformation gradient is made of rotations and of
/// singular values within the limits, plastic volume ratio and hardening are within
/// theirs, the volume is positive, and the density is the mass over it.
pub proof fn law_step_respects_the_limits<N: Numerics>(
    m: GranularFluidMaterial,
    p: Particle,
    dt: Binary32,
    n: &N,
)
    requires
        m.has_finite_limits(),
        m.is_plastic(),
        p.plastic_volume_ratio.is_finite(),
        !p.plastic_volume_ratio.eq(Binary32::zero()),
        ({
            let f = n.advanced_of(
                p.deformation_gradient,
                p.velocity_gradient.scale(dt),
                p.volume,
                p.initial_volume,
            );
            let (u, sigma, vt) = n.svd_of(f);
            sigma.x.is_finite() && sigma.y.is_finite()
        }),
        exponentials_are_numbers(n),
    ensures
        ({
            let f = n.advanced_of(
                p.deformation_gradient,
                p.velocity_gradient.scale(dt),
                p.volume,
                p.initial_volume,
            );
            let (u, sigma, vt) = n.svd_of(f);
            let c = m.clamped_sigma(sigma);
            let q = <GranularFluidMaterial as Response<N>>::updated(&m, p, dt, n);
            &&& q.deformation_gradient == recompose(u, c, vt)
            &&& m.sigma_min().le(c.x) && c.x.le(m.sigma_max())
            &&& m.sigma_min().le(c.y) && c.y.le(m.sigma_max())
            &&& m.min_plastic_jacobian.le(q.plastic_volume_ratio)
            &&& q.plastic_volume_ratio.le(m.max_plastic_jacobian)
            &&& Binary32::one().le(q.hardening_scale)
            &&& q.hardening_scale.le(Binary32::from_bits(HARDENING_MAX))
            &&& q.volume == p.initial_volume.mul(
                q.deformation_gradient.determinant().max(Binary32::from_bits(MIN_J)),
            ).max(Binary32::from_bits(MICRO))
            &&& Binary32::from_bits(MICRO).le(q.volume)
            &&& q.density == p.mass.div(q.volume)
        }),
{
    lemma_single_constants();
    let f = n.advanced_of(
        p.deformation_gradient,
        p.velocity_gradient.scale(dt),
        p.volume,
        p.initial_volume,
    );
    law_return_respects_the_limits(m, p.plastic_volume_ratio, n.svd_of(f).1, n);
}

} // verus!
