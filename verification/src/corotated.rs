use vstd::prelude::*;

use crate::binary::laws::law_cancellation;
use crate::binary::laws::law_minus_one_negates;
use crate::binary::laws::law_one_is_neutral;
use crate::binary::laws::law_zero_absorbs;
use crate::binary::laws::law_zero_is_neutral;
use crate::binary::laws::law_zeros_add_up;
use crate::binary::laws::lemma_small_integers;
use crate::binary::laws::lemma_zero_arithmetic;
use crate::binary::single::Binary32;
use crate::binary::single::lemma_single_constants;
use crate::binary::single::two;
use crate::linalg::Mat2;
use crate::linalg::law_vanishing_product;
use crate::linalg::law_vanishing_scaled;
use crate::linalg::law_vanishing_sum;
use crate::linalg::lemma_identity_has_unit_volume;
use crate::mechanics::Elastic;
use crate::mechanics::MICRO;
use crate::mechanics::MIN_J;
use crate::mechanics::dashpot_stress;
use crate::mechanics::diffusion_dt;
use crate::mechanics::elastic_wave_dt;
use crate::mechanics::lame_from_young;
use crate::mechanics::law_symmetric_deformation_has_no_rotation;
use crate::mechanics::polar_decomposition_2d;
use crate::mechanics::polar_rotation;
use crate::mechanics::with_deformation;
use crate::model::ConstitutiveModel;
use crate::model::MaterialModel;
use crate::model::Response;
use crate::numerics::Numerics;
use crate::params::MaterialParams;
use crate::particle::Particle;
use crate::particle::SimConfig;

verus! {

/// Lower bound of the volume ratio in the volumetric term, 0.01.
pub const COROTATED_J_MIN: u32 = 0x3c23_d70a;

/// Corotated linear elasticity: `2 mu (F - R) F^T + lambda (J - 1) J I`, with the
/// moduli scaled by hardening and temperature, and an optional dashpot.
#[derive(Clone, Copy, Debug, PartialEq, Eq, Structural)]
pub struct CorotatedMaterial {
    pub lambda: Binary32,
    pub mu: Binary32,
    pub thermal_expansion: Binary32,
    pub active_stress_coeff: Binary32,
    pub j_min: Binary32,
    pub elastic_viscosity: Binary32,
}

/// `2 mu (F - R) F^T + lambda (J - 1) J I`.
#[verifier::allow_in_spec]
pub fn corotated_stress(mu: Binary32, lambda: Binary32, f: Mat2, rotation: Mat2, j: Binary32) -> Mat2
    returns
        f.sub(rotation).scale(two().mul(mu)).mul(f.transpose()).add(
            Mat2::identity().scale(lambda.mul(j.sub(Binary32::one())).mul(j)),
        ),
{
    f.sub(rotation).scale(two().mul(mu)).mul(f.transpose()).add(
        Mat2::identity().scale(lambda.mul(j.sub(Binary32::one())).mul(j)),
    )
}

impl CorotatedMaterial {
    /// A solid from Lame parameters in grid units.
    #[verifier::allow_in_spec]
    pub fn new(lambda: Binary32, mu: Binary32) -> CorotatedMaterial
        returns
            (CorotatedMaterial {
                lambda,
                mu,
                thermal_expansion: Binary32::zero(),
                active_stress_coeff: Binary32::zero(),
                j_min: Binary32::from_bits(COROTATED_J_MIN),
                elastic_viscosity: Binary32::zero(),
            }),
    {
        CorotatedMaterial {
            lambda,
            mu,
            thermal_expansion: Binary32::zero(),
            active_stress_coeff: Binary32::zero(),
            j_min: Binary32::from_bits(COROTATED_J_MIN),
            elastic_viscosity: Binary32::zero(),
        }
    }

    /// A solid from Young's modulus, in grid units, and Poisson's ratio.
    #[verifier::allow_in_spec]
    pub fn from_young_modulus(
        young_modulus: Binary32,
        poisson_ratio: Binary32,
    ) -> CorotatedMaterial
        returns
            Self::new(
                lame_from_young(young_modulus, poisson_ratio).0,
                lame_from_young(young_modulus, poisson_ratio).1,
            ),
    {
        let (lambda, mu) = lame_from_young(young_modulus, poisson_ratio);
        Self::new(lambda, mu)
    }

    /// A solid from SI constants.
    pub fn from_physical<N: Numerics>(props: &Elastic, config: &SimConfig, n: &N) -> (r:
        CorotatedMaterial)
        ensures
            r == Self::new(props.lame_grid(*config, n).0, props.lame_grid(*config, n).1),
    {
        let (lambda, mu) = props.scale_lame(config, n);
        Self::new(lambda, mu)
    }

    /// The factor of the moduli at a particle.
    #[verifier::allow_in_spec]
    pub fn thermal_scale(&self, p: &Particle) -> Binary32
        returns
            Binary32::one().add(self.thermal_expansion.mul(p.temperature)),
    {
        Binary32::one().add(self.thermal_expansion.mul(p.temperature))
    }

    /// The elastic part of the stress.
    #[verifier::allow_in_spec]
    pub fn elastic_stress(&self, p: &Particle) -> Mat2
        returns
            corotated_stress(
                self.mu.mul(p.hardening_scale).mul(self.thermal_scale(p)),
                self.lambda.mul(p.hardening_scale).mul(self.thermal_scale(p)),
                p.deformation_gradient,
                polar_decomposition_2d(p.deformation_gradient),
                p.deformation_gradient.determinant().max(self.j_min),
            ),
    {
        corotated_stress(
            self.mu.mul(p.hardening_scale).mul(self.thermal_scale(p)),
            self.lambda.mul(p.hardening_scale).mul(self.thermal_scale(p)),
            p.deformation_gradient,
            polar_decomposition_2d(p.deformation_gradient),
            p.deformation_gradient.determinant().max(self.j_min),
        )
    }

    /// The Kirchhoff stress of a particle.
    pub open spec fn stress(&self, p: Particle) -> Mat2 {
        if self.elastic_viscosity.eq(Binary32::zero()) {
            self.elastic_stress(&p)
        } else {
            self.elastic_stress(&p).add(
                dashpot_stress(self.elastic_viscosity, p.velocity_gradient),
            )
        }
    }

    /// The step bound from elastic waves and from the dashpot.
    #[verifier::allow_in_spec]
    pub fn step_bound(
        &self,
        density: Binary32,
        hardening_scale: Binary32,
        cell_width: Binary32,
        material_cfl: Binary32,
        viscous_cfl: Binary32,
    ) -> Binary32
        returns
            elastic_wave_dt(
                self.lambda,
                self.mu,
                hardening_scale,
                density,
                Binary32::from_bits(MIN_J),
                cell_width,
                material_cfl,
            ).min(
                diffusion_dt(
                    self.elastic_viscosity,
                    density.max(Binary32::from_bits(MICRO)),
                    cell_width,
                    viscous_cfl,
                ),
            ),
    {
        elastic_wave_dt(
            self.lambda,
            self.mu,
            hardening_scale,
            density,
            Binary32::from_bits(MIN_J),
            cell_width,
            material_cfl,
        ).min(
            diffusion_dt(
                self.elastic_viscosity,
                density.max(Binary32::from_bits(MICRO)),
                cell_width,
                viscous_cfl,
            ),
        )
    }
}

impl MaterialModel for CorotatedMaterial {
    fn constitutive_model(&self) -> (r: ConstitutiveModel)
        ensures
            r == ConstitutiveModel::Corotated,
    {
        ConstitutiveModel::Corotated
    }

    open spec fn initialised(&self, p: Particle) -> Particle {
        Particle {
            hardening_scale: Binary32::one(),
            plastic_volume_ratio: Binary32::one(),
            ..p
        }
    }

    fn init_particle(&self, particle: &mut Particle) {
        particle.hardening_scale = Binary32::one();
        particle.plastic_volume_ratio = Binary32::one();
    }

    open spec fn transitioned(&self, p: Particle) -> Particle {
        self.initialised(p)
    }

    fn init_particle_from_transition(&self, particle: &mut Particle) {
        self.init_particle(particle)
    }

    /// Only where neither viscosity, temperature nor activation changes the stress.
    fn corotated_lame_params(&self) -> (r: Option<(Binary32, Binary32)>)
        ensures
            r == if self.elastic_viscosity.eq(Binary32::zero()) && self.thermal_expansion.eq(
                Binary32::zero(),
            ) && self.active_stress_coeff.eq(Binary32::zero()) {
                Some((self.lambda, self.mu))
            } else {
                None
            },
    {
        if self.elastic_viscosity.eq(Binary32::zero()) && self.thermal_expansion.eq(
            Binary32::zero(),
        ) && self.active_stress_coeff.eq(Binary32::zero()) {
            Some((self.lambda, self.mu))
        } else {
            None
        }
    }

    fn activation_scale(&self) -> (r: Binary32)
        ensures
            r == self.active_stress_coeff,
    {
        self.active_stress_coeff
    }

    fn pressure_scale(&self) -> (r: Binary32)
        ensures
            r == Binary32::one(),
    {
        Binary32::one()
    }

    fn params(&self) -> (r: MaterialParams)
        ensures
            r == (MaterialParams {
                model: ConstitutiveModel::Corotated.discriminant(),
                lambda: self.lambda,
                mu: self.mu,
                thermal_expansion: self.thermal_expansion,
                active_stress_coeff: self.active_stress_coeff,
                volume_ratio_min: self.j_min,
                ..MaterialParams::zeroed()
            }),
    {
        MaterialParams {
            model: ConstitutiveModel::Corotated.discriminant(),
            lambda: self.lambda,
            mu: self.mu,
            thermal_expansion: self.thermal_expansion,
            active_stress_coeff: self.active_stress_coeff,
            volume_ratio_min: self.j_min,
            ..MaterialParams::zeroed()
        }
    }
}

impl<N: Numerics> Response<N> for CorotatedMaterial {
    fn kirchhoff_stress(&self, particle: &Particle, n: &N) -> (r: Mat2)
        ensures
            r == self.stress(*particle),
    {
        let elastic = self.elastic_stress(particle);
        if self.elastic_viscosity.eq(Binary32::zero()) {
            return elastic;
        }
        elastic.add(dashpot_stress(self.elastic_viscosity, particle.velocity_gradient))
    }

    fn timestep_bound(
        &self,
        density: Binary32,
        hardening_scale: Binary32,
        cell_width: Binary32,
        material_cfl: Binary32,
        viscous_cfl: Binary32,
        n: &N,
    ) -> (r: Binary32)
        ensures
            r == self.step_bound(density, hardening_scale, cell_width, material_cfl, viscous_cfl),
    {
        self.step_bound(density, hardening_scale, cell_width, material_cfl, viscous_cfl)
    }

    open spec fn updated(&self, p: Particle, dt: Binary32, n: &N) -> Particle {
        with_deformation(
            p,
            n.increment_exp_of(p.velocity_gradient.scale(dt)).mul(p.deformation_gradient),
        )
    }

    fn update_particle(&self, particle: &mut Particle, dt: Binary32, n: &N) {
        let p = *particle;
        let f = n.increment_exp(p.velocity_gradient.scale(dt)).mul(p.deformation_gradient);
        *particle = with_deformation(p, f);
    }
}

/// An undeformed solid carries no elastic stress.
pub proof fn law_no_stress_at_rest(m: CorotatedMaterial, p: Particle)
    requires
        p.deformation_gradient == Mat2::identity(),
        m.j_min.le(Binary32::one()),
        two().mul(m.mu.mul(p.hardening_scale).mul(m.thermal_scale(&p))).is_finite(),
        m.lambda.mul(p.hardening_scale).mul(m.thermal_scale(&p)).is_finite(),
    ensures
        m.elastic_stress(&p).vanishes(),
{
    lemma_single_constants();
    let one = Binary32::one();
    let zero = Binary32::zero();
    let f = Mat2::identity();
    lemma_small_integers();
    law_symmetric_deformation_has_no_rotation(f);
    lemma_identity_has_unit_volume();
    law_cancellation(one);
    lemma_zero_arithmetic();
    law_zeros_add_up(zero, zero.neg());
    let r = f.sub(polar_rotation(f));
    assert(r.vanishes());
    let s = two().mul(m.mu.mul(p.hardening_scale).mul(m.thermal_scale(&p)));
    law_vanishing_scaled(r, s);
    law_vanishing_product(r.scale(s), f.transpose());
    let l = m.lambda.mul(p.hardening_scale).mul(m.thermal_scale(&p));
    law_zero_absorbs(one.sub(one), l);
    law_zero_absorbs(l.mul(one.sub(one)), one);
    let v = l.mul(one.sub(one)).mul(one);
    law_zero_absorbs(v, one);
    law_zero_absorbs(v, zero);
    law_vanishing_sum(r.scale(s).mul(f.transpose()), f.scale(v));
}

/// Without a dashpot the stress does not depend on the rate of deformation.
pub proof fn law_no_dashpot_no_rate_dependence(m: CorotatedMaterial, p: Particle, c: Mat2)
    requires
        m.elastic_viscosity.eq(Binary32::zero()),
    ensures
        m.stress(p) == m.stress(Particle { velocity_gradient: c, ..p }),
{
}

/// Where the material answers with its Lame parameters, the stress of a particle that
/// never hardened is the corotated one with just these.
pub proof fn law_lame_params_give_the_stress(m: CorotatedMaterial, p: Particle)
    requires
        m.elastic_viscosity.eq(Binary32::zero()),
        m.thermal_expansion.eq(Binary32::zero()),
        p.hardening_scale == Binary32::one(),
        p.temperature.is_finite(),
        !m.lambda.is_nan(),
        !m.mu.is_nan(),
    ensures
        m.stress(p) == corotated_stress(
            m.mu,
            m.lambda,
            p.deformation_gradient,
            polar_rotation(p.deformation_gradient),
            p.deformation_gradient.determinant().max(m.j_min),
        ),
{
    lemma_single_constants();
    let one = Binary32::one();
    let zero = Binary32::zero();
    let change = m.thermal_expansion.mul(p.temperature);
    law_zero_absorbs(m.thermal_expansion, p.temperature);
    law_zero_is_neutral(one);
    law_minus_one_negates(one, zero);
    assert(change == zero || change == zero.neg());
    assert(m.thermal_scale(&p) == one);
    law_one_is_neutral(m.mu);
    law_one_is_neutral(m.lambda);
}

/// A particle of this material never hardens: it starts without, and no step changes
/// that.
pub proof fn law_no_hardening<N: Numerics>(
    m: CorotatedMaterial,
    p: Particle,
    dt: Binary32,
    n: &N,
)
    ensures
        m.initialised(p).hardening_scale == Binary32::one(),
        <CorotatedMaterial as Response<N>>::updated(&m, p, dt, n).hardening_scale
            == p.hardening_scale,
{
}

} // verus!
