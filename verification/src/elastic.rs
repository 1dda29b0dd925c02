use vstd::prelude::*;

use crate::binary::laws::law_cancellation;
use crate::binary::laws::law_half_of_double;
use crate::binary::laws::law_one_is_neutral;
use crate::binary::laws::law_zero_absorbs;
use crate::binary::laws::lemma_small_integers;
use crate::binary::laws::lemma_zero_arithmetic;
use crate::binary::single::Binary32;
use crate::binary::single::lemma_single_constants;
use crate::linalg::Mat2;
use crate::linalg::law_vanishing_scaled;
use crate::linalg::law_vanishing_sum;
use crate::linalg::lemma_identity_has_unit_volume;
use crate::mechanics::Elastic;
use crate::mechanics::MICRO;
use crate::mechanics::MIN_J;
use crate::mechanics::dashpot_stress;
use crate::mechanics::diffusion_dt;
use crate::mechanics::elastic_wave_dt;
use crate::mechanics::explicit_trial;
use crate::mechanics::lame_from_young;
use crate::mechanics::with_deformation;
use crate::model::ConstitutiveModel;
use crate::model::MaterialModel;
use crate::model::Response;
use crate::numerics::Numerics;
use crate::numerics::Unary;
use crate::params::MaterialParams;
use crate::particle::Particle;
use crate::particle::SimConfig;

verus! {

/// Compressible Neo-Hookean solid: `(mu / J) dev(F F^T) + k ln(J) I` with the plane
/// strain bulk modulus `k = lambda + mu`. The logarithm is a barrier against total
/// compression.
#[derive(Clone, Copy, Debug, PartialEq, Eq, Structural)]
pub struct NeoHookeanMaterial {
    pub lambda: Binary32,
    pub mu: Binary32,
    pub min_density: Binary32,
    /// Relative change of the moduli per kelvin.
    pub thermal_expansion: Binary32,
    pub active_stress_coeff: Binary32,
    /// Rate of the exponential loss of stiffness with damage.
    pub damage_softening_rate: Binary32,
    pub viscosity: Binary32,
}

/// `(mu / J) dev(B) + k ln(J) I` with `B = F F^T`.
#[verifier::allow_in_spec]
pub fn neo_hookean_stress(
    mu: Binary32,
    lambda: Binary32,
    f: Mat2,
    j: Binary32,
    ln_j: Binary32,
) -> Mat2
    returns
        f.mul(f.transpose()).deviator().scale(mu.div(j)).add(
            Mat2::identity().scale(lambda.add(mu).mul(ln_j)),
        ),
{
    f.mul(f.transpose()).deviator().scale(mu.div(j)).add(
        Mat2::identity().scale(lambda.add(mu).mul(ln_j)),
    )
}

/// The sum of the products of the entries.
#[verifier::allow_in_spec]
pub fn frobenius(a: Mat2, b: Mat2) -> Binary32
    returns
        a.x_axis.x.mul(b.x_axis.x).add(a.x_axis.y.mul(b.x_axis.y)).add(
            a.y_axis.x.mul(b.y_axis.x),
        ).add(a.y_axis.y.mul(b.y_axis.y)),
{
    a.x_axis.x.mul(b.x_axis.x).add(a.x_axis.y.mul(b.x_axis.y)).add(a.y_axis.x.mul(b.y_axis.x)).add(
        a.y_axis.y.mul(b.y_axis.y),
    )
}

/// The adjoint of [`neo_hookean_stress`] with respect to `f`, applied to `g`:
/// `(B' + B'^T) F + (k tr(g) - (mu / J) g : dev(B)) F^-T` with
/// `B' = (mu / J) dev(g)`.
#[verifier::allow_in_spec]
pub fn neo_hookean_adjoint(mu: Binary32, lambda: Binary32, f: Mat2, j: Binary32, g: Mat2) -> Mat2
    returns
        g.deviator().scale(mu.div(j)).symmetrised().mul(f).add(
            f.inverse().transpose().scale(
                lambda.add(mu).mul(g.trace()).sub(
                    mu.div(j).mul(frobenius(g, f.mul(f.transpose()).deviator())),
                ),
            ),
        ),
{
    let dev_b = f.mul(f.transpose()).deviator();
    let b_bar = g.deviator().scale(mu.div(j));
    let term1 = b_bar.symmetrised().mul(f);
    let scalar2 = lambda.add(mu).mul(g.trace()).sub(mu.div(j).mul(frobenius(g, dev_b)));
    term1.add(f.inverse().transpose().scale(scalar2))
}

impl NeoHookeanMaterial {
    /// A solid from Lame parameters in grid units.
    #[verifier::allow_in_spec]
    pub fn new(lambda: Binary32, mu: Binary32) -> NeoHookeanMaterial
        returns
            (NeoHookeanMaterial {
                lambda,
                mu,
                min_density: Binary32::from_bits(MICRO),
                thermal_expansion: Binary32::zero(),
                active_stress_coeff: Binary32::zero(),
                damage_softening_rate: Binary32::zero(),
                viscosity: Binary32::zero(),
            }),
    {
        NeoHookeanMaterial {
            lambda,
            mu,
            min_density: Binary32::from_bits(MICRO),
            thermal_expansion: Binary32::zero(),
            active_stress_coeff: Binary32::zero(),
            damage_softening_rate: Binary32::zero(),
            viscosity: Binary32::zero(),
        }
    }

    /// A solid from Young's modulus, in grid units, and Poisson's ratio.
    #[verifier::allow_in_spec]
    pub fn from_young_modulus(
        young_modulus: Binary32,
        poisson_ratio: Binary32,
    ) -> NeoHookeanMaterial
        returns
            Self::new(
                lame_from_young(young_modulus, poisson_ratio).0,
                lame_from_young(young_modulus, poisson_ratio).1,
            ),
    {
        let (lambda, mu) = lame_from_young(young_modulus, poisson_ratio);
        Self::new(lambda, mu)
    }

    /// A solid from SI constants.
    pub fn from_physical<N: Numerics>(props: &Elastic, config: &SimConfig, n: &N) -> (r:
        NeoHookeanMaterial)
        ensures
            r == Self::new(props.lame_grid(*config, n).0, props.lame_grid(*config, n).1),
    {
        let (lambda, mu) = props.scale_lame(config, n);
        Self::new(lambda, mu)
    }

    /// `modulus` at the temperature and the damage of a particle.
    pub open spec fn effective<N: Numerics>(
        &self,
        modulus: Binary32,
        p: Particle,
        n: &N,
    ) -> Binary32 {
        modulus.mul(Binary32::one().add(self.thermal_expansion.mul(p.temperature))).mul(
            n.unary_of(Unary::Exp, self.damage_softening_rate.neg().mul(p.friction_hardening)),
        )
    }

    /// The moduli at the temperature and the damage of a particle.
    pub fn effective_moduli<N: Numerics>(&self, p: &Particle, n: &N) -> (r: (Binary32, Binary32))
        ensures
            r.0 == self.effective(self.mu, *p, n),
            r.1 == self.effective(self.lambda, *p, n),
    {
        let t_scale = Binary32::one().add(self.thermal_expansion.mul(p.temperature));
        let damage_scale = n.unary(
            Unary::Exp,
            self.damage_softening_rate.neg().mul(p.friction_hardening),
        );
        (self.mu.mul(t_scale).mul(damage_scale), self.lambda.mul(t_scale).mul(damage_scale))
    }

    /// The dashpot of a particle.
    #[verifier::allow_in_spec]
    pub fn viscous_stress(&self, p: &Particle) -> Mat2
        returns
            if self.viscosity.gt(Binary32::zero()) {
                dashpot_stress(self.viscosity, p.velocity_gradient)
            } else {
                Mat2::zero()
            },
    {
        if self.viscosity.gt(Binary32::zero()) {
            dashpot_stress(self.viscosity, p.velocity_gradient)
        } else {
            Mat2::zero()
        }
    }

    /// The Kirchhoff stress of a particle: none once it is crushed.
    pub open spec fn stress<N: Numerics>(&self, p: Particle, n: &N) -> Mat2 {
        let j = p.deformation_gradient.determinant();
        if j.le(Binary32::from_bits(MIN_J)) {
            Mat2::zero()
        } else {
            neo_hookean_stress(
                self.effective(self.mu, p, n),
                self.effective(self.lambda, p, n),
                p.deformation_gradient,
                j,
                n.unary_of(Unary::Ln, j),
            ).add(self.viscous_stress(&p))
        }
    }

    /// The adjoint of the elastic stress at a particle, applied to the gradient of a
    /// loss with respect to the stress. The viscous term has no part in it.
    pub open spec fn stress_adjoint<N: Numerics>(&self, p: Particle, g: Mat2, n: &N) -> Mat2 {
        let j = p.deformation_gradient.determinant();
        if j.le(Binary32::from_bits(MIN_J)) {
            Mat2::zero()
        } else {
            neo_hookean_adjoint(
                self.effective(self.mu, p, n),
                self.effective(self.lambda, p, n),
                p.deformation_gradient,
                j,
                g,
            )
        }
    }

    /// The gradient of a loss with respect to the deformation gradient, from its
    /// gradient with respect to the stress.
    pub fn kirchhoff_stress_vjp<N: Numerics>(
        &self,
        particle: &Particle,
        d_loss_d_tau: Mat2,
        n: &N,
    ) -> (r: Mat2)
        requires
            self.viscosity.eq(Binary32::zero()),
        ensures
            r == self.stress_adjoint(*particle, d_loss_d_tau, n),
    {
        let f = particle.deformation_gradient;
        let j = f.determinant();
        if j.le(Binary32::from_bits(MIN_J)) {
            return Mat2::zero();
        }
        let (mu, lambda) = self.effective_moduli(particle, n);
        neo_hookean_adjoint(mu, lambda, f, j, d_loss_d_tau)
    }

    /// The step bound from elastic waves and from the dashpot.
    #[verifier::allow_in_spec]
    pub fn step_bound(
        &self,
        density: Binary32,
        cell_width: Binary32,
        material_cfl: Binary32,
        viscous_cfl: Binary32,
    ) -> Binary32
        returns
            elastic_wave_dt(
                self.lambda,
                self.mu,
                Binary32::one(),
                density,
                self.min_density,
                cell_width,
                material_cfl,
            ).min(
                diffusion_dt(
                    self.viscosity,
                    density.max(Binary32::from_bits(MICRO)),
                    cell_width,
                    viscous_cfl,
                ),
            ),
    {
        elastic_wave_dt(
            self.lambda,
            self.mu,
            Binary32::one(),
            density,
            self.min_density,
            cell_width,
            material_cfl,
        ).min(
            diffusion_dt(
                self.viscosity,
                density.max(Binary32::from_bits(MICRO)),
                cell_width,
                viscous_cfl,
            ),
        )
    }
}

impl MaterialModel for NeoHookeanMaterial {
    fn constitutive_model(&self) -> (r: ConstitutiveModel)
        ensures
            r == ConstitutiveModel::NeoHookean,
    {
        ConstitutiveModel::NeoHookean
    }

    open spec fn initialised(&self, p: Particle) -> Particle {
        p
    }

    fn init_particle(&self, particle: &mut Particle) {
    }

    open spec fn transitioned(&self, p: Particle) -> Particle {
        p
    }

    fn init_particle_from_transition(&self, particle: &mut Particle) {
    }

    fn activation_scale(&self) -> (r: Binary32)
        ensures
            r == self.active_stress_coeff,
    {
        self.active_stress_coeff
    }

    fn params(&self) -> (r: MaterialParams)
        ensures
            r == (MaterialParams {
                model: ConstitutiveModel::NeoHookean.discriminant(),
                lambda: self.lambda,
                mu: self.mu,
                thermal_expansion: self.thermal_expansion,
                active_stress_coeff: self.active_stress_coeff,
                cohesion_coeff: self.damage_softening_rate,
                dynamic_viscosity: self.viscosity,
                ..MaterialParams::zeroed()
            }),
    {
        MaterialParams {
            model: ConstitutiveModel::NeoHookean.discriminant(),
            lambda: self.lambda,
            mu: self.mu,
            thermal_expansion: self.thermal_expansion,
            active_stress_coeff: self.active_stress_coeff,
            cohesion_coeff: self.damage_softening_rate,
            dynamic_viscosity: self.viscosity,
            ..MaterialParams::zeroed()
        }
    }
}

impl<N: Numerics> Response<N> for NeoHookeanMaterial {
    fn kirchhoff_stress(&self, particle: &Particle, n: &N) -> (r: Mat2)
        ensures
            r == self.stress(*particle, n),
    {
        let f = particle.deformation_gradient;
        let j = f.determinant();
        if j.le(Binary32::from_bits(MIN_J)) {
            return Mat2::zero();
        }
        let (mu, lambda) = self.effective_moduli(particle, n);
        let ln_j = n.unary(Unary::Ln, j);
        neo_hookean_stress(mu, lambda, f, j, ln_j).add(self.viscous_stress(particle))
    }

    fn timestep_bound(
        &self,
        density: Binary32,
        hardening_scale: Binary32,
        cell_width: Binary32,
        material_cfl: Binary32,
        viscous_cfl: Binary32,
        n: &N,
    ) -> (r: Binary32)
        ensures
            r == self.step_bound(density, cell_width, material_cfl, viscous_cfl),
    {
        self.step_bound(density, cell_width, material_cfl, viscous_cfl)
    }

    open spec fn updated(&self, p: Particle, dt: Binary32, n: &N) -> Particle {
        with_deformation(p, explicit_trial(p, dt))
    }

    fn update_particle(&self, particle: &mut Particle, dt: Binary32, n: &N) {
        let p = *particle;
        *particle = with_deformation(p, explicit_trial(p, dt));
    }
}

/// An undeformed solid carries no elastic stress, where the logarithm of one is zero.
pub proof fn law_no_stress_at_rest<N: Numerics>(m: NeoHookeanMaterial, p: Particle, n: &N)
    requires
        p.deformation_gradient == Mat2::identity(),
        n.unary_of(Unary::Ln, Binary32::one()).eq(Binary32::zero()),
        m.effective(m.mu, p, n).is_finite(),
        m.effective(m.lambda, p, n).add(m.effective(m.mu, p, n)).is_finite(),
        !m.viscosity.gt(Binary32::zero()),
    ensures
        m.stress(p, n).vanishes(),
{
    lemma_single_constants();
    let one = Binary32::one();
    let zero = Binary32::zero();
    let mu = m.effective(m.mu, p, n);
    let k = m.effective(m.lambda, p, n).add(mu);
    lemma_small_integers();
    lemma_identity_has_unit_volume();
    law_half_of_double(one);
    law_cancellation(one);
    lemma_zero_arithmetic();
    law_one_is_neutral(mu);
    let d = Mat2::identity().deviator();
    assert(d.vanishes());
    law_vanishing_scaled(d, mu);
    let v = k.mul(n.unary_of(Unary::Ln, one));
    law_zero_absorbs(n.unary_of(Unary::Ln, one), k);
    law_zero_absorbs(v, one);
    law_zero_absorbs(v, zero);
    law_vanishing_sum(d.scale(mu), Mat2::identity().scale(v));
    law_vanishing_sum(d.scale(mu).add(Mat2::identity().scale(v)), Mat2::zero());
}

/// Without viscosity the stress does not depend on the rate of deformation.
pub proof fn law_no_viscosity_no_rate_dependence<N: Numerics>(
    m: NeoHookeanMaterial,
    p: Particle,
    c: Mat2,
    n: &N,
)
    requires
        !m.viscosity.gt(Binary32::zero()),
    ensures
        m.stress(p, n) == m.stress(Particle { velocity_gradient: c, ..p }, n),
{
}

/// Without softening the moduli do not depend on the damage, where the exponential
/// of zero is one.
pub proof fn law_no_softening_no_damage<N: Numerics>(
    m: NeoHookeanMaterial,
    modulus: Binary32,
    p: Particle,
    n: &N,
)
    requires
        m.damage_softening_rate.eq(Binary32::zero()),
        p.friction_hardening.is_finite(),
        forall|x: Binary32|
            x.eq(Binary32::zero()) ==> #[trigger] n.unary_of(Unary::Exp, x) == Binary32::one(),
        !modulus.mul(Binary32::one().add(m.thermal_expansion.mul(p.temperature))).is_nan(),
    ensures
        m.effective(modulus, p, n) == modulus.mul(
            Binary32::one().add(m.thermal_expansion.mul(p.temperature)),
        ),
{
    lemma_single_constants();
    law_zero_absorbs(m.damage_softening_rate.neg(), p.friction_hardening);
    law_one_is_neutral(modulus.mul(Binary32::one().add(m.thermal_expansion.mul(p.temperature))));
}

/// A crushed particle carries no stress.
pub proof fn law_crushed_carries_nothing<N: Numerics>(m: NeoHookeanMaterial, p: Particle, n: &N)
    requires
        p.deformation_gradient.determinant().le(Binary32::from_bits(MIN_J)),
    ensures
        m.stress(p, n) == Mat2::zero(),
{
}

} // verus!
