use vstd::prelude::*;

use crate::binary::single::Binary32;
use crate::binary::single::two;
use crate::linalg::Mat2;
use crate::linalg::Vec2;
use crate::mechanics::Elastic;
use crate::mechanics::MIN_J;
use crate::mechanics::elastic_wave_dt;
use crate::mechanics::recompose;
use crate::mechanics::with_deformation;
use crate::model::ConstitutiveModel;
use crate::model::MaterialModel;
use crate::model::Response;
use crate::numerics::Numerics;
use crate::numerics::Unary;
use crate::params::MaterialParams;
use crate::particle::Particle;
use crate::particle::SimConfig;

verus! {

/// Tension-only elastic solid: the relaxed Hencky energy of tension field theory.
///
/// A taut region follows the Hencky law in both principal directions, a wrinkled
/// one carries tension along the larger strain only, a slack one carries nothing.
/// There is no history: the stress is a function of the deformation gradient.
#[derive(Clone, Copy, Debug, PartialEq, Eq, Structural)]
pub struct NoCompressionMaterial {
    pub lambda: Binary32,
    pub mu: Binary32,
}

/// What a region does at given principal strains.
#[derive(Clone, Copy, Debug, PartialEq, Eq, Structural)]
pub enum Tension {
    Slack,
    Wrinkled,
    Taut,
}

impl NoCompressionMaterial {
    /// A solid from Lame parameters in grid units.
    #[verifier::allow_in_spec]
    pub fn new(lambda: Binary32, mu: Binary32) -> NoCompressionMaterial
        returns
            (NoCompressionMaterial { lambda, mu }),
    {
        NoCompressionMaterial { lambda, mu }
    }

    /// A solid from SI constants.
    pub fn from_physical<N: Numerics>(props: &Elastic, config: &SimConfig, n: &N) -> (r:
        NoCompressionMaterial)
        ensures
            r == Self::new(props.lame_grid(*config, n).0, props.lame_grid(*config, n).1),
    {
        let (lambda, mu) = props.scale_lame(config, n);
        Self::new(lambda, mu)
    }

    /// `2 mu + lambda`.
    #[verifier::allow_in_spec]
    pub fn axial_modulus(&self) -> Binary32
        returns
            two().mul(self.mu).add(self.lambda),
    {
        two().mul(self.mu).add(self.lambda)
    }

    /// The transverse strain at which the transverse stress vanishes.
    #[verifier::allow_in_spec]
    pub fn free_transverse_strain(&self, axial: Binary32) -> Binary32
        returns
            self.lambda.neg().mul(axial).div(self.axial_modulus()),
    {
        self.lambda.neg().mul(axial).div(self.axial_modulus())
    }

    /// The state of a region with principal strains `eps.x >= eps.y`.
    #[verifier::allow_in_spec]
    pub fn tension(&self, eps: Vec2) -> Tension
        returns
            if eps.x.le(Binary32::zero()) {
                Tension::Slack
            } else if eps.y.le(self.free_transverse_strain(eps.x)) {
                Tension::Wrinkled
            } else {
                Tension::Taut
            },
    {
        if eps.x.le(Binary32::zero()) {
            Tension::Slack
        } else if eps.y.le(self.free_transverse_strain(eps.x)) {
            Tension::Wrinkled
        } else {
            Tension::Taut
        }
    }

    /// The uniaxial tangent `4 mu (mu + lambda) / (2 mu + lambda)`.
    #[verifier::allow_in_spec]
    pub fn uniaxial_tangent(&self) -> Binary32
        returns
            Binary32::from_bits(0x4080_0000).mul(self.mu).mul(self.mu.add(self.lambda)).div(
                self.axial_modulus(),
            ),
    {
        Binary32::from_bits(0x4080_0000).mul(self.mu).mul(self.mu.add(self.lambda)).div(
            self.axial_modulus(),
        )
    }

    /// The principal Kirchhoff stresses at principal strains `eps.x >= eps.y`.
    #[verifier::allow_in_spec]
    pub fn relaxed_principal_stress(&self, eps: Vec2) -> Vec2
        returns
            match self.tension(eps) {
                Tension::Slack => Vec2::splat(Binary32::zero()),
                Tension::Wrinkled => Vec2 {
                    x: self.uniaxial_tangent().mul(eps.x),
                    y: Binary32::zero(),
                },
                Tension::Taut => Vec2 {
                    x: self.axial_modulus().mul(eps.x).add(self.lambda.mul(eps.y)),
                    y: self.lambda.mul(eps.x).add(self.axial_modulus().mul(eps.y)),
                },
            },
    {
        match self.tension(eps) {
            Tension::Slack => Vec2::splat(Binary32::zero()),
            Tension::Wrinkled => Vec2::new(self.uniaxial_tangent().mul(eps.x), Binary32::zero()),
            Tension::Taut => {
                let a = self.axial_modulus();
                Vec2::new(
                    a.mul(eps.x).add(self.lambda.mul(eps.y)),
                    self.lambda.mul(eps.x).add(a.mul(eps.y)),
                )
            },
        }
    }

    /// The Kirchhoff stress of a particle: none once it is crushed.
    pub open spec fn stress<N: Numerics>(&self, p: Particle, n: &N) -> Mat2 {
        let f = p.deformation_gradient;
        if f.determinant().le(Binary32::from_bits(MIN_J)) {
            Mat2::zero()
        } else {
            let (u, sigma, vt) = n.svd_of(f);
            let eps = Vec2 {
                x: n.unary_of(Unary::Ln, sigma.x),
                y: n.unary_of(Unary::Ln, sigma.y),
            };
            recompose(u, self.relaxed_principal_stress(eps), u.transpose())
        }
    }
}

/// More contraction across the tension of a wrinkled region changes nothing: the
/// carrying stress stays, and the transverse stress stays zero.
pub proof fn law_wrinkles_keep_the_carrying_tension(
    m: NoCompressionMaterial,
    eps: Vec2,
    deeper: Vec2,
)
    requires
        m.tension(eps) == Tension::Wrinkled,
        deeper.x == eps.x,
        deeper.y.le(eps.y),
    ensures
        m.relaxed_principal_stress(deeper) == m.relaxed_principal_stress(eps),
        m.relaxed_principal_stress(eps).y == Binary32::zero(),
{
}

/// A region that is stretched in no direction carries no stress.
pub proof fn law_slack_carries_nothing(m: NoCompressionMaterial, eps: Vec2)
    requires
        eps.x.le(Binary32::zero()),
    ensures
        m.relaxed_principal_stress(eps) == Vec2::splat(Binary32::zero()),
{
}

/// The stress has no memory: two particles with the same deformation gradient carry
/// the same stress, whatever happened to them.
pub proof fn law_stress_is_reversible<N: Numerics>(
    m: NoCompressionMaterial,
    p: Particle,
    q: Particle,
    n: &N,
)
    requires
        p.deformation_gradient == q.deformation_gradient,
    ensures
        m.stress(p, n) == m.stress(q, n),
{
}

impl MaterialModel for NoCompressionMaterial {
    fn constitutive_model(&self) -> (r: ConstitutiveModel)
        ensures
            r == ConstitutiveModel::NoCompression,
    {
        ConstitutiveModel::NoCompression
    }

    open spec fn initialised(&self, p: Particle) -> Particle {
        p
    }

    fn init_particle(&self, particle: &mut Particle) {
    }

    open spec fn transitioned(&self, p: Particle) -> Particle {
        p
    }

    fn init_particle_from_transition(&self, particle: &mut Particle) {
    }

    fn gpu_unsupported_reason(&self) -> (r: Option<&'static str>)
        ensures
            r == Some(
                "NoCompressionMaterial has no GPU stress path: the shaders have no branch for it, so the GPU would run without its tension",
            ),
    {
        Some(
            "NoCompressionMaterial has no GPU stress path: the shaders have no branch for it, so the GPU would run without its tension",
        )
    }

    fn params(&self) -> (r: MaterialParams)
        ensures
            r == (MaterialParams {
                model: ConstitutiveModel::NoCompression.discriminant(),
                lambda: self.lambda,
                mu: self.mu,
                ..MaterialParams::zeroed()
            }),
    {
        MaterialParams {
            model: ConstitutiveModel::NoCompression.discriminant(),
            lambda: self.lambda,
            mu: self.mu,
            ..MaterialParams::zeroed()
        }
    }
}

impl<N: Numerics> Response<N> for NoCompressionMaterial {
    fn kirchhoff_stress(&self, particle: &Particle, n: &N) -> (r: Mat2)
        ensures
            r == self.stress(*particle, n),
    {
        let f = particle.deformation_gradient;
        if f.determinant().le(Binary32::from_bits(MIN_J)) {
            return Mat2::zero();
        }
        let (u, sigma, _vt) = n.svd(f);
        let eps = Vec2::new(n.unary(Unary::Ln, sigma.x), n.unary(Unary::Ln, sigma.y));
        recompose(u, self.relaxed_principal_stress(eps), u.transpose())
    }

    fn timestep_bound(
        &self,
        density: Binary32,
        hardening_scale: Binary32,
        cell_width: Binary32,
        material_cfl: Binary32,
        viscous_cfl: Binary32,
        n: &N,
    ) -> (r: Binary32)
        ensures
            r == elastic_wave_dt(
                self.lambda,
                self.mu,
                Binary32::one(),
                density,
                Binary32::from_bits(MIN_J),
                cell_width,
                material_cfl,
            ),
    {
        elastic_wave_dt(
            self.lambda,
            self.mu,
            Binary32::one(),
            density,
            Binary32::from_bits(MIN_J),
            cell_width,
            material_cfl,
        )
    }

    open spec fn updated(&self, p: Particle, dt: Binary32, n: &N) -> Particle {
        with_deformation(
            p,
            n.increment_exp_of(p.velocity_gradient.scale(dt)).mul(p.deformation_gradient),
        )
    }

    fn update_particle(&self, particle: &mut Particle, dt: Binary32, n: &N) {
        let p = *particle;
        let f = n.increment_exp(p.velocity_gradient.scale(dt)).mul(p.deformation_gradient);
        *particle = with_deformation(p, f);
    }
}

} // verus!
