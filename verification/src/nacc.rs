use vstd::prelude::*;

use crate::binary::double::Binary64;
use crate::binary::double::half_double;
use crate::binary::double::lemma_double_constants;
use crate::binary::double::two_double;
use crate::binary::laws::law_cancellation;
use crate::binary::laws::law_finite_difference_is_a_number;
use crate::binary::laws::law_finite_product_is_a_number;
use crate::binary::laws::law_minus_one_negates;
use crate::binary::laws::law_multiplication_commutes;
use crate::binary::laws::law_multiplication_is_monotone;
use crate::binary::laws::law_narrowing_keeps_the_sign;
use crate::binary::laws::law_non_negative_steps;
use crate::binary::laws::law_one_is_neutral;
use crate::binary::laws::law_subtraction_is_antitone;
use crate::binary::laws::law_zero_absorbs;
use crate::binary::laws::law_zero_is_neutral;
use crate::binary::single::Binary32;
use crate::binary::single::half;
use crate::binary::single::lemma_single_constants;
use crate::binary::single::two;
use crate::linalg::Mat2;
use crate::linalg::Vec2;
use crate::mechanics::Elastic;
use crate::mechanics::MICRO;
use crate::mechanics::MIN_J;
use crate::mechanics::dashpot_stress;
use crate::mechanics::diffusion_dt;
use crate::mechanics::elastic_wave_dt;
use crate::mechanics::lame_from_young;
use crate::mechanics::recompose;
use crate::model::ConstitutiveModel;
use crate::model::MaterialModel;
use crate::model::Response;
use crate::numerics::Numerics;
use crate::numerics::Unary;
use crate::params::MaterialParams;
use crate::particle::Particle;
use crate::particle::SimConfig;

verus! {

/// Preconsolidation of an unloaded soil relative to the bulk modulus, 1.0e-5.
pub const P0_OFFSET: u32 = 0x3727_c5ac;

/// The same in double precision.
pub const P0_OFFSET_DOUBLE: u64 = 0x3ee4_f8b5_88e3_68f1;

/// Least squared volume ratio or stretch of a projected state, 1.0e-8.
pub const MIN_SQUARE: u32 = 0x322b_cc77;

/// Tolerance of the yield function and of the distance to its ends, 1.0e-4.
pub const YIELD_TOLERANCE: u32 = 0x38d1_b717;

/// Least coefficient of the squared shear, 1.0e-10.
pub const MIN_Y0: u32 = 0x2edb_e6ff;

/// Largest number of secant steps of the hardening solve.
pub const SECANT_STEPS: u32 = 40;

/// Bit pattern of the infinite number in double precision.
pub const DOUBLE_INFINITY: u64 = 0x7ff0_0000_0000_0000;

/// Relative width of the bracket at which the hardening solve stops, 1.0e-12.
pub const SOLVE_TOLERANCE: u64 = 0x3d71_9799_812d_ea11;

/// Non-associated Cam-Clay soil.
#[derive(Clone, Copy, Debug, PartialEq, Eq, Structural)]
pub struct NaccMaterial {
    pub mu: Binary32,
    /// Plane strain bulk modulus.
    pub kappa: Binary32,
    /// Slope `M` of the critical state line.
    pub friction: Binary32,
    /// Tensile strength relative to the preconsolidation.
    pub cohesion: Binary32,
    /// `xi` in the preconsolidation `kappa (1e-5 + sinh(xi max(-alpha, 0)))`.
    pub hardening_factor: Binary32,
    pub hardening_enabled: bool,
    pub min_density: Binary32,
    pub elastic_viscosity: Binary32,
    /// Cohesion of a dry soil from suction.
    pub saturation_cohesion_coeff: Binary32,
}

/// The free parameters of a [`NaccMaterial`].
#[derive(Clone, Copy, Debug, PartialEq, Eq, Structural)]
pub struct NaccMaterialParams {
    pub mu: Binary32,
    pub kappa: Binary32,
    pub friction: Binary32,
    pub cohesion: Binary32,
    pub hardening_factor: Binary32,
}

/// SI properties of a soil.
#[derive(Clone, Copy, Debug, PartialEq, Eq, Structural)]
pub struct NaccProps {
    pub elastic: Elastic,
    pub friction: Binary32,
    pub cohesion: Binary32,
    pub hardening_factor: Binary32,
}

/// A trial state: the decomposed deformation gradient and its stress measures.
#[derive(Clone, Copy, Debug, PartialEq, Eq, Structural)]
pub struct Trial {
    pub u: Mat2,
    pub vt: Mat2,
    /// Sum of the squared stretches.
    pub trace: Binary32,
    /// Preconsolidation pressure.
    pub p0: Binary32,
    /// Tensile strength.
    pub shift: Binary32,
    /// Volume ratio.
    pub j: Binary32,
    /// Principal deviatoric stress.
    pub s: Vec2,
    /// Pressure.
    pub p: Binary32,
}

/// Where a trial state lies relative to the yield surface.
#[derive(Clone, Copy, Debug, PartialEq, Eq, Structural)]
pub enum Region {
    /// Beyond the compression cap.
    Cap,
    /// Beyond the tensile tip.
    Tip,
    /// Within the ellipse.
    Inside,
    /// Outside the ellipse, between cap and tip.
    Outside,
}

/// The ray from the centre of the ellipse to a trial stress.
#[derive(Clone, Copy, Debug, PartialEq, Eq, Structural)]
pub struct Ray {
    /// Pressure at the centre of the ellipse.
    pub centre: Binary64,
    pub p_tr: Binary32,
    pub q_tr: Binary32,
    pub j_tr: Binary32,
    pub cohesion_bonus_pa: Binary32,
}

/// The state of the bracketing secant solve.
#[derive(Clone, Copy, Debug, PartialEq, Eq)]
pub struct Bracket {
    pub lo: Binary64,
    pub hi: Binary64,
    pub r_lo: Binary64,
    pub r_hi: Binary64,
    /// Which end stayed in the last step, if there was one: true for the lower.
    pub kept_lo_last: Option<bool>,
}

#[verifier::allow_in_spec]
pub fn four_double() -> Binary64
    returns
        (Binary64 { bits: 0x4010_0000_0000_0000 }),
{
    Binary64 { bits: 0x4010_0000_0000_0000 }
}

/// A vector scaled to length one, zero where that is not possible.
#[verifier::allow_in_spec]
pub fn unit_or_zero(v: Vec2) -> Vec2
    returns
        if Binary32::one().div(v.length()).is_finite() && Binary32::one().div(v.length()).gt(
            Binary32::zero(),
        ) {
            v.scale(Binary32::one().div(v.length()))
        } else {
            Vec2::splat(Binary32::zero())
        },
{
    let rcp = Binary32::one().div(v.length());
    if rcp.is_finite() && rcp.gt(Binary32::zero()) {
        v.scale(rcp)
    } else {
        Vec2::splat(Binary32::zero())
    }
}

impl NaccMaterial {
    /// A soil in grid units; it hardens if its hardening factor is positive.
    #[verifier::allow_in_spec]
    pub fn new(
        mu: Binary32,
        kappa: Binary32,
        friction: Binary32,
        cohesion: Binary32,
        hardening_factor: Binary32,
    ) -> NaccMaterial
        returns
            (NaccMaterial {
                mu,
                kappa,
                friction,
                cohesion,
                hardening_factor,
                hardening_enabled: hardening_factor.gt(Binary32::zero()),
                min_density: Binary32::from_bits(MICRO),
                elastic_viscosity: Binary32::zero(),
                saturation_cohesion_coeff: Binary32::zero(),
            }),
    {
        NaccMaterial {
            mu,
            kappa,
            friction,
            cohesion,
            hardening_factor,
            hardening_enabled: hardening_factor.gt(Binary32::zero()),
            min_density: Binary32::from_bits(MICRO),
            elastic_viscosity: Binary32::zero(),
            saturation_cohesion_coeff: Binary32::zero(),
        }
    }

    /// The same from a parameter struct.
    #[verifier::allow_in_spec]
    pub fn from_params(params: NaccMaterialParams) -> NaccMaterial
        returns
            Self::new(
                params.mu,
                params.kappa,
                params.friction,
                params.cohesion,
                params.hardening_factor,
            ),
    {
        Self::new(
            params.mu,
            params.kappa,
            params.friction,
            params.cohesion,
            params.hardening_factor,
        )
    }

    /// A soil from Young's modulus, in grid units, and Poisson's ratio.
    #[verifier::allow_in_spec]
    pub fn from_young_modulus(
        young_modulus: Binary32,
        poisson_ratio: Binary32,
        friction: Binary32,
        cohesion: Binary32,
        hardening_factor: Binary32,
    ) -> NaccMaterial
        returns
            Self::new(
                lame_from_young(young_modulus, poisson_ratio).1,
                lame_from_young(young_modulus, poisson_ratio).0.add(
                    lame_from_young(young_modulus, poisson_ratio).1,
                ),
                friction,
                cohesion,
                hardening_factor,
            ),
    {
        let (lambda, mu) = lame_from_young(young_modulus, poisson_ratio);
        Self::new(mu, lambda.add(mu), friction, cohesion, hardening_factor)
    }

    /// Soft clay: friction 1.2, hardening 2.
    #[verifier::allow_in_spec]
    pub fn soft_clay(young_modulus: Binary32, poisson_ratio: Binary32) -> NaccMaterial
        returns
            Self::from_young_modulus(
                young_modulus,
                poisson_ratio,
                Binary32::from_bits(0x3f99_999a),
                Binary32::zero(),
                two(),
            ),
    {
        Self::from_young_modulus(
            young_modulus,
            poisson_ratio,
            Binary32::from_bits(0x3f99_999a),
            Binary32::zero(),
            two(),
        )
    }

    /// Wet soil: friction 1, hardening 3.
    #[verifier::allow_in_spec]
    pub fn wet_soil(young_modulus: Binary32, poisson_ratio: Binary32) -> NaccMaterial
        returns
            Self::from_young_modulus(
                young_modulus,
                poisson_ratio,
                Binary32::one(),
                Binary32::zero(),
                Binary32::from_bits(0x4040_0000),
            ),
    {
        Self::from_young_modulus(
            young_modulus,
            poisson_ratio,
            Binary32::one(),
            Binary32::zero(),
            Binary32::from_bits(0x4040_0000),
        )
    }

    /// Friction 1.5, hardening 1.
    #[verifier::allow_in_spec]
    pub fn low_hardening(young_modulus: Binary32, poisson_ratio: Binary32) -> NaccMaterial
        returns
            Self::from_young_modulus(
                young_modulus,
                poisson_ratio,
                Binary32::from_bits(0x3fc0_0000),
                Binary32::zero(),
                Binary32::one(),
            ),
    {
        Self::from_young_modulus(
            young_modulus,
            poisson_ratio,
            Binary32::from_bits(0x3fc0_0000),
            Binary32::zero(),
            Binary32::one(),
        )
    }

    /// Peat: friction 1.2, hardening 0.5.
    #[verifier::allow_in_spec]
    pub fn peat(young_modulus: Binary32, poisson_ratio: Binary32) -> NaccMaterial
        returns
            Self::from_young_modulus(
                young_modulus,
                poisson_ratio,
                Binary32::from_bits(0x3f99_999a),
                Binary32::zero(),
                half(),
            ),
    {
        Self::from_young_modulus(
            young_modulus,
            poisson_ratio,
            Binary32::from_bits(0x3f99_999a),
            Binary32::zero(),
            half(),
        )
    }

    /// A soil from SI properties.
    pub fn from_physical<N: Numerics>(props: &NaccProps, config: &SimConfig, n: &N) -> (r:
        NaccMaterial)
        ensures
            r == Self::new(
                props.elastic.lame_grid(*config, n).1,
                props.elastic.lame_grid(*config, n).0.add(props.elastic.lame_grid(*config, n).1),
                props.friction,
                props.cohesion,
                props.hardening_factor,
            ),
    {
        let (lambda, mu) = props.elastic.scale_lame(config, n);
        Self::new(mu, lambda.add(mu), props.friction, props.cohesion, props.hardening_factor)
    }

    /// Preconsolidation pressure at plastic log volume strain `alpha`.
    pub open spec fn preconsolidation<N: Numerics>(&self, alpha: Binary32, n: &N) -> Binary32 {
        self.kappa.mul(
            Binary32::from_bits(P0_OFFSET).add(
                n.unary_of(
                    Unary::Sinh,
                    self.hardening_factor.mul(alpha.neg().max(Binary32::zero())),
                ),
            ),
        )
    }

    /// Preconsolidation pressure at plastic log volume strain `alpha`.
    pub fn preconsolidation_pressure<N: Numerics>(&self, alpha: Binary32, n: &N) -> (r: Binary32)
        ensures
            r == self.preconsolidation(alpha, n),
    {
        self.kappa.mul(
            Binary32::from_bits(P0_OFFSET).add(
                n.unary(
                    Unary::Sinh,
                    self.hardening_factor.mul(alpha.neg().max(Binary32::zero())),
                ),
            ),
        )
    }

    /// Elastic pressure at volume ratio `j`: `-(kappa / 2) (J - 1 / J) J`.
    #[verifier::allow_in_spec]
    pub fn pressure_at(&self, j: Binary32) -> Binary32
        returns
            self.kappa.mul(half()).mul(j.sub(Binary32::one().div(j))).neg().mul(j),
    {
        self.kappa.mul(half()).mul(j.sub(Binary32::one().div(j))).neg().mul(j)
    }

    /// Principal deviatoric stress at volume ratio `j` and squared stretches `sq`.
    #[verifier::allow_in_spec]
    pub fn deviatoric_at(&self, j: Binary32, sq: Vec2) -> Vec2
        returns
            sq.sub(Vec2::splat(sq.x.add(sq.y).mul(half()))).scale(
                self.mu.mul(Binary32::one().div(j)),
            ),
    {
        sq.sub(Vec2::splat(sq.x.add(sq.y).mul(half()))).scale(
            self.mu.mul(Binary32::one().div(j)),
        )
    }

    /// The trial state of a deformation gradient.
    pub open spec fn trial_of<N: Numerics>(
        &self,
        f: Mat2,
        alpha: Binary32,
        cohesion_bonus_pa: Binary32,
        n: &N,
    ) -> Trial {
        let (u, sigma, vt) = n.svd_of(f);
        let sq = Vec2 { x: sigma.x.mul(sigma.x), y: sigma.y.mul(sigma.y) };
        let p0 = self.preconsolidation(alpha, n);
        let j = sigma.x.mul(sigma.y).max(Binary32::from_bits(MICRO));
        Trial {
            u,
            vt,
            trace: sq.x.add(sq.y),
            p0,
            shift: self.cohesion.mul(p0).add(cohesion_bonus_pa),
            j,
            s: self.deviatoric_at(j, sq),
            p: self.pressure_at(j),
        }
    }

    /// The trial state of a deformation gradient.
    pub fn trial<N: Numerics>(
        &self,
        f: Mat2,
        alpha: Binary32,
        cohesion_bonus_pa: Binary32,
        n: &N,
    ) -> (r: Trial)
        ensures
            r == self.trial_of(f, alpha, cohesion_bonus_pa, n),
    {
        let (u, sigma, vt) = n.svd(f);
        let sq = Vec2::new(sigma.x.mul(sigma.x), sigma.y.mul(sigma.y));
        let p0 = self.preconsolidation_pressure(alpha, n);
        let j = sigma.x.mul(sigma.y).max(Binary32::from_bits(MICRO));
        Trial {
            u,
            vt,
            trace: sq.x.add(sq.y),
            p0,
            shift: self.cohesion.mul(p0).add(cohesion_bonus_pa),
            j,
            s: self.deviatoric_at(j, sq),
            p: self.pressure_at(j),
        }
    }

    /// Coefficient of the squared shear in the yield function.
    #[verifier::allow_in_spec]
    pub fn y0(&self) -> Binary32
        returns
            Binary32::one().add(two().mul(self.cohesion)).mul(two()),
    {
        Binary32::one().add(two().mul(self.cohesion)).mul(two())
    }

    /// The pressure part of the yield function, `M^2 (p + shift) (p - p0)`.
    #[verifier::allow_in_spec]
    pub fn y1(&self, p: Binary32, shift: Binary32, p0: Binary32) -> Binary32
        returns
            self.friction.mul(self.friction).mul(p.add(shift)).mul(p.sub(p0)),
    {
        self.friction.mul(self.friction).mul(p.add(shift)).mul(p.sub(p0))
    }

    /// The yield function at a trial state.
    #[verifier::allow_in_spec]
    pub fn yield_function(&self, t: &Trial) -> Binary32
        returns
            self.y0().mul(t.s.x.mul(t.s.x).add(t.s.y.mul(t.s.y))).add(
                self.y1(t.p, t.shift, t.p0),
            ),
    {
        self.y0().mul(t.s.x.mul(t.s.x).add(t.s.y.mul(t.s.y))).add(self.y1(t.p, t.shift, t.p0))
    }

    /// Where a trial state lies.
    #[verifier::allow_in_spec]
    pub fn region(&self, t: &Trial) -> Region
        returns
            if t.p.gt(t.p0) {
                Region::Cap
            } else if t.p.lt(t.shift.neg()) {
                Region::Tip
            } else if self.yield_function(t).lt(Binary32::from_bits(YIELD_TOLERANCE)) {
                Region::Inside
            } else {
                Region::Outside
            },
    {
        if t.p.gt(t.p0) {
            Region::Cap
        } else if t.p.lt(t.shift.neg()) {
            Region::Tip
        } else if self.yield_function(t).lt(Binary32::from_bits(YIELD_TOLERANCE)) {
            Region::Inside
        } else {
            Region::Outside
        }
    }

    /// The volume ratio at which the elastic pressure is `p`:
    /// `sqrt(1 - 2 p / kappa)`.
    #[verifier::allow_in_spec]
    pub fn ratio_at_cap(&self, p0: Binary32) -> Binary32
        returns
            two().neg().mul(p0).div(self.kappa).add(Binary32::one()).max(
                Binary32::from_bits(MIN_SQUARE),
            ).sqrt(),
    {
        two().neg().mul(p0).div(self.kappa).add(Binary32::one()).max(
            Binary32::from_bits(MIN_SQUARE),
        ).sqrt()
    }

    /// The volume ratio at the tensile strength.
    #[verifier::allow_in_spec]
    pub fn ratio_at_tip(&self, shift: Binary32) -> Binary32
        returns
            two().mul(shift).div(self.kappa).add(Binary32::one()).max(
                Binary32::from_bits(MIN_SQUARE),
            ).sqrt(),
    {
        two().mul(shift).div(self.kappa).add(Binary32::one()).max(
            Binary32::from_bits(MIN_SQUARE),
        ).sqrt()
    }

    /// Preconsolidation along a compaction, in double precision.
    pub open spec fn compacted_cap<N: Numerics>(&self, compaction: Binary64, n: &N) -> Binary64 {
        let kappa = self.kappa.to_double();
        let xi = self.hardening_factor.to_double();
        if compaction.gt(Binary64::zero()) {
            kappa.mul(
                Binary64::from_bits(P0_OFFSET_DOUBLE).add(
                    n.unary_double_of(Unary::Sinh, xi.mul(compaction)),
                ),
            )
        } else {
            kappa.mul(Binary64::from_bits(P0_OFFSET_DOUBLE))
        }
    }

    /// How far the pressure that is carried after the compaction `u` lies above the cap
    /// that the same compaction hardens to: `kappa / 2 (1 - J^2) - p0`, `J = j_tr e^u`.
    pub open spec fn cap_excess<N: Numerics>(
        &self,
        j_tr: Binary64,
        alpha: Binary64,
        u: Binary64,
        n: &N,
    ) -> Binary64 {
        let j_sq = j_tr.mul(j_tr).mul(n.unary_double_of(Unary::Exp, two_double().mul(u)));
        half_double().mul(self.kappa.to_double()).mul(Binary64::one().sub(j_sq)).sub(
            self.compacted_cap(u.sub(alpha), n),
        )
    }

    /// Whether the pressure carried after the compaction `u` lies above the hardened cap.
    pub fn is_above_cap<N: Numerics>(
        &self,
        j_tr: Binary64,
        alpha: Binary64,
        u: Binary64,
        n: &N,
    ) -> (r: bool)
        ensures
            r == self.cap_excess(j_tr, alpha, u, n).gt(Binary64::zero()),
    {
        let kappa = self.kappa.to_double();
        let xi = self.hardening_factor.to_double();
        let j_sq = j_tr.mul(j_tr).mul(n.unary_double(Unary::Exp, two_double().mul(u)));
        let compaction = u.sub(alpha);
        let p0 = if compaction.gt(Binary64::zero()) {
            kappa.mul(
                Binary64::from_bits(P0_OFFSET_DOUBLE).add(
                    n.unary_double(Unary::Sinh, xi.mul(compaction)),
                ),
            )
        } else {
            kappa.mul(Binary64::from_bits(P0_OFFSET_DOUBLE))
        };
        half_double().mul(kappa).mul(Binary64::one().sub(j_sq)).sub(p0).gt(Binary64::zero())
    }

    /// The bit pattern of the compaction, among those from `lo` on and below `hi`, that a
    /// bisection finds the sign change of the excess behind.
    pub open spec fn sign_change<N: Numerics>(
        &self,
        j_tr: Binary64,
        alpha: Binary64,
        lo: u64,
        hi: u64,
        n: &N,
    ) -> u64
        decreases hi - lo,
    {
        if hi - lo <= 1 {
            lo
        } else {
            let mid = (lo + (hi - lo) / 2) as u64;
            if self.cap_excess(j_tr, alpha, Binary64 { bits: mid }, n).gt(Binary64::zero()) {
                self.sign_change(j_tr, alpha, mid, hi, n)
            } else {
                self.sign_change(j_tr, alpha, lo, mid, n)
            }
        }
    }

    /// The compaction that takes a state beyond the cap back to the hardened cap: the
    /// last number before the carried pressure falls to the cap, zero if it never was
    /// above.
    pub open spec fn cap_compaction<N: Numerics>(
        &self,
        j_tr: Binary32,
        alpha: Binary32,
        n: &N,
    ) -> Binary64 {
        let j = j_tr.to_double();
        let a = alpha.to_double();
        if self.cap_excess(j, a, Binary64::zero(), n).gt(Binary64::zero()) {
            Binary64 { bits: self.sign_change(j, a, 0, DOUBLE_INFINITY, n) }
        } else {
            Binary64::zero()
        }
    }

    /// Volume ratio and compaction of the return to the hardened cap. A state that is
    /// not beyond the old cap goes to the old cap.
    pub open spec fn cap_returned<N: Numerics>(
        &self,
        j_tr: Binary32,
        j_old_cap: Binary32,
        alpha: Binary32,
        n: &N,
    ) -> (Binary32, Binary32) {
        let start = n.unary_double_of(Unary::Ln, j_old_cap.to_double().div(j_tr.to_double()));
        if start.le(Binary64::zero()) {
            (j_old_cap, Binary32::zero())
        } else {
            let u = self.cap_compaction(j_tr, alpha, n);
            (
                j_tr.to_double().mul(n.unary_double_of(Unary::Exp, u)).to_single(),
                u.to_single(),
            )
        }
    }

    /// Volume ratio and compaction of the return to the hardened cap.
    pub fn cap_return<N: Numerics>(
        &self,
        j_tr: Binary32,
        j_old_cap: Binary32,
        alpha: Binary32,
        n: &N,
    ) -> (r: (Binary32, Binary32))
        ensures
            r == self.cap_returned(j_tr, j_old_cap, alpha, n),
    {
        let j = j_tr.to_double();
        let a = alpha.to_double();
        let start = n.unary_double(Unary::Ln, j_old_cap.to_double().div(j));
        if start.le(Binary64::zero()) {
            return (j_old_cap, Binary32::zero());
        }
        let mut u = Binary64::zero();
        if self.is_above_cap(j, a, Binary64::zero(), n) {
            let mut lo: u64 = 0;
            let mut hi: u64 = DOUBLE_INFINITY;
            let ghost goal = self.sign_change(j, a, lo, hi, n);
            while hi - lo > 1
                invariant
                    lo <= hi,
                    goal == self.sign_change(j, a, lo, hi, n),
                decreases hi - lo,
            {
                let mid: u64 = lo + (hi - lo) / 2;
                if self.is_above_cap(j, a, Binary64::from_bits(mid), n) {
                    lo = mid;
                } else {
                    hi = mid;
                }
            }
            u = Binary64::from_bits(lo);
        }
        (j.mul(n.unary_double(Unary::Exp, u)).to_single(), u.to_single())
    }

    /// Preconsolidation in double precision.
    pub open spec fn preconsolidation_double<N: Numerics>(&self, alpha: Binary64, n: &N) -> Binary64 {
        self.kappa.to_double().mul(
            Binary64::from_bits(P0_OFFSET_DOUBLE).add(
                n.unary_double_of(
                    Unary::Sinh,
                    self.hardening_factor.to_double().mul(alpha.neg().max(Binary64::zero())),
                ),
            ),
        )
    }

    /// The pressure at which a ray of direction `(dx, dy)` meets the ellipse with
    /// preconsolidation `p0` and tensile strength `shift`, on the side of the trial
    /// state.
    #[verifier::allow_in_spec]
    pub fn ray_pressure(
        &self,
        ray: &Ray,
        p0: Binary64,
        shift: Binary64,
        dx: Binary64,
        dy: Binary64,
    ) -> Binary64
        returns
            self.pick_root(
                ray,
                self.quadratic_b(ray.centre, p0, shift, dx),
                self.quadratic_a(dx, dy),
                self.quadratic_b(ray.centre, p0, shift, dx).mul(
                    self.quadratic_b(ray.centre, p0, shift, dx),
                ).sub(
                    four_double().mul(self.quadratic_a(dx, dy)).mul(
                        self.quadratic_c(ray.centre, p0, shift),
                    ),
                ).max(Binary64::zero()).sqrt(),
                dx,
            ),
    {
        let c = self.quadratic_c(ray.centre, p0, shift);
        let b = self.quadratic_b(ray.centre, p0, shift, dx);
        let a = self.quadratic_a(dx, dy);
        let discr = b.mul(b).sub(four_double().mul(a).mul(c)).max(Binary64::zero()).sqrt();
        self.pick_root(ray, b, a, discr, dx)
    }

    /// `M^2` in double precision.
    #[verifier::allow_in_spec]
    pub fn friction_squared(&self) -> Binary64
        returns
            self.friction.to_double().mul(self.friction.to_double()),
    {
        self.friction.to_double().mul(self.friction.to_double())
    }

    /// Constant term of the quadratic along a ray.
    #[verifier::allow_in_spec]
    pub fn quadratic_c(&self, centre: Binary64, p0: Binary64, shift: Binary64) -> Binary64
        returns
            self.friction_squared().mul(centre.add(shift)).mul(centre.sub(p0)),
    {
        self.friction_squared().mul(centre.add(shift)).mul(centre.sub(p0))
    }

    /// Linear coefficient of the quadratic along a ray.
    #[verifier::allow_in_spec]
    pub fn quadratic_b(
        &self,
        centre: Binary64,
        p0: Binary64,
        shift: Binary64,
        dx: Binary64,
    ) -> Binary64
        returns
            self.friction_squared().mul(dx).mul(two_double().mul(centre).add(shift).sub(p0)),
    {
        self.friction_squared().mul(dx).mul(two_double().mul(centre).add(shift).sub(p0))
    }

    /// Leading coefficient of the quadratic along a ray.
    #[verifier::allow_in_spec]
    pub fn quadratic_a(&self, dx: Binary64, dy: Binary64) -> Binary64
        returns
            self.friction_squared().mul(dx).mul(dx).add(
                Binary64::one().add(two_double().mul(self.cohesion.to_double())).mul(dy).mul(dy),
            ),
    {
        self.friction_squared().mul(dx).mul(dx).add(
            Binary64::one().add(two_double().mul(self.cohesion.to_double())).mul(dy).mul(dy),
        )
    }

    /// The root on the side of the trial pressure.
    #[verifier::allow_in_spec]
    pub fn pick_root(
        &self,
        ray: &Ray,
        b: Binary64,
        a: Binary64,
        discr: Binary64,
        dx: Binary64,
    ) -> Binary64
        returns
            if ray.p_tr.to_double().sub(ray.centre).mul(
                ray.centre.add(b.neg().add(discr).div(two_double().mul(a)).mul(dx)).sub(ray.centre),
            ).gt(Binary64::zero()) {
                ray.centre.add(b.neg().add(discr).div(two_double().mul(a)).mul(dx))
            } else {
                ray.centre.add(b.neg().sub(discr).div(two_double().mul(a)).mul(dx))
            },
    {
        let p_c = ray.centre;
        let p1 = p_c.add(b.neg().add(discr).div(two_double().mul(a)).mul(dx));
        let p2 = p_c.add(b.neg().sub(discr).div(two_double().mul(a)).mul(dx));
        if ray.p_tr.to_double().sub(p_c).mul(p1.sub(p_c)).gt(Binary64::zero()) {
            p1
        } else {
            p2
        }
    }

    /// The volume ratio at which the elastic pressure is `p`.
    #[verifier::allow_in_spec]
    pub fn ratio_at_pressure(&self, p: Binary64) -> Binary64
        returns
            Binary64::one().sub(two_double().mul(p).div(self.kappa.to_double())).abs().max(
                Binary64::from_bits(0x3c9c_d2b2_97d8_89bc),
            ).sqrt(),
    {
        // not below 1.0e-16
        Binary64::one().sub(two_double().mul(p).div(self.kappa.to_double())).abs().max(
            Binary64::from_bits(0x3c9c_d2b2_97d8_89bc),
        ).sqrt()
    }

    /// The plastic log volume increment of a return along a ray to the surface at
    /// `alpha_end`. Infinite where the ray has no direction or its end no volume.
    pub open spec fn increment_at<N: Numerics>(
        &self,
        ray: Ray,
        alpha_end: Binary64,
        n: &N,
    ) -> Binary64 {
        let p0 = self.preconsolidation_double(alpha_end, n);
        let shift = self.cohesion.to_double().mul(p0).add(ray.cohesion_bonus_pa.to_double());
        let dx = ray.centre.sub(ray.p_tr.to_double());
        let dy = ray.q_tr.to_double().neg();
        let len = dx.mul(dx).add(dy.mul(dy)).sqrt();
        let j_x = self.ratio_at_pressure(
            self.ray_pressure(&ray, p0, shift, dx.div(len), dy.div(len)),
        );
        if len.le(Binary64::zero()) {
            Binary64::infinity()
        } else if j_x.gt(Binary64::from_bits(0x3f1a_36e2_eb1c_432d)) {
            n.unary_double_of(Unary::Ln, ray.j_tr.to_double().div(j_x))
        } else {
            Binary64::infinity()
        }
    }

    /// The plastic log volume increment of a return along a ray.
    pub fn ray_increment<N: Numerics>(&self, ray: &Ray, alpha_end: Binary64, n: &N) -> (r: Binary64)
        ensures
            r == self.increment_at(*ray, alpha_end, n),
    {
        let p0 = self.kappa.to_double().mul(
            Binary64::from_bits(P0_OFFSET_DOUBLE).add(
                n.unary_double(
                    Unary::Sinh,
                    self.hardening_factor.to_double().mul(alpha_end.neg().max(Binary64::zero())),
                ),
            ),
        );
        let shift = self.cohesion.to_double().mul(p0).add(ray.cohesion_bonus_pa.to_double());
        let dx = ray.centre.sub(ray.p_tr.to_double());
        let dy = ray.q_tr.to_double().neg();
        let len = dx.mul(dx).add(dy.mul(dy)).sqrt();
        if len.le(Binary64::zero()) {
            return Binary64::infinity();
        }
        let p_x = self.ray_pressure(ray, p0, shift, dx.div(len), dy.div(len));
        let j_x = self.ratio_at_pressure(p_x);
        // 1.0e-4
        if j_x.gt(Binary64::from_bits(0x3f1a_36e2_eb1c_432d)) {
            n.unary_double(Unary::Ln, ray.j_tr.to_double().div(j_x))
        } else {
            Binary64::infinity()
        }
    }

    /// How far the surface at `a` is from the one that the return to it hardens to.
    pub open spec fn hardening_residual<N: Numerics>(
        &self,
        ray: Ray,
        alpha: Binary64,
        a: Binary64,
        n: &N,
    ) -> Binary64 {
        alpha.add(self.increment_at(ray, a, n)).sub(a)
    }

    /// Where the chord of a bracket crosses zero.
    #[verifier::allow_in_spec]
    pub fn chord(b: &Bracket) -> Binary64
        returns
            b.hi.sub(b.r_hi.mul(b.hi.sub(b.lo)).div(b.r_hi.sub(b.r_lo))),
    {
        b.hi.sub(b.r_hi.mul(b.hi.sub(b.lo)).div(b.r_hi.sub(b.r_lo)))
    }

    /// One step of the bracketing secant: the point where the chord crosses zero
    /// replaces the end with the same sign; an end that stays twice in a row has its
    /// residual halved.
    pub open spec fn secant_step<N: Numerics>(
        &self,
        ray: Ray,
        alpha: Binary64,
        b: Bracket,
        n: &N,
    ) -> (Bracket, Binary64) {
        let x = Self::chord(&b);
        let r = self.hardening_residual(ray, alpha, x, n);
        if r.gt(Binary64::zero()) {
            (
                Bracket {
                    lo: x,
                    r_lo: r,
                    hi: b.hi,
                    r_hi: if b.kept_lo_last == Some(false) {
                        b.r_hi.mul(half_double())
                    } else {
                        b.r_hi
                    },
                    kept_lo_last: Some(false),
                },
                r,
            )
        } else {
            (
                Bracket {
                    hi: x,
                    r_hi: r,
                    lo: b.lo,
                    r_lo: if b.kept_lo_last == Some(true) {
                        b.r_lo.mul(half_double())
                    } else {
                        b.r_lo
                    },
                    kept_lo_last: Some(true),
                },
                r,
            )
        }
    }

    /// Whether a bracket is narrow enough to end the solve.
    #[verifier::allow_in_spec]
    pub fn is_narrow(alpha: Binary64, b: &Bracket) -> bool
        returns
            b.hi.sub(b.lo).le(
                Binary64::from_bits(SOLVE_TOLERANCE).mul(
                    alpha.abs().max(Binary64::from_bits(0x3eb0_c6f7_a0b5_ed8d)),
                ),
            ),
    {
        // relative to at least 1.0e-6
        b.hi.sub(b.lo).le(
            Binary64::from_bits(SOLVE_TOLERANCE).mul(
                alpha.abs().max(Binary64::from_bits(0x3eb0_c6f7_a0b5_ed8d)),
            ),
        )
    }

    /// The middle of a bracket.
    #[verifier::allow_in_spec]
    pub fn middle(b: &Bracket) -> Binary64
        returns
            half_double().mul(b.lo.add(b.hi)),
    {
        half_double().mul(b.lo.add(b.hi))
    }

    /// Where the solve ends after at most `steps` steps: on the root if a chord hits it,
    /// else in the middle of the last bracket.
    pub open spec fn secant<N: Numerics>(
        &self,
        ray: Ray,
        alpha: Binary64,
        b: Bracket,
        steps: nat,
        n: &N,
    ) -> Binary64
        decreases steps,
    {
        if steps == 0 {
            Self::middle(&b)
        } else {
            let (next, r) = self.secant_step(ray, alpha, b, n);
            if r.eq(Binary64::zero()) {
                Self::chord(&b)
            } else if Self::is_narrow(alpha, &next) {
                Self::middle(&next)
            } else {
                self.secant(ray, alpha, next, (steps - 1) as nat, n)
            }
        }
    }

    /// The bracket that the solve starts with.
    pub open spec fn first_bracket<N: Numerics>(
        &self,
        ray: Ray,
        alpha: Binary64,
        start: Binary64,
        n: &N,
    ) -> Bracket {
        let lo = alpha.add(start);
        Bracket {
            lo,
            hi: alpha,
            r_lo: self.hardening_residual(ray, alpha, lo, n),
            r_hi: self.hardening_residual(ray, alpha, alpha, n),
            kept_lo_last: None,
        }
    }

    /// The plastic log volume strain at the end of a hardening return, from the
    /// increment `start` on the surface at `alpha`. Without a sign change between
    /// the two ends it is the first estimate.
    pub open spec fn hardened<N: Numerics>(
        &self,
        ray: Ray,
        alpha: Binary64,
        start: Binary64,
        n: &N,
    ) -> Binary64 {
        let b = self.first_bracket(ray, alpha, start, n);
        if b.r_lo.gt(Binary64::zero()) && b.r_hi.lt(Binary64::zero()) {
            self.secant(ray, alpha, b, SECANT_STEPS as nat, n)
        } else {
            b.lo
        }
    }

    /// The plastic log volume strain at the end of a hardening return.
    pub fn hardened_alpha<N: Numerics>(
        &self,
        ray: &Ray,
        alpha: Binary64,
        start: Binary64,
        n: &N,
    ) -> (r: Binary64)
        ensures
            r == self.hardened(*ray, alpha, start, n),
            self.first_bracket(*ray, alpha, start, n).r_lo.gt(Binary64::zero())
                && self.first_bracket(*ray, alpha, start, n).r_hi.lt(Binary64::zero())
                ==> self.is_root(*ray, alpha, r, n),
    {
        proof {
            if self.first_bracket(*ray, alpha, start, n).r_lo.gt(Binary64::zero())
                && self.first_bracket(*ray, alpha, start, n).r_hi.lt(Binary64::zero()) {
                law_hardened_alpha_is_a_root(*self, *ray, alpha, start, n);
            }
        }
        let lo = alpha.add(start);
        let r_lo = alpha.add(self.ray_increment(ray, lo, n)).sub(lo);
        let r_hi = alpha.add(self.ray_increment(ray, alpha, n)).sub(alpha);
        let mut b = Bracket { lo, hi: alpha, r_lo, r_hi, kept_lo_last: None };
        if !(b.r_lo.gt(Binary64::zero()) && b.r_hi.lt(Binary64::zero())) {
            return lo;
        }
        let ghost goal = self.secant(*ray, alpha, b, SECANT_STEPS as nat, n);
        let mut left: u32 = SECANT_STEPS;
        while left > 0
            invariant
                goal == self.secant(*ray, alpha, b, left as nat, n),
                goal == self.hardened(*ray, alpha, start, n),
                self.is_root(*ray, alpha, goal, n),
            decreases left,
        {
            let x = Self::chord(&b);
            let r = alpha.add(self.ray_increment(ray, x, n)).sub(x);
            if r.eq(Binary64::zero()) {
                return x;
            }
            if r.gt(Binary64::zero()) {
                let r_hi = match b.kept_lo_last {
                    Some(false) => b.r_hi.mul(half_double()),
                    _ => b.r_hi,
                };
                b = Bracket { lo: x, r_lo: r, hi: b.hi, r_hi, kept_lo_last: Some(false) };
            } else {
                let r_lo = match b.kept_lo_last {
                    Some(true) => b.r_lo.mul(half_double()),
                    _ => b.r_lo,
                };
                b = Bracket { hi: x, r_hi: r, lo: b.lo, r_lo, kept_lo_last: Some(true) };
            }
            if Self::is_narrow(alpha, &b) {
                return Self::middle(&b);
            }
            left = left - 1;
        }
        Self::middle(&b)
    }

    /// The ray of a trial state.
    pub open spec fn ray_of(t: Trial, cohesion_bonus_pa: Binary32) -> Ray {
        Ray {
            centre: t.p0.sub(t.shift).mul(half()).to_double(),
            p_tr: t.p,
            q_tr: two().sqrt().mul(t.s.length()),
            j_tr: t.j,
            cohesion_bonus_pa,
        }
    }

    /// Whether a state outside the ellipse hardens: away from the ends of a surface
    /// that is not degenerate.
    #[verifier::allow_in_spec]
    pub fn hardens(&self, t: &Trial) -> bool
        returns
            self.hardening_enabled && t.p0.gt(Binary32::from_bits(YIELD_TOLERANCE)) && t.p.lt(
                t.p0.sub(Binary32::from_bits(YIELD_TOLERANCE)),
            ) && t.p.gt(t.shift.neg().add(Binary32::from_bits(YIELD_TOLERANCE))),
    {
        self.hardening_enabled && t.p0.gt(Binary32::from_bits(YIELD_TOLERANCE)) && t.p.lt(
            t.p0.sub(Binary32::from_bits(YIELD_TOLERANCE)),
        ) && t.p.gt(t.shift.neg().add(Binary32::from_bits(YIELD_TOLERANCE)))
    }

    /// Pressure part of the yield function and plastic log volume strain after the
    /// hardening of a state outside the ellipse. On the wet side the surface grows
    /// until the return ends on it; on the dry side the strain follows the first
    /// increment and the surface stays.
    pub open spec fn hardening_outcome<N: Numerics>(
        &self,
        t: Trial,
        alpha: Binary32,
        cohesion_bonus_pa: Binary32,
        n: &N,
    ) -> (Binary32, Binary32) {
        let ray = Self::ray_of(t, cohesion_bonus_pa);
        let start = self.increment_at(ray, alpha.to_double(), n);
        let y1 = self.y1(t.p, t.shift, t.p0);
        if !self.hardens(&t) {
            (y1, alpha)
        } else if start.lt(Binary64::zero()) {
            let a = self.hardened(ray, alpha.to_double(), start, n).to_single();
            let p0 = self.preconsolidation(a, n);
            (self.y1(t.p, self.cohesion.mul(p0).add(cohesion_bonus_pa), p0), a)
        } else if start.is_finite() {
            (y1, alpha.add(start.to_single()))
        } else {
            (y1, alpha)
        }
    }

    /// Pressure part of the yield function and plastic log volume strain after the
    /// hardening of a state outside the ellipse.
    pub fn harden<N: Numerics>(
        &self,
        t: &Trial,
        alpha: Binary32,
        cohesion_bonus_pa: Binary32,
        n: &N,
    ) -> (r: (Binary32, Binary32))
        ensures
            r == self.hardening_outcome(*t, alpha, cohesion_bonus_pa, n),
    {
        let y1 = self.y1(t.p, t.shift, t.p0);
        if !self.hardens(t) {
            return (y1, alpha);
        }
        let ray = Ray {
            centre: t.p0.sub(t.shift).mul(half()).to_double(),
            p_tr: t.p,
            q_tr: two().sqrt().mul(t.s.length()),
            j_tr: t.j,
            cohesion_bonus_pa,
        };
        let start = self.ray_increment(&ray, alpha.to_double(), n);
        if start.lt(Binary64::zero()) {
            let a = self.hardened_alpha(&ray, alpha.to_double(), start, n).to_single();
            let p0 = self.preconsolidation_pressure(a, n);
            (self.y1(t.p, self.cohesion.mul(p0).add(cohesion_bonus_pa), p0), a)
        } else if start.is_finite() {
            (y1, alpha.add(start.to_single()))
        } else {
            (y1, alpha)
        }
    }

    /// Squared stretches on the ellipse, at the pressure part `y1`: the shear is
    /// scaled back along its direction, the trace stays.
    #[verifier::allow_in_spec]
    pub fn ellipse_stretches(&self, t: &Trial, y1: Binary32) -> Vec2
        returns
            unit_or_zero(t.s).scale(
                y1.neg().div(self.y0().max(Binary32::from_bits(MIN_Y0))).max(
                    Binary32::zero(),
                ).sqrt().mul(t.j.div(self.mu)),
            ).add(Vec2::splat(t.trace.div(two()))),
    {
        unit_or_zero(t.s).scale(
            y1.neg().div(self.y0().max(Binary32::from_bits(MIN_Y0))).max(
                Binary32::zero(),
            ).sqrt().mul(t.j.div(self.mu)),
        ).add(Vec2::splat(t.trace.div(two())))
    }

    /// The square root of a squared stretch, kept away from zero.
    #[verifier::allow_in_spec]
    pub fn stretch(square: Binary32) -> Binary32
        returns
            square.max(Binary32::from_bits(MIN_SQUARE)).sqrt(),
    {
        square.max(Binary32::from_bits(MIN_SQUARE)).sqrt()
    }

    /// Deformation gradient and plastic log volume strain after the return of a trial
    /// deformation gradient to the yield surface.
    pub open spec fn projected<N: Numerics>(
        &self,
        f: Mat2,
        alpha: Binary32,
        cohesion_bonus_pa: Binary32,
        n: &N,
    ) -> (Mat2, Binary32) {
        let t = self.trial_of(f, alpha, cohesion_bonus_pa, n);
        match self.region(&t) {
            Region::Cap => {
                let old_cap = self.ratio_at_cap(t.p0);
                let back = self.cap_returned(t.j, old_cap, alpha, n);
                let j = if self.hardening_enabled {
                    back.0
                } else {
                    old_cap
                };
                (
                    recompose(t.u, Vec2::splat(n.pow_of(j, half())), t.vt),
                    if self.hardening_enabled {
                        alpha.sub(back.1)
                    } else {
                        alpha
                    },
                )
            },
            Region::Tip => {
                let j = self.ratio_at_tip(t.shift);
                (
                    recompose(t.u, Vec2::splat(n.pow_of(j, half())), t.vt),
                    if self.hardening_enabled {
                        alpha.add(n.unary_of(Unary::Ln, t.j.div(j)))
                    } else {
                        alpha
                    },
                )
            },
            Region::Inside => (f, alpha),
            Region::Outside => {
                let (y1, a) = self.hardening_outcome(t, alpha, cohesion_bonus_pa, n);
                let b = self.ellipse_stretches(&t, y1);
                (
                    recompose(t.u, Vec2 { x: Self::stretch(b.x), y: Self::stretch(b.y) }, t.vt),
                    a,
                )
            },
        }
    }

    /// The return of a trial deformation gradient to the yield surface.
    pub fn project<N: Numerics>(
        &self,
        f: Mat2,
        alpha: Binary32,
        cohesion_bonus_pa: Binary32,
        n: &N,
    ) -> (r: (Mat2, Binary32))
        ensures
            r == self.projected(f, alpha, cohesion_bonus_pa, n),
    {
        let t = self.trial(f, alpha, cohesion_bonus_pa, n);
        match self.region(&t) {
            Region::Cap => {
                let old_cap = self.ratio_at_cap(t.p0);
                let (j, alpha_end) = if self.hardening_enabled {
                    let (j, compaction) = self.cap_return(t.j, old_cap, alpha, n);
                    (j, alpha.sub(compaction))
                } else {
                    (old_cap, alpha)
                };
                let stretch = n.pow(j, half());
                (recompose(t.u, Vec2::splat(stretch), t.vt), alpha_end)
            },
            Region::Tip => {
                let j = self.ratio_at_tip(t.shift);
                let stretch = n.pow(j, half());
                let alpha_end = if self.hardening_enabled {
                    alpha.add(n.unary(Unary::Ln, t.j.div(j)))
                } else {
                    alpha
                };
                (recompose(t.u, Vec2::splat(stretch), t.vt), alpha_end)
            },
            Region::Inside => (f, alpha),
            Region::Outside => {
                let (y1, alpha_end) = self.harden(&t, alpha, cohesion_bonus_pa, n);
                let b = self.ellipse_stretches(&t, y1);
                let sigma = Vec2::new(Self::stretch(b.x), Self::stretch(b.y));
                (recompose(t.u, sigma, t.vt), alpha_end)
            },
        }
    }

    /// Apparent cohesion at a saturation: largest when dry, none when saturated.
    pub open spec fn suction_cohesion(&self, saturation: Binary32) -> Binary32 {
        if self.saturation_cohesion_coeff.eq(Binary32::zero()) {
            Binary32::zero()
        } else {
            self.saturation_cohesion_coeff.mul(
                Binary32::one().sub(saturation.clamp(Binary32::zero(), Binary32::one())),
            )
        }
    }

    /// The elastic part of the stress: `(mu / J) dev(F F^T) + (kappa / 2) (J^2 - 1) I`.
    #[verifier::allow_in_spec]
    pub fn elastic_stress(&self, f: Mat2) -> Mat2
        returns
            f.mul(f.transpose()).deviator().scale(
                self.mu.div(f.determinant().max(Binary32::from_bits(MIN_J))),
            ).add(
                Mat2::identity().scale(
                    self.kappa.mul(half()).mul(
                        f.determinant().max(Binary32::from_bits(MIN_J)).mul(
                            f.determinant().max(Binary32::from_bits(MIN_J)),
                        ).sub(Binary32::one()),
                    ),
                ),
            ),
    {
        let j = f.determinant().max(Binary32::from_bits(MIN_J));
        f.mul(f.transpose()).deviator().scale(self.mu.div(j)).add(
            Mat2::identity().scale(self.kappa.mul(half()).mul(j.mul(j).sub(Binary32::one()))),
        )
    }

    /// The Kirchhoff stress of a particle.
    pub open spec fn stress(&self, p: Particle) -> Mat2 {
        if self.elastic_viscosity.eq(Binary32::zero()) {
            self.elastic_stress(p.deformation_gradient)
        } else {
            self.elastic_stress(p.deformation_gradient).add(
                dashpot_stress(self.elastic_viscosity, p.velocity_gradient),
            )
        }
    }

    /// The step bound from elastic waves and from the dashpot.
    #[verifier::allow_in_spec]
    pub fn step_bound(
        &self,
        density: Binary32,
        hardening_scale: Binary32,
        cell_width: Binary32,
        material_cfl: Binary32,
        viscous_cfl: Binary32,
    ) -> Binary32
        returns
            elastic_wave_dt(
                self.kappa.sub(self.mu),
                self.mu,
                hardening_scale,
                density,
                self.min_density,
                cell_width,
                material_cfl,
            ).min(
                diffusion_dt(
                    self.elastic_viscosity,
                    density.max(Binary32::from_bits(MICRO)),
                    cell_width,
                    viscous_cfl,
                ),
            ),
    {
        elastic_wave_dt(
            self.kappa.sub(self.mu),
            self.mu,
            hardening_scale,
            density,
            self.min_density,
            cell_width,
            material_cfl,
        ).min(
            diffusion_dt(
                self.elastic_viscosity,
                density.max(Binary32::from_bits(MICRO)),
                cell_width,
                viscous_cfl,
            ),
        )
    }
}

/// A state inside the yield surface is left alone: no projection, no history.
pub proof fn law_elastic_states_are_fixed<N: Numerics>(
    m: NaccMaterial,
    f: Mat2,
    alpha: Binary32,
    cohesion_bonus_pa: Binary32,
    n: &N,
)
    requires
        m.region(&m.trial_of(f, alpha, cohesion_bonus_pa, n)) == Region::Inside,
    ensures
        m.projected(f, alpha, cohesion_bonus_pa, n) == (f, alpha),
{
}

/// A soil that does not harden keeps its history, whatever happens to it.
pub proof fn law_without_hardening_no_history<N: Numerics>(
    m: NaccMaterial,
    f: Mat2,
    alpha: Binary32,
    cohesion_bonus_pa: Binary32,
    n: &N,
)
    requires
        !m.hardening_enabled,
    ensures
        m.projected(f, alpha, cohesion_bonus_pa, n).1 == alpha,
{
}

/// Without a suction coefficient there is no apparent cohesion at any saturation.
pub proof fn law_no_suction_no_cohesion(m: NaccMaterial, saturation: Binary32)
    requires
        m.saturation_cohesion_coeff.eq(Binary32::zero()),
    ensures
        m.suction_cohesion(saturation) == Binary32::zero(),
{
}

/// Dry soil has the whole apparent cohesion, saturated soil none.
pub proof fn law_suction_ends_with_saturation(m: NaccMaterial, saturation: Binary32)
    requires
        m.saturation_cohesion_coeff.is_finite(),
    ensures
        saturation.le(Binary32::zero()) ==> m.suction_cohesion(saturation).eq(
            m.saturation_cohesion_coeff,
        ),
        Binary32::one().le(saturation) ==> m.suction_cohesion(saturation).eq(Binary32::zero()),
{
    lemma_single_constants();
    let one = Binary32::one();
    let zero = Binary32::zero();
    law_one_is_neutral(m.saturation_cohesion_coeff);
    law_zero_is_neutral(one);
    law_minus_one_negates(one, zero.neg());
    law_cancellation(one);
    law_zero_absorbs(zero, m.saturation_cohesion_coeff);
}

/// Wetter soil has no more apparent cohesion.
pub proof fn law_suction_falls_with_saturation(m: NaccMaterial, dry: Binary32, wet: Binary32)
    requires
        dry.le(wet),
        Binary32::zero().le(m.saturation_cohesion_coeff),
        m.saturation_cohesion_coeff.is_finite(),
    ensures
        m.suction_cohesion(wet).le(m.suction_cohesion(dry)),
{
    lemma_single_constants();
    let one = Binary32::one();
    let zero = Binary32::zero();
    let c = m.saturation_cohesion_coeff;
    if !c.eq(zero) {
        let d = dry.clamp(zero, one);
        let w = wet.clamp(zero, one);
        assert(d.le(w));
        law_finite_difference_is_a_number(one, d);
        law_finite_difference_is_a_number(one, w);
        law_subtraction_is_antitone(one, d, w);
        law_multiplication_commutes(c, one.sub(d));
        law_multiplication_commutes(c, one.sub(w));
        law_finite_product_is_a_number(one.sub(d), c);
        law_finite_product_is_a_number(one.sub(w), c);
        law_multiplication_is_monotone(one.sub(w), one.sub(d), c);
    }
}

/// The bisection ends on two neighbours with the sign change between them.
proof fn lemma_sign_change<N: Numerics>(
    m: NaccMaterial,
    j_tr: Binary64,
    alpha: Binary64,
    lo: u64,
    hi: u64,
    n: &N,
)
    requires
        lo < hi,
        m.cap_excess(j_tr, alpha, Binary64 { bits: lo }, n).gt(Binary64::zero()),
    ensures
        ({
            let k = m.sign_change(j_tr, alpha, lo, hi, n);
            &&& lo <= k < hi
            &&& m.cap_excess(j_tr, alpha, Binary64 { bits: k }, n).gt(Binary64::zero())
            &&& k + 1 == hi || !m.cap_excess(
                j_tr,
                alpha,
                Binary64 { bits: (k + 1) as u64 },
                n,
            ).gt(Binary64::zero())
        }),
    decreases hi - lo,
{
    if hi - lo > 1 {
        let mid = (lo + (hi - lo) / 2) as u64;
        if m.cap_excess(j_tr, alpha, Binary64 { bits: mid }, n).gt(Binary64::zero()) {
            lemma_sign_change(m, j_tr, alpha, mid, hi, n);
        } else {
            lemma_sign_change(m, j_tr, alpha, lo, mid, n);
        }
    }
}

/// A return from beyond the cap lands on the cap that it hardens: at its compaction the
/// carried pressure is still above the hardened cap, at the next number it no longer is.
pub proof fn law_cap_return_lands_on_the_cap<N: Numerics>(
    m: NaccMaterial,
    j_tr: Binary32,
    alpha: Binary32,
    n: &N,
)
    requires
        m.cap_excess(j_tr.to_double(), alpha.to_double(), Binary64::zero(), n).gt(
            Binary64::zero(),
        ),
        !m.cap_excess(j_tr.to_double(), alpha.to_double(), Binary64::infinity(), n).gt(
            Binary64::zero(),
        ),
    ensures
        ({
            let u = m.cap_compaction(j_tr, alpha, n);
            let next = Binary64 { bits: (u.bits + 1) as u64 };
            &&& u.is_finite()
            &&& Binary64::zero().le(u)
            &&& m.cap_excess(j_tr.to_double(), alpha.to_double(), u, n).gt(Binary64::zero())
            &&& !m.cap_excess(j_tr.to_double(), alpha.to_double(), next, n).gt(Binary64::zero())
        }),
{
    lemma_double_constants();
    lemma_sign_change(m, j_tr.to_double(), alpha.to_double(), 0, DOUBLE_INFINITY, n);
}

/// Loading beyond the cap only ever compacts the soil: the plastic log volume strain
/// does not grow.
pub proof fn law_cap_return_only_compacts<N: Numerics>(
    m: NaccMaterial,
    f: Mat2,
    alpha: Binary32,
    cohesion_bonus_pa: Binary32,
    n: &N,
)
    requires
        m.region(&m.trial_of(f, alpha, cohesion_bonus_pa, n)) == Region::Cap,
        alpha.is_finite(),
    ensures
        m.projected(f, alpha, cohesion_bonus_pa, n).1.le(alpha),
{
    lemma_single_constants();
    let t = m.trial_of(f, alpha, cohesion_bonus_pa, n);
    let old_cap = m.ratio_at_cap(t.p0);
    let j = t.j.to_double();
    let a = alpha.to_double();
    lemma_double_constants();
    if m.cap_excess(j, a, Binary64::zero(), n).gt(Binary64::zero()) {
        lemma_sign_change(m, j, a, 0, DOUBLE_INFINITY, n);
    }
    law_narrowing_keeps_the_sign(m.cap_compaction(t.j, alpha, n));
    law_non_negative_steps(alpha, m.cap_returned(t.j, old_cap, alpha, n).1);
}

impl NaccMaterial {
    /// The hardening residual changes sign between `lo` and `hi`.
    pub open spec fn encloses<N: Numerics>(
        &self,
        ray: Ray,
        alpha: Binary64,
        lo: Binary64,
        hi: Binary64,
        n: &N,
    ) -> bool {
        &&& self.hardening_residual(ray, alpha, lo, n).gt(Binary64::zero())
        &&& !self.hardening_residual(ray, alpha, hi, n).gt(Binary64::zero())
    }

    /// `a` is a root of the hardening residual, or the middle of two numbers between
    /// which it changes sign.
    pub open spec fn is_root<N: Numerics>(
        &self,
        ray: Ray,
        alpha: Binary64,
        a: Binary64,
        n: &N,
    ) -> bool {
        ||| self.hardening_residual(ray, alpha, a, n).eq(Binary64::zero())
        ||| exists|lo: Binary64, hi: Binary64|
            #[trigger] self.encloses(ray, alpha, lo, hi, n) && a == half_double().mul(lo.add(hi))
    }
}

/// The solve for the hardened surface keeps the root between the ends of its bracket,
/// and ends on the root or between such ends.
pub proof fn law_secant_keeps_the_root<N: Numerics>(
    m: NaccMaterial,
    ray: Ray,
    alpha: Binary64,
    b: Bracket,
    steps: nat,
    n: &N,
)
    requires
        m.encloses(ray, alpha, b.lo, b.hi, n),
    ensures
        m.is_root(ray, alpha, m.secant(ray, alpha, b, steps, n), n),
    decreases steps,
{
    if steps > 0 {
        let (next, r) = m.secant_step(ray, alpha, b, n);
        assert(m.encloses(ray, alpha, next.lo, next.hi, n));
        if !r.eq(Binary64::zero()) && !NaccMaterial::is_narrow(alpha, &next) {
            law_secant_keeps_the_root(m, ray, alpha, next, (steps - 1) as nat, n);
        }
    }
}

/// Where the first estimate and the start enclose a root, the hardened strain is that
/// root.
pub proof fn law_hardened_alpha_is_a_root<N: Numerics>(
    m: NaccMaterial,
    ray: Ray,
    alpha: Binary64,
    start: Binary64,
    n: &N,
)
    requires
        m.first_bracket(ray, alpha, start, n).r_lo.gt(Binary64::zero()),
        m.first_bracket(ray, alpha, start, n).r_hi.lt(Binary64::zero()),
    ensures
        m.is_root(ray, alpha, m.hardened(ray, alpha, start, n), n),
{
    lemma_double_constants();
    let b = m.first_bracket(ray, alpha, start, n);
    law_secant_keeps_the_root(m, ray, alpha, b, SECANT_STEPS as nat, n);
}

/// Without a dashpot the stress does not see the velocity gradient.
pub proof fn law_no_dashpot_no_rate_dependence(m: NaccMaterial, p: Particle, q: Particle)
    requires
        m.elastic_viscosity.eq(Binary32::zero()),
        p.deformation_gradient == q.deformation_gradient,
    ensures
        m.stress(p) == m.stress(q),
{
}

impl MaterialModel for NaccMaterial {
    fn constitutive_model(&self) -> (r: ConstitutiveModel)
        ensures
            r == ConstitutiveModel::Nacc,
    {
        ConstitutiveModel::Nacc
    }

    open spec fn initialised(&self, p: Particle) -> Particle {
        Particle { log_volume_strain: Binary32::zero(), ..p }
    }

    fn init_particle(&self, particle: &mut Particle) {
        particle.log_volume_strain = Binary32::zero();
    }

    open spec fn transitioned(&self, p: Particle) -> Particle {
        self.initialised(p)
    }

    fn init_particle_from_transition(&self, particle: &mut Particle) {
        self.init_particle(particle)
    }

    fn needs_cpu_update(&self) -> (r: bool)
        ensures
            r,
    {
        true
    }

    fn gpu_unsupported_reason(&self) -> (r: Option<&'static str>)
        ensures
            r == Some(
                "NaccMaterial has no GPU stress path: it uploads as NeoHookean, so the GPU runs kappa ln(J) instead of Cam-Clay's kappa/2 (J^2 - 1); use GranularFluidMaterial for a GPU granular-fluid scene",
            ),
    {
        Some(
            "NaccMaterial has no GPU stress path: it uploads as NeoHookean, so the GPU runs kappa ln(J) instead of Cam-Clay's kappa/2 (J^2 - 1); use GranularFluidMaterial for a GPU granular-fluid scene",
        )
    }

    /// Uploads as a Neo-Hookean solid: the shaders have no branch of its own.
    fn params(&self) -> (r: MaterialParams)
        ensures
            r == (MaterialParams {
                model: ConstitutiveModel::NeoHookean.discriminant(),
                lambda: self.kappa.sub(self.mu),
                mu: self.mu,
                hardening_exponent: self.hardening_factor,
                compression_limit: self.cohesion,
                stretch_limit: self.friction,
                ..MaterialParams::zeroed()
            }),
    {
        MaterialParams {
            model: ConstitutiveModel::NeoHookean.discriminant(),
            lambda: self.kappa.sub(self.mu),
            mu: self.mu,
            hardening_exponent: self.hardening_factor,
            compression_limit: self.cohesion,
            stretch_limit: self.friction,
            ..MaterialParams::zeroed()
        }
    }

    fn cohesion_bonus_pa(&self, scalar_field: Binary32) -> (r: Binary32)
        ensures
            r == self.suction_cohesion(scalar_field),
    {
        if self.saturation_cohesion_coeff.eq(Binary32::zero()) {
            return Binary32::zero();
        }
        proof {
            lemma_single_constants();
        }
        let saturation = scalar_field.clamp(Binary32::zero(), Binary32::one());
        self.saturation_cohesion_coeff.mul(Binary32::one().sub(saturation))
    }
}

impl<N: Numerics> Response<N> for NaccMaterial {
    fn kirchhoff_stress(&self, particle: &Particle, n: &N) -> (r: Mat2)
        ensures
            r == self.stress(*particle),
    {
        let elastic = self.elastic_stress(particle.deformation_gradient);
        if self.elastic_viscosity.eq(Binary32::zero()) {
            return elastic;
        }
        elastic.add(dashpot_stress(self.elastic_viscosity, particle.velocity_gradient))
    }

    fn timestep_bound(
        &self,
        density: Binary32,
        hardening_scale: Binary32,
        cell_width: Binary32,
        material_cfl: Binary32,
        viscous_cfl: Binary32,
        n: &N,
    ) -> (r: Binary32)
        ensures
            r == self.step_bound(density, hardening_scale, cell_width, material_cfl, viscous_cfl),
    {
        self.step_bound(density, hardening_scale, cell_width, material_cfl, viscous_cfl)
    }

    open spec fn updated(&self, p: Particle, dt: Binary32, n: &N) -> Particle {
        let trial = n.increment_exp_of(p.velocity_gradient.scale(dt)).mul(p.deformation_gradient);
        let (f, alpha) = self.projected(
            trial,
            p.log_volume_strain,
            self.suction_cohesion(p.scalar_field),
            n,
        );
        let volume = p.initial_volume.mul(f.determinant().max(Binary32::from_bits(MIN_J)));
        Particle {
            deformation_gradient: f,
            log_volume_strain: alpha,
            volume,
            density: if volume.gt(Binary32::from_bits(MIN_J)) {
                p.mass.div(volume)
            } else {
                p.density
            },
            ..p
        }
    }

    fn update_particle(&self, particle: &mut Particle, dt: Binary32, n: &N) {
        let p = *particle;
        let trial = n.increment_exp(p.velocity_gradient.scale(dt)).mul(p.deformation_gradient);
        let bonus = self.cohesion_bonus_pa(p.scalar_field);
        let (f, alpha) = self.project(trial, p.log_volume_strain, bonus, n);
        let volume = p.initial_volume.mul(f.determinant().max(Binary32::from_bits(MIN_J)));
        let density = if volume.gt(Binary32::from_bits(MIN_J)) {
            p.mass.div(volume)
        } else {
            p.density
        };
        *particle =
        Particle { deformation_gradient: f, log_volume_strain: alpha, volume, density, ..p };
    }
}

} // verus!
