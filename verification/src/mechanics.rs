use vstd::prelude::*;

use crate::binary::laws::law_addition_commutes;
use crate::binary::laws::law_cancellation;
use crate::binary::laws::law_minus_one_negates;
use crate::binary::laws::law_one_is_neutral;
use crate::binary::laws::law_self_quotient_is_one;
use crate::binary::laws::law_square_is_not_negative;
use crate::binary::laws::law_zero_divided;
use crate::binary::laws::law_zero_is_neutral;
use crate::binary::laws::lemma_finite_square;
use crate::binary::laws::lemma_zero_arithmetic;
use crate::binary::roots::law_root_of_square;
use crate::binary::single::Binary32;
use crate::binary::single::half;
use crate::binary::single::lemma_single_constants;
use crate::binary::single::two;
use crate::linalg::Mat2;
use crate::linalg::Vec2;
use crate::linalg::law_vanishing_scaled;
use crate::numerics::Numerics;
use crate::numerics::Unary;
use crate::particle::Particle;
use crate::particle::SimConfig;

verus! {

/// Lower bound of a volume ratio that is divided by, 1.0e-6.
pub const MIN_J: u32 = 0x3586_37bd;

/// The distance from one to the next number.
pub const EPSILON: u32 = 0x3400_0000;

/// 1.0e-6.
pub const MICRO: u32 = 0x3586_37bd;

/// 1.0e-9.
pub const NANO: u32 = 0x3089_705f;

/// First and second Lame parameter from Young's modulus and Poisson's ratio.
#[verifier::allow_in_spec]
pub fn lame_from_young(young_modulus: Binary32, poisson_ratio: Binary32) -> (Binary32, Binary32)
    returns
        (
            young_modulus.mul(poisson_ratio).div(
                Binary32::one().add(poisson_ratio).mul(
                    Binary32::one().sub(two().mul(poisson_ratio)),
                ),
            ),
            young_modulus.div(two().mul(Binary32::one().add(poisson_ratio))),
        ),
{
    let lambda = young_modulus.mul(poisson_ratio).div(
        Binary32::one().add(poisson_ratio).mul(Binary32::one().sub(two().mul(poisson_ratio))),
    );
    let mu = young_modulus.div(two().mul(Binary32::one().add(poisson_ratio)));
    (lambda, mu)
}

/// SI elastic constants of a solid.
#[derive(Clone, Copy, Debug, PartialEq, Eq, Structural)]
pub struct Elastic {
    pub e_pa: Binary32,
    pub nu: Binary32,
    pub rho_kg_m3: Binary32,
}

impl Elastic {
    /// The Lame parameters in grid units.
    pub open spec fn lame_grid<N: Numerics>(self, config: SimConfig, n: &N) -> (Binary32, Binary32) {
        let si = lame_from_young(self.e_pa, self.nu);
        (
            n.scaled_stress_of(si.0, self.rho_kg_m3, config),
            n.scaled_stress_of(si.1, self.rho_kg_m3, config),
        )
    }

    /// The Lame parameters in grid units.
    pub fn scale_lame<N: Numerics>(&self, config: &SimConfig, n: &N) -> (r: (Binary32, Binary32))
        ensures
            r == self.lame_grid(*config, n),
    {
        let (lambda, mu) = lame_from_young(self.e_pa, self.nu);
        (
            n.scaled_stress(lambda, self.rho_kg_m3, *config),
            n.scaled_stress(mu, self.rho_kg_m3, *config),
        )
    }
}

/// The squared speed of elastic waves.
#[verifier::allow_in_spec]
pub fn elastic_wave_c2(
    lambda: Binary32,
    mu: Binary32,
    hardening_scale: Binary32,
    density: Binary32,
    min_density: Binary32,
) -> Binary32
    returns
        lambda.add(two().mul(mu)).mul(hardening_scale).div(density.max(min_density)),
{
    lambda.add(two().mul(mu)).mul(hardening_scale).div(density.max(min_density))
}

/// The step in which an elastic wave crosses `cfl` cells.
#[verifier::allow_in_spec]
pub fn elastic_wave_dt(
    lambda: Binary32,
    mu: Binary32,
    hardening_scale: Binary32,
    density: Binary32,
    min_density: Binary32,
    cell_width: Binary32,
    cfl: Binary32,
) -> Binary32
    returns
        acoustic_bound(
            Binary32::infinity(),
            elastic_wave_c2(lambda, mu, hardening_scale, density, min_density),
            cell_width,
            cfl,
        ),
{
    acoustic_bound(
        Binary32::infinity(),
        elastic_wave_c2(lambda, mu, hardening_scale, density, min_density),
        cell_width,
        cfl,
    )
}

/// `bound`, or the smaller step in which sound of squared speed `c2` crosses `cfl`
/// cells. A speed that is not finite or not above rounding gives no bound.
#[verifier::allow_in_spec]
pub fn acoustic_bound(
    bound: Binary32,
    c2: Binary32,
    cell_width: Binary32,
    cfl: Binary32,
) -> Binary32
    returns
        if c2.is_finite() && c2.gt(Binary32::from_bits(EPSILON)) {
            bound.min(cfl.mul(cell_width).div(c2.sqrt()))
        } else {
            bound
        },
{
    if c2.is_finite() && c2.gt(Binary32::from_bits(EPSILON)) {
        bound.min(cfl.mul(cell_width).div(c2.sqrt()))
    } else {
        bound
    }
}

/// The step bound of explicit viscous diffusion; infinite without viscosity.
#[verifier::allow_in_spec]
pub fn diffusion_dt(
    viscosity: Binary32,
    density: Binary32,
    cell_width: Binary32,
    viscous_cfl: Binary32,
) -> Binary32
    returns
        if viscosity.gt(Binary32::zero()) && viscosity.div(density).gt(
            Binary32::from_bits(EPSILON),
        ) {
            viscous_cfl.mul(cell_width).mul(cell_width).div(viscosity.div(density))
        } else {
            Binary32::infinity()
        },
{
    if viscosity.gt(Binary32::zero()) {
        let kinematic = viscosity.div(density);
        if kinematic.gt(Binary32::from_bits(EPSILON)) {
            return viscous_cfl.mul(cell_width).mul(cell_width).div(kinematic);
        }
    }
    Binary32::infinity()
}

/// `bound`, or the smaller step of explicit viscous diffusion.
#[verifier::allow_in_spec]
pub fn viscous_bound(
    bound: Binary32,
    viscosity: Binary32,
    density: Binary32,
    cell_width: Binary32,
    viscous_cfl: Binary32,
) -> Binary32
    returns
        if viscosity.gt(Binary32::zero()) && viscosity.div(density).gt(
            Binary32::from_bits(EPSILON),
        ) {
            bound.min(viscous_cfl.mul(cell_width).mul(cell_width).div(viscosity.div(density)))
        } else {
            bound
        },
{
    if viscosity.gt(Binary32::zero()) {
        let kinematic = viscosity.div(density);
        if kinematic.gt(Binary32::from_bits(EPSILON)) {
            return bound.min(viscous_cfl.mul(cell_width).mul(cell_width).div(kinematic));
        }
    }
    bound
}

/// Artificial viscosity under compression: a quadratic term with the weak-shock
/// coefficient `(gamma + 1) / 4` and a linear term with coefficient one, both
/// times the density. Zero where the flow does not converge.
#[verifier::allow_in_spec]
pub fn von_neumann_richtmyer_q(
    rest_density: Binary32,
    j: Binary32,
    div_v: Binary32,
    grid_cell_size: Binary32,
    c_sound: Binary32,
    weak_shock_gamma: Binary32,
) -> Binary32
    returns
        if div_v.lt(Binary32::zero()) {
            shock_q(
                rest_density.div(j),
                grid_cell_size.mul(div_v),
                c_sound,
                weak_shock_gamma,
            )
        } else {
            Binary32::zero()
        },
{
    if div_v.lt(Binary32::zero()) {
        shock_q(rest_density.div(j), grid_cell_size.mul(div_v), c_sound, weak_shock_gamma)
    } else {
        Binary32::zero()
    }
}

/// The artificial viscosity at velocity jump `jump` over a cell.
#[verifier::allow_in_spec]
pub fn shock_q(
    density: Binary32,
    jump: Binary32,
    c_sound: Binary32,
    weak_shock_gamma: Binary32,
) -> Binary32
    returns
        weak_shock_gamma.add(Binary32::one()).mul(Binary32::from_bits(0x3e80_0000)).mul(density).mul(
            jump,
        ).mul(jump).sub(density.mul(c_sound).mul(jump)),
{
    // (gamma + 1) / 4
    let c0 = weak_shock_gamma.add(Binary32::one()).mul(Binary32::from_bits(0x3e80_0000));
    c0.mul(density).mul(jump).mul(jump).sub(density.mul(c_sound).mul(jump))
}

/// The rotation of the polar decomposition of a 2x2 matrix: `(F00 + F11, F10 - F01)`
/// scaled to length one. The identity where that vector is zero.
pub open spec fn polar_rotation(f: Mat2) -> Mat2 {
    let x = f.x_axis.x.add(f.y_axis.y);
    let y = f.x_axis.y.sub(f.y_axis.x);
    let len = Vec2 { x, y }.length();
    if len.gt(Binary32::zero()) {
        Mat2 {
            x_axis: Vec2 { x: x.div(len), y: y.div(len) },
            y_axis: Vec2 { x: y.div(len).neg(), y: x.div(len) },
        }
    } else {
        Mat2::identity()
    }
}

/// The rotation of the polar decomposition.
#[verifier::when_used_as_spec(polar_rotation)]
pub fn polar_decomposition_2d(f: Mat2) -> (r: Mat2)
    ensures
        r == polar_rotation(f),
{
    let x = f.x_axis.x.add(f.y_axis.y);
    let y = f.x_axis.y.sub(f.y_axis.x);
    let len = Vec2::new(x, y).length();
    if len.gt(Binary32::zero()) {
        let c = x.div(len);
        let s = y.div(len);
        Mat2::from_cols(Vec2::new(c, s), Vec2::new(s.neg(), c))
    } else {
        Mat2::identity()
    }
}

/// `u * diag(sigma) * vt`.
#[verifier::allow_in_spec]
pub fn recompose(u: Mat2, sigma: Vec2, vt: Mat2) -> Mat2
    returns
        u.mul(Mat2::from_diagonal(sigma)).mul(vt),
{
    u.mul(Mat2::from_diagonal(sigma)).mul(vt)
}

/// A particle spawned into a fluid of `rest_density`: the reference volume is
/// `m / rho0`, and volume and density follow the volume ratio it already has.
#[verifier::allow_in_spec]
pub fn seeded(p: Particle, rest_density: Binary32) -> Particle
    returns
        (Particle {
            initial_volume: p.mass.div(rest_density),
            volume: p.mass.div(rest_density).mul(p.deformation_gradient.determinant()),
            density: rest_density.div(p.deformation_gradient.determinant()),
            ..p
        }),
{
    let j = p.deformation_gradient.determinant();
    let initial_volume = p.mass.div(rest_density);
    Particle {
        initial_volume,
        volume: initial_volume.mul(j),
        density: rest_density.div(j),
        ..p
    }
}

/// The volume ratio of a particle that passes into a fluid: its present volume over
/// the reference volume, within `[lo, hi]`.
#[verifier::allow_in_spec]
pub fn entry_ratio(p: Particle, rest_density: Binary32, lo: Binary32, hi: Binary32) -> Binary32
    requires
        lo.le(hi),
    returns
        p.volume.max(Binary32::from_bits(NANO)).div(p.mass.div(rest_density)).clamp(lo, hi),
{
    p.volume.max(Binary32::from_bits(NANO)).div(p.mass.div(rest_density)).clamp(lo, hi)
}

/// An isotropic deformation gradient of determinant `j`.
#[verifier::allow_in_spec]
pub fn isotropic_deformation(j: Binary32) -> Mat2
    returns
        Mat2::isotropic(j.sqrt()),
{
    Mat2::isotropic(j.sqrt())
}

/// The volume ratio after a step: the exact solution of the continuity equation for
/// a constant velocity gradient, within `[lo, hi]`.
pub open spec fn stepped_ratio<N: Numerics>(
    p: Particle,
    dt: Binary32,
    lo: Binary32,
    hi: Binary32,
    n: &N,
) -> Binary32 {
    p.deformation_gradient.determinant().mul(
        n.unary_of(Unary::Exp, dt.mul(p.velocity_gradient.trace())),
    ).clamp(lo, hi)
}

/// The volume ratio after a step.
pub fn step_ratio<N: Numerics>(
    p: &Particle,
    dt: Binary32,
    lo: Binary32,
    hi: Binary32,
    n: &N,
) -> (r: Binary32)
    requires
        lo.le(hi),
    ensures
        r == stepped_ratio(*p, dt, lo, hi, n),
{
    p.deformation_gradient.determinant().mul(
        n.unary(Unary::Exp, dt.mul(p.velocity_gradient.trace())),
    ).clamp(lo, hi)
}

/// The density at volume ratio `j`, within `[floor, cap]`.
#[verifier::allow_in_spec]
pub fn bounded_density(
    rest_density: Binary32,
    j: Binary32,
    floor: Binary32,
    cap: Binary32,
) -> Binary32
    returns
        rest_density.div(j).max(floor).min(cap),
{
    rest_density.div(j).max(floor).min(cap)
}

/// A particle of a fluid with volume ratio `j` and density `density`.
#[verifier::allow_in_spec]
pub fn with_volume_ratio(
    p: Particle,
    j: Binary32,
    density: Binary32,
    min_volume: Binary32,
) -> Particle
    returns
        (Particle {
            deformation_gradient: isotropic_deformation(j),
            density,
            volume: p.mass.div(density).max(min_volume),
            ..p
        }),
{
    Particle {
        deformation_gradient: isotropic_deformation(j),
        density,
        volume: p.mass.div(density).max(min_volume),
        ..p
    }
}

/// A velocity after the settling damping of a step, `v (1 - damping dt)`.
#[verifier::allow_in_spec]
pub fn damped_velocity(v: Vec2, settling_damping: Binary32, dt: Binary32) -> Vec2
    returns
        if settling_damping.gt(Binary32::zero()) {
            v.scale(Binary32::one().sub(settling_damping.mul(dt)))
        } else {
            v
        },
{
    if settling_damping.gt(Binary32::zero()) {
        v.scale(Binary32::one().sub(settling_damping.mul(dt)))
    } else {
        v
    }
}

/// The deformation gradient after one explicit step: `(I + dt C) F`.
#[verifier::allow_in_spec]
pub fn explicit_trial(p: Particle, dt: Binary32) -> Mat2
    returns
        Mat2::identity().add(p.velocity_gradient.scale(dt)).mul(p.deformation_gradient),
{
    Mat2::identity().add(p.velocity_gradient.scale(dt)).mul(p.deformation_gradient)
}

/// Viscous stress: the viscosity times the deviator of twice the strain rate.
#[verifier::allow_in_spec]
pub fn shear_stress(viscosity: Binary32, velocity_gradient: Mat2) -> Mat2
    returns
        velocity_gradient.symmetrised().deviator().scale(viscosity),
{
    velocity_gradient.symmetrised().deviator().scale(viscosity)
}

/// Dashpot stress: the viscosity times the deviator of the strain rate.
#[verifier::allow_in_spec]
pub fn dashpot_stress(viscosity: Binary32, velocity_gradient: Mat2) -> Mat2
    returns
        velocity_gradient.symmetrised().scale(half()).deviator().scale(viscosity),
{
    velocity_gradient.symmetrised().scale(half()).deviator().scale(viscosity)
}

/// An elastic particle whose deformation gradient has become `f`: the volume
/// follows the determinant, kept away from zero.
#[verifier::allow_in_spec]
pub fn with_deformation(p: Particle, f: Mat2) -> Particle
    returns
        (Particle {
            deformation_gradient: f,
            volume: elastic_volume(p, f),
            density: p.mass.div(elastic_volume(p, f)),
            ..p
        }),
{
    let v = elastic_volume(p, f);
    Particle { deformation_gradient: f, volume: v, density: p.mass.div(v), ..p }
}

/// The volume of an elastic particle with deformation gradient `f`.
#[verifier::allow_in_spec]
pub fn elastic_volume(p: Particle, f: Mat2) -> Binary32
    returns
        p.initial_volume.mul(f.determinant().max(Binary32::from_bits(MIN_J))).max(
            Binary32::from_bits(MICRO),
        ),
{
    p.initial_volume.mul(f.determinant().max(Binary32::from_bits(MIN_J))).max(
        Binary32::from_bits(MICRO),
    )
}

/// There is no artificial viscosity where the flow does not converge.
pub proof fn law_no_shock_without_compression(
    rest_density: Binary32,
    j: Binary32,
    div_v: Binary32,
    grid_cell_size: Binary32,
    c_sound: Binary32,
    weak_shock_gamma: Binary32,
)
    requires
        Binary32::zero().le(div_v),
    ensures
        von_neumann_richtmyer_q(
            rest_density,
            j,
            div_v,
            grid_cell_size,
            c_sound,
            weak_shock_gamma,
        ) == Binary32::zero(),
{
}

/// A step bound never exceeds the bounds that went into it.
pub proof fn law_step_bounds_only_shrink(
    bound: Binary32,
    c2: Binary32,
    viscosity: Binary32,
    density: Binary32,
    cell_width: Binary32,
    cfl: Binary32,
)
    requires
        !bound.is_nan(),
    ensures
        acoustic_bound(bound, c2, cell_width, cfl).le(bound),
        viscous_bound(bound, viscosity, density, cell_width, cfl).le(bound),
{
}

/// A particle spawned undeformed has the rest density, and its reference volume.
pub proof fn law_spawn_at_rest(p: Particle, rest_density: Binary32)
    requires
        p.deformation_gradient.determinant() == Binary32::one(),
        !rest_density.is_nan(),
        !p.mass.div(rest_density).is_nan(),
    ensures
        seeded(p, rest_density).density == rest_density,
        seeded(p, rest_density).volume == seeded(p, rest_density).initial_volume,
{
    law_one_is_neutral(rest_density);
    law_one_is_neutral(p.mass.div(rest_density));
}

/// The density stays within its bounds.
pub proof fn law_density_is_bounded(
    rest_density: Binary32,
    j: Binary32,
    floor: Binary32,
    cap: Binary32,
)
    requires
        floor.le(cap),
    ensures
        floor.le(bounded_density(rest_density, j, floor, cap)),
        bounded_density(rest_density, j, floor, cap).le(cap),
{
}

/// The volume ratio stays within its bounds, whatever a step does.
pub proof fn law_volume_ratio_is_bounded<N: Numerics>(
    p: Particle,
    dt: Binary32,
    lo: Binary32,
    hi: Binary32,
    n: &N,
)
    requires
        lo.le(hi),
        !p.deformation_gradient.determinant().mul(
            n.unary_of(Unary::Exp, dt.mul(p.velocity_gradient.trace())),
        ).is_nan(),
    ensures
        lo.le(stepped_ratio(p, dt, lo, hi, n)),
        stepped_ratio(p, dt, lo, hi, n).le(hi),
{
}

/// A motion without divergence, such as a rigid rotation, keeps the volume ratio
/// exactly, where the exponential of zero is one.
pub proof fn law_no_divergence_no_volume_change<N: Numerics>(
    p: Particle,
    dt: Binary32,
    lo: Binary32,
    hi: Binary32,
    n: &N,
)
    requires
        lo.le(p.deformation_gradient.determinant()),
        p.deformation_gradient.determinant().le(hi),
        dt.mul(p.velocity_gradient.trace()).eq(Binary32::zero()),
        forall|x: Binary32|
            x.eq(Binary32::zero()) ==> #[trigger] n.unary_of(Unary::Exp, x) == Binary32::one(),
    ensures
        stepped_ratio(p, dt, lo, hi, n) == p.deformation_gradient.determinant(),
{
    law_one_is_neutral(p.deformation_gradient.determinant());
}

/// A symmetric deformation with a positive trace has no rotation: the rotation of
/// its polar decomposition is the identity, to the bit but for the sign of a zero.
pub proof fn law_symmetric_deformation_has_no_rotation(f: Mat2)
    requires
        f.x_axis.y == f.y_axis.x,
        f.x_axis.y.is_finite(),
        Binary32::zero().lt(f.trace()),
        f.trace().bits >= 0x2000_0000,
        f.trace().mul(f.trace()).is_finite(),
    ensures
        polar_rotation(f) == (Mat2 {
            x_axis: Vec2 { x: Binary32::one(), y: Binary32::zero() },
            y_axis: Vec2 { x: Binary32::zero().neg(), y: Binary32::one() },
        }),
{
    lemma_single_constants();
    let t = f.trace();
    law_cancellation(f.x_axis.y);
    lemma_zero_arithmetic();
    law_root_of_square(t);
    lemma_finite_square(t);
    law_zero_is_neutral(t.mul(t));
    law_square_is_not_negative(t);
    law_self_quotient_is_one(t);
    law_zero_divided(t);
}

/// A particle that already has the rest density enters a fluid undeformed.
pub proof fn law_entry_at_rest_density(
    p: Particle,
    rest_density: Binary32,
    lo: Binary32,
    hi: Binary32,
)
    requires
        p.volume == p.mass.div(rest_density),
        p.volume.is_finite(),
        Binary32::from_bits(NANO).le(p.volume),
        lo.le(Binary32::one()),
        Binary32::one().le(hi),
    ensures
        entry_ratio(p, rest_density, lo, hi) == Binary32::one(),
        isotropic_deformation(entry_ratio(p, rest_density, lo, hi)) == Mat2::identity(),
{
    lemma_single_constants();
    law_self_quotient_is_one(p.volume);
    law_one_is_neutral(Binary32::one());
    law_root_of_square(Binary32::one());
}

/// The volume ratio of a particle that enters a fluid stays within its bounds.
pub proof fn law_entry_ratio_is_bounded(
    p: Particle,
    rest_density: Binary32,
    lo: Binary32,
    hi: Binary32,
)
    requires
        lo.le(hi),
        !p.volume.max(Binary32::from_bits(NANO)).div(p.mass.div(rest_density)).is_nan(),
    ensures
        lo.le(entry_ratio(p, rest_density, lo, hi)),
        entry_ratio(p, rest_density, lo, hi).le(hi),
{
}

/// A rigid rotation has no divergence, and no viscosity resists it.
pub proof fn law_rotation_is_not_sheared(rate: Binary32, viscosity: Binary32)
    requires
        rate.is_finite(),
        viscosity.is_finite(),
    ensures
        ({
            let spin = Mat2 {
                x_axis: Vec2 { x: Binary32::zero(), y: rate },
                y_axis: Vec2 { x: rate.neg(), y: Binary32::zero() },
            };
            &&& spin.trace() == Binary32::zero()
            &&& shear_stress(viscosity, spin).vanishes()
            &&& dashpot_stress(viscosity, spin).vanishes()
        }),
{
    lemma_single_constants();
    let spin = Mat2 {
        x_axis: Vec2 { x: Binary32::zero(), y: rate },
        y_axis: Vec2 { x: rate.neg(), y: Binary32::zero() },
    };
    lemma_zero_arithmetic();
    law_minus_one_negates(rate, rate);
    law_addition_commutes(rate.neg(), rate);
    law_cancellation(rate);
    let d = spin.symmetrised();
    assert(d == Mat2::zero());
    assert(d.deviator() == Mat2::zero());
    assert(d.scale(half()) == Mat2::zero());
    law_vanishing_scaled(Mat2::zero(), viscosity);
}

} // verus!
