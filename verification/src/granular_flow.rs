use vstd::prelude::*;

use crate::binary::around::Estimate;
use crate::binary::around::law_quotient_multiplies_back;
use crate::binary::around::lemma_finite_parts;
use crate::binary::around::lemma_minus;
use crate::binary::around::lemma_of;
use crate::binary::around::lemma_times;
use crate::binary::around::lemma_units;
use crate::binary::around::weight;
use crate::binary::error::huge;
use crate::binary::error::law_difference_is_near;
use crate::binary::error::law_order_of_amounts;
use crate::binary::error::lemma_constant_amounts;
use crate::binary::error::off;
use crate::binary::error::size;
use crate::binary::laws::law_cancellation;
use crate::binary::laws::law_finite_product_is_a_number;
use crate::binary::laws::law_multiplication_commutes;
use crate::binary::laws::law_multiplication_is_monotone;
use crate::binary::laws::law_negated_factor;
use crate::binary::laws::law_positive_difference;
use crate::binary::laws::law_reversed_difference;
use crate::binary::laws::law_subtraction_is_antitone;
use crate::binary::laws::law_zero_absorbs;
use crate::binary::relative::dust;
use crate::binary::single::Binary32;
use crate::binary::single::lemma_single_constants;
use crate::granular_fluid::GranularFluidMaterial;
use crate::granular_fluid::HARDENING_MAX;
use crate::granular_fluid::MIN_SIGMA_PRODUCT;
use crate::linalg::Mat2;
use crate::mechanics::with_deformation;
use crate::numerics::Numerics;
use crate::numerics::Unary;
use crate::particle::Particle;

verus! {

/// The exponential of zero is one.
pub open spec fn exponential_starts_at_one<N: Numerics>(n: &N) -> bool {
    forall|x: Binary32|
        x.eq(Binary32::zero()) ==> #[trigger] n.unary_of(Unary::Exp, x) == Binary32::one()
}

/// The exponential grows.
pub open spec fn exponential_grows<N: Numerics>(n: &N) -> bool {
    forall|x: Binary32, y: Binary32|
        x.le(y) ==> (#[trigger] n.unary_of(Unary::Exp, x)).le(#[trigger] n.unary_of(Unary::Exp, y))
}

/// A plastic volume ratio whose difference from one does not overflow.
pub open spec fn is_moderate(jp: Binary32) -> bool {
    jp.is_finite() && size(jp.amount()) + 1real <= huge()
}

/// The distance of a plastic volume ratio from one.
proof fn lemma_moderate(jp: Binary32)
    requires
        is_moderate(jp),
    ensures
        Binary32::one().sub(jp).is_finite(),
{
    lemma_constant_amounts();
    lemma_single_constants();
    law_difference_is_near(Binary32::one(), jp);
}

/// Without an exponent nothing hardens: the scale is one at every plastic volume ratio.
pub proof fn law_no_exponent_no_hardening<N: Numerics>(
    m: GranularFluidMaterial,
    p: Particle,
    f: Mat2,
    n: &N,
)
    requires
        m.is_plastic(),
        m.hardening_exponent.eq(Binary32::zero()),
        exponential_starts_at_one(n),
        is_moderate(m.returned(p, f, n).plastic_volume_ratio),
    ensures
        m.returned(p, f, n).hardening_scale == Binary32::one(),
{
    let jp = m.returned(p, f, n).plastic_volume_ratio;
    lemma_moderate(jp);
    lemma_single_constants();
    law_zero_absorbs(m.hardening_exponent, Binary32::one().sub(jp));
}

/// Two clamps to the range of the hardening scale keep their order.
proof fn lemma_scales_in_order(a: Binary32, b: Binary32)
    requires
        a.le(b),
    ensures
        a.clamp(Binary32::one(), Binary32::from_bits(HARDENING_MAX)).le(
            b.clamp(Binary32::one(), Binary32::from_bits(HARDENING_MAX)),
        ),
{
    lemma_single_constants();
}

/// A compacted material hardens with its exponent: of two materials that differ in it alone,
/// the one with the larger exponent has no smaller scale at a plastic volume ratio of at most
/// one, and no larger one at a ratio of at least one.
pub proof fn law_larger_exponent_hardens_more<N: Numerics>(
    m: GranularFluidMaterial,
    exponent: Binary32,
    p: Particle,
    f: Mat2,
    n: &N,
)
    requires
        m.is_plastic(),
        m.hardening_exponent.is_finite(),
        exponent.is_finite(),
        m.hardening_exponent.le(exponent),
        exponential_grows(n),
        is_moderate(m.returned(p, f, n).plastic_volume_ratio),
    ensures
        ({
            let other = GranularFluidMaterial { hardening_exponent: exponent, ..m };
            let (q, r) = (m.returned(p, f, n), other.returned(p, f, n));
            &&& r.plastic_volume_ratio == q.plastic_volume_ratio
            &&& r.deformation_gradient == q.deformation_gradient
            &&& q.plastic_volume_ratio.le(Binary32::one()) ==> q.hardening_scale.le(
                r.hardening_scale,
            )
            &&& Binary32::one().le(q.plastic_volume_ratio) ==> r.hardening_scale.le(
                q.hardening_scale,
            )
        }),
{
    let other = GranularFluidMaterial { hardening_exponent: exponent, ..m };
    let (q, r) = (m.returned(p, f, n), other.returned(p, f, n));
    let jp = q.plastic_volume_ratio;
    let one = Binary32::one();
    let d = one.sub(jp);
    let (a, b) = (m.hardening_exponent, exponent);
    lemma_moderate(jp);
    lemma_single_constants();
    assert(other.plastic_ratio(p.plastic_volume_ratio, n.svd_of(f).1) == jp);
    law_finite_product_is_a_number(a, d);
    law_finite_product_is_a_number(b, d);
    if jp.le(one) {
        if jp.lt(one) {
            law_positive_difference(one, jp);
        } else {
            assert(jp == one);
            law_cancellation(one);
        }
        law_multiplication_is_monotone(a, b, d);
        lemma_scales_in_order(
            n.unary_of(Unary::Exp, a.mul(d)),
            n.unary_of(Unary::Exp, b.mul(d)),
        );
    }
    if one.lt(jp) {
        lemma_negative_factor(a, b, jp);
        lemma_scales_in_order(
            n.unary_of(Unary::Exp, b.mul(d)),
            n.unary_of(Unary::Exp, a.mul(d)),
        );
    } else if one.le(jp) {
        assert(jp == one);
        law_cancellation(one);
        law_zero_absorbs(d, a);
        law_zero_absorbs(d, b);
        lemma_scales_in_order(
            n.unary_of(Unary::Exp, b.mul(d)),
            n.unary_of(Unary::Exp, a.mul(d)),
        );
    }
}

/// A factor below zero turns the order round.
proof fn lemma_negative_factor(a: Binary32, b: Binary32, jp: Binary32)
    requires
        a.is_finite() && b.is_finite(),
        a.le(b),
        Binary32::one().lt(jp),
        Binary32::one().sub(jp).is_finite(),
    ensures
        b.mul(Binary32::one().sub(jp)).le(a.mul(Binary32::one().sub(jp))),
{
    let one = Binary32::one();
    let d = one.sub(jp);
    lemma_single_constants();
    lemma_finite_parts(one, jp);
    law_positive_difference(jp, one);
    law_reversed_difference(jp, one);
    if d.eq(Binary32::zero()) {
        law_zero_absorbs(d, a);
        law_zero_absorbs(d, b);
    } else {
        lemma_opposite_factor(a, b, d);
    }
}

/// A negative factor turns the order round.
proof fn lemma_opposite_factor(a: Binary32, b: Binary32, d: Binary32)
    requires
        a.is_finite() && b.is_finite() && d.is_finite(),
        a.le(b),
        d.bits >= 0x8000_0000,
    ensures
        b.mul(d).le(a.mul(d)),
{
    lemma_single_constants();
    let e = d.neg();
    law_finite_product_is_a_number(a, d);
    law_finite_product_is_a_number(b, d);
    law_finite_product_is_a_number(a, e);
    law_finite_product_is_a_number(b, e);
    law_finite_product_is_a_number(d, a);
    law_finite_product_is_a_number(d, b);
    law_multiplication_is_monotone(a, b, e);
    law_multiplication_commutes(a, d);
    law_multiplication_commutes(b, d);
    law_multiplication_commutes(a, e);
    law_multiplication_commutes(b, e);
    law_negated_factor(d, a);
    law_negated_factor(d, b);
}

/// Compaction hardens: of two returned states of one material, the more compacted one has no
/// smaller scale.
pub proof fn law_compaction_hardens<N: Numerics>(
    m: GranularFluidMaterial,
    p: Particle,
    f: Mat2,
    q: Particle,
    g: Mat2,
    n: &N,
)
    requires
        m.is_plastic(),
        m.hardening_exponent.is_finite(),
        m.hardening_exponent.bits < 0x8000_0000,
        exponential_grows(n),
        is_moderate(m.returned(p, f, n).plastic_volume_ratio),
        is_moderate(m.returned(q, g, n).plastic_volume_ratio),
        m.returned(p, f, n).plastic_volume_ratio.le(m.returned(q, g, n).plastic_volume_ratio),
    ensures
        m.returned(q, g, n).hardening_scale.le(m.returned(p, f, n).hardening_scale),
{
    let one = Binary32::one();
    let (i, j) = (m.returned(p, f, n).plastic_volume_ratio, m.returned(
        q,
        g,
        n,
    ).plastic_volume_ratio);
    let x = m.hardening_exponent;
    lemma_moderate(i);
    lemma_moderate(j);
    lemma_single_constants();
    law_subtraction_is_antitone(one, i, j);
    let (d, e) = (one.sub(i), one.sub(j));
    law_finite_product_is_a_number(d, x);
    law_finite_product_is_a_number(e, x);
    law_multiplication_is_monotone(e, d, x);
    law_multiplication_commutes(d, x);
    law_multiplication_commutes(e, x);
    lemma_scales_in_order(n.unary_of(Unary::Exp, x.mul(e)), n.unary_of(Unary::Exp, x.mul(d)));
}

/// The logarithm of a scale between its bounds is the exponent times the compaction
/// `1 - Jp`, for every function that undoes the exponential.
pub proof fn law_hardening_is_exponential<N: Numerics>(
    m: GranularFluidMaterial,
    p: Particle,
    f: Mat2,
    log: spec_fn(Binary32) -> real,
    n: &N,
)
    requires
        m.is_plastic(),
        is_moderate(m.returned(p, f, n).plastic_volume_ratio),
        m.hardening_exponent.mul(
            Binary32::one().sub(m.returned(p, f, n).plastic_volume_ratio),
        ).is_finite(),
        forall|x: Binary32|
            x.is_finite() ==> log(#[trigger] n.unary_of(Unary::Exp, x)) == x.amount(),
        Binary32::one().lt(m.returned(p, f, n).hardening_scale),
        m.returned(p, f, n).hardening_scale.lt(Binary32::from_bits(HARDENING_MAX)),
    ensures
        ({
            let q = m.returned(p, f, n);
            let (x, jp) = (m.hardening_exponent, q.plastic_volume_ratio);
            off(log(q.hardening_scale), x.amount() * (1real - jp.amount())) <= 4real * (weight(x)
                * (1real + weight(jp)))
        }),
{
    let q = m.returned(p, f, n);
    let (x, jp) = (m.hardening_exponent, q.plastic_volume_ratio);
    lemma_moderate(jp);
    lemma_single_constants();
    lemma_units();
    lemma_finite_parts(x, Binary32::one().sub(jp));
    lemma_of(x);
    lemma_of(jp);
    let u = Estimate::unit(Binary32::one());
    lemma_minus(u, Estimate::of(jp));
    lemma_times(Estimate::of(x), u.minus(Estimate::of(jp)));
    assert(q.hardening_scale == n.unary_of(Unary::Exp, x.mul(Binary32::one().sub(jp))));
}

/// The plastic volume ratio takes up what the clamp took off the volume: times the volume that
/// is left it is the old one times the volume of the trial.
pub proof fn law_clamped_volume_is_kept<N: Numerics>(
    m: GranularFluidMaterial,
    p: Particle,
    f: Mat2,
    n: &N,
)
    requires
        m.is_plastic(),
        ({
            let sigma = n.svd_of(f).1;
            let c = m.clamped_sigma(sigma);
            let left = c.x.mul(c.y);
            let whole = p.plastic_volume_ratio.mul(sigma.x.mul(sigma.y));
            &&& left.is_finite() && Binary32::from_bits(MIN_SIGMA_PRODUCT).le(left)
            &&& whole.is_finite() && whole.div(left).is_finite()
        }),
        m.min_plastic_jacobian.lt(m.returned(p, f, n).plastic_volume_ratio),
        m.returned(p, f, n).plastic_volume_ratio.lt(m.max_plastic_jacobian),
    ensures
        ({
            let sigma = n.svd_of(f).1;
            let c = m.clamped_sigma(sigma);
            let left = c.x.mul(c.y).amount();
            let whole = p.plastic_volume_ratio.mul(sigma.x.mul(sigma.y)).amount();
            off(m.returned(p, f, n).plastic_volume_ratio.amount() * left, whole) <= size(whole)
                + dust() * left
        }),
{
    let sigma = n.svd_of(f).1;
    let c = m.clamped_sigma(sigma);
    let left = c.x.mul(c.y);
    let whole = p.plastic_volume_ratio.mul(sigma.x.mul(sigma.y));
    lemma_single_constants();
    lemma_constant_amounts();
    law_order_of_amounts(Binary32::zero(), left);
    law_quotient_multiplies_back(whole, left);
    assert(left.max(Binary32::from_bits(MIN_SIGMA_PRODUCT)) == left);
}

/// A return to the limits keeps the principal directions and clamps each stretch along its own;
/// without limits the trial deformation stays.
pub proof fn law_return_keeps_directions<N: Numerics>(
    m: GranularFluidMaterial,
    p: Particle,
    f: Mat2,
    n: &N,
)
    ensures
        ({
            let (u, sigma, vt) = n.svd_of(f);
            let q = m.returned(p, f, n);
            let c = m.clamped_sigma(sigma);
            &&& m.is_plastic() ==> q.deformation_gradient == u.mul(Mat2::from_diagonal(c)).mul(vt)
                && c.x == sigma.x.clamp(m.sigma_min(), m.sigma_max()) && c.y == sigma.y.clamp(
                m.sigma_min(),
                m.sigma_max(),
            )
            &&& !m.is_plastic() ==> q.deformation_gradient == f && q.plastic_volume_ratio
                == p.plastic_volume_ratio && q.hardening_scale == p.hardening_scale
            &&& q == (Particle {
                plastic_volume_ratio: q.plastic_volume_ratio,
                hardening_scale: q.hardening_scale,
                ..with_deformation(p, q.deformation_gradient)
            })
        }),
{
}

} // verus!
