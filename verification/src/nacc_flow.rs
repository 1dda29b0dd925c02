use vstd::prelude::*;

use crate::binary::around::Estimate;
use crate::binary::around::law_quotient_multiplies_back;
use crate::binary::around::lemma_finite_parts;
use crate::binary::around::lemma_halved;
use crate::binary::around::lemma_minus;
use crate::binary::around::lemma_of;
use crate::binary::around::lemma_opposite;
use crate::binary::around::lemma_times;
use crate::binary::around::weight;
use crate::binary::double::Binary64;
use crate::binary::double::lemma_double_constants;
use crate::binary::error::law_difference_is_near;
use crate::binary::error::law_order_of_amounts;
use crate::binary::error::law_sum_is_near;
use crate::binary::error::lemma_constant_amounts;
use crate::binary::error::near;
use crate::binary::error::off;
use crate::binary::error::size;
use crate::binary::laws::law_addition_commutes;
use crate::binary::laws::law_addition_is_monotone;
use crate::binary::laws::law_division_is_monotone;
use crate::binary::laws::law_finite_product_is_a_number;
use crate::binary::laws::law_finite_quotient_is_a_number;
use crate::binary::laws::law_multiplication_commutes;
use crate::binary::laws::law_multiplication_is_monotone;
use crate::binary::laws::law_narrowing_keeps_the_sign;
use crate::binary::laws::law_non_negative_steps;
use crate::binary::laws::law_self_quotient_is_one;
use crate::binary::relative::dust;
use crate::binary::relative::lemma_dust;
use crate::binary::single::Binary32;
use crate::binary::single::half;
use crate::binary::single::lemma_single_constants;
use crate::linalg::Mat2;
use crate::linalg::Vec2;
use crate::nacc::NaccMaterial;
use crate::nacc::P0_OFFSET;
use crate::nacc::Region;
use crate::nacc::Trial;
use crate::numerics::Numerics;
use crate::numerics::Unary;

verus! {

/// The logarithm of a number of at least one is not negative.
pub open spec fn logarithms_have_their_sign<N: Numerics>(n: &N) -> bool {
    forall|x: Binary32|
        Binary32::one().le(x) ==> Binary32::zero().le(#[trigger] n.unary_of(Unary::Ln, x))
}

/// The hyperbolic sine grows.
pub open spec fn hyperbolic_sine_grows<N: Numerics>(n: &N) -> bool {
    forall|x: Binary32, y: Binary32|
        x.le(y) ==> (#[trigger] n.unary_of(Unary::Sinh, x)).le(
            #[trigger] n.unary_of(Unary::Sinh, y),
        )
}

/// The preconsolidation falls as the plastic log volume strain grows: dilation softens.
pub proof fn law_dilation_softens<N: Numerics>(
    m: NaccMaterial,
    alpha: Binary32,
    dilated: Binary32,
    n: &N,
)
    requires
        alpha.le(dilated),
        hyperbolic_sine_grows(n),
        m.kappa.bits < 0x8000_0000,
        m.hardening_factor.bits < 0x8000_0000,
        m.hardening_factor.is_finite(),
        dilated.is_finite() && alpha.is_finite(),
        m.preconsolidation(alpha, n).is_finite(),
        m.preconsolidation(dilated, n).is_finite(),
    ensures
        m.preconsolidation(dilated, n).le(m.preconsolidation(alpha, n)),
{
    let z = Binary32::zero();
    let offset = Binary32::from_bits(P0_OFFSET);
    let (x, y) = (dilated.neg().max(z), alpha.neg().max(z));
    let h = m.hardening_factor;
    lemma_single_constants();
    assert(x.le(y));
    law_multiplication_commutes(x, h);
    law_multiplication_commutes(y, h);
    law_finite_product_is_a_number(x, h);
    law_finite_product_is_a_number(y, h);
    law_multiplication_is_monotone(x, y, h);
    let (s, t) = (n.unary_of(Unary::Sinh, h.mul(x)), n.unary_of(Unary::Sinh, h.mul(y)));
    lemma_finite_parts(m.kappa, offset.add(s));
    lemma_finite_parts(m.kappa, offset.add(t));
    lemma_finite_parts(offset, s);
    lemma_finite_parts(offset, t);
    law_addition_commutes(offset, s);
    law_addition_commutes(offset, t);
    law_addition_is_monotone(s, t, offset);
    law_multiplication_commutes(offset.add(s), m.kappa);
    law_multiplication_commutes(offset.add(t), m.kappa);
    law_multiplication_is_monotone(offset.add(s), offset.add(t), m.kappa);
}

/// A return from beyond the tensile tip never hardens the soil: where it does not expand the
/// soil, the plastic log volume strain does not fall.
pub proof fn law_tip_return_never_hardens<N: Numerics>(
    m: NaccMaterial,
    f: Mat2,
    alpha: Binary32,
    cohesion_bonus_pa: Binary32,
    n: &N,
)
    requires
        m.region(&m.trial_of(f, alpha, cohesion_bonus_pa, n)) == Region::Tip,
        m.hardening_enabled,
        logarithms_have_their_sign(n),
        alpha.is_finite(),
        ({
            let t = m.trial_of(f, alpha, cohesion_bonus_pa, n);
            &&& m.ratio_at_tip(t.shift).le(t.j)
            &&& m.ratio_at_tip(t.shift).is_finite()
            &&& Binary32::zero().lt(m.ratio_at_tip(t.shift))
            &&& t.j.is_finite()
        }),
    ensures
        alpha.le(m.projected(f, alpha, cohesion_bonus_pa, n).1),
        hyperbolic_sine_grows(n) && m.kappa.bits < 0x8000_0000 && m.hardening_factor.bits
            < 0x8000_0000 && m.hardening_factor.is_finite() && m.preconsolidation(
            alpha,
            n,
        ).is_finite() && m.projected(f, alpha, cohesion_bonus_pa, n).1.is_finite()
            && m.preconsolidation(
            m.projected(f, alpha, cohesion_bonus_pa, n).1,
            n,
        ).is_finite() ==> m.preconsolidation(
            m.projected(f, alpha, cohesion_bonus_pa, n).1,
            n,
        ).le(m.preconsolidation(alpha, n)),
{
    let t = m.trial_of(f, alpha, cohesion_bonus_pa, n);
    let r = m.ratio_at_tip(t.shift);
    lemma_single_constants();
    law_self_quotient_is_one(r);
    law_finite_quotient_is_a_number(t.j, r);
    law_division_is_monotone(r, t.j, r);
    law_non_negative_steps(alpha, n.unary_of(Unary::Ln, t.j.div(r)));
    let a = m.projected(f, alpha, cohesion_bonus_pa, n).1;
    if hyperbolic_sine_grows(n) && m.kappa.bits < 0x8000_0000 && m.hardening_factor.bits
        < 0x8000_0000 && m.hardening_factor.is_finite() && m.preconsolidation(
        alpha,
        n,
    ).is_finite() && a.is_finite() && m.preconsolidation(a, n).is_finite() {
        law_dilation_softens(m, alpha, a, n);
    }
}

/// Volume is accounted for at the tip: the plastic log volume strain grows by the logarithm of
/// the trial volume ratio over the returned one, and the returned deformation has that ratio.
pub proof fn law_tip_return_accounts_for_volume<N: Numerics>(
    m: NaccMaterial,
    f: Mat2,
    alpha: Binary32,
    cohesion_bonus_pa: Binary32,
    n: &N,
) -> (ratio: Binary32)
    requires
        m.region(&m.trial_of(f, alpha, cohesion_bonus_pa, n)) == Region::Tip,
        m.hardening_enabled,
        m.projected(f, alpha, cohesion_bonus_pa, n).1.is_finite(),
    ensures
        ({
            let t = m.trial_of(f, alpha, cohesion_bonus_pa, n);
            let gain = n.unary_of(Unary::Ln, t.j.div(ratio));
            let (g, a) = m.projected(f, alpha, cohesion_bonus_pa, n);
            let s = n.pow_of(ratio, half());
            &&& ratio == m.ratio_at_tip(t.shift)
            &&& near(a.amount(), alpha.amount() + gain.amount())
            &&& g == t.u.mul(Mat2::from_diagonal(Vec2 { x: s, y: s })).mul(t.vt)
        }),
{
    let t = m.trial_of(f, alpha, cohesion_bonus_pa, n);
    let ratio = m.ratio_at_tip(t.shift);
    let gain = n.unary_of(Unary::Ln, t.j.div(ratio));
    lemma_finite_parts(alpha, gain);
    law_sum_is_near(alpha, gain);
    ratio
}

/// Beyond the ellipse a plastic dilation softens the soil, by just that dilation.
pub proof fn law_dry_return_never_hardens<N: Numerics>(
    m: NaccMaterial,
    f: Mat2,
    alpha: Binary32,
    cohesion_bonus_pa: Binary32,
    n: &N,
)
    requires
        m.region(&m.trial_of(f, alpha, cohesion_bonus_pa, n)) == Region::Outside,
        alpha.is_finite(),
        ({
            let ray = NaccMaterial::ray_of(
                m.trial_of(f, alpha, cohesion_bonus_pa, n),
                cohesion_bonus_pa,
            );
            Binary64::zero().le(m.increment_at(ray, alpha.to_double(), n))
        }),
    ensures
        alpha.le(m.projected(f, alpha, cohesion_bonus_pa, n).1),
{
    let t = m.trial_of(f, alpha, cohesion_bonus_pa, n);
    let ray = NaccMaterial::ray_of(t, cohesion_bonus_pa);
    let start = m.increment_at(ray, alpha.to_double(), n);
    lemma_single_constants();
    lemma_double_constants();
    law_narrowing_keeps_the_sign(start);
    law_non_negative_steps(alpha, start.to_single());
}

/// Pressure resists a change of volume: it is `(kappa / 2) (1 - J^2)`.
pub proof fn law_pressure_resists_volume_change(m: NaccMaterial, j: Binary32)
    requires
        m.pressure_at(j).is_finite(),
        Binary32::zero().lt(j),
        Binary32::one().div(j).is_finite(),
    ensures
        off(
            m.pressure_at(j).amount(),
            (m.kappa.amount() / 2real) * (1real - j.amount() * j.amount()),
        ) <= 20real * ((weight(m.kappa) * (weight(j) + weight(Binary32::one().div(j)))) * weight(j)),
{
    let q = Binary32::one().div(j);
    let d = j.sub(q);
    let h = m.kappa.mul(half());
    lemma_finite_parts(h.mul(d).neg(), j);
    lemma_finite_parts(h.mul(d), j);
    lemma_finite_parts(h, d);
    lemma_finite_parts(j, q);
    lemma_finite_parts(m.kappa, half());
    lemma_single_constants();
    lemma_constant_amounts();
    law_order_of_amounts(Binary32::zero(), j);
    law_quotient_multiplies_back(Binary32::one(), j);
    lemma_of(m.kappa);
    lemma_of(j);
    lemma_of(q);
    let k = Estimate::of(m.kappa).halved();
    lemma_halved(Estimate::of(m.kappa));
    let e = Estimate::of(j).minus(Estimate::of(q));
    lemma_minus(Estimate::of(j), Estimate::of(q));
    lemma_times(k, e);
    lemma_opposite(k.times(e));
    let r = k.times(e).opposite().times(Estimate::of(j));
    lemma_times(k.times(e).opposite(), Estimate::of(j));
    lemma_pressure_algebra(
        k.exact,
        j.amount(),
        q.amount(),
        weight(m.kappa),
        weight(j),
        weight(q),
        r.exact,
    );
    let scale = r.scale;
    assert(r.parts * scale <= 10real * scale) by (nonlinear_arith)
        requires
            r.parts <= 10real,
            scale >= 0real,
    ;
}

/// `-(k (j - q)) j` is `k (1 - j^2)` where `q j` is one.
proof fn lemma_pressure_algebra(
    k: real,
    j: real,
    q: real,
    wk: real,
    wj: real,
    wq: real,
    exact: real,
)
    requires
        exact == (-(k * (j - q))) * j,
        off(q * j, 1real) <= 1real + dust() * j,
        size(k) <= wk,
        0real < j <= wj,
        1real <= wk && 1real <= wj && 1real <= wq,
    ensures
        off(exact, k * (1real - j * j)) <= 2real * ((wk * (wj + wq)) * wj),
{
    lemma_dust();
    let e = q * j - 1real;
    let jj = j * j;
    assert(exact == k * (1real - jj) + k * e) by (nonlinear_arith)
        requires
            exact == (-(k * (j - q))) * j,
            e == q * j - 1real,
            jj == j * j,
    ;
    assert(size(k * e) == size(k) * size(e)) by (nonlinear_arith);
    let dj = dust() * j;
    assert(dj <= j) by (nonlinear_arith)
        requires
            dj == dust() * j,
            0real < dust() <= 1real,
            j > 0real,
    ;
    let t = size(k) * size(e);
    assert(8388608real * t <= wk * (1real + wj)) by (nonlinear_arith)
        requires
            8388608real * size(e) <= 1real + wj,
            0real <= size(k) <= wk,
            t == size(k) * size(e),
            size(e) >= 0real,
            wj >= 1real,
    ;
    let w = wk * (wj + wq);
    assert(wk * (1real + wj) <= w) by (nonlinear_arith)
        requires
            w == wk * (wj + wq),
            wk >= 0real,
            wq >= 1real,
    ;
    assert(w <= w * wj && w >= 0real) by (nonlinear_arith)
        requires
            w == wk * (wj + wq),
            wk >= 1real,
            wj >= 1real,
            wq >= 1real,
    ;
}

/// Volume is accounted for at the cap: the plastic log volume strain falls by the compaction of
/// the return, and the returned deformation has the returned ratio; without hardening it is
/// that of the cap and the strain stays.
pub proof fn law_cap_return_accounts_for_volume<N: Numerics>(
    m: NaccMaterial,
    f: Mat2,
    alpha: Binary32,
    cohesion_bonus_pa: Binary32,
    n: &N,
) -> (ratio: Binary32)
    requires
        m.region(&m.trial_of(f, alpha, cohesion_bonus_pa, n)) == Region::Cap,
        m.projected(f, alpha, cohesion_bonus_pa, n).1.is_finite(),
    ensures
        ({
            let t = m.trial_of(f, alpha, cohesion_bonus_pa, n);
            let back = m.cap_returned(t.j, m.ratio_at_cap(t.p0), alpha, n);
            let (g, a) = m.projected(f, alpha, cohesion_bonus_pa, n);
            let s = n.pow_of(ratio, half());
            &&& if m.hardening_enabled {
                &&& ratio == back.0
                &&& near(a.amount(), alpha.amount() - back.1.amount())
            } else {
                &&& ratio == m.ratio_at_cap(t.p0)
                &&& a == alpha
            }
            &&& g == t.u.mul(Mat2::from_diagonal(Vec2 { x: s, y: s })).mul(t.vt)
        }),
{
    let t = m.trial_of(f, alpha, cohesion_bonus_pa, n);
    let back = m.cap_returned(t.j, m.ratio_at_cap(t.p0), alpha, n);
    if m.hardening_enabled {
        lemma_finite_parts(alpha, back.1);
        law_difference_is_near(alpha, back.1);
        back.0
    } else {
        m.ratio_at_cap(t.p0)
    }
}

/// A return to the ellipse keeps the principal directions and takes the stretches of the
/// ellipse, each along its own direction, at the pressure part and the strain of the hardening.
pub proof fn law_ellipse_return_keeps_directions<N: Numerics>(
    m: NaccMaterial,
    f: Mat2,
    alpha: Binary32,
    cohesion_bonus_pa: Binary32,
    n: &N,
)
    requires
        m.region(&m.trial_of(f, alpha, cohesion_bonus_pa, n)) == Region::Outside,
    ensures
        ({
            let t = m.trial_of(f, alpha, cohesion_bonus_pa, n);
            let (y1, a) = m.hardening_outcome(t, alpha, cohesion_bonus_pa, n);
            let b = m.ellipse_stretches(&t, y1);
            let s = Vec2 { x: NaccMaterial::stretch(b.x), y: NaccMaterial::stretch(b.y) };
            let (g, end) = m.projected(f, alpha, cohesion_bonus_pa, n);
            &&& g == t.u.mul(Mat2::from_diagonal(s)).mul(t.vt)
            &&& end == a
            &&& !m.hardening_enabled ==> end == alpha && y1 == m.y1(t.p, t.shift, t.p0)
        }),
{
}

/// The share of a return that hardens on the wet side: where the first increment compacts, the
/// strain and the pressure part are those of the grown surface.
pub proof fn law_wet_return_hardens<N: Numerics>(
    m: NaccMaterial,
    t: Trial,
    alpha: Binary32,
    cohesion_bonus_pa: Binary32,
    n: &N,
)
    requires
        m.hardens(&t),
        m.increment_at(
            NaccMaterial::ray_of(t, cohesion_bonus_pa),
            alpha.to_double(),
            n,
        ).lt(Binary64::zero()),
    ensures
        ({
            let (y1, a) = m.hardening_outcome(t, alpha, cohesion_bonus_pa, n);
            let p0 = m.preconsolidation(a, n);
            let shift = m.cohesion.mul(p0).add(cohesion_bonus_pa);
            y1 == m.friction.mul(m.friction).mul(t.p.add(shift)).mul(t.p.sub(p0))
        }),
{
}

} // verus!
