use vstd::prelude::*;

use crate::binary::error::law_order_of_all_amounts;
use crate::binary::error::law_order_of_amounts;
use crate::binary::error::lemma_constant_amounts;
use crate::binary::error::lemma_twice_is_finite;
use crate::binary::error::size;
use crate::binary::laws::law_addition_commutes;
use crate::binary::laws::law_addition_is_monotone;
use crate::binary::laws::law_division_is_monotone;
use crate::binary::laws::law_doubling_keeps_the_sign;
use crate::binary::laws::law_finite_difference_is_a_number;
use crate::binary::laws::law_finite_product_is_a_number;
use crate::binary::laws::law_finite_quotient_is_a_number;
use crate::binary::laws::law_multiplication_commutes;
use crate::binary::laws::law_multiplication_is_monotone;
use crate::binary::laws::law_non_negative_steps;
use crate::binary::laws::law_order_is_value_order;
use crate::binary::laws::law_positive_difference;
use crate::binary::laws::law_positive_difference_is_finite;
use crate::binary::laws::law_square_is_not_negative;
use crate::binary::laws::law_zero_absorbs;
use crate::binary::laws::law_zero_adds_nothing;
use crate::binary::laws::law_zero_divided;
use crate::binary::single::Binary32;
use crate::binary::single::half;
use crate::binary::single::lemma_single_constants;
use crate::binary::single::two;
use crate::cavitating_curve::law_built_curve_is_chained;
use crate::cavitating_curve::lemma_doubled_below;
use crate::cavitating_eos::Branch;
use crate::cavitating_eos::C1Patch;
use crate::cavitating_eos::CavitatingEosParams;
use crate::cavitating_eos::EosBranchInputs;
use crate::cavitating_eos::EosError;
use crate::cavitating_eos::law_band_is_ordered;
use crate::cavitating_eos::law_eos_is_sound;
use crate::cavitating_eos::law_liquid_stiffens;
use crate::cavitating_eos::law_mid_band_is_saturated;
use crate::cavitating_eos::law_mixture_stiffens;
use crate::cavitating_eos::law_patches_meet_their_branches;
use crate::cavitating_eos::law_vapor_stiffens;
use crate::cavitating_eos::rank;
use crate::cavitating_patch::large;
use crate::cavitating_patch::law_patch_pressure_rises;
use crate::cavitating_patch::lemma_slack_is_positive;
use crate::numerics::Numerics;
use crate::numerics::Unary;

verus! {

/// The arcsine and the power of the vapour law grow, as the exact ones do, and no power of
/// what is not negative is negative.
pub open spec fn routines_grow<N: Numerics>(inputs: EosBranchInputs, n: &N) -> bool {
    &&& forall|x: Binary32, y: Binary32|
        Binary32::zero().le(x) && x.le(y) ==> {
            &&& Binary32::zero().le(#[trigger] n.pow_of(x, inputs.gamma_v))
            &&& n.pow_of(x, inputs.gamma_v).le(#[trigger] n.pow_of(y, inputs.gamma_v))
        }
    &&& forall|x: Binary32, y: Binary32|
        Binary32::one().neg().le(x) && x.le(y) && y.le(Binary32::one()) ==> {
            &&& (#[trigger] n.unary_of(Unary::Asin, x)).le(#[trigger] n.unary_of(Unary::Asin, y))
            &&& n.unary_of(Unary::Asin, x).is_finite()
            &&& n.unary_of(Unary::Asin, y).is_finite()
        }
}

impl C1Patch {
    /// Slopes and width are below `2^30`, pressures below `2^60`.
    pub open spec fn is_small(&self) -> bool {
        &&& self.width.amount() <= large()
        &&& self.m0.amount() <= large()
        &&& self.m1.amount() <= large()
        &&& size(self.p0.amount()) <= large() * large()
        &&& size(self.p1.amount()) <= large() * large()
    }
}

/// What is finite after an operation was finite before it.
proof fn lemma_finite_before(a: Binary32, b: Binary32)
    ensures
        a.mul(b).is_finite() ==> a.is_finite() && b.is_finite(),
        a.add(b).is_finite() ==> a.is_finite() && b.is_finite(),
        a.sub(b).is_finite() ==> a.is_finite() && b.is_finite(),
{
    reveal(Binary32::spec_mul);
    reveal(Binary32::spec_add);
    reveal(Binary32::spec_sub);
    lemma_single_constants();
}

impl CavitatingEosParams {
    /// The factor of the arcsine in the pressure of the mixture.
    pub open spec fn amplitude(&self) -> Binary32 {
        self.c_min_m_s.mul(self.c_min_m_s).mul(
            self.rho_m_plus_kg_m3.sub(self.rho_m_minus_kg_m3),
        ).mul(half())
    }

    /// What the mixture rises between the right end of the vapour patch and the density
    /// that the patch was meant to end at: nothing but the rounding of that end.
    pub open spec fn end_gap<N: Numerics>(&self, n: &N) -> real {
        let v = self.patch_vapor_junction;
        let gap = v.p1.amount() - self.band().pressure_at(v.right(), n).amount();
        if gap < 0real {
            0real
        } else {
            gap
        }
    }

    /// How far rounding may take the pressure back from one density to a denser one: within
    /// a patch its slack, over the end of the vapour patch the rise of the mixture over the
    /// rounding of that end, and else nothing.
    pub open spec fn slack<N: Numerics>(&self, rho: Binary32, denser: Binary32, n: &N) -> real {
        match (self.branch(rho), self.branch(denser)) {
            (Branch::VaporPatch, Branch::VaporPatch) => self.patch_vapor_junction.slack(),
            (Branch::LiquidPatch, Branch::LiquidPatch) => self.patch_liquid_junction.slack(),
            (Branch::Vapor, Branch::Mixture) => self.end_gap(n),
            (Branch::VaporPatch, Branch::Mixture) => self.end_gap(n),
            _ => 0real,
        }
    }
}

/// The constants of an equation of state that could be set up are finite.
proof fn lemma_built_is_finite<N: Numerics>(
    inputs: EosBranchInputs,
    p_v_gauge_pa: Binary32,
    eos: CavitatingEosParams,
    edge: Binary32,
    n: &N,
)
    requires
        inputs.eos(p_v_gauge_pa, n) == Ok::<CavitatingEosParams, EosError>(eos),
        eos.is_chained(edge, n),
    ensures
        eos.b_pa.is_finite(),
        eos.b_pa.gt(Binary32::zero()),
        eos.amplitude().is_finite(),
        eos.p_v_gauge_pa.is_finite(),
        eos.p_v_gauge_pa == p_v_gauge_pa,
        eos.rho_l_ref_kg_m3.is_finite(),
        eos.c_l_m_s.mul(eos.c_l_m_s).is_finite(),
        eos.c_l_m_s.mul(eos.c_l_m_s).gt(Binary32::zero()),
        eos.patch_vapor_junction.p0.is_finite(),
        eos.patch_vapor_junction.p1.is_finite(),
        eos.patch_liquid_junction.p1.is_finite(),
        eos.branches() == inputs,
        n.pow_of(
            eos.patch_vapor_junction.rho_left.div(inputs.rho_v_ref_kg_m3),
            inputs.gamma_v,
        ).is_finite(),
{
    lemma_single_constants();
    law_band_is_ordered(inputs, p_v_gauge_pa, n);
    law_eos_is_sound(inputs, p_v_gauge_pa, n);
    law_patches_meet_their_branches(inputs, p_v_gauge_pa, n);
    let v = eos.patch_vapor_junction;
    let l = eos.patch_liquid_junction;
    lemma_finite_before(v.integral(v.right()), v.p1);
    lemma_finite_before(l.integral(l.right()), l.p1);
    lemma_finite_before(v.p0, v.integral(v.rho_left));
    let s = n.unary_of(
        Unary::Asin,
        eos.band().position(edge).clamp(Binary32::one().neg(), Binary32::one()),
    );
    lemma_finite_before(eos.p_v_gauge_pa, eos.amplitude().mul(s));
    lemma_finite_before(eos.amplitude(), s);
    let c2 = eos.c_l_m_s.mul(eos.c_l_m_s);
    lemma_finite_before(c2, l.right().sub(eos.rho_l_ref_kg_m3));
    lemma_finite_before(l.right(), eos.rho_l_ref_kg_m3);
    let power = n.pow_of(v.rho_left.div(inputs.rho_v_ref_kg_m3), inputs.gamma_v);
    lemma_finite_before(eos.b_pa, power.sub(Binary32::one()));
    lemma_finite_before(power, Binary32::one());
}

/// In the middle of the band of an equation of state that could be set up the mixture has
/// the saturation pressure, where the arcsine of zero is zero. Asked for is what
/// [`law_built_curve_is_chained`] asks for.
pub proof fn law_built_mid_band_is_saturated<N: Numerics>(
    inputs: EosBranchInputs,
    p_v_gauge_pa: Binary32,
    eos: CavitatingEosParams,
    n: &N,
)
    requires
        inputs.eos(p_v_gauge_pa, n) == Ok::<CavitatingEosParams, EosError>(eos),
        0x3200_0000 <= eos.rho_m_minus_kg_m3.bits,
        eos.rho_m_plus_kg_m3.bits < 0x7e80_0000,
        forall|x: Binary32|
            x.eq(Binary32::zero()) ==> (#[trigger] n.unary_of(Unary::Asin, x)).eq(
                Binary32::zero(),
            ),
    ensures
        eos.pressure_at(eos.mid_band(), n).eq(p_v_gauge_pa),
        eos.pressure_at(eos.mid_band(), n).is_finite(),
        eos.pressure_at(eos.mid_band(), n).amount() == p_v_gauge_pa.amount(),
{
    lemma_single_constants();
    let edge = law_built_curve_is_chained(inputs, p_v_gauge_pa, eos, n);
    lemma_built_is_finite(inputs, p_v_gauge_pa, eos, edge, n);
    let plus = eos.rho_m_plus_kg_m3;
    let minus = eos.rho_m_minus_kg_m3;
    law_band_is_ordered(inputs, p_v_gauge_pa, n);
    law_order_is_value_order(minus, plus);
    law_order_is_value_order(Binary32::zero(), minus);
    lemma_doubled_below(plus);
    law_finite_difference_is_a_number(plus, minus);
    law_finite_difference_is_a_number(plus, plus);
    law_addition_commutes(plus, minus);
    law_addition_is_monotone(minus, plus, plus);
    law_non_negative_steps(plus, minus);
    law_mid_band_is_saturated(eos, n);
    law_order_of_amounts(eos.pressure_at(eos.mid_band(), n), p_v_gauge_pa);
}

/// The vapour rises up to its patch.
proof fn lemma_vapor_rises<N: Numerics>(
    inputs: EosBranchInputs,
    p_v_gauge_pa: Binary32,
    eos: CavitatingEosParams,
    edge: Binary32,
    x: Binary32,
    y: Binary32,
    n: &N,
)
    requires
        inputs.eos(p_v_gauge_pa, n) == Ok::<CavitatingEosParams, EosError>(eos),
        eos.is_chained(edge, n),
        routines_grow(inputs, n),
        Binary32::zero().le(x),
        x.le(y),
        y.le(eos.patch_vapor_junction.rho_left),
        eos.patch_vapor_junction.rho_left.is_finite(),
    ensures
        inputs.vapor_pressure_at(x, eos.b_pa, n).le(inputs.vapor_pressure_at(y, eos.b_pa, n)),
{
    lemma_single_constants();
    lemma_built_is_finite(inputs, p_v_gauge_pa, eos, edge, n);
    let v = eos.patch_vapor_junction.rho_left;
    let r = inputs.rho_v_ref_kg_m3;
    law_zero_divided(r);
    law_finite_quotient_is_a_number(x, r);
    law_finite_quotient_is_a_number(y, r);
    law_finite_quotient_is_a_number(v, r);
    law_division_is_monotone(Binary32::zero(), x, r);
    law_division_is_monotone(Binary32::zero(), y, r);
    law_division_is_monotone(x, v, r);
    law_division_is_monotone(y, v, r);
    assert(n.pow_of(x.div(r), inputs.gamma_v).le(n.pow_of(v.div(r), inputs.gamma_v)));
    assert(n.pow_of(y.div(r), inputs.gamma_v).le(n.pow_of(v.div(r), inputs.gamma_v)));
    law_vapor_stiffens(inputs, eos.b_pa, x, y, n);
}

/// The mixture rises between its edges.
proof fn lemma_mixture_rises<N: Numerics>(
    inputs: EosBranchInputs,
    p_v_gauge_pa: Binary32,
    eos: CavitatingEosParams,
    edge: Binary32,
    x: Binary32,
    y: Binary32,
    n: &N,
)
    requires
        inputs.eos(p_v_gauge_pa, n) == Ok::<CavitatingEosParams, EosError>(eos),
        eos.is_chained(edge, n),
        eos.rho_m_plus_kg_m3.bits < 0x7e80_0000,
        routines_grow(inputs, n),
        Binary32::zero().le(x),
        x.le(y),
        y.le(eos.rho_m_plus_kg_m3),
    ensures
        eos.band().pressure_at(x, n).le(eos.band().pressure_at(y, n)),
{
    lemma_single_constants();
    lemma_built_is_finite(inputs, p_v_gauge_pa, eos, edge, n);
    law_band_is_ordered(inputs, p_v_gauge_pa, n);
    let plus = eos.rho_m_plus_kg_m3;
    let minus = eos.rho_m_minus_kg_m3;
    law_order_is_value_order(minus, plus);
    law_order_is_value_order(Binary32::zero(), minus);
    law_order_is_value_order(Binary32::zero(), plus);
    law_positive_difference(plus, minus);
    lemma_doubled_below(plus);
    law_finite_difference_is_a_number(plus, minus);
    law_finite_difference_is_a_number(plus, plus);
    law_addition_commutes(plus, minus);
    law_addition_is_monotone(minus, plus, plus);
    law_non_negative_steps(plus, minus);
    let sum = plus.add(minus);
    // twice the densities
    lemma_twice_is_finite(plus);
    law_finite_product_is_a_number(two(), x);
    law_finite_product_is_a_number(two(), y);
    law_multiplication_commutes(two(), x);
    law_multiplication_commutes(two(), y);
    law_multiplication_commutes(two(), plus);
    law_multiplication_is_monotone(x, y, two());
    law_multiplication_is_monotone(y, plus, two());
    law_doubling_keeps_the_sign(x);
    law_doubling_keeps_the_sign(y);
    law_positive_difference_is_finite(two().mul(x), sum);
    law_positive_difference_is_finite(two().mul(y), sum);
    let c = eos.amplitude();
    let width = plus.sub(minus);
    let square = eos.c_min_m_s.mul(eos.c_min_m_s);
    law_square_is_not_negative(eos.c_min_m_s);
    lemma_finite_before(square.mul(width), half());
    lemma_not_negative(square, width);
    lemma_not_negative(square.mul(width), half());
    if c.gt(Binary32::zero()) {
        law_mixture_stiffens(eos.band(), x, y, n);
    } else {
        let s = n.unary_of(
            Unary::Asin,
            eos.band().position(x).clamp(Binary32::one().neg(), Binary32::one()),
        );
        let t = n.unary_of(
            Unary::Asin,
            eos.band().position(y).clamp(Binary32::one().neg(), Binary32::one()),
        );
        law_finite_quotient_is_a_number(two().mul(x).sub(sum), width);
        law_finite_quotient_is_a_number(two().mul(y).sub(sum), width);
        law_zero_absorbs(c, s);
        law_zero_absorbs(c, t);
        law_zero_adds_nothing(eos.p_v_gauge_pa, c.mul(s));
        law_zero_adds_nothing(eos.p_v_gauge_pa, c.mul(t));
    }
}

/// A product of numbers that are not negative is not negative.
proof fn lemma_not_negative(a: Binary32, b: Binary32)
    requires
        Binary32::zero().le(a),
        b.gt(Binary32::zero()),
        a.mul(b).is_finite(),
    ensures
        Binary32::zero().le(a.mul(b)),
{
    lemma_single_constants();
    lemma_finite_before(a, b);
    law_zero_absorbs(Binary32::zero(), b);
    law_finite_product_is_a_number(Binary32::zero(), b);
    law_multiplication_is_monotone(Binary32::zero(), a, b);
}

/// What a branch bounds the pressure by.
proof fn lemma_branch_bounds<N: Numerics>(
    inputs: EosBranchInputs,
    p_v_gauge_pa: Binary32,
    eos: CavitatingEosParams,
    edge: Binary32,
    rho: Binary32,
    n: &N,
)
    requires
        inputs.eos(p_v_gauge_pa, n) == Ok::<CavitatingEosParams, EosError>(eos),
        eos.is_chained(edge, n),
        edge.is_finite(),
        eos.rho_m_plus_kg_m3.bits < 0x7e80_0000,
        routines_grow(inputs, n),
        eos.patch_vapor_junction.is_moderate(),
        eos.patch_liquid_junction.is_moderate(),
        Binary32::zero().le(rho),
        rho.is_finite(),
    ensures
        ({
            let v = eos.patch_vapor_junction;
            let l = eos.patch_liquid_junction;
            let p = eos.pressure_at(rho, n);
            let foot = eos.band().pressure_at(v.right(), n);
            match eos.branch(rho) {
                Branch::Vapor => rho.lt(v.rho_left) && p.le(v.p0),
                Branch::VaporPatch => v.rho_left.le(rho) && rho.le(v.right()) && v.p0.le(p)
                    && p.le(v.p1),
                Branch::Mixture => v.right().lt(rho) && rho.lt(l.rho_left) && foot.le(p)
                    && p.le(l.p0),
                Branch::LiquidPatch => l.rho_left.le(rho) && rho.le(l.right()) && l.p0.le(p)
                    && p.le(l.p1),
                Branch::Liquid => l.right().lt(rho) && l.p1.le(p),
            }
        }),
        eos.patch_vapor_junction.p1.le(eos.patch_liquid_junction.p0),
{
    lemma_single_constants();
    lemma_built_is_finite(inputs, p_v_gauge_pa, eos, edge, n);
    law_band_is_ordered(inputs, p_v_gauge_pa, n);
    let v = eos.patch_vapor_junction;
    let l = eos.patch_liquid_junction;
    lemma_mixture_rises(inputs, p_v_gauge_pa, eos, edge, edge, l.rho_left, n);
    match eos.branch(rho) {
        Branch::Vapor => {
            lemma_vapor_rises(inputs, p_v_gauge_pa, eos, edge, rho, v.rho_left, n);
        },
        Branch::VaporPatch => {
            law_patch_pressure_rises(v, rho, rho);
        },
        Branch::Mixture => {
            lemma_mixture_rises(inputs, p_v_gauge_pa, eos, edge, v.right(), rho, n);
            lemma_mixture_rises(inputs, p_v_gauge_pa, eos, edge, rho, l.rho_left, n);
        },
        Branch::LiquidPatch => {
            law_patch_pressure_rises(l, rho, rho);
        },
        Branch::Liquid => {
            law_liquid_stiffens(inputs, l.right(), rho);
        },
    }
}

/// A patch of an equation of state that could be set up is moderate if it is small.
proof fn lemma_built_is_moderate<N: Numerics>(
    inputs: EosBranchInputs,
    p_v_gauge_pa: Binary32,
    eos: CavitatingEosParams,
    edge: Binary32,
    n: &N,
)
    requires
        inputs.eos(p_v_gauge_pa, n) == Ok::<CavitatingEosParams, EosError>(eos),
        eos.is_chained(edge, n),
        edge.is_finite(),
        eos.rho_m_plus_kg_m3.bits < 0x7e80_0000,
        routines_grow(inputs, n),
        eos.patch_vapor_junction.is_small(),
        eos.patch_liquid_junction.is_small(),
    ensures
        eos.patch_vapor_junction.is_moderate(),
        eos.patch_liquid_junction.is_moderate(),
{
    lemma_single_constants();
    lemma_constant_amounts();
    lemma_built_is_finite(inputs, p_v_gauge_pa, eos, edge, n);
    law_band_is_ordered(inputs, p_v_gauge_pa, n);
    law_eos_is_sound(inputs, p_v_gauge_pa, n);
    let v = eos.patch_vapor_junction;
    let l = eos.patch_liquid_junction;
    let zero = Binary32::zero();
    lemma_mixture_rises(inputs, p_v_gauge_pa, eos, edge, edge, l.rho_left, n);
    lemma_finite_before(v.rho_left, v.width);
    lemma_finite_before(l.rho_left, l.width);
    law_order_of_amounts(zero, v.m0);
    law_order_of_amounts(zero, v.m1);
    law_order_of_amounts(zero, l.m0);
    law_order_of_amounts(zero, l.m1);
    lemma_grown_is_positive(v.rho_left, v.width);
    lemma_grown_is_positive(l.rho_left, l.width);
}

/// What makes a number larger is positive.
proof fn lemma_grown_is_positive(a: Binary32, d: Binary32)
    requires
        a.is_finite(),
        d.is_finite(),
        a.lt(a.add(d)),
    ensures
        d.amount() > 0real,
{
    lemma_single_constants();
    lemma_constant_amounts();
    let zero = Binary32::zero();
    law_order_of_amounts(zero, d);
    law_order_of_amounts(d, zero);
    if d.amount() <= 0real {
        law_finite_difference_is_a_number(a, d);
        law_zero_adds_nothing(a, zero);
        law_addition_commutes(a, d);
        law_addition_commutes(a, zero);
        law_addition_is_monotone(d, zero, a);
    }
}

/// Pressure rises with density over the whole curve of an equation of state that could be
/// set up, from vacuum through vapour, mixture and liquid, up to rounding: exactly between
/// two densities in different pieces or in the same branch, up to the slack of the patch
/// between two densities in one patch, and up to the rounding of the end of the vapour
/// patch across that end. Asked for are what [`law_built_curve_is_chained`] asks for,
/// patches that do not overflow, and routines that grow as the exact ones do.
pub proof fn law_built_pressure_rises<N: Numerics>(
    inputs: EosBranchInputs,
    p_v_gauge_pa: Binary32,
    eos: CavitatingEosParams,
    rho: Binary32,
    denser: Binary32,
    n: &N,
)
    requires
        inputs.eos(p_v_gauge_pa, n) == Ok::<CavitatingEosParams, EosError>(eos),
        0x3200_0000 <= eos.rho_m_minus_kg_m3.bits,
        eos.rho_m_plus_kg_m3.bits < 0x7e80_0000,
        eos.patch_vapor_junction.is_small(),
        eos.patch_liquid_junction.is_small(),
        routines_grow(inputs, n),
        Binary32::zero().le(rho),
        rho.le(denser),
        denser.is_finite(),
    ensures
        rank(eos.branch(rho)) <= rank(eos.branch(denser)),
        eos.slack(rho, denser, n) == 0real ==> eos.pressure_at(rho, n).le(
            eos.pressure_at(denser, n),
        ),
        eos.pressure_at(rho, n).amount() <= eos.pressure_at(denser, n).amount() + eos.slack(
            rho,
            denser,
            n,
        ),
        eos.slack(rho, denser, n) >= 0real,
        eos.patch_vapor_junction.width.lt(eos.patch_vapor_junction.rho_left) ==> eos.end_gap(n)
            == 0real,
{
    lemma_single_constants();
    let edge = law_built_curve_is_chained(inputs, p_v_gauge_pa, eos, n);
    lemma_built_is_finite(inputs, p_v_gauge_pa, eos, edge, n);
    lemma_built_is_moderate(inputs, p_v_gauge_pa, eos, edge, n);
    lemma_branch_bounds(inputs, p_v_gauge_pa, eos, edge, rho, n);
    lemma_branch_bounds(inputs, p_v_gauge_pa, eos, edge, denser, n);
    let v = eos.patch_vapor_junction;
    let l = eos.patch_liquid_junction;
    let p = eos.pressure_at(rho, n);
    let q = eos.pressure_at(denser, n);
    let foot = eos.band().pressure_at(v.right(), n);
    law_order_of_all_amounts(p, q);
    law_order_of_all_amounts(p, v.p1);
    law_order_of_all_amounts(foot, q);
    law_order_of_all_amounts(v.p1, foot);
    lemma_slack_is_positive(v);
    lemma_slack_is_positive(l);
    match (eos.branch(rho), eos.branch(denser)) {
        (Branch::VaporPatch, Branch::VaporPatch) => {
            law_patch_pressure_rises(v, rho, denser);
        },
        (Branch::LiquidPatch, Branch::LiquidPatch) => {
            law_patch_pressure_rises(l, rho, denser);
        },
        (Branch::Vapor, Branch::Vapor) => {
            lemma_vapor_rises(inputs, p_v_gauge_pa, eos, edge, rho, denser, n);
        },
        (Branch::Mixture, Branch::Mixture) => {
            lemma_mixture_rises(inputs, p_v_gauge_pa, eos, edge, rho, denser, n);
        },
        (Branch::Liquid, Branch::Liquid) => {
            law_liquid_stiffens(inputs, rho, denser);
        },
        _ => {},
    }
}

} // verus!
