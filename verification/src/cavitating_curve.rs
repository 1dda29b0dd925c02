use vstd::arithmetic::power2::lemma2_to64;
use vstd::arithmetic::power2::lemma_pow2_adds;
use vstd::arithmetic::power2::lemma_pow2_pos;
use vstd::arithmetic::power2::lemma_pow2_strictly_increases;
use vstd::arithmetic::power2::lemma_pow2_unfold;
use vstd::arithmetic::power2::pow2;
use vstd::prelude::*;

use crate::binary::close::eight;
use crate::binary::close::law_close_difference_is_exact;
use crate::binary::close::law_close_difference_is_exact_either_way;
use crate::binary::close::law_difference_error;
use crate::binary::close::law_difference_within_half_spacing;
use crate::binary::close::law_eightfold_is_exact;
use crate::binary::close::law_exact_difference_adds_back;
use crate::binary::close::law_exact_double;
use crate::binary::close::law_half_is_exact;
use crate::binary::close::law_product_error;
use crate::binary::close::law_quarter_is_exact;
use crate::binary::close::law_small_steps_stay_close;
use crate::binary::close::law_spacing_is_relative;
use crate::binary::close::law_sum_error;
use crate::binary::close::law_sum_within_half_spacing;
use crate::binary::close::quarter;
use crate::binary::error::magnitude;
use crate::binary::exact::lemma_mag_increases;
use crate::binary::exact::lemma_mag_of_parts;
use crate::binary::exact::mag;
use crate::binary::laws::law_addition_commutes;
use crate::binary::laws::law_addition_is_monotone;
use crate::binary::laws::law_difference_is_not_negative;
use crate::binary::laws::law_double_of_half;
use crate::binary::laws::law_finite_difference_is_a_number;
use crate::binary::laws::law_finite_product_is_a_number;
use crate::binary::laws::law_minus_one_negates;
use crate::binary::laws::law_multiplication_commutes;
use crate::binary::laws::law_multiplication_is_monotone;
use crate::binary::laws::law_non_negative_steps;
use crate::binary::laws::law_order_is_value_order;
use crate::binary::laws::law_positive_difference;
use crate::binary::laws::law_spacing_is_felt;
use crate::binary::laws::law_subtraction_is_antitone;
use crate::binary::laws::law_subtraction_is_monotone;
use crate::binary::laws::law_zero_absorbs;
use crate::binary::laws::lemma_doubled_magnitude;
use crate::binary::order::lemma_format_bounds;
use crate::binary::round::single;
use crate::binary::single::Binary32;
use crate::binary::single::half;
use crate::binary::single::lemma_single_constants;
use crate::binary::single::two;
use crate::cavitating_eos::BAND_STEPS;
use crate::cavitating_eos::Branch;
use crate::cavitating_eos::CavitatingEosParams;
use crate::cavitating_eos::EosBranchInputs;
use crate::cavitating_eos::EosError;
use crate::cavitating_eos::MixtureJunctionEdges;
use crate::cavitating_eos::PI;
use crate::cavitating_eos::Side;
use crate::cavitating_eos::cutoff_delta;
use crate::cavitating_eos::law_band_is_ordered;
use crate::cavitating_eos::law_patch_is_local;
use crate::cavitating_eos::law_patches_meet_their_branches;
use crate::cavitating_eos::lemma_patch_meets_branches;
use crate::cavitating_eos::ulp_at;
use crate::cavitating_table::CavitatingEosPrimitives;
use crate::mechanics::MICRO;
use crate::mechanics::NANO;
use crate::numerics::Numerics;

verus! {

/// The reach of a patch is at most a quarter of the liquid edge.
proof fn lemma_reach_is_small(edges: MixtureJunctionEdges, delta: Binary32)
    requires
        0x0180_0000 <= edges.rho_m_plus_kg_m3.bits < 0x7f80_0000,
        Binary32::zero().le(edges.rho_m_minus_kg_m3),
        edges.rho_m_minus_kg_m3.le(edges.rho_m_plus_kg_m3),
        Binary32::zero().le(delta),
        delta.le(EosBranchInputs::delta_limit(&edges)),
    ensures
        delta.is_finite(),
        4 * delta.value() <= edges.rho_m_plus_kg_m3.value(),
{
    lemma_single_constants();
    let plus = edges.rho_m_plus_kg_m3;
    let minus = edges.rho_m_minus_kg_m3;
    let x = plus.sub(minus);
    let tenth = Binary32::from_bits(0x3dcc_cccd);
    law_non_negative_steps(plus, minus);
    law_difference_is_not_negative(plus, minus);
    law_finite_product_is_a_number(tenth, x);
    law_finite_product_is_a_number(quarter(), x);
    law_quarter_is_exact(plus);
    law_multiplication_commutes(quarter(), x);
    law_multiplication_commutes(quarter(), plus);
    law_multiplication_is_monotone(x, plus, quarter());
    if x.eq(Binary32::zero()) {
        law_zero_absorbs(x, tenth);
        law_zero_absorbs(x, quarter());
    } else {
        law_multiplication_is_monotone(tenth, quarter(), x);
    }
    law_order_is_value_order(delta, quarter().mul(plus));
}

/// The liquid patch ends at its pure edge, to the bit.
proof fn lemma_liquid_patch_ends_at_its_edge<N: Numerics>(
    inputs: EosBranchInputs,
    delta: Binary32,
    edges: MixtureJunctionEdges,
    b_pa: Binary32,
    n: &N,
)
    requires
        0x0180_0000 <= edges.rho_m_plus_kg_m3.bits < 0x7f80_0000,
        Binary32::zero().le(edges.rho_m_minus_kg_m3),
        edges.rho_m_minus_kg_m3.le(edges.rho_m_plus_kg_m3),
        Binary32::zero().le(delta),
        delta.le(EosBranchInputs::delta_limit(&edges)),
        EosBranchInputs::pure_delta(edges.rho_m_plus_kg_m3).le(
            quarter().mul(edges.rho_m_plus_kg_m3),
        ),
        EosBranchInputs::pure_edge(Side::Liquid, &edges).is_finite(),
    ensures
        ({
            let patch = inputs.patch_at(Side::Liquid, delta, edges, b_pa, n);
            &&& patch.right() == EosBranchInputs::pure_edge(Side::Liquid, &edges)
            &&& patch.rho_left.le(edges.rho_m_plus_kg_m3)
            &&& edges.rho_m_plus_kg_m3.le(patch.right())
        }),
{
    lemma_single_constants();
    let plus = edges.rho_m_plus_kg_m3;
    let step = EosBranchInputs::pure_delta(plus);
    lemma_reach_is_small(edges, delta);
    law_minus_one_negates(plus, delta);
    law_minus_one_negates(plus, step);
    law_quarter_is_exact(plus);
    law_order_is_value_order(step, quarter().mul(plus));
    law_order_is_value_order(Binary32::zero(), step);
    law_order_is_value_order(Binary32::zero(), plus);
    law_small_steps_stay_close(plus, delta);
    law_small_steps_stay_close(plus, step);
    let mix = plus.sub(delta);
    let pure = plus.add(step);
    assert(EosBranchInputs::mix_edge(Side::Liquid, &edges, delta) == mix);
    assert(EosBranchInputs::pure_edge(Side::Liquid, &edges) == pure);
    law_close_difference_is_exact(pure, mix);
    law_order_is_value_order(plus, pure);
    law_order_is_value_order(mix, plus);
    law_exact_difference_adds_back(pure, mix);
}

/// A reach within its limit is at most a tenth of the band, up to rounding.
proof fn lemma_reach_is_a_tenth(edges: MixtureJunctionEdges, delta: Binary32)
    requires
        0x3200_0000 <= edges.rho_m_minus_kg_m3.bits,
        edges.rho_m_minus_kg_m3.bits < edges.rho_m_plus_kg_m3.bits,
        edges.rho_m_plus_kg_m3.bits < 0x7e80_0000,
        Binary32::zero().le(delta),
        delta.le(EosBranchInputs::delta_limit(&edges)),
        ulp_at(edges.rho_m_plus_kg_m3).le(EosBranchInputs::delta_limit(&edges)),
    ensures
        delta.is_finite(),
        100 * delta.value() <= 11 * (edges.rho_m_plus_kg_m3.value()
            - edges.rho_m_minus_kg_m3.value()),
        10 * delta.value() <= edges.rho_m_plus_kg_m3.value() - edges.rho_m_minus_kg_m3.value() + 4
            * ulp_at(edges.rho_m_plus_kg_m3).value(),
{
    lemma_single_constants();
    lemma_format_bounds(single());
    let plus = edges.rho_m_plus_kg_m3;
    let minus = edges.rho_m_minus_kg_m3;
    let limit = EosBranchInputs::delta_limit(&edges);
    let tenth = Binary32::from_bits(0x3dcc_cccd);
    let x = plus.sub(minus);
    lemma_pure_step_is_small(plus);
    law_order_is_value_order(minus, plus);
    law_order_is_value_order(Binary32::zero(), minus);
    law_non_negative_steps(plus, minus);
    law_difference_is_not_negative(plus, minus);
    law_order_is_value_order(Binary32::zero(), ulp_at(plus));
    lemma_reach_is_small(edges, limit);
    lemma_reach_is_small(edges, delta);
    law_order_is_value_order(delta, limit);
    law_order_is_value_order(ulp_at(plus), limit);
    law_difference_error(plus, minus);
    law_product_error(tenth, x);
    let e = pow2(149) as int;
    let t = tenth.value();
    let g = limit.value();
    let v = x.value();
    lemma_pow2_adds(23, 99);
    lemma_pow2_adds(122, 27);
    lemma2_to64();
    lemma_pow2_pos(122);
    lemma_mag_of_parts(23, 122, 0xcc_cccd);
    let c = pow2(122) as int;
    assert(0x100_0000 * (g * e - t * v) <= g * e ==> 0xff_ffff * (g * 0x800_0000) <= 0x100_0000 * (
    0xcc_cccd * v)) by (nonlinear_arith)
        requires
            e == c * 0x800_0000,
            t == 0xcc_cccd * c,
            c > 0,
    ;
}

/// Between the patches lies the middle of the band.
proof fn lemma_middle_is_free(edges: MixtureJunctionEdges, dl: Binary32, dv: Binary32)
    requires
        0x3200_0000 <= edges.rho_m_minus_kg_m3.bits,
        edges.rho_m_minus_kg_m3.bits < edges.rho_m_plus_kg_m3.bits,
        edges.rho_m_plus_kg_m3.bits < 0x7e80_0000,
        ulp_at(edges.rho_m_plus_kg_m3).le(dl),
        dl.le(EosBranchInputs::delta_limit(&edges)),
        Binary32::zero().le(dv),
        dv.le(EosBranchInputs::delta_limit(&edges)),
    ensures
        ({
            let plus = edges.rho_m_plus_kg_m3;
            let minus = edges.rho_m_minus_kg_m3;
            let sum = plus.add(minus);
            let mid = sum.div(two());
            let mix = minus.add(dv);
            let u = ulp_at(plus).value();
            &&& mix.is_finite()
            &&& mix.value() <= plus.value()
            &&& mix.value() + 2 * u < mid.value()
            &&& mid.is_finite()
            &&& 2 * mid.value() <= plus.value() + minus.value() + u
            &&& mid.lt(plus.sub(dl))
            &&& 10 * (plus.value() - plus.sub(dl).value()) <= plus.value() - minus.value() + 9 * u
            &&& 10 * (mix.value() - minus.value()) <= plus.value() - minus.value() + 9 * u
            &&& 0x0100_0000 <= sum.bits < 0x7f80_0000
        }),
{
    lemma_single_constants();
    lemma_format_bounds(single());
    let plus = edges.rho_m_plus_kg_m3;
    let minus = edges.rho_m_minus_kg_m3;
    let u = ulp_at(plus);
    lemma_pure_step_is_small(plus);
    law_order_is_value_order(Binary32::zero(), u);
    lemma_reach_is_a_tenth(edges, u);
    lemma_reach_is_a_tenth(edges, dl);
    lemma_reach_is_a_tenth(edges, dv);
    law_order_is_value_order(minus, plus);
    law_order_is_value_order(Binary32::zero(), minus);
    law_order_is_value_order(Binary32::zero(), dl);
    law_order_is_value_order(Binary32::zero(), dv);
    law_order_is_value_order(dv, plus);
    // the sum is at most twice the liquid edge
    let sum = plus.add(minus);
    let double = plus.add(plus);
    law_finite_difference_is_a_number(plus, minus);
    law_finite_difference_is_a_number(plus, plus);
    law_finite_difference_is_a_number(minus, dv);
    law_finite_difference_is_a_number(minus, plus);
    law_addition_commutes(plus, minus);
    law_addition_commutes(minus, dv);
    law_addition_is_monotone(minus, plus, plus);
    law_addition_is_monotone(dv, plus, minus);
    law_non_negative_steps(plus, minus);
    law_non_negative_steps(minus, dv);
    law_order_is_value_order(sum, double);
    law_order_is_value_order(plus, sum);
    law_double_of_half(sum);
    let mid = sum.div(two());
    // half of what a sum below twice the liquid edge is off by
    lemma_double_spacing(plus);
    if sum.value() == double.value() {
        law_order_is_value_order(double, sum);
        law_sum_error(plus, minus);
    }
    lemma_sum_below_double(plus, minus);
    // the vapour patch ends below the middle
    let mix = minus.add(dv);
    law_order_is_value_order(mix, sum);
    law_sum_error(minus, dv);
    assert(mix.value() <= plus.value());
    law_sum_within_half_spacing(minus, dv, plus);
    law_order_is_value_order(mix, mid);
    // the liquid patch starts above it
    let left = plus.sub(dl);
    law_non_negative_steps(plus, dl);
    law_order_is_value_order(dl, plus);
    law_difference_is_not_negative(plus, dl);
    law_order_is_value_order(left, plus);
    law_difference_within_half_spacing(plus, dl, plus);
    law_order_is_value_order(mid, left);
}

/// A sum of a number and a smaller one is off by at most the spacing at the larger.
proof fn lemma_sum_below_double(plus: Binary32, minus: Binary32)
    requires
        0x3200_0000 <= plus.bits < 0x7e80_0000,
        minus.is_finite(),
        0 < minus.value() < plus.value(),
        plus.add(minus).is_finite(),
        plus.add(minus).value() <= 2 * plus.value(),
    ensures
        plus.add(minus).value() - (plus.value() + minus.value()) <= ulp_at(plus).value(),
        (plus.value() + minus.value()) - plus.add(minus).value() <= ulp_at(plus).value(),
{
    lemma_single_constants();
    lemma_pure_step_is_small(plus);
    lemma_double_spacing(plus);
    let double = plus.add(plus);
    law_sum_within_half_spacing(plus, minus, double);
}

/// The spacing at twice a number is twice that at the number.
proof fn lemma_double_spacing(x: Binary32)
    requires
        0x3200_0000 <= x.bits < 0x7e80_0000,
    ensures
        0x3200_0000 <= x.add(x).bits < 0x7f00_0000,
        x.add(x).value() == 2 * x.value(),
        ulp_at(x.add(x)).value() == 2 * ulp_at(x).value(),
{
    lemma_single_constants();
    lemma_format_bounds(single());
    lemma_pow2_pos(23);
    lemma_pure_step_is_small(x);
    let k = x.num().k as nat;
    let d = Binary32 { bits: (x.bits + 0x80_0000) as u32 };
    lemma_doubled_magnitude(k);
    lemma_doubled_magnitude((k + 1) as nat);
    lemma_mag_increases(23, 0, k);
    law_order_is_value_order(x.add(x), d);
    law_spacing_is_relative(x);
    law_spacing_is_relative(d);
    lemma_mag_increases(23, k, k + 1);
    lemma_mag_increases(23, k + 1, k + 0x80_0000);
    law_close_difference_is_exact(x.next(), x);
    law_close_difference_is_exact(d.next(), d);
}

/// The right end of a patch that starts at `pure` and was meant to end at `mix` is above
/// the junction, and off by at most the spacing at the liquid edge.
proof fn lemma_right_end(minus: Binary32, pure: Binary32, mix: Binary32, top: Binary32)
    requires
        0x3200_0000 <= minus.bits < top.bits,
        top.bits < 0x7e80_0000,
        pure.is_finite(),
        mix.is_finite(),
        mix.bits < 0x8000_0000,
        10 * pure.value() >= 7 * minus.value(),
        pure.value() <= minus.value(),
        minus.value() < mix.value(),
        mix.value() + 2 * ulp_at(top).value() < top.value(),
    ensures
        ({
            let right = pure.add(mix.sub(pure));
            &&& right.is_finite()
            &&& minus.lt(right)
            &&& right.value() - mix.value() <= ulp_at(top).value()
            &&& mix.value() - right.value() <= ulp_at(top).value()
            &&& mix.value() <= 2 * pure.value() ==> right == mix
        }),
{
    lemma_single_constants();
    lemma_pow2_pos(23);
    lemma_pure_step_is_small(top);
    lemma_mag_increases(23, 0, minus.bits as nat);
    lemma_mag_increases(23, minus.bits as nat, top.bits as nat);
    if mix.value() <= 2 * pure.value() {
        law_close_difference_is_exact(mix, pure);
        law_exact_difference_adds_back(mix, pure);
        law_order_is_value_order(minus, mix);
    } else {
        law_order_is_value_order(Binary32::zero(), pure);
        law_order_is_value_order(pure, mix);
        law_non_negative_steps(mix, pure);
        law_difference_is_not_negative(mix, pure);
        let w = mix.sub(pure);
        law_order_is_value_order(w, mix);
        law_difference_error(mix, pure);
        law_difference_within_half_spacing(mix, pure, top);
        // the sum does not exceed the edge that stands above
        law_finite_difference_is_a_number(pure, w);
        law_order_is_value_order(w, top);
        law_order_is_value_order(pure, top);
        law_finite_difference_is_a_number(top, w);
        law_finite_difference_is_a_number(top, top);
        law_addition_is_monotone(pure, top, w);
        law_addition_commutes(top, w);
        law_addition_is_monotone(w, top, top);
        law_order_is_value_order(Binary32::zero(), w);
        law_non_negative_steps(pure, w);
        let right = pure.add(w);
        law_sum_error(pure, w);
        law_sum_within_half_spacing(pure, w, top);
        law_order_is_value_order(minus, right);
    }
}

impl CavitatingEosParams {
    /// The middle of the band.
    pub open spec fn mid_band(&self) -> Binary32 {
        self.rho_m_plus_kg_m3.add(self.rho_m_minus_kg_m3).div(two())
    }

    /// The pieces of the curve follow each other, with the middle of the band between the
    /// patches, and each piece starts with the pressure that the one before it ends with.
    /// The vapour patch ends at `edge` up to the spacing of numbers at the liquid edge.
    pub open spec fn is_chained<N: Numerics>(&self, edge: Binary32, n: &N) -> bool {
        let v = self.patch_vapor_junction;
        let l = self.patch_liquid_junction;
        &&& Binary32::zero().lt(v.rho_left)
        &&& v.rho_left.le(self.rho_m_minus_kg_m3)
        &&& self.rho_m_minus_kg_m3.lt(v.right())
        &&& v.right().lt(self.mid_band())
        &&& self.rho_m_minus_kg_m3.lt(edge)
        &&& edge.lt(self.mid_band())
        &&& self.mid_band().lt(l.rho_left)
        &&& l.rho_left.lt(self.rho_m_plus_kg_m3)
        &&& self.rho_m_plus_kg_m3.le(l.right())
        &&& l.right().is_finite()
        &&& v.right().is_finite()
        &&& v.right().value() - edge.value() <= ulp_at(self.rho_m_plus_kg_m3).value()
        &&& edge.value() - v.right().value() <= ulp_at(self.rho_m_plus_kg_m3).value()
        &&& v.width.lt(v.rho_left) ==> v.right() == edge
        &&& v.p0 == self.branches().vapor_pressure_at(v.rho_left, self.b_pa, n)
        &&& v.p1 == self.band().pressure_at(edge, n)
        &&& l.p0 == self.band().pressure_at(l.rho_left, n)
        &&& l.p1 == self.branches().liquid_pressure(l.right())
        &&& self.branch(self.mid_band()) == Branch::Mixture
    }
}

/// The pieces of an equation of state that could be set up follow each other. Asked for are
/// edges that are neither within rounding of zero, where the vapour patch would start below
/// vacuum, nor of infinity. The witness is the density that the vapour patch is meant to
/// end at.
pub proof fn law_built_curve_is_chained<N: Numerics>(
    inputs: EosBranchInputs,
    p_v_gauge_pa: Binary32,
    eos: CavitatingEosParams,
    n: &N,
) -> (edge: Binary32)
    requires
        inputs.eos(p_v_gauge_pa, n) == Ok::<CavitatingEosParams, EosError>(eos),
        0x3200_0000 <= eos.rho_m_minus_kg_m3.bits,
        eos.rho_m_plus_kg_m3.bits < 0x7e80_0000,
    ensures
        eos.is_chained(edge, n),
        edge.is_finite(),
{
    lemma_single_constants();
    law_patches_meet_their_branches(inputs, p_v_gauge_pa, n);
    let b_pa = inputs.stiffness();
    let (plus, minus) = inputs.mixture_band(b_pa, p_v_gauge_pa, n)->Ok_0;
    let edges = inputs.edges(plus, minus, p_v_gauge_pa);
    law_band_is_ordered(inputs, p_v_gauge_pa, n);
    law_order_is_value_order(minus, plus);
    lemma_pure_step_is_small(plus);
    lemma_pure_step_is_small(minus);
    law_non_negative_steps(plus, minus);
    law_difference_is_not_negative(plus, minus);
    law_finite_product_is_a_number(Binary32::from_bits(0x3dcc_cccd), plus.sub(minus));
    law_patch_is_local(inputs, Side::Liquid, inputs.liquid_reach(plus, minus), edges, b_pa, n);
    let reach = cutoff_delta(
        plus.sub(minus),
        inputs.c_min_m_s,
        inputs.vapor_slope_at(minus, b_pa, n),
    );
    law_patch_is_local(inputs, Side::Vapor, reach, edges, b_pa, n);
    let l = eos.patch_liquid_junction;
    let v = eos.patch_vapor_junction;
    let dl = choose|d: Binary32|
        inputs.reaches(Side::Liquid, edges, b_pa, l, d, n) && d.gt(Binary32::zero());
    let dv = choose|d: Binary32|
        inputs.reaches(Side::Vapor, edges, b_pa, v, d, n) && d.gt(Binary32::zero());
    lemma_chain(inputs, edges, b_pa, dl, dv, n);
    assert(eos.band() == edges);
    assert(eos.branches() == inputs);
    let edge = minus.add(dv);
    let mid = eos.mid_band();
    law_order_is_value_order(mid, plus);
    law_order_is_value_order(minus, mid);
    law_order_is_value_order(edge, mid);
    edge
}

/// The reaches that are recorded at a saturation pressure are positive and at most a tenth
/// of the band, up to a few spacings of the numbers at the liquid edge. Where an equation of
/// state could be set up, they are the reaches of its patches, and the band is its band.
pub proof fn law_recorded_reaches_are_short<N: Numerics>(
    inputs: EosBranchInputs,
    p_v_gauge_pa: Binary32,
    q: CavitatingEosPrimitives,
    n: &N,
)
    requires
        inputs.primitives(p_v_gauge_pa, n) == Ok::<CavitatingEosPrimitives, EosError>(q),
        0x3200_0000 <= q.rho_m_minus_kg_m3.bits,
        q.rho_m_minus_kg_m3.bits < q.rho_m_plus_kg_m3.bits,
        q.rho_m_plus_kg_m3.bits < 0x7e80_0000,
    ensures
        q.delta_mix_liquid_kg_m3.gt(Binary32::zero()),
        q.delta_mix_vapor_kg_m3.gt(Binary32::zero()),
        q.delta_mix_liquid_kg_m3.is_finite(),
        q.delta_mix_vapor_kg_m3.is_finite(),
        10 * q.delta_mix_liquid_kg_m3.value() <= q.rho_m_plus_kg_m3.value()
            - q.rho_m_minus_kg_m3.value() + 24 * ulp_at(q.rho_m_plus_kg_m3).value(),
        10 * q.delta_mix_vapor_kg_m3.value() <= q.rho_m_plus_kg_m3.value()
            - q.rho_m_minus_kg_m3.value() + 24 * ulp_at(q.rho_m_plus_kg_m3).value(),
        inputs.eos(p_v_gauge_pa, n) matches Ok(eos) ==> {
            &&& q.rho_m_plus_kg_m3 == eos.rho_m_plus_kg_m3
            &&& q.rho_m_minus_kg_m3 == eos.rho_m_minus_kg_m3
            &&& q.delta_mix_liquid_kg_m3 == eos.rho_m_plus_kg_m3.sub(
                eos.patch_liquid_junction.rho_left,
            )
            &&& q.delta_mix_vapor_kg_m3 == eos.patch_vapor_junction.right().sub(
                eos.rho_m_minus_kg_m3,
            )
        },
{
    lemma_single_constants();
    let b_pa = inputs.stiffness();
    let plus = q.rho_m_plus_kg_m3;
    let minus = q.rho_m_minus_kg_m3;
    let edges = inputs.edges(plus, minus, p_v_gauge_pa);
    lemma_pow2_pos(23);
    lemma_mag_increases(23, 0, minus.bits as nat);
    lemma_mag_increases(23, minus.bits as nat, plus.bits as nat);
    law_order_is_value_order(minus, plus);
    law_order_is_value_order(Binary32::zero(), minus);
    lemma_pure_step_is_small(plus);
    lemma_pure_step_is_small(minus);
    law_non_negative_steps(plus, minus);
    law_difference_is_not_negative(plus, minus);
    law_finite_product_is_a_number(Binary32::from_bits(0x3dcc_cccd), plus.sub(minus));
    law_patch_is_local(inputs, Side::Liquid, inputs.liquid_reach(plus, minus), edges, b_pa, n);
    let reach = cutoff_delta(
        plus.sub(minus),
        inputs.c_min_m_s,
        inputs.vapor_slope_at(minus, b_pa, n),
    );
    law_patch_is_local(inputs, Side::Vapor, reach, edges, b_pa, n);
    let l = inputs.liquid_patch(plus, minus, p_v_gauge_pa, b_pa, n)->Ok_0;
    let v = inputs.vapor_patch(plus, minus, p_v_gauge_pa, b_pa, n)->Ok_0;
    let dl = choose|d: Binary32|
        inputs.reaches(Side::Liquid, edges, b_pa, l, d, n) && d.gt(Binary32::zero());
    let dv = choose|d: Binary32|
        inputs.reaches(Side::Vapor, edges, b_pa, v, d, n) && d.gt(Binary32::zero());
    lemma_chain(inputs, edges, b_pa, dl, dv, n);
    law_positive_difference(plus, l.rho_left);
    law_positive_difference(v.right(), minus);
    law_order_is_value_order(minus, v.right());
    law_order_is_value_order(l.rho_left, plus);
    let mid = plus.add(minus).div(two());
    law_order_is_value_order(mid, l.rho_left);
    law_order_is_value_order(v.right(), mid);
    // both differences are below the liquid edge, where the spacing is known
    law_non_negative_steps(plus, l.rho_left);
    law_non_negative_steps(v.right(), minus);
    law_order_is_value_order(Binary32::zero(), l.rho_left);
    law_difference_is_not_negative(v.right(), minus);
    law_order_is_value_order(plus.sub(l.rho_left), plus);
    law_order_is_value_order(v.right().sub(minus), v.right());
    law_difference_within_half_spacing(plus, l.rho_left, plus);
    law_difference_within_half_spacing(v.right(), minus, plus);
}

/// Patches that reach into a band follow each other.
proof fn lemma_chain<N: Numerics>(
    inputs: EosBranchInputs,
    edges: MixtureJunctionEdges,
    b_pa: Binary32,
    dl: Binary32,
    dv: Binary32,
    n: &N,
)
    requires
        0x3200_0000 <= edges.rho_m_minus_kg_m3.bits,
        edges.rho_m_minus_kg_m3.bits < edges.rho_m_plus_kg_m3.bits,
        edges.rho_m_plus_kg_m3.bits < 0x7e80_0000,
        ulp_at(edges.rho_m_plus_kg_m3).le(dl),
        dl.le(EosBranchInputs::delta_limit(&edges)),
        ulp_at(edges.rho_m_minus_kg_m3).le(dv),
        dv.le(EosBranchInputs::delta_limit(&edges)),
    ensures
        ({
            let plus = edges.rho_m_plus_kg_m3;
            let minus = edges.rho_m_minus_kg_m3;
            let mid = plus.add(minus).div(two());
            let edge = minus.add(dv);
            let l = inputs.patch_at(Side::Liquid, dl, edges, b_pa, n);
            let v = inputs.patch_at(Side::Vapor, dv, edges, b_pa, n);
            let u = ulp_at(plus).value();
            &&& edge.is_finite() && mid.is_finite()
            &&& edge.value() < mid.value() < plus.value()
            &&& minus.value() < mid.value()
            &&& minus.lt(edge)
            &&& Binary32::zero().lt(v.rho_left) && v.rho_left.le(minus)
            &&& v.rho_left.is_finite()
            &&& minus.lt(v.right()) && v.right().lt(mid) && v.right().is_finite()
            &&& mid.lt(l.rho_left) && l.rho_left.lt(plus) && plus.le(l.right())
            &&& l.rho_left.is_finite() && l.right().is_finite()
            &&& v.right().value() - edge.value() <= u
            &&& edge.value() - v.right().value() <= u
            &&& 10 * (plus.value() - l.rho_left.value()) <= plus.value() - minus.value() + 9 * u
            &&& 10 * (v.right().value() - minus.value()) <= plus.value() - minus.value() + 19 * u
            &&& v.width.lt(v.rho_left) ==> v.right() == edge
            &&& v.p0 == inputs.vapor_pressure_at(v.rho_left, b_pa, n)
            &&& v.p1 == edges.pressure_at(edge, n)
            &&& l.p0 == edges.pressure_at(l.rho_left, n)
            &&& l.p1 == inputs.liquid_pressure(l.right())
        }),
{
    lemma_single_constants();
    lemma_pow2_pos(23);
    let plus = edges.rho_m_plus_kg_m3;
    let minus = edges.rho_m_minus_kg_m3;
    lemma_mag_increases(23, 0, minus.bits as nat);
    lemma_mag_increases(23, minus.bits as nat, plus.bits as nat);
    lemma_pure_step_is_small(plus);
    lemma_pure_step_is_small(minus);
    law_order_is_value_order(Binary32::zero(), ulp_at(plus));
    law_order_is_value_order(Binary32::zero(), ulp_at(minus));
    law_order_is_value_order(minus, plus);
    law_order_is_value_order(Binary32::zero(), minus);
    lemma_middle_is_free(edges, dl, dv);
    lemma_reach_is_small(edges, dl);
    lemma_reach_is_small(edges, dv);
    let mid = plus.add(minus).div(two());
    let edge = minus.add(dv);
    let l = inputs.patch_at(Side::Liquid, dl, edges, b_pa, n);
    let v = inputs.patch_at(Side::Vapor, dv, edges, b_pa, n);
    // the liquid side
    law_minus_one_negates(plus, EosBranchInputs::pure_delta(plus));
    law_minus_one_negates(plus, dl);
    lemma_liquid_patch_ends_at_its_edge(inputs, dl, edges, b_pa, n);
    lemma_patch_meets_branches(inputs, Side::Liquid, dl, edges, b_pa, n);
    law_spacing_is_felt(plus);
    law_finite_difference_is_a_number(plus, dl);
    law_finite_difference_is_a_number(plus, ulp_at(plus));
    law_subtraction_is_antitone(plus, ulp_at(plus), dl);
    law_order_is_value_order(mid, plus);
    // the vapour side
    let step = EosBranchInputs::pure_delta(minus);
    law_minus_one_negates(minus, dv);
    law_minus_one_negates(minus, step);
    law_quarter_is_exact(minus);
    law_order_is_value_order(step, quarter().mul(minus));
    law_order_is_value_order(Binary32::zero(), step);
    law_small_steps_stay_close(minus, step);
    let pure = minus.sub(step);
    law_order_is_value_order(Binary32::zero(), pure);
    law_order_is_value_order(pure, minus);
    lemma_patch_meets_branches(inputs, Side::Vapor, dv, edges, b_pa, n);
    law_spacing_is_felt(minus);
    law_finite_difference_is_a_number(minus, dv);
    law_addition_commutes(minus, ulp_at(minus));
    law_addition_commutes(minus, dv);
    law_addition_is_monotone(ulp_at(minus), dv, minus);
    law_order_is_value_order(minus, edge);
    lemma_right_end(minus, pure, edge, plus);
    law_order_is_value_order(v.right(), mid);
    law_order_is_value_order(minus, v.right());
    if v.width.lt(v.rho_left) {
        law_order_is_value_order(pure, edge);
        lemma_narrow_patch_ends_at_its_edge(pure, edge);
    }
}

/// Twice a number below an eighth of the largest ones is finite.
pub proof fn lemma_doubled_below(x: Binary32)
    requires
        x.bits < 0x7e80_0000,
        x.value() > 0,
    ensures
        x.add(x).is_finite(),
        x.add(x).value() == 2 * x.value(),
{
    lemma_single_constants();
    lemma_mag_increases(23, x.num().k as nat, 0x7e80_0000);
    lemma_doubled_magnitude(0x7e80_0000);
    law_exact_double(x, Binary32 { bits: 0x7f00_0000 });
}

/// The pure step of a junction is small and is felt.
proof fn lemma_pure_step_is_small(x: Binary32)
    requires
        0x3200_0000 <= x.bits < 0x7e80_0000,
    ensures
        x.next().is_finite(),
        0x80_0000 <= ulp_at(x).bits < 0x7e00_0000,
        x.value() <= 0x100_0000 * ulp_at(x).value(),
        EosBranchInputs::pure_delta(x).le(quarter().mul(x)),
        Binary32::zero().lt(EosBranchInputs::pure_delta(x)),
        x.add(EosBranchInputs::pure_delta(x)).is_finite(),
        x.add(x).is_finite(),
        x.add(x).value() == 2 * x.value(),
{
    lemma_single_constants();
    lemma_format_bounds(single());
    lemma_pow2_pos(23);
    lemma2_to64();
    let u = ulp_at(x);
    let low = Binary32 { bits: 0x3200_0000 };
    let high = Binary32 { bits: 0x7f00_0000 };
    let normal = Binary32 { bits: 0x80_0000 };
    let k = x.num().k as nat;
    lemma_mag_increases(23, 0, 0x80_0000);
    lemma_mag_increases(23, 0x3200_0000, k);
    lemma_mag_increases(23, k, 0x7e80_0000);
    lemma_doubled_magnitude(0x7e80_0000);
    // the spacing is normal
    law_spacing_is_relative(x);
    lemma_doublings(0x80_0000, 24);
    lemma_mag_increases(23, 0xc80_0000, 0x3200_0000);
    law_order_is_value_order(normal, u);
    law_order_is_value_order(u, Binary32 { bits: 0x7d00_0000 });
    lemma_mag_increases(23, 0x7380_0000, 0x7d00_0000);
    lemma_doublings(0x7380_0000, 22);
    // eight spacings, or a nano, are a quarter at most
    law_eightfold_is_exact(u);
    let nano = Binary32::from_bits(NANO);
    lemma_mag_increases(23, NANO as nat, 0x3100_0000);
    lemma_doubled_magnitude(0x3100_0000);
    lemma_doubled_magnitude(0x3180_0000);
    law_quarter_is_exact(x);
    law_order_is_value_order(nano, quarter().mul(x));
    law_order_is_value_order(eight().mul(u), quarter().mul(x));
    law_order_is_value_order(Binary32::zero(), eight().mul(u));
    let d = EosBranchInputs::pure_delta(x);
    assert(d == eight().mul(u).max(nano));
    // twice the number is finite, and the step is no larger than the number
    law_exact_double(x, high);
    law_order_is_value_order(d, x);
    law_finite_difference_is_a_number(x, d);
    law_finite_difference_is_a_number(x, x);
    law_addition_commutes(x, d);
    law_addition_is_monotone(d, x, x);
    law_order_is_value_order(Binary32::zero(), x);
    law_order_is_value_order(Binary32::zero(), d);
    law_non_negative_steps(x, d);
}

/// Doubling an index some times multiplies its magnitude by a power of two.
proof fn lemma_doublings(k: nat, times: nat)
    requires
        k >= 0x80_0000,
    ensures
        mag(23, k + times * 0x80_0000) == pow2(times) * mag(23, k),
    decreases times,
{
    if times == 0 {
        lemma2_to64();
    } else {
        let t = (times - 1) as nat;
        lemma_doublings(k, t);
        lemma_doubled_magnitude((k + t * 0x80_0000) as nat);
        lemma_pow2_unfold(times);
        let m = mag(23, k);
        assert(2 * (pow2(t) * m) == (2 * pow2(t)) * m) by (nonlinear_arith);
    }
}

/// A patch narrower than the density it starts at ends at its edge, to the bit.
proof fn lemma_narrow_patch_ends_at_its_edge(pure: Binary32, mix: Binary32)
    requires
        pure.is_finite(),
        pure.value() > 0,
        mix.is_finite(),
        mix.bits < 0x8000_0000,
        pure.le(mix),
        mix.sub(pure).lt(pure),
    ensures
        pure.add(mix.sub(pure)) == mix,
{
    lemma_single_constants();
    law_order_is_value_order(pure, mix);
    if mix.value() > 2 * pure.value() {
        // the width would be no smaller than the density
        law_exact_double(pure, mix);
        let double = pure.add(pure);
        law_order_is_value_order(double, mix);
        law_finite_difference_is_a_number(double, pure);
        law_finite_difference_is_a_number(mix, pure);
        law_subtraction_is_monotone(double, mix, pure);
        law_close_difference_is_exact(double, pure);
        law_order_is_value_order(pure, double.sub(pure));
    }
    law_close_difference_is_exact(mix, pure);
    law_exact_difference_adds_back(mix, pure);
}

impl EosBranchInputs {
    /// A width solves the relation of the vapour edge as closely as is asked for: it is met
    /// within a nanopascal, or the bracket is narrower than a nano, or narrower than one
    /// part in `2^21`.
    pub open spec fn is_tight<N: Numerics>(
        &self,
        b_pa: Binary32,
        p_v_gauge_pa: Binary32,
        width: Binary32,
        lo: Binary32,
        hi: Binary32,
        n: &N,
    ) -> bool {
        ||| self.mismatch_at(b_pa, p_v_gauge_pa, width, n).abs().lt(Binary32::from_bits(NANO))
        ||| hi.sub(lo).lt(Binary32::from_bits(NANO))
        ||| 0x20_0000 * (hi.value() - lo.value()) <= lo.value()
    }
}

/// The middle of two positive numbers lies between them, and is off by rounding alone.
proof fn lemma_middle(lo: Binary32, hi: Binary32)
    requires
        0x0100_0000 <= lo.bits <= hi.bits < 0x7e80_0000,
    ensures
        ({
            let mid = half().mul(lo.add(hi));
            &&& lo.bits <= mid.bits <= hi.bits
            &&& 0x80_0000 * (2 * mid.value() - (lo.value() + hi.value())) <= hi.value()
            &&& 0x80_0000 * ((lo.value() + hi.value()) - 2 * mid.value()) <= hi.value()
        }),
{
    lemma_single_constants();
    lemma_mag_increases(23, lo.bits as nat, hi.bits as nat);
    lemma_mag_increases(23, 0, lo.bits as nat);
    lemma_doubled_below(lo);
    lemma_doubled_below(hi);
    let sum = lo.add(hi);
    law_order_is_value_order(lo, hi);
    law_order_is_value_order(Binary32::zero(), hi);
    law_finite_difference_is_a_number(lo, hi);
    law_finite_difference_is_a_number(lo, lo);
    law_finite_difference_is_a_number(hi, hi);
    law_addition_commutes(lo, hi);
    law_addition_is_monotone(lo, hi, hi);
    law_addition_is_monotone(lo, hi, lo);
    law_non_negative_steps(lo, hi);
    law_order_is_value_order(sum, hi.add(hi));
    law_order_is_value_order(lo.add(lo), sum);
    law_order_is_value_order(lo, sum);
    law_sum_error(lo, hi);
    law_half_is_exact(sum);
    let mid = half().mul(sum);
    law_order_is_value_order(lo, mid);
    law_order_is_value_order(mid, hi);
}

/// Each halving halves the bracket, up to rounding.
proof fn lemma_bisection_tightens<N: Numerics>(
    inputs: EosBranchInputs,
    b_pa: Binary32,
    p_v_gauge_pa: Binary32,
    lo: Binary32,
    hi: Binary32,
    steps: nat,
    n: &N,
) -> (r: (Binary32, Binary32))
    requires
        inputs.mismatch_at(b_pa, p_v_gauge_pa, lo, n).gt(Binary32::zero()),
        !inputs.mismatch_at(b_pa, p_v_gauge_pa, hi, n).gt(Binary32::zero()),
        0x0100_0000 <= lo.bits <= hi.bits < 0x7e80_0000,
        steps <= 0x1_0000,
        pow2(100) <= lo.value(),
        (0x40_0000 + steps) * (hi.value() - lo.value()) <= lo.value() + pow2(steps) * pow2(100),
    ensures
        ({
            let width = inputs.bisected_width(b_pa, p_v_gauge_pa, lo, hi, steps, n);
            &&& inputs.brackets_width(b_pa, p_v_gauge_pa, width, r.0, r.1, n)
            &&& inputs.is_tight(b_pa, p_v_gauge_pa, width, r.0, r.1, n)
        }),
    decreases steps,
{
    let mid = half().mul(lo.add(hi));
    let f_mid = inputs.mismatch_at(b_pa, p_v_gauge_pa, mid, n);
    if steps == 0 {
        assert(pow2(0) == 1) by {
            lemma2_to64();
        }
        let g = hi.value() - lo.value();
        let l = lo.value();
        let e = pow2(100) as int;
        assert(0x20_0000 * g <= l) by (nonlinear_arith)
            requires
                (0x40_0000 + steps) * g <= l + pow2(steps) * e,
                steps == 0,
                pow2(steps) == 1,
                e <= l,
        ;
        assert(inputs.bisected_width(b_pa, p_v_gauge_pa, lo, hi, steps, n) == mid);
        assert(inputs.brackets_width(b_pa, p_v_gauge_pa, mid, lo, hi, n));
        assert(inputs.is_tight(b_pa, p_v_gauge_pa, mid, lo, hi, n));
        (lo, hi)
    } else if f_mid.abs().lt(Binary32::from_bits(NANO)) || hi.sub(lo).lt(
        Binary32::from_bits(NANO),
    ) {
        assert(inputs.bisected_width(b_pa, p_v_gauge_pa, lo, hi, steps, n) == mid);
        assert(inputs.brackets_width(b_pa, p_v_gauge_pa, mid, lo, hi, n));
        assert(inputs.is_tight(b_pa, p_v_gauge_pa, mid, lo, hi, n));
        (lo, hi)
    } else {
        lemma_single_constants();
        lemma_middle(lo, hi);
        law_order_is_value_order(lo, mid);
        law_order_is_value_order(mid, hi);
        let k = (steps - 1) as nat;
        let left: int = if f_mid.gt(Binary32::zero()) {
            mid.value()
        } else {
            lo.value()
        };
        let right: int = if f_mid.gt(Binary32::zero()) {
            hi.value()
        } else {
            mid.value()
        };
        lemma_pow2_unfold(steps);
        lemma_pow2_pos(k);
        lemma_pow2_pos(100);
        assert(pow2(steps) * pow2(100) == 2 * (pow2(k) * pow2(100))) by (nonlinear_arith)
            requires
                pow2(steps) == 2 * pow2(k),
        ;
        lemma_halved_gap(
            lo.value(),
            hi.value(),
            left,
            right,
            k as int,
            (pow2(k) * pow2(100)) as int,
        );
        if f_mid.gt(Binary32::zero()) {
            assert(inputs.bisected_width(b_pa, p_v_gauge_pa, lo, hi, steps, n)
                == inputs.bisected_width(b_pa, p_v_gauge_pa, mid, hi, k, n));
            lemma_bisection_tightens(inputs, b_pa, p_v_gauge_pa, mid, hi, k, n)
        } else {
            assert(inputs.bisected_width(b_pa, p_v_gauge_pa, lo, hi, steps, n)
                == inputs.bisected_width(b_pa, p_v_gauge_pa, lo, mid, k, n));
            lemma_bisection_tightens(inputs, b_pa, p_v_gauge_pa, lo, mid, k, n)
        }
    }
}

/// One halving in whole numbers.
proof fn lemma_halved_gap(lo: int, hi: int, left: int, right: int, k: int, slack: int)
    requires
        0 < lo <= left <= right <= hi,
        0 <= k <= 0x1_0000,
        (0x40_0001 + k) * (hi - lo) <= lo + 2 * slack,
        0x80_0000 * (2 * (right - left)) <= 0x80_0000 * (hi - lo) + hi,
    ensures
        (0x40_0000 + k) * (right - left) <= left + slack,
{
    let g = hi - lo;
    let w = right - left;
    // 2 w <= g + hi / 2^23, so (2^22 + k) 2 w <= (2^22 + k) g + hi (2^22 + k) / 2^23
    assert((0x40_0000 + k) * (0x100_0000 * w) <= (0x40_0000 + k) * (0x80_0000 * g + hi))
        by (nonlinear_arith)
        requires
            0x80_0000 * (2 * w) <= 0x80_0000 * g + hi,
            0 <= k,
    ;
    assert((0x40_0000 + k) * (0x100_0000 * w) == 0x100_0000 * ((0x40_0000 + k) * w))
        by (nonlinear_arith);
    assert((0x40_0000 + k) * (0x80_0000 * g + hi) == 0x80_0000 * ((0x40_0001 + k) * g) - 0x80_0000
        * g + (0x40_0000 + k) * hi) by (nonlinear_arith);
    assert((0x40_0000 + k) * hi <= 0x41_0000 * hi) by (nonlinear_arith)
        requires
            k <= 0x1_0000,
            hi > 0,
    ;
}

/// The edges of a band are those of one width, and that width is as exact as the search
/// asks for: where the relation of the vapour edge is not met within a nanopascal, its sign
/// changes within a nano or within one part in `2^21` of the width. Asked for is a search
/// range that starts below its end and ends short of overflow.
pub proof fn law_band_width_is_tight<N: Numerics>(
    inputs: EosBranchInputs,
    p_v_gauge_pa: Binary32,
    n: &N,
) -> (r: (Binary32, Binary32, Binary32))
    requires
        ({
            let end = EosBranchInputs::search_end(
                inputs.width_limit(
                    inputs.stiffness(),
                    p_v_gauge_pa,
                    Binary32::from_bits(PI).mul(inputs.c_min_m_s.mul(inputs.c_min_m_s)),
                ),
            );
            MICRO <= end.bits < 0x7e80_0000
        }),
    ensures
        inputs.mixture_band(inputs.stiffness(), p_v_gauge_pa, n) matches Ok((plus, minus)) ==> {
            let (width, lo, hi) = r;
            &&& plus == inputs.liquid_edge(p_v_gauge_pa, width)
            &&& minus == plus.sub(width)
            &&& inputs.brackets_width(inputs.stiffness(), p_v_gauge_pa, width, lo, hi, n)
            &&& inputs.is_tight(inputs.stiffness(), p_v_gauge_pa, width, lo, hi, n)
        },
{
    let b_pa = inputs.stiffness();
    let limit = inputs.width_limit(
        b_pa,
        p_v_gauge_pa,
        Binary32::from_bits(PI).mul(inputs.c_min_m_s.mul(inputs.c_min_m_s)),
    );
    let lo = Binary32::from_bits(MICRO);
    let hi = EosBranchInputs::search_end(limit);
    let steps = BAND_STEPS as nat;
    let width = inputs.bisected_width(b_pa, p_v_gauge_pa, lo, hi, steps, n);
    if inputs.mixture_band(b_pa, p_v_gauge_pa, n) is Ok {
        lemma_single_constants();
        lemma_search_range(hi);
        let (a, b) = lemma_bisection_tightens(inputs, b_pa, p_v_gauge_pa, lo, hi, steps, n);
        (width, a, b)
    } else {
        (width, lo, hi)
    }
}

/// The search range is narrow enough for the steps there are.
proof fn lemma_search_range(hi: Binary32)
    requires
        MICRO <= hi.bits < 0x7e80_0000,
    ensures
        pow2(100) <= Binary32::from_bits(MICRO).value(),
        (0x40_0000 + BAND_STEPS) * (hi.value() - Binary32::from_bits(MICRO).value())
            <= Binary32::from_bits(MICRO).value() + pow2(BAND_STEPS as nat) * pow2(100),
{
    lemma_single_constants();
    lemma2_to64();
    lemma_mag_of_parts(23, 106, 0x86_37bd);
    lemma_pow2_strictly_increases(100, 106);
    lemma_mag_increases(23, hi.bits as nat, 0x7e80_0000);
    lemma_mag_of_parts(23, 252, pow2(23));
    lemma_pow2_adds(23, 252);
    lemma_pow2_adds(200, 100);
    lemma_pow2_adds(275, 25);
    assert(pow2(25) == 0x200_0000);
    let top = pow2(275) as int;
    let m = Binary32::from_bits(MICRO).value();
    let g = hi.value() - m;
    assert((0x40_0000 + BAND_STEPS) * g <= top * 0x200_0000) by (nonlinear_arith)
        requires
            g <= top,
            top > 0,
            BAND_STEPS == 200,
    ;
}

/// In the liquid the squared sound speed is the slope of the pressure: between two
/// densities within a factor of two of the rest density, the pressures differ by the
/// squared sound speed times the distance, up to one part in `2^24` of either pressure.
pub proof fn law_liquid_pressure_has_the_sound_slope<N: Numerics>(
    eos: CavitatingEosParams,
    rho: Binary32,
    denser: Binary32,
    n: &N,
)
    requires
        eos.branch(rho) == Branch::Liquid,
        eos.branch(denser) == Branch::Liquid,
        rho.is_finite(),
        denser.is_finite(),
        eos.rho_l_ref_kg_m3.is_finite(),
        0 < rho.value() <= 2 * eos.rho_l_ref_kg_m3.value(),
        0 < denser.value() <= 2 * eos.rho_l_ref_kg_m3.value(),
        0 < eos.rho_l_ref_kg_m3.value() <= 2 * rho.value(),
        eos.rho_l_ref_kg_m3.value() <= 2 * denser.value(),
        eos.sound_at(rho, n).is_finite(),
        eos.pressure_at(rho, n).is_finite(),
        eos.pressure_at(denser, n).is_finite(),
        eos.pressure_at(rho, n).abs().bits >= 0x80_0000,
        eos.pressure_at(denser, n).abs().bits >= 0x80_0000,
    ensures
        eos.sound_at(rho, n) == eos.sound_at(denser, n),
        ({
            let low = eos.pressure_at(rho, n).value() * pow2(149);
            let high = eos.pressure_at(denser, n).value() * pow2(149);
            let rise = eos.sound_at(rho, n).value() * (denser.value() - rho.value());
            let size = magnitude(low) + magnitude(high);
            -size <= 0x100_0000 * ((high - low) - rise) <= size
        }),
{
    let base = eos.rho_l_ref_kg_m3;
    let c2 = eos.sound_at(rho, n);
    law_close_difference_is_exact_either_way(rho, base);
    law_close_difference_is_exact_either_way(denser, base);
    law_product_error(c2, rho.sub(base));
    law_product_error(c2, denser.sub(base));
    let c = c2.value();
    let x = rho.value();
    let y = denser.value();
    let z = base.value();
    assert(c * (y - z) - c * (x - z) == c * (y - x)) by (nonlinear_arith);
}

} // verus!
