use vstd::arithmetic::power2::lemma2_to64;
use vstd::arithmetic::power2::lemma_pow2_strictly_increases;
use vstd::arithmetic::power2::lemma_pow2_unfold;
use vstd::arithmetic::power2::pow2;
use vstd::pervasive::unreached;
use vstd::prelude::*;

use crate::binary::arith::integer_of;
use crate::binary::laws::law_addition_commutes;
use crate::binary::laws::law_addition_is_monotone;
use crate::binary::laws::law_cancellation;
use crate::binary::laws::law_difference_is_not_negative;
use crate::binary::laws::law_finite_product_is_a_number;
use crate::binary::laws::law_integer_steps_are_one;
use crate::binary::laws::law_integers_are_finite;
use crate::binary::laws::law_minus_one_negates;
use crate::binary::laws::law_multiplication_commutes;
use crate::binary::laws::law_multiplication_is_monotone;
use crate::binary::laws::law_negated_factor;
use crate::binary::laws::law_non_negative_steps;
use crate::binary::laws::law_one_is_neutral;
use crate::binary::laws::law_positive_difference;
use crate::binary::laws::law_reversed_difference;
use crate::binary::laws::law_small_integers_are_exact;
use crate::binary::laws::law_sum_with_finite_is_a_number;
use crate::binary::laws::law_zero_absorbs;
use crate::binary::laws::law_zero_adds_nothing;
use crate::binary::laws::law_zero_divided;
use crate::binary::laws::law_zero_times_positive;
use crate::binary::laws::lemma_integer_zero;
use crate::binary::order::lemma_nearest_is_attained;
use crate::binary::round::single;
use crate::binary::single::Binary32;
use crate::binary::single::half;
use crate::binary::single::lemma_single_constants;
use crate::cavitating_eos::CLOSURE_STEPS;
use crate::cavitating_eos::CavitatingEosParams;
use crate::cavitating_eos::DENSITY_SAMPLES;
use crate::cavitating_eos::EosBranchInputs;
use crate::cavitating_eos::EosError;
use crate::cavitating_eos::FIRST_NODES;
use crate::cavitating_eos::MAX_NODES;
use crate::cavitating_eos::PI;
use crate::cavitating_eos::Side;
use crate::cavitating_eos::gauge_pressure;
use crate::cavitating_eos::law_eos_is_evaluable;
use crate::cavitating_eos::p_v_gauge_pa_at_temperature;
use crate::cavitating_eos::ulp_at;
use crate::numerics::Numerics;

verus! {

/// The boiling point at standard pressure, up to which the saturation curve is used:
/// 373.15 K.
pub const WATER_SATURATION_MAX_VALID_K: u32 = 0x43ba_9333;

/// Width at which the closure search stops, 1.0e-4 K.
pub const CLOSURE_TOLERANCE_K: u32 = 0x38d1_b717;

/// Largest relative error of the pressure between nodes, 1.0e-3.
pub const PRESSURE_REL_TOL: u32 = 0x3a83_126f;

/// Largest relative error of the slope between nodes, 0.05.
pub const DERIVATIVE_REL_TOL: u32 = 0x3d4c_cccd;

impl EosBranchInputs {
    /// The outer edge of the liquid patch at a saturation pressure: none where there
    /// is no band, an error where a band cannot be joined.
    pub open spec fn outer_edge<N: Numerics>(&self, p_v_gauge_pa: Binary32, n: &N) -> Result<
        Option<Binary32>,
        EosError,
    > {
        let b_pa = self.stiffness();
        let limit = self.width_limit(
            b_pa,
            p_v_gauge_pa,
            Binary32::from_bits(PI).mul(self.c_min_m_s).mul(self.c_min_m_s),
        );
        if !(b_pa.is_finite() && b_pa.gt(Binary32::zero())) {
            Ok(None)
        } else if !Self::is_width(limit) || !self.is_bracketed(b_pa, p_v_gauge_pa, limit, n) {
            Ok(None)
        } else {
            match self.mixture_band(b_pa, p_v_gauge_pa, n) {
                Err(e) => Err(e),
                Ok((plus, minus)) => if !self.is_ordered(plus, minus) {
                    Ok(None)
                } else {
                    match self.liquid_patch(plus, minus, p_v_gauge_pa, b_pa, n) {
                        Err(e) => Err(e),
                        Ok(patch) => Ok(Some(patch.rho_left.add(patch.width))),
                    }
                },
            }
        }
    }

    /// The outer edge of the liquid patch at a saturation pressure.
    pub fn try_liquid_patch_outer_edge_kg_m3<N: Numerics>(&self, p_v_gauge_pa: Binary32, n: &N) -> (
    r: Result<Option<Binary32>, EosError>)
        ensures
            r == self.outer_edge(p_v_gauge_pa, n),
    {
        let b_pa = self.stiffness();
        if !(b_pa.is_finite() && b_pa.gt(Binary32::zero())) {
            return Ok(None);
        }
        let limit = self.width_limit(
            b_pa,
            p_v_gauge_pa,
            Binary32::from_bits(PI).mul(self.c_min_m_s).mul(self.c_min_m_s),
        );
        if !Self::is_width(limit) || !self.check_bracket(b_pa, p_v_gauge_pa, limit, n) {
            return Ok(None);
        }
        let (plus, minus) = match self.solve_mixture_band(b_pa, p_v_gauge_pa, n) {
            Err(e) => {
                return Err(e);
            },
            Ok(band) => band,
        };
        if !self.is_ordered(plus, minus) {
            return Ok(None);
        }
        match self.build_liquid_patch(plus, minus, p_v_gauge_pa, b_pa, n) {
            Err(e) => Err(e),
            Ok(patch) => Ok(Some(patch.rho_left.add(patch.width))),
        }
    }

    /// The rounding of the liquid pressure, as a density.
    #[verifier::allow_in_spec]
    pub fn density_guard(&self) -> Binary32
        returns
            ulp_at(self.rho_l_ref_kg_m3.mul(self.c_l_m_s).mul(self.c_l_m_s)).div(
                self.c_l_m_s.mul(self.c_l_m_s),
            ),
    {
        ulp_at(self.rho_l_ref_kg_m3.mul(self.c_l_m_s).mul(self.c_l_m_s)).div(
            self.c_l_m_s.mul(self.c_l_m_s),
        )
    }

    /// Whether the liquid patch at a temperature ends below the rest density.
    pub open spec fn closed_at<N: Numerics>(&self, temperature_k: Binary32, n: &N) -> Result<
        bool,
        EosError,
    > {
        match self.outer_edge(gauge_pressure(temperature_k, n), n) {
            Err(e) => Err(e),
            Ok(None) => Ok(false),
            Ok(Some(edge)) => Ok(edge.add(self.density_guard()).le(self.rho_l_ref_kg_m3)),
        }
    }

    /// Whether the liquid patch at a temperature ends below the rest density.
    pub fn is_closed_at<N: Numerics>(&self, temperature_k: Binary32, n: &N) -> (r: Result<
        bool,
        EosError,
    >)
        ensures
            r == self.closed_at(temperature_k, n),
    {
        let p_v_gauge_pa = p_v_gauge_pa_at_temperature(temperature_k, n);
        match self.try_liquid_patch_outer_edge_kg_m3(p_v_gauge_pa, n) {
            Err(e) => Err(e),
            Ok(None) => Ok(false),
            Ok(Some(edge)) => Ok(edge.add(self.density_guard()).le(self.rho_l_ref_kg_m3)),
        }
    }

    /// The lower end that at most `steps` bisections of `[lo, hi]` end with.
    pub open spec fn bisected_closure<N: Numerics>(
        &self,
        lo: Binary32,
        hi: Binary32,
        steps: nat,
        n: &N,
    ) -> Result<Binary32, EosError>
        decreases steps,
    {
        let mid = half().mul(lo.add(hi));
        if steps == 0 || hi.sub(lo).lt(Binary32::from_bits(CLOSURE_TOLERANCE_K)) {
            Ok(lo)
        } else {
            match self.closed_at(mid, n) {
                Err(e) => Err(e),
                Ok(true) => self.bisected_closure(mid, hi, (steps - 1) as nat, n),
                Ok(false) => self.bisected_closure(lo, mid, (steps - 1) as nat, n),
            }
        }
    }

    /// The highest temperature found at which the liquid patch is closed.
    pub open spec fn closure_max<N: Numerics>(
        &self,
        t_min_k: Binary32,
        t_max_k: Binary32,
        n: &N,
    ) -> Result<Binary32, EosError> {
        match (self.closed_at(t_min_k, n), self.closed_at(t_max_k, n)) {
            (Err(e), _) => Err(e),
            (Ok(false), _) => Err(EosError::Range),
            (Ok(true), Err(e)) => Err(e),
            (Ok(true), Ok(true)) => Err(EosError::Range),
            (Ok(true), Ok(false)) => self.bisected_closure(
                t_min_k,
                t_max_k,
                CLOSURE_STEPS as nat,
                n,
            ),
        }
    }

    /// The highest temperature found at which the liquid patch is closed. The search
    /// range starts at a closed temperature and ends at one that is not closed.
    pub fn t_liquid_closure_max<N: Numerics>(
        &self,
        t_min_k: Binary32,
        t_max_k: Binary32,
        n: &N,
    ) -> (r: Result<Binary32, EosError>)
        ensures
            r == self.closure_max(t_min_k, t_max_k, n),
            r matches Ok(t) ==> self.closed_at(t, n) == Ok::<bool, EosError>(true),
    {
        match self.is_closed_at(t_min_k, n) {
            Err(e) => {
                return Err(e);
            },
            Ok(closed) => {
                if !closed {
                    return Err(EosError::Range);
                }
            },
        }
        match self.is_closed_at(t_max_k, n) {
            Err(e) => {
                return Err(e);
            },
            Ok(closed) => {
                if closed {
                    return Err(EosError::Range);
                }
            },
        }
        let mut lo = t_min_k;
        let mut hi = t_max_k;
        let mut left: u32 = CLOSURE_STEPS;
        let ghost goal = self.closure_max(t_min_k, t_max_k, n);
        while left > 0 && !hi.sub(lo).lt(Binary32::from_bits(CLOSURE_TOLERANCE_K))
            invariant
                goal == self.closure_max(t_min_k, t_max_k, n),
                goal == self.bisected_closure(lo, hi, left as nat, n),
                self.closed_at(lo, n) == Ok::<bool, EosError>(true),
            decreases left,
        {
            let mid = half().mul(lo.add(hi));
            match self.is_closed_at(mid, n) {
                Err(e) => {
                    return Err(e);
                },
                Ok(closed) => {
                    if closed {
                        lo = mid;
                    } else {
                        hi = mid;
                    }
                },
            }
            left = left - 1;
        }
        Ok(lo)
    }
}

/// The temperature-dependent part of an equation of state: the band and the reach of
/// the patches into it.
#[derive(Clone, Copy, Debug, PartialEq, Eq, Structural)]
pub struct CavitatingEosPrimitives {
    pub rho_m_plus_kg_m3: Binary32,
    pub rho_m_minus_kg_m3: Binary32,
    pub delta_mix_liquid_kg_m3: Binary32,
    pub delta_mix_vapor_kg_m3: Binary32,
}

impl EosBranchInputs {
    /// Band and reach at a saturation pressure.
    pub open spec fn primitives<N: Numerics>(&self, p_v_gauge_pa: Binary32, n: &N) -> Result<
        CavitatingEosPrimitives,
        EosError,
    > {
        let b_pa = self.stiffness();
        match self.mixture_band(b_pa, p_v_gauge_pa, n) {
            Err(e) => Err(e),
            Ok((plus, minus)) => match (
                self.liquid_patch(plus, minus, p_v_gauge_pa, b_pa, n),
                self.vapor_patch(plus, minus, p_v_gauge_pa, b_pa, n),
            ) {
                (Ok(liquid), Ok(vapor)) => Ok(
                    CavitatingEosPrimitives {
                        rho_m_plus_kg_m3: plus,
                        rho_m_minus_kg_m3: minus,
                        delta_mix_liquid_kg_m3: plus.sub(liquid.rho_left),
                        delta_mix_vapor_kg_m3: vapor.rho_left.add(vapor.width).sub(minus),
                    },
                ),
                _ => Err(EosError::Patch),
            },
        }
    }

    /// Band and reach at a temperature.
    pub fn primitives_at_temperature<N: Numerics>(&self, temperature_k: Binary32, n: &N) -> (r:
        Result<CavitatingEosPrimitives, EosError>)
        ensures
            r == self.primitives(gauge_pressure(temperature_k, n), n),
    {
        let p_v_gauge_pa = p_v_gauge_pa_at_temperature(temperature_k, n);
        let b_pa = self.stiffness();
        let (plus, minus) = match self.solve_mixture_band(b_pa, p_v_gauge_pa, n) {
            Err(e) => {
                return Err(e);
            },
            Ok(band) => band,
        };
        match self.build_liquid_patch(plus, minus, p_v_gauge_pa, b_pa, n) {
            Err(_e) => Err(EosError::Patch),
            Ok(liquid) => match self.build_vapor_patch(plus, minus, p_v_gauge_pa, b_pa, n) {
                Err(_e) => Err(EosError::Patch),
                Ok(vapor) => Ok(
                    CavitatingEosPrimitives {
                        rho_m_plus_kg_m3: plus,
                        rho_m_minus_kg_m3: minus,
                        delta_mix_liquid_kg_m3: plus.sub(liquid.rho_left),
                        delta_mix_vapor_kg_m3: vapor.rho_left.add(vapor.width).sub(minus),
                    },
                ),
            },
        }
    }

    /// The equation of state with interpolated band and reach.
    pub open spec fn eos_from<N: Numerics>(
        &self,
        p: CavitatingEosPrimitives,
        p_v_gauge_pa: Binary32,
        n: &N,
    ) -> CavitatingEosParams {
        let b_pa = self.stiffness();
        let edges = self.edges(p.rho_m_plus_kg_m3, p.rho_m_minus_kg_m3, p_v_gauge_pa);
        self.assemble(
            p_v_gauge_pa,
            b_pa,
            p.rho_m_plus_kg_m3,
            p.rho_m_minus_kg_m3,
            self.patch_at(Side::Liquid, p.delta_mix_liquid_kg_m3, edges, b_pa, n),
            self.patch_at(Side::Vapor, p.delta_mix_vapor_kg_m3, edges, b_pa, n),
        )
    }

    /// The temperature of node `i` of `count`.
    #[verifier::allow_in_spec]
    pub fn node_temperature(t_min_k: Binary32, t_max_k: Binary32, i: u64, last: u64) -> Binary32
        returns
            t_min_k.add(
                t_max_k.sub(t_min_k).mul(
                    Binary32::from_integer(i).div(Binary32::from_integer(last)),
                ),
            ),
    {
        t_min_k.add(
            t_max_k.sub(t_min_k).mul(
                Binary32::from_integer(i).div(Binary32::from_integer(last)),
            ),
        )
    }

    /// The first `i` of `count` nodes.
    pub open spec fn nodes<N: Numerics>(
        &self,
        t_min_k: Binary32,
        t_max_k: Binary32,
        count: nat,
        i: nat,
        n: &N,
    ) -> Result<Seq<CavitatingEosPrimitives>, EosError>
        decreases i,
    {
        if i == 0 {
            Ok(Seq::empty())
        } else {
            let t = Self::node_temperature(t_min_k, t_max_k, (i - 1) as u64, (count - 1) as u64);
            match self.nodes(t_min_k, t_max_k, count, (i - 1) as nat, n) {
                Err(e) => Err(e),
                Ok(before) => match self.primitives(gauge_pressure(t, n), n) {
                    Err(e) => Err(e),
                    Ok(p) => Ok(before.push(p)),
                },
            }
        }
    }
}

/// What a table holds.
pub struct TableView {
    pub inputs: EosBranchInputs,
    pub t_min_k: Binary32,
    pub t_max_k: Binary32,
    pub nodes: Seq<CavitatingEosPrimitives>,
}

/// Bands and reaches at evenly spaced temperatures, to interpolate between.
#[derive(Clone, Debug)]
pub struct CavitatingEosTable {
    pub rho_l_ref_kg_m3: Binary32,
    pub c_l_m_s: Binary32,
    pub gamma_l: Binary32,
    pub rho_v_ref_kg_m3: Binary32,
    pub gamma_v: Binary32,
    pub c_min_m_s: Binary32,
    pub t_min_k: Binary32,
    pub t_max_k: Binary32,
    pub nodes: Vec<CavitatingEosPrimitives>,
}

impl View for CavitatingEosTable {
    type V = TableView;

    open spec fn view(&self) -> TableView {
        TableView {
            inputs: EosBranchInputs {
                rho_l_ref_kg_m3: self.rho_l_ref_kg_m3,
                c_l_m_s: self.c_l_m_s,
                gamma_l: self.gamma_l,
                rho_v_ref_kg_m3: self.rho_v_ref_kg_m3,
                gamma_v: self.gamma_v,
                c_min_m_s: self.c_min_m_s,
            },
            t_min_k: self.t_min_k,
            t_max_k: self.t_max_k,
            nodes: self.nodes@,
        }
    }
}

/// `a + (b - a) * local`.
#[verifier::allow_in_spec]
pub fn lerp(a: Binary32, b: Binary32, local: Binary32) -> Binary32
    returns
        a.add(b.sub(a).mul(local)),
{
    a.add(b.sub(a).mul(local))
}

impl TableView {
    /// There is an interval to interpolate in, and the temperatures are in order.
    pub open spec fn wf(self) -> bool {
        &&& 2 <= self.nodes.len() <= u32::MAX
        &&& self.t_min_k.le(self.t_max_k)
    }

    /// Index of the last node, as a number.
    pub open spec fn last(self) -> Binary32 {
        Binary32::from_integer((self.nodes.len() - 1) as u64)
    }

    /// A temperature relative to the range.
    pub open spec fn fraction(self, temperature_k: Binary32) -> Binary32 {
        if self.t_max_k.gt(self.t_min_k) {
            temperature_k.clamp(self.t_min_k, self.t_max_k).sub(self.t_min_k).div(
                self.t_max_k.sub(self.t_min_k),
            )
        } else {
            Binary32::zero()
        }
    }

    /// The position of a temperature in units of the node spacing.
    pub open spec fn position(self, temperature_k: Binary32) -> Binary32 {
        self.fraction(temperature_k).mul(self.last()).clamp(Binary32::zero(), self.last())
    }

    /// The node below a temperature.
    pub open spec fn node_below(self, temperature_k: Binary32) -> int {
        let i = self.position(temperature_k).to_integer() as int;
        if i < self.nodes.len() - 2 {
            i
        } else {
            self.nodes.len() - 2
        }
    }

    /// Position between the node below and the next one.
    pub open spec fn local(self, temperature_k: Binary32) -> Binary32 {
        self.position(temperature_k).sub(
            Binary32::from_integer(self.node_below(temperature_k) as u64),
        ).clamp(Binary32::zero(), Binary32::one())
    }

    /// Band and reach between the nodes around a temperature.
    pub open spec fn interpolated(self, temperature_k: Binary32) -> CavitatingEosPrimitives {
        let i = self.node_below(temperature_k);
        let l = self.local(temperature_k);
        let a = self.nodes[i];
        let b = self.nodes[i + 1];
        CavitatingEosPrimitives {
            rho_m_plus_kg_m3: lerp(a.rho_m_plus_kg_m3, b.rho_m_plus_kg_m3, l),
            rho_m_minus_kg_m3: lerp(a.rho_m_minus_kg_m3, b.rho_m_minus_kg_m3, l),
            delta_mix_liquid_kg_m3: lerp(a.delta_mix_liquid_kg_m3, b.delta_mix_liquid_kg_m3, l),
            delta_mix_vapor_kg_m3: lerp(a.delta_mix_vapor_kg_m3, b.delta_mix_vapor_kg_m3, l),
        }
    }

    /// The equation of state at a temperature, from the table.
    pub open spec fn eos_at<N: Numerics>(self, temperature_k: Binary32, n: &N) -> CavitatingEosParams {
        self.inputs.eos_from(
            self.interpolated(temperature_k),
            gauge_pressure(temperature_k, n),
            n,
        )
    }
}

/// The numbers of nodes are not negative.
proof fn lemma_integers_are_not_negative(k: u64)
    ensures
        Binary32::zero().le(Binary32::from_integer(k)),
        !Binary32::from_integer(k).is_nan(),
{
    reveal(Binary32::spec_from_integer);
    lemma_single_constants();
    lemma_nearest_is_attained(
        23,
        single().kinf(),
        integer_of(single(), k as nat),
    );
}

impl CavitatingEosTable {
    /// The constants of the branches.
    #[verifier::allow_in_spec]
    pub fn branches(&self) -> EosBranchInputs
        returns
            self@.inputs,
    {
        EosBranchInputs {
            rho_l_ref_kg_m3: self.rho_l_ref_kg_m3,
            c_l_m_s: self.c_l_m_s,
            gamma_l: self.gamma_l,
            rho_v_ref_kg_m3: self.rho_v_ref_kg_m3,
            gamma_v: self.gamma_v,
            c_min_m_s: self.c_min_m_s,
        }
    }

    /// Number of nodes.
    pub fn node_count(&self) -> (r: usize)
        ensures
            r == self@.nodes.len(),
    {
        self.nodes.len()
    }

    /// Lowest temperature.
    pub fn t_min_k(&self) -> (r: Binary32)
        ensures
            r == self@.t_min_k,
    {
        self.t_min_k
    }

    /// Highest temperature.
    pub fn t_max_k(&self) -> (r: Binary32)
        ensures
            r == self@.t_max_k,
    {
        self.t_max_k
    }

    /// Band and reach between the nodes around a temperature.
    pub fn interpolate_primitives_at_temperature(&self, temperature_k: Binary32) -> (r:
        CavitatingEosPrimitives)
        requires
            self@.wf(),
        ensures
            r == self@.interpolated(temperature_k),
    {
        proof {
            lemma_single_constants();
            lemma_integers_are_not_negative((self@.nodes.len() - 1) as u64);
        }
        let count: usize = self.nodes.len();
        let last = Binary32::from_integer((count - 1) as u64);
        let t = temperature_k.clamp(self.t_min_k, self.t_max_k);
        let frac = if self.t_max_k.gt(self.t_min_k) {
            t.sub(self.t_min_k).div(self.t_max_k.sub(self.t_min_k))
        } else {
            Binary32::zero()
        };
        let pos = frac.mul(last).clamp(Binary32::zero(), last);
        let whole: u64 = pos.to_integer();
        let below: usize = if whole < (count - 2) as u64 {
            whole as usize
        } else {
            count - 2
        };
        let local = pos.sub(Binary32::from_integer(below as u64)).clamp(
            Binary32::zero(),
            Binary32::one(),
        );
        let a = self.nodes[below];
        let b = self.nodes[below + 1];
        CavitatingEosPrimitives {
            rho_m_plus_kg_m3: lerp(a.rho_m_plus_kg_m3, b.rho_m_plus_kg_m3, local),
            rho_m_minus_kg_m3: lerp(a.rho_m_minus_kg_m3, b.rho_m_minus_kg_m3, local),
            delta_mix_liquid_kg_m3: lerp(a.delta_mix_liquid_kg_m3, b.delta_mix_liquid_kg_m3, local),
            delta_mix_vapor_kg_m3: lerp(a.delta_mix_vapor_kg_m3, b.delta_mix_vapor_kg_m3, local),
        }
    }

    /// The equation of state at a temperature, from the table.
    pub fn reconstruct<N: Numerics>(&self, temperature_k: Binary32, n: &N) -> (r:
        CavitatingEosParams)
        requires
            self@.wf(),
        ensures
            r == self@.eos_at(temperature_k, n),
    {
        let inputs = self.branches();
        let p = self.interpolate_primitives_at_temperature(temperature_k);
        let p_v_gauge_pa = p_v_gauge_pa_at_temperature(temperature_k, n);
        let b_pa = inputs.stiffness();
        let edges = inputs.edges(p.rho_m_plus_kg_m3, p.rho_m_minus_kg_m3, p_v_gauge_pa);
        let liquid = inputs.reconstruct_junction_patch(
            Side::Liquid,
            p.delta_mix_liquid_kg_m3,
            &edges,
            b_pa,
            n,
        );
        let vapor = inputs.reconstruct_junction_patch(
            Side::Vapor,
            p.delta_mix_vapor_kg_m3,
            &edges,
            b_pa,
            n,
        );
        inputs.assemble(
            p_v_gauge_pa,
            b_pa,
            p.rho_m_plus_kg_m3,
            p.rho_m_minus_kg_m3,
            liquid,
            vapor,
        )
    }
}

impl EosBranchInputs {
    /// The density of sample `j` of the error measurement: from half the vapour to
    /// 1.05 times the liquid rest density.
    #[verifier::allow_in_spec]
    pub fn sample_density(&self, j: u64) -> Binary32
        returns
            self.rho_v_ref_kg_m3.mul(half()).add(
                self.rho_l_ref_kg_m3.mul(Binary32::from_bits(0x3f86_6666)).sub(
                    self.rho_v_ref_kg_m3.mul(half()),
                ).mul(Binary32::from_integer(j).div(Binary32::from_integer(DENSITY_SAMPLES))),
            ),
    {
        let lo = self.rho_v_ref_kg_m3.mul(half());
        let hi = self.rho_l_ref_kg_m3.mul(Binary32::from_bits(0x3f86_6666));
        lo.add(
            hi.sub(lo).mul(Binary32::from_integer(j).div(Binary32::from_integer(DENSITY_SAMPLES))),
        )
    }
}

/// The difference of two values relative to the second, which counts as one at least.
#[verifier::allow_in_spec]
pub fn relative_error(approximate: Binary32, direct: Binary32) -> Binary32
    returns
        approximate.sub(direct).abs().div(direct.abs().max(Binary32::one())),
{
    approximate.sub(direct).abs().div(direct.abs().max(Binary32::one()))
}

/// The worst errors of pressure and slope over the first `j` density samples, from
/// the errors `before`.
pub open spec fn sampled_errors<N: Numerics>(
    table: CavitatingEosParams,
    direct: CavitatingEosParams,
    inputs: EosBranchInputs,
    before: (Binary32, Binary32),
    j: nat,
    n: &N,
) -> (Binary32, Binary32)
    decreases j,
{
    if j == 0 {
        before
    } else {
        let w = sampled_errors(table, direct, inputs, before, (j - 1) as nat, n);
        let rho = inputs.sample_density((j - 1) as u64);
        (
            w.0.max(relative_error(table.pressure_at(rho, n), direct.pressure_at(rho, n))),
            w.1.max(relative_error(table.sound_at(rho, n), direct.sound_at(rho, n))),
        )
    }
}

impl TableView {
    /// The temperature in the middle between node `i` and the next one.
    pub open spec fn midpoint(self, i: nat) -> Binary32 {
        let last = (self.nodes.len() - 1) as u64;
        half().mul(
            EosBranchInputs::node_temperature(self.t_min_k, self.t_max_k, i as u64, last).add(
                EosBranchInputs::node_temperature(
                    self.t_min_k,
                    self.t_max_k,
                    (i + 1) as u64,
                    last,
                ),
            ),
        )
    }

    /// The worst errors over the first `i` midpoints.
    pub open spec fn errors_before<N: Numerics>(self, i: nat, n: &N) -> Result<
        (Binary32, Binary32),
        EosError,
    >
        decreases i,
    {
        if i == 0 {
            Ok((Binary32::zero(), Binary32::zero()))
        } else {
            let t = self.midpoint((i - 1) as nat);
            match self.errors_before((i - 1) as nat, n) {
                Err(e) => Err(e),
                Ok(before) => match self.inputs.eos(gauge_pressure(t, n), n) {
                    Err(e) => Err(e),
                    Ok(direct) => if !self.eos_at(t, n).wf() {
                        Err(EosError::Patch)
                    } else {
                        Ok(
                            sampled_errors(
                                self.eos_at(t, n),
                                direct,
                                self.inputs,
                                before,
                                (DENSITY_SAMPLES + 1) as nat,
                                n,
                            ),
                        )
                    },
                },
            }
        }
    }

    /// The worst relative errors of pressure and slope at the midpoints.
    pub open spec fn worst_errors<N: Numerics>(self, n: &N) -> Result<
        (Binary32, Binary32),
        EosError,
    > {
        self.errors_before((self.nodes.len() - 1) as nat, n)
    }

    /// The errors of the table are below the tolerances.
    pub open spec fn is_accurate<N: Numerics>(self, n: &N) -> bool {
        self.worst_errors(n) matches Ok(e) && e.0.lt(Binary32::from_bits(PRESSURE_REL_TOL))
            && e.1.lt(Binary32::from_bits(DERIVATIVE_REL_TOL))
    }
}

impl EosBranchInputs {
    /// The table of `count` nodes.
    pub open spec fn table<N: Numerics>(
        &self,
        t_min_k: Binary32,
        t_max_k: Binary32,
        count: nat,
        n: &N,
    ) -> Result<TableView, EosError> {
        match self.nodes(t_min_k, t_max_k, count, count, n) {
            Err(e) => Err(e),
            Ok(nodes) => Ok(TableView { inputs: *self, t_min_k, t_max_k, nodes }),
        }
    }

    /// The first table, over doublings of the node count from `count`, that is
    /// accurate or has the most nodes.
    pub open spec fn searched_table<N: Numerics>(
        &self,
        t_min_k: Binary32,
        t_max_k: Binary32,
        count: nat,
        n: &N,
    ) -> Result<TableView, EosError>
        decreases 2 * MAX_NODES - count,
    {
        match self.table(t_min_k, t_max_k, count, n) {
            Err(e) => Err(e),
            Ok(view) => match view.worst_errors(n) {
                Err(e) => Err(e),
                Ok(_) => if view.is_accurate(n) || count >= MAX_NODES || count == 0 {
                    Ok(view)
                } else {
                    self.searched_table(t_min_k, t_max_k, 2 * count, n)
                },
            },
        }
    }

    /// The table from `t_min_k` to the closure temperature.
    pub open spec fn built_table<N: Numerics>(&self, t_min_k: Binary32, n: &N) -> Result<
        TableView,
        EosError,
    > {
        match self.closure_max(t_min_k, Binary32::from_bits(WATER_SATURATION_MAX_VALID_K), n) {
            Err(e) => Err(e),
            Ok(t_max_k) => if !t_min_k.le(t_max_k) {
                Err(EosError::Range)
            } else {
                self.searched_table(t_min_k, t_max_k, FIRST_NODES as nat, n)
            },
        }
    }
}

impl CavitatingEosTable {
    /// The table of `count` nodes.
    pub fn build_with_node_count<N: Numerics>(
        inputs: EosBranchInputs,
        t_min_k: Binary32,
        t_max_k: Binary32,
        count: usize,
        n: &N,
    ) -> (r: Result<CavitatingEosTable, EosError>)
        requires
            2 <= count <= MAX_NODES,
        ensures
            match r {
                Err(e) => inputs.table(t_min_k, t_max_k, count as nat, n) == Err::<
                    TableView,
                    EosError,
                >(e),
                Ok(t) => inputs.table(t_min_k, t_max_k, count as nat, n) == Ok::<
                    TableView,
                    EosError,
                >(t@) && t@.nodes.len() == count,
            },
    {
        let mut nodes: Vec<CavitatingEosPrimitives> = Vec::new();
        let mut i: usize = 0;
        while i < count
            invariant
                2 <= count <= MAX_NODES,
                i <= count,
                nodes.len() == i,
                inputs.nodes(t_min_k, t_max_k, count as nat, i as nat, n) == Ok::<
                    Seq<CavitatingEosPrimitives>,
                    EosError,
                >(nodes@),
            decreases count - i,
        {
            let t = EosBranchInputs::node_temperature(
                t_min_k,
                t_max_k,
                i as u64,
                (count - 1) as u64,
            );
            match inputs.primitives_at_temperature(t, n) {
                Err(e) => {
                    proof {
                        lemma_failed_nodes(inputs, t_min_k, t_max_k, count as nat, (i + 1) as nat, count as nat, e, n);
                    }
                    return Err(e);
                },
                Ok(p) => {
                    nodes.push(p);
                },
            }
            i = i + 1;
        }
        Ok(
            CavitatingEosTable {
                rho_l_ref_kg_m3: inputs.rho_l_ref_kg_m3,
                c_l_m_s: inputs.c_l_m_s,
                gamma_l: inputs.gamma_l,
                rho_v_ref_kg_m3: inputs.rho_v_ref_kg_m3,
                gamma_v: inputs.gamma_v,
                c_min_m_s: inputs.c_min_m_s,
                t_min_k,
                t_max_k,
                nodes,
            },
        )
    }

    /// The worst errors over the density samples at one midpoint.
    fn sample_errors<N: Numerics>(
        table: &CavitatingEosParams,
        direct: &CavitatingEosParams,
        inputs: &EosBranchInputs,
        before: (Binary32, Binary32),
        n: &N,
    ) -> (r: (Binary32, Binary32))
        requires
            table.wf(),
            direct.wf(),
        ensures
            r == sampled_errors(
                *table,
                *direct,
                *inputs,
                before,
                (DENSITY_SAMPLES + 1) as nat,
                n,
            ),
    {
        let mut worst = before;
        let mut j: u64 = 0;
        while j <= DENSITY_SAMPLES
            invariant
                table.wf(),
                direct.wf(),
                j <= DENSITY_SAMPLES + 1,
                worst == sampled_errors(*table, *direct, *inputs, before, j as nat, n),
            decreases DENSITY_SAMPLES + 1 - j,
        {
            let rho = inputs.sample_density(j);
            let p_err = relative_error(
                table.pressure_gauge_pa(rho, n),
                direct.pressure_gauge_pa(rho, n),
            );
            let d_err = relative_error(table.acoustic_c2_si(rho, n), direct.acoustic_c2_si(rho, n));
            worst = (worst.0.max(p_err), worst.1.max(d_err));
            j = j + 1;
        }
        worst
    }

    /// The worst relative errors of pressure and slope at the midpoints between
    /// nodes.
    pub fn measure_worst_case_interpolation_error<N: Numerics>(&self, n: &N) -> (r: Result<
        (Binary32, Binary32),
        EosError,
    >)
        requires
            self@.wf(),
        ensures
            r == self@.worst_errors(n),
    {
        let inputs = self.branches();
        let last: u64 = (self.nodes.len() - 1) as u64;
        let mut worst = (Binary32::zero(), Binary32::zero());
        let mut i: u64 = 0;
        while i < last
            invariant
                self@.wf(),
                i <= last,
                last == self@.nodes.len() - 1,
                inputs == self@.inputs,
                self@.errors_before(i as nat, n) == Ok::<(Binary32, Binary32), EosError>(worst),
            decreases last - i,
        {
            let t_lo = EosBranchInputs::node_temperature(self.t_min_k, self.t_max_k, i, last);
            let t_hi = EosBranchInputs::node_temperature(self.t_min_k, self.t_max_k, i + 1, last);
            let t_mid = half().mul(t_lo.add(t_hi));
            let via_table = self.reconstruct(t_mid, n);
            let p_v_gauge_pa = p_v_gauge_pa_at_temperature(t_mid, n);
            match CavitatingEosParams::try_new(inputs, p_v_gauge_pa, n) {
                Err(e) => {
                    proof {
                        lemma_failed_errors(self@, (i + 1) as nat, last as nat, e, n);
                    }
                    return Err(e);
                },
                Ok(via_direct) => {
                    if !via_table.is_evaluable() {
                        proof {
                            lemma_failed_errors(
                                self@,
                                (i + 1) as nat,
                                last as nat,
                                EosError::Patch,
                                n,
                            );
                        }
                        return Err(EosError::Patch);
                    }
                    proof {
                        law_eos_is_evaluable(inputs, p_v_gauge_pa, n);
                    }
                    worst = Self::sample_errors(&via_table, &via_direct, &inputs, worst, n);
                },
            }
            i = i + 1;
        }
        Ok(worst)
    }

    /// The table from `t_min_k` to the closure temperature, or why there is none. It
    /// meets the tolerances between its nodes, unless it has the most nodes.
    #[verifier::spinoff_prover]
    #[verifier::rlimit(40)]
    pub fn try_build<N: Numerics>(inputs: EosBranchInputs, t_min_k: Binary32, n: &N) -> (r: Result<
        CavitatingEosTable,
        EosError,
    >)
        ensures
            match r {
                Err(e) => inputs.built_table(t_min_k, n) == Err::<TableView, EosError>(e),
                Ok(t) => {
                    &&& inputs.built_table(t_min_k, n) == Ok::<TableView, EosError>(t@)
                    &&& t@.wf()
                    &&& FIRST_NODES <= t@.nodes.len() <= MAX_NODES
                    &&& t@.is_accurate(n) || t@.nodes.len() == MAX_NODES
                    &&& t@.inputs == inputs
                    &&& t@.t_min_k == t_min_k
                    &&& inputs.closed_at(t@.t_max_k, n) == Ok::<bool, EosError>(true)
                },
            },
    {
        let t_max_k = match inputs.t_liquid_closure_max(
            t_min_k,
            Binary32::from_bits(WATER_SATURATION_MAX_VALID_K),
            n,
        ) {
            Err(e) => {
                return Err(e);
            },
            Ok(t) => t,
        };
        if !t_min_k.le(t_max_k) {
            return Err(EosError::Range);
        }
        let mut count: usize = FIRST_NODES;
        let ghost goal = inputs.built_table(t_min_k, n);
        let ghost mut k: nat = 2;
        proof {
            lemma2_to64();
        }
        loop
            invariant
                goal == inputs.built_table(t_min_k, n),
                goal == inputs.searched_table(t_min_k, t_max_k, count as nat, n),
                t_min_k.le(t_max_k),
                inputs.closed_at(t_max_k, n) == Ok::<bool, EosError>(true),
                FIRST_NODES <= count <= MAX_NODES,
                count == pow2(k),
                2 <= k <= 12,
            decreases MAX_NODES - count,
        {
            let table = match Self::build_with_node_count(inputs, t_min_k, t_max_k, count, n) {
                Err(e) => {
                    return Err(e);
                },
                Ok(table) => table,
            };
            match table.measure_worst_case_interpolation_error(n) {
                Err(e) => {
                    return Err(e);
                },
                Ok((p_err, d_err)) => {
                    if (p_err.lt(Binary32::from_bits(PRESSURE_REL_TOL)) && d_err.lt(
                        Binary32::from_bits(DERIVATIVE_REL_TOL),
                    )) || count >= MAX_NODES {
                        return Ok(table);
                    }
                },
            }
            proof {
                lemma2_to64();
                lemma_pow2_unfold(k + 1);
                assert(k < 12);
                k = k + 1;
                if k < 12 {
                    lemma_pow2_strictly_increases(k, 12);
                }
            }
            count = 2 * count;
        }
    }

    /// The table from `t_min_k` to the closure temperature.
    pub fn build<N: Numerics>(
        rho_l_ref_kg_m3: Binary32,
        c_l_m_s: Binary32,
        gamma_l: Binary32,
        rho_v_ref_kg_m3: Binary32,
        gamma_v: Binary32,
        c_min_m_s: Binary32,
        t_min_k: Binary32,
        n: &N,
    ) -> (r: CavitatingEosTable)
        requires
            (EosBranchInputs {
                rho_l_ref_kg_m3,
                c_l_m_s,
                gamma_l,
                rho_v_ref_kg_m3,
                gamma_v,
                c_min_m_s,
            }).built_table(t_min_k, n) is Ok,
        ensures
            (EosBranchInputs {
                rho_l_ref_kg_m3,
                c_l_m_s,
                gamma_l,
                rho_v_ref_kg_m3,
                gamma_v,
                c_min_m_s,
            }).built_table(t_min_k, n) == Ok::<TableView, EosError>(r@),
            r@.wf(),
            r@.is_accurate(n) || r@.nodes.len() == MAX_NODES,
    {
        let inputs = EosBranchInputs {
            rho_l_ref_kg_m3,
            c_l_m_s,
            gamma_l,
            rho_v_ref_kg_m3,
            gamma_v,
            c_min_m_s,
        };
        match Self::try_build(inputs, t_min_k, n) {
            Ok(table) => table,
            Err(_e) => unreached(),
        }
    }
}

proof fn lemma_failed_nodes<N: Numerics>(
    inputs: EosBranchInputs,
    t_min_k: Binary32,
    t_max_k: Binary32,
    count: nat,
    i: nat,
    j: nat,
    e: EosError,
    n: &N,
)
    requires
        i <= j,
        inputs.nodes(t_min_k, t_max_k, count, i, n) == Err::<
            Seq<CavitatingEosPrimitives>,
            EosError,
        >(e),
    ensures
        inputs.nodes(t_min_k, t_max_k, count, j, n) == Err::<
            Seq<CavitatingEosPrimitives>,
            EosError,
        >(e),
    decreases j - i,
{
    if i < j {
        lemma_failed_nodes(inputs, t_min_k, t_max_k, count, i, (j - 1) as nat, e, n);
    }
}

proof fn lemma_failed_errors<N: Numerics>(view: TableView, i: nat, j: nat, e: EosError, n: &N)
    requires
        i <= j,
        view.errors_before(i, n) == Err::<(Binary32, Binary32), EosError>(e),
    ensures
        view.errors_before(j, n) == Err::<(Binary32, Binary32), EosError>(e),
    decreases j - i,
{
    if i < j {
        lemma_failed_errors(view, i, (j - 1) as nat, e, n);
    }
}

/// Where the liquid is closed, its patch ends no higher than the rest density.
pub proof fn law_closed_liquid_ends_below_rest<N: Numerics>(
    inputs: EosBranchInputs,
    temperature_k: Binary32,
    n: &N,
)
    requires
        inputs.closed_at(temperature_k, n) == Ok::<bool, EosError>(true),
        Binary32::zero().le(inputs.density_guard()),
    ensures
        inputs.eos(gauge_pressure(temperature_k, n), n) matches Ok(eos)
            ==> eos.liquid_patch_outer_edge_kg_m3().le(inputs.rho_l_ref_kg_m3),
{
    if inputs.eos(gauge_pressure(temperature_k, n), n) is Ok {
        let eos = inputs.eos(gauge_pressure(temperature_k, n), n)->Ok_0;
        let edge = eos.liquid_patch_outer_edge_kg_m3();
        if edge.is_finite() {
            law_non_negative_steps(edge, inputs.density_guard());
        } else {
            reveal(Binary32::spec_add);
            lemma_single_constants();
        }
    }
}

/// Outside its range a table answers with its ends: it never extrapolates.
pub proof fn law_table_does_not_extrapolate(t: TableView, temperature_k: Binary32)
    requires
        t.wf(),
    ensures
        temperature_k.lt(t.t_min_k) ==> t.interpolated(temperature_k) == t.interpolated(t.t_min_k),
        temperature_k.gt(t.t_max_k) ==> t.interpolated(temperature_k) == t.interpolated(t.t_max_k),
{
}

impl TableView {
    /// `at` has the values of the node `i`.
    pub open spec fn is_node(self, at: CavitatingEosPrimitives, i: int) -> bool {
        &&& at.rho_m_plus_kg_m3.eq(self.nodes[i].rho_m_plus_kg_m3)
        &&& at.rho_m_minus_kg_m3.eq(self.nodes[i].rho_m_minus_kg_m3)
        &&& at.delta_mix_liquid_kg_m3.eq(self.nodes[i].delta_mix_liquid_kg_m3)
        &&& at.delta_mix_vapor_kg_m3.eq(self.nodes[i].delta_mix_vapor_kg_m3)
    }

    /// The values of the node `i` and their distances to those of the next are finite.
    pub open spec fn is_finite_at(self, i: int) -> bool {
        let a = self.nodes[i];
        let b = self.nodes[i + 1];
        &&& a.rho_m_plus_kg_m3.is_finite()
        &&& a.rho_m_minus_kg_m3.is_finite()
        &&& a.delta_mix_liquid_kg_m3.is_finite()
        &&& a.delta_mix_vapor_kg_m3.is_finite()
        &&& b.rho_m_plus_kg_m3.sub(a.rho_m_plus_kg_m3).is_finite()
        &&& b.rho_m_minus_kg_m3.sub(a.rho_m_minus_kg_m3).is_finite()
        &&& b.delta_mix_liquid_kg_m3.sub(a.delta_mix_liquid_kg_m3).is_finite()
        &&& b.delta_mix_vapor_kg_m3.sub(a.delta_mix_vapor_kg_m3).is_finite()
    }
}

/// At the position of a node a table answers with that node; at the last one with the
/// node before it plus the distance between the two.
pub proof fn law_table_meets_its_nodes(t: TableView, temperature_k: Binary32, i: nat)
    requires
        t.wf(),
        t.nodes.len() < 0x100_0000,
        i < t.nodes.len(),
        t.position(temperature_k) == Binary32::from_integer(i as u64),
        i + 1 < t.nodes.len() ==> t.is_finite_at(i as int),
        i + 1 == t.nodes.len() ==> t.is_finite_at(i - 1),
    ensures
        i + 1 < t.nodes.len() ==> t.is_node(t.interpolated(temperature_k), i as int),
        i + 1 == t.nodes.len() ==> {
            let at = t.interpolated(temperature_k);
            let a = t.nodes[i - 1];
            let b = t.nodes[i as int];
            &&& at.rho_m_plus_kg_m3 == a.rho_m_plus_kg_m3.add(
                b.rho_m_plus_kg_m3.sub(a.rho_m_plus_kg_m3),
            )
            &&& at.rho_m_minus_kg_m3 == a.rho_m_minus_kg_m3.add(
                b.rho_m_minus_kg_m3.sub(a.rho_m_minus_kg_m3),
            )
            &&& at.delta_mix_liquid_kg_m3 == a.delta_mix_liquid_kg_m3.add(
                b.delta_mix_liquid_kg_m3.sub(a.delta_mix_liquid_kg_m3),
            )
            &&& at.delta_mix_vapor_kg_m3 == a.delta_mix_vapor_kg_m3.add(
                b.delta_mix_vapor_kg_m3.sub(a.delta_mix_vapor_kg_m3),
            )
        },
{
    lemma_single_constants();
    let x = Binary32::from_integer(i as u64);
    law_small_integers_are_exact(i as u64);
    if i + 1 < t.nodes.len() {
        law_cancellation(x);
        assert(t.node_below(temperature_k) == i);
        assert(t.local(temperature_k) == Binary32::zero());
        let a = t.nodes[i as int];
        let b = t.nodes[(i + 1) as int];
        lemma_lerp_starts(a.rho_m_plus_kg_m3, b.rho_m_plus_kg_m3);
        lemma_lerp_starts(a.rho_m_minus_kg_m3, b.rho_m_minus_kg_m3);
        lemma_lerp_starts(a.delta_mix_liquid_kg_m3, b.delta_mix_liquid_kg_m3);
        lemma_lerp_starts(a.delta_mix_vapor_kg_m3, b.delta_mix_vapor_kg_m3);
    } else {
        law_integer_steps_are_one((i - 1) as u64);
        assert(t.node_below(temperature_k) == i - 1);
        assert(t.local(temperature_k) == Binary32::one());
        let a = t.nodes[i - 1];
        let b = t.nodes[i as int];
        law_one_is_neutral(b.rho_m_plus_kg_m3.sub(a.rho_m_plus_kg_m3));
        law_one_is_neutral(b.rho_m_minus_kg_m3.sub(a.rho_m_minus_kg_m3));
        law_one_is_neutral(b.delta_mix_liquid_kg_m3.sub(a.delta_mix_liquid_kg_m3));
        law_one_is_neutral(b.delta_mix_vapor_kg_m3.sub(a.delta_mix_vapor_kg_m3));
    }
}

/// The lowest temperature has the position of the first node.
pub proof fn law_range_starts_at_the_first_node(t: TableView)
    requires
        t.wf(),
        t.t_min_k.is_finite(),
    ensures
        t.position(t.t_min_k) == Binary32::from_integer(0),
{
    lemma_single_constants();
    let zero = Binary32::zero();
    law_cancellation(t.t_min_k);
    lemma_integer_zero();
    if t.t_max_k.gt(t.t_min_k) {
        law_positive_difference(t.t_max_k, t.t_min_k);
        law_zero_divided(t.t_max_k.sub(t.t_min_k));
    }
    assert(t.fraction(t.t_min_k) == zero);
    law_integers_are_finite((t.nodes.len() - 1) as u64);
    law_zero_times_positive(t.last());
}

/// `x` lies between `a` and `a + (b - a)`.
pub open spec fn is_between(a: Binary32, b: Binary32, x: Binary32) -> bool {
    &&& a.le(b) ==> a.le(x) && x.le(a.add(b.sub(a)))
    &&& b.le(a) ==> a.add(b.sub(a)).le(x) && x.le(a)
}

/// An interpolated value lies between those it is interpolated from.
pub proof fn law_lerp_stays_between(a: Binary32, b: Binary32, local: Binary32)
    requires
        a.is_finite(),
        b.sub(a).is_finite(),
        Binary32::zero().le(local),
        local.le(Binary32::one()),
    ensures
        is_between(a, b, lerp(a, b, local)),
{
    lemma_single_constants();
    let zero = Binary32::zero();
    let one = Binary32::one();
    let d = b.sub(a);
    law_one_is_neutral(d);
    law_finite_product_is_a_number(d, local);
    law_sum_with_finite_is_a_number(d.mul(local), a);
    law_sum_with_finite_is_a_number(d, a);
    law_addition_commutes(a, d.mul(local));
    law_addition_commutes(a, d);
    law_multiplication_commutes(d, local);
    law_multiplication_commutes(d, one);
    if local.eq(zero) {
        law_zero_absorbs(local, d);
        law_zero_adds_nothing(a, d.mul(local));
    }
    if a.le(b) {
        law_difference_is_not_negative(b, a);
        if d.eq(zero) {
            law_zero_absorbs(d, local);
            law_zero_adds_nothing(a, d.mul(local));
            law_zero_adds_nothing(a, d);
        } else {
            law_finite_product_is_a_number(one, d);
            law_multiplication_is_monotone(local, one, d);
            law_zero_absorbs(zero, d);
            law_multiplication_is_monotone(zero, local, d);
            law_non_negative_steps(a, d.mul(local));
            law_addition_is_monotone(d.mul(local), d, a);
        }
    }
    if b.le(a) {
        law_reversed_difference(a, b);
        let e = a.sub(b);
        if d.eq(zero) {
            law_zero_absorbs(d, local);
            law_zero_adds_nothing(a, d.mul(local));
            law_zero_adds_nothing(a, d);
        } else {
            assert(d == e.neg());
            law_difference_is_not_negative(a, b);
            law_finite_product_is_a_number(e, local);
            law_multiplication_commutes(e, local);
            law_multiplication_commutes(e, one);
            law_one_is_neutral(e);
            law_finite_product_is_a_number(one, e);
            law_multiplication_is_monotone(local, one, e);
            law_zero_absorbs(zero, e);
            law_multiplication_is_monotone(zero, local, e);
            law_negated_factor(e, local);
            law_minus_one_negates(a, e.mul(local));
            law_non_negative_steps(a, e.mul(local));
            law_addition_is_monotone(d, d.mul(local), a);
        }
    }
}

/// A table lies between the nodes next to a temperature.
pub proof fn law_table_lies_between_neighbours(t: TableView, temperature_k: Binary32)
    requires
        t.wf(),
        t.is_finite_at(t.node_below(temperature_k)),
        !t.position(temperature_k).is_nan(),
        !t.position(temperature_k).sub(
            Binary32::from_integer(t.node_below(temperature_k) as u64),
        ).is_nan(),
    ensures
        ({
            let i = t.node_below(temperature_k);
            let a = t.nodes[i];
            let b = t.nodes[i + 1];
            let at = t.interpolated(temperature_k);
            &&& is_between(a.rho_m_plus_kg_m3, b.rho_m_plus_kg_m3, at.rho_m_plus_kg_m3)
            &&& is_between(a.rho_m_minus_kg_m3, b.rho_m_minus_kg_m3, at.rho_m_minus_kg_m3)
            &&& is_between(
                a.delta_mix_liquid_kg_m3,
                b.delta_mix_liquid_kg_m3,
                at.delta_mix_liquid_kg_m3,
            )
            &&& is_between(
                a.delta_mix_vapor_kg_m3,
                b.delta_mix_vapor_kg_m3,
                at.delta_mix_vapor_kg_m3,
            )
        }),
{
    lemma_single_constants();
    let i = t.node_below(temperature_k);
    let a = t.nodes[i];
    let b = t.nodes[i + 1];
    let l = t.local(temperature_k);
    law_lerp_stays_between(a.rho_m_plus_kg_m3, b.rho_m_plus_kg_m3, l);
    law_lerp_stays_between(a.rho_m_minus_kg_m3, b.rho_m_minus_kg_m3, l);
    law_lerp_stays_between(a.delta_mix_liquid_kg_m3, b.delta_mix_liquid_kg_m3, l);
    law_lerp_stays_between(a.delta_mix_vapor_kg_m3, b.delta_mix_vapor_kg_m3, l);
}

proof fn lemma_lerp_starts(a: Binary32, b: Binary32)
    requires
        !a.is_nan(),
        b.sub(a).is_finite(),
    ensures
        lerp(a, b, Binary32::zero()).eq(a),
{
    law_zero_absorbs(Binary32::zero(), b.sub(a));
    law_zero_adds_nothing(a, b.sub(a).mul(Binary32::zero()));
}

} // verus!
