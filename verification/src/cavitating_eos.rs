use vstd::pervasive::unreached;
use vstd::prelude::*;

use crate::binary::double::Binary64;
use crate::binary::double::lemma_double_constants;
use crate::binary::laws::law_addition_commutes;
use crate::binary::laws::law_addition_is_monotone;
use crate::binary::laws::law_cancellation;
use crate::binary::laws::law_difference_is_not_negative;
use crate::binary::laws::law_distance_across;
use crate::binary::laws::law_division_is_monotone;
use crate::binary::laws::law_double_of_half;
use crate::binary::laws::law_doubling_grows;
use crate::binary::laws::law_doubling_is_positive;
use crate::binary::laws::law_doubling_keeps_the_sign;
use crate::binary::laws::law_finite_difference_is_a_number;
use crate::binary::laws::law_finite_product_is_a_number;
use crate::binary::laws::law_finite_quotient_is_a_number;
use crate::binary::laws::law_minus_one_negates;
use crate::binary::laws::law_multiplication_commutes;
use crate::binary::laws::law_multiplication_is_monotone;
use crate::binary::laws::law_non_negative_steps;
use crate::binary::laws::law_positive_difference;
use crate::binary::laws::law_spacing_is_felt;
use crate::binary::laws::law_subtraction_is_antitone;
use crate::binary::laws::law_subtraction_is_monotone;
use crate::binary::laws::law_sum_with_finite_is_a_number;
use crate::binary::laws::law_zero_absorbs;
use crate::binary::laws::law_zero_adds_nothing;
use crate::binary::laws::law_zero_divided;
use crate::binary::laws::law_zero_quotient;
use crate::binary::single::Binary32;
use crate::binary::single::half;
use crate::binary::single::lemma_single_constants;
use crate::binary::single::two;
use crate::mechanics::EPSILON;
use crate::mechanics::MICRO;
use crate::mechanics::NANO;
use crate::numerics::Numerics;
use crate::numerics::Unary;

verus! {

/// Standard atmosphere, 101325 Pa.
pub const STANDARD_ATMOSPHERE_PA: u32 = 0x47c5_e680;

/// The ratio of circumference and diameter.
pub const PI: u32 = 0x4049_0fdb;

/// Width of a patch on the pure side, and least width of its ramp, in units of the
/// spacing of numbers at the junction: 8.
pub const PATCH_MIN_RAMP_ULPS: u32 = 0x4100_0000;

/// Largest number of doublings of a patch on the mixture side.
pub const MAX_MIX_GROWTHS: u32 = 48;

/// Largest number of steps of the band solve.
pub const BAND_STEPS: u32 = 200;

/// Largest number of steps of the closure search.
pub const CLOSURE_STEPS: u32 = 60;

/// Fewest nodes of a table.
pub const FIRST_NODES: usize = 4;

/// Most nodes of a table.
pub const MAX_NODES: usize = 4096;

/// Density samples per midpoint of the error measurement.
pub const DENSITY_SAMPLES: u64 = 30;

/// Why an equation of state cannot be set up.
#[derive(Clone, Copy, Debug, PartialEq, Eq, Structural)]
pub enum EosError {
    /// A reference density, sound speed, exponent or least sound speed is not positive.
    Input,
    /// The shared stiffness is not finite and positive.
    Stiffness,
    /// No width of the mixture band joins liquid and vapour.
    Band,
    /// The band does not lie between vacuum and the liquid rest density.
    Order,
    /// No patch joins a junction locally.
    Patch,
    /// The pieces do not join, carry pressure at rest, fall, or have a slope that is no
    /// sound speed.
    Joint,
    /// A search range does not hold the boundary that is searched for.
    Range,
}

/// The constants of the three branches.
#[derive(Clone, Copy, Debug, PartialEq, Eq, Structural)]
pub struct EosBranchInputs {
    pub rho_l_ref_kg_m3: Binary32,
    pub c_l_m_s: Binary32,
    pub gamma_l: Binary32,
    pub rho_v_ref_kg_m3: Binary32,
    pub gamma_v: Binary32,
    pub c_min_m_s: Binary32,
}

/// A piece of the pressure curve with slope running from `m0` at the left end to `m1`
/// at the right end: constant but for one linear ramp at either end.
#[derive(Clone, Copy, Debug, PartialEq, Eq, Structural)]
pub struct C1Patch {
    pub rho_left: Binary32,
    pub width: Binary32,
    pub p0: Binary32,
    pub m0: Binary32,
    pub p1: Binary32,
    pub m1: Binary32,
}

impl C1Patch {
    /// The width is a number that is not negative.
    pub open spec fn wf(&self) -> bool {
        Binary32::zero().le(self.width)
    }

    /// Whether the patch can be evaluated.
    pub fn is_evaluable(&self) -> (r: bool)
        ensures
            r == self.wf(),
    {
        Binary32::zero().le(self.width)
    }

    /// Whether a density lies in the patch.
    #[verifier::allow_in_spec]
    pub fn contains(&self, rho: Binary32) -> bool
        returns
            rho.ge(self.rho_left) && rho.le(self.rho_left.add(self.width)),
    {
        rho.ge(self.rho_left) && rho.le(self.rho_left.add(self.width))
    }

    /// The slopes at the ends do not differ above rounding.
    #[verifier::allow_in_spec]
    pub fn is_flat(&self) -> bool
        returns
            self.m1.sub(self.m0).abs().lt(Binary32::from_bits(EPSILON)),
    {
        self.m1.sub(self.m0).abs().lt(Binary32::from_bits(EPSILON))
    }

    /// Length of a ramp at the left end that meets both end pressures.
    #[verifier::allow_in_spec]
    pub fn start_ramp(&self) -> Binary32
        returns
            two().mul(self.width).mul(
                self.m1.sub(self.p1.sub(self.p0).div(self.width)),
            ).div(self.m1.sub(self.m0)),
    {
        two().mul(self.width).mul(self.m1.sub(self.p1.sub(self.p0).div(self.width))).div(
            self.m1.sub(self.m0),
        )
    }

    /// Length of a ramp at the right end that meets both end pressures.
    #[verifier::allow_in_spec]
    pub fn end_ramp(&self) -> Binary32
        returns
            two().mul(self.width).mul(
                self.p1.sub(self.p0).div(self.width).sub(self.m0),
            ).div(self.m1.sub(self.m0)),
    {
        two().mul(self.width).mul(self.p1.sub(self.p0).div(self.width).sub(self.m0)).div(
            self.m1.sub(self.m0),
        )
    }

    /// Whether the ramp stands at the left end.
    #[verifier::allow_in_spec]
    pub fn ramps_at_start(&self) -> bool
        returns
            self.start_ramp().ge(Binary32::zero()) && self.start_ramp().le(self.width),
    {
        let l = self.start_ramp();
        l.ge(Binary32::zero()) && l.le(self.width)
    }

    /// The ramp can be computed: it needs no clamp, or the clamp has a range.
    pub open spec fn has_ramp(&self) -> bool {
        self.is_flat() || self.ramps_at_start() || self.wf()
    }

    /// Whether the ramp can be computed.
    pub fn is_rampable(&self) -> (r: bool)
        ensures
            r == self.has_ramp(),
    {
        self.is_flat() || self.ramps_at_start() || self.is_evaluable()
    }

    /// Length of the ramp, and whether it stands at the left end.
    pub open spec fn ramp_of(&self) -> (Binary32, bool) {
        if self.is_flat() {
            (Binary32::zero(), true)
        } else if self.ramps_at_start() {
            (self.start_ramp(), true)
        } else {
            (self.end_ramp().clamp(Binary32::zero(), self.width), false)
        }
    }

    /// Length of the ramp, and whether it stands at the left end.
    pub fn ramp(&self) -> (r: (Binary32, bool))
        requires
            self.has_ramp(),
        ensures
            r == self.ramp_of(),
    {
        if self.is_flat() {
            (Binary32::zero(), true)
        } else if self.ramps_at_start() {
            (self.start_ramp(), true)
        } else {
            (self.end_ramp().clamp(Binary32::zero(), self.width), false)
        }
    }

    /// Distance from the left end, within the patch.
    pub open spec fn offset(&self, rho: Binary32) -> Binary32 {
        rho.sub(self.rho_left).clamp(Binary32::zero(), self.width)
    }

    /// Pressure that a ramp of length `l` adds at distance `x` from its foot.
    #[verifier::allow_in_spec]
    pub fn ramp_gain(&self, x: Binary32, l: Binary32) -> Binary32
        returns
            self.m1.sub(self.m0).mul(x).mul(x).div(
                two().mul(l.max(Binary32::from_bits(EPSILON))),
            ),
    {
        self.m1.sub(self.m0).mul(x).mul(x).div(two().mul(l.max(Binary32::from_bits(EPSILON))))
    }

    /// Slope that a ramp of length `l` adds at distance `x` from its foot.
    #[verifier::allow_in_spec]
    pub fn ramp_slope(&self, x: Binary32, l: Binary32) -> Binary32
        returns
            self.m1.sub(self.m0).mul(x).div(l.max(Binary32::from_bits(EPSILON))),
    {
        self.m1.sub(self.m0).mul(x).div(l.max(Binary32::from_bits(EPSILON)))
    }

    /// The pressure at distance `x` from the left end, for a ramp of length `l`.
    #[verifier::allow_in_spec]
    pub fn value_on_ramp(&self, x: Binary32, l: Binary32, at_start: bool) -> Binary32
        returns
            if at_start {
                if x.le(l) {
                    self.p0.add(self.m0.mul(x)).add(self.ramp_gain(x, l))
                } else {
                    self.p0.add(self.m0.mul(l)).add(
                        self.m1.sub(self.m0).mul(l).mul(half()),
                    ).add(self.m1.mul(x.sub(l)))
                }
            } else if x.le(self.width.sub(l)) {
                self.p0.add(self.m0.mul(x))
            } else {
                self.p0.add(self.m0.mul(x)).add(self.ramp_gain(x.sub(self.width.sub(l)), l))
            },
    {
        if at_start {
            if x.le(l) {
                self.p0.add(self.m0.mul(x)).add(self.ramp_gain(x, l))
            } else {
                self.p0.add(self.m0.mul(l)).add(self.m1.sub(self.m0).mul(l).mul(half())).add(
                    self.m1.mul(x.sub(l)),
                )
            }
        } else {
            let flat = self.width.sub(l);
            if x.le(flat) {
                self.p0.add(self.m0.mul(x))
            } else {
                self.p0.add(self.m0.mul(x)).add(self.ramp_gain(x.sub(flat), l))
            }
        }
    }

    /// The slope at distance `x` from the left end, for a ramp of length `l`.
    #[verifier::allow_in_spec]
    pub fn slope_on_ramp(&self, x: Binary32, l: Binary32, at_start: bool) -> Binary32
        returns
            if at_start {
                if x.le(l) {
                    self.m0.add(self.ramp_slope(x, l))
                } else {
                    self.m1
                }
            } else if x.le(self.width.sub(l)) {
                self.m0
            } else {
                self.m0.add(self.ramp_slope(x.sub(self.width.sub(l)), l))
            },
    {
        if at_start {
            if x.le(l) {
                self.m0.add(self.ramp_slope(x, l))
            } else {
                self.m1
            }
        } else {
            let flat = self.width.sub(l);
            if x.le(flat) {
                self.m0
            } else {
                self.m0.add(self.ramp_slope(x.sub(flat), l))
            }
        }
    }

    /// The right end.
    #[verifier::allow_in_spec]
    pub fn right(&self) -> Binary32
        returns
            self.rho_left.add(self.width),
    {
        self.rho_left.add(self.width)
    }

    /// The pressure that the ramp integrates to at a density.
    pub open spec fn integral(&self, rho: Binary32) -> Binary32 {
        let x = self.offset(rho);
        if self.is_flat() {
            self.p0.add(self.m0.mul(x))
        } else {
            self.value_on_ramp(x, self.ramp_of().0, self.ramp_of().1)
        }
    }

    /// The pressure that the ramp integrates to at a density.
    pub fn integrate(&self, rho: Binary32) -> (r: Binary32)
        requires
            self.wf(),
        ensures
            r == self.integral(rho),
    {
        let x = rho.sub(self.rho_left).clamp(Binary32::zero(), self.width);
        if self.is_flat() {
            self.p0.add(self.m0.mul(x))
        } else {
            let (l, at_start) = self.ramp();
            self.value_on_ramp(x, l, at_start)
        }
    }

    /// Neither slope is negative, and the end pressures are in order.
    #[verifier::allow_in_spec]
    pub fn is_rising(&self) -> bool
        returns
            Binary32::zero().le(self.m0) && Binary32::zero().le(self.m1) && self.p0.le(self.p1),
    {
        Binary32::zero().le(self.m0) && Binary32::zero().le(self.m1) && self.p0.le(self.p1)
    }

    /// A pressure of the patch without what rounding adds: between the end pressures,
    /// where the patch rises. What is not a number stays so.
    #[verifier::allow_in_spec]
    pub fn between_ends(&self, p: Binary32) -> Binary32
        returns
            if self.is_rising() && !p.is_nan() {
                p.max(self.p0).min(self.p1)
            } else {
                p
            },
    {
        if self.is_rising() && !p.is_nan() {
            p.max(self.p0).min(self.p1)
        } else {
            p
        }
    }

    /// A slope of the patch without what rounding adds: between the end slopes. What is
    /// not a number stays so.
    #[verifier::allow_in_spec]
    pub fn between_slopes(&self, m: Binary32) -> Binary32
        returns
            if m.is_nan() {
                m
            } else {
                m.max(self.m0.min(self.m1)).min(self.m0.max(self.m1))
            },
    {
        if m.is_nan() {
            m
        } else {
            m.max(self.m0.min(self.m1)).min(self.m0.max(self.m1))
        }
    }

    /// Whether a density is at the right end or beyond it. The left end is not, however
    /// narrow the patch is.
    #[verifier::allow_in_spec]
    pub fn is_past(&self, rho: Binary32) -> bool
        returns
            rho.gt(self.rho_left) && rho.ge(self.right()) && self.width.gt(Binary32::zero()),
    {
        rho.gt(self.rho_left) && rho.ge(self.right()) && self.width.gt(Binary32::zero())
    }

    /// The pressure at a density.
    pub open spec fn value_at(&self, rho: Binary32) -> Binary32 {
        if self.is_past(rho) {
            self.p1
        } else {
            self.between_ends(self.integral(rho))
        }
    }

    /// The pressure at a density.
    pub fn value(&self, rho: Binary32) -> (r: Binary32)
        requires
            self.wf(),
        ensures
            r == self.value_at(rho),
    {
        if self.is_past(rho) {
            return self.p1;
        }
        self.between_ends(self.integrate(rho))
    }

    /// The slope of the ramp at a density.
    pub open spec fn ramp_at(&self, rho: Binary32) -> Binary32 {
        let x = self.offset(rho);
        if self.is_flat() {
            self.m0
        } else {
            self.slope_on_ramp(x, self.ramp_of().0, self.ramp_of().1)
        }
    }

    /// The slope of the pressure at a density.
    pub open spec fn slope_at(&self, rho: Binary32) -> Binary32 {
        if self.is_past(rho) {
            self.m1
        } else {
            self.between_slopes(self.ramp_at(rho))
        }
    }

    /// The slope of the pressure at a density.
    pub fn derivative(&self, rho: Binary32) -> (r: Binary32)
        requires
            self.wf(),
        ensures
            r == self.slope_at(rho),
    {
        if self.is_past(rho) {
            return self.m1;
        }
        let x = rho.sub(self.rho_left).clamp(Binary32::zero(), self.width);
        let raw = if self.is_flat() {
            self.m0
        } else {
            let (l, at_start) = self.ramp();
            self.slope_on_ramp(x, l, at_start)
        };
        self.between_slopes(raw)
    }

    /// The smaller and the larger of the end slopes.
    #[verifier::allow_in_spec]
    pub fn derivative_extrema(&self) -> (Binary32, Binary32)
        returns
            (self.m0.min(self.m1), self.m0.max(self.m1)),
    {
        (self.m0.min(self.m1), self.m0.max(self.m1))
    }
}

/// The distance from a positive number to the next one.
#[verifier::allow_in_spec]
pub fn ulp_at(x: Binary32) -> Binary32
    returns
        x.next().sub(x),
{
    x.next().sub(x)
}

/// The band of the mixture: its edges, least sound speed and saturation pressure.
#[derive(Clone, Copy, Debug, PartialEq, Eq, Structural)]
pub struct MixtureJunctionEdges {
    pub rho_m_plus_kg_m3: Binary32,
    pub rho_m_minus_kg_m3: Binary32,
    pub c_min_m_s: Binary32,
    pub p_v_gauge_pa: Binary32,
}

impl MixtureJunctionEdges {
    /// Position in the band: minus one at the vapour edge, one at the liquid edge.
    #[verifier::allow_in_spec]
    pub fn position(&self, rho: Binary32) -> Binary32
        returns
            two().mul(rho).sub(self.rho_m_plus_kg_m3.add(self.rho_m_minus_kg_m3)).div(
                self.rho_m_plus_kg_m3.sub(self.rho_m_minus_kg_m3),
            ),
    {
        two().mul(rho).sub(self.rho_m_plus_kg_m3.add(self.rho_m_minus_kg_m3)).div(
            self.rho_m_plus_kg_m3.sub(self.rho_m_minus_kg_m3),
        )
    }

    /// The arcsine law of the mixture.
    pub open spec fn pressure_at<N: Numerics>(&self, rho: Binary32, n: &N) -> Binary32 {
        self.p_v_gauge_pa.add(
            self.c_min_m_s.mul(self.c_min_m_s).mul(
                self.rho_m_plus_kg_m3.sub(self.rho_m_minus_kg_m3),
            ).mul(half()).mul(
                n.unary_of(
                    Unary::Asin,
                    self.position(rho).clamp(Binary32::one().neg(), Binary32::one()),
                ),
            ),
        )
    }

    /// The arcsine law of the mixture.
    pub fn mixture_pressure_gauge<N: Numerics>(&self, rho: Binary32, n: &N) -> (r: Binary32)
        ensures
            r == self.pressure_at(rho, n),
    {
        proof {
            lemma_single_constants();
        }
        let arg = self.position(rho).clamp(Binary32::one().neg(), Binary32::one());
        self.p_v_gauge_pa.add(
            self.c_min_m_s.mul(self.c_min_m_s).mul(
                self.rho_m_plus_kg_m3.sub(self.rho_m_minus_kg_m3),
            ).mul(half()).mul(n.unary(Unary::Asin, arg)),
        )
    }

    /// The slope of the arcsine law; finite at the edges too.
    #[verifier::allow_in_spec]
    pub fn slope_at(&self, rho: Binary32) -> Binary32
        returns
            self.c_min_m_s.mul(self.c_min_m_s).div(
                Binary32::one().sub(self.position(rho).mul(self.position(rho))).max(
                    Binary32::from_bits(0x0da2_4260),
                ).sqrt(),
            ),
    {
        let arg = self.position(rho);
        // not below 1.0e-30
        self.c_min_m_s.mul(self.c_min_m_s).div(
            Binary32::one().sub(arg.mul(arg)).max(Binary32::from_bits(0x0da2_4260)).sqrt(),
        )
    }
}

/// Distance from an edge of the band at which the arcsine law has the slope `s_max`.
pub open spec fn cutoff_delta(
    rho_minus_width: Binary32,
    c_min_m_s: Binary32,
    s_max: Binary32,
) -> Binary64 {
    let ratio = c_min_m_s.to_double().mul(c_min_m_s.to_double()).div(s_max.to_double()).clamp(
        Binary64::zero(),
        Binary64::one(),
    );
    let x_cut = Binary64::one().sub(ratio.mul(ratio)).max(Binary64::zero()).sqrt();
    rho_minus_width.to_double().mul(Binary64::one().sub(x_cut)).mul(
        Binary64::from_bits(0x3fe0_0000_0000_0000),
    )
}

/// Distance from an edge of the band at which the arcsine law has the slope `s_max`.
pub fn mixture_slope_cutoff_delta(
    rho_minus_width: Binary32,
    c_min_m_s: Binary32,
    s_max: Binary32,
) -> (r: Binary64)
    ensures
        r == cutoff_delta(rho_minus_width, c_min_m_s, s_max),
{
    proof {
        lemma_double_constants();
    }
    let ratio = c_min_m_s.to_double().mul(c_min_m_s.to_double()).div(s_max.to_double()).clamp(
        Binary64::zero(),
        Binary64::one(),
    );
    let x_cut = Binary64::one().sub(ratio.mul(ratio)).max(Binary64::zero()).sqrt();
    // one half
    rho_minus_width.to_double().mul(Binary64::one().sub(x_cut)).mul(
        Binary64::from_bits(0x3fe0_0000_0000_0000),
    )
}

/// The gauge saturation pressure of water at a temperature.
pub open spec fn gauge_pressure<N: Numerics>(temperature_k: Binary32, n: &N) -> Binary32 {
    n.saturation_pressure_of(temperature_k).to_double().sub(
        Binary32::from_bits(STANDARD_ATMOSPHERE_PA).to_double(),
    ).to_single()
}

/// The gauge saturation pressure of water at a temperature.
pub fn p_v_gauge_pa_at_temperature<N: Numerics>(temperature_k: Binary32, n: &N) -> (r: Binary32)
    ensures
        r == gauge_pressure(temperature_k, n),
{
    n.saturation_pressure(temperature_k).to_double().sub(
        Binary32::from_bits(STANDARD_ATMOSPHERE_PA).to_double(),
    ).to_single()
}

/// The side of the mixture band that a junction lies on.
#[derive(Clone, Copy, Debug, PartialEq, Eq, Structural)]
pub enum Side {
    Liquid,
    Vapor,
}

impl Side {
    /// Direction from the junction into the mixture.
    #[verifier::allow_in_spec]
    pub fn mix_sign(self) -> Binary32
        returns
            match self {
                Side::Liquid => Binary32::one().neg(),
                Side::Vapor => Binary32::one(),
            },
    {
        match self {
            Side::Liquid => Binary32::one().neg(),
            Side::Vapor => Binary32::one(),
        }
    }

    /// Direction from the junction into the pure phase.
    #[verifier::allow_in_spec]
    pub fn pure_sign(self) -> Binary32
        returns
            match self {
                Side::Liquid => Binary32::one(),
                Side::Vapor => Binary32::one().neg(),
            },
    {
        match self {
            Side::Liquid => Binary32::one(),
            Side::Vapor => Binary32::one().neg(),
        }
    }
}

impl EosBranchInputs {
    /// The stiffness that liquid and vapour share: `c_l^2 rho_l / gamma_l`.
    #[verifier::allow_in_spec]
    pub fn stiffness(&self) -> Binary32
        returns
            self.c_l_m_s.mul(self.c_l_m_s).mul(self.rho_l_ref_kg_m3).div(self.gamma_l),
    {
        self.c_l_m_s.mul(self.c_l_m_s).mul(self.rho_l_ref_kg_m3).div(self.gamma_l)
    }

    /// The linear law of the liquid.
    #[verifier::allow_in_spec]
    pub fn liquid_pressure(&self, rho: Binary32) -> Binary32
        returns
            self.c_l_m_s.mul(self.c_l_m_s).mul(rho.sub(self.rho_l_ref_kg_m3)),
    {
        self.c_l_m_s.mul(self.c_l_m_s).mul(rho.sub(self.rho_l_ref_kg_m3))
    }

    /// The power law of the vapour with stiffness `b_pa`.
    pub open spec fn vapor_pressure_at<N: Numerics>(
        &self,
        rho: Binary32,
        b_pa: Binary32,
        n: &N,
    ) -> Binary32 {
        b_pa.mul(n.pow_of(rho.div(self.rho_v_ref_kg_m3), self.gamma_v).sub(Binary32::one()))
    }

    /// The power law of the vapour with stiffness `b_pa`.
    pub fn vapor_pressure<N: Numerics>(&self, rho: Binary32, b_pa: Binary32, n: &N) -> (r: Binary32)
        ensures
            r == self.vapor_pressure_at(rho, b_pa, n),
    {
        b_pa.mul(n.pow(rho.div(self.rho_v_ref_kg_m3), self.gamma_v).sub(Binary32::one()))
    }

    /// The slope of the power law of the vapour.
    pub open spec fn vapor_slope_at<N: Numerics>(
        &self,
        rho: Binary32,
        b_pa: Binary32,
        n: &N,
    ) -> Binary32 {
        b_pa.mul(self.gamma_v).div(self.rho_v_ref_kg_m3).mul(
            n.pow_of(rho.div(self.rho_v_ref_kg_m3), self.gamma_v.sub(Binary32::one())),
        )
    }

    /// The slope of the power law of the vapour.
    pub fn vapor_slope<N: Numerics>(&self, rho: Binary32, b_pa: Binary32, n: &N) -> (r: Binary32)
        ensures
            r == self.vapor_slope_at(rho, b_pa, n),
    {
        b_pa.mul(self.gamma_v).div(self.rho_v_ref_kg_m3).mul(
            n.pow(rho.div(self.rho_v_ref_kg_m3), self.gamma_v.sub(Binary32::one())),
        )
    }

    /// Half the pressure rise over a band of width `delta_rho`.
    #[verifier::allow_in_spec]
    pub fn half_rise(&self, delta_rho: Binary32) -> Binary32
        returns
            Binary32::from_bits(PI).mul(self.c_min_m_s.mul(self.c_min_m_s)).mul(delta_rho).mul(
                Binary32::from_bits(0x3e80_0000),
            ),
    {
        // a quarter
        Binary32::from_bits(PI).mul(self.c_min_m_s.mul(self.c_min_m_s)).mul(delta_rho).mul(
            Binary32::from_bits(0x3e80_0000),
        )
    }

    /// The liquid edge of a band of width `delta_rho`.
    #[verifier::allow_in_spec]
    pub fn liquid_edge(&self, p_v_gauge_pa: Binary32, delta_rho: Binary32) -> Binary32
        returns
            self.rho_l_ref_kg_m3.add(
                p_v_gauge_pa.add(self.half_rise(delta_rho)).div(self.c_l_m_s.mul(self.c_l_m_s)),
            ),
    {
        self.rho_l_ref_kg_m3.add(
            p_v_gauge_pa.add(self.half_rise(delta_rho)).div(self.c_l_m_s.mul(self.c_l_m_s)),
        )
    }

    /// The vapour edge of a band of width `delta_rho`: zero where the vapour has
    /// collapsed.
    pub open spec fn vapor_edge_at<N: Numerics>(
        &self,
        b_pa: Binary32,
        p_v_gauge_pa: Binary32,
        delta_rho: Binary32,
        n: &N,
    ) -> Binary32 {
        let base = Binary32::one().add(
            p_v_gauge_pa.sub(self.half_rise(delta_rho)).div(b_pa),
        );
        if base.gt(Binary32::zero()) {
            self.rho_v_ref_kg_m3.mul(n.pow_of(base, Binary32::one().div(self.gamma_v)))
        } else {
            Binary32::zero()
        }
    }

    /// How much wider the edges of a band of width `delta_rho` are apart than that.
    pub open spec fn mismatch_at<N: Numerics>(
        &self,
        b_pa: Binary32,
        p_v_gauge_pa: Binary32,
        delta_rho: Binary32,
        n: &N,
    ) -> Binary32 {
        self.liquid_edge(p_v_gauge_pa, delta_rho).sub(
            self.vapor_edge_at(b_pa, p_v_gauge_pa, delta_rho, n),
        ).sub(delta_rho)
    }

    /// How much wider the edges of a band of width `delta_rho` are apart than that.
    pub fn mismatch<N: Numerics>(
        &self,
        b_pa: Binary32,
        p_v_gauge_pa: Binary32,
        delta_rho: Binary32,
        n: &N,
    ) -> (r: Binary32)
        ensures
            r == self.mismatch_at(b_pa, p_v_gauge_pa, delta_rho, n),
    {
        let base = Binary32::one().add(
            p_v_gauge_pa.sub(self.half_rise(delta_rho)).div(b_pa),
        );
        let vapor_edge = if base.gt(Binary32::zero()) {
            self.rho_v_ref_kg_m3.mul(n.pow(base, Binary32::one().div(self.gamma_v)))
        } else {
            Binary32::zero()
        };
        self.liquid_edge(p_v_gauge_pa, delta_rho).sub(vapor_edge).sub(delta_rho)
    }

    /// The width at which the vapour edge would reach absolute zero pressure, with
    /// `spread` for pi times the squared least sound speed.
    #[verifier::allow_in_spec]
    pub fn width_limit(&self, b_pa: Binary32, p_v_gauge_pa: Binary32, spread: Binary32) -> Binary32
        returns
            Binary32::from_bits(0x4080_0000).mul(p_v_gauge_pa.add(b_pa)).div(spread),
    {
        Binary32::from_bits(0x4080_0000).mul(p_v_gauge_pa.add(b_pa)).div(spread)
    }

    /// Whether a width limit is a finite positive number.
    #[verifier::allow_in_spec]
    pub fn is_width(limit: Binary32) -> bool
        returns
            limit.is_finite() && limit.gt(Binary32::zero()),
    {
        limit.is_finite() && limit.gt(Binary32::zero())
    }

    /// The upper end of the search for the band width, 0.999999 of the limit.
    #[verifier::allow_in_spec]
    pub fn search_end(limit: Binary32) -> Binary32
        returns
            limit.mul(Binary32::from_bits(0x3f7f_ffef)),
    {
        limit.mul(Binary32::from_bits(0x3f7f_ffef))
    }

    /// The mismatch changes sign from plus to minus over the search range.
    pub open spec fn is_bracketed<N: Numerics>(
        &self,
        b_pa: Binary32,
        p_v_gauge_pa: Binary32,
        limit: Binary32,
        n: &N,
    ) -> bool {
        &&& self.mismatch_at(b_pa, p_v_gauge_pa, Binary32::from_bits(MICRO), n).gt(
            Binary32::zero(),
        )
        &&& self.mismatch_at(b_pa, p_v_gauge_pa, Self::search_end(limit), n).lt(
            Binary32::zero(),
        )
    }

    /// Whether the mismatch changes sign over the search range.
    pub fn check_bracket<N: Numerics>(
        &self,
        b_pa: Binary32,
        p_v_gauge_pa: Binary32,
        limit: Binary32,
        n: &N,
    ) -> (r: bool)
        ensures
            r == self.is_bracketed(b_pa, p_v_gauge_pa, limit, n),
    {
        let f_lo = self.mismatch(b_pa, p_v_gauge_pa, Binary32::from_bits(MICRO), n);
        let f_hi = self.mismatch(b_pa, p_v_gauge_pa, Self::search_end(limit), n);
        f_lo.gt(Binary32::zero()) && f_hi.lt(Binary32::zero())
    }

    /// The width that at most `steps` bisections of `[lo, hi]` end with.
    pub open spec fn bisected_width<N: Numerics>(
        &self,
        b_pa: Binary32,
        p_v_gauge_pa: Binary32,
        lo: Binary32,
        hi: Binary32,
        steps: nat,
        n: &N,
    ) -> Binary32
        decreases steps,
    {
        let mid = half().mul(lo.add(hi));
        if steps == 0 {
            mid
        } else {
            let f_mid = self.mismatch_at(b_pa, p_v_gauge_pa, mid, n);
            if f_mid.abs().lt(Binary32::from_bits(NANO)) || hi.sub(lo).lt(
                Binary32::from_bits(NANO),
            ) {
                mid
            } else if f_mid.gt(Binary32::zero()) {
                self.bisected_width(b_pa, p_v_gauge_pa, mid, hi, (steps - 1) as nat, n)
            } else {
                self.bisected_width(b_pa, p_v_gauge_pa, lo, mid, (steps - 1) as nat, n)
            }
        }
    }

    /// Liquid and vapour edge of the mixture band.
    pub open spec fn mixture_band<N: Numerics>(
        &self,
        b_pa: Binary32,
        p_v_gauge_pa: Binary32,
        n: &N,
    ) -> Result<(Binary32, Binary32), EosError> {
        let limit = self.width_limit(
            b_pa,
            p_v_gauge_pa,
            Binary32::from_bits(PI).mul(self.c_min_m_s.mul(self.c_min_m_s)),
        );
        if !Self::is_width(limit) || !self.is_bracketed(b_pa, p_v_gauge_pa, limit, n) {
            Err(EosError::Band)
        } else {
            let width = self.bisected_width(
                b_pa,
                p_v_gauge_pa,
                Binary32::from_bits(MICRO),
                Self::search_end(limit),
                BAND_STEPS as nat,
                n,
            );
            let plus = self.liquid_edge(p_v_gauge_pa, width);
            Ok((plus, plus.sub(width)))
        }
    }

    /// Liquid and vapour edge of the mixture band.
    pub fn solve_mixture_band<N: Numerics>(
        &self,
        b_pa: Binary32,
        p_v_gauge_pa: Binary32,
        n: &N,
    ) -> (r: Result<(Binary32, Binary32), EosError>)
        ensures
            r == self.mixture_band(b_pa, p_v_gauge_pa, n),
    {
        let limit = self.width_limit(
            b_pa,
            p_v_gauge_pa,
            Binary32::from_bits(PI).mul(self.c_min_m_s.mul(self.c_min_m_s)),
        );
        if !Self::is_width(limit) || !self.check_bracket(b_pa, p_v_gauge_pa, limit, n) {
            return Err(EosError::Band);
        }
        let mut lo = Binary32::from_bits(MICRO);
        let mut hi = Self::search_end(limit);
        let ghost goal = self.bisected_width(b_pa, p_v_gauge_pa, lo, hi, BAND_STEPS as nat, n);
        let mut left: u32 = BAND_STEPS;
        let mut done: bool = false;
        while left > 0 && !done
            invariant
                done ==> goal == half().mul(lo.add(hi)),
                !done ==> goal == self.bisected_width(b_pa, p_v_gauge_pa, lo, hi, left as nat, n),
            decreases left,
        {
            let mid = half().mul(lo.add(hi));
            let f_mid = self.mismatch(b_pa, p_v_gauge_pa, mid, n);
            if f_mid.abs().lt(Binary32::from_bits(NANO)) || hi.sub(lo).lt(
                Binary32::from_bits(NANO),
            ) {
                done = true;
            } else if f_mid.gt(Binary32::zero()) {
                lo = mid;
            } else {
                hi = mid;
            }
            left = left - 1;
        }
        let width = half().mul(lo.add(hi));
        let plus = self.liquid_edge(p_v_gauge_pa, width);
        Ok((plus, plus.sub(width)))
    }

    /// The band of edges `plus` and `minus`.
    #[verifier::allow_in_spec]
    pub fn edges(
        &self,
        plus: Binary32,
        minus: Binary32,
        p_v_gauge_pa: Binary32,
    ) -> MixtureJunctionEdges
        returns
            (MixtureJunctionEdges {
                rho_m_plus_kg_m3: plus,
                rho_m_minus_kg_m3: minus,
                c_min_m_s: self.c_min_m_s,
                p_v_gauge_pa,
            }),
    {
        MixtureJunctionEdges {
            rho_m_plus_kg_m3: plus,
            rho_m_minus_kg_m3: minus,
            c_min_m_s: self.c_min_m_s,
            p_v_gauge_pa,
        }
    }

    /// The density of a junction.
    #[verifier::allow_in_spec]
    pub fn junction(side: Side, edges: &MixtureJunctionEdges) -> Binary32
        returns
            match side {
                Side::Liquid => edges.rho_m_plus_kg_m3,
                Side::Vapor => edges.rho_m_minus_kg_m3,
            },
    {
        match side {
            Side::Liquid => edges.rho_m_plus_kg_m3,
            Side::Vapor => edges.rho_m_minus_kg_m3,
        }
    }

    /// Distance of the pure end of a patch from its junction.
    #[verifier::allow_in_spec]
    pub fn pure_delta(rho_junction: Binary32) -> Binary32
        returns
            Binary32::from_bits(PATCH_MIN_RAMP_ULPS).mul(ulp_at(rho_junction)).max(
                Binary32::from_bits(NANO),
            ),
    {
        Binary32::from_bits(PATCH_MIN_RAMP_ULPS).mul(ulp_at(rho_junction)).max(
            Binary32::from_bits(NANO),
        )
    }

    /// Pressure and slope of the pure phase at the pure end of a patch.
    pub open spec fn pure_end<N: Numerics>(
        &self,
        side: Side,
        edges: MixtureJunctionEdges,
        b_pa: Binary32,
        delta_pure: Binary32,
        n: &N,
    ) -> (Binary32, Binary32) {
        match side {
            Side::Liquid => (
                self.liquid_pressure(edges.rho_m_plus_kg_m3.add(delta_pure)),
                self.c_l_m_s.mul(self.c_l_m_s),
            ),
            Side::Vapor => (
                self.vapor_pressure_at(edges.rho_m_minus_kg_m3.sub(delta_pure), b_pa, n),
                self.vapor_slope_at(edges.rho_m_minus_kg_m3.sub(delta_pure), b_pa, n),
            ),
        }
    }

    /// The mixture end of a patch.
    #[verifier::allow_in_spec]
    pub fn mix_edge(side: Side, edges: &MixtureJunctionEdges, delta_mix: Binary32) -> Binary32
        returns
            Self::junction(side, edges).add(side.mix_sign().mul(delta_mix)),
    {
        Self::junction(side, edges).add(side.mix_sign().mul(delta_mix))
    }

    /// The pure end of a patch.
    #[verifier::allow_in_spec]
    pub fn pure_edge(side: Side, edges: &MixtureJunctionEdges) -> Binary32
        returns
            Self::junction(side, edges).add(
                side.pure_sign().mul(Self::pure_delta(Self::junction(side, edges))),
            ),
    {
        let rho = Self::junction(side, edges);
        rho.add(side.pure_sign().mul(Self::pure_delta(rho)))
    }

    /// The patch of a junction that reaches `delta_mix` into the mixture.
    pub open spec fn patch_at<N: Numerics>(
        &self,
        side: Side,
        delta_mix: Binary32,
        edges: MixtureJunctionEdges,
        b_pa: Binary32,
        n: &N,
    ) -> C1Patch {
        let mix = Self::mix_edge(side, &edges, delta_mix);
        let pure = Self::pure_edge(side, &edges);
        let end = self.pure_end(
            side,
            edges,
            b_pa,
            Self::pure_delta(Self::junction(side, &edges)),
            n,
        );
        match side {
            Side::Liquid => C1Patch {
                rho_left: mix,
                width: pure.sub(mix),
                p0: edges.pressure_at(mix, n),
                m0: edges.slope_at(mix),
                p1: end.0,
                m1: end.1,
            },
            Side::Vapor => C1Patch {
                rho_left: pure,
                width: mix.sub(pure),
                p0: end.0,
                m0: end.1,
                p1: edges.pressure_at(mix, n),
                m1: edges.slope_at(mix),
            },
        }
    }

    /// The patch of a junction that reaches `delta_mix` into the mixture.
    pub fn reconstruct_junction_patch<N: Numerics>(
        &self,
        side: Side,
        delta_mix: Binary32,
        edges: &MixtureJunctionEdges,
        b_pa: Binary32,
        n: &N,
    ) -> (r: C1Patch)
        ensures
            r == self.patch_at(side, delta_mix, *edges, b_pa, n),
    {
        let delta_pure = Self::pure_delta(Self::junction(side, edges));
        let mix = Self::mix_edge(side, edges, delta_mix);
        let pure = Self::pure_edge(side, edges);
        let p_mix = edges.mixture_pressure_gauge(mix, n);
        let m_mix = edges.slope_at(mix);
        match side {
            Side::Liquid => C1Patch {
                rho_left: mix,
                width: pure.sub(mix),
                p0: p_mix,
                m0: m_mix,
                p1: self.liquid_pressure(edges.rho_m_plus_kg_m3.add(delta_pure)),
                m1: self.c_l_m_s.mul(self.c_l_m_s),
            },
            Side::Vapor => {
                let rho = edges.rho_m_minus_kg_m3.sub(delta_pure);
                C1Patch {
                    rho_left: pure,
                    width: mix.sub(pure),
                    p0: self.vapor_pressure(rho, b_pa, n),
                    m0: self.vapor_slope(rho, b_pa, n),
                    p1: p_mix,
                    m1: m_mix,
                }
            },
        }
    }

    /// The first reach into the mixture: the analytic one where it is representable
    /// at the junction, else the spacing of numbers there.
    #[verifier::allow_in_spec]
    pub fn first_delta(side: Side, edges: &MixtureJunctionEdges, analytic: Binary64) -> Binary32
        returns
            if analytic.to_single().ge(ulp_at(Self::junction(side, edges))) && !Self::junction(
                side,
                edges,
            ).sub(side.mix_sign().mul(analytic.to_single())).eq(Self::junction(side, edges)) {
                analytic.to_single()
            } else {
                ulp_at(Self::junction(side, edges))
            },
    {
        let rho = Self::junction(side, edges);
        let ulp = ulp_at(rho);
        let delta = analytic.to_single();
        if delta.ge(ulp) && !rho.sub(side.mix_sign().mul(delta)).eq(rho) {
            delta
        } else {
            ulp
        }
    }

    /// The largest reach into the mixture, a tenth of the band.
    #[verifier::allow_in_spec]
    pub fn delta_limit(edges: &MixtureJunctionEdges) -> Binary32
        returns
            Binary32::from_bits(0x3dcc_cccd).mul(
                edges.rho_m_plus_kg_m3.sub(edges.rho_m_minus_kg_m3),
            ),
    {
        Binary32::from_bits(0x3dcc_cccd).mul(edges.rho_m_plus_kg_m3.sub(edges.rho_m_minus_kg_m3))
    }

    /// The first patch, over at most `steps` doublings of the reach, whose ramp is
    /// wide enough to be represented.
    pub open spec fn grown_patch<N: Numerics>(
        &self,
        side: Side,
        delta_mix: Binary32,
        edges: MixtureJunctionEdges,
        b_pa: Binary32,
        steps: nat,
        n: &N,
    ) -> Result<C1Patch, EosError>
        decreases steps,
    {
        let patch = self.patch_at(side, delta_mix, edges, b_pa, n);
        let least = Binary32::from_bits(PATCH_MIN_RAMP_ULPS).mul(
            ulp_at(Self::junction(side, &edges)),
        );
        if steps == 0 || delta_mix.gt(Self::delta_limit(&edges)) || !patch.has_ramp() {
            Err(EosError::Patch)
        } else if patch.ramp_of().0.ge(least) {
            Ok(patch)
        } else {
            self.grown_patch(side, delta_mix.mul(two()), edges, b_pa, (steps - 1) as nat, n)
        }
    }

    /// The patch of a junction.
    pub open spec fn junction_patch<N: Numerics>(
        &self,
        side: Side,
        analytic: Binary64,
        edges: MixtureJunctionEdges,
        b_pa: Binary32,
        n: &N,
    ) -> Result<C1Patch, EosError> {
        self.grown_patch(
            side,
            Self::first_delta(side, &edges, analytic),
            edges,
            b_pa,
            MAX_MIX_GROWTHS as nat,
            n,
        )
    }

    /// The patch of a junction.
    pub fn build_junction_patch<N: Numerics>(
        &self,
        side: Side,
        analytic: Binary64,
        edges: &MixtureJunctionEdges,
        b_pa: Binary32,
        n: &N,
    ) -> (r: Result<C1Patch, EosError>)
        ensures
            r == self.junction_patch(side, analytic, *edges, b_pa, n),
    {
        let rho = Self::junction(side, edges);
        let least = Binary32::from_bits(PATCH_MIN_RAMP_ULPS).mul(ulp_at(rho));
        let limit = Self::delta_limit(edges);
        let mut delta_mix = Self::first_delta(side, edges, analytic);
        let mut left: u32 = MAX_MIX_GROWTHS;
        let ghost goal = self.junction_patch(side, analytic, *edges, b_pa, n);
        while left > 0
            invariant
                goal == self.junction_patch(side, analytic, *edges, b_pa, n),
                goal == self.grown_patch(side, delta_mix, *edges, b_pa, left as nat, n),
                least == Binary32::from_bits(PATCH_MIN_RAMP_ULPS).mul(
                    ulp_at(Self::junction(side, edges)),
                ),
                limit == Self::delta_limit(edges),
            decreases left,
        {
            if delta_mix.gt(limit) {
                return Err(EosError::Patch);
            }
            let patch = self.reconstruct_junction_patch(side, delta_mix, edges, b_pa, n);
            if !patch.is_rampable() {
                return Err(EosError::Patch);
            }
            let (l, _at_start) = patch.ramp();
            if l.ge(least) {
                return Ok(patch);
            }
            delta_mix = delta_mix.mul(two());
            left = left - 1;
        }
        Err(EosError::Patch)
    }
}

/// The branch of the equation of state that a density belongs to.
#[derive(Clone, Copy, Debug, PartialEq, Eq, Structural)]
pub enum Branch {
    LiquidPatch,
    VaporPatch,
    Liquid,
    Vapor,
    Mixture,
}

/// Barotropic equation of state of a cavitating liquid: linear liquid, power law
/// vapour, arcsine mixture between them, and a patch at either junction that makes
/// pressure and slope continuous.
#[derive(Clone, Copy, Debug, PartialEq, Eq, Structural)]
pub struct CavitatingEosParams {
    pub rho_l_ref_kg_m3: Binary32,
    pub c_l_m_s: Binary32,
    pub gamma_l: Binary32,
    pub rho_v_ref_kg_m3: Binary32,
    pub gamma_v: Binary32,
    pub c_min_m_s: Binary32,
    pub p_v_gauge_pa: Binary32,
    pub b_pa: Binary32,
    pub rho_m_plus_kg_m3: Binary32,
    pub rho_m_minus_kg_m3: Binary32,
    pub patch_liquid_junction: C1Patch,
    pub patch_vapor_junction: C1Patch,
}

impl EosBranchInputs {
    /// All constants are positive.
    #[verifier::allow_in_spec]
    pub fn is_positive(&self) -> bool
        returns
            self.rho_l_ref_kg_m3.gt(Binary32::zero()) && self.c_l_m_s.gt(Binary32::zero())
                && self.gamma_l.gt(Binary32::zero()) && self.rho_v_ref_kg_m3.gt(Binary32::zero())
                && self.gamma_v.gt(Binary32::zero()) && self.c_min_m_s.gt(Binary32::zero()),
    {
        self.rho_l_ref_kg_m3.gt(Binary32::zero()) && self.c_l_m_s.gt(Binary32::zero())
            && self.gamma_l.gt(Binary32::zero()) && self.rho_v_ref_kg_m3.gt(Binary32::zero())
            && self.gamma_v.gt(Binary32::zero()) && self.c_min_m_s.gt(Binary32::zero())
    }

    /// Vacuum, vapour edge, liquid edge and liquid rest density are in order.
    #[verifier::allow_in_spec]
    pub fn is_ordered(&self, plus: Binary32, minus: Binary32) -> bool
        returns
            plus.gt(minus) && minus.gt(Binary32::zero()) && plus.lt(self.rho_l_ref_kg_m3),
    {
        plus.gt(minus) && minus.gt(Binary32::zero()) && plus.lt(self.rho_l_ref_kg_m3)
    }

    /// The reach of the liquid patch at which the slopes meet.
    #[verifier::allow_in_spec]
    pub fn liquid_reach(&self, plus: Binary32, minus: Binary32) -> Binary64
        returns
            cutoff_delta(plus.sub(minus), self.c_min_m_s, self.c_l_m_s.mul(self.c_l_m_s)),
    {
        mixture_slope_cutoff_delta(
            plus.sub(minus),
            self.c_min_m_s,
            self.c_l_m_s.mul(self.c_l_m_s),
        )
    }

    /// The patch of the liquid junction.
    pub open spec fn liquid_patch<N: Numerics>(
        &self,
        plus: Binary32,
        minus: Binary32,
        p_v_gauge_pa: Binary32,
        b_pa: Binary32,
        n: &N,
    ) -> Result<C1Patch, EosError> {
        self.junction_patch(
            Side::Liquid,
            self.liquid_reach(plus, minus),
            self.edges(plus, minus, p_v_gauge_pa),
            b_pa,
            n,
        )
    }

    /// The patch of the liquid junction.
    pub fn build_liquid_patch<N: Numerics>(
        &self,
        plus: Binary32,
        minus: Binary32,
        p_v_gauge_pa: Binary32,
        b_pa: Binary32,
        n: &N,
    ) -> (r: Result<C1Patch, EosError>)
        ensures
            r == self.liquid_patch(plus, minus, p_v_gauge_pa, b_pa, n),
    {
        self.build_junction_patch(
            Side::Liquid,
            self.liquid_reach(plus, minus),
            &self.edges(plus, minus, p_v_gauge_pa),
            b_pa,
            n,
        )
    }

    /// The patch of the vapour junction.
    pub open spec fn vapor_patch<N: Numerics>(
        &self,
        plus: Binary32,
        minus: Binary32,
        p_v_gauge_pa: Binary32,
        b_pa: Binary32,
        n: &N,
    ) -> Result<C1Patch, EosError> {
        self.junction_patch(
            Side::Vapor,
            cutoff_delta(plus.sub(minus), self.c_min_m_s, self.vapor_slope_at(minus, b_pa, n)),
            self.edges(plus, minus, p_v_gauge_pa),
            b_pa,
            n,
        )
    }

    /// The patch of the vapour junction.
    pub fn build_vapor_patch<N: Numerics>(
        &self,
        plus: Binary32,
        minus: Binary32,
        p_v_gauge_pa: Binary32,
        b_pa: Binary32,
        n: &N,
    ) -> (r: Result<C1Patch, EosError>)
        ensures
            r == self.vapor_patch(plus, minus, p_v_gauge_pa, b_pa, n),
    {
        let s_max = self.vapor_slope(minus, b_pa, n);
        let reach = mixture_slope_cutoff_delta(plus.sub(minus), self.c_min_m_s, s_max);
        self.build_junction_patch(
            Side::Vapor,
            reach,
            &self.edges(plus, minus, p_v_gauge_pa),
            b_pa,
            n,
        )
    }

    /// The equation of state with the given band and patches.
    #[verifier::allow_in_spec]
    pub fn assemble(
        &self,
        p_v_gauge_pa: Binary32,
        b_pa: Binary32,
        plus: Binary32,
        minus: Binary32,
        liquid: C1Patch,
        vapor: C1Patch,
    ) -> CavitatingEosParams
        returns
            (CavitatingEosParams {
                rho_l_ref_kg_m3: self.rho_l_ref_kg_m3,
                c_l_m_s: self.c_l_m_s,
                gamma_l: self.gamma_l,
                rho_v_ref_kg_m3: self.rho_v_ref_kg_m3,
                gamma_v: self.gamma_v,
                c_min_m_s: self.c_min_m_s,
                p_v_gauge_pa,
                b_pa,
                rho_m_plus_kg_m3: plus,
                rho_m_minus_kg_m3: minus,
                patch_liquid_junction: liquid,
                patch_vapor_junction: vapor,
            }),
    {
        CavitatingEosParams {
            rho_l_ref_kg_m3: self.rho_l_ref_kg_m3,
            c_l_m_s: self.c_l_m_s,
            gamma_l: self.gamma_l,
            rho_v_ref_kg_m3: self.rho_v_ref_kg_m3,
            gamma_v: self.gamma_v,
            c_min_m_s: self.c_min_m_s,
            p_v_gauge_pa,
            b_pa,
            rho_m_plus_kg_m3: plus,
            rho_m_minus_kg_m3: minus,
            patch_liquid_junction: liquid,
            patch_vapor_junction: vapor,
        }
    }

    /// The branches and patches at a saturation pressure, before they are checked.
    pub open spec fn assembled<N: Numerics>(&self, p_v_gauge_pa: Binary32, n: &N) -> Result<
        CavitatingEosParams,
        EosError,
    > {
        let b_pa = self.stiffness();
        if !self.is_positive() {
            Err(EosError::Input)
        } else if !(b_pa.is_finite() && b_pa.gt(Binary32::zero())) {
            Err(EosError::Stiffness)
        } else {
            match self.mixture_band(b_pa, p_v_gauge_pa, n) {
                Err(e) => Err(e),
                Ok((plus, minus)) => if !self.is_ordered(plus, minus) {
                    Err(EosError::Order)
                } else {
                    match (
                        self.liquid_patch(plus, minus, p_v_gauge_pa, b_pa, n),
                        self.vapor_patch(plus, minus, p_v_gauge_pa, b_pa, n),
                    ) {
                        (Ok(liquid), Ok(vapor)) => Ok(
                            self.assemble(p_v_gauge_pa, b_pa, plus, minus, liquid, vapor),
                        ),
                        _ => Err(EosError::Patch),
                    }
                },
            }
        }
    }

    /// The equation of state at a saturation pressure, or why there is none.
    pub open spec fn eos<N: Numerics>(&self, p_v_gauge_pa: Binary32, n: &N) -> Result<
        CavitatingEosParams,
        EosError,
    > {
        match self.assembled(p_v_gauge_pa, n) {
            Err(e) => Err(e),
            Ok(eos) => if eos.is_sound(n) {
                Ok(eos)
            } else {
                Err(EosError::Joint)
            },
        }
    }
}

impl CavitatingEosParams {
    /// Both patches can be evaluated.
    pub open spec fn wf(&self) -> bool {
        self.patch_liquid_junction.wf() && self.patch_vapor_junction.wf()
    }

    /// Whether both patches can be evaluated.
    pub fn is_evaluable(&self) -> (r: bool)
        ensures
            r == self.wf(),
    {
        self.patch_liquid_junction.is_evaluable() && self.patch_vapor_junction.is_evaluable()
    }

    /// The constants of the branches.
    #[verifier::allow_in_spec]
    pub fn branches(&self) -> EosBranchInputs
        returns
            (EosBranchInputs {
                rho_l_ref_kg_m3: self.rho_l_ref_kg_m3,
                c_l_m_s: self.c_l_m_s,
                gamma_l: self.gamma_l,
                rho_v_ref_kg_m3: self.rho_v_ref_kg_m3,
                gamma_v: self.gamma_v,
                c_min_m_s: self.c_min_m_s,
            }),
    {
        EosBranchInputs {
            rho_l_ref_kg_m3: self.rho_l_ref_kg_m3,
            c_l_m_s: self.c_l_m_s,
            gamma_l: self.gamma_l,
            rho_v_ref_kg_m3: self.rho_v_ref_kg_m3,
            gamma_v: self.gamma_v,
            c_min_m_s: self.c_min_m_s,
        }
    }

    /// The mixture band.
    #[verifier::allow_in_spec]
    pub fn band(&self) -> MixtureJunctionEdges
        returns
            (MixtureJunctionEdges {
                rho_m_plus_kg_m3: self.rho_m_plus_kg_m3,
                rho_m_minus_kg_m3: self.rho_m_minus_kg_m3,
                c_min_m_s: self.c_min_m_s,
                p_v_gauge_pa: self.p_v_gauge_pa,
            }),
    {
        MixtureJunctionEdges {
            rho_m_plus_kg_m3: self.rho_m_plus_kg_m3,
            rho_m_minus_kg_m3: self.rho_m_minus_kg_m3,
            c_min_m_s: self.c_min_m_s,
            p_v_gauge_pa: self.p_v_gauge_pa,
        }
    }

    /// The equation of state at a saturation pressure, or why there is none.
    pub fn try_new<N: Numerics>(inputs: EosBranchInputs, p_v_gauge_pa: Binary32, n: &N) -> (r:
        Result<CavitatingEosParams, EosError>)
        ensures
            r == inputs.eos(p_v_gauge_pa, n),
            r matches Ok(eos) ==> eos.wf() && eos.is_sound(n),
    {
        proof {
            lemma_assembled_is_evaluable(inputs, p_v_gauge_pa, n);
        }
        if !inputs.is_positive() {
            return Err(EosError::Input);
        }
        let b_pa = inputs.stiffness();
        if !(b_pa.is_finite() && b_pa.gt(Binary32::zero())) {
            return Err(EosError::Stiffness);
        }
        let (plus, minus) = match inputs.solve_mixture_band(b_pa, p_v_gauge_pa, n) {
            Err(e) => {
                return Err(e);
            },
            Ok(band) => band,
        };
        if !inputs.is_ordered(plus, minus) {
            return Err(EosError::Order);
        }
        match inputs.build_liquid_patch(plus, minus, p_v_gauge_pa, b_pa, n) {
            Err(_e) => Err(EosError::Patch),
            Ok(liquid) => match inputs.build_vapor_patch(plus, minus, p_v_gauge_pa, b_pa, n) {
                Err(_e) => Err(EosError::Patch),
                Ok(vapor) => {
                    let eos = inputs.assemble(p_v_gauge_pa, b_pa, plus, minus, liquid, vapor);
                    if eos.check(n) {
                        Ok(eos)
                    } else {
                        Err(EosError::Joint)
                    }
                },
            },
        }
    }

    /// The equation of state at a saturation pressure.
    pub fn new<N: Numerics>(
        rho_l_ref_kg_m3: Binary32,
        c_l_m_s: Binary32,
        gamma_l: Binary32,
        rho_v_ref_kg_m3: Binary32,
        gamma_v: Binary32,
        c_min_m_s: Binary32,
        p_v_gauge_pa: Binary32,
        n: &N,
    ) -> (r: CavitatingEosParams)
        requires
            (EosBranchInputs {
                rho_l_ref_kg_m3,
                c_l_m_s,
                gamma_l,
                rho_v_ref_kg_m3,
                gamma_v,
                c_min_m_s,
            }).eos(p_v_gauge_pa, n) is Ok,
        ensures
            (EosBranchInputs {
                rho_l_ref_kg_m3,
                c_l_m_s,
                gamma_l,
                rho_v_ref_kg_m3,
                gamma_v,
                c_min_m_s,
            }).eos(p_v_gauge_pa, n) == Ok::<CavitatingEosParams, EosError>(r),
            r.wf(),
            r.is_sound(n),
    {
        let inputs = EosBranchInputs {
            rho_l_ref_kg_m3,
            c_l_m_s,
            gamma_l,
            rho_v_ref_kg_m3,
            gamma_v,
            c_min_m_s,
        };
        match Self::try_new(inputs, p_v_gauge_pa, n) {
            Ok(eos) => eos,
            Err(_e) => unreached(),
        }
    }

    /// The equation of state of water at a temperature.
    pub fn at_temperature<N: Numerics>(
        rho_l_ref_kg_m3: Binary32,
        c_l_m_s: Binary32,
        gamma_l: Binary32,
        rho_v_ref_kg_m3: Binary32,
        gamma_v: Binary32,
        c_min_m_s: Binary32,
        temperature_k: Binary32,
        n: &N,
    ) -> (r: CavitatingEosParams)
        requires
            (EosBranchInputs {
                rho_l_ref_kg_m3,
                c_l_m_s,
                gamma_l,
                rho_v_ref_kg_m3,
                gamma_v,
                c_min_m_s,
            }).eos(gauge_pressure(temperature_k, n), n) is Ok,
        ensures
            (EosBranchInputs {
                rho_l_ref_kg_m3,
                c_l_m_s,
                gamma_l,
                rho_v_ref_kg_m3,
                gamma_v,
                c_min_m_s,
            }).eos(gauge_pressure(temperature_k, n), n) == Ok::<CavitatingEosParams, EosError>(r),
            r.wf(),
            r.is_sound(n),
    {
        let p_v_gauge_pa = p_v_gauge_pa_at_temperature(temperature_k, n);
        Self::new(
            rho_l_ref_kg_m3,
            c_l_m_s,
            gamma_l,
            rho_v_ref_kg_m3,
            gamma_v,
            c_min_m_s,
            p_v_gauge_pa,
            n,
        )
    }

    /// The density at which the liquid branch takes over from its patch.
    #[verifier::allow_in_spec]
    pub fn liquid_patch_outer_edge_kg_m3(&self) -> Binary32
        returns
            self.patch_liquid_junction.rho_left.add(self.patch_liquid_junction.width),
    {
        self.patch_liquid_junction.rho_left.add(self.patch_liquid_junction.width)
    }

    /// The branch of a density: the patches first, then the pure phases, and the
    /// mixture for what is left.
    #[verifier::allow_in_spec]
    pub fn branch(&self, rho_kg_m3: Binary32) -> Branch
        returns
            if self.patch_liquid_junction.contains(rho_kg_m3) {
                Branch::LiquidPatch
            } else if self.patch_vapor_junction.contains(rho_kg_m3) {
                Branch::VaporPatch
            } else if rho_kg_m3.gt(self.rho_m_plus_kg_m3) {
                Branch::Liquid
            } else if rho_kg_m3.lt(self.rho_m_minus_kg_m3) {
                Branch::Vapor
            } else {
                Branch::Mixture
            },
    {
        if self.patch_liquid_junction.contains(rho_kg_m3) {
            Branch::LiquidPatch
        } else if self.patch_vapor_junction.contains(rho_kg_m3) {
            Branch::VaporPatch
        } else if rho_kg_m3.gt(self.rho_m_plus_kg_m3) {
            Branch::Liquid
        } else if rho_kg_m3.lt(self.rho_m_minus_kg_m3) {
            Branch::Vapor
        } else {
            Branch::Mixture
        }
    }

    /// The patch that holds a density, if one does, can be evaluated.
    pub open spec fn is_evaluable_at(&self, rho_kg_m3: Binary32) -> bool {
        match self.branch(rho_kg_m3) {
            Branch::LiquidPatch => self.patch_liquid_junction.wf(),
            Branch::VaporPatch => self.patch_vapor_junction.wf(),
            _ => true,
        }
    }

    /// Gauge pressure at a density.
    pub open spec fn pressure_at<N: Numerics>(&self, rho_kg_m3: Binary32, n: &N) -> Binary32 {
        match self.branch(rho_kg_m3) {
            Branch::LiquidPatch => self.patch_liquid_junction.value_at(rho_kg_m3),
            Branch::VaporPatch => self.patch_vapor_junction.value_at(rho_kg_m3),
            Branch::Liquid => self.branches().liquid_pressure(rho_kg_m3),
            Branch::Vapor => self.branches().vapor_pressure_at(rho_kg_m3, self.b_pa, n),
            Branch::Mixture => self.band().pressure_at(rho_kg_m3, n),
        }
    }

    /// Gauge pressure at a density.
    pub fn pressure_gauge_pa<N: Numerics>(&self, rho_kg_m3: Binary32, n: &N) -> (r: Binary32)
        requires
            self.is_evaluable_at(rho_kg_m3),
        ensures
            r == self.pressure_at(rho_kg_m3, n),
    {
        match self.branch(rho_kg_m3) {
            Branch::LiquidPatch => self.patch_liquid_junction.value(rho_kg_m3),
            Branch::VaporPatch => self.patch_vapor_junction.value(rho_kg_m3),
            Branch::Liquid => self.branches().liquid_pressure(rho_kg_m3),
            Branch::Vapor => self.branches().vapor_pressure(rho_kg_m3, self.b_pa, n),
            Branch::Mixture => self.band().mixture_pressure_gauge(rho_kg_m3, n),
        }
    }

    /// Squared sound speed at a density: the slope of the pressure.
    pub open spec fn sound_at<N: Numerics>(&self, rho_kg_m3: Binary32, n: &N) -> Binary32 {
        match self.branch(rho_kg_m3) {
            Branch::LiquidPatch => self.patch_liquid_junction.slope_at(rho_kg_m3),
            Branch::VaporPatch => self.patch_vapor_junction.slope_at(rho_kg_m3),
            Branch::Liquid => self.c_l_m_s.mul(self.c_l_m_s),
            Branch::Vapor => self.branches().vapor_slope_at(rho_kg_m3, self.b_pa, n),
            Branch::Mixture => self.band().slope_at(rho_kg_m3),
        }
    }

    /// Squared sound speed at a density.
    pub fn acoustic_c2_si<N: Numerics>(&self, rho_kg_m3: Binary32, n: &N) -> (r: Binary32)
        requires
            self.is_evaluable_at(rho_kg_m3),
        ensures
            r == self.sound_at(rho_kg_m3, n),
    {
        match self.branch(rho_kg_m3) {
            Branch::LiquidPatch => self.patch_liquid_junction.derivative(rho_kg_m3),
            Branch::VaporPatch => self.patch_vapor_junction.derivative(rho_kg_m3),
            Branch::Liquid => self.c_l_m_s.mul(self.c_l_m_s),
            Branch::Vapor => self.branches().vapor_slope(rho_kg_m3, self.b_pa, n),
            Branch::Mixture => self.band().slope_at(rho_kg_m3),
        }
    }

    /// Whether the pure branches meet what the ramps of their patches integrate to at the
    /// outer ends, within `tol_pa`.
    pub open spec fn is_joined<N: Numerics>(&self, tol_pa: Binary32, n: &N) -> bool {
        let liquid = self.liquid_patch_outer_edge_kg_m3();
        let vapor = self.patch_vapor_junction.rho_left;
        &&& self.branches().liquid_pressure(liquid).sub(
            self.patch_liquid_junction.integral(liquid),
        ).abs().lt(tol_pa)
        &&& self.branches().vapor_pressure_at(vapor, self.b_pa, n).sub(
            self.patch_vapor_junction.integral(vapor),
        ).abs().lt(tol_pa)
    }

    /// Whether the pure branches meet the outer ends of their patches within `tol_pa`.
    pub fn is_continuous<N: Numerics>(&self, tol_pa: Binary32, n: &N) -> (r: bool)
        requires
            self.wf(),
        ensures
            r == self.is_joined(tol_pa, n),
    {
        let liquid = self.liquid_patch_outer_edge_kg_m3();
        let vapor = self.patch_vapor_junction.rho_left;
        let liquid_gap = self.branches().liquid_pressure(liquid).sub(
            self.patch_liquid_junction.integrate(liquid),
        );
        let vapor_gap = self.branches().vapor_pressure(vapor, self.b_pa, n).sub(
            self.patch_vapor_junction.integrate(vapor),
        );
        liquid_gap.abs().lt(tol_pa) && vapor_gap.abs().lt(tol_pa)
    }

    /// The ramp of a patch integrates to its right pressure within `tol_pa`.
    pub open spec fn closes(patch: C1Patch, tol_pa: Binary32) -> bool {
        patch.integral(patch.right()).sub(patch.p1).abs().lt(tol_pa)
    }

    /// Both end slopes of a patch, and with them all between, are finite and positive.
    #[verifier::allow_in_spec]
    pub fn has_sound_speeds(patch: &C1Patch) -> bool
        returns
            patch.m0.gt(Binary32::zero()) && patch.m1.gt(Binary32::zero())
                && patch.derivative_extrema().1.is_finite(),
    {
        let (_lo, hi) = patch.derivative_extrema();
        patch.m0.gt(Binary32::zero()) && patch.m1.gt(Binary32::zero()) && hi.is_finite()
    }

    /// The branches and the patches join within 1 Pa, the liquid is within 1 Pa of no
    /// pressure at rest, every slope of a patch is a finite positive number, and no patch
    /// falls.
    pub open spec fn is_sound<N: Numerics>(&self, n: &N) -> bool {
        &&& self.is_joined(Binary32::one(), n)
        &&& Self::closes(self.patch_vapor_junction, Binary32::one())
        &&& Self::closes(self.patch_liquid_junction, Binary32::one())
        &&& self.pressure_at(self.rho_l_ref_kg_m3, n).abs().lt(Binary32::one())
        &&& Self::has_sound_speeds(&self.patch_liquid_junction)
        &&& Self::has_sound_speeds(&self.patch_vapor_junction)
        &&& self.patch_liquid_junction.is_rising()
        &&& self.patch_vapor_junction.is_rising()
    }

    /// Whether the ramp of a patch integrates to its right pressure within `tol_pa`.
    fn check_closes(patch: &C1Patch, tol_pa: Binary32) -> (r: bool)
        requires
            patch.wf(),
        ensures
            r == Self::closes(*patch, tol_pa),
    {
        patch.integrate(patch.right()).sub(patch.p1).abs().lt(tol_pa)
    }

    /// Whether the pieces join, the slopes are sound speeds, and nothing falls.
    pub fn check<N: Numerics>(&self, n: &N) -> (r: bool)
        requires
            self.wf(),
        ensures
            r == self.is_sound(n),
    {
        let one = Binary32::one();
        self.is_continuous(one, n) && Self::check_closes(&self.patch_vapor_junction, one)
            && Self::check_closes(&self.patch_liquid_junction, one) && self.pressure_gauge_pa(
            self.rho_l_ref_kg_m3,
            n,
        ).abs().lt(one) && Self::has_sound_speeds(&self.patch_liquid_junction)
            && Self::has_sound_speeds(&self.patch_vapor_junction)
            && self.patch_liquid_junction.is_rising() && self.patch_vapor_junction.is_rising()
    }
}

proof fn lemma_ulp_is_not_negative(x: Binary32)
    requires
        x.is_finite(),
        x.gt(Binary32::zero()),
    ensures
        Binary32::zero().le(ulp_at(x)),
        Binary32::zero().le(EosBranchInputs::pure_delta(x)),
{
    lemma_single_constants();
    law_difference_is_not_negative(x.next(), x);
}

/// A patch that reaches into the mixture has a width that is not negative.
pub proof fn lemma_patch_is_evaluable<N: Numerics>(
    inputs: EosBranchInputs,
    side: Side,
    delta_mix: Binary32,
    edges: MixtureJunctionEdges,
    b_pa: Binary32,
    n: &N,
)
    requires
        EosBranchInputs::junction(side, &edges).is_finite(),
        EosBranchInputs::junction(side, &edges).gt(Binary32::zero()),
        Binary32::zero().le(delta_mix),
    ensures
        inputs.patch_at(side, delta_mix, edges, b_pa, n).wf(),
{
    let rho = EosBranchInputs::junction(side, &edges);
    let d = EosBranchInputs::pure_delta(rho);
    lemma_single_constants();
    lemma_ulp_is_not_negative(rho);
    law_minus_one_negates(rho, delta_mix);
    law_minus_one_negates(rho, d);
    law_non_negative_steps(rho, delta_mix);
    law_non_negative_steps(rho, d);
    match side {
        Side::Liquid => {
            law_distance_across(rho.sub(delta_mix), rho, rho.add(d));
        },
        Side::Vapor => {
            law_distance_across(rho.sub(d), rho, rho.add(delta_mix));
        },
    }
}

proof fn lemma_grown_patch_is_evaluable<N: Numerics>(
    inputs: EosBranchInputs,
    side: Side,
    delta_mix: Binary32,
    edges: MixtureJunctionEdges,
    b_pa: Binary32,
    steps: nat,
    n: &N,
)
    requires
        EosBranchInputs::junction(side, &edges).is_finite(),
        EosBranchInputs::junction(side, &edges).gt(Binary32::zero()),
        Binary32::zero().le(delta_mix),
    ensures
        inputs.grown_patch(side, delta_mix, edges, b_pa, steps, n) matches Ok(patch)
            ==> patch.wf(),
    decreases steps,
{
    if steps > 0 {
        lemma_patch_is_evaluable(inputs, side, delta_mix, edges, b_pa, n);
        law_doubling_keeps_the_sign(delta_mix);
        lemma_grown_patch_is_evaluable(
            inputs,
            side,
            delta_mix.mul(two()),
            edges,
            b_pa,
            (steps - 1) as nat,
            n,
        );
    }
}

proof fn lemma_junction_patch_is_evaluable<N: Numerics>(
    inputs: EosBranchInputs,
    side: Side,
    analytic: Binary64,
    edges: MixtureJunctionEdges,
    b_pa: Binary32,
    n: &N,
)
    requires
        EosBranchInputs::junction(side, &edges).is_finite(),
        EosBranchInputs::junction(side, &edges).gt(Binary32::zero()),
    ensures
        inputs.junction_patch(side, analytic, edges, b_pa, n) matches Ok(patch) ==> patch.wf(),
{
    lemma_ulp_is_not_negative(EosBranchInputs::junction(side, &edges));
    lemma_grown_patch_is_evaluable(
        inputs,
        side,
        EosBranchInputs::first_delta(side, &edges, analytic),
        edges,
        b_pa,
        MAX_MIX_GROWTHS as nat,
        n,
    );
}

proof fn lemma_assembled_is_evaluable<N: Numerics>(
    inputs: EosBranchInputs,
    p_v_gauge_pa: Binary32,
    n: &N,
)
    ensures
        inputs.assembled(p_v_gauge_pa, n) matches Ok(eos) ==> eos.wf(),
{
    if inputs.assembled(p_v_gauge_pa, n) is Ok {
        let b_pa = inputs.stiffness();
        let (plus, minus) = inputs.mixture_band(b_pa, p_v_gauge_pa, n)->Ok_0;
        let edges = inputs.edges(plus, minus, p_v_gauge_pa);
        lemma_single_constants();
        lemma_junction_patch_is_evaluable(
            inputs,
            Side::Liquid,
            inputs.liquid_reach(plus, minus),
            edges,
            b_pa,
            n,
        );
        lemma_junction_patch_is_evaluable(
            inputs,
            Side::Vapor,
            cutoff_delta(plus.sub(minus), inputs.c_min_m_s, inputs.vapor_slope_at(minus, b_pa, n)),
            edges,
            b_pa,
            n,
        );
    }
}

/// An equation of state that could be set up can be evaluated at every density.
pub proof fn law_eos_is_evaluable<N: Numerics>(
    inputs: EosBranchInputs,
    p_v_gauge_pa: Binary32,
    n: &N,
)
    ensures
        inputs.eos(p_v_gauge_pa, n) matches Ok(eos) ==> eos.wf(),
{
    lemma_assembled_is_evaluable(inputs, p_v_gauge_pa, n);
}

/// An equation of state that could be set up is continuous within 1 Pa at both ends of
/// both patches, carries less than 1 Pa at the liquid rest density, and has patches that
/// rise with finite positive slopes.
pub proof fn law_eos_is_sound<N: Numerics>(
    inputs: EosBranchInputs,
    p_v_gauge_pa: Binary32,
    n: &N,
)
    ensures
        inputs.eos(p_v_gauge_pa, n) matches Ok(eos) ==> {
            &&& eos.is_joined(Binary32::one(), n)
            &&& CavitatingEosParams::closes(eos.patch_vapor_junction, Binary32::one())
            &&& CavitatingEosParams::closes(eos.patch_liquid_junction, Binary32::one())
            &&& eos.pressure_at(eos.rho_l_ref_kg_m3, n).abs().lt(Binary32::one())
            &&& CavitatingEosParams::has_sound_speeds(&eos.patch_liquid_junction)
            &&& CavitatingEosParams::has_sound_speeds(&eos.patch_vapor_junction)
            &&& eos.patch_liquid_junction.is_rising()
            &&& eos.patch_vapor_junction.is_rising()
        },
{
}

/// The band of an equation of state lies between vacuum and the liquid rest density,
/// so the rest density is above the mixture.
pub proof fn law_band_is_ordered<N: Numerics>(
    inputs: EosBranchInputs,
    p_v_gauge_pa: Binary32,
    n: &N,
)
    ensures
        inputs.eos(p_v_gauge_pa, n) matches Ok(eos) ==> {
            &&& Binary32::zero().lt(eos.rho_m_minus_kg_m3)
            &&& eos.rho_m_minus_kg_m3.lt(eos.rho_m_plus_kg_m3)
            &&& eos.rho_m_plus_kg_m3.lt(eos.rho_l_ref_kg_m3)
            &&& eos.b_pa == inputs.stiffness()
            &&& eos.branches() == inputs
            &&& eos.p_v_gauge_pa == p_v_gauge_pa
        },
{
}

/// The liquid carries no pressure at its rest density.
pub proof fn law_no_pressure_at_rest<N: Numerics>(eos: CavitatingEosParams, n: &N)
    requires
        eos.branch(eos.rho_l_ref_kg_m3) == Branch::Liquid,
        eos.rho_l_ref_kg_m3.is_finite(),
        eos.c_l_m_s.mul(eos.c_l_m_s).is_finite(),
    ensures
        eos.pressure_at(eos.rho_l_ref_kg_m3, n).eq(Binary32::zero()),
{
    law_cancellation(eos.rho_l_ref_kg_m3);
    law_cancellation(eos.c_l_m_s.mul(eos.c_l_m_s));
}

/// A patch starts with its left pressure and its left slope.
pub proof fn law_patch_starts_at_its_left_end(patch: C1Patch)
    requires
        patch.width.gt(Binary32::zero()),
        patch.width.is_finite(),
        patch.rho_left.is_finite(),
        !patch.p0.is_nan(),
        patch.m0.is_finite(),
        patch.m1.sub(patch.m0).is_finite(),
        patch.is_flat() || !patch.end_ramp().is_nan(),
    ensures
        patch.value_at(patch.rho_left).eq(patch.p0),
        patch.slope_at(patch.rho_left).eq(patch.m0),
{
    lemma_single_constants();
    let zero = Binary32::zero();
    let (l, at_start) = patch.ramp_of();
    let rise = patch.m1.sub(patch.m0);
    law_cancellation(patch.rho_left);
    let x = patch.offset(patch.rho_left);
    assert(x == zero);
    law_zero_absorbs(zero, patch.m0);
    law_zero_adds_nothing(patch.p0, patch.m0.mul(zero));
    if !patch.is_flat() {
        if at_start {
            let bound = l.max(Binary32::from_bits(EPSILON));
            law_zero_absorbs(zero, rise);
            law_zero_absorbs(rise.mul(zero), zero);
            law_finite_product_is_a_number(two(), bound);
            law_doubling_is_positive(bound);
            law_multiplication_commutes(two(), bound);
            law_zero_quotient(rise.mul(zero).mul(zero), two().mul(bound));
            law_zero_adds_nothing(patch.p0.add(patch.m0.mul(zero)), patch.ramp_gain(zero, l));
            law_zero_quotient(rise.mul(zero), bound);
            law_zero_adds_nothing(patch.m0, patch.ramp_slope(zero, l));
        } else {
            law_difference_is_not_negative(patch.width, l);
        }
    }
}

/// A patch wider than the spacing of the numbers at its left end ends with its right
/// pressure and its right slope.
pub proof fn law_patch_ends_at_its_right_end(patch: C1Patch)
    requires
        patch.width.gt(Binary32::zero()),
        patch.rho_left.lt(patch.right()),
    ensures
        patch.value_at(patch.right()) == patch.p1,
        patch.slope_at(patch.right()) == patch.m1,
{
}

/// Every slope of a patch that is a number lies between its end slopes.
pub proof fn law_patch_slope_is_bounded(patch: C1Patch, rho: Binary32)
    requires
        !patch.m0.is_nan(),
        !patch.m1.is_nan(),
        !patch.slope_at(rho).is_nan(),
    ensures
        patch.derivative_extrema().0.le(patch.slope_at(rho)),
        patch.slope_at(rho).le(patch.derivative_extrema().1),
{
}

/// Every pressure of a rising patch that is a number lies between its end pressures.
pub proof fn law_patch_pressure_is_bounded(patch: C1Patch, rho: Binary32)
    requires
        patch.is_rising(),
        !patch.value_at(rho).is_nan(),
    ensures
        patch.p0.le(patch.value_at(rho)),
        patch.value_at(rho).le(patch.p1),
{
}

/// At the middle of its band the mixture has the saturation pressure, where the
/// arcsine of zero is zero.
pub proof fn law_mixture_boils_at_saturation<N: Numerics>(
    edges: MixtureJunctionEdges,
    rho: Binary32,
    n: &N,
)
    requires
        edges.position(rho).eq(Binary32::zero()),
        !edges.p_v_gauge_pa.is_nan(),
        edges.c_min_m_s.mul(edges.c_min_m_s).mul(
            edges.rho_m_plus_kg_m3.sub(edges.rho_m_minus_kg_m3),
        ).mul(half()).is_finite(),
        forall|x: Binary32|
            x.eq(Binary32::zero()) ==> (#[trigger] n.unary_of(Unary::Asin, x)).eq(
                Binary32::zero(),
            ),
    ensures
        edges.pressure_at(rho, n).eq(edges.p_v_gauge_pa),
{
    lemma_single_constants();
    let s = n.unary_of(
        Unary::Asin,
        edges.position(rho).clamp(Binary32::one().neg(), Binary32::one()),
    );
    let c = edges.c_min_m_s.mul(edges.c_min_m_s).mul(
        edges.rho_m_plus_kg_m3.sub(edges.rho_m_minus_kg_m3),
    ).mul(half());
    law_zero_absorbs(s, c);
    law_zero_adds_nothing(edges.p_v_gauge_pa, c.mul(s));
}

/// Denser liquid has no less pressure.
pub proof fn law_liquid_stiffens(inputs: EosBranchInputs, rho: Binary32, denser: Binary32)
    requires
        rho.le(denser),
        rho.is_finite(),
        denser.is_finite(),
        inputs.rho_l_ref_kg_m3.is_finite(),
        inputs.c_l_m_s.mul(inputs.c_l_m_s).is_finite(),
        inputs.c_l_m_s.mul(inputs.c_l_m_s).gt(Binary32::zero()),
    ensures
        inputs.liquid_pressure(rho).le(inputs.liquid_pressure(denser)),
{
    lemma_single_constants();
    let c2 = inputs.c_l_m_s.mul(inputs.c_l_m_s);
    lemma_scaled_difference(rho, denser, inputs.rho_l_ref_kg_m3, c2);
}

/// A positive multiple of the distance from a base grows.
pub proof fn lemma_scaled_difference(a: Binary32, b: Binary32, base: Binary32, factor: Binary32)
    requires
        a.le(b),
        a.is_finite(),
        b.is_finite(),
        base.is_finite(),
        factor.is_finite(),
        factor.gt(Binary32::zero()),
    ensures
        factor.mul(a.sub(base)).le(factor.mul(b.sub(base))),
{
    lemma_single_constants();
    law_finite_difference_is_a_number(a, base);
    law_finite_difference_is_a_number(b, base);
    law_subtraction_is_monotone(a, b, base);
    law_finite_product_is_a_number(a.sub(base), factor);
    law_finite_product_is_a_number(b.sub(base), factor);
    law_multiplication_is_monotone(a.sub(base), b.sub(base), factor);
    law_multiplication_commutes(factor, a.sub(base));
    law_multiplication_commutes(factor, b.sub(base));
}

/// Denser vapour has no less pressure, where a power grows with its base.
pub proof fn law_vapor_stiffens<N: Numerics>(
    inputs: EosBranchInputs,
    b_pa: Binary32,
    rho: Binary32,
    denser: Binary32,
    n: &N,
)
    requires
        Binary32::zero().le(rho),
        rho.le(denser),
        rho.is_finite(),
        denser.is_finite(),
        inputs.rho_v_ref_kg_m3.gt(Binary32::zero()),
        b_pa.is_finite(),
        b_pa.gt(Binary32::zero()),
        n.pow_of(rho.div(inputs.rho_v_ref_kg_m3), inputs.gamma_v).is_finite(),
        n.pow_of(denser.div(inputs.rho_v_ref_kg_m3), inputs.gamma_v).is_finite(),
        forall|x: Binary32, y: Binary32|
            Binary32::zero().le(x) && x.le(y) ==> (#[trigger] n.pow_of(x, inputs.gamma_v)).le(
                #[trigger] n.pow_of(y, inputs.gamma_v),
            ),
    ensures
        inputs.vapor_pressure_at(rho, b_pa, n).le(inputs.vapor_pressure_at(denser, b_pa, n)),
{
    lemma_single_constants();
    law_finite_quotient_is_a_number(rho, inputs.rho_v_ref_kg_m3);
    law_finite_quotient_is_a_number(denser, inputs.rho_v_ref_kg_m3);
    law_division_is_monotone(rho, denser, inputs.rho_v_ref_kg_m3);
    law_zero_divided(inputs.rho_v_ref_kg_m3);
    law_division_is_monotone(Binary32::zero(), rho, inputs.rho_v_ref_kg_m3);
    lemma_scaled_difference(
        n.pow_of(rho.div(inputs.rho_v_ref_kg_m3), inputs.gamma_v),
        n.pow_of(denser.div(inputs.rho_v_ref_kg_m3), inputs.gamma_v),
        Binary32::one(),
        b_pa,
    );
}

/// Denser mixture has no less pressure, where the arcsine grows.
pub proof fn law_mixture_stiffens<N: Numerics>(
    edges: MixtureJunctionEdges,
    rho: Binary32,
    denser: Binary32,
    n: &N,
)
    requires
        rho.le(denser),
        two().mul(rho).is_finite(),
        two().mul(denser).is_finite(),
        edges.rho_m_plus_kg_m3.add(edges.rho_m_minus_kg_m3).is_finite(),
        two().mul(rho).sub(edges.rho_m_plus_kg_m3.add(edges.rho_m_minus_kg_m3)).is_finite(),
        two().mul(denser).sub(edges.rho_m_plus_kg_m3.add(edges.rho_m_minus_kg_m3)).is_finite(),
        edges.rho_m_plus_kg_m3.sub(edges.rho_m_minus_kg_m3).gt(Binary32::zero()),
        edges.p_v_gauge_pa.is_finite(),
        Binary32::zero().lt(
            edges.c_min_m_s.mul(edges.c_min_m_s).mul(
                edges.rho_m_plus_kg_m3.sub(edges.rho_m_minus_kg_m3),
            ).mul(half()),
        ),
        edges.c_min_m_s.mul(edges.c_min_m_s).mul(
            edges.rho_m_plus_kg_m3.sub(edges.rho_m_minus_kg_m3),
        ).mul(half()).is_finite(),
        forall|x: Binary32, y: Binary32|
            Binary32::one().neg().le(x) && x.le(y) && y.le(Binary32::one()) ==> {
                &&& (#[trigger] n.unary_of(Unary::Asin, x)).le(
                    #[trigger] n.unary_of(Unary::Asin, y),
                )
                &&& n.unary_of(Unary::Asin, x).is_finite()
                &&& n.unary_of(Unary::Asin, y).is_finite()
            },
    ensures
        edges.pressure_at(rho, n).le(edges.pressure_at(denser, n)),
{
    lemma_single_constants();
    let sum = edges.rho_m_plus_kg_m3.add(edges.rho_m_minus_kg_m3);
    let width = edges.rho_m_plus_kg_m3.sub(edges.rho_m_minus_kg_m3);
    law_multiplication_commutes(two(), rho);
    law_multiplication_commutes(two(), denser);
    law_multiplication_is_monotone(rho, denser, two());
    law_subtraction_is_monotone(two().mul(rho), two().mul(denser), sum);
    law_finite_quotient_is_a_number(two().mul(rho).sub(sum), width);
    law_finite_quotient_is_a_number(two().mul(denser).sub(sum), width);
    law_division_is_monotone(two().mul(rho).sub(sum), two().mul(denser).sub(sum), width);
    let x = edges.position(rho).clamp(Binary32::one().neg(), Binary32::one());
    let y = edges.position(denser).clamp(Binary32::one().neg(), Binary32::one());
    assert(Binary32::one().neg().le(x) && x.le(y) && y.le(Binary32::one()));
    let c = edges.c_min_m_s.mul(edges.c_min_m_s).mul(width).mul(half());
    let s = n.unary_of(Unary::Asin, x);
    let t = n.unary_of(Unary::Asin, y);
    law_finite_product_is_a_number(s, c);
    law_finite_product_is_a_number(t, c);
    law_multiplication_commutes(c, s);
    law_multiplication_commutes(c, t);
    law_multiplication_is_monotone(s, t, c);
    law_sum_with_finite_is_a_number(c.mul(s), edges.p_v_gauge_pa);
    law_sum_with_finite_is_a_number(c.mul(t), edges.p_v_gauge_pa);
    law_addition_commutes(edges.p_v_gauge_pa, c.mul(s));
    law_addition_commutes(edges.p_v_gauge_pa, c.mul(t));
    law_addition_is_monotone(c.mul(s), c.mul(t), edges.p_v_gauge_pa);
}

impl EosBranchInputs {
    /// `patch` reaches `delta` into the mixture: at least the spacing of numbers at the
    /// junction, at most a tenth of the band.
    pub open spec fn reaches<N: Numerics>(
        &self,
        side: Side,
        edges: MixtureJunctionEdges,
        b_pa: Binary32,
        patch: C1Patch,
        delta: Binary32,
        n: &N,
    ) -> bool {
        &&& patch == self.patch_at(side, delta, edges, b_pa, n)
        &&& ulp_at(Self::junction(side, &edges)).le(delta)
        &&& delta.le(Self::delta_limit(&edges))
    }
}

proof fn lemma_grown_patch_is_local<N: Numerics>(
    inputs: EosBranchInputs,
    side: Side,
    delta: Binary32,
    edges: MixtureJunctionEdges,
    b_pa: Binary32,
    steps: nat,
    n: &N,
) -> (reach: Binary32)
    requires
        Binary32::zero().le(ulp_at(EosBranchInputs::junction(side, &edges))),
        ulp_at(EosBranchInputs::junction(side, &edges)).le(delta),
        !EosBranchInputs::delta_limit(&edges).is_nan(),
    ensures
        inputs.grown_patch(side, delta, edges, b_pa, steps, n) matches Ok(patch)
            ==> inputs.reaches(side, edges, b_pa, patch, reach, n),
    decreases steps,
{
    let patch = inputs.patch_at(side, delta, edges, b_pa, n);
    let least = Binary32::from_bits(PATCH_MIN_RAMP_ULPS).mul(
        ulp_at(EosBranchInputs::junction(side, &edges)),
    );
    if steps == 0 || delta.gt(EosBranchInputs::delta_limit(&edges)) || !patch.has_ramp() {
        delta
    } else if patch.ramp_of().0.ge(least) {
        delta
    } else {
        lemma_single_constants();
        law_doubling_grows(delta);
        lemma_grown_patch_is_local(
            inputs,
            side,
            delta.mul(two()),
            edges,
            b_pa,
            (steps - 1) as nat,
            n,
        )
    }
}

/// A patch is a thin correction: it reaches a positive distance into the mixture, and no
/// further than a tenth of the band.
pub proof fn law_patch_is_local<N: Numerics>(
    inputs: EosBranchInputs,
    side: Side,
    analytic: Binary64,
    edges: MixtureJunctionEdges,
    b_pa: Binary32,
    n: &N,
)
    requires
        EosBranchInputs::junction(side, &edges).gt(Binary32::zero()),
        EosBranchInputs::junction(side, &edges).next().is_finite(),
        !EosBranchInputs::delta_limit(&edges).is_nan(),
    ensures
        inputs.junction_patch(side, analytic, edges, b_pa, n) matches Ok(patch)
            ==> exists|reach: Binary32|
            inputs.reaches(side, edges, b_pa, patch, reach, n) && reach.gt(Binary32::zero()),
{
    lemma_single_constants();
    let rho = EosBranchInputs::junction(side, &edges);
    law_spacing_is_felt(rho);
    let first = EosBranchInputs::first_delta(side, &edges, analytic);
    let reach = lemma_grown_patch_is_local(
        inputs,
        side,
        first,
        edges,
        b_pa,
        MAX_MIX_GROWTHS as nat,
        n,
    );
    if inputs.junction_patch(side, analytic, edges, b_pa, n) is Ok {
        let patch = inputs.junction_patch(side, analytic, edges, b_pa, n)->Ok_0;
        assert(inputs.reaches(side, edges, b_pa, patch, reach, n) && reach.gt(Binary32::zero()));
    }
}

/// The liquid patch starts below its junction.
pub proof fn law_liquid_reach_is_positive<N: Numerics>(
    inputs: EosBranchInputs,
    analytic: Binary64,
    edges: MixtureJunctionEdges,
    b_pa: Binary32,
    n: &N,
)
    requires
        edges.rho_m_plus_kg_m3.gt(Binary32::zero()),
        edges.rho_m_plus_kg_m3.next().is_finite(),
        EosBranchInputs::delta_limit(&edges).is_finite(),
    ensures
        inputs.junction_patch(Side::Liquid, analytic, edges, b_pa, n) matches Ok(patch)
            ==> edges.rho_m_plus_kg_m3.sub(patch.rho_left).gt(Binary32::zero()),
{
    lemma_single_constants();
    law_patch_is_local(inputs, Side::Liquid, analytic, edges, b_pa, n);
    if inputs.junction_patch(Side::Liquid, analytic, edges, b_pa, n) is Ok {
        let patch = inputs.junction_patch(Side::Liquid, analytic, edges, b_pa, n)->Ok_0;
        let plus = edges.rho_m_plus_kg_m3;
        let reach = choose|reach: Binary32|
            inputs.reaches(Side::Liquid, edges, b_pa, patch, reach, n) && reach.gt(
                Binary32::zero(),
            );
        law_minus_one_negates(plus, reach);
        law_spacing_is_felt(plus);
        law_finite_difference_is_a_number(plus, reach);
        law_finite_difference_is_a_number(plus, ulp_at(plus));
        law_subtraction_is_antitone(plus, ulp_at(plus), reach);
        if plus.sub(reach).is_finite() {
            law_positive_difference(plus, plus.sub(reach));
        } else {
            reveal(Binary32::spec_sub);
        }
    }
}

/// In the middle of the band the mixture has the saturation pressure, where no patch
/// reaches that far and the arcsine of zero is zero.
pub proof fn law_mid_band_is_saturated<N: Numerics>(eos: CavitatingEosParams, n: &N)
    requires
        ({
            let sum = eos.rho_m_plus_kg_m3.add(eos.rho_m_minus_kg_m3);
            &&& 0x0100_0000 <= sum.bits
            &&& sum.bits < 0x7f80_0000
            &&& eos.branch(sum.div(two())) == Branch::Mixture
        }),
        eos.rho_m_minus_kg_m3.is_finite(),
        eos.rho_m_minus_kg_m3.lt(eos.rho_m_plus_kg_m3),
        !eos.p_v_gauge_pa.is_nan(),
        eos.c_min_m_s.mul(eos.c_min_m_s).mul(
            eos.rho_m_plus_kg_m3.sub(eos.rho_m_minus_kg_m3),
        ).mul(half()).is_finite(),
        forall|x: Binary32|
            x.eq(Binary32::zero()) ==> (#[trigger] n.unary_of(Unary::Asin, x)).eq(
                Binary32::zero(),
            ),
    ensures
        eos.pressure_at(
            eos.rho_m_plus_kg_m3.add(eos.rho_m_minus_kg_m3).div(two()),
            n,
        ).eq(eos.p_v_gauge_pa),
{
    lemma_single_constants();
    let sum = eos.rho_m_plus_kg_m3.add(eos.rho_m_minus_kg_m3);
    law_double_of_half(sum);
    law_cancellation(sum);
    law_positive_difference(eos.rho_m_plus_kg_m3, eos.rho_m_minus_kg_m3);
    law_zero_divided(eos.rho_m_plus_kg_m3.sub(eos.rho_m_minus_kg_m3));
    law_mixture_boils_at_saturation(eos.band(), sum.div(two()), n);
}

/// The place of a branch along the density.
pub open spec fn rank(branch: Branch) -> int {
    match branch {
        Branch::Vapor => 0,
        Branch::VaporPatch => 1,
        Branch::Mixture => 2,
        Branch::LiquidPatch => 3,
        Branch::Liquid => 4,
    }
}

/// The squared sound speed is the slope of the pressure: in the liquid the pressure is
/// that slope times the distance from rest, and at either end of a patch the sound speed
/// is the slope that the patch has there.
pub proof fn law_sound_speed_is_the_slope<N: Numerics>(
    eos: CavitatingEosParams,
    rho: Binary32,
    n: &N,
)
    ensures
        eos.branch(rho) == Branch::Liquid ==> eos.pressure_at(rho, n) == eos.sound_at(rho, n).mul(
            rho.sub(eos.rho_l_ref_kg_m3),
        ),
        eos.branch(rho) == Branch::LiquidPatch && eos.patch_liquid_junction.is_past(rho)
            ==> eos.sound_at(rho, n) == eos.patch_liquid_junction.m1,
        eos.branch(rho) == Branch::VaporPatch && eos.patch_vapor_junction.is_past(rho)
            ==> eos.sound_at(rho, n) == eos.patch_vapor_junction.m1,
{
}

impl EosBranchInputs {
    /// The edges of a band of width `width` belong together within a bracket: the mismatch
    /// of the vapour edge changes sign between `lo` and `hi`, and `width` is their middle.
    pub open spec fn brackets_width<N: Numerics>(
        &self,
        b_pa: Binary32,
        p_v_gauge_pa: Binary32,
        width: Binary32,
        lo: Binary32,
        hi: Binary32,
        n: &N,
    ) -> bool {
        &&& width == half().mul(lo.add(hi))
        &&& self.mismatch_at(b_pa, p_v_gauge_pa, lo, n).gt(Binary32::zero())
        &&& !self.mismatch_at(b_pa, p_v_gauge_pa, hi, n).gt(Binary32::zero())
    }
}

proof fn lemma_bisection_keeps_the_bracket<N: Numerics>(
    inputs: EosBranchInputs,
    b_pa: Binary32,
    p_v_gauge_pa: Binary32,
    lo: Binary32,
    hi: Binary32,
    steps: nat,
    n: &N,
)
    requires
        inputs.mismatch_at(b_pa, p_v_gauge_pa, lo, n).gt(Binary32::zero()),
        !inputs.mismatch_at(b_pa, p_v_gauge_pa, hi, n).gt(Binary32::zero()),
    ensures
        exists|a: Binary32, b: Binary32|
            inputs.brackets_width(
                b_pa,
                p_v_gauge_pa,
                inputs.bisected_width(b_pa, p_v_gauge_pa, lo, hi, steps, n),
                a,
                b,
                n,
            ),
    decreases steps,
{
    let mid = half().mul(lo.add(hi));
    let f_mid = inputs.mismatch_at(b_pa, p_v_gauge_pa, mid, n);
    if steps == 0 || f_mid.abs().lt(Binary32::from_bits(NANO)) || hi.sub(lo).lt(
        Binary32::from_bits(NANO),
    ) {
        assert(inputs.bisected_width(b_pa, p_v_gauge_pa, lo, hi, steps, n) == mid);
        assert(inputs.brackets_width(b_pa, p_v_gauge_pa, mid, lo, hi, n));
    } else if f_mid.gt(Binary32::zero()) {
        lemma_bisection_keeps_the_bracket(
            inputs,
            b_pa,
            p_v_gauge_pa,
            mid,
            hi,
            (steps - 1) as nat,
            n,
        );
        assert(inputs.bisected_width(b_pa, p_v_gauge_pa, lo, hi, steps, n)
            == inputs.bisected_width(b_pa, p_v_gauge_pa, mid, hi, (steps - 1) as nat, n));
    } else {
        lemma_bisection_keeps_the_bracket(
            inputs,
            b_pa,
            p_v_gauge_pa,
            lo,
            mid,
            (steps - 1) as nat,
            n,
        );
        assert(inputs.bisected_width(b_pa, p_v_gauge_pa, lo, hi, steps, n)
            == inputs.bisected_width(b_pa, p_v_gauge_pa, lo, mid, (steps - 1) as nat, n));
    }
}

/// The edges of a band are those of one width: the liquid edge by its own relation, the
/// vapour edge that width below it, and the width between two at which the relation of
/// the vapour edge is missed to either side.
pub proof fn law_band_edges_belong_together<N: Numerics>(
    inputs: EosBranchInputs,
    b_pa: Binary32,
    p_v_gauge_pa: Binary32,
    n: &N,
)
    ensures
        inputs.mixture_band(b_pa, p_v_gauge_pa, n) matches Ok((plus, minus))
            ==> exists|width: Binary32, lo: Binary32, hi: Binary32|
            {
                &&& plus == inputs.liquid_edge(p_v_gauge_pa, width)
                &&& minus == plus.sub(width)
                &&& #[trigger] inputs.brackets_width(b_pa, p_v_gauge_pa, width, lo, hi, n)
            },
{
    let limit = inputs.width_limit(
        b_pa,
        p_v_gauge_pa,
        Binary32::from_bits(PI).mul(inputs.c_min_m_s.mul(inputs.c_min_m_s)),
    );
    if inputs.mixture_band(b_pa, p_v_gauge_pa, n) is Ok {
        let lo = Binary32::from_bits(MICRO);
        let hi = EosBranchInputs::search_end(limit);
        lemma_single_constants();
        lemma_bisection_keeps_the_bracket(
            inputs,
            b_pa,
            p_v_gauge_pa,
            lo,
            hi,
            BAND_STEPS as nat,
            n,
        );
        let width = inputs.bisected_width(b_pa, p_v_gauge_pa, lo, hi, BAND_STEPS as nat, n);
        let (a, b) = choose|a: Binary32, b: Binary32|
            inputs.brackets_width(b_pa, p_v_gauge_pa, width, a, b, n);
        assert(inputs.brackets_width(b_pa, p_v_gauge_pa, width, a, b, n));
    }
}

/// A patch of a junction meets the branches at its ends in pressure and in slope.
pub proof fn lemma_patch_meets_branches<N: Numerics>(
    inputs: EosBranchInputs,
    side: Side,
    delta: Binary32,
    edges: MixtureJunctionEdges,
    b_pa: Binary32,
    n: &N,
)
    ensures
        ({
            let patch = inputs.patch_at(side, delta, edges, b_pa, n);
            let mix = EosBranchInputs::mix_edge(side, &edges, delta);
            let pure = EosBranchInputs::pure_edge(side, &edges);
            match side {
                Side::Liquid => {
                    &&& patch.rho_left == mix && patch.width == pure.sub(mix)
                    &&& patch.p0 == edges.pressure_at(mix, n) && patch.m0 == edges.slope_at(mix)
                    &&& patch.p1 == inputs.liquid_pressure(pure)
                    &&& patch.m1 == inputs.c_l_m_s.mul(inputs.c_l_m_s)
                },
                Side::Vapor => {
                    &&& patch.rho_left == pure && patch.width == mix.sub(pure)
                    &&& patch.p0 == inputs.vapor_pressure_at(pure, b_pa, n)
                    &&& patch.m0 == inputs.vapor_slope_at(pure, b_pa, n)
                    &&& patch.p1 == edges.pressure_at(mix, n) && patch.m1 == edges.slope_at(mix)
                },
            }
        }),
{
    lemma_single_constants();
    let rho = EosBranchInputs::junction(side, &edges);
    law_minus_one_negates(rho, EosBranchInputs::pure_delta(rho));
}

/// The curve is continuous in pressure and in slope where a patch takes over from a
/// branch: each patch has at its ends the pressure and the slope of the branch there.
pub proof fn law_patches_meet_their_branches<N: Numerics>(
    inputs: EosBranchInputs,
    p_v_gauge_pa: Binary32,
    n: &N,
)
    ensures
        inputs.eos(p_v_gauge_pa, n) matches Ok(eos) ==> {
            let v = eos.patch_vapor_junction;
            let l = eos.patch_liquid_junction;
            &&& v.p0 == inputs.vapor_pressure_at(v.rho_left, eos.b_pa, n)
            &&& v.m0 == inputs.vapor_slope_at(v.rho_left, eos.b_pa, n)
            &&& exists|mix: Binary32|
                {
                    &&& v.width == mix.sub(v.rho_left)
                    &&& v.p1 == #[trigger] eos.band().pressure_at(mix, n)
                    &&& v.m1 == eos.band().slope_at(mix)
                }
            &&& l.p0 == eos.band().pressure_at(l.rho_left, n)
            &&& l.m0 == eos.band().slope_at(l.rho_left)
            &&& exists|pure: Binary32|
                {
                    &&& l.width == pure.sub(l.rho_left)
                    &&& l.p1 == #[trigger] inputs.liquid_pressure(pure)
                }
            &&& l.m1 == inputs.c_l_m_s.mul(inputs.c_l_m_s)
        },
{
    if inputs.eos(p_v_gauge_pa, n) is Ok {
        lemma_single_constants();
        let eos = inputs.eos(p_v_gauge_pa, n)->Ok_0;
        let b_pa = inputs.stiffness();
        let (plus, minus) = inputs.mixture_band(b_pa, p_v_gauge_pa, n)->Ok_0;
        let edges = inputs.edges(plus, minus, p_v_gauge_pa);
        let liquid = lemma_grown_patch_is_built(
            inputs,
            Side::Liquid,
            EosBranchInputs::first_delta(
                Side::Liquid,
                &edges,
                inputs.liquid_reach(plus, minus),
            ),
            edges,
            b_pa,
            MAX_MIX_GROWTHS as nat,
            n,
        );
        let vapor = lemma_grown_patch_is_built(
            inputs,
            Side::Vapor,
            EosBranchInputs::first_delta(
                Side::Vapor,
                &edges,
                cutoff_delta(
                    plus.sub(minus),
                    inputs.c_min_m_s,
                    inputs.vapor_slope_at(minus, b_pa, n),
                ),
            ),
            edges,
            b_pa,
            MAX_MIX_GROWTHS as nat,
            n,
        );
        lemma_patch_meets_branches(inputs, Side::Liquid, liquid, edges, b_pa, n);
        lemma_patch_meets_branches(inputs, Side::Vapor, vapor, edges, b_pa, n);
        assert(eos.band() == edges);
        let mix = EosBranchInputs::mix_edge(Side::Vapor, &edges, vapor);
        let pure = EosBranchInputs::pure_edge(Side::Liquid, &edges);
        assert(eos.patch_vapor_junction.p1 == eos.band().pressure_at(mix, n));
        assert(eos.patch_liquid_junction.p1 == inputs.liquid_pressure(pure));
    }
}

/// A grown patch is the patch of some reach.
proof fn lemma_grown_patch_is_built<N: Numerics>(
    inputs: EosBranchInputs,
    side: Side,
    delta: Binary32,
    edges: MixtureJunctionEdges,
    b_pa: Binary32,
    steps: nat,
    n: &N,
) -> (reach: Binary32)
    ensures
        inputs.grown_patch(side, delta, edges, b_pa, steps, n) matches Ok(patch) ==> patch
            == inputs.patch_at(side, reach, edges, b_pa, n),
    decreases steps,
{
    let patch = inputs.patch_at(side, delta, edges, b_pa, n);
    let least = Binary32::from_bits(PATCH_MIN_RAMP_ULPS).mul(
        ulp_at(EosBranchInputs::junction(side, &edges)),
    );
    if steps == 0 || delta.gt(EosBranchInputs::delta_limit(&edges)) || !patch.has_ramp() {
        delta
    } else if patch.ramp_of().0.ge(least) {
        delta
    } else {
        lemma_grown_patch_is_built(
            inputs,
            side,
            delta.mul(two()),
            edges,
            b_pa,
            (steps - 1) as nat,
            n,
        )
    }
}

} // verus!
