use vstd::arithmetic::power2::lemma_pow2_pos;
use vstd::pervasive::unreached;
use vstd::prelude::*;

use crate::binary::error::law_difference_is_near;
use crate::binary::error::law_order_of_all_amounts;
use crate::binary::error::law_order_of_amounts;
use crate::binary::error::law_product_is_near;
use crate::binary::error::law_quotient_is_near;
use crate::binary::error::law_sum_is_near;
use crate::binary::error::lemma_amount;
use crate::binary::error::lemma_constant_amounts;
use crate::binary::error::lemma_tiny;
use crate::binary::error::size;
use crate::binary::error::tiny;
use crate::binary::laws::law_cancellation;
use crate::binary::laws::law_clamp_is_bounded;
use crate::binary::laws::law_finite_difference_is_a_number;
use crate::binary::laws::law_non_negative_steps;
use crate::binary::laws::law_self_quotient_is_one;
use crate::binary::laws::law_small_integers_are_exact;
use crate::binary::laws::law_zero_quotient;
use crate::binary::relative::dust;
use crate::binary::relative::is_ordinary;
use crate::binary::relative::lemma_dust;
use crate::binary::relative::lemma_ordinary_product;
use crate::binary::relative::lemma_within_product;
use crate::binary::relative::lemma_within_quotient;
use crate::binary::relative::lemma_within_sum;
use crate::binary::relative::within;
use crate::binary::single::Binary32;
use crate::binary::single::lemma_single_constants;
use crate::cavitating_eos::lemma_scaled_difference;
use crate::cavitating_fluid::GridFluid;
use crate::cavitating_fluid::is_cell_width;
use crate::cavitating_fluid::is_ratio_range;
use crate::cavitating_table::CavitatingEosTable;
use crate::linalg::Mat2;
use crate::mechanics::seeded;
use crate::model::ConstitutiveModel;
use crate::model::MaterialModel;
use crate::model::Response;
use crate::numerics::Numerics;
use crate::params::MaterialParams;
use crate::particle::Particle;

verus! {

/// Intervals of the quality at which the stiffness is sampled.
pub const SWEEP_SAMPLES: u64 = 201;

/// A vapour mass fraction within `[0, 1]`.
pub open spec fn quality_of(x: Binary32) -> Binary32 {
    x.clamp(Binary32::zero(), Binary32::one())
}

/// A vapour mass fraction within `[0, 1]`.
#[verifier::when_used_as_spec(quality_of)]
pub fn clamped_quality(x: Binary32) -> (r: Binary32)
    ensures
        r == quality_of(x),
{
    proof {
        lemma_single_constants();
    }
    x.clamp(Binary32::zero(), Binary32::one())
}

/// The equilibrium density at vapour mass fraction `x`: the reference densities at
/// the ends, specific volumes mixed by mass between them.
#[verifier::allow_in_spec]
pub fn rho_eq_kg_m3(x: Binary32, rho_l_ref_kg_m3: Binary32, rho_v_ref_kg_m3: Binary32) -> Binary32
    returns
        if clamped_quality(x).eq(Binary32::zero()) {
            rho_l_ref_kg_m3
        } else if clamped_quality(x).eq(Binary32::one()) {
            rho_v_ref_kg_m3
        } else {
            Binary32::one().div(
                Binary32::one().sub(clamped_quality(x)).div(rho_l_ref_kg_m3).add(
                    clamped_quality(x).div(rho_v_ref_kg_m3),
                ),
            )
        },
{
    let x = clamped_quality(x);
    if x.eq(Binary32::zero()) {
        rho_l_ref_kg_m3
    } else if x.eq(Binary32::one()) {
        rho_v_ref_kg_m3
    } else {
        Binary32::one().div(
            Binary32::one().sub(x).div(rho_l_ref_kg_m3).add(x.div(rho_v_ref_kg_m3)),
        )
    }
}

/// The squared sound speed of the frozen mixture: the reference values at the ends,
/// compliances mixed by mass between them.
pub open spec fn mixture_c2(
    x: Binary32,
    rho_l_ref_kg_m3: Binary32,
    c_l2_m2_s2: Binary32,
    rho_v_ref_kg_m3: Binary32,
    c_v_ref2_m2_s2: Binary32,
) -> Binary32 {
    let q = quality_of(x);
    if q.eq(Binary32::zero()) {
        c_l2_m2_s2
    } else if q.eq(Binary32::one()) {
        c_v_ref2_m2_s2
    } else {
        Binary32::one().div(
            rho_eq_kg_m3(q, rho_l_ref_kg_m3, rho_v_ref_kg_m3).mul(
                Binary32::one().sub(q).div(rho_l_ref_kg_m3.mul(c_l2_m2_s2)).add(
                    q.div(rho_v_ref_kg_m3.mul(c_v_ref2_m2_s2)),
                ),
            ),
        )
    }
}

/// The squared sound speed of the frozen mixture.
#[verifier::when_used_as_spec(mixture_c2)]
pub fn c_mix2_m2_s2(
    x: Binary32,
    rho_l_ref_kg_m3: Binary32,
    c_l2_m2_s2: Binary32,
    rho_v_ref_kg_m3: Binary32,
    c_v_ref2_m2_s2: Binary32,
) -> (r: Binary32)
    ensures
        r == mixture_c2(x, rho_l_ref_kg_m3, c_l2_m2_s2, rho_v_ref_kg_m3, c_v_ref2_m2_s2),
{
    let x = clamped_quality(x);
    if x.eq(Binary32::zero()) {
        return c_l2_m2_s2;
    }
    if x.eq(Binary32::one()) {
        return c_v_ref2_m2_s2;
    }
    let inv_rho_c2 = Binary32::one().sub(x).div(rho_l_ref_kg_m3.mul(c_l2_m2_s2)).add(
        x.div(rho_v_ref_kg_m3.mul(c_v_ref2_m2_s2)),
    );
    Binary32::one().div(rho_eq_kg_m3(x, rho_l_ref_kg_m3, rho_v_ref_kg_m3).mul(inv_rho_c2))
}

/// Boiling liquid: a mixture whose vapour mass fraction each particle carries, stiff
/// around the equilibrium density of that fraction.
#[derive(Clone, Copy, Debug, PartialEq, Eq, Structural)]
pub struct BoilingMixtureMaterial {
    pub rho_l_ref_kg_m3: Binary32,
    pub c_l_m_s: Binary32,
    pub rho_v_ref_kg_m3: Binary32,
    pub c_v_ref_m_s: Binary32,
    pub gamma_l: Binary32,
    /// Least squared sound speed over the quality, in grid units.
    pub min_c_mix2_grid: Binary32,
    pub dx_meters: Binary32,
    pub dynamic_viscosity: Binary32,
    pub rest_density_grid: Binary32,
    pub min_density: Binary32,
    pub min_volume: Binary32,
    pub volume_ratio_min: Binary32,
    pub volume_ratio_max: Binary32,
}

impl CavitatingEosTable {
    /// Squared sound speed of the vapour at its reference density.
    #[verifier::allow_in_spec]
    pub fn vapor_c2(&self) -> Binary32
        returns
            self.c_l_m_s.mul(self.c_l_m_s).mul(self.rho_l_ref_kg_m3).div(self.gamma_l).mul(
                self.gamma_v,
            ).div(self.rho_v_ref_kg_m3),
    {
        self.c_l_m_s.mul(self.c_l_m_s).mul(self.rho_l_ref_kg_m3).div(self.gamma_l).mul(
            self.gamma_v,
        ).div(self.rho_v_ref_kg_m3)
    }

    /// Squared sound speed of the mixture at sample `k`.
    #[verifier::allow_in_spec]
    pub fn sampled_c2(&self, k: u64) -> Binary32
        returns
            c_mix2_m2_s2(
                Binary32::from_integer(k).div(Binary32::from_integer(SWEEP_SAMPLES)),
                self.rho_l_ref_kg_m3,
                self.c_l_m_s.mul(self.c_l_m_s),
                self.rho_v_ref_kg_m3,
                self.vapor_c2(),
            ),
    {
        c_mix2_m2_s2(
            Binary32::from_integer(k).div(Binary32::from_integer(SWEEP_SAMPLES)),
            self.rho_l_ref_kg_m3,
            self.c_l_m_s.mul(self.c_l_m_s),
            self.rho_v_ref_kg_m3,
            self.vapor_c2(),
        )
    }

    /// The least squared sound speed over the first `count` samples.
    pub open spec fn least_c2(&self, count: nat) -> Binary32
        decreases count,
    {
        if count == 0 {
            Binary32::infinity()
        } else {
            self.least_c2((count - 1) as nat).min(self.sampled_c2((count - 1) as u64))
        }
    }

    /// The least squared sound speed over all samples.
    pub open spec fn mixture_min_c2(&self) -> Binary32 {
        self.least_c2((SWEEP_SAMPLES + 1) as nat)
    }

    /// The least squared sound speed over all samples.
    pub fn measure_min_c2(&self) -> (r: Binary32)
        ensures
            r == self.mixture_min_c2(),
    {
        let mut least = Binary32::infinity();
        let mut k: u64 = 0;
        while k <= SWEEP_SAMPLES
            invariant
                k <= SWEEP_SAMPLES + 1,
                least == self.least_c2(k as nat),
            decreases SWEEP_SAMPLES + 1 - k,
        {
            least = least.min(self.sampled_c2(k));
            k = k + 1;
        }
        least
    }
}

/// The measured minimum is a lower bound of every sample.
pub proof fn law_minimum_bounds_every_sample(table: CavitatingEosTable, count: nat, k: nat)
    requires
        k < count,
        !table.sampled_c2(k as u64).is_nan(),
    ensures
        table.least_c2(count).le(table.sampled_c2(k as u64)),
    decreases count,
{
    lemma_single_constants();
    let m = (count - 1) as nat;
    lemma_least_is_a_number(table, m);
    if k < m {
        law_minimum_bounds_every_sample(table, m, k);
    }
}

proof fn lemma_least_is_a_number(table: CavitatingEosTable, count: nat)
    ensures
        !table.least_c2(count).is_nan(),
    decreases count,
{
    lemma_single_constants();
    if count > 0 {
        lemma_least_is_a_number(table, (count - 1) as nat);
    }
}

impl BoilingMixtureMaterial {
    /// The fluid on the grid.
    #[verifier::allow_in_spec]
    pub fn grid(&self) -> GridFluid
        returns
            (GridFluid {
                rest_density: self.rest_density_grid,
                dx_meters: self.dx_meters,
                dynamic_viscosity: self.dynamic_viscosity,
                min_density: self.min_density,
                min_volume: self.min_volume,
                volume_ratio_min: self.volume_ratio_min,
                volume_ratio_max: self.volume_ratio_max,
            }),
    {
        GridFluid {
            rest_density: self.rest_density_grid,
            dx_meters: self.dx_meters,
            dynamic_viscosity: self.dynamic_viscosity,
            min_density: self.min_density,
            min_volume: self.min_volume,
            volume_ratio_min: self.volume_ratio_min,
            volume_ratio_max: self.volume_ratio_max,
        }
    }

    /// The mixture of the liquid and the vapour of a table, or none where the vapour or
    /// the softest mixture has no finite positive stiffness.
    pub fn try_from_table(
        table: &CavitatingEosTable,
        dx_meters: Binary32,
        dynamic_viscosity: Binary32,
        volume_ratio_min: Binary32,
        volume_ratio_max: Binary32,
    ) -> (r: Option<BoilingMixtureMaterial>)
        requires
            is_cell_width(dx_meters),
            is_ratio_range(volume_ratio_min, volume_ratio_max),
        ensures
            r is Some <==> Self::is_stiff(table),
            r matches Some(m) ==> m == Self::of_table(
                table,
                dx_meters,
                dynamic_viscosity,
                volume_ratio_min,
                volume_ratio_max,
            ) && m.grid().wf(),
    {
        let c_v_ref2 = table.vapor_c2();
        if !(c_v_ref2.is_finite() && c_v_ref2.gt(Binary32::zero())) {
            return None;
        }
        let min_c_mix2 = table.measure_min_c2();
        if !(min_c_mix2.is_finite() && min_c_mix2.gt(Binary32::zero())) {
            return None;
        }
        let grid = GridFluid::new(
            table.rho_l_ref_kg_m3,
            dx_meters,
            dynamic_viscosity,
            volume_ratio_min,
            volume_ratio_max,
        );
        Some(
            BoilingMixtureMaterial {
                rho_l_ref_kg_m3: table.rho_l_ref_kg_m3,
                c_l_m_s: table.c_l_m_s,
                rho_v_ref_kg_m3: table.rho_v_ref_kg_m3,
                c_v_ref_m_s: c_v_ref2.sqrt(),
                gamma_l: table.gamma_l,
                min_c_mix2_grid: grid.per_area(min_c_mix2),
                dx_meters: grid.dx_meters,
                dynamic_viscosity: grid.dynamic_viscosity,
                rest_density_grid: grid.rest_density,
                min_density: grid.min_density,
                min_volume: grid.min_volume,
                volume_ratio_min: grid.volume_ratio_min,
                volume_ratio_max: grid.volume_ratio_max,
            },
        )
    }

    /// Vapour and softest mixture have a finite positive stiffness.
    pub open spec fn is_stiff(table: &CavitatingEosTable) -> bool {
        &&& table.vapor_c2().is_finite() && table.vapor_c2().gt(Binary32::zero())
        &&& table.mixture_min_c2().is_finite() && table.mixture_min_c2().gt(Binary32::zero())
    }

    /// The mixture of the liquid and the vapour of a table.
    pub open spec fn of_table(
        table: &CavitatingEosTable,
        dx_meters: Binary32,
        dynamic_viscosity: Binary32,
        volume_ratio_min: Binary32,
        volume_ratio_max: Binary32,
    ) -> BoilingMixtureMaterial {
        let grid = GridFluid::new(
            table.rho_l_ref_kg_m3,
            dx_meters,
            dynamic_viscosity,
            volume_ratio_min,
            volume_ratio_max,
        );
        BoilingMixtureMaterial {
            rho_l_ref_kg_m3: table.rho_l_ref_kg_m3,
            c_l_m_s: table.c_l_m_s,
            rho_v_ref_kg_m3: table.rho_v_ref_kg_m3,
            c_v_ref_m_s: table.vapor_c2().sqrt(),
            gamma_l: table.gamma_l,
            min_c_mix2_grid: grid.per_area(table.mixture_min_c2()),
            dx_meters: grid.dx_meters,
            dynamic_viscosity: grid.dynamic_viscosity,
            rest_density_grid: grid.rest_density,
            min_density: grid.min_density,
            min_volume: grid.min_volume,
            volume_ratio_min: grid.volume_ratio_min,
            volume_ratio_max: grid.volume_ratio_max,
        }
    }

    /// The mixture of the liquid and the vapour of a table.
    pub fn from_table(
        table: &CavitatingEosTable,
        dx_meters: Binary32,
        dynamic_viscosity: Binary32,
        volume_ratio_min: Binary32,
        volume_ratio_max: Binary32,
    ) -> (r: BoilingMixtureMaterial)
        requires
            is_cell_width(dx_meters),
            is_ratio_range(volume_ratio_min, volume_ratio_max),
            Self::is_stiff(table),
        ensures
            r == Self::of_table(
                table,
                dx_meters,
                dynamic_viscosity,
                volume_ratio_min,
                volume_ratio_max,
            ),
            r.grid().wf(),
    {
        match Self::try_from_table(
            table,
            dx_meters,
            dynamic_viscosity,
            volume_ratio_min,
            volume_ratio_max,
        ) {
            Some(m) => m,
            None => unreached(),
        }
    }

    /// The equilibrium density at a vapour mass fraction.
    #[verifier::allow_in_spec]
    pub fn rho_eq_kg_m3(&self, x: Binary32) -> Binary32
        returns
            rho_eq_kg_m3(x, self.rho_l_ref_kg_m3, self.rho_v_ref_kg_m3),
    {
        rho_eq_kg_m3(x, self.rho_l_ref_kg_m3, self.rho_v_ref_kg_m3)
    }

    /// The squared sound speed at a vapour mass fraction.
    #[verifier::allow_in_spec]
    pub fn c_mix2_m2_s2(&self, x: Binary32) -> Binary32
        returns
            c_mix2_m2_s2(
                x,
                self.rho_l_ref_kg_m3,
                self.c_l_m_s.mul(self.c_l_m_s),
                self.rho_v_ref_kg_m3,
                self.c_v_ref_m_s.mul(self.c_v_ref_m_s),
            ),
    {
        c_mix2_m2_s2(
            x,
            self.rho_l_ref_kg_m3,
            self.c_l_m_s.mul(self.c_l_m_s),
            self.rho_v_ref_kg_m3,
            self.c_v_ref_m_s.mul(self.c_v_ref_m_s),
        )
    }

    /// The equilibrium volume ratio at a vapour mass fraction.
    #[verifier::allow_in_spec]
    pub fn j_eq(&self, x: Binary32) -> Binary32
        returns
            self.rho_l_ref_kg_m3.div(self.rho_eq_kg_m3(x)),
    {
        self.rho_l_ref_kg_m3.div(self.rho_eq_kg_m3(x))
    }

    /// Gauge pressure at a density and a vapour mass fraction.
    #[verifier::allow_in_spec]
    pub fn pressure_gauge_pa(&self, density_si: Binary32, x: Binary32) -> Binary32
        returns
            self.c_mix2_m2_s2(x).mul(density_si.sub(self.rho_eq_kg_m3(x))),
    {
        self.c_mix2_m2_s2(x).mul(density_si.sub(self.rho_eq_kg_m3(x)))
    }

    /// The Kirchhoff stress of a particle.
    pub open spec fn stress(&self, p: Particle) -> Mat2 {
        self.grid().viscous_pressure_stress(
            self.pressure_gauge_pa(
                self.grid().per_area(self.grid().density_at(self.grid().stress_ratio(&p))),
                quality_of(p.friction_hardening),
            ),
            &p,
        )
    }
}

/// The mixture carries no pressure at the equilibrium density of its vapour mass
/// fraction.
pub proof fn law_no_pressure_in_equilibrium(m: BoilingMixtureMaterial, x: Binary32)
    requires
        m.rho_eq_kg_m3(x).is_finite(),
        m.c_mix2_m2_s2(x).is_finite(),
    ensures
        m.pressure_gauge_pa(m.rho_eq_kg_m3(x), x).eq(Binary32::zero()),
{
    law_cancellation(m.rho_eq_kg_m3(x));
    law_cancellation(m.c_mix2_m2_s2(x));
}

/// A mixture denser than its equilibrium pushes outward.
pub proof fn law_excess_density_pushes(m: BoilingMixtureMaterial, density_si: Binary32, x: Binary32)
    requires
        m.rho_eq_kg_m3(x).is_finite(),
        m.rho_eq_kg_m3(x).le(density_si),
        density_si.is_finite(),
        m.c_mix2_m2_s2(x).is_finite(),
        m.c_mix2_m2_s2(x).gt(Binary32::zero()),
    ensures
        Binary32::zero().le(m.pressure_gauge_pa(density_si, x)),
{
    law_no_pressure_in_equilibrium(m, x);
    lemma_scaled_difference(
        m.rho_eq_kg_m3(x),
        density_si,
        m.rho_eq_kg_m3(x),
        m.c_mix2_m2_s2(x),
    );
}

/// At the ends of the quality the mixture is the pure phase: its density and its
/// sound speed are the reference values.
pub proof fn law_mixture_ends_are_the_pure_phases(
    rho_l: Binary32,
    c_l2: Binary32,
    rho_v: Binary32,
    c_v2: Binary32,
)
    ensures
        rho_eq_kg_m3(Binary32::zero(), rho_l, rho_v) == rho_l,
        rho_eq_kg_m3(Binary32::one(), rho_l, rho_v) == rho_v,
        mixture_c2(Binary32::zero(), rho_l, c_l2, rho_v, c_v2) == c_l2,
        mixture_c2(Binary32::one(), rho_l, c_l2, rho_v, c_v2) == c_v2,
{
    lemma_single_constants();
}

impl MaterialModel for BoilingMixtureMaterial {
    open spec fn enterable(&self) -> bool {
        self.grid().wf()
    }

    fn constitutive_model(&self) -> (r: ConstitutiveModel)
        ensures
            r == ConstitutiveModel::Fluid,
    {
        ConstitutiveModel::Fluid
    }

    fn stress_volume(&self, particle: &Particle) -> (r: Binary32)
        ensures
            r == particle.volume.max(self.grid().min_volume),
    {
        particle.volume.max(self.grid().min_volume)
    }

    fn rest_acoustic_c2(&self) -> (r: Option<Binary32>)
        ensures
            r == Some(self.min_c_mix2_grid),
    {
        Some(self.min_c_mix2_grid)
    }

    open spec fn initialised(&self, p: Particle) -> Particle {
        seeded(p, self.grid().rest_density)
    }

    fn init_particle(&self, particle: &mut Particle) {
        *particle = seeded(*particle, self.grid().rest_density);
    }

    open spec fn transitioned(&self, p: Particle) -> Particle {
        self.grid().entered(p)
    }

    fn init_particle_from_transition(&self, particle: &mut Particle) {
        *particle = self.grid().enter(*particle);
    }

    fn gpu_unsupported_reason(&self) -> (r: Option<&'static str>)
        ensures
            r == Some(
                "BoilingMixtureMaterial has no GPU stress path: it uploads as a plain Tait fluid, so the GPU would run without its liquid-vapour equation of state",
            ),
    {
        Some(
            "BoilingMixtureMaterial has no GPU stress path: it uploads as a plain Tait fluid, so the GPU would run without its liquid-vapour equation of state",
        )
    }

    fn owns_deformation_volume_state(&self) -> (r: bool)
        ensures
            r,
    {
        true
    }

    fn params(&self) -> (r: MaterialParams)
        ensures
            r == self.grid().plain_params(self.gamma_l),
    {
        self.grid().plain_params(self.gamma_l)
    }
}

impl<N: Numerics> Response<N> for BoilingMixtureMaterial {
    open spec fn steppable(&self) -> bool {
        self.grid().wf()
    }

    fn kirchhoff_stress(&self, particle: &Particle, n: &N) -> (r: Mat2)
        ensures
            r == self.stress(*particle),
    {
        let density_si = self.grid().per_area(
            self.grid().density_at(self.grid().stress_ratio(particle)),
        );
        let x = clamped_quality(particle.friction_hardening);
        self.grid().viscous_pressure_stress(self.pressure_gauge_pa(density_si, x), particle)
    }

    fn timestep_bound(
        &self,
        density: Binary32,
        hardening_scale: Binary32,
        cell_width: Binary32,
        material_cfl: Binary32,
        viscous_cfl: Binary32,
        n: &N,
    ) -> (r: Binary32)
        ensures
            r == self.grid().step_bound(
                self.min_c_mix2_grid,
                density,
                cell_width,
                material_cfl,
                viscous_cfl,
            ),
    {
        self.grid().step_bound(
            self.min_c_mix2_grid,
            density,
            cell_width,
            material_cfl,
            viscous_cfl,
        )
    }

    fn acoustic_c2_at_particle(&self, particle: &Particle, n: &N) -> (r: Option<Binary32>)
        ensures
            r == Some(
                self.grid().per_area(self.c_mix2_m2_s2(quality_of(particle.friction_hardening))),
            ),
    {
        let x = clamped_quality(particle.friction_hardening);
        Some(self.grid().per_area(self.c_mix2_m2_s2(x)))
    }

    open spec fn updated(&self, p: Particle, dt: Binary32, n: &N) -> Particle {
        self.grid().stepped(p, dt, n)
    }

    fn update_particle(&self, particle: &mut Particle, dt: Binary32, n: &N) {
        *particle = self.grid().step(*particle, dt, n);
    }
}

/// A quotient of a number up to one by an ordinary product.
proof fn lemma_share(x: Binary32, d: Binary32, exact: real, k: real)
    requires
        x.is_finite(),
        0real <= x.amount() <= 1real,
        d.is_finite(),
        within(d.amount(), exact, k),
        0real <= k <= 8real,
        1real <= 1152921504606846976real * exact,
        exact <= 1152921504606846976real,
    ensures
        x.div(d).is_finite(),
        8388608real * size(x.div(d).amount() - x.amount() / exact) <= (k + 2real) * (x.amount()
            / exact) + 8388608real * tiny(),
        0real <= x.amount() / exact <= 1152921504606846976real,
{
    lemma_dust();
    let a = x.amount();
    let b = d.amount();
    let e = a / exact;
    assert(e * exact == a && 0real <= e <= 1152921504606846976real) by (nonlinear_arith)
        requires
            e == a / exact,
            0real <= a <= 1real,
            1real <= 1152921504606846976real * exact,
    ;
    assert(8388608real * b >= 8388600real * exact) by (nonlinear_arith)
        requires
            8388608real * size(b - exact) <= k * exact,
            k <= 8real,
            exact > 0real,
    ;
    let q = a / b;
    assert(q * b == a) by (nonlinear_arith)
        requires
            q == a / b,
            b > 0real,
    ;
    assert(8388608real * size((q - e) * b) <= k * (e * exact)) by (nonlinear_arith)
        requires
            q * b == a,
            e * exact == a,
            8388608real * size(b - exact) <= k * exact,
            e >= 0real,
    ;
    let t = k * e;
    assert(k * (e * exact) == t * exact && 0real <= t <= 8real * e) by (nonlinear_arith)
        requires
            t == k * e,
            0real <= k <= 8real,
            e >= 0real,
    ;
    assert(8388608real * size(q - e) <= t + t / 1024real) by (nonlinear_arith)
        requires
            8388608real * size((q - e) * b) <= t * exact,
            8388608real * b >= 8388600real * exact,
            exact > 0real,
            t >= 0real,
    ;
    law_quotient_is_near(x, d);
    assert((k + 2real) * e == t + 2real * e) by (nonlinear_arith)
        requires
            t == k * e,
    ;
}

/// The specific volume and the compliance of a mixture, and what their ratio is at least.
proof fn lemma_soft_end(y: real, x: real, rl: real, cl: real, rv: real, cv: real, m: real)
    requires
        0real < y,
        0real < x,
        0real < rl,
        0real < cl,
        0real < rv,
        0real < cv,
        0real < m,
        m <= cl,
        m <= cv,
    ensures
        ({
            let w = y / rl + x / rv;
            let k = y / (rl * cl) + x / (rv * cv);
            &&& w > 0real
            &&& k > 0real
            &&& m * k <= w
            &&& w / k >= m
            &&& (1real / w) * k > 0real
            &&& 1real / ((1real / w) * k) == w / k
            &&& w <= (if cl < cv {
                cv
            } else {
                cl
            }) * k
        }),
{
    let a = y / (rl * cl);
    let b = x / (rv * cv);
    assert(rl * cl > 0real && rv * cv > 0real) by (nonlinear_arith)
        requires
            0real < rl,
            0real < cl,
            0real < rv,
            0real < cv,
    ;
    assert(a > 0real && a * cl == y / rl) by (nonlinear_arith)
        requires
            a == y / (rl * cl),
            rl > 0real,
            cl > 0real,
            y > 0real,
    ;
    assert(b > 0real && b * cv == x / rv) by (nonlinear_arith)
        requires
            b == x / (rv * cv),
            rv > 0real,
            cv > 0real,
            x > 0real,
    ;
    let w = y / rl + x / rv;
    let k = a + b;
    let h = if cl < cv {
        cv
    } else {
        cl
    };
    assert(m * k <= w && w <= h * k && w > 0real) by (nonlinear_arith)
        requires
            w == a * cl + b * cv,
            k == a + b,
            0real < a,
            0real < b,
            0real < m,
            m <= cl,
            m <= cv,
            cl <= h,
            cv <= h,
    ;
    let v = 1real / w;
    assert(v > 0real && v * w == 1real) by (nonlinear_arith)
        requires
            v == 1real / w,
            w > 0real,
    ;
    assert(v * k > 0real) by (nonlinear_arith)
        requires
            v > 0real,
            k > 0real,
    ;
    let g = w / k;
    assert(g * k == w && g >= m) by (nonlinear_arith)
        requires
            g == w / k,
            k > 0real,
            m * k <= w,
    ;
    assert(1real / (v * k) == g) by (nonlinear_arith)
        requires
            v * k > 0real,
            v * w == 1real,
            g * k == w,
    ;
}

/// The sum of the shares of both phases.
pub proof fn lemma_shares(y: Binary32, x: Binary32, d: Binary32, dx: real, e: Binary32, ex: real)
    requires
        y.is_finite(),
        x.is_finite(),
        0real <= y.amount() <= 1real,
        0real <= x.amount() <= 1real,
        y.amount() >= 1real / 4real || x.amount() >= 1real / 4real,
        d.is_finite(),
        e.is_finite(),
        within(d.amount(), dx, 2real),
        within(e.amount(), ex, 2real),
        1real <= 1152921504606846976real * dx,
        dx <= 1152921504606846976real,
        1real <= 1152921504606846976real * ex,
        ex <= 1152921504606846976real,
    ensures
        y.div(d).add(x.div(e)).is_finite(),
        within(y.div(d).add(x.div(e)).amount(), y.amount() / dx + x.amount() / ex, 6real),
        4611686018427387904real * (y.amount() / dx + x.amount() / ex) >= 1real,
        y.amount() / dx + x.amount() / ex <= 2305843009213693952real,
{
    lemma_dust();
    lemma_share(y, d, dx, 2real);
    lemma_share(x, e, ex, 2real);
    let a = y.amount() / dx;
    let b = x.amount() / ex;
    assert(y.amount() >= 1real / 4real ==> 4611686018427387904real * a >= 1real)
        by (nonlinear_arith)
        requires
            a == y.amount() / dx,
            0real < dx <= 1152921504606846976real,
    ;
    assert(x.amount() >= 1real / 4real ==> 4611686018427387904real * b >= 1real)
        by (nonlinear_arith)
        requires
            b == x.amount() / ex,
            0real < ex <= 1152921504606846976real,
    ;
    law_sum_is_near(y.div(d), x.div(e));
    lemma_within_sum(
        y.div(d).amount(),
        a,
        x.div(e).amount(),
        b,
        4real,
        y.div(d).add(x.div(e)).amount(),
        8388608real * tiny(),
    );
}

/// The squared sound speed from specific volume and compliance.
proof fn lemma_speed_is_near(
    w: Binary32,
    wx: real,
    k: Binary32,
    kx: real,
    cl: Binary32,
    cv: Binary32,
    m: real,
)
    requires
        is_ordinary(cl),
        is_ordinary(cv),
        w.is_finite(),
        k.is_finite(),
        within(w.amount(), wx, 6real),
        within(k.amount(), kx, 6real),
        4611686018427387904real * wx >= 1real,
        wx <= 2305843009213693952real,
        kx > 0real,
        1real <= 1073741824real * m,
        wx / kx >= m,
        wx <= (if cl.amount() < cv.amount() {
            cv.amount()
        } else {
            cl.amount()
        }) * kx,
        1real / ((1real / wx) * kx) == wx / kx,
        m <= cl.amount(),
    ensures
        Binary32::one().div(Binary32::one().div(w).mul(k)).is_finite(),
        8388608real * Binary32::one().div(Binary32::one().div(w).mul(k)).amount() >= 8388576real
            * m,
{
    lemma_single_constants();
    lemma_constant_amounts();
    lemma_dust();
    let one = Binary32::one();
    let v = 1real / wx;
    let top = if cl.amount() < cv.amount() {
        cv.amount()
    } else {
        cl.amount()
    };
    assert(v * wx == 1real && v > 0real && v <= 4611686018427387904real && v >= dust())
        by (nonlinear_arith)
        requires
            v == 1real / wx,
            4611686018427387904real * wx >= 1real,
            wx <= 2305843009213693952real,
            dust() == 1real / 1329227995784915872903807060280344576real,
    ;
    assert(8388608real * w.amount() >= 8388600real * wx);
    let i = 1real / w.amount();
    assert(size(i) <= 2real * v) by (nonlinear_arith)
        requires
            i == 1real / w.amount(),
            8388608real * w.amount() >= 8388600real * wx,
            v * wx == 1real,
            wx > 0real,
            v > 0real,
    ;
    law_quotient_is_near(one, w);
    let rho = one.div(w);
    lemma_within_quotient(1real, 1real, 0real, w.amount(), wx, 6real, rho.amount());
    // density times compliance
    let d = v * kx;
    assert(d * top >= 1real && d > 0real) by (nonlinear_arith)
        requires
            d == v * kx,
            v * wx == 1real,
            wx <= top * kx,
            v > 0real,
            kx > 0real,
    ;
    assert(d * m <= 1real) by (nonlinear_arith)
        requires
            d == v * kx,
            v * wx == 1real,
            wx / kx >= m,
            v > 0real,
            kx > 0real,
    ;
    assert(d >= 1real / 1073741824real) by (nonlinear_arith)
        requires
            d * top >= 1real,
            0real < top <= 1073741824real,
            d > 0real,
    ;
    assert(d <= 1073741824real) by (nonlinear_arith)
        requires
            d * m <= 1real,
            1real <= 1073741824real * m,
            d > 0real,
    ;
    assert(size(rho.amount() * k.amount()) <= 2real * d) by (nonlinear_arith)
        requires
            d == v * kx,
            8388608real * size(rho.amount() - v) <= 8real * v,
            8388608real * size(k.amount() - kx) <= 6real * kx,
            v > 0real,
            kx > 0real,
    ;
    law_product_is_near(rho, k);
    let p = rho.mul(k);
    lemma_within_product(rho.amount(), v, 8real, k.amount(), kx, 6real, p.amount());
    let c = 1real / d;
    assert(c * d == 1real && c >= m && c <= 1073741824real && c >= dust()) by (nonlinear_arith)
        requires
            c == 1real / d,
            d * m <= 1real,
            1073741824real * d >= 1real,
            0real < d <= 1073741824real,
            dust() == 1real / 1329227995784915872903807060280344576real,
            m > 0real,
    ;
    assert(size(1real / p.amount()) <= 2real * c) by (nonlinear_arith)
        requires
            8388608real * size(p.amount() - d) <= 16real * d,
            c * d == 1real,
            d > 0real,
            c > 0real,
    ;
    law_quotient_is_near(one, p);
    lemma_within_quotient(1real, 1real, 0real, p.amount(), d, 16real, one.div(p).amount());
    assert(8388608real * size(one.div(p).amount() - c) <= 18real * c);
}

/// The squared sound speed of a mixture is at least that of the softer phase, up to
/// rounding.
proof fn lemma_mixture_is_stiff(
    x: Binary32,
    rl: Binary32,
    cl: Binary32,
    rv: Binary32,
    cv: Binary32,
    m: real,
)
    requires
        is_ordinary(rl),
        is_ordinary(cl),
        is_ordinary(rv),
        is_ordinary(cv),
        !x.is_nan(),
        1real <= 1073741824real * m,
        m <= cl.amount(),
        m <= cv.amount(),
    ensures
        mixture_c2(x, rl, cl, rv, cv).is_finite(),
        8388608real * mixture_c2(x, rl, cl, rv, cv).amount() >= 8388576real * m,
{
    lemma_single_constants();
    lemma_constant_amounts();
    lemma_dust();
    let zero = Binary32::zero();
    let one = Binary32::one();
    let q = quality_of(x);
    law_clamp_is_bounded(x, zero, one);
    law_order_of_amounts(zero, q);
    law_order_of_amounts(q, one);
    law_order_of_amounts(q, zero);
    if !q.eq(zero) && !q.eq(one) {
        law_difference_is_near(one, q);
        let y = one.sub(q);
        law_finite_difference_is_a_number(one, q);
        law_non_negative_steps(one, q);
        law_order_of_amounts(y, one);
        let yr = y.amount();
        let xr = q.amount();
        assert(quality_of(q) == q);
        // specific volume
        lemma_shares(y, q, rl, rl.amount(), rv, rv.amount());
        let w = y.div(rl).add(q.div(rv));
        let wx = yr / rl.amount() + xr / rv.amount();
        // compliance
        lemma_ordinary_product(rl, cl);
        lemma_ordinary_product(rv, cv);
        let pl = rl.amount() * cl.amount();
        let pv = rv.amount() * cv.amount();
        lemma_shares(y, q, rl.mul(cl), pl, rv.mul(cv), pv);
        let k = y.div(rl.mul(cl)).add(q.div(rv.mul(cv)));
        let kx = yr / pl + xr / pv;
        lemma_soft_end(yr, xr, rl.amount(), cl.amount(), rv.amount(), cv.amount(), m);
        lemma_speed_is_near(w, wx, k, kx, cl, cv, m);
    }
}

/// The measured minimum bounds the squared sound speed at every vapour mass fraction, up to
/// a few parts in `2^23`: between the pure phases the squared sound speed is a ratio of two
/// straight lines, so the softer phase is the softest mixture.
pub proof fn law_minimum_bounds_every_fraction(table: CavitatingEosTable, x: Binary32)
    requires
        is_ordinary(table.rho_l_ref_kg_m3),
        is_ordinary(table.c_l_m_s.mul(table.c_l_m_s)),
        is_ordinary(table.rho_v_ref_kg_m3),
        is_ordinary(table.vapor_c2()),
        !x.is_nan(),
    ensures
        ({
            let c2 = c_mix2_m2_s2(
                x,
                table.rho_l_ref_kg_m3,
                table.c_l_m_s.mul(table.c_l_m_s),
                table.rho_v_ref_kg_m3,
                table.vapor_c2(),
            );
            &&& c2.is_finite()
            &&& 8388608real * c2.amount() >= 8388576real * table.mixture_min_c2().amount()
        }),
{
    lemma_single_constants();
    lemma_constant_amounts();
    let rl = table.rho_l_ref_kg_m3;
    let cl = table.c_l_m_s.mul(table.c_l_m_s);
    let rv = table.rho_v_ref_kg_m3;
    let cv = table.vapor_c2();
    let m = if cl.amount() < cv.amount() {
        cl.amount()
    } else {
        cv.amount()
    };
    lemma_mixture_is_stiff(x, rl, cl, rv, cv, m);
    // the ends of the sweep are the pure phases
    let last = SWEEP_SAMPLES;
    law_small_integers_are_exact(0);
    law_small_integers_are_exact(last);
    lemma_amount(Binary32::from_integer(0));
    lemma_amount(Binary32::from_integer(last));
    lemma_tiny();
    let end = Binary32::from_integer(last);
    law_order_of_amounts(Binary32::zero(), end);
    law_order_of_amounts(Binary32::from_integer(0), Binary32::zero());
    lemma_pow2_pos(149);
    law_zero_quotient(Binary32::from_integer(0), end);
    law_self_quotient_is_one(end);
    let least = table.mixture_min_c2();
    law_minimum_bounds_every_sample(table, (SWEEP_SAMPLES + 1) as nat, 0);
    law_minimum_bounds_every_sample(table, (SWEEP_SAMPLES + 1) as nat, last as nat);
    law_order_of_all_amounts(least, cl);
    law_order_of_all_amounts(least, cv);
}

} // verus!
