use vstd::prelude::*;

use crate::binary::around::Estimate;
use crate::binary::around::around;
use crate::binary::around::law_quotient_multiplies_back;
use crate::binary::around::lemma_finite_parts;
use crate::binary::around::lemma_of;
use crate::binary::around::lemma_quotient_of;
use crate::binary::around::lemma_times;
use crate::binary::around::weight;
use crate::binary::error::law_order_of_amounts;
use crate::binary::error::lemma_constant_amounts;
use crate::binary::error::off;
use crate::binary::error::size;
use crate::binary::relative::dust;
use crate::binary::roots::law_root_is_near;
use crate::binary::single::Binary32;
use crate::binary::single::lemma_single_constants;
use crate::binary::single::two;
use crate::bingham::BinghamFluidMaterial;
use crate::cavitating_fluid::GridFluid;
use crate::corotated::CorotatedMaterial;
use crate::elastic::NeoHookeanMaterial;
use crate::estimates::lemma_product;
use crate::fluid::NewtonianFluidMaterial;
use crate::fluid::tait_c2;
use crate::gas::GasMaterial;
use crate::granular_fluid::GranularFluidMaterial;
use crate::mechanics::EPSILON;
use crate::mechanics::MICRO;
use crate::mechanics::MIN_J;
use crate::mechanics::acoustic_bound;
use crate::mechanics::diffusion_dt;
use crate::mechanics::elastic_wave_c2;
use crate::mechanics::elastic_wave_dt;
use crate::mechanics::viscous_bound;
use crate::mechanics_flow::law_elastic_wave_speed;
use crate::mechanics_flow::law_tait_sound_speed;
use crate::nacc::NaccMaterial;
use crate::numerics::Numerics;

verus! {

/// In `t` a wave of squared speed `c2` crosses `cfl` cells of width `dx`.
pub open spec fn is_crossing(t: Binary32, c2: Binary32, dx: Binary32, cfl: Binary32) -> bool {
    exists|s: Binary32| #[trigger] crosses_at(t, s, c2, dx, cfl)
}

/// The same at the speed `s`.
pub open spec fn crosses_at(
    t: Binary32,
    s: Binary32,
    c2: Binary32,
    dx: Binary32,
    cfl: Binary32,
) -> bool {
    &&& s.amount() > 0real
    &&& off(s.amount() * s.amount(), c2.amount()) <= 2real * c2.amount()
    &&& off(t.amount() * s.amount(), cfl.amount() * dx.amount()) <= 4real * (weight(cfl) * weight(
        dx,
    )) + dust() * s.amount()
}

/// A wave speed that bounds a step, without overflow.
pub open spec fn bounds_step(c2: Binary32, dx: Binary32, cfl: Binary32) -> bool {
    &&& c2.is_finite()
    &&& c2.gt(Binary32::from_bits(EPSILON))
    &&& cfl.mul(dx).is_finite()
    &&& cfl.mul(dx).div(c2.sqrt()).is_finite()
}

/// The acoustic bound is the step in which sound crosses its cells, or the bound before if
/// that is smaller.
pub proof fn law_acoustic_bound(bound: Binary32, c2: Binary32, dx: Binary32, cfl: Binary32) -> (t:
    Binary32)
    requires
        bounds_step(c2, dx, cfl),
    ensures
        is_crossing(t, c2, dx, cfl),
        t.is_finite(),
        acoustic_bound(bound, c2, dx, cfl) == bound.min(t),
        acoustic_bound(Binary32::infinity(), c2, dx, cfl) == t,
{
    let s = c2.sqrt();
    let x = cfl.mul(dx);
    let t = x.div(s);
    lemma_single_constants();
    law_root_is_near(c2);
    lemma_product(cfl, dx);
    let e = Estimate::of(cfl).times(Estimate::of(dx));
    lemma_quotient_of(e, s);
    assert((e.parts + 2real) * e.scale == 4real * e.scale);
    assert(crosses_at(t, s, c2, dx, cfl));
    t
}

/// In `t` momentum diffuses over the share `cfl` of a cell of width `dx`.
pub open spec fn is_diffusion(
    t: Binary32,
    viscosity: Binary32,
    density: Binary32,
    dx: Binary32,
    cfl: Binary32,
) -> bool {
    exists|k: Binary32| #[trigger] diffuses_at(t, k, viscosity, density, dx, cfl)
}

/// The same at the kinematic viscosity `k`.
pub open spec fn diffuses_at(
    t: Binary32,
    k: Binary32,
    viscosity: Binary32,
    density: Binary32,
    dx: Binary32,
    cfl: Binary32,
) -> bool {
    &&& k.amount() > 0real
    &&& off(k.amount() * density.amount(), viscosity.amount()) <= viscosity.amount() + dust()
        * density.amount()
    &&& off(t.amount() * k.amount(), (cfl.amount() * dx.amount()) * dx.amount()) <= 6real * ((weight(
        cfl,
    ) * weight(dx)) * weight(dx)) + dust() * k.amount()
}

/// A viscosity that bounds a step, without overflow.
pub open spec fn diffuses(
    viscosity: Binary32,
    density: Binary32,
    dx: Binary32,
    cfl: Binary32,
) -> bool {
    &&& viscosity.is_finite() && viscosity.gt(Binary32::zero())
    &&& density.is_finite() && density.gt(Binary32::zero())
    &&& viscosity.div(density).is_finite()
    &&& viscosity.div(density).gt(Binary32::from_bits(EPSILON))
    &&& cfl.mul(dx).mul(dx).is_finite()
    &&& cfl.mul(dx).mul(dx).div(viscosity.div(density)).is_finite()
}

/// The viscous bound is the step in which momentum diffuses over its share of a cell.
pub proof fn law_viscous_bound(
    bound: Binary32,
    viscosity: Binary32,
    density: Binary32,
    dx: Binary32,
    cfl: Binary32,
) -> (t: Binary32)
    requires
        diffuses(viscosity, density, dx, cfl),
    ensures
        is_diffusion(t, viscosity, density, dx, cfl),
        t.is_finite(),
        diffusion_dt(viscosity, density, dx, cfl) == t,
        viscous_bound(bound, viscosity, density, dx, cfl) == bound.min(t),
{
    let k = viscosity.div(density);
    let x = cfl.mul(dx);
    let y = x.mul(dx);
    let t = y.div(k);
    lemma_single_constants();
    lemma_constant_amounts();
    law_order_of_amounts(Binary32::zero(), density);
    law_order_of_amounts(Binary32::zero(), viscosity);
    law_order_of_amounts(Binary32::zero(), k);
    law_quotient_multiplies_back(viscosity, density);
    lemma_finite_parts(x, dx);
    lemma_product(cfl, dx);
    let e = Estimate::of(cfl).times(Estimate::of(dx));
    let f = e.times(Estimate::of(dx));
    lemma_times(e, Estimate::of(dx));
    lemma_quotient_of(f, k);
    assert((f.parts + 2real) * f.scale == 6real * f.scale);
    assert(k.amount() > 0real);
    assert(diffuses_at(t, k, viscosity, density, dx, cfl));
    t
}

/// `r` is the smaller of the step in which sound crosses its cells and, with viscosity, the one
/// in which momentum diffuses.
pub open spec fn is_step_bound(
    r: Binary32,
    c2: Binary32,
    viscosity: Binary32,
    density: Binary32,
    dx: Binary32,
    cfl: Binary32,
    viscous_cfl: Binary32,
) -> bool {
    if viscosity.gt(Binary32::zero()) {
        exists|a: Binary32, b: Binary32| #[trigger]
            is_crossing(a, c2, dx, cfl) && #[trigger] is_diffusion(
                b,
                viscosity,
                density,
                dx,
                viscous_cfl,
            ) && r == a.min(b)
    } else {
        is_crossing(r, c2, dx, cfl)
    }
}

/// A step bound from sound and viscosity.
proof fn lemma_step_bound(
    r: Binary32,
    c2: Binary32,
    viscosity: Binary32,
    density: Binary32,
    dx: Binary32,
    cfl: Binary32,
    viscous_cfl: Binary32,
)
    requires
        bounds_step(c2, dx, cfl),
        viscosity.gt(Binary32::zero()) ==> diffuses(viscosity, density, dx, viscous_cfl),
        r == viscous_bound(
            acoustic_bound(Binary32::infinity(), c2, dx, cfl),
            viscosity,
            density,
            dx,
            viscous_cfl,
        ) || r == acoustic_bound(Binary32::infinity(), c2, dx, cfl).min(
            diffusion_dt(viscosity, density, dx, viscous_cfl),
        ),
    ensures
        is_step_bound(r, c2, viscosity, density, dx, cfl, viscous_cfl),
{
    let a = law_acoustic_bound(Binary32::infinity(), c2, dx, cfl);
    lemma_single_constants();
    if viscosity.gt(Binary32::zero()) {
        let b = law_viscous_bound(a, viscosity, density, dx, viscous_cfl);
        assert(is_crossing(a, c2, dx, cfl) && is_diffusion(
            b,
            viscosity,
            density,
            dx,
            viscous_cfl,
        ));
    }
}

/// The step bound of a gas, at the sound speed `c^2 = gamma R T` of the reference temperature.
pub proof fn law_gas_step_bound(
    m: GasMaterial,
    density: Binary32,
    dx: Binary32,
    cfl: Binary32,
    viscous_cfl: Binary32,
) -> (c2: Binary32)
    requires
        m.min_density.le(density),
        bounds_step(m.reference_c2(), dx, cfl),
        m.dynamic_viscosity.gt(Binary32::zero()) ==> diffuses(
            m.dynamic_viscosity,
            density,
            dx,
            viscous_cfl,
        ),
    ensures
        around(
            c2,
            (m.adiabatic_index.amount() * m.specific_gas_constant.amount())
                * m.reference_temperature_k.amount(),
            (weight(m.adiabatic_index) * weight(m.specific_gas_constant)) * weight(
                m.reference_temperature_k,
            ),
            4real,
        ),
        is_step_bound(
            m.step_bound(density, dx, cfl, viscous_cfl),
            c2,
            m.dynamic_viscosity,
            density,
            dx,
            cfl,
            viscous_cfl,
        ),
{
    let c2 = m.reference_c2();
    let (a, b, t) = (m.adiabatic_index, m.specific_gas_constant, m.reference_temperature_k);
    lemma_single_constants();
    lemma_finite_parts(a.mul(b), t);
    lemma_product(a, b);
    lemma_of(t);
    lemma_times(Estimate::of(a).times(Estimate::of(b)), Estimate::of(t));
    assert(density.max(m.min_density) == density);
    lemma_step_bound(
        m.step_bound(density, dx, cfl, viscous_cfl),
        c2,
        m.dynamic_viscosity,
        density,
        dx,
        cfl,
        viscous_cfl,
    );
    c2
}

/// The squared speed of elastic waves: `c^2 rho = (lambda + 2 mu) h`.
pub open spec fn is_elastic_speed(
    c2: Binary32,
    lambda: Binary32,
    mu: Binary32,
    hardening_scale: Binary32,
    density: Binary32,
) -> bool {
    off(
        c2.amount() * density.amount(),
        (lambda.amount() + 2real * mu.amount()) * hardening_scale.amount(),
    ) <= 8real * ((weight(lambda) + 2real * weight(mu)) * weight(hardening_scale)) + dust()
        * density.amount()
}

/// An elastic step that does not overflow, at a density above its floor.
pub open spec fn is_elastic_step(
    lambda: Binary32,
    mu: Binary32,
    h: Binary32,
    density: Binary32,
    floor: Binary32,
    viscosity: Binary32,
    dx: Binary32,
    cfl: Binary32,
    viscous_cfl: Binary32,
) -> bool {
    &&& density.is_finite()
    &&& Binary32::from_bits(MICRO).le(density)
    &&& floor.le(density)
    &&& lambda.add(two().mul(mu)).mul(h).is_finite()
    &&& bounds_step(elastic_wave_c2(lambda, mu, h, density, floor), dx, cfl)
    &&& viscosity.gt(Binary32::zero()) ==> diffuses(viscosity, density, dx, viscous_cfl)
}

/// The step bound of an elastic solid with a dashpot.
proof fn lemma_elastic_step(
    r: Binary32,
    lambda: Binary32,
    mu: Binary32,
    h: Binary32,
    density: Binary32,
    floor: Binary32,
    viscosity: Binary32,
    dx: Binary32,
    cfl: Binary32,
    viscous_cfl: Binary32,
) -> (c2: Binary32)
    requires
        is_elastic_step(lambda, mu, h, density, floor, viscosity, dx, cfl, viscous_cfl),
        r == elastic_wave_dt(lambda, mu, h, density, floor, dx, cfl).min(
            diffusion_dt(viscosity, density.max(Binary32::from_bits(MICRO)), dx, viscous_cfl),
        ) || r == viscous_bound(
            elastic_wave_dt(lambda, mu, h, density, floor, dx, cfl),
            viscosity,
            density.max(Binary32::from_bits(MICRO)),
            dx,
            viscous_cfl,
        ),
    ensures
        is_elastic_speed(c2, lambda, mu, h, density),
        is_step_bound(r, c2, viscosity, density, dx, cfl, viscous_cfl),
{
    let c2 = elastic_wave_c2(lambda, mu, h, density, floor);
    lemma_single_constants();
    lemma_constant_amounts();
    law_order_of_amounts(Binary32::zero(), density);
    law_elastic_wave_speed(lambda, mu, h, density, floor);
    assert(density.max(Binary32::from_bits(MICRO)) == density);
    lemma_step_bound(r, c2, viscosity, density, dx, cfl, viscous_cfl);
    c2
}

/// The step bound of a corotated solid.
pub proof fn law_corotated_step_bound(
    m: CorotatedMaterial,
    density: Binary32,
    h: Binary32,
    dx: Binary32,
    cfl: Binary32,
    viscous_cfl: Binary32,
) -> (c2: Binary32)
    requires
        is_elastic_step(
            m.lambda,
            m.mu,
            h,
            density,
            Binary32::from_bits(MIN_J),
            m.elastic_viscosity,
            dx,
            cfl,
            viscous_cfl,
        ),
    ensures
        is_elastic_speed(c2, m.lambda, m.mu, h, density),
        is_step_bound(
            m.step_bound(density, h, dx, cfl, viscous_cfl),
            c2,
            m.elastic_viscosity,
            density,
            dx,
            cfl,
            viscous_cfl,
        ),
{
    lemma_elastic_step(
        m.step_bound(density, h, dx, cfl, viscous_cfl),
        m.lambda,
        m.mu,
        h,
        density,
        Binary32::from_bits(MIN_J),
        m.elastic_viscosity,
        dx,
        cfl,
        viscous_cfl,
    )
}

/// The step bound of a Neo-Hookean solid, which does not harden.
pub proof fn law_neo_hookean_step_bound(
    m: NeoHookeanMaterial,
    density: Binary32,
    dx: Binary32,
    cfl: Binary32,
    viscous_cfl: Binary32,
) -> (c2: Binary32)
    requires
        is_elastic_step(
            m.lambda,
            m.mu,
            Binary32::one(),
            density,
            m.min_density,
            m.viscosity,
            dx,
            cfl,
            viscous_cfl,
        ),
    ensures
        is_elastic_speed(c2, m.lambda, m.mu, Binary32::one(), density),
        is_step_bound(
            m.step_bound(density, dx, cfl, viscous_cfl),
            c2,
            m.viscosity,
            density,
            dx,
            cfl,
            viscous_cfl,
        ),
{
    lemma_elastic_step(
        m.step_bound(density, dx, cfl, viscous_cfl),
        m.lambda,
        m.mu,
        Binary32::one(),
        density,
        m.min_density,
        m.viscosity,
        dx,
        cfl,
        viscous_cfl,
    )
}

/// The step bound of a soil, whose first Lame parameter is `kappa - mu`.
pub proof fn law_soil_step_bound(
    m: NaccMaterial,
    density: Binary32,
    h: Binary32,
    dx: Binary32,
    cfl: Binary32,
    viscous_cfl: Binary32,
) -> (c2: Binary32)
    requires
        is_elastic_step(
            m.kappa.sub(m.mu),
            m.mu,
            h,
            density,
            m.min_density,
            m.elastic_viscosity,
            dx,
            cfl,
            viscous_cfl,
        ),
    ensures
        is_elastic_speed(c2, m.kappa.sub(m.mu), m.mu, h, density),
        is_step_bound(
            m.step_bound(density, h, dx, cfl, viscous_cfl),
            c2,
            m.elastic_viscosity,
            density,
            dx,
            cfl,
            viscous_cfl,
        ),
{
    lemma_elastic_step(
        m.step_bound(density, h, dx, cfl, viscous_cfl),
        m.kappa.sub(m.mu),
        m.mu,
        h,
        density,
        m.min_density,
        m.elastic_viscosity,
        dx,
        cfl,
        viscous_cfl,
    )
}

/// The step bound of a granular fluid, with the sum of its viscosities.
pub proof fn law_granular_step_bound(
    m: GranularFluidMaterial,
    density: Binary32,
    h: Binary32,
    dx: Binary32,
    cfl: Binary32,
    viscous_cfl: Binary32,
) -> (c2: Binary32)
    requires
        is_elastic_step(
            m.lambda,
            m.mu,
            h,
            density,
            Binary32::from_bits(MIN_J),
            m.dynamic_viscosity.add(m.bulk_viscosity),
            dx,
            cfl,
            viscous_cfl,
        ),
    ensures
        is_elastic_speed(c2, m.lambda, m.mu, h, density),
        is_step_bound(
            m.step_bound(density, h, dx, cfl, viscous_cfl),
            c2,
            m.dynamic_viscosity.add(m.bulk_viscosity),
            density,
            dx,
            cfl,
            viscous_cfl,
        ),
{
    lemma_elastic_step(
        m.step_bound(density, h, dx, cfl, viscous_cfl),
        m.lambda,
        m.mu,
        h,
        density,
        Binary32::from_bits(MIN_J),
        m.dynamic_viscosity.add(m.bulk_viscosity),
        dx,
        cfl,
        viscous_cfl,
    )
}

/// The squared sound speed of a Tait fluid: `c^2 rho0 = B gamma x`, `x` the density ratio to the
/// power `gamma - 1`.
pub open spec fn is_tait_speed(
    c2: Binary32,
    eos_stiffness: Binary32,
    eos_power: Binary32,
    powered: Binary32,
    rest_density: Binary32,
) -> bool {
    off(
        c2.amount() * rest_density.amount(),
        (eos_stiffness.amount() * eos_power.amount()) * powered.amount(),
    ) <= 6real * ((weight(eos_stiffness) * weight(eos_power)) * weight(powered)) + dust()
        * rest_density.amount()
}

/// A step of a Tait fluid that does not overflow, at densities above their floor.
pub open spec fn is_tait_step<N: Numerics>(
    eos_stiffness: Binary32,
    eos_power: Binary32,
    rest_density: Binary32,
    density: Binary32,
    floor: Binary32,
    viscosity: Binary32,
    dx: Binary32,
    cfl: Binary32,
    viscous_cfl: Binary32,
    n: &N,
) -> bool {
    let powered = n.pow_of(density.div(rest_density), eos_power.sub(Binary32::one()));
    &&& rest_density.is_finite() && rest_density.gt(Binary32::zero())
    &&& density.is_finite()
    &&& floor.le(density) && floor.le(rest_density)
    &&& density.div(rest_density).is_finite()
    &&& Binary32::from_bits(MICRO).le(density.div(rest_density))
    &&& eos_stiffness.mul(eos_power).mul(powered).is_finite()
    &&& bounds_step(tait_c2(eos_stiffness, eos_power, powered, rest_density), dx, cfl)
    &&& viscosity.gt(Binary32::zero()) ==> diffuses(viscosity, density, dx, viscous_cfl)
}

/// The step bound of a Newtonian fluid: sound at the density ratio, diffusion with the shear
/// viscosity and the bulk viscosity that is not negative.
pub proof fn law_newtonian_step_bound<N: Numerics>(
    m: NewtonianFluidMaterial,
    density: Binary32,
    dx: Binary32,
    cfl: Binary32,
    viscous_cfl: Binary32,
    n: &N,
) -> (r: (Binary32, Binary32))
    requires
        is_tait_step(
            m.eos_stiffness,
            m.eos_power,
            m.rest_density,
            density,
            m.min_density,
            m.dynamic_viscosity.add(m.bulk_viscosity.max(Binary32::zero())),
            dx,
            cfl,
            viscous_cfl,
            n,
        ),
    ensures
        ({
            let (c2, ratio) = r;
            let powered = n.pow_of(ratio, m.eos_power.sub(Binary32::one()));
            &&& off(ratio.amount() * m.rest_density.amount(), density.amount()) <= size(
                density.amount(),
            ) + dust() * m.rest_density.amount()
            &&& is_tait_speed(c2, m.eos_stiffness, m.eos_power, powered, m.rest_density)
            &&& is_step_bound(
                m.step_bound(density, dx, cfl, viscous_cfl, n),
                c2,
                m.dynamic_viscosity.add(m.bulk_viscosity.max(Binary32::zero())),
                density,
                dx,
                cfl,
                viscous_cfl,
            )
        }),
{
    let ratio = density.div(m.rest_density);
    let powered = n.pow_of(ratio, m.eos_power.sub(Binary32::one()));
    let c2 = tait_c2(m.eos_stiffness, m.eos_power, powered, m.rest_density);
    lemma_single_constants();
    lemma_constant_amounts();
    law_order_of_amounts(Binary32::zero(), m.rest_density);
    law_quotient_multiplies_back(density, m.rest_density);
    law_tait_sound_speed(m.eos_stiffness, m.eos_power, powered, m.rest_density);
    assert(density.max(m.min_density) == density);
    assert(m.rest_density.max(m.min_density) == m.rest_density);
    assert(ratio.max(Binary32::from_bits(MICRO)) == ratio);
    lemma_step_bound(
        m.step_bound(density, dx, cfl, viscous_cfl, n),
        c2,
        m.dynamic_viscosity.add(m.bulk_viscosity.max(Binary32::zero())),
        density,
        dx,
        cfl,
        viscous_cfl,
    );
    (c2, ratio)
}

/// The step bound of a Bingham fluid: sound at the density ratio, diffusion with the dynamic
/// viscosity.
pub proof fn law_bingham_step_bound<N: Numerics>(
    m: BinghamFluidMaterial,
    density: Binary32,
    dx: Binary32,
    cfl: Binary32,
    viscous_cfl: Binary32,
    n: &N,
) -> (r: (Binary32, Binary32))
    requires
        is_tait_step(
            m.eos_stiffness,
            m.eos_power,
            m.rest_density,
            density,
            m.min_density,
            m.dynamic_viscosity,
            dx,
            cfl,
            viscous_cfl,
            n,
        ),
    ensures
        ({
            let (c2, ratio) = r;
            let powered = n.pow_of(ratio, m.eos_power.sub(Binary32::one()));
            &&& off(ratio.amount() * m.rest_density.amount(), density.amount()) <= size(
                density.amount(),
            ) + dust() * m.rest_density.amount()
            &&& is_tait_speed(c2, m.eos_stiffness, m.eos_power, powered, m.rest_density)
            &&& is_step_bound(
                m.step_bound(density, dx, cfl, viscous_cfl, n),
                c2,
                m.dynamic_viscosity,
                density,
                dx,
                cfl,
                viscous_cfl,
            )
        }),
{
    let ratio = density.div(m.rest_density);
    let powered = n.pow_of(ratio, m.eos_power.sub(Binary32::one()));
    let c2 = tait_c2(m.eos_stiffness, m.eos_power, powered, m.rest_density);
    lemma_single_constants();
    lemma_constant_amounts();
    law_order_of_amounts(Binary32::zero(), m.rest_density);
    law_quotient_multiplies_back(density, m.rest_density);
    law_tait_sound_speed(m.eos_stiffness, m.eos_power, powered, m.rest_density);
    assert(density.max(m.min_density) == density);
    assert(m.rest_density.max(m.min_density) == m.rest_density);
    assert(ratio.max(Binary32::from_bits(MICRO)) == ratio);
    lemma_step_bound(
        m.step_bound(density, dx, cfl, viscous_cfl, n),
        c2,
        m.dynamic_viscosity,
        density,
        dx,
        cfl,
        viscous_cfl,
    );
    (c2, ratio)
}

/// The step bound of a fluid on the grid at a squared sound speed.
pub proof fn law_grid_step_bound(
    g: GridFluid,
    c2: Binary32,
    density: Binary32,
    dx: Binary32,
    cfl: Binary32,
    viscous_cfl: Binary32,
)
    requires
        g.min_density.le(density),
        bounds_step(c2, dx, cfl),
        g.dynamic_viscosity.gt(Binary32::zero()) ==> diffuses(
            g.dynamic_viscosity,
            density,
            dx,
            viscous_cfl,
        ),
    ensures
        is_step_bound(
            g.step_bound(c2, density, dx, cfl, viscous_cfl),
            c2,
            g.dynamic_viscosity,
            density,
            dx,
            cfl,
            viscous_cfl,
        ),
{
    lemma_single_constants();
    assert(density.max(g.min_density) == density);
    lemma_step_bound(
        g.step_bound(c2, density, dx, cfl, viscous_cfl),
        c2,
        g.dynamic_viscosity,
        density,
        dx,
        cfl,
        viscous_cfl,
    );
}

/// A wave that is no faster than rounding, and a viscosity that is not positive or diffuses no
/// faster than rounding, bound no step.
pub proof fn law_slow_waves_bound_nothing(
    bound: Binary32,
    c2: Binary32,
    viscosity: Binary32,
    density: Binary32,
    dx: Binary32,
    cfl: Binary32,
)
    ensures
        c2.le(Binary32::from_bits(EPSILON)) ==> acoustic_bound(bound, c2, dx, cfl) == bound,
        viscosity.le(Binary32::zero()) || viscosity.div(density).le(Binary32::from_bits(EPSILON))
            ==> viscous_bound(bound, viscosity, density, dx, cfl) == bound && diffusion_dt(
            viscosity,
            density,
            dx,
            cfl,
        ) == Binary32::infinity(),
{
    lemma_single_constants();
}

} // verus!
