use vstd::prelude::*;

use crate::binary::around::Estimate;
use crate::binary::around::around;
use crate::binary::around::law_quotient_multiplies_back;
use crate::binary::around::lemma_finite_parts;
use crate::binary::around::lemma_of;
use crate::binary::around::lemma_plus;
use crate::binary::around::lemma_times;
use crate::binary::around::weight;
use crate::binary::error::law_order_of_amounts;
use crate::binary::error::lemma_constant_amounts;
use crate::binary::error::off;
use crate::binary::error::size;
use crate::binary::relative::dust;
use crate::binary::roots::law_root_is_near;
use crate::binary::single::Binary32;
use crate::binary::single::half;
use crate::binary::single::lemma_single_constants;
use crate::binary::single::two;
use crate::bingham::BinghamFluidMaterial;
use crate::cavitating_fluid::GridFluid;
use crate::estimates::lemma_product;
use crate::estimates::resembles;
use crate::fluid::NewtonianFluidMaterial;
use crate::fluid::artificial_viscosity;
use crate::fluid::tait_c2;
use crate::fluid::tait_pressure;
use crate::gas::GasMaterial;
use crate::granular_fluid::GranularFluidMaterial;
use crate::linalg::Mat2;
use crate::mechanics::MICRO;
use crate::mechanics::MIN_J;
use crate::mechanics::NANO;
use crate::mechanics::entry_ratio;
use crate::mechanics::von_neumann_richtmyer_q;
use crate::mechanics_flow::is_density_ratio;
use crate::mechanics_flow::law_density_ratio;
use crate::mechanics_flow::law_divergence;
use crate::mechanics_flow::law_tait_sound_speed;
use crate::model::MaterialModel;
use crate::model::Response;
use crate::nacc::NaccMaterial;
use crate::numerics::Numerics;
use crate::particle::Particle;
use crate::solid_flow::carried;
use crate::solid_flow::is_increment;
use crate::solid_flow::law_matrices_multiply;
use crate::solid_flow::lemma_increment;

verus! {

/// A volume ratio at which a density stays within its bounds.
pub open spec fn is_inner_ratio(
    rest_density: Binary32,
    j: Binary32,
    floor: Binary32,
    cap: Binary32,
) -> bool {
    &&& rest_density.is_finite() && rest_density.gt(Binary32::zero())
    &&& j.is_finite() && j.gt(Binary32::zero())
    &&& rest_density.div(j).is_finite()
    &&& rest_density.div(j).div(rest_density).is_finite()
    &&& floor.le(rest_density.div(j))
    &&& rest_density.div(j).le(cap)
}

/// The density ratio at such a volume ratio.
proof fn lemma_inner_ratio(rest_density: Binary32, j: Binary32, floor: Binary32, cap: Binary32)
    requires
        is_inner_ratio(rest_density, j, floor, cap),
    ensures
        is_density_ratio(rest_density.div(j).div(rest_density), rest_density, j),
        rest_density.div(j).max(floor).min(cap) == rest_density.div(j),
{
    lemma_single_constants();
    lemma_constant_amounts();
    law_order_of_amounts(Binary32::zero(), rest_density);
    law_order_of_amounts(Binary32::zero(), j);
    law_density_ratio(rest_density, j);
}

/// The pressure of a Newtonian fluid is the Tait pressure at the density ratio `1 / J`.
pub proof fn law_newtonian_pressure<N: Numerics>(
    m: NewtonianFluidMaterial,
    j: Binary32,
    n: &N,
) -> (ratio: Binary32)
    requires
        is_inner_ratio(m.rest_density, j, m.min_density, m.rest_density.mul(two())),
    ensures
        is_density_ratio(ratio, m.rest_density, j),
        m.pressure_at(j, n) == tait_pressure(
            m.eos_stiffness,
            n.pow_of(ratio, m.eos_power),
            m.pressure_floor,
        ),
{
    lemma_inner_ratio(m.rest_density, j, m.min_density, m.rest_density.mul(two()));
    m.rest_density.div(j).div(m.rest_density)
}

/// The pressure of a Bingham fluid is the Tait pressure at the carried density over the rest
/// density.
pub proof fn law_bingham_pressure<N: Numerics>(
    m: BinghamFluidMaterial,
    p: Particle,
    n: &N,
) -> (ratio: Binary32)
    requires
        m.rest_density.is_finite() && m.rest_density.gt(Binary32::zero()),
        p.density.is_finite(),
        m.min_density.le(p.density),
        p.density.le(m.rest_density.mul(two())),
        p.density.div(m.rest_density).is_finite(),
    ensures
        off(ratio.amount() * m.rest_density.amount(), p.density.amount()) <= size(
            p.density.amount(),
        ) + dust() * m.rest_density.amount(),
        m.pressure_of(p, n) == tait_pressure(
            m.eos_stiffness,
            n.pow_of(ratio, m.eos_power),
            m.pressure_floor,
        ),
{
    lemma_single_constants();
    lemma_constant_amounts();
    law_order_of_amounts(Binary32::zero(), m.rest_density);
    law_quotient_multiplies_back(p.density, m.rest_density);
    assert(m.stress_density(&p) == p.density);
    p.density.div(m.rest_density)
}

/// The pressure of a granular fluid is the Tait pressure at the density ratio `1 / J`.
pub proof fn law_granular_pressure<N: Numerics>(
    m: GranularFluidMaterial,
    j: Binary32,
    n: &N,
) -> (ratio: Binary32)
    requires
        is_inner_ratio(
            m.rest_density,
            j,
            Binary32::from_bits(MICRO),
            m.rest_density.div(j),
        ),
        Binary32::from_bits(MICRO).le(m.rest_density),
        Binary32::from_bits(MICRO).le(m.rest_density.div(j).div(m.rest_density)),
    ensures
        is_density_ratio(ratio, m.rest_density, j),
        m.pressure_at(j, n) == tait_pressure(
            m.eos_stiffness,
            n.fast_pow_of(ratio, m.eos_power),
            m.pressure_floor,
        ),
{
    let micro = Binary32::from_bits(MICRO);
    lemma_inner_ratio(m.rest_density, j, micro, m.rest_density.div(j));
    lemma_single_constants();
    assert(m.rest_density.max(micro) == m.rest_density);
    m.rest_density.div(j).div(m.rest_density)
}

/// A sound speed `c` of squared speed `c2`.
pub open spec fn is_speed(c: Binary32, c2: Binary32) -> bool {
    &&& c.amount() > 0real
    &&& off(c.amount() * c.amount(), c2.amount()) <= 2real * c2.amount()
}

/// The artificial viscosity of a Tait fluid is that of its sound speed, `c^2 rho0 = B gamma x`
/// with `x` the density ratio `1 / J` to the power `gamma - 1`.
pub proof fn law_tait_shock<N: Numerics>(
    eos_stiffness: Binary32,
    eos_power: Binary32,
    rest_density: Binary32,
    j: Binary32,
    div_v: Binary32,
    grid_cell_size: Binary32,
    n: &N,
) -> (r: (Binary32, Binary32, Binary32))
    requires
        rest_density.is_finite() && rest_density.gt(Binary32::zero()),
        j.is_finite() && j.gt(Binary32::zero()),
        Binary32::one().div(j).is_finite(),
        ({
            let x = n.fast_pow_of(
                Binary32::one().div(j),
                eos_power.sub(Binary32::one()),
            );
            &&& eos_stiffness.mul(eos_power).mul(x).is_finite()
            &&& tait_c2(eos_stiffness, eos_power, x, rest_density).is_finite()
            &&& tait_c2(eos_stiffness, eos_power, x, rest_density).gt(Binary32::zero())
        }),
    ensures
        ({
            let (c, c2, ratio) = r;
            let x = n.fast_pow_of(ratio, eos_power.sub(Binary32::one()));
            &&& off(ratio.amount() * j.amount(), 1real) <= 1real + dust() * j.amount()
            &&& is_speed(c, c2)
            &&& off(
                c2.amount() * rest_density.amount(),
                (eos_stiffness.amount() * eos_power.amount()) * x.amount(),
            ) <= 6real * ((weight(eos_stiffness) * weight(eos_power)) * weight(x)) + dust()
                * rest_density.amount()
            &&& artificial_viscosity(
                eos_stiffness,
                eos_power,
                rest_density,
                j,
                div_v,
                grid_cell_size,
                n,
            ) == von_neumann_richtmyer_q(
                rest_density,
                j,
                div_v,
                grid_cell_size,
                c,
                eos_power,
            )
        }),
{
    let ratio = Binary32::one().div(j);
    let x = n.fast_pow_of(ratio, eos_power.sub(Binary32::one()));
    let c2 = tait_c2(eos_stiffness, eos_power, x, rest_density);
    lemma_single_constants();
    lemma_constant_amounts();
    law_order_of_amounts(Binary32::zero(), rest_density);
    law_order_of_amounts(Binary32::zero(), j);
    law_quotient_multiplies_back(Binary32::one(), j);
    law_tait_sound_speed(eos_stiffness, eos_power, x, rest_density);
    law_root_is_near(c2);
    assert(c2.max(Binary32::zero()) == c2);
    (c2.sqrt(), c2, ratio)
}

/// The artificial viscosity of a Newtonian fluid acts on the divergence of the flow.
pub proof fn law_newtonian_shock<N: Numerics>(m: NewtonianFluidMaterial, p: Particle, n: &N) -> (d:
    Binary32)
    requires
        half().mul(p.velocity_gradient.symmetrised().trace()).is_finite(),
    ensures
        is_divergence(d, p.velocity_gradient),
        m.shock_at(p, n) == artificial_viscosity(
            m.eos_stiffness,
            m.eos_power,
            m.rest_density,
            p.deformation_gradient.determinant().max(Binary32::from_bits(MICRO)),
            d,
            Binary32::one(),
            n,
        ),
{
    law_divergence(p.velocity_gradient);
    half().mul(p.velocity_gradient.symmetrised().trace())
}

/// `d` is the divergence of the velocity gradient `c`.
pub open spec fn is_divergence(d: Binary32, c: Mat2) -> bool {
    around(
        d,
        c.at(0, 0) + c.at(1, 1),
        2real * (weight(c.x_axis.x) + weight(c.y_axis.y)),
        6real,
    )
}

/// The artificial viscosity of a Bingham fluid acts on the divergence of the flow, at the ratio
/// of the volumes that the particle carries.
pub proof fn law_bingham_shock<N: Numerics>(m: BinghamFluidMaterial, p: Particle, n: &N) -> (r: (
    Binary32,
    Binary32,
))
    requires
        p.velocity_gradient.trace().is_finite(),
        p.volume.is_finite(),
        p.initial_volume.is_finite(),
        p.initial_volume.amount() > 0real,
        p.volume.div(p.initial_volume).is_finite(),
    ensures
        ({
            let (d, j) = r;
            let c = p.velocity_gradient;
            &&& around(
                d,
                c.at(0, 0) + c.at(1, 1),
                weight(c.x_axis.x) + weight(c.y_axis.y),
                2real,
            )
            &&& off(j.amount() * p.initial_volume.amount(), p.volume.amount()) <= size(
                p.volume.amount(),
            ) + dust() * p.initial_volume.amount()
            &&& m.shock_at(p, n) == artificial_viscosity(
                m.eos_stiffness,
                m.eos_power,
                m.rest_density,
                j,
                d,
                Binary32::one(),
                n,
            )
        }),
{
    let c = p.velocity_gradient;
    lemma_finite_parts(c.x_axis.x, c.y_axis.y);
    lemma_of(c.x_axis.x);
    lemma_of(c.y_axis.y);
    lemma_plus(Estimate::of(c.x_axis.x), Estimate::of(c.y_axis.y));
    law_quotient_multiplies_back(p.volume, p.initial_volume);
    (c.trace(), p.volume.div(p.initial_volume))
}

/// The artificial viscosity of a gas acts on the divergence of the flow, at the sound speed
/// `c^2 = gamma R T`.
pub proof fn law_gas_shock(m: GasMaterial, p: Particle, j: Binary32, temperature: Binary32) -> (r: (
    Binary32,
    Binary32,
    Binary32,
))
    requires
        half().mul(p.velocity_gradient.symmetrised().trace()).is_finite(),
        m.adiabatic_index.mul(m.specific_gas_constant).mul(temperature).is_finite(),
        m.adiabatic_index.mul(m.specific_gas_constant).mul(temperature).gt(Binary32::zero()),
    ensures
        ({
            let (d, c, c2) = r;
            &&& is_divergence(d, p.velocity_gradient)
            &&& is_speed(c, c2)
            &&& around(
                c2,
                (m.adiabatic_index.amount() * m.specific_gas_constant.amount())
                    * temperature.amount(),
                (weight(m.adiabatic_index) * weight(m.specific_gas_constant)) * weight(temperature),
                4real,
            )
            &&& m.shock_at(&p, j, temperature) == von_neumann_richtmyer_q(
                m.rest_density,
                j,
                d,
                Binary32::one(),
                c,
                m.adiabatic_index,
            )
        }),
{
    let (a, b) = (m.adiabatic_index, m.specific_gas_constant);
    let c2 = a.mul(b).mul(temperature);
    law_divergence(p.velocity_gradient);
    lemma_finite_parts(a.mul(b), temperature);
    lemma_product(a, b);
    lemma_of(temperature);
    lemma_times(Estimate::of(a).times(Estimate::of(b)), Estimate::of(temperature));
    law_root_is_near(c2);
    (half().mul(p.velocity_gradient.symmetrised().trace()), c2.sqrt(), c2)
}

/// The artificial viscosity of a fluid on the grid acts on the divergence of the flow.
pub proof fn law_grid_shock(g: GridFluid, p: Particle, c2: Binary32, gamma: Binary32) -> (r: (
    Binary32,
    Binary32,
))
    requires
        half().mul(p.velocity_gradient.symmetrised().trace()).is_finite(),
        c2.is_finite() && c2.gt(Binary32::zero()),
    ensures
        ({
            let (d, c) = r;
            &&& is_divergence(d, p.velocity_gradient)
            &&& is_speed(c, c2)
            &&& g.shock_at(&p, c2, gamma) == von_neumann_richtmyer_q(
                g.rest_density,
                p.deformation_gradient.determinant().max(Binary32::from_bits(MICRO)),
                d,
                Binary32::one(),
                c,
                gamma,
            )
        }),
{
    law_divergence(p.velocity_gradient);
    law_root_is_near(c2);
    lemma_single_constants();
    assert(c2.max(Binary32::zero()) == c2);
    (half().mul(p.velocity_gradient.symmetrised().trace()), c2.sqrt())
}

/// What a particle holds that has passed into a fluid with volume ratio `j`: its reference
/// volume holds its mass at the rest density, its volume is `j` times that, and its
/// deformation has the volume ratio `j`.
pub open spec fn holds_ratio(q: Particle, p: Particle, rest_density: Binary32, j: Binary32) -> bool {
    let f = q.deformation_gradient;
    &&& off(q.initial_volume.amount() * rest_density.amount(), p.mass.amount()) <= size(
        p.mass.amount(),
    ) + dust() * rest_density.amount()
    &&& q.volume.is_finite() ==> around(
        q.volume,
        q.initial_volume.amount() * j.amount(),
        weight(q.initial_volume) * weight(j),
        2real,
    )
    &&& off(f.volume_ratio(), j.amount()) <= 2real * j.amount()
    &&& f.at(0, 1) == 0real && f.at(1, 0) == 0real && f.at(0, 0) == f.at(1, 1)
    &&& q.mass == p.mass && q.x == p.x && q.v == p.v
    &&& q.velocity_gradient == p.velocity_gradient
}

/// A particle that passes into a fluid holds its volume ratio.
proof fn lemma_holds_ratio(q: Particle, p: Particle, rest_density: Binary32, j: Binary32)
    requires
        p.mass.is_finite(),
        rest_density.is_finite() && rest_density.amount() > 0real,
        p.mass.div(rest_density).is_finite(),
        j.is_finite() && j.gt(Binary32::zero()),
        q.initial_volume == p.mass.div(rest_density),
        q.volume == q.initial_volume.mul(j),
        q.deformation_gradient == Mat2::isotropic(j.sqrt()),
        q.mass == p.mass && q.x == p.x && q.v == p.v,
        q.velocity_gradient == p.velocity_gradient,
    ensures
        holds_ratio(q, p, rest_density, j),
{
    law_quotient_multiplies_back(p.mass, rest_density);
    law_root_is_near(j);
    lemma_constant_amounts();
    let z = 0real;
    assert(z * z == 0real) by (nonlinear_arith)
        requires
            z == 0real,
    ;
    if q.volume.is_finite() {
        lemma_product(q.initial_volume, j);
    }
}

/// A particle that passes into a Newtonian fluid.
pub proof fn law_newtonian_entry(m: NewtonianFluidMaterial, p: Particle)
    requires
        p.mass.is_finite(),
        m.rest_density.is_finite() && m.rest_density.gt(Binary32::zero()),
        p.mass.div(m.rest_density).is_finite(),
        entry_ratio(p, m.rest_density, half(), two()).is_finite(),
        entry_ratio(p, m.rest_density, half(), two()).gt(Binary32::zero()),
    ensures
        ({
            let q = m.transitioned(p);
            let j = entry_ratio(p, m.rest_density, half(), two());
            &&& holds_ratio(q, p, m.rest_density, j)
            &&& q.density.is_finite() ==> off(
                q.density.amount() * j.amount(),
                m.rest_density.amount(),
            ) <= m.rest_density.amount() + dust() * j.amount()
            &&& q.temperature == p.temperature
        }),
{
    let j = entry_ratio(p, m.rest_density, half(), two());
    lemma_single_constants();
    lemma_constant_amounts();
    law_order_of_amounts(Binary32::zero(), m.rest_density);
    law_order_of_amounts(Binary32::zero(), j);
    lemma_holds_ratio(m.transitioned(p), p, m.rest_density, j);
    if m.transitioned(p).density.is_finite() {
        law_quotient_multiplies_back(m.rest_density, j);
    }
}

/// A particle that passes into a fluid on the grid.
pub proof fn law_grid_entry(g: GridFluid, p: Particle)
    requires
        p.mass.is_finite(),
        g.rest_density.is_finite() && g.rest_density.gt(Binary32::zero()),
        p.mass.div(g.rest_density).is_finite(),
        entry_ratio(p, g.rest_density, g.volume_ratio_min, g.volume_ratio_max).is_finite(),
        entry_ratio(p, g.rest_density, g.volume_ratio_min, g.volume_ratio_max).gt(
            Binary32::zero(),
        ),
    ensures
        ({
            let q = g.entered(p);
            let j = entry_ratio(p, g.rest_density, g.volume_ratio_min, g.volume_ratio_max);
            &&& holds_ratio(q, p, g.rest_density, j)
            &&& q.density.is_finite() ==> off(
                q.density.amount() * j.amount(),
                g.rest_density.amount(),
            ) <= g.rest_density.amount() + dust() * j.amount()
            &&& q.temperature == p.temperature
        }),
{
    let j = entry_ratio(p, g.rest_density, g.volume_ratio_min, g.volume_ratio_max);
    lemma_single_constants();
    lemma_constant_amounts();
    law_order_of_amounts(Binary32::zero(), g.rest_density);
    law_order_of_amounts(Binary32::zero(), j);
    lemma_holds_ratio(g.entered(p), p, g.rest_density, j);
    if g.entered(p).density.is_finite() {
        law_quotient_multiplies_back(g.rest_density, j);
    }
}

/// A particle that passes into a gas, which takes the reference temperature.
pub proof fn law_gas_entry(m: GasMaterial, p: Particle)
    requires
        p.mass.is_finite(),
        m.rest_density.is_finite() && m.rest_density.gt(Binary32::zero()),
        p.mass.div(m.rest_density).is_finite(),
        entry_ratio(p, m.rest_density, m.volume_ratio_min, m.volume_ratio_max).is_finite(),
        entry_ratio(p, m.rest_density, m.volume_ratio_min, m.volume_ratio_max).gt(
            Binary32::zero(),
        ),
    ensures
        ({
            let q = m.transitioned(p);
            let j = entry_ratio(p, m.rest_density, m.volume_ratio_min, m.volume_ratio_max);
            &&& holds_ratio(q, p, m.rest_density, j)
            &&& q.density.is_finite() && q.volume.is_finite() && Binary32::from_bits(NANO).le(
                q.volume,
            ) ==> off(q.density.amount() * q.volume.amount(), p.mass.amount()) <= size(
                p.mass.amount(),
            ) + dust() * q.volume.amount()
            &&& q.temperature == m.reference_temperature_k
        }),
{
    let j = entry_ratio(p, m.rest_density, m.volume_ratio_min, m.volume_ratio_max);
    let q = m.transitioned(p);
    lemma_single_constants();
    lemma_constant_amounts();
    law_order_of_amounts(Binary32::zero(), m.rest_density);
    law_order_of_amounts(Binary32::zero(), j);
    lemma_holds_ratio(q, p, m.rest_density, j);
    if q.density.is_finite() && q.volume.is_finite() && Binary32::from_bits(NANO).le(q.volume) {
        assert(q.volume.max(Binary32::from_bits(NANO)) == q.volume);
        law_order_of_amounts(Binary32::zero(), q.volume);
        law_quotient_multiplies_back(p.mass, q.volume);
    }
}

/// A soil follows the flow: the trial deformation is the exponential of `dt C` times the one
/// before, and the projection decides what becomes of it; the volume follows the determinant
/// and the density holds the mass.
pub proof fn law_soil_follows_the_flow<N: Numerics>(
    m: NaccMaterial,
    p: Particle,
    dt: Binary32,
    n: &N,
) -> (r: (Mat2, Mat2))
    requires
        p.velocity_gradient.scale(dt).is_finite(),
        n.increment_exp_of(p.velocity_gradient.scale(dt)).mul(p.deformation_gradient).is_finite(),
    ensures
        ({
            let (increment, trial) = r;
            let (e, f) = (n.increment_exp_of(increment), p.deformation_gradient);
            let q = m.updated(p, dt, n);
            let back = m.projected(
                trial,
                p.log_volume_strain,
                m.suction_cohesion(p.scalar_field),
                n,
            );
            let j = back.0.determinant();
            &&& is_increment(increment, p.velocity_gradient, dt)
            &&& resembles(
                trial,
                carried(e, f, 0, 0),
                carried(e, f, 0, 1),
                carried(e, f, 1, 0),
                carried(e, f, 1, 1),
                e.weight() * f.weight() + e.weight() * f.weight(),
                4real,
            )
            &&& q.deformation_gradient == back.0
            &&& q.log_volume_strain == back.1
            &&& Binary32::from_bits(MIN_J).le(j) && q.volume.is_finite() ==> around(
                q.volume,
                p.initial_volume.amount() * j.amount(),
                weight(p.initial_volume) * weight(j),
                2real,
            )
            &&& p.mass.is_finite() && q.volume.is_finite() && q.density.is_finite()
                && q.volume.gt(Binary32::from_bits(MIN_J)) ==> off(
                q.density.amount() * q.volume.amount(),
                p.mass.amount(),
            ) <= size(p.mass.amount()) + dust() * q.volume.amount()
            &&& q.mass == p.mass && q.v == p.v && q.x == p.x && q.temperature == p.temperature
            &&& q.initial_volume == p.initial_volume && q.scalar_field == p.scalar_field
        }),
{
    let increment = p.velocity_gradient.scale(dt);
    lemma_increment(p.velocity_gradient, dt);
    let e = n.increment_exp_of(increment);
    law_matrices_multiply(e, p.deformation_gradient);
    let trial = e.mul(p.deformation_gradient);
    let q = m.updated(p, dt, n);
    let j = q.deformation_gradient.determinant();
    lemma_single_constants();
    lemma_constant_amounts();
    if Binary32::from_bits(MIN_J).le(j) && q.volume.is_finite() {
        assert(j.max(Binary32::from_bits(MIN_J)) == j);
        lemma_product(p.initial_volume, j);
    }
    if p.mass.is_finite() && q.volume.is_finite() && q.density.is_finite() && q.volume.gt(
        Binary32::from_bits(MIN_J),
    ) {
        law_order_of_amounts(Binary32::zero(), q.volume);
        law_quotient_multiplies_back(p.mass, q.volume);
    }
    (increment, trial)
}

/// A granular fluid follows the flow: the trial deformation is that of `dt C` over the carried
/// volumes, and the return to the limits decides what becomes of it.
pub proof fn law_granular_follows_the_flow<N: Numerics>(
    m: GranularFluidMaterial,
    p: Particle,
    dt: Binary32,
    n: &N,
) -> (increment: Mat2)
    requires
        p.velocity_gradient.scale(dt).is_finite(),
    ensures
        is_increment(increment, p.velocity_gradient, dt),
        m.updated(p, dt, n) == m.returned(
            p,
            n.advanced_of(p.deformation_gradient, increment, p.volume, p.initial_volume),
            n,
        ),
{
    lemma_increment(p.velocity_gradient, dt);
    p.velocity_gradient.scale(dt)
}

} // verus!
