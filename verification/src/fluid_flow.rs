use vstd::prelude::*;

use crate::binary::around::Estimate;
use crate::binary::around::around;
use crate::binary::around::lemma_finite_parts;
use crate::binary::around::lemma_halved;
use crate::binary::around::lemma_of;
use crate::binary::around::lemma_opposite;
use crate::binary::around::lemma_plus;
use crate::binary::around::lemma_times;
use crate::binary::around::positive;
use crate::binary::around::weight;
use crate::binary::error::law_order_of_amounts;
use crate::binary::error::lemma_constant_amounts;
use crate::binary::error::off;
use crate::binary::relative::dust;
use crate::binary::single::Binary32;
use crate::binary::single::half;
use crate::binary::single::lemma_single_constants;
use crate::binary::single::two;
use crate::bingham::BinghamFluidMaterial;
use crate::cavitating_fluid::GridFluid;
use crate::estimates::Tensor;
use crate::estimates::bounded;
use crate::estimates::flow_error;
use crate::estimates::flow_ratio;
use crate::estimates::law_shear_stress_resists;
use crate::estimates::law_volume_ratio_is_held;
use crate::estimates::lemma_density_times_ratio;
use crate::estimates::lemma_finite_terms;
use crate::estimates::lemma_held_flow;
use crate::estimates::lemma_larger_dust;
use crate::estimates::lemma_nothing;
use crate::estimates::lemma_pressure;
use crate::estimates::lemma_product;
use crate::estimates::lemma_tensor_isotropic;
use crate::estimates::lemma_tensor_looser;
use crate::estimates::lemma_tensor_plus;
use crate::estimates::pressing;
use crate::estimates::resembles;
use crate::estimates::sheared;
use crate::fluid::NewtonianFluidMaterial;
use crate::linalg::Mat2;
use crate::mechanics::NANO;
use crate::mechanics::bounded_density;
use crate::mechanics::damped_velocity;
use crate::mechanics::explicit_trial;
use crate::mechanics::shear_stress;
use crate::mechanics::stepped_ratio;
use crate::mechanics_flow::law_ratio_follows_the_divergence;
use crate::model::Response;
use crate::numerics::Numerics;
use crate::numerics::Unary;
use crate::particle::Particle;

verus! {

/// The density that a fluid particle holds goes with its volume ratio, or is at one of its
/// bounds.
pub open spec fn density_goes_with_ratio(
    density: Binary32,
    rest_density: Binary32,
    ratio: real,
    largest: real,
    floor: Binary32,
    cap: Binary32,
) -> bool {
    ||| density == floor
    ||| density == cap
    ||| !density.is_finite()
    ||| off(density.amount() * ratio, rest_density.amount()) <= 4real * (rest_density.amount()
        + dust() * largest)
}

/// The bounded density goes with the volume ratio.
proof fn lemma_bounded_density(
    rest_density: Binary32,
    j: Binary32,
    floor: Binary32,
    cap: Binary32,
    ratio: real,
    largest: real,
)
    requires
        rest_density.is_finite(),
        Binary32::zero().lt(rest_density),
        j.is_finite(),
        j.gt(Binary32::zero()),
        off(ratio, j.amount()) <= 2real * j.amount(),
        j.amount() <= largest,
    ensures
        density_goes_with_ratio(
            bounded_density(rest_density, j, floor, cap),
            rest_density,
            ratio,
            largest,
            floor,
            cap,
        ),
{
    let d = bounded_density(rest_density, j, floor, cap);
    if d != floor && d != cap && d.is_finite() {
        assert(d == rest_density.div(j));
        lemma_density_times_ratio(rest_density, j, ratio);
        lemma_larger_dust(j.amount(), largest);
    }
}

/// A fluid on the grid follows the divergence of the flow: the volume ratio that it holds
/// after a step is the one before times the exponential of `dt` times the divergence, within
/// its bounds; density and volume go with it, and nothing else changes.
pub proof fn law_grid_fluid_follows_the_divergence<N: Numerics>(
    g: GridFluid,
    p: Particle,
    dt: Binary32,
    n: &N,
) -> (exponent: Binary32)
    requires
        follows(p, dt, g.volume_ratio_min, g.volume_ratio_max, n),
        g.rest_density.is_finite(),
        Binary32::zero().lt(g.rest_density),
    ensures
        ({
            let q = g.stepped(p, dt, n);
            let (lo, hi) = (g.volume_ratio_min.amount(), g.volume_ratio_max.amount());
            let ratio = q.deformation_gradient.volume_ratio();
            &&& is_exponent(exponent, p, dt)
            &&& ratio_follows(ratio, exponent, p, lo, hi, n)
            &&& density_goes_with_ratio(
                q.density,
                g.rest_density,
                ratio,
                hi,
                g.min_density,
                g.rest_density.div(g.volume_ratio_min),
            )
            &&& q == (Particle {
                deformation_gradient: q.deformation_gradient,
                density: q.density,
                volume: q.volume,
                ..p
            })
            &&& q.deformation_gradient.at(0, 1) == 0real && q.deformation_gradient.at(1, 0)
                == 0real
            &&& q.deformation_gradient.at(0, 0) == q.deformation_gradient.at(1, 1)
        }),
{
    let (lo, hi) = (g.volume_ratio_min, g.volume_ratio_max);
    let exponent = law_ratio_follows_the_divergence(p, dt, lo, hi, n);
    let j = stepped_ratio(p, dt, lo, hi, n);
    lemma_single_constants();
    lemma_constant_amounts();
    law_order_of_amounts(Binary32::zero(), lo);
    law_order_of_amounts(Binary32::zero(), j);
    law_volume_ratio_is_held(p, j, g.density_at(j), g.min_volume);
    let q = g.stepped(p, dt, n);
    lemma_bounded_density(
        g.rest_density,
        j,
        g.min_density,
        g.rest_density.div(lo),
        q.deformation_gradient.volume_ratio(),
        hi.amount(),
    );
    exponent
}

/// A step of a fluid that does not overflow, with positive bounds of the volume ratio.
pub open spec fn follows<N: Numerics>(
    p: Particle,
    dt: Binary32,
    lo: Binary32,
    hi: Binary32,
    n: &N,
) -> bool {
    &&& lo.is_finite() && hi.is_finite() && lo.le(hi)
    &&& Binary32::zero().lt(lo)
    &&& dt.mul(p.velocity_gradient.trace()).is_finite()
    &&& p.deformation_gradient.determinant().mul(
        n.unary_of(Unary::Exp, dt.mul(p.velocity_gradient.trace())),
    ).is_finite()
}

/// `exponent` is `dt` times the divergence.
pub open spec fn is_exponent(exponent: Binary32, p: Particle, dt: Binary32) -> bool {
    around(
        exponent,
        dt.amount() * (p.velocity_gradient.at(0, 0) + p.velocity_gradient.at(1, 1)),
        weight(dt) * (weight(p.velocity_gradient.x_axis.x) + weight(p.velocity_gradient.y_axis.y)),
        4real,
    )
}

/// `ratio` is the volume ratio of `p` times the exponential, within its bounds.
pub open spec fn ratio_follows<N: Numerics>(
    ratio: real,
    exponent: Binary32,
    p: Particle,
    lo: real,
    hi: real,
    n: &N,
) -> bool {
    let j = p.deformation_gradient.determinant();
    let growth = n.unary_of(Unary::Exp, exponent);
    off(ratio, bounded(j.amount() * growth.amount(), lo, hi)) <= 2real * (weight(j) * weight(growth))
        + 2real * hi
}

/// A Newtonian fluid follows the divergence of the flow, and its velocity is damped.
pub proof fn law_newtonian_fluid_follows_the_divergence<N: Numerics>(
    m: NewtonianFluidMaterial,
    p: Particle,
    dt: Binary32,
    n: &N,
) -> (exponent: Binary32)
    requires
        follows(p, dt, half(), two(), n),
        m.rest_density.is_finite(),
        Binary32::zero().lt(m.rest_density),
    ensures
        ({
            let q = m.updated(p, dt, n);
            let ratio = q.deformation_gradient.volume_ratio();
            &&& is_exponent(exponent, p, dt)
            &&& ratio_follows(ratio, exponent, p, 1real / 2real, 2real, n)
            &&& density_goes_with_ratio(
                q.density,
                m.rest_density,
                ratio,
                2real,
                m.min_density,
                m.rest_density.mul(two()),
            )
            &&& q == (Particle {
                v: damped_velocity(p.v, m.settling_damping, dt),
                deformation_gradient: q.deformation_gradient,
                density: q.density,
                volume: q.volume,
                ..p
            })
        }),
{
    let (lo, hi) = (half(), two());
    let exponent = law_ratio_follows_the_divergence(p, dt, lo, hi, n);
    let j = stepped_ratio(p, dt, lo, hi, n);
    lemma_single_constants();
    lemma_constant_amounts();
    law_order_of_amounts(Binary32::zero(), j);
    let nano = Binary32::from_bits(NANO);
    law_volume_ratio_is_held(p, j, m.density_at(j), nano);
    let q = m.updated(p, dt, n);
    lemma_bounded_density(
        m.rest_density,
        j,
        m.min_density,
        m.rest_density.mul(two()),
        q.deformation_gradient.volume_ratio(),
        2real,
    );
    exponent
}

/// A Bingham fluid follows the flow: after a step the volume ratio is `det(I + dt C)` times the
/// one before, within a half and two, the density goes with it, and the velocity is damped.
pub proof fn law_bingham_fluid_follows_the_flow<N: Numerics>(
    m: BinghamFluidMaterial,
    p: Particle,
    dt: Binary32,
    n: &N,
)
    requires
        explicit_trial(p, dt).is_finite(),
        explicit_trial(p, dt).determinant().is_finite(),
        m.rest_density.is_finite(),
        Binary32::zero().lt(m.rest_density),
    ensures
        ({
            let q = m.updated(p, dt, n);
            let ratio = q.deformation_gradient.volume_ratio();
            &&& off(ratio, bounded(flow_ratio(p, dt), 1real / 2real, 2real)) <= flow_error(p, dt)
                + 4real
            &&& density_goes_with_ratio(
                q.density,
                m.rest_density,
                ratio,
                2real,
                m.min_density,
                m.rest_density.mul(two()),
            )
            &&& q == (Particle {
                v: damped_velocity(p.v, m.settling_damping, dt),
                deformation_gradient: q.deformation_gradient,
                density: q.density,
                volume: q.volume,
                ..p
            })
        }),
{
    let x = explicit_trial(p, dt).determinant();
    let j = x.clamp(half(), two());
    let nano = Binary32::from_bits(NANO);
    lemma_single_constants();
    lemma_constant_amounts();
    lemma_held_flow(p, dt, half(), two(), m.density_at(j), nano);
    law_volume_ratio_is_held(p, j, m.density_at(j), nano);
    law_order_of_amounts(j, two());
    let q = m.updated(p, dt, n);
    lemma_bounded_density(
        m.rest_density,
        j,
        m.min_density,
        m.rest_density.mul(two()),
        q.deformation_gradient.volume_ratio(),
        2real,
    );
}

/// The bulk viscous stress of a Newtonian fluid.
pub open spec fn bulk(v: Binary32, c: Mat2) -> Tensor {
    let x = positive(v.amount()) * (c.at(0, 0) + c.at(1, 1));
    Tensor {
        got: Mat2::isotropic(v.mul(c.symmetrised().trace()).mul(half())),
        xx: x,
        xy: 0real,
        yx: 0real,
        yy: x,
        scale: weight(v) * (4real * c.weight()),
        parts: 12real,
    }
}

/// Bulk viscosity resists a change of volume: its coefficient times the divergence.
pub proof fn lemma_bulk(v: Binary32, c: Mat2)
    requires
        bulk(v, c).got.is_finite(),
        v.gt(Binary32::zero()),
    ensures
        bulk(v, c).holds(),
{
    let t = c.symmetrised().trace();
    lemma_finite_parts(v.mul(t), half());
    lemma_finite_parts(v, t);
    lemma_finite_parts(c.x_axis.x.add(c.x_axis.x), c.y_axis.y.add(c.y_axis.y));
    lemma_finite_parts(c.x_axis.x, c.x_axis.x);
    lemma_finite_parts(c.y_axis.y, c.y_axis.y);
    lemma_of(v);
    lemma_of(c.x_axis.x);
    lemma_of(c.y_axis.y);
    let (x, y) = (Estimate::of(c.x_axis.x), Estimate::of(c.y_axis.y));
    lemma_plus(x, x);
    lemma_plus(y, y);
    let s = x.plus(x).plus(y.plus(y));
    lemma_plus(x.plus(x), y.plus(y));
    let e = Estimate::of(v).times(s);
    lemma_times(Estimate::of(v), s);
    lemma_halved(e);
    lemma_constant_amounts();
    lemma_single_constants();
    law_order_of_amounts(Binary32::zero(), v);
    let (a, d) = (v.amount(), c.at(0, 0) + c.at(1, 1));
    assert(e.exact / 2real == a * d) by (nonlinear_arith)
        requires
            e.exact == a * s.exact,
            s.exact == 2real * d,
    ;
    let (w, k) = (weight(v), 4real * c.weight());
    assert(e.scale <= w * k) by (nonlinear_arith)
        requires
            e.scale == w * s.scale,
            s.scale <= k,
            w >= 0real,
    ;
    lemma_tensor_isotropic(e.halved());
    lemma_tensor_looser(Tensor::isotropic(e.halved()), w * k, 12real);
}

/// The mean of the normal stresses of a Newtonian fluid: pressure and artificial viscosity
/// push, surface tension pulls, and bulk viscosity resists the change of volume.
pub open spec fn mean_stress<N: Numerics>(m: NewtonianFluidMaterial, p: Particle, n: &N) -> real {
    m.surface_tension_coeff.amount() * p.deformation_gradient.determinant().amount() + positive(
        m.bulk_viscosity.amount(),
    ) * (p.velocity_gradient.at(0, 0) + p.velocity_gradient.at(1, 1)) - m.pressure_at(
        m.stress_ratio(&p),
        n,
    ).amount() - m.shock_at(p, n).amount()
}

/// The size of the terms of the stress of a Newtonian fluid.
pub open spec fn stress_scale<N: Numerics>(m: NewtonianFluidMaterial, p: Particle, n: &N) -> real {
    let c = p.velocity_gradient;
    weight(m.pressure_at(m.stress_ratio(&p), n)) + weight(m.viscosity_at(p.temperature, n)) * (4real
        * c.weight()) + weight(m.bulk_viscosity) * (4real * c.weight()) + weight(
        m.surface_tension_coeff,
    ) * weight(p.deformation_gradient.determinant()) + weight(m.shock_at(p, n))
}

/// A Newtonian fluid resists shearing: the stress is its mean plus the viscosity times the
/// deviator of twice the strain rate.
pub proof fn law_newtonian_stress<N: Numerics>(m: NewtonianFluidMaterial, p: Particle, n: &N)
    requires
        m.stress(p, n).is_finite(),
        m.surface_tension_coeff.is_finite(),
        m.bulk_viscosity.is_finite(),
    ensures
        ({
            let c = p.velocity_gradient;
            let v = m.viscosity_at(p.temperature, n).amount();
            let mean = mean_stress(m, p, n);
            resembles(
                m.stress(p, n),
                mean + v * (c.at(0, 0) - c.at(1, 1)),
                v * (c.at(0, 1) + c.at(1, 0)),
                v * (c.at(0, 1) + c.at(1, 0)),
                mean + v * (c.at(1, 1) - c.at(0, 0)),
                stress_scale(m, p, n),
                20real,
            )
        }),
{
    let c = p.velocity_gradient;
    let z = Binary32::zero();
    let pr = m.pressure_at(m.stress_ratio(&p), n);
    let v = m.viscosity_at(p.temperature, n);
    let (b, s, q) = (m.bulk_viscosity, m.surface_tension_coeff, m.shock_at(p, n));
    let j = p.deformation_gradient.determinant();
    let base = m.base_stress(p, n);
    let bulked = m.add_bulk(base, &p);
    let surfaced = m.add_surface(bulked, &p);
    lemma_single_constants();
    lemma_constant_amounts();
    lemma_finite_terms(surfaced, Mat2::isotropic(q.neg()));
    lemma_finite_terms(bulked, Mat2::isotropic(s.mul(j)));
    lemma_finite_terms(base, bulk(b, c).got);
    lemma_finite_terms(Mat2::isotropic(pr.neg()), shear_stress(v, c));
    lemma_pressure(pr);
    lemma_pressure(q);
    law_shear_stress_resists(v, c);
    law_order_of_amounts(z, b);
    law_order_of_amounts(s, z);
    let t0 = pressing(pr).plus(sheared(v, c));
    lemma_tensor_plus(pressing(pr), sheared(v, c));
    let wb = weight(b) * (4real * c.weight());
    let ws = weight(s) * weight(j);
    lemma_weights(weight(b), 4real * c.weight());
    lemma_weights(weight(s), weight(j));
    let t1 = if b.gt(z) {
        t0.plus(bulk(b, c))
    } else {
        Tensor { scale: t0.scale + wb, parts: 14real, ..t0 }
    };
    if b.gt(z) {
        lemma_bulk(b, c);
        lemma_tensor_plus(t0, bulk(b, c));
    } else {
        lemma_nothing(c.at(0, 0) + c.at(1, 1));
        lemma_tensor_looser(t0, t0.scale + wb, 14real);
    }
    let surface = Tensor::isotropic(Estimate::of(s).times(Estimate::of(j)));
    let t2 = if !s.eq(z) {
        t1.plus(surface)
    } else {
        Tensor { scale: t1.scale + ws, parts: 16real, ..t1 }
    };
    if !s.eq(z) {
        lemma_product(s, j);
        lemma_tensor_isotropic(Estimate::of(s).times(Estimate::of(j)));
        lemma_tensor_plus(t1, surface);
    } else {
        lemma_nothing(j.amount());
        lemma_tensor_looser(t1, t1.scale + ws, 16real);
    }
    lemma_tensor_plus(t2, pressing(q));
    lemma_tensor_looser(t2.plus(pressing(q)), stress_scale(m, p, n), 20real);
}

/// A product of weights.
proof fn lemma_weights(x: real, y: real)
    requires
        x >= 1real,
        y >= 1real,
    ensures
        x * y >= 1real,
{
    assert(x * y >= 1real) by (nonlinear_arith)
        requires
            x >= 1real,
            y >= 1real,
    ;
}

/// Heat thins the fluid: the viscosity falls by the exponential of minus the coefficient times
/// the temperature.
pub proof fn law_heat_thins<N: Numerics>(
    m: NewtonianFluidMaterial,
    temperature: Binary32,
    n: &N,
) -> (exponent: Binary32)
    requires
        m.thermal_viscosity_coeff.gt(Binary32::zero()),
        m.thermal_viscosity_coeff.neg().mul(temperature).is_finite(),
        m.viscosity_at(temperature, n).is_finite(),
    ensures
        around(
            exponent,
            -(m.thermal_viscosity_coeff.amount() * temperature.amount()),
            weight(m.thermal_viscosity_coeff) * weight(temperature),
            2real,
        ),
        around(
            m.viscosity_at(temperature, n),
            m.dynamic_viscosity.amount() * n.unary_of(Unary::Exp, exponent).amount(),
            weight(m.dynamic_viscosity) * weight(n.unary_of(Unary::Exp, exponent)),
            2real,
        ),
{
    let k = m.thermal_viscosity_coeff;
    let exponent = k.neg().mul(temperature);
    lemma_finite_parts(k.neg(), temperature);
    lemma_finite_parts(k, temperature);
    lemma_of(k);
    lemma_of(temperature);
    lemma_opposite(Estimate::of(k));
    lemma_times(Estimate::of(k).opposite(), Estimate::of(temperature));
    let (x, y) = (k.amount(), temperature.amount());
    assert((-x) * y == -(x * y)) by (nonlinear_arith);
    lemma_product(m.dynamic_viscosity, n.unary_of(Unary::Exp, exponent));
    exponent
}

} // verus!
