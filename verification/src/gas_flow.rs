use vstd::prelude::*;

use crate::binary::around::Estimate;
use crate::binary::around::around;
use crate::binary::around::lemma_bounded_product;
use crate::binary::around::lemma_finite_parts;
use crate::binary::around::lemma_of;
use crate::binary::around::lemma_times;
use crate::binary::around::positive;
use crate::binary::around::weight;
use crate::binary::error::law_order_of_amounts;
use crate::binary::error::lemma_constant_amounts;
use crate::binary::error::off;
use crate::binary::laws::law_addition_commutes;
use crate::binary::laws::law_division_is_antitone;
use crate::binary::laws::law_finite_product_is_a_number;
use crate::binary::laws::law_finite_quotient_is_a_number;
use crate::binary::laws::law_multiplication_commutes;
use crate::binary::laws::law_multiplication_is_monotone;
use crate::binary::laws::law_non_negative_steps;
use crate::binary::laws::law_one_is_neutral;
use crate::binary::laws::law_square_is_not_negative;
use crate::binary::laws::law_zero_absorbs;
use crate::binary::relative::dust;
use crate::binary::relative::is_ordinary;
use crate::binary::roots::law_root_is_monotone;
use crate::binary::roots::law_root_of_square;
use crate::binary::single::Binary32;
use crate::binary::single::lemma_single_constants;
use crate::estimates::bounded;
use crate::estimates::flow_error;
use crate::estimates::flow_ratio;
use crate::estimates::law_shear_stress_resists;
use crate::estimates::law_volume_ratio_is_held;
use crate::estimates::lemma_density_times_ratio;
use crate::estimates::lemma_dilated;
use crate::estimates::lemma_finite_terms;
use crate::estimates::lemma_held_flow;
use crate::estimates::lemma_larger_dust;
use crate::estimates::lemma_nothing;
use crate::estimates::lemma_pressure;
use crate::estimates::lemma_shear_sign;
use crate::estimates::lemma_sign_kept;
use crate::estimates::lemma_sign_of_product;
use crate::estimates::lemma_sum_either_way;
use crate::estimates::lemma_tensor_looser;
use crate::estimates::lemma_tensor_plus;
use crate::estimates::pressing;
use crate::estimates::resembles;
use crate::estimates::sheared;
use crate::estimates::signs_agree;
use crate::gas::GasMaterial;
use crate::linalg::Mat2;
use crate::mechanics::MICRO;
use crate::mechanics::NANO;
use crate::mechanics::explicit_trial;
use crate::mechanics::shear_stress;
use crate::mechanics_flow::is_density_ratio;
use crate::mechanics_flow::law_density_ratio;
use crate::model::Response;
use crate::numerics::Numerics;
use crate::particle::Particle;

verus! {

/// A gas follows the flow: after a step the volume ratio is `det(I + dt C)` times the one
/// before, within its bounds, and the density goes with it.
pub proof fn law_gas_follows_the_flow<N: Numerics>(
    m: GasMaterial,
    p: Particle,
    dt: Binary32,
    n: &N,
)
    requires
        explicit_trial(p, dt).is_finite(),
        explicit_trial(p, dt).determinant().is_finite(),
        m.volume_ratio_min.is_finite() && m.volume_ratio_max.is_finite(),
        m.volume_ratio_min.le(m.volume_ratio_max),
        Binary32::zero().lt(m.volume_ratio_min),
        m.rest_density.is_finite(),
        Binary32::zero().lt(m.rest_density),
    ensures
        ({
            let q = m.updated(p, dt, n);
            let ratio = q.deformation_gradient.volume_ratio();
            let (lo, hi) = (m.volume_ratio_min.amount(), m.volume_ratio_max.amount());
            &&& off(ratio, bounded(flow_ratio(p, dt), lo, hi)) <= flow_error(p, dt) + 2real * hi
            &&& m.min_density.le(q.density) || m.min_density.is_nan()
            &&& q.density == m.min_density || q.density.is_finite() ==> q.density == m.min_density
                || off(q.density.amount() * ratio, m.rest_density.amount()) <= 4real * (
            m.rest_density.amount() + dust() * hi)
            &&& q.mass == p.mass && q.v == p.v && q.x == p.x && q.temperature == p.temperature
            &&& q.initial_volume == p.initial_volume
        }),
{
    let x = explicit_trial(p, dt).determinant();
    let j = x.clamp(m.volume_ratio_min, m.volume_ratio_max);
    let nano = Binary32::from_bits(NANO);
    lemma_held_flow(p, dt, m.volume_ratio_min, m.volume_ratio_max, m.density_at(j), nano);
    law_volume_ratio_is_held(p, j, m.density_at(j), nano);
    let q = m.updated(p, dt, n);
    lemma_single_constants();
    if q.density.is_finite() && q.density != m.min_density {
        lemma_density_times_ratio(m.rest_density, j, q.deformation_gradient.volume_ratio());
        law_order_of_amounts(x, m.volume_ratio_min);
        law_order_of_amounts(j, m.volume_ratio_max);
        lemma_larger_dust(j.amount(), m.volume_ratio_max.amount());
    }
}

/// Converging flow compacts a gas and diverging flow thins it: under a uniform dilation at
/// the rate `c` the volume ratio does not rise where `c` is not positive, and does not fall
/// where it is not negative; the density goes the other way.
pub proof fn law_compression_compacts<N: Numerics>(
    m: GasMaterial,
    p: Particle,
    s: Binary32,
    c: Binary32,
    dt: Binary32,
    n: &N,
)
    requires
        p.deformation_gradient == Mat2::isotropic(s),
        p.velocity_gradient == Mat2::isotropic(c),
        0x2000_0000 <= s.bits < 0x7f80_0000,
        s.mul(s).is_finite(),
        m.volume_ratio_min.le(s.mul(s)),
        s.mul(s).le(m.volume_ratio_max),
        Binary32::zero().lt(m.volume_ratio_min),
        dt.is_finite(),
        dt.bits < 0x8000_0000,
        Binary32::zero().le(Binary32::one().add(c.mul(dt))),
        explicit_trial(p, dt).determinant().is_finite(),
        m.rest_density.is_finite(),
        m.rest_density.gt(Binary32::zero()),
        !m.min_density.is_nan(),
    ensures
        ({
            let q = m.updated(p, dt, n);
            &&& c.le(Binary32::zero()) ==> q.deformation_gradient.x_axis.x.le(s)
                && m.density_at(s.mul(s)).le(q.density)
            &&& Binary32::zero().le(c) ==> s.le(q.deformation_gradient.x_axis.x)
                && q.density.le(m.density_at(s.mul(s)))
            &&& q.deformation_gradient.y_axis.y == q.deformation_gradient.x_axis.x
        }),
{
    let z = Binary32::zero();
    let one = Binary32::one();
    let x = c.mul(dt);
    let g = one.add(x);
    let h = g.mul(s);
    lemma_single_constants();
    let t = explicit_trial(p, dt);
    lemma_finite_parts(t.x_axis.x.mul(t.y_axis.y), t.x_axis.y.mul(t.y_axis.x));
    lemma_finite_parts(t.x_axis.x, t.y_axis.y);
    lemma_finite_parts(h, z.add(z.mul(dt)).mul(z));
    lemma_finite_parts(g, s);
    lemma_finite_parts(one, x);
    lemma_finite_parts(c, dt);
    lemma_dilated(p, dt, s, c);
    lemma_sign_of_product(c, dt);
    law_addition_commutes(one, x);
    law_one_is_neutral(s);
    law_multiplication_commutes(one, s);
    lemma_sign_of_product(g, s);
    law_root_of_square(s);
    let d = t.determinant();
    let ss = s.mul(s);
    let j = d.clamp(m.volume_ratio_min, m.volume_ratio_max);
    let hh = h.mul(h);
    if c.le(z) {
        law_not_above_one(x);
        law_multiplication_is_monotone(g, one, s);
        lemma_squares_in_order(h, s);
        assert(d.le(ss));
        assert(j.le(ss) && z.lt(j));
        law_root_is_monotone(j, ss);
        law_finite_quotient_is_a_number(m.rest_density, j);
        law_finite_quotient_is_a_number(m.rest_density, ss);
        law_division_is_antitone(m.rest_density, j, ss);
    }
    if z.le(c) {
        law_non_negative_steps(one, x);
        law_multiplication_is_monotone(one, g, s);
        lemma_squares_in_order(s, h);
        assert(ss.le(d));
        assert(ss.le(j) && z.lt(ss) && z.lt(j));
        law_root_is_monotone(ss, j);
        law_finite_quotient_is_a_number(m.rest_density, j);
        law_finite_quotient_is_a_number(m.rest_density, ss);
        law_division_is_antitone(m.rest_density, ss, j);
    }
}

/// One plus a number that is not positive.
proof fn law_not_above_one(x: Binary32)
    requires
        x.le(Binary32::zero()),
        x.is_finite(),
    ensures
        Binary32::one().add(x).le(Binary32::one()),
{
    lemma_single_constants();
    law_non_negative_steps(Binary32::one(), x.neg());
    law_reversed_sign(x);
}

/// Subtracting the opposite adds.
proof fn law_reversed_sign(x: Binary32)
    requires
        x.is_finite(),
    ensures
        Binary32::one().sub(x.neg()) == Binary32::one().add(x),
{
    reveal(Binary32::spec_add);
    reveal(Binary32::spec_sub);
    lemma_single_constants();
}

/// Squares of numbers that are not negative are ordered as they are.
proof fn lemma_squares_in_order(a: Binary32, b: Binary32)
    requires
        Binary32::zero().le(a),
        a.le(b),
        a.is_finite() && b.is_finite(),
        a.mul(a).is_finite() || b.mul(b).is_finite(),
    ensures
        a.mul(a).le(b.mul(b)),
{
    lemma_single_constants();
    let z = Binary32::zero();
    law_finite_product_is_a_number(a, a);
    law_finite_product_is_a_number(a, b);
    law_finite_product_is_a_number(b, a);
    law_finite_product_is_a_number(b, b);
    if a.bits >= 0x8000_0000 {
        law_zero_absorbs(a, a);
        law_square_is_not_negative(b);
    } else {
        law_multiplication_is_monotone(a, b, a);
        law_multiplication_commutes(a, b);
        if b.bits < 0x8000_0000 {
            law_multiplication_is_monotone(a, b, b);
        } else {
            law_zero_absorbs(a, a);
            law_zero_absorbs(b, b);
        }
    }
}

/// The gas resists shearing: the stress is the pressure and the artificial viscosity, pushing
/// on every side, and the viscosity times the deviator of twice the strain rate.
pub proof fn law_gas_stress<N: Numerics>(m: GasMaterial, p: Particle, n: &N)
    requires
        m.stress(p, n).is_finite(),
        m.dynamic_viscosity.is_finite(),
    ensures
        ({
            let c = p.velocity_gradient;
            let v = positive(m.dynamic_viscosity.amount());
            let q = m.shock_at(
                &p,
                p.deformation_gradient.determinant().max(Binary32::from_bits(MICRO)),
                p.temperature.max(Binary32::zero()),
            );
            let push = m.pressure_of(p, n).amount() + q.amount();
            resembles(
                m.stress(p, n),
                v * (c.at(0, 0) - c.at(1, 1)) - push,
                v * (c.at(0, 1) + c.at(1, 0)),
                v * (c.at(0, 1) + c.at(1, 0)),
                v * (c.at(1, 1) - c.at(0, 0)) - push,
                weight(m.pressure_of(p, n)) + weight(m.dynamic_viscosity) * (4real * c.weight())
                    + weight(q),
                14real,
            )
        }),
{
    let c = p.velocity_gradient;
    let j = p.deformation_gradient.determinant().max(Binary32::from_bits(MICRO));
    let t = p.temperature.max(Binary32::zero());
    let q = m.shock_at(&p, j, t);
    let pr = m.pressure_of(p, n);
    let v = m.dynamic_viscosity;
    let a = Mat2::isotropic(pr.neg());
    let b = m.add_shear(a, &p);
    lemma_finite_terms(b, Mat2::isotropic(q.neg()));
    lemma_single_constants();
    lemma_constant_amounts();
    law_order_of_amounts(Binary32::zero(), v);
    if v.gt(Binary32::zero()) {
        lemma_finite_terms(a, shear_stress(v, c));
        law_shear_stress_resists(v, c);
        lemma_pressure(pr);
        lemma_pressure(q);
        lemma_tensor_plus(pressing(pr), sheared(v, c));
        lemma_tensor_plus(pressing(pr).plus(sheared(v, c)), pressing(q));
    } else {
        lemma_pressure(pr);
        lemma_pressure(q);
        lemma_tensor_plus(pressing(pr), pressing(q));
        lemma_nothing(c.at(0, 0) - c.at(1, 1));
        lemma_nothing(c.at(0, 1) + c.at(1, 0));
        lemma_nothing(c.at(1, 1) - c.at(0, 0));
        let w = weight(v) * (4real * c.weight());
        assert(w >= 0real) by (nonlinear_arith)
            requires
                w == weight(v) * (4real * c.weight()),
                weight(v) >= 0real,
                c.weight() >= 0real,
        ;
        lemma_tensor_looser(
            pressing(pr).plus(pressing(q)),
            weight(pr) + w + weight(q),
            14real,
        );
    }
}

/// The gas law: the pressure is the rest density times the gas constant times the temperature
/// times the power of the density ratio, and never negative.
pub proof fn law_gas_pressure(m: GasMaterial, temperature: Binary32, powered: Binary32)
    requires
        is_ordinary(m.rest_density),
        is_ordinary(m.specific_gas_constant),
        is_ordinary(temperature),
        is_ordinary(powered),
    ensures
        around(
            m.isentropic_pressure(temperature, powered),
            m.rest_density.amount() * m.specific_gas_constant.amount() * temperature.amount()
                * powered.amount(),
            weight(m.rest_density) * weight(m.specific_gas_constant) * weight(temperature)
                * weight(powered),
            6real,
        ),
{
    let (a, b, c, d) = (m.rest_density, m.specific_gas_constant, temperature, powered);
    let (x, y, z) = (a.mul(b), a.mul(b).mul(c), a.mul(b).mul(c).mul(d));
    lemma_bounded_product(a, b, 1073741824real, 1073741824real);
    lemma_bounded_product(x, c, 2305843009213693952real, 1073741824real);
    lemma_bounded_product(y, d, 4951760157141521099596496896real, 1073741824real);
    lemma_of(a);
    lemma_of(b);
    lemma_of(c);
    lemma_of(d);
    let (e, f, g, h) = (Estimate::of(a), Estimate::of(b), Estimate::of(c), Estimate::of(d));
    lemma_times(e, f);
    lemma_times(e.times(f), g);
    lemma_times(e.times(f).times(g), h);
    let r = e.times(f).times(g).times(h);
    let ab = a.amount() * b.amount();
    let abc = ab * c.amount();
    assert(ab >= 0real) by (nonlinear_arith)
        requires
            ab == a.amount() * b.amount(),
            a.amount() >= 0real,
            b.amount() >= 0real,
    ;
    assert(abc >= 0real) by (nonlinear_arith)
        requires
            abc == ab * c.amount(),
            ab >= 0real,
            c.amount() >= 0real,
    ;
    assert(abc * d.amount() >= 0real) by (nonlinear_arith)
        requires
            abc >= 0real,
            d.amount() >= 0real,
    ;
    lemma_constant_amounts();
    lemma_single_constants();
    law_order_of_amounts(z, Binary32::zero());
}

/// The density ratio that the pressure is a power of: times the volume ratio it is one, unless
/// the density is at its floor.
pub proof fn law_gas_pressure_follows_the_density<N: Numerics>(
    m: GasMaterial,
    p: Particle,
    n: &N,
) -> (ratio: Binary32)
    requires
        m.rest_density.is_finite(),
        Binary32::zero().lt(m.rest_density),
        m.min_density.is_finite(),
        p.deformation_gradient.determinant().is_finite(),
        Binary32::from_bits(MICRO).le(p.deformation_gradient.determinant()),
        m.rest_density.div(p.deformation_gradient.determinant()).is_finite(),
        m.min_density.le(m.rest_density.div(p.deformation_gradient.determinant())),
        m.rest_density.div(p.deformation_gradient.determinant()).div(m.rest_density).is_finite(),
    ensures
        m.pressure_of(p, n) == m.isentropic_pressure(
            p.temperature.max(Binary32::zero()),
            n.fast_pow_of(ratio, m.adiabatic_index),
        ),
        is_density_ratio(ratio, m.rest_density, p.deformation_gradient.determinant()),
{
    let j = p.deformation_gradient.determinant();
    let d = m.rest_density.div(j);
    let ratio = d.div(m.rest_density);
    lemma_single_constants();
    lemma_constant_amounts();
    law_order_of_amounts(Binary32::zero(), m.rest_density);
    law_order_of_amounts(Binary32::zero(), j);
    law_density_ratio(m.rest_density, j);
    assert(d.max(m.min_density) == d);
    assert(j.max(Binary32::from_bits(MICRO)) == j);
    ratio
}

/// A gas dissipates: the shear stress never opposes the shearing that it resists.
pub proof fn law_gas_shear_stress_has_the_sign_of_the_shearing<N: Numerics>(
    m: GasMaterial,
    p: Particle,
    n: &N,
)
    requires
        m.stress(p, n).is_finite(),
        m.dynamic_viscosity.gt(Binary32::zero()),
    ensures
        signs_agree(
            p.velocity_gradient.x_axis.y.add(p.velocity_gradient.y_axis.x),
            m.stress(p, n),
        ),
{
    let c = p.velocity_gradient;
    let j = p.deformation_gradient.determinant().max(Binary32::from_bits(MICRO));
    let t = p.temperature.max(Binary32::zero());
    let v = m.dynamic_viscosity;
    let a = Mat2::isotropic(m.pressure_of(p, n).neg());
    let b = m.add_shear(a, &p);
    let d = Mat2::isotropic(m.shock_at(&p, j, t).neg());
    lemma_single_constants();
    lemma_finite_terms(b, d);
    lemma_finite_terms(a, shear_stress(v, c));
    lemma_sign_kept(a, shear_stress(v, c));
    lemma_sign_kept(d, b);
    lemma_sum_either_way(b, d);
    lemma_shear_sign(v, c);
}

} // verus!
