use vstd::prelude::*;

use crate::binary::around::Estimate;
use crate::binary::around::law_quotient_multiplies_back;
use crate::binary::around::lemma_around_size;
use crate::binary::around::lemma_finite_parts;
use crate::binary::around::lemma_halved;
use crate::binary::around::lemma_looser;
use crate::binary::around::lemma_minus;
use crate::binary::around::lemma_of;
use crate::binary::around::lemma_plus;
use crate::binary::around::lemma_times;
use crate::binary::around::lemma_units;
use crate::binary::around::positive;
use crate::binary::around::weight;
use crate::binary::error::law_order_of_amounts;
use crate::binary::error::law_sum_is_near;
use crate::binary::error::lemma_constant_amounts;
use crate::binary::error::near;
use crate::binary::error::off;
use crate::binary::error::size;
use crate::binary::relative::dust;
use crate::binary::relative::lemma_dust;
use crate::binary::roots::law_root_is_near;
use crate::binary::single::Binary32;
use crate::binary::single::half;
use crate::binary::single::lemma_single_constants;
use crate::binary::single::two;
use crate::bingham::BinghamFluidMaterial;
use crate::estimates::Tensor;
use crate::estimates::dashed;
use crate::estimates::estimate;
use crate::estimates::law_dashpot_stress_resists;
use crate::estimates::lemma_dashpot_sign;
use crate::estimates::lemma_finite_terms;
use crate::estimates::lemma_pressure;
use crate::estimates::lemma_product;
use crate::estimates::lemma_sign_kept;
use crate::estimates::lemma_sum_either_way;
use crate::estimates::lemma_tensor_isotropic;
use crate::estimates::lemma_tensor_looser;
use crate::estimates::lemma_tensor_plus;
use crate::estimates::pressing;
use crate::estimates::resembles;
use crate::linalg::Mat2;
use crate::numerics::Numerics;
use crate::particle::Particle;

verus! {

/// The viscosity with which the fluid resists a velocity gradient: none below the critical
/// shear rate.
pub open spec fn resistance(m: BinghamFluidMaterial, c: Mat2) -> Binary32 {
    let rate = BinghamFluidMaterial::shear_rate(BinghamFluidMaterial::strain_rate_deviator(c));
    if rate.lt(m.critical_shear_rate) {
        Binary32::zero()
    } else {
        m.apparent_viscosity(rate)
    }
}

/// The deviatoric part is the resistance times the deviator of the strain rate.
proof fn lemma_deviatoric(m: BinghamFluidMaterial, c: Mat2)
    requires
        m.deviatoric_stress(c).is_finite(),
        c.is_finite(),
    ensures
        (Tensor {
            got: m.deviatoric_stress(c),
            ..dashed(resistance(m, c), c)
        }).holds(),
{
    let v = resistance(m, c);
    let t = Tensor { got: m.deviatoric_stress(c), ..dashed(v, c) };
    let rate = BinghamFluidMaterial::shear_rate(BinghamFluidMaterial::strain_rate_deviator(c));
    if rate.lt(m.critical_shear_rate) {
        lemma_units();
        lemma_constant_amounts();
        let z = Estimate::unit(Binary32::zero());
        lemma_tensor_isotropic(z);
        lemma_nothing((c.at(0, 0) - c.at(1, 1)) / 2real);
        lemma_nothing((c.at(0, 1) + c.at(1, 0)) / 2real);
        lemma_nothing((c.at(1, 1) - c.at(0, 0)) / 2real);
        assert(t.scale == 4real * c.weight()) by (nonlinear_arith)
            requires
                t.scale == weight(v) * (4real * c.weight()),
                weight(v) == 1real,
        ;
        lemma_tensor_looser(Tensor::isotropic(z), t.scale, 12real);
    } else {
        law_dashpot_stress_resists(v, c);
    }
}

/// Nothing times a number.
proof fn lemma_nothing(x: real)
    ensures
        0real * x == 0real,
        x * 0real == 0real,
{
    assert(0real * x == 0real) by (nonlinear_arith);
    assert(x * 0real == 0real) by (nonlinear_arith);
}

/// Surface tension is its coefficient times the volume ratio, on the diagonal.
proof fn lemma_surface(m: BinghamFluidMaterial, p: Particle)
    requires
        m.surface_stress(&p).is_finite(),
        m.surface_tension_coeff.is_finite(),
    ensures
        surface(m, p).holds(),
{
    let s = m.surface_tension_coeff;
    let j = p.deformation_gradient.determinant();
    lemma_units();
    lemma_constant_amounts();
    if s.eq(Binary32::zero()) {
        law_order_of_amounts(s, Binary32::zero());
        lemma_nothing(j.amount());
        let z = Estimate::unit(Binary32::zero());
        lemma_tensor_isotropic(z);
        let w = weight(s) * weight(j);
        assert(1real <= w) by (nonlinear_arith)
            requires
                w == weight(s) * weight(j),
                1real <= weight(s),
                1real <= weight(j),
        ;
        lemma_tensor_looser(Tensor::isotropic(z), w, 2real);
    } else {
        lemma_product(s, j);
        lemma_tensor_isotropic(Estimate::of(s).times(Estimate::of(j)));
    }
}

/// The stress of surface tension.
pub open spec fn surface(m: BinghamFluidMaterial, p: Particle) -> Tensor {
    let s = m.surface_tension_coeff;
    let j = p.deformation_gradient.determinant();
    Tensor {
        got: m.surface_stress(&p),
        xx: s.amount() * j.amount(),
        xy: 0real,
        yx: 0real,
        yy: s.amount() * j.amount(),
        scale: weight(s) * weight(j),
        parts: 2real,
    }
}

/// The bulk viscous stress.
pub open spec fn bulk(m: BinghamFluidMaterial, p: Particle) -> Tensor {
    let z = m.bulk_viscosity;
    let c = p.velocity_gradient;
    let x = positive(z.amount()) * (c.at(0, 0) + c.at(1, 1));
    Tensor {
        got: m.bulk_stress(&p),
        xx: x,
        xy: 0real,
        yx: 0real,
        yy: x,
        scale: weight(z) * c.weight(),
        parts: 4real,
    }
}

/// Bulk viscosity resists a change of volume: its coefficient times the divergence.
proof fn lemma_bulk(m: BinghamFluidMaterial, p: Particle)
    requires
        m.bulk_stress(&p).is_finite(),
        m.bulk_viscosity.is_finite(),
    ensures
        bulk(m, p).holds(),
{
    let v = m.bulk_viscosity;
    let c = p.velocity_gradient;
    lemma_units();
    lemma_constant_amounts();
    lemma_single_constants();
    law_order_of_amounts(Binary32::zero(), v);
    let w = weight(v) * c.weight();
    assert(1real <= w) by (nonlinear_arith)
        requires
            w == weight(v) * c.weight(),
            1real <= weight(v),
            1real <= c.weight(),
    ;
    if v.gt(Binary32::zero()) {
        lemma_finite_parts(v, c.trace());
        lemma_finite_parts(c.x_axis.x, c.y_axis.y);
        lemma_of(v);
        lemma_of(c.x_axis.x);
        lemma_of(c.y_axis.y);
        let t = Estimate::of(c.x_axis.x).plus(Estimate::of(c.y_axis.y));
        lemma_plus(Estimate::of(c.x_axis.x), Estimate::of(c.y_axis.y));
        let e = Estimate::of(v).times(t);
        lemma_times(Estimate::of(v), t);
        assert(weight(v) * t.scale <= w) by (nonlinear_arith)
            requires
                w == weight(v) * c.weight(),
                t.scale <= c.weight(),
                0real <= weight(v),
        ;
        lemma_tensor_isotropic(e);
        lemma_tensor_looser(Tensor::isotropic(e), w, 4real);
    } else {
        lemma_nothing(c.at(0, 0) + c.at(1, 1));
        let z = Estimate::unit(Binary32::zero());
        lemma_tensor_isotropic(z);
        lemma_tensor_looser(Tensor::isotropic(z), w, 4real);
    }
}

/// The mean of the normal stresses: pressure and artificial viscosity push, surface tension
/// pulls, and bulk viscosity resists the change of volume.
pub open spec fn mean_stress<N: Numerics>(m: BinghamFluidMaterial, p: Particle, n: &N) -> real {
    m.surface_tension_coeff.amount() * p.deformation_gradient.determinant().amount() + positive(
        m.bulk_viscosity.amount(),
    ) * (p.velocity_gradient.at(0, 0) + p.velocity_gradient.at(1, 1)) - m.pressure_of(
        p,
        n,
    ).amount() - m.shock_at(p, n).amount()
}

/// The size of the terms of the stress.
pub open spec fn stress_scale<N: Numerics>(m: BinghamFluidMaterial, p: Particle, n: &N) -> real {
    let c = p.velocity_gradient;
    weight(m.pressure_of(p, n)) + weight(resistance(m, c)) * (4real * c.weight()) + weight(
        m.surface_tension_coeff,
    ) * weight(p.deformation_gradient.determinant()) + weight(m.bulk_viscosity) * c.weight()
        + weight(m.shock_at(p, n))
}

/// The fluid resists shearing: the stress is its mean plus the resistance times the deviator
/// of the strain rate.
pub proof fn law_stress_resists_shearing<N: Numerics>(
    m: BinghamFluidMaterial,
    p: Particle,
    n: &N,
)
    requires
        m.stress(p, n).is_finite(),
        p.velocity_gradient.is_finite(),
        m.surface_tension_coeff.is_finite(),
        m.bulk_viscosity.is_finite(),
    ensures
        ({
            let c = p.velocity_gradient;
            let v = resistance(m, c).amount();
            let mean = mean_stress(m, p, n);
            resembles(
                m.stress(p, n),
                mean + v * ((c.at(0, 0) - c.at(1, 1)) / 2real),
                v * ((c.at(0, 1) + c.at(1, 0)) / 2real),
                v * ((c.at(0, 1) + c.at(1, 0)) / 2real),
                mean + v * ((c.at(1, 1) - c.at(0, 0)) / 2real),
                stress_scale(m, p, n),
                20real,
            )
        }),
{
    let c = p.velocity_gradient;
    let (pr, q) = (m.pressure_of(p, n), m.shock_at(p, n));
    let a = Mat2::isotropic(pr.neg());
    let b = a.add(m.deviatoric_stress(c));
    let d = b.add(m.surface_stress(&p));
    let e = d.add(m.bulk_stress(&p));
    let f = Mat2::isotropic(q.neg());
    lemma_finite_terms(e, f);
    lemma_finite_terms(d, m.bulk_stress(&p));
    lemma_finite_terms(b, m.surface_stress(&p));
    lemma_finite_terms(a, m.deviatoric_stress(c));
    lemma_pressure(pr);
    lemma_pressure(q);
    lemma_deviatoric(m, c);
    lemma_surface(m, p);
    lemma_bulk(m, p);
    let s = Tensor { got: m.deviatoric_stress(c), ..dashed(resistance(m, c), c) };
    let t = pressing(pr).plus(s);
    lemma_tensor_plus(pressing(pr), s);
    lemma_tensor_plus(t, surface(m, p));
    lemma_tensor_plus(t.plus(surface(m, p)), bulk(m, p));
    lemma_tensor_plus(t.plus(surface(m, p)).plus(bulk(m, p)), pressing(q));
}

/// The shear rate is the size of the deviator of the strain rate: its square is
/// `(C00 - C11)^2 + (C01 + C10)^2`.
pub proof fn law_shear_rate_measures_the_shear(c: Mat2)
    requires
        ({
            let rate = BinghamFluidMaterial::shear_rate(
                BinghamFluidMaterial::strain_rate_deviator(c),
            );
            rate.is_finite() && Binary32::zero().lt(rate)
        }),
    ensures
        ({
            let rate = BinghamFluidMaterial::shear_rate(
                BinghamFluidMaterial::strain_rate_deviator(c),
            ).amount();
            let d = c.at(0, 0) - c.at(1, 1);
            let e = c.at(0, 1) + c.at(1, 0);
            off(rate * rate, d * d + e * e) <= 32real * (128real * (c.weight() * c.weight()))
        }),
{
    let s = BinghamFluidMaterial::strain_rate_deviator(c);
    let (xx, xy, yy) = (s.x_axis.x, s.x_axis.y, s.y_axis.y);
    let sum = xx.mul(xx).add(yy.mul(yy)).add(two().mul(xy).mul(xy));
    let radicand = two().mul(sum);
    let rate = radicand.sqrt();
    lemma_positive_root(radicand);
    law_root_is_near(radicand);
    lemma_finite_parts(two(), sum);
    lemma_finite_parts(xx.mul(xx).add(yy.mul(yy)), two().mul(xy).mul(xy));
    lemma_finite_parts(xx.mul(xx), yy.mul(yy));
    lemma_finite_parts(xx, xx);
    lemma_finite_parts(yy, yy);
    lemma_finite_parts(two().mul(xy), xy);
    lemma_strain_rate(c);
    let w = 4real * c.weight();
    let d = (c.at(0, 0) - c.at(1, 1)) / 2real;
    let e = (c.at(0, 1) + c.at(1, 0)) / 2real;
    let ex = estimate(xx, d, w, 10real);
    let ey = estimate(yy, -d, w, 10real);
    let ez = estimate(xy, e, w, 10real);
    lemma_constant_amounts();
    let t = estimate(two(), 2real, 2real, 0real);
    assert(t.holds()) by {
        lemma_single_constants();
    }
    lemma_times(ex, ex);
    lemma_times(ey, ey);
    lemma_times(t, ez);
    lemma_times(t.times(ez), ez);
    let f = ex.times(ex).plus(ey.times(ey));
    lemma_plus(ex.times(ex), ey.times(ey));
    let g = t.times(ez).times(ez);
    lemma_plus(f, g);
    lemma_times(t, f.plus(g));
    let h = t.times(f.plus(g));
    let (dd, ee, ww) = (d * d, e * e, w * w);
    assert((-d) * (-d) == dd && (2real * e) * e == 2real * ee && (2real * w) * w == 2real * ww)
        by (nonlinear_arith)
        requires
            dd == d * d,
            ee == e * e,
            ww == w * w,
    ;
    assert(h.exact == 4real * dd + 4real * ee);
    assert(h.scale == 8real * ww);
    let (u, v) = (2real * d, 2real * e);
    assert(u * u == 4real * dd && v * v == 4real * ee) by (nonlinear_arith)
        requires
            u == 2real * d,
            v == 2real * e,
            dd == d * d,
            ee == e * e,
    ;
    let cw = c.weight();
    assert(ww == 16real * (cw * cw)) by (nonlinear_arith)
        requires
            w == 4real * cw,
            ww == w * w,
    ;
    lemma_around_size(radicand, h.exact, h.scale, h.parts);
    let hs = h.scale;
    assert(h.parts * hs <= 28real * hs) by (nonlinear_arith)
        requires
            h.parts <= 28real,
            hs >= 0real,
    ;
}

/// A positive finite root is that of a positive finite number.
proof fn lemma_positive_root(a: Binary32)
    requires
        a.sqrt().is_finite(),
        Binary32::zero().lt(a.sqrt()),
    ensures
        a.is_finite(),
        a.gt(Binary32::zero()),
{
    reveal(Binary32::spec_sqrt);
    lemma_single_constants();
}

/// The entries of the deviator of the strain rate.
proof fn lemma_strain_rate(c: Mat2)
    requires
        BinghamFluidMaterial::strain_rate_deviator(c).x_axis.x.is_finite(),
        BinghamFluidMaterial::strain_rate_deviator(c).x_axis.y.is_finite(),
        BinghamFluidMaterial::strain_rate_deviator(c).y_axis.y.is_finite(),
    ensures
        ({
            let s = BinghamFluidMaterial::strain_rate_deviator(c);
            let w = 4real * c.weight();
            let d = (c.at(0, 0) - c.at(1, 1)) / 2real;
            let e = (c.at(0, 1) + c.at(1, 0)) / 2real;
            &&& estimate(s.x_axis.x, d, w, 10real).holds()
            &&& estimate(s.y_axis.y, -d, w, 10real).holds()
            &&& estimate(s.x_axis.y, e, w, 10real).holds()
        }),
{
    let h = c.symmetrised().scale(half());
    let s = h.deviator();
    let z = Binary32::zero();
    lemma_finite_parts(h.x_axis.x, h.trace().mul(half()));
    lemma_finite_parts(h.y_axis.y, h.trace().mul(half()));
    lemma_finite_parts(h.x_axis.y, z);
    lemma_finite_parts(h.trace(), half());
    lemma_finite_parts(c.x_axis.x.add(c.x_axis.x), half());
    lemma_finite_parts(c.y_axis.y.add(c.y_axis.y), half());
    lemma_finite_parts(c.x_axis.y.add(c.y_axis.x), half());
    lemma_finite_parts(c.x_axis.x, c.x_axis.x);
    lemma_finite_parts(c.y_axis.y, c.y_axis.y);
    lemma_finite_parts(c.x_axis.y, c.y_axis.x);
    lemma_of(c.x_axis.x);
    lemma_of(c.x_axis.y);
    lemma_of(c.y_axis.x);
    lemma_of(c.y_axis.y);
    let (xx, xy) = (Estimate::of(c.x_axis.x), Estimate::of(c.x_axis.y));
    let (yx, yy) = (Estimate::of(c.y_axis.x), Estimate::of(c.y_axis.y));
    lemma_plus(xx, xx);
    lemma_plus(yy, yy);
    lemma_plus(xy, yx);
    lemma_halved(xx.plus(xx));
    lemma_halved(yy.plus(yy));
    lemma_halved(xy.plus(yx));
    let (hx, hy) = (xx.plus(xx).halved(), yy.plus(yy).halved());
    lemma_plus(hx, hy);
    lemma_halved(hx.plus(hy));
    lemma_minus(hx, hx.plus(hy).halved());
    lemma_minus(hy, hx.plus(hy).halved());
    lemma_units();
    lemma_minus(xy.plus(yx).halved(), Estimate::unit(z));
    lemma_looser(hx.minus(hx.plus(hy).halved()), 4real * c.weight(), 10real);
    lemma_looser(hy.minus(hx.plus(hy).halved()), 4real * c.weight(), 10real);
    lemma_looser(xy.plus(yx).halved().minus(Estimate::unit(z)), 4real * c.weight(), 10real);
}

/// The resisting stress is the yield stress plus the viscous one: the apparent viscosity times
/// the shear rate is the yield stress plus the dynamic viscosity times the shear rate.
pub proof fn law_apparent_viscosity_carries_the_yield_stress(
    m: BinghamFluidMaterial,
    rate: Binary32,
)
    requires
        rate.is_finite(),
        Binary32::zero().lt(rate),
        m.yield_stress.is_finite(),
        m.apparent_viscosity(rate).is_finite(),
    ensures
        ({
            let g = rate.amount();
            let y = m.yield_stress.amount();
            let e = m.dynamic_viscosity.amount();
            off(m.apparent_viscosity(rate).amount() * g, y + e * g) <= 4real * (size(y) + size(e)
                * g) + dust() * (2real * g)
        }),
{
    let q = m.yield_stress.div(rate);
    lemma_finite_parts(q, m.dynamic_viscosity);
    lemma_constant_amounts();
    lemma_single_constants();
    law_order_of_amounts(Binary32::zero(), rate);
    law_quotient_multiplies_back(m.yield_stress, rate);
    law_sum_is_near(q, m.dynamic_viscosity);
    lemma_dust();
    lemma_apparent(
        m.apparent_viscosity(rate).amount(),
        q.amount(),
        m.dynamic_viscosity.amount(),
        rate.amount(),
        m.yield_stress.amount(),
    );
}

proof fn lemma_apparent(v: real, q: real, e: real, g: real, y: real)
    requires
        near(v, q + e),
        off(q * g, y) <= size(y) + dust() * g,
        g > 0real,
        dust() > 0real,
    ensures
        off(v * g, y + e * g) <= 4real * (size(y) + size(e) * g) + dust() * (2real * g),
{
    let d = v - (q + e);
    let (a, b) = (q * g, e * g);
    assert(v * g == a + b + d * g) by (nonlinear_arith)
        requires
            d == v - (q + e),
            a == q * g,
            b == e * g,
    ;
    let u = size(d);
    assert(size(d * g) == u * g && size(b) == size(e) * g && size(a) == size(q) * g)
        by (nonlinear_arith)
        requires
            u == size(d),
            a == q * g,
            b == e * g,
            g > 0real,
    ;
    assert(8388608real * (u * g) <= size(a) + size(b)) by (nonlinear_arith)
        requires
            8388608real * u <= size(q) + size(e),
            size(a) == size(q) * g,
            size(b) == size(e) * g,
            g > 0real,
    ;
    assert(dust() * (2real * g) == 2real * (dust() * g)) by (nonlinear_arith);
    assert(dust() * g >= 0real) by (nonlinear_arith)
        requires
            dust() > 0real,
            g > 0real,
    ;
}

/// The fluid dissipates: the shear stress never opposes the shearing that it resists.
pub proof fn law_shear_stress_has_the_sign_of_the_shearing<N: Numerics>(
    m: BinghamFluidMaterial,
    p: Particle,
    n: &N,
)
    requires
        m.stress(p, n).is_finite(),
        p.velocity_gradient.symmetrised().is_finite(),
        resistance(m, p.velocity_gradient).bits < 0x8000_0000,
    ensures
        ({
            let shearing = p.velocity_gradient.x_axis.y.add(p.velocity_gradient.y_axis.x);
            let s = m.stress(p, n);
            &&& Binary32::zero().le(shearing) ==> Binary32::zero().le(s.x_axis.y)
                && Binary32::zero().le(s.y_axis.x)
            &&& shearing.le(Binary32::zero()) ==> s.x_axis.y.le(Binary32::zero())
                && s.y_axis.x.le(Binary32::zero())
        }),
{
    let c = p.velocity_gradient;
    let (pr, q) = (m.pressure_of(p, n), m.shock_at(p, n));
    let a = Mat2::isotropic(pr.neg());
    let t = m.deviatoric_stress(c);
    let b = a.add(t);
    let d = b.add(m.surface_stress(&p));
    let e = d.add(m.bulk_stress(&p));
    let f = Mat2::isotropic(q.neg());
    lemma_finite_terms(e, f);
    lemma_finite_terms(d, m.bulk_stress(&p));
    lemma_finite_terms(b, m.surface_stress(&p));
    lemma_finite_terms(a, t);
    lemma_sign_kept(a, t);
    lemma_sign_kept(m.surface_stress(&p), b);
    lemma_sign_kept(m.bulk_stress(&p), d);
    lemma_sign_kept(f, e);
    lemma_sum_either_way(b, m.surface_stress(&p));
    lemma_sum_either_way(d, m.bulk_stress(&p));
    lemma_sum_either_way(e, f);
    let v = resistance(m, c);
    let rate = BinghamFluidMaterial::shear_rate(BinghamFluidMaterial::strain_rate_deviator(c));
    lemma_single_constants();
    if !rate.lt(m.critical_shear_rate) {
        lemma_dashpot_sign(v, c);
    }
}

} // verus!
