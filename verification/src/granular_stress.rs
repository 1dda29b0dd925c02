use vstd::prelude::*;

use crate::binary::around::Estimate;
use crate::binary::around::lemma_finite_parts;
use crate::binary::around::positive;
use crate::binary::around::weight;
use crate::binary::error::law_order_of_amounts;
use crate::binary::error::lemma_constant_amounts;
use crate::binary::single::Binary32;
use crate::binary::single::lemma_single_constants;
use crate::binary::single::two;
use crate::estimates::Tensor;
use crate::estimates::dashed;
use crate::estimates::law_dashpot_stress_resists;
use crate::estimates::lemma_finite_factors;
use crate::estimates::lemma_finite_terms;
use crate::estimates::lemma_nothing;
use crate::estimates::lemma_pressure;
use crate::estimates::lemma_product;
use crate::estimates::lemma_tensor_deviator;
use crate::estimates::lemma_tensor_looser;
use crate::estimates::lemma_tensor_plus;
use crate::estimates::pressing;
use crate::estimates::resembles;
use crate::fluid_flow::bulk;
use crate::fluid_flow::lemma_bulk;
use crate::granular_fluid::GranularFluidMaterial;
use crate::linalg::Mat2;
use crate::mechanics::MIN_J;
use crate::mechanics::dashpot_stress;
use crate::mechanics::polar_rotation;
use crate::numerics::Numerics;
use crate::particle::Particle;
use crate::solid_flow::bulged;
use crate::solid_flow::lemma_bulged;
use crate::solid_flow::lemma_on_the_diagonal;
use crate::solid_flow::lemma_unrotated;
use crate::solid_flow::on_the_diagonal;
use crate::solid_flow::unrotated;

verus! {

/// An entry of `2 mu h (F - R) F^T`.
pub open spec fn stretching(m: GranularFluidMaterial, p: Particle, i: int, j: int) -> real {
    let (f, r) = (p.deformation_gradient, polar_rotation(p.deformation_gradient));
    let k = 2real * (m.mu.amount() * p.hardening_scale.amount());
    ((f.at(i, 0) - r.at(i, 0)) * k) * f.at(j, 0) + ((f.at(i, 1) - r.at(i, 1)) * k) * f.at(j, 1)
}

/// The mean of the normal stresses: pressure pushes, the elastic volume term and bulk
/// viscosity resist a change of volume.
pub open spec fn mean_stress<N: Numerics>(m: GranularFluidMaterial, p: Particle, n: &N) -> real {
    let j = p.deformation_gradient.determinant().max(Binary32::from_bits(MIN_J));
    let c = p.velocity_gradient;
    ((m.lambda.amount() * p.hardening_scale.amount()) * (j.amount() - 1real)) * j.amount()
        + positive(m.bulk_viscosity.amount()) * (c.at(0, 0) + c.at(1, 1)) - m.pressure_at(
        j,
        n,
    ).amount()
}

/// The size of the terms of the stress.
pub open spec fn stress_scale<N: Numerics>(m: GranularFluidMaterial, p: Particle, n: &N) -> real {
    let (f, r) = (p.deformation_gradient, polar_rotation(p.deformation_gradient));
    let j = f.determinant().max(Binary32::from_bits(MIN_J));
    let c = p.velocity_gradient;
    let h = weight(p.hardening_scale);
    let w = ((f.weight() + r.weight()) * (2real * (weight(m.mu) * h))) * f.weight();
    weight(m.pressure_at(j, n)) + 3real * (w + w) + ((weight(m.lambda) * h) * (weight(j) + 1real))
        * weight(j) + weight(m.dynamic_viscosity) * (4real * c.weight()) + weight(m.bulk_viscosity)
        * (4real * c.weight())
}

/// A granular fluid resists distortion with the deviator of `2 mu h (F - R) F^T`, shearing with
/// its viscosity times the deviator of the strain rate, and carries the mean on every side.
pub proof fn law_granular_stress<N: Numerics>(m: GranularFluidMaterial, p: Particle, n: &N)
    requires
        m.stress(p, n).is_finite(),
        m.dynamic_viscosity.is_finite(),
        m.bulk_viscosity.is_finite(),
    ensures
        ({
            let c = p.velocity_gradient;
            let v = positive(m.dynamic_viscosity.amount());
            let mean = mean_stress(m, p, n);
            let d = (stretching(m, p, 0, 0) - stretching(m, p, 1, 1)) / 2real;
            resembles(
                m.stress(p, n),
                mean + d + v * ((c.at(0, 0) - c.at(1, 1)) / 2real),
                stretching(m, p, 0, 1) + v * ((c.at(0, 1) + c.at(1, 0)) / 2real),
                stretching(m, p, 1, 0) + v * ((c.at(0, 1) + c.at(1, 0)) / 2real),
                mean - d + v * ((c.at(1, 1) - c.at(0, 0)) / 2real),
                stress_scale(m, p, n),
                30real,
            )
        }),
{
    let f = p.deformation_gradient;
    let r = polar_rotation(f);
    let c = p.velocity_gradient;
    let z = Binary32::zero();
    let one = Binary32::one();
    let j = f.determinant().max(Binary32::from_bits(MIN_J));
    let pr = m.pressure_at(j, n);
    let (v, b) = (m.dynamic_viscosity, m.bulk_viscosity);
    let mh = m.mu.mul(p.hardening_scale);
    let lh = m.lambda.mul(p.hardening_scale);
    let stretched = f.sub(r).scale(two().mul(mh)).mul(f.transpose());
    let g = lh.mul(j.sub(one)).mul(j);
    let volume = Mat2::identity().scale(g);
    let base = m.elastic_stress(&p, j, pr);
    let viscous = if v.gt(z) {
        base.add(dashpot_stress(v, c))
    } else {
        base
    };
    lemma_single_constants();
    lemma_constant_amounts();
    law_order_of_amounts(z, v);
    law_order_of_amounts(z, b);
    lemma_finite_terms(viscous, bulk(b, c).got);
    lemma_finite_terms(base, dashpot_stress(v, c));
    let a = Mat2::isotropic(pr.neg());
    lemma_finite_terms(a.add(stretched.deviator()), volume);
    lemma_finite_terms(a, stretched.deviator());
    lemma_finite_factors(stretched, f, two().mul(mh));
    lemma_finite_factors(f.sub(r).scale(two().mul(mh)), f.transpose(), one);
    lemma_finite_factors(f.sub(r), f, two().mul(mh));
    lemma_finite_parts(two(), mh);
    lemma_finite_factors(Mat2::identity(), f, g);
    lemma_finite_parts(lh.mul(j.sub(one)), j);
    lemma_finite_parts(lh, j.sub(one));
    lemma_product(m.mu, p.hardening_scale);
    lemma_product(m.lambda, p.hardening_scale);
    let em = Estimate::of(m.mu).times(Estimate::of(p.hardening_scale));
    let el = Estimate::of(m.lambda).times(Estimate::of(p.hardening_scale));
    lemma_pressure(pr);
    lemma_unrotated(em, f, r);
    let t0 = unrotated(em, f, r);
    lemma_tensor_deviator(t0);
    lemma_bulged(el, j);
    lemma_on_the_diagonal(bulged(el, j));
    let t1 = pressing(pr).plus(t0.deviator());
    lemma_tensor_plus(pressing(pr), t0.deviator());
    let t2 = t1.plus(on_the_diagonal(bulged(el, j)));
    lemma_tensor_plus(t1, on_the_diagonal(bulged(el, j)));
    lemma_elastic_entries(m, p, n, t0, t2);
    let wv = weight(v) * (4real * c.weight());
    let wb = weight(b) * (4real * c.weight());
    lemma_weighed(weight(v), 4real * c.weight());
    lemma_weighed(weight(b), 4real * c.weight());
    let t3 = if v.gt(z) {
        t2.plus(dashed(v, c))
    } else {
        Tensor { scale: t2.scale + wv, parts: 26real, ..t2 }
    };
    if v.gt(z) {
        law_dashpot_stress_resists(v, c);
        lemma_tensor_plus(t2, dashed(v, c));
    } else {
        lemma_nothing((c.at(0, 0) - c.at(1, 1)) / 2real);
        lemma_nothing((c.at(0, 1) + c.at(1, 0)) / 2real);
        lemma_nothing((c.at(1, 1) - c.at(0, 0)) / 2real);
        lemma_tensor_looser(t2, t2.scale + wv, 26real);
    }
    if b.gt(z) {
        lemma_bulk(b, c);
        lemma_tensor_plus(t3, bulk(b, c));
        lemma_tensor_looser(t3.plus(bulk(b, c)), stress_scale(m, p, n), 30real);
    } else {
        lemma_nothing(c.at(0, 0) + c.at(1, 1));
        lemma_tensor_looser(t3, stress_scale(m, p, n), 30real);
    }
}

/// A product of weights.
proof fn lemma_weighed(x: real, y: real)
    requires
        x >= 1real,
        y >= 1real,
    ensures
        x * y >= 1real,
{
    assert(x * y >= 1real) by (nonlinear_arith)
        requires
            x >= 1real,
            y >= 1real,
    ;
}

/// The entries of the elastic part.
proof fn lemma_elastic_entries<N: Numerics>(
    m: GranularFluidMaterial,
    p: Particle,
    n: &N,
    t0: Tensor,
    t2: Tensor,
)
    requires
        ({
            let f = p.deformation_gradient;
            let j = f.determinant().max(Binary32::from_bits(MIN_J));
            let h = Estimate::of(p.hardening_scale);
            let el = Estimate::of(m.lambda).times(h);
            &&& t0 == unrotated(Estimate::of(m.mu).times(h), f, polar_rotation(f))
            &&& t2 == pressing(m.pressure_at(j, n)).plus(t0.deviator()).plus(
                on_the_diagonal(bulged(el, j)),
            )
            &&& on_the_diagonal(bulged(el, j)).xx == bulged(el, j).exact
            &&& on_the_diagonal(bulged(el, j)).yy == bulged(el, j).exact
            &&& on_the_diagonal(bulged(el, j)).xy == 0real
            &&& on_the_diagonal(bulged(el, j)).yx == 0real
            &&& on_the_diagonal(bulged(el, j)).scale == bulged(el, j).scale
            &&& on_the_diagonal(bulged(el, j)).parts == bulged(el, j).parts + 2real
        }),
    ensures
        ({
            let f = p.deformation_gradient;
            let j = f.determinant().max(Binary32::from_bits(MIN_J));
            let d = (stretching(m, p, 0, 0) - stretching(m, p, 1, 1)) / 2real;
            let push = ((m.lambda.amount() * p.hardening_scale.amount()) * (j.amount() - 1real))
                * j.amount() - m.pressure_at(j, n).amount();
            let c = p.velocity_gradient;
            &&& t2.xx == push + d
            &&& t2.yy == push - d
            &&& t2.xy == stretching(m, p, 0, 1)
            &&& t2.yx == stretching(m, p, 1, 0)
            &&& t2.parts <= 26real
            &&& t2.scale + weight(m.dynamic_viscosity) * (4real * c.weight()) + weight(
                m.bulk_viscosity,
            ) * (4real * c.weight()) == stress_scale(m, p, n)
        }),
{
    assert(t0.xx == stretching(m, p, 0, 0));
    assert(t0.yy == stretching(m, p, 1, 1));
    assert(t0.xy == stretching(m, p, 0, 1));
    assert(t0.yx == stretching(m, p, 1, 0));
}

} // verus!
