use vstd::prelude::*;

use crate::binary::around::Estimate;
use crate::binary::around::around;
use crate::binary::around::law_quotient_multiplies_back;
use crate::binary::around::lemma_finite_parts;
use crate::binary::around::lemma_halved;
use crate::binary::around::lemma_looser;
use crate::binary::around::lemma_minus;
use crate::binary::around::lemma_of;
use crate::binary::around::lemma_opposite;
use crate::binary::around::lemma_plus;
use crate::binary::around::lemma_times;
use crate::binary::around::lemma_units;
use crate::binary::around::weight;
use crate::binary::error::law_order_of_amounts;
use crate::binary::error::lemma_constant_amounts;
use crate::binary::error::off;
use crate::binary::error::size;
use crate::binary::relative::dust;
use crate::binary::single::Binary32;
use crate::binary::single::half;
use crate::binary::single::lemma_single_constants;
use crate::binary::single::two;
use crate::corotated::CorotatedMaterial;
use crate::corotated::corotated_stress;
use crate::elastic::NeoHookeanMaterial;
use crate::elastic::neo_hookean_stress;
use crate::estimates::Tensor;
use crate::estimates::dashed;
use crate::estimates::estimate;
use crate::estimates::law_dashpot_stress_resists;
use crate::estimates::law_explicit_step_follows_the_flow;
use crate::estimates::lemma_finite_factors;
use crate::estimates::lemma_finite_terms;
use crate::estimates::lemma_nothing;
use crate::estimates::lemma_product;
use crate::estimates::lemma_tensor_deviator;
use crate::estimates::lemma_tensor_isotropic;
use crate::estimates::lemma_tensor_looser;
use crate::estimates::lemma_tensor_minus;
use crate::estimates::lemma_tensor_of;
use crate::estimates::lemma_tensor_plus;
use crate::estimates::lemma_tensor_scaled;
use crate::estimates::lemma_tensor_times;
use crate::estimates::moved;
use crate::estimates::moved_scale;
use crate::estimates::resembles;
use crate::linalg::Mat2;
use crate::mechanics::MIN_J;
use crate::mechanics::dashpot_stress;
use crate::mechanics::polar_rotation;
use crate::mechanics::with_deformation;
use crate::model::Response;
use crate::nacc::NaccMaterial;
use crate::no_compression::NoCompressionMaterial;
use crate::numerics::Numerics;
use crate::numerics::Unary;
use crate::particle::Particle;

verus! {

/// The entries of `F F^T`.
pub open spec fn left_stretch(f: Mat2, i: int, j: int) -> real {
    f.at(i, 0) * f.at(j, 0) + f.at(i, 1) * f.at(j, 1)
}

/// A number times the identity, as a product with it.
pub open spec fn on_the_diagonal(e: Estimate) -> Tensor {
    Tensor::isotropic(estimate(Binary32::one(), 1real, 1real, 0real)).scaled(e)
}

/// A number times the identity.
pub proof fn lemma_on_the_diagonal(e: Estimate)
    requires
        e.holds(),
        e.parts <= 380real,
        Mat2::identity().scale(e.got).is_finite(),
    ensures
        on_the_diagonal(e).holds(),
        on_the_diagonal(e).xx == e.exact && on_the_diagonal(e).yy == e.exact,
        on_the_diagonal(e).xy == 0real && on_the_diagonal(e).yx == 0real,
        on_the_diagonal(e).scale == e.scale,
        on_the_diagonal(e).parts == e.parts + 2real,
{
    let (x, y) = (e.exact, e.scale);
    assert(1real * x == x && 0real * x == 0real && 1real * y == y) by (nonlinear_arith);
    lemma_constant_amounts();
    lemma_single_constants();
    lemma_tensor_isotropic(estimate(Binary32::one(), 1real, 1real, 0real));
    lemma_tensor_scaled(Tensor::isotropic(estimate(Binary32::one(), 1real, 1real, 0real)), e);
}

/// `(mu / J) dev(F F^T)`.
pub open spec fn distortion(mu: Binary32, j: Binary32, f: Mat2) -> Tensor {
    Tensor::of(f).times(Tensor::of(f).transposed()).deviator().scaled(Estimate::of(mu.div(j)))
}

/// The distortional part of an elastic stress.
pub proof fn lemma_distortion(mu: Binary32, j: Binary32, f: Mat2)
    requires
        f.mul(f.transpose()).deviator().scale(mu.div(j)).is_finite(),
    ensures
        distortion(mu, j, f).holds(),
        mu.div(j).is_finite(),
{
    let b = f.mul(f.transpose());
    lemma_finite_factors(b.deviator(), b, mu.div(j));
    lemma_finite_factors(b, b, mu.div(j));
    lemma_finite_factors(f, f.transpose(), mu.div(j));
    lemma_tensor_of(f);
    lemma_of(mu.div(j));
    let t = Tensor::of(f).times(Tensor::of(f).transposed());
    lemma_tensor_times(Tensor::of(f), Tensor::of(f).transposed());
    lemma_tensor_deviator(t);
    lemma_tensor_scaled(t.deviator(), Estimate::of(mu.div(j)));
}

/// A Neo-Hookean solid resists distortion with `(mu / J) dev(F F^T)` and a change of volume
/// with `(lambda + mu) ln(J)`.
pub proof fn law_neo_hookean_stress(
    mu: Binary32,
    lambda: Binary32,
    f: Mat2,
    j: Binary32,
    ln_j: Binary32,
)
    requires
        neo_hookean_stress(mu, lambda, f, j, ln_j).is_finite(),
    ensures
        neo_hookean(mu, lambda, f, j, ln_j).holds(),
        mu.is_finite() && j.is_finite() && j.amount() != 0real ==> off(
            mu.div(j).amount() * j.amount(),
            mu.amount(),
        ) <= size(mu.amount()) + dust() * size(j.amount()),
{
    let k = lambda.add(mu);
    let e = k.mul(ln_j);
    let a = f.mul(f.transpose()).deviator().scale(mu.div(j));
    lemma_finite_terms(a, Mat2::identity().scale(e));
    lemma_finite_factors(Mat2::identity(), f, e);
    lemma_finite_parts(k, ln_j);
    lemma_finite_parts(lambda, mu);
    lemma_of(lambda);
    lemma_of(mu);
    lemma_of(ln_j);
    lemma_distortion(mu, j, f);
    lemma_plus(Estimate::of(lambda), Estimate::of(mu));
    let s = Estimate::of(lambda).plus(Estimate::of(mu));
    lemma_times(s, Estimate::of(ln_j));
    lemma_on_the_diagonal(s.times(Estimate::of(ln_j)));
    let (t, u) = (distortion(mu, j, f), on_the_diagonal(s.times(Estimate::of(ln_j))));
    lemma_tensor_plus(t, u);
    lemma_tensor_looser(t.plus(u), t.plus(u).scale, 14real);
    if mu.is_finite() && j.is_finite() && j.amount() != 0real {
        law_quotient_multiplies_back(mu, j);
    }
}

/// The Neo-Hookean stress in the real numbers.
pub open spec fn neo_hookean(
    mu: Binary32,
    lambda: Binary32,
    f: Mat2,
    j: Binary32,
    ln_j: Binary32,
) -> Tensor {
    let k = mu.div(j).amount();
    let push = (lambda.amount() + mu.amount()) * ln_j.amount();
    let w = f.weight();
    Tensor {
        got: neo_hookean_stress(mu, lambda, f, j, ln_j),
        xx: ((left_stretch(f, 0, 0) - left_stretch(f, 1, 1)) / 2real) * k + push,
        xy: left_stretch(f, 0, 1) * k,
        yx: left_stretch(f, 1, 0) * k,
        yy: ((left_stretch(f, 1, 1) - left_stretch(f, 0, 0)) / 2real) * k + push,
        scale: (3real * (w * w + w * w)) * weight(mu.div(j)) + (weight(lambda) + weight(mu)) * weight(
            ln_j,
        ),
        parts: 14real,
    }
}

/// A Neo-Hookean solid under its moduli at its temperature and damage, with a dashpot; none of
/// it once it is crushed.
pub proof fn law_neo_hookean_solid<N: Numerics>(m: NeoHookeanMaterial, p: Particle, n: &N)
    requires
        m.stress(p, n).is_finite(),
        m.viscosity.is_finite(),
    ensures
        ({
            let f = p.deformation_gradient;
            let c = p.velocity_gradient;
            let j = f.determinant();
            let e = neo_hookean(
                m.effective(m.mu, p, n),
                m.effective(m.lambda, p, n),
                f,
                j,
                n.unary_of(Unary::Ln, j),
            );
            let v = m.viscosity.amount();
            let scale = e.scale + weight(m.viscosity) * (4real * c.weight());
            if j.le(Binary32::from_bits(MIN_J)) {
                m.stress(p, n) == Mat2::zero()
            } else if m.viscosity.gt(Binary32::zero()) {
                resembles(
                    m.stress(p, n),
                    e.xx + v * ((c.at(0, 0) - c.at(1, 1)) / 2real),
                    e.xy + v * ((c.at(0, 1) + c.at(1, 0)) / 2real),
                    e.yx + v * ((c.at(0, 1) + c.at(1, 0)) / 2real),
                    e.yy + v * ((c.at(1, 1) - c.at(0, 0)) / 2real),
                    scale,
                    16real,
                )
            } else {
                resembles(m.stress(p, n), e.xx, e.xy, e.yx, e.yy, scale, 16real)
            }
        }),
{
    let f = p.deformation_gradient;
    let c = p.velocity_gradient;
    let j = f.determinant();
    let (mu, lambda) = (m.effective(m.mu, p, n), m.effective(m.lambda, p, n));
    let ln_j = n.unary_of(Unary::Ln, j);
    let v = m.viscosity;
    if !j.le(Binary32::from_bits(MIN_J)) {
        lemma_finite_terms(neo_hookean_stress(mu, lambda, f, j, ln_j), m.viscous_stress(&p));
        law_neo_hookean_stress(mu, lambda, f, j, ln_j);
        let e = neo_hookean(mu, lambda, f, j, ln_j);
        let w = weight(v) * (4real * c.weight());
        assert(w >= 4real) by (nonlinear_arith)
            requires
                w == weight(v) * (4real * c.weight()),
                weight(v) >= 1real,
                c.weight() >= 1real,
        ;
        if v.gt(Binary32::zero()) {
            law_dashpot_stress_resists(v, c);
            lemma_tensor_plus(e, dashed(v, c));
        } else {
            lemma_units();
            lemma_constant_amounts();
            let z = Estimate::unit(Binary32::zero());
            lemma_tensor_isotropic(z);
            lemma_tensor_plus(e, Tensor::isotropic(z));
            lemma_tensor_looser(e.plus(Tensor::isotropic(z)), e.scale + w, 16real);
        }
    }
}

/// Heat stiffens and damage softens: a modulus times `1 + a T` and the exponential of minus the
/// rate times the damage.
pub proof fn law_effective_modulus<N: Numerics>(
    m: NeoHookeanMaterial,
    modulus: Binary32,
    p: Particle,
    n: &N,
) -> (exponent: Binary32)
    requires
        m.effective(modulus, p, n).is_finite(),
        m.damage_softening_rate.neg().mul(p.friction_hardening).is_finite(),
    ensures
        around(
            exponent,
            -(m.damage_softening_rate.amount() * p.friction_hardening.amount()),
            weight(m.damage_softening_rate) * weight(p.friction_hardening),
            2real,
        ),
        around(
            m.effective(modulus, p, n),
            (modulus.amount() * (1real + m.thermal_expansion.amount() * p.temperature.amount()))
                * n.unary_of(Unary::Exp, exponent).amount(),
            (weight(modulus) * (1real + weight(m.thermal_expansion) * weight(p.temperature)))
                * weight(n.unary_of(Unary::Exp, exponent)),
            8real,
        ),
{
    let (r, d) = (m.damage_softening_rate, p.friction_hardening);
    let exponent = r.neg().mul(d);
    lemma_finite_parts(r.neg(), d);
    lemma_finite_parts(r, d);
    lemma_of(r);
    lemma_of(d);
    lemma_opposite(Estimate::of(r));
    lemma_times(Estimate::of(r).opposite(), Estimate::of(d));
    let (x, y) = (r.amount(), d.amount());
    assert((-x) * y == -(x * y)) by (nonlinear_arith);
    let (a, t) = (m.thermal_expansion, p.temperature);
    let s = Binary32::one().add(a.mul(t));
    let e = n.unary_of(Unary::Exp, exponent);
    lemma_finite_parts(modulus.mul(s), e);
    lemma_finite_parts(modulus, s);
    lemma_finite_parts(Binary32::one(), a.mul(t));
    lemma_product(a, t);
    lemma_units();
    lemma_of(modulus);
    lemma_of(e);
    let u = Estimate::unit(Binary32::one());
    let h = u.plus(Estimate::of(a).times(Estimate::of(t)));
    lemma_plus(u, Estimate::of(a).times(Estimate::of(t)));
    let g = Estimate::of(modulus).times(h);
    lemma_times(Estimate::of(modulus), h);
    lemma_times(g, Estimate::of(e));
    lemma_looser(g.times(Estimate::of(e)), g.times(Estimate::of(e)).scale, 8real);
    exponent
}

/// `2 mu (F - R) F^T`.
pub open spec fn unrotated(mu: Estimate, f: Mat2, rotation: Mat2) -> Tensor {
    Tensor::of(f).minus(Tensor::of(rotation)).scaled(
        estimate(two(), 2real, 2real, 0real).times(mu),
    ).times(Tensor::of(f).transposed())
}

/// The part of a corotated stress that resists stretching.
pub proof fn lemma_unrotated(mu: Estimate, f: Mat2, rotation: Mat2)
    requires
        mu.holds(),
        mu.parts <= 100real,
        f.sub(rotation).scale(two().mul(mu.got)).mul(f.transpose()).is_finite(),
    ensures
        unrotated(mu, f, rotation).holds(),
{
    let a = f.sub(rotation);
    let k = two().mul(mu.got);
    lemma_finite_factors(a.scale(k), f.transpose(), k);
    lemma_finite_factors(a, f, k);
    lemma_finite_terms(f, rotation);
    lemma_tensor_of(f);
    lemma_tensor_of(rotation);
    lemma_constant_amounts();
    lemma_single_constants();
    let w = estimate(two(), 2real, 2real, 0real);
    lemma_times(w, mu);
    let d = Tensor::of(f).minus(Tensor::of(rotation));
    lemma_tensor_minus(Tensor::of(f), Tensor::of(rotation));
    lemma_tensor_scaled(d, w.times(mu));
    lemma_tensor_times(d.scaled(w.times(mu)), Tensor::of(f).transposed());
}

/// `lambda (J - 1) J`.
pub open spec fn bulged(lambda: Estimate, j: Binary32) -> Estimate {
    lambda.times(
        Estimate::of(j).minus(estimate(Binary32::one(), 1real, 1real, 0real)),
    ).times(Estimate::of(j))
}

/// The part of a corotated stress that resists a change of volume.
pub proof fn lemma_bulged(lambda: Estimate, j: Binary32)
    requires
        lambda.holds(),
        lambda.parts <= 100real,
        lambda.got.mul(j.sub(Binary32::one())).mul(j).is_finite(),
    ensures
        bulged(lambda, j).holds(),
{
    let d = j.sub(Binary32::one());
    lemma_finite_parts(lambda.got.mul(d), j);
    lemma_finite_parts(lambda.got, d);
    lemma_finite_parts(j, Binary32::one());
    lemma_of(j);
    lemma_constant_amounts();
    lemma_single_constants();
    let u = estimate(Binary32::one(), 1real, 1real, 0real);
    lemma_minus(Estimate::of(j), u);
    lemma_times(lambda, Estimate::of(j).minus(u));
    lemma_times(lambda.times(Estimate::of(j).minus(u)), Estimate::of(j));
}

/// A corotated solid resists stretching with `2 mu (F - R) F^T` and a change of volume with
/// `lambda (J - 1) J`.
pub proof fn law_corotated_stress(
    mu: Binary32,
    lambda: Binary32,
    f: Mat2,
    rotation: Mat2,
    j: Binary32,
)
    requires
        corotated_stress(mu, lambda, f, rotation, j).is_finite(),
    ensures
        corotated(mu, lambda, f, rotation, j).holds(),
{
    let e = lambda.mul(j.sub(Binary32::one())).mul(j);
    let a = f.sub(rotation).scale(two().mul(mu)).mul(f.transpose());
    lemma_finite_terms(a, Mat2::identity().scale(e));
    lemma_finite_factors(Mat2::identity(), f, e);
    lemma_finite_factors(f.sub(rotation).scale(two().mul(mu)), f.transpose(), e);
    lemma_finite_factors(f.sub(rotation), f, two().mul(mu));
    lemma_finite_parts(two(), mu);
    lemma_finite_parts(lambda.mul(j.sub(Binary32::one())), j);
    lemma_finite_parts(lambda, j.sub(Binary32::one()));
    lemma_of(mu);
    lemma_of(lambda);
    lemma_unrotated(Estimate::of(mu), f, rotation);
    lemma_bulged(Estimate::of(lambda), j);
    let (t, u) = (unrotated(Estimate::of(mu), f, rotation), on_the_diagonal(
        bulged(Estimate::of(lambda), j),
    ));
    lemma_on_the_diagonal(bulged(Estimate::of(lambda), j));
    lemma_tensor_plus(t, u);
    lemma_tensor_looser(t.plus(u), t.plus(u).scale, 14real);
    let c = corotated(mu, lambda, f, rotation, j);
    assert(t.plus(u).xx == c.xx && t.plus(u).yy == c.yy);
    assert(t.plus(u).xy == c.xy && t.plus(u).yx == c.yx);
    assert(t.plus(u).scale == c.scale);
}

/// The corotated stress in the real numbers.
pub open spec fn corotated(
    mu: Binary32,
    lambda: Binary32,
    f: Mat2,
    r: Mat2,
    j: Binary32,
) -> Tensor {
    let k = 2real * mu.amount();
    let push = (lambda.amount() * (j.amount() - 1real)) * j.amount();
    let w = ((f.weight() + r.weight()) * (2real * weight(mu))) * f.weight();
    Tensor {
        got: corotated_stress(mu, lambda, f, r, j),
        xx: ((f.at(0, 0) - r.at(0, 0)) * k) * f.at(0, 0) + ((f.at(0, 1) - r.at(0, 1)) * k) * f.at(
            0,
            1,
        ) + push,
        xy: ((f.at(0, 0) - r.at(0, 0)) * k) * f.at(1, 0) + ((f.at(0, 1) - r.at(0, 1)) * k) * f.at(
            1,
            1,
        ),
        yx: ((f.at(1, 0) - r.at(1, 0)) * k) * f.at(0, 0) + ((f.at(1, 1) - r.at(1, 1)) * k) * f.at(
            0,
            1,
        ),
        yy: ((f.at(1, 0) - r.at(1, 0)) * k) * f.at(1, 0) + ((f.at(1, 1) - r.at(1, 1)) * k) * f.at(
            1,
            1,
        ) + push,
        scale: (w + w) + (weight(lambda) * (weight(j) + 1real)) * weight(j),
        parts: 14real,
    }
}

/// A corotated solid at its hardening and temperature, with a dashpot.
pub proof fn law_corotated_solid(m: CorotatedMaterial, p: Particle)
    requires
        m.stress(p).is_finite(),
        m.elastic_viscosity.is_finite(),
    ensures
        ({
            let f = p.deformation_gradient;
            let c = p.velocity_gradient;
            let scale = Binary32::one().add(m.thermal_expansion.mul(p.temperature));
            let e = corotated(
                m.mu.mul(p.hardening_scale).mul(scale),
                m.lambda.mul(p.hardening_scale).mul(scale),
                f,
                polar_rotation(f),
                f.determinant().max(m.j_min),
            );
            let v = m.elastic_viscosity.amount();
            &&& resembles(
                m.stress(p),
                e.xx + v * ((c.at(0, 0) - c.at(1, 1)) / 2real),
                e.xy + v * ((c.at(0, 1) + c.at(1, 0)) / 2real),
                e.yx + v * ((c.at(0, 1) + c.at(1, 0)) / 2real),
                e.yy + v * ((c.at(1, 1) - c.at(0, 0)) / 2real),
                e.scale + weight(m.elastic_viscosity) * (4real * c.weight()),
                16real,
            )
            &&& around(
                scale,
                1real + m.thermal_expansion.amount() * p.temperature.amount(),
                1real + weight(m.thermal_expansion) * weight(p.temperature),
                4real,
            )
            &&& scaled_modulus(m.mu, p, scale)
            &&& scaled_modulus(m.lambda, p, scale)
        }),
{
    let f = p.deformation_gradient;
    let c = p.velocity_gradient;
    let s = m.thermal_scale(&p);
    let mu = m.mu.mul(p.hardening_scale).mul(s);
    let lambda = m.lambda.mul(p.hardening_scale).mul(s);
    let (r, j) = (polar_rotation(f), f.determinant().max(m.j_min));
    let v = m.elastic_viscosity;
    lemma_dashpotted(corotated_stress(mu, lambda, f, r, j), v, p);
    law_corotated_stress(mu, lambda, f, r, j);
    lemma_with_dashpot(corotated(mu, lambda, f, r, j), v, p);
    let d = j.sub(Binary32::one());
    let e = lambda.mul(d).mul(j);
    lemma_finite_terms(
        f.sub(r).scale(two().mul(mu)).mul(f.transpose()),
        Mat2::identity().scale(e),
    );
    lemma_finite_factors(Mat2::identity(), f, e);
    lemma_finite_factors(f.sub(r).scale(two().mul(mu)), f.transpose(), e);
    lemma_finite_factors(f.sub(r), f, two().mul(mu));
    lemma_finite_parts(two(), mu);
    lemma_finite_parts(lambda.mul(d), j);
    lemma_finite_parts(lambda, d);
    lemma_finite_parts(m.mu.mul(p.hardening_scale), s);
    lemma_finite_parts(m.lambda.mul(p.hardening_scale), s);
    lemma_finite_parts(Binary32::one(), m.thermal_expansion.mul(p.temperature));
    lemma_product(m.thermal_expansion, p.temperature);
    lemma_units();
    let u = Estimate::unit(Binary32::one());
    lemma_plus(u, Estimate::of(m.thermal_expansion).times(Estimate::of(p.temperature)));
    lemma_scaled_modulus(m.mu, p, s);
    lemma_scaled_modulus(m.lambda, p, s);
}

/// A modulus times the hardening of a particle and a thermal factor.
pub open spec fn scaled_modulus(modulus: Binary32, p: Particle, s: Binary32) -> bool {
    around(
        modulus.mul(p.hardening_scale).mul(s),
        (modulus.amount() * p.hardening_scale.amount()) * s.amount(),
        (weight(modulus) * weight(p.hardening_scale)) * weight(s),
        4real,
    )
}

proof fn lemma_scaled_modulus(modulus: Binary32, p: Particle, s: Binary32)
    requires
        modulus.mul(p.hardening_scale).mul(s).is_finite(),
    ensures
        scaled_modulus(modulus, p, s),
{
    lemma_finite_parts(modulus.mul(p.hardening_scale), s);
    lemma_product(modulus, p.hardening_scale);
    lemma_of(s);
    lemma_times(Estimate::of(modulus).times(Estimate::of(p.hardening_scale)), Estimate::of(s));
}

/// The stress of an elastic part and a dashpot that is there unless its viscosity is zero.
pub open spec fn with_dashpot(elastic: Mat2, v: Binary32, p: Particle) -> Mat2 {
    if v.eq(Binary32::zero()) {
        elastic
    } else {
        elastic.add(dashpot_stress(v, p.velocity_gradient))
    }
}

/// Both parts of a finite stress are finite.
pub proof fn lemma_dashpotted(elastic: Mat2, v: Binary32, p: Particle)
    requires
        with_dashpot(elastic, v, p).is_finite(),
    ensures
        elastic.is_finite(),
{
    lemma_finite_terms(elastic, dashpot_stress(v, p.velocity_gradient));
}

/// An elastic stress with a dashpot.
pub proof fn lemma_with_dashpot(e: Tensor, v: Binary32, p: Particle)
    requires
        e.holds(),
        e.parts == 14real,
        v.is_finite(),
        with_dashpot(e.got, v, p).is_finite(),
    ensures
        ({
            let c = p.velocity_gradient;
            resembles(
                with_dashpot(e.got, v, p),
                e.xx + v.amount() * ((c.at(0, 0) - c.at(1, 1)) / 2real),
                e.xy + v.amount() * ((c.at(0, 1) + c.at(1, 0)) / 2real),
                e.yx + v.amount() * ((c.at(0, 1) + c.at(1, 0)) / 2real),
                e.yy + v.amount() * ((c.at(1, 1) - c.at(0, 0)) / 2real),
                e.scale + weight(v) * (4real * c.weight()),
                16real,
            )
        }),
{
    let c = p.velocity_gradient;
    lemma_constant_amounts();
    lemma_single_constants();
    law_order_of_amounts(v, Binary32::zero());
    if v.eq(Binary32::zero()) {
        lemma_nothing((c.at(0, 0) - c.at(1, 1)) / 2real);
        lemma_nothing((c.at(0, 1) + c.at(1, 0)) / 2real);
        lemma_nothing((c.at(1, 1) - c.at(0, 0)) / 2real);
        let w = weight(v) * (4real * c.weight());
        assert(w >= 4real) by (nonlinear_arith)
            requires
                w == weight(v) * (4real * c.weight()),
                weight(v) >= 1real,
                c.weight() >= 1real,
        ;
        lemma_tensor_looser(e, e.scale + w, 16real);
    } else {
        lemma_finite_terms(e.got, dashpot_stress(v, c));
        law_dashpot_stress_resists(v, c);
        lemma_tensor_plus(e, dashed(v, c));
    }
}

/// A Cam-Clay soil resists distortion with `(mu / J) dev(F F^T)` and a change of volume with
/// `(kappa / 2) (J^2 - 1)`, and has a dashpot.
pub proof fn law_soil_stress(m: NaccMaterial, p: Particle)
    requires
        m.stress(p).is_finite(),
        m.elastic_viscosity.is_finite(),
    ensures
        ({
            let f = p.deformation_gradient;
            let c = p.velocity_gradient;
            let j = f.determinant().max(Binary32::from_bits(MIN_J));
            let k = m.mu.div(j).amount();
            let push = (m.kappa.amount() / 2real) * (j.amount() * j.amount() - 1real);
            let v = m.elastic_viscosity.amount();
            let w = f.weight();
            resembles(
                m.stress(p),
                ((left_stretch(f, 0, 0) - left_stretch(f, 1, 1)) / 2real) * k + push + v * ((c.at(
                    0,
                    0,
                ) - c.at(1, 1)) / 2real),
                left_stretch(f, 0, 1) * k + v * ((c.at(0, 1) + c.at(1, 0)) / 2real),
                left_stretch(f, 1, 0) * k + v * ((c.at(0, 1) + c.at(1, 0)) / 2real),
                ((left_stretch(f, 1, 1) - left_stretch(f, 0, 0)) / 2real) * k + push + v * ((c.at(
                    1,
                    1,
                ) - c.at(0, 0)) / 2real),
                (3real * (w * w + w * w)) * weight(m.mu.div(j)) + weight(m.kappa) * (weight(
                    j,
                ) * weight(j) + 1real) + weight(m.elastic_viscosity) * (4real * c.weight()),
                16real,
            )
        }),
{
    let f = p.deformation_gradient;
    let j = f.determinant().max(Binary32::from_bits(MIN_J));
    let h = m.kappa.mul(half());
    let d = j.mul(j).sub(Binary32::one());
    let e = h.mul(d);
    let a = f.mul(f.transpose()).deviator().scale(m.mu.div(j));
    lemma_dashpotted(m.elastic_stress(f), m.elastic_viscosity, p);
    lemma_finite_terms(a, Mat2::identity().scale(e));
    lemma_finite_factors(Mat2::identity(), f, e);
    lemma_finite_parts(h, d);
    lemma_finite_parts(m.kappa, half());
    lemma_finite_parts(j.mul(j), Binary32::one());
    lemma_product(j, j);
    lemma_of(m.kappa);
    lemma_halved(Estimate::of(m.kappa));
    lemma_constant_amounts();
    lemma_single_constants();
    let u = estimate(Binary32::one(), 1real, 1real, 0real);
    let q = Estimate::of(j).times(Estimate::of(j)).minus(u);
    lemma_minus(Estimate::of(j).times(Estimate::of(j)), u);
    let g = Estimate::of(m.kappa).halved().times(q);
    lemma_times(Estimate::of(m.kappa).halved(), q);
    lemma_distortion(m.mu, j, f);
    lemma_on_the_diagonal(g);
    let (t, v) = (distortion(m.mu, j, f), on_the_diagonal(g));
    lemma_tensor_plus(t, v);
    lemma_tensor_looser(t.plus(v), t.plus(v).scale, 14real);
    let s = t.plus(v);
    let k = m.mu.div(j).amount();
    let push = (m.kappa.amount() / 2real) * (j.amount() * j.amount() - 1real);
    assert(g.exact == push);
    assert(s.xx == ((left_stretch(f, 0, 0) - left_stretch(f, 1, 1)) / 2real) * k + push);
    assert(s.yy == ((left_stretch(f, 1, 1) - left_stretch(f, 0, 0)) / 2real) * k + push);
    assert(s.xy == left_stretch(f, 0, 1) * k && s.yx == left_stretch(f, 1, 0) * k);
    lemma_with_dashpot(Tensor { parts: 14real, ..s }, m.elastic_viscosity, p);
}

/// A Neo-Hookean solid follows the flow: its deformation gradient becomes `(I + dt C) F`.
pub proof fn law_neo_hookean_follows_the_flow<N: Numerics>(
    m: NeoHookeanMaterial,
    p: Particle,
    dt: Binary32,
    n: &N,
)
    requires
        m.updated(p, dt, n).deformation_gradient.is_finite(),
    ensures
        ({
            let q = m.updated(p, dt, n);
            &&& resembles(
                q.deformation_gradient,
                moved(p, dt, 0, 0),
                moved(p, dt, 0, 1),
                moved(p, dt, 1, 0),
                moved(p, dt, 1, 1),
                moved_scale(p, dt),
                8real,
            )
            &&& q == with_deformation(p, q.deformation_gradient)
        }),
{
    law_explicit_step_follows_the_flow(p, dt);
}

/// The deformation gradient after the exponential of a velocity gradient over a step.
pub open spec fn carried(e: Mat2, f: Mat2, i: int, j: int) -> real {
    e.at(i, 0) * f.at(0, j) + e.at(i, 1) * f.at(1, j)
}

/// A product of matrices, entry by entry.
pub proof fn law_matrices_multiply(e: Mat2, f: Mat2)
    requires
        e.mul(f).is_finite(),
    ensures
        resembles(
            e.mul(f),
            carried(e, f, 0, 0),
            carried(e, f, 0, 1),
            carried(e, f, 1, 0),
            carried(e, f, 1, 1),
            e.weight() * f.weight() + e.weight() * f.weight(),
            4real,
        ),
{
    lemma_finite_factors(e, f, Binary32::one());
    lemma_tensor_of(e);
    lemma_tensor_of(f);
    lemma_tensor_times(Tensor::of(e), Tensor::of(f));
}

/// The velocity gradient over a step, entry by entry.
pub open spec fn is_increment(g: Mat2, c: Mat2, dt: Binary32) -> bool {
    resembles(
        g,
        c.at(0, 0) * dt.amount(),
        c.at(0, 1) * dt.amount(),
        c.at(1, 0) * dt.amount(),
        c.at(1, 1) * dt.amount(),
        c.weight() * weight(dt),
        2real,
    )
}

/// The velocity gradient over a step is `dt C`.
pub proof fn lemma_increment(c: Mat2, dt: Binary32)
    requires
        c.scale(dt).is_finite(),
    ensures
        is_increment(c.scale(dt), c, dt),
{
    lemma_finite_factors(c, c, dt);
    lemma_tensor_of(c);
    lemma_of(dt);
    lemma_tensor_scaled(Tensor::of(c), Estimate::of(dt));
}

/// A corotated solid follows the flow: its deformation gradient becomes the exponential of
/// `dt C` times it.
pub proof fn law_corotated_follows_the_flow<N: Numerics>(
    m: CorotatedMaterial,
    p: Particle,
    dt: Binary32,
    n: &N,
) -> (increment: Mat2)
    requires
        p.velocity_gradient.scale(dt).is_finite(),
        m.updated(p, dt, n).deformation_gradient.is_finite(),
    ensures
        ({
            let q = m.updated(p, dt, n);
            let (e, f) = (n.increment_exp_of(increment), p.deformation_gradient);
            &&& is_increment(increment, p.velocity_gradient, dt)
            &&& resembles(
                q.deformation_gradient,
                carried(e, f, 0, 0),
                carried(e, f, 0, 1),
                carried(e, f, 1, 0),
                carried(e, f, 1, 1),
                e.weight() * f.weight() + e.weight() * f.weight(),
                4real,
            )
            &&& q == with_deformation(p, q.deformation_gradient)
        }),
{
    let increment = p.velocity_gradient.scale(dt);
    lemma_increment(p.velocity_gradient, dt);
    law_matrices_multiply(n.increment_exp_of(increment), p.deformation_gradient);
    increment
}

/// A solid without compression follows the flow in the same way.
pub proof fn law_no_compression_follows_the_flow<N: Numerics>(
    m: NoCompressionMaterial,
    p: Particle,
    dt: Binary32,
    n: &N,
) -> (increment: Mat2)
    requires
        p.velocity_gradient.scale(dt).is_finite(),
        m.updated(p, dt, n).deformation_gradient.is_finite(),
    ensures
        ({
            let q = m.updated(p, dt, n);
            let (e, f) = (n.increment_exp_of(increment), p.deformation_gradient);
            &&& is_increment(increment, p.velocity_gradient, dt)
            &&& resembles(
                q.deformation_gradient,
                carried(e, f, 0, 0),
                carried(e, f, 0, 1),
                carried(e, f, 1, 0),
                carried(e, f, 1, 1),
                e.weight() * f.weight() + e.weight() * f.weight(),
                4real,
            )
            &&& q == with_deformation(p, q.deformation_gradient)
        }),
{
    let increment = p.velocity_gradient.scale(dt);
    lemma_increment(p.velocity_gradient, dt);
    law_matrices_multiply(n.increment_exp_of(increment), p.deformation_gradient);
    increment
}

} // verus!
