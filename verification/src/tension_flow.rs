use vstd::arithmetic::power2::lemma2_to64;
use vstd::arithmetic::power2::lemma_pow2_adds;
use vstd::arithmetic::power2::lemma_pow2_pos;
use vstd::arithmetic::power2::pow2;
use vstd::prelude::*;

use crate::binary::around::Estimate;
use crate::binary::around::around;
use crate::binary::around::lemma_around_size;
use crate::binary::around::lemma_chain;
use crate::binary::around::lemma_finite_parts;
use crate::binary::around::lemma_looser;
use crate::binary::around::lemma_minus;
use crate::binary::around::lemma_of;
use crate::binary::around::lemma_opposite;
use crate::binary::around::lemma_plus;
use crate::binary::around::lemma_quotient_of;
use crate::binary::around::lemma_times;
use crate::binary::around::weight;
use crate::binary::error::law_order_of_amounts;
use crate::binary::error::lemma_amount;
use crate::binary::error::lemma_constant_amounts;
use crate::binary::error::lemma_tiny;
use crate::binary::error::off;
use crate::binary::error::size;
use crate::binary::error::units;
use crate::binary::exact::lemma_mag_of_parts;
use crate::binary::relative::dust;
use crate::binary::roots::law_root_is_near;
use crate::binary::single::Binary32;
use crate::binary::single::lemma_single_constants;
use crate::binary::single::two;
use crate::estimates::Tensor;
use crate::estimates::estimate;
use crate::estimates::lemma_finite_factors;
use crate::estimates::lemma_product;
use crate::estimates::lemma_tensor_of;
use crate::estimates::lemma_tensor_times;
use crate::estimates::resembles;
use crate::linalg::Mat2;
use crate::linalg::Vec2;
use crate::mechanics::MIN_J;
use crate::mechanics::polar_rotation;
use crate::mechanics::recompose;
use crate::no_compression::NoCompressionMaterial;
use crate::no_compression::Tension;
use crate::numerics::Numerics;
use crate::numerics::Unary;
use crate::particle::Particle;

verus! {

/// The tangent has the factor four.
pub proof fn lemma_four()
    ensures
        estimate(Binary32::from_bits(0x4080_0000), 4real, 4real, 0real).holds(),
{
    let q = Binary32::from_bits(0x4080_0000);
    lemma_single_constants();
    lemma_amount(q);
    lemma_tiny();
    lemma2_to64();
    lemma_pow2_pos(23);
    lemma_mag_of_parts(23, 128, pow2(23));
    lemma_pow2_adds(23, 128);
    lemma_pow2_adds(149, 2);
    let e = units();
    let x = q.amount();
    assert(x == 4real) by (nonlinear_arith)
        requires
            x * e == 4real * e,
            e > 0real,
    ;
}

/// The axial modulus is `2 mu + lambda`.
pub proof fn law_axial_modulus(m: NoCompressionMaterial)
    requires
        m.axial_modulus().is_finite(),
    ensures
        m.mu.is_finite() && m.lambda.is_finite(),
        estimate(
            m.axial_modulus(),
            2real * m.mu.amount() + m.lambda.amount(),
            2real * weight(m.mu) + weight(m.lambda),
            4real,
        ).holds(),
{
    lemma_finite_parts(two().mul(m.mu), m.lambda);
    lemma_finite_parts(two(), m.mu);
    lemma_of(m.mu);
    lemma_of(m.lambda);
    lemma_constant_amounts();
    lemma_single_constants();
    let w = estimate(two(), 2real, 2real, 0real);
    lemma_times(w, Estimate::of(m.mu));
    lemma_plus(w.times(Estimate::of(m.mu)), Estimate::of(m.lambda));
}

/// The uniaxial tangent times the axial modulus is `4 mu (mu + lambda)`.
pub proof fn law_uniaxial_tangent(m: NoCompressionMaterial)
    requires
        m.axial_modulus().is_finite(),
        m.axial_modulus().amount() != 0real,
        Binary32::from_bits(0x4080_0000).mul(m.mu).mul(m.mu.add(m.lambda)).is_finite(),
        m.uniaxial_tangent().is_finite(),
    ensures
        off(
            m.uniaxial_tangent().amount() * m.axial_modulus().amount(),
            (4real * m.mu.amount()) * (m.mu.amount() + m.lambda.amount()),
        ) <= 8real * ((4real * weight(m.mu)) * (weight(m.mu) + weight(m.lambda))) + dust() * size(
            m.axial_modulus().amount(),
        ),
{
    let four = Binary32::from_bits(0x4080_0000);
    let s = m.mu.add(m.lambda);
    let x = four.mul(m.mu).mul(s);
    lemma_finite_parts(four.mul(m.mu), s);
    lemma_finite_parts(four, m.mu);
    lemma_finite_parts(m.mu, m.lambda);
    lemma_of(m.mu);
    lemma_of(m.lambda);
    lemma_four();
    let f = estimate(four, 4real, 4real, 0real);
    lemma_times(f, Estimate::of(m.mu));
    lemma_plus(Estimate::of(m.mu), Estimate::of(m.lambda));
    let e = f.times(Estimate::of(m.mu)).times(Estimate::of(m.mu).plus(Estimate::of(m.lambda)));
    lemma_times(f.times(Estimate::of(m.mu)), Estimate::of(m.mu).plus(Estimate::of(m.lambda)));
    lemma_quotient_of(e, m.axial_modulus());
    assert((e.parts + 2real) * e.scale == 8real * e.scale);
}

/// At the free transverse strain the transverse stress vanishes: times the axial modulus it is
/// `-lambda` times the axial strain.
pub proof fn law_free_strain_relieves(m: NoCompressionMaterial, axial: Binary32)
    requires
        m.axial_modulus().is_finite(),
        m.axial_modulus().amount() != 0real,
        m.lambda.neg().mul(axial).is_finite(),
        m.free_transverse_strain(axial).is_finite(),
    ensures
        off(
            m.free_transverse_strain(axial).amount() * m.axial_modulus().amount(),
            -(m.lambda.amount() * axial.amount()),
        ) <= 4real * (weight(m.lambda) * weight(axial)) + dust() * size(m.axial_modulus().amount()),
{
    let x = m.lambda.neg().mul(axial);
    lemma_finite_parts(m.lambda.neg(), axial);
    lemma_finite_parts(m.lambda, axial);
    lemma_of(m.lambda);
    lemma_of(axial);
    lemma_opposite(Estimate::of(m.lambda));
    let e = Estimate::of(m.lambda).opposite().times(Estimate::of(axial));
    lemma_times(Estimate::of(m.lambda).opposite(), Estimate::of(axial));
    let (a, b) = (m.lambda.amount(), axial.amount());
    assert((-a) * b == -(a * b)) by (nonlinear_arith);
    lemma_quotient_of(e, m.axial_modulus());
    assert((e.parts + 2real) * e.scale == 4real * e.scale);
}

/// A taut region is a linear elastic one in its principal strains.
pub proof fn law_taut_stress(m: NoCompressionMaterial, eps: Vec2)
    requires
        m.tension(eps) == Tension::Taut,
        m.relaxed_principal_stress(eps).x.is_finite(),
        m.relaxed_principal_stress(eps).y.is_finite(),
    ensures
        ({
            let s = m.relaxed_principal_stress(eps);
            let (l, a) = (m.lambda.amount(), 2real * m.mu.amount() + m.lambda.amount());
            let (x, y) = (eps.x.amount(), eps.y.amount());
            let (wl, wa) = (weight(m.lambda), 2real * weight(m.mu) + weight(m.lambda));
            &&& around(s.x, a * x + l * y, wa * weight(eps.x) + wl * weight(eps.y), 8real)
            &&& around(s.y, l * x + a * y, wl * weight(eps.x) + wa * weight(eps.y), 8real)
        }),
{
    let a = m.axial_modulus();
    let l = m.lambda;
    lemma_finite_parts(a.mul(eps.x), l.mul(eps.y));
    lemma_finite_parts(l.mul(eps.x), a.mul(eps.y));
    lemma_finite_parts(a, eps.x);
    lemma_finite_parts(a, eps.y);
    lemma_finite_parts(l, eps.x);
    lemma_finite_parts(l, eps.y);
    law_axial_modulus(m);
    lemma_of(l);
    lemma_of(eps.x);
    lemma_of(eps.y);
    let ea = estimate(
        a,
        2real * m.mu.amount() + l.amount(),
        2real * weight(m.mu) + weight(l),
        4real,
    );
    let (el, ex, ey) = (Estimate::of(l), Estimate::of(eps.x), Estimate::of(eps.y));
    lemma_times(ea, ex);
    lemma_times(ea, ey);
    lemma_times(el, ex);
    lemma_times(el, ey);
    lemma_plus(ea.times(ex), el.times(ey));
    lemma_plus(el.times(ex), ea.times(ey));
}

/// A wrinkled region carries a uniaxial tension along its larger strain.
pub proof fn law_wrinkled_stress(m: NoCompressionMaterial, eps: Vec2)
    requires
        m.tension(eps) == Tension::Wrinkled,
        m.relaxed_principal_stress(eps).x.is_finite(),
    ensures
        ({
            let s = m.relaxed_principal_stress(eps);
            let t = m.uniaxial_tangent();
            &&& around(s.x, t.amount() * eps.x.amount(), weight(t) * weight(eps.x), 2real)
            &&& s.y == Binary32::zero()
        }),
{
    lemma_product(m.uniaxial_tangent(), eps.x);
}

/// A region is taut where it is stretched across its larger strain beyond the free transverse
/// strain, wrinkled where it is not, and slack without a stretch.
pub proof fn law_tension_states(m: NoCompressionMaterial, eps: Vec2)
    requires
        eps.x.is_finite() && eps.y.is_finite(),
        m.free_transverse_strain(eps.x).is_finite(),
    ensures
        m.tension(eps) == Tension::Slack <==> eps.x.amount() <= 0real,
        m.tension(eps) == Tension::Taut <==> eps.x.amount() > 0real && eps.y.amount()
            > m.free_transverse_strain(eps.x).amount(),
{
    lemma_single_constants();
    lemma_constant_amounts();
    law_order_of_amounts(eps.x, Binary32::zero());
    law_order_of_amounts(eps.y, m.free_transverse_strain(eps.x));
}

/// A diagonal matrix.
pub open spec fn diagonal(d: Vec2) -> Tensor {
    Tensor {
        got: Mat2::from_diagonal(d),
        xx: d.x.amount(),
        xy: 0real,
        yx: 0real,
        yy: d.y.amount(),
        scale: weight(d.x) + weight(d.y),
        parts: 0real,
    }
}

/// `U diag(s) V`, entry by entry.
pub open spec fn rebuilt(u: Mat2, s: Vec2, v: Mat2, i: int, j: int) -> real {
    (u.at(i, 0) * s.x.amount()) * v.at(0, j) + (u.at(i, 1) * s.y.amount()) * v.at(1, j)
}

/// A matrix is rebuilt from its singular values.
pub proof fn law_recompose(u: Mat2, s: Vec2, v: Mat2)
    requires
        recompose(u, s, v).is_finite(),
    ensures
        ({
            let w = u.weight() * (weight(s.x) + weight(s.y));
            resembles(
                recompose(u, s, v),
                rebuilt(u, s, v, 0, 0),
                rebuilt(u, s, v, 0, 1),
                rebuilt(u, s, v, 1, 0),
                rebuilt(u, s, v, 1, 1),
                (w + w) * v.weight() + (w + w) * v.weight(),
                8real,
            )
        }),
{
    let d = Mat2::from_diagonal(s);
    lemma_finite_factors(u.mul(d), v, Binary32::one());
    lemma_finite_factors(u, d, Binary32::one());
    lemma_tensor_of(u);
    lemma_tensor_of(v);
    lemma_constant_amounts();
    assert(diagonal(s).holds());
    let t = Tensor::of(u).times(diagonal(s));
    lemma_tensor_times(Tensor::of(u), diagonal(s));
    lemma_tensor_times(t, Tensor::of(v));
    let (a, b, c, e) = (u.at(0, 0), u.at(0, 1), u.at(1, 0), u.at(1, 1));
    assert(a * 0real == 0real && b * 0real == 0real && c * 0real == 0real && e * 0real == 0real)
        by (nonlinear_arith);
    assert(t.xx == a * s.x.amount() && t.xy == b * s.y.amount());
    assert(t.yx == c * s.x.amount() && t.yy == e * s.y.amount());
}

/// A solid without compression carries its principal stresses along the principal directions
/// of its stretch, at the logarithmic strains; nothing once it is crushed.
pub proof fn law_tension_along_principal_directions<N: Numerics>(
    m: NoCompressionMaterial,
    p: Particle,
    n: &N,
)
    requires
        m.stress(p, n).is_finite(),
    ensures
        ({
            let f = p.deformation_gradient;
            let (u, sigma, vt) = n.svd_of(f);
            let s = m.relaxed_principal_stress(
                Vec2 { x: n.unary_of(Unary::Ln, sigma.x), y: n.unary_of(Unary::Ln, sigma.y) },
            );
            let w = u.weight() * (weight(s.x) + weight(s.y));
            if f.determinant().le(Binary32::from_bits(MIN_J)) {
                m.stress(p, n) == Mat2::zero()
            } else {
                resembles(
                    m.stress(p, n),
                    (u.at(0, 0) * s.x.amount()) * u.at(0, 0) + (u.at(0, 1) * s.y.amount()) * u.at(
                        0,
                        1,
                    ),
                    (u.at(0, 0) * s.x.amount()) * u.at(1, 0) + (u.at(0, 1) * s.y.amount()) * u.at(
                        1,
                        1,
                    ),
                    (u.at(1, 0) * s.x.amount()) * u.at(0, 0) + (u.at(1, 1) * s.y.amount()) * u.at(
                        0,
                        1,
                    ),
                    (u.at(1, 0) * s.x.amount()) * u.at(1, 0) + (u.at(1, 1) * s.y.amount()) * u.at(
                        1,
                        1,
                    ),
                    (w + w) * u.weight() + (w + w) * u.weight(),
                    8real,
                )
            }
        }),
{
    let f = p.deformation_gradient;
    let (u, sigma, vt) = n.svd_of(f);
    let s = m.relaxed_principal_stress(
        Vec2 { x: n.unary_of(Unary::Ln, sigma.x), y: n.unary_of(Unary::Ln, sigma.y) },
    );
    if !f.determinant().le(Binary32::from_bits(MIN_J)) {
        law_recompose(u, s, u.transpose());
        assert(u.transpose().weight() == u.weight());
    }
}

/// A quotient of an estimate.
proof fn lemma_share(x: Binary32, exact: real, w: real, len: Binary32)
    requires
        estimate(x, exact, w, 2real).holds(),
        len.is_finite(),
        len.amount() > 0real,
        x.div(len).is_finite(),
    ensures
        off(x.div(len).amount() * len.amount(), exact) <= 4real * w + dust() * len.amount(),
{
    lemma_quotient_of(estimate(x, exact, w, 2real), len);
}

/// The length of an estimated vector.
proof fn lemma_length(v: Vec2, x: real, y: real, w: real)
    requires
        estimate(v.x, x, w, 2real).holds(),
        estimate(v.y, y, w, 2real).holds(),
        v.length().is_finite(),
        v.length().gt(Binary32::zero()),
    ensures
        v.length().amount() > 0real,
        off(v.length().amount() * v.length().amount(), x * x + y * y) <= 20real * (2real * (w * w)),
{
    let d = v.dot(v);
    let (gx, gy) = (estimate(v.x, x, w, 2real), estimate(v.y, y, w, 2real));
    lemma_root_parts(d);
    law_root_is_near(d);
    lemma_finite_parts(v.x.mul(v.x), v.y.mul(v.y));
    lemma_times(gx, gx);
    lemma_times(gy, gy);
    let e = gx.times(gx).plus(gy.times(gy));
    lemma_plus(gx.times(gx), gy.times(gy));
    assert(e.parts == 8real && e.scale == 2real * (w * w));
    lemma_around_size(d, e.exact, e.scale, e.parts);
    let k = e.scale;
    let l = v.length().amount() * v.length().amount();
    assert(off(d.amount(), e.exact) <= 8real * k);
    assert(off(l, d.amount()) <= 2real * d.amount());
    lemma_chain(l, d.amount(), e.exact);
}

/// The rotation of the polar decomposition is `(F00 + F11, F10 - F01)` over its length.
pub proof fn law_polar_rotation(f: Mat2) -> (len: Binary32)
    requires
        ({
            let x = f.x_axis.x.add(f.y_axis.y);
            let y = f.x_axis.y.sub(f.y_axis.x);
            let len = Vec2 { x, y }.length();
            &&& x.is_finite() && y.is_finite()
            &&& len.is_finite() && len.gt(Binary32::zero())
            &&& x.div(len).is_finite() && y.div(len).is_finite()
        }),
    ensures
        ({
            let r = polar_rotation(f);
            let (x, y) = (f.at(0, 0) + f.at(1, 1), f.at(1, 0) - f.at(0, 1));
            let l = len.amount();
            &&& l > 0real
            &&& off(l * l, x * x + y * y) <= 20real * (2real * (f.weight() * f.weight()))
            &&& off(r.at(0, 0) * l, x) <= 4real * f.weight() + dust() * l
            &&& off(r.at(1, 0) * l, y) <= 4real * f.weight() + dust() * l
            &&& r.at(1, 1) == r.at(0, 0)
            &&& r.at(0, 1) == -r.at(1, 0)
        }),
{
    let x = f.x_axis.x.add(f.y_axis.y);
    let y = f.x_axis.y.sub(f.y_axis.x);
    let v = Vec2 { x, y };
    let len = v.length();
    lemma_finite_parts(f.x_axis.x, f.y_axis.y);
    lemma_finite_parts(f.x_axis.y, f.y_axis.x);
    lemma_of(f.x_axis.x);
    lemma_of(f.x_axis.y);
    lemma_of(f.y_axis.x);
    lemma_of(f.y_axis.y);
    let ex = Estimate::of(f.x_axis.x).plus(Estimate::of(f.y_axis.y));
    let ey = Estimate::of(f.x_axis.y).minus(Estimate::of(f.y_axis.x));
    lemma_plus(Estimate::of(f.x_axis.x), Estimate::of(f.y_axis.y));
    lemma_minus(Estimate::of(f.x_axis.y), Estimate::of(f.y_axis.x));
    let w = f.weight();
    lemma_looser(ex, w, 2real);
    lemma_looser(ey, w, 2real);
    lemma_length(v, ex.exact, ey.exact, w);
    lemma_share(x, ex.exact, w, len);
    lemma_share(y, ey.exact, w, len);
    let s = y.div(len);
    lemma_of(s);
    lemma_opposite(Estimate::of(s));
    len
}

/// A positive finite root is that of a positive finite number.
proof fn lemma_root_parts(a: Binary32)
    requires
        a.sqrt().is_finite(),
        Binary32::zero().lt(a.sqrt()),
    ensures
        a.is_finite(),
        a.gt(Binary32::zero()),
{
    reveal(Binary32::spec_sqrt);
    lemma_single_constants();
}

/// Where the rotation has no direction it is none.
pub proof fn law_no_direction_no_rotation(f: Mat2)
    requires
        ({
            let x = f.x_axis.x.add(f.y_axis.y);
            let y = f.x_axis.y.sub(f.y_axis.x);
            Vec2 { x, y }.length().le(Binary32::zero())
        }),
    ensures
        polar_rotation(f) == Mat2::identity(),
{
    lemma_single_constants();
}

} // verus!
