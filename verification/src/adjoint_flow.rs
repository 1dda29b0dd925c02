use vstd::prelude::*;

use crate::binary::around::Estimate;
use crate::binary::around::around;
use crate::binary::around::law_quotient_multiplies_back;
use crate::binary::around::lemma_finite_parts;
use crate::binary::around::lemma_looser;
use crate::binary::around::lemma_minus;
use crate::binary::around::lemma_of;
use crate::binary::around::lemma_opposite;
use crate::binary::around::lemma_plus;
use crate::binary::around::lemma_times;
use crate::binary::around::weight;
use crate::binary::error::lemma_constant_amounts;
use crate::binary::error::off;
use crate::binary::error::size;
use crate::binary::relative::dust;
use crate::binary::single::Binary32;
use crate::binary::single::lemma_single_constants;
use crate::elastic::frobenius;
use crate::elastic::neo_hookean_adjoint;
use crate::estimates::Tensor;
use crate::estimates::estimate;
use crate::estimates::lemma_finite_factors;
use crate::estimates::lemma_finite_terms;
use crate::estimates::lemma_tensor_deviator;
use crate::estimates::lemma_tensor_of;
use crate::estimates::lemma_tensor_plus;
use crate::estimates::lemma_tensor_scaled;
use crate::estimates::lemma_tensor_times;
use crate::linalg::Mat2;
use crate::solid_flow::left_stretch;

verus! {

/// The inverse of a matrix: its adjugate over its determinant.
pub open spec fn inverted(a: Mat2) -> Tensor {
    let i = Binary32::one().div(a.determinant());
    Tensor {
        got: a.inverse(),
        xx: a.at(1, 1) * i.amount(),
        xy: a.at(0, 1) * (-i.amount()),
        yx: a.at(1, 0) * (-i.amount()),
        yy: a.at(0, 0) * i.amount(),
        scale: a.weight() * weight(i),
        parts: 2real,
    }
}

/// The inverse of a matrix is its adjugate over its determinant.
pub proof fn law_inverse(a: Mat2)
    requires
        a.inverse().is_finite(),
        a.determinant().is_finite(),
        a.determinant().amount() != 0real,
    ensures
        inverted(a).holds(),
        ({
            let (i, d) = (Binary32::one().div(a.determinant()).amount(), a.determinant().amount());
            off(i * d, 1real) <= 1real + dust() * size(d)
        }),
{
    let i = Binary32::one().div(a.determinant());
    lemma_constant_amounts();
    lemma_single_constants();
    lemma_finite_parts(a.y_axis.y, i);
    lemma_finite_parts(a.x_axis.y, i.neg());
    lemma_finite_parts(a.y_axis.x, i.neg());
    lemma_finite_parts(a.x_axis.x, i);
    law_quotient_multiplies_back(Binary32::one(), a.determinant());
    lemma_of(i);
    lemma_opposite(Estimate::of(i));
    lemma_cofactor(a.y_axis.y, Estimate::of(i), a.weight());
    lemma_cofactor(a.x_axis.x, Estimate::of(i), a.weight());
    lemma_cofactor(a.x_axis.y, Estimate::of(i).opposite(), a.weight());
    lemma_cofactor(a.y_axis.x, Estimate::of(i).opposite(), a.weight());
}

/// An entry of an inverse.
proof fn lemma_cofactor(x: Binary32, i: Estimate, w: real)
    requires
        i.holds(),
        i.parts == 0real,
        x.mul(i.got).is_finite(),
        weight(x) <= w,
    ensures
        around(x.mul(i.got), x.amount() * i.exact, w * i.scale, 2real),
{
    lemma_finite_parts(x, i.got);
    lemma_of(x);
    lemma_times(Estimate::of(x), i);
    let (u, v) = (weight(x), i.scale);
    assert(u * v <= w * v) by (nonlinear_arith)
        requires
            u <= w,
            v >= 0real,
    ;
    lemma_looser(Estimate::of(x).times(i), w * v, 2real);
}

/// The sum of the products of the entries of two estimated matrices.
pub open spec fn dotted(a: Tensor, b: Tensor) -> Estimate {
    entry(a.got.x_axis.x, a.xx, a).times(entry(b.got.x_axis.x, b.xx, b)).plus(
        entry(a.got.x_axis.y, a.yx, a).times(entry(b.got.x_axis.y, b.yx, b)),
    ).plus(entry(a.got.y_axis.x, a.xy, a).times(entry(b.got.y_axis.x, b.xy, b))).plus(
        entry(a.got.y_axis.y, a.yy, a).times(entry(b.got.y_axis.y, b.yy, b)),
    )
}

/// An entry of an estimated matrix.
pub open spec fn entry(got: Binary32, exact: real, a: Tensor) -> Estimate {
    estimate(got, exact, a.scale, a.parts)
}

/// The sum of the products of the entries.
proof fn lemma_dotted(a: Tensor, b: Tensor)
    requires
        a.holds() && b.holds(),
        a.parts + b.parts <= 100real,
        frobenius(a.got, b.got).is_finite(),
    ensures
        dotted(a, b).holds(),
{
    let (ax, ay) = (a.got.x_axis, a.got.y_axis);
    let (bx, by) = (b.got.x_axis, b.got.y_axis);
    let (p, q) = (ax.x.mul(bx.x), ax.y.mul(bx.y));
    let (r, s) = (ay.x.mul(by.x), ay.y.mul(by.y));
    lemma_finite_parts(p.add(q).add(r), s);
    lemma_finite_parts(p.add(q), r);
    lemma_finite_parts(p, q);
    let ep = entry(ax.x, a.xx, a).times(entry(bx.x, b.xx, b));
    let eq = entry(ax.y, a.yx, a).times(entry(bx.y, b.yx, b));
    let er = entry(ay.x, a.xy, a).times(entry(by.x, b.xy, b));
    let es = entry(ay.y, a.yy, a).times(entry(by.y, b.yy, b));
    lemma_times(entry(ax.x, a.xx, a), entry(bx.x, b.xx, b));
    lemma_times(entry(ax.y, a.yx, a), entry(bx.y, b.yx, b));
    lemma_times(entry(ay.x, a.xy, a), entry(by.x, b.xy, b));
    lemma_times(entry(ay.y, a.yy, a), entry(by.y, b.yy, b));
    lemma_plus(ep, eq);
    lemma_plus(ep.plus(eq), er);
    lemma_plus(ep.plus(eq).plus(er), es);
}

/// `dev(F F^T)` as it is estimated.
pub open spec fn stretch_deviator(f: Mat2) -> Tensor {
    Tensor::of(f).times(Tensor::of(f).transposed()).deviator()
}

/// Twice the symmetric part of `(mu / J) dev(g)`.
pub open spec fn pulled_back(k: Binary32, g: Mat2) -> Tensor {
    Tensor::of(g).deviator().scaled(Estimate::of(k)).plus(
        Tensor::of(g).deviator().scaled(Estimate::of(k)).transposed(),
    )
}

/// What multiplies the inverse transpose: `(lambda + mu) tr(g) - (mu / J) g : dev(F F^T)`.
pub open spec fn volume_pull(k: Binary32, mu: Binary32, lambda: Binary32, f: Mat2, g: Mat2) -> Estimate {
    Estimate::of(lambda).plus(Estimate::of(mu)).times(
        Estimate::of(g.x_axis.x).plus(Estimate::of(g.y_axis.y)),
    ).minus(Estimate::of(k).times(dotted(Tensor::of(g), stretch_deviator(f))))
}

/// The adjoint of the Neo-Hookean stress: the gradient `g` of a loss is pulled back through the
/// distortion by `(B + B^T) F`, `B = (mu / J) dev(g)`, and through the volume ratio by
/// `(k tr(g) - (mu / J) g : dev(F F^T)) F^-T`, `k = lambda + mu`.
pub proof fn law_adjoint_pulls_back(
    mu: Binary32,
    lambda: Binary32,
    f: Mat2,
    j: Binary32,
    g: Mat2,
)
    requires
        neo_hookean_adjoint(mu, lambda, f, j, g).is_finite(),
        f.determinant().is_finite() && f.determinant().amount() != 0real,
    ensures
        ({
            let k = mu.div(j);
            let t = pulled_back(k, g).times(Tensor::of(f)).plus(
                inverted(f).transposed().scaled(volume_pull(k, mu, lambda, f, g)),
            );
            &&& t.holds()
            &&& t.got == neo_hookean_adjoint(mu, lambda, f, j, g)
        }),
        ({
            let k = mu.div(j);
            let x = k.amount();
            let p = pulled_back(k, g);
            &&& p.xx == ((g.at(0, 0) - g.at(1, 1)) / 2real) * x + ((g.at(0, 0) - g.at(1, 1)) / 2real)
                * x
            &&& p.xy == g.at(0, 1) * x + g.at(1, 0) * x
            &&& p.yx == g.at(1, 0) * x + g.at(0, 1) * x
            &&& p.yy == ((g.at(1, 1) - g.at(0, 0)) / 2real) * x + ((g.at(1, 1) - g.at(0, 0)) / 2real)
                * x
        }),
        ({
            let k = mu.div(j);
            let d = (left_stretch(f, 0, 0) - left_stretch(f, 1, 1)) / 2real;
            let e = (left_stretch(f, 1, 1) - left_stretch(f, 0, 0)) / 2real;
            volume_pull(k, mu, lambda, f, g).exact == (lambda.amount() + mu.amount()) * (g.at(0, 0)
                + g.at(1, 1)) - k.amount() * (g.at(0, 0) * d + g.at(1, 0) * left_stretch(f, 1, 0)
                + g.at(0, 1) * left_stretch(f, 0, 1) + g.at(1, 1) * e)
        }),
{
    let k = mu.div(j);
    let b = f.mul(f.transpose());
    let dev_b = b.deviator();
    let bar = g.deviator().scale(k);
    let first = bar.symmetrised().mul(f);
    let lm = lambda.add(mu);
    let dot = frobenius(g, dev_b);
    let s = lm.mul(g.trace()).sub(k.mul(dot));
    let second = f.inverse().transpose().scale(s);
    lemma_finite_terms(first, second);
    lemma_finite_factors(bar.symmetrised(), f, k);
    lemma_finite_terms(bar, bar.transpose());
    lemma_finite_factors(g.deviator(), f, k);
    lemma_finite_factors(g, f, k);
    lemma_finite_factors(f.inverse().transpose(), f, s);
    lemma_finite_factors(f.inverse(), f, s);
    lemma_finite_parts(lm.mul(g.trace()), k.mul(dot));
    lemma_finite_parts(lm, g.trace());
    lemma_finite_parts(lambda, mu);
    lemma_finite_parts(k, dot);
    lemma_tensor_of(g);
    lemma_tensor_of(f);
    lemma_of(k);
    lemma_of(lambda);
    lemma_of(mu);
    lemma_of(g.x_axis.x);
    lemma_of(g.y_axis.y);
    // the distortion
    let tg = Tensor::of(g);
    lemma_tensor_deviator(tg);
    lemma_tensor_scaled(tg.deviator(), Estimate::of(k));
    let tb = tg.deviator().scaled(Estimate::of(k));
    assert(tb.transposed().holds());
    lemma_tensor_plus(tb, tb.transposed());
    lemma_tensor_times(pulled_back(k, g), Tensor::of(f));
    // the volume ratio
    lemma_dot_parts(g, dev_b);
    lemma_finite_factors(b, f, k);
    lemma_tensor_times(Tensor::of(f), Tensor::of(f).transposed());
    lemma_tensor_deviator(Tensor::of(f).times(Tensor::of(f).transposed()));
    lemma_dotted(tg, stretch_deviator(f));
    let el = Estimate::of(lambda).plus(Estimate::of(mu));
    lemma_plus(Estimate::of(lambda), Estimate::of(mu));
    let et = Estimate::of(g.x_axis.x).plus(Estimate::of(g.y_axis.y));
    lemma_plus(Estimate::of(g.x_axis.x), Estimate::of(g.y_axis.y));
    lemma_times(el, et);
    lemma_times(Estimate::of(k), dotted(tg, stretch_deviator(f)));
    lemma_minus(el.times(et), Estimate::of(k).times(dotted(tg, stretch_deviator(f))));
    law_inverse(f);
    assert(inverted(f).transposed().holds());
    lemma_tensor_scaled(inverted(f).transposed(), volume_pull(k, mu, lambda, f, g));
    lemma_tensor_plus(
        pulled_back(k, g).times(Tensor::of(f)),
        inverted(f).transposed().scaled(volume_pull(k, mu, lambda, f, g)),
    );
}

/// The second factor of a finite sum of products is finite.
proof fn lemma_dot_parts(a: Mat2, b: Mat2)
    requires
        frobenius(a, b).is_finite(),
    ensures
        b.is_finite(),
{
    let (p, q) = (a.x_axis.x.mul(b.x_axis.x), a.x_axis.y.mul(b.x_axis.y));
    let (r, s) = (a.y_axis.x.mul(b.y_axis.x), a.y_axis.y.mul(b.y_axis.y));
    lemma_finite_parts(p.add(q).add(r), s);
    lemma_finite_parts(p.add(q), r);
    lemma_finite_parts(p, q);
    lemma_finite_parts(a.x_axis.x, b.x_axis.x);
    lemma_finite_parts(a.x_axis.y, b.x_axis.y);
    lemma_finite_parts(a.y_axis.x, b.y_axis.x);
    lemma_finite_parts(a.y_axis.y, b.y_axis.y);
}

} // verus!
