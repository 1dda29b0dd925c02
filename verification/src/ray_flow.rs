use vstd::arithmetic::power2::lemma2_to64;
use vstd::arithmetic::power2::lemma_pow2_adds;
use vstd::arithmetic::power2::lemma_pow2_pos;
use vstd::arithmetic::power2::pow2;
use vstd::prelude::*;

use crate::binary::around::Estimate;
use crate::binary::around::around;
use crate::binary::around::lemma_finite_parts;
use crate::binary::around::lemma_halved;
use crate::binary::around::lemma_minus;
use crate::binary::around::lemma_of;
use crate::binary::around::weight;
use crate::binary::around_double::FineEstimate;
use crate::binary::around_double::fine_around;
use crate::binary::around_double::fine_dust;
use crate::binary::around_double::fine_off;
use crate::binary::around_double::fine_weight;
use crate::binary::around_double::lemma_fine_looser;
use crate::binary::around_double::lemma_fine_minus;
use crate::binary::around_double::lemma_fine_of;
use crate::binary::around_double::lemma_fine_opposite;
use crate::binary::around_double::lemma_fine_plus;
use crate::binary::around_double::lemma_fine_quotient_of;
use crate::binary::around_double::lemma_fine_times;
use crate::binary::double::Binary64;
use crate::binary::double::half_double;
use crate::binary::double::lemma_double_constants;
use crate::binary::double::two_double;
use crate::binary::error::size;
use crate::binary::error_double::double_units;
use crate::binary::error_double::lemma_double_amount;
use crate::binary::error_double::lemma_double_constant_amounts;
use crate::binary::error_double::lemma_double_finite_parts;
use crate::binary::error_double::lemma_double_tiny;
use crate::binary::exact::lemma_mag_of_parts;
use crate::binary::roots_double::law_double_root_is_near;
use crate::binary::single::Binary32;
use crate::binary::single::half;
use crate::nacc::Bracket;
use crate::nacc::NaccMaterial;
use crate::nacc::P0_OFFSET_DOUBLE;
use crate::nacc::Ray;
use crate::nacc::Trial;
use crate::nacc::four_double;
use crate::numerics::Numerics;
use crate::numerics::Unary;

verus! {

/// A number of double precision that stands for a real number.
pub open spec fn fine(got: Binary64, exact: real, scale: real, parts: real) -> FineEstimate {
    FineEstimate { got, exact, scale, parts }
}

/// One, two and four.
proof fn lemma_small_doubles()
    ensures
        fine(Binary64::one(), 1real, 1real, 0real).holds(),
        fine(two_double(), 2real, 2real, 0real).holds(),
        fine(four_double(), 4real, 4real, 0real).holds(),
        fine(half_double(), 1real / 2real, 1real, 0real).holds(),
{
    lemma_double_constants();
    lemma_double_constant_amounts();
    lemma_double_amount(two_double());
    lemma_double_amount(four_double());
    lemma_double_tiny();
    lemma2_to64();
    lemma_pow2_pos(52);
    lemma_mag_of_parts(52, 1023, pow2(52));
    lemma_mag_of_parts(52, 1024, pow2(52));
    lemma_pow2_adds(52, 1023);
    lemma_pow2_adds(52, 1024);
    lemma_pow2_adds(1074, 1);
    lemma_pow2_adds(1074, 2);
    let e = double_units();
    let (x, y) = (two_double().amount(), four_double().amount());
    assert(x == 2real) by (nonlinear_arith)
        requires
            x * e == 2real * e,
            e > 0real,
    ;
    assert(y == 4real) by (nonlinear_arith)
        requires
            y * e == 4real * e,
            e > 0real,
    ;
}

/// A product of two numbers of double precision.
proof fn lemma_fine_product(a: Binary64, b: Binary64)
    requires
        a.mul(b).is_finite(),
    ensures
        a.is_finite() && b.is_finite(),
        FineEstimate::of(a).times(FineEstimate::of(b)).holds(),
{
    lemma_double_finite_parts(a, b);
    lemma_fine_of(a);
    lemma_fine_of(b);
    lemma_fine_times(FineEstimate::of(a), FineEstimate::of(b));
}

/// The constant term of the quadratic along a ray is the yield function at the centre:
/// `M^2 (c + shift) (c - p0)`.
pub proof fn law_ray_constant_term(
    m: NaccMaterial,
    centre: Binary64,
    p0: Binary64,
    shift: Binary64,
)
    requires
        m.quadratic_c(centre, p0, shift).is_finite(),
    ensures
        ({
            let f = m.friction.to_double();
            fine_around(
                m.quadratic_c(centre, p0, shift),
                ((f.amount() * f.amount()) * (centre.amount() + shift.amount())) * (centre.amount()
                    - p0.amount()),
                ((fine_weight(f) * fine_weight(f)) * (fine_weight(centre) + fine_weight(shift))) * (
                fine_weight(centre) + fine_weight(p0)),
                12real,
            )
        }),
{
    let f = m.friction.to_double();
    let ff = f.mul(f);
    let (x, y) = (centre.add(shift), centre.sub(p0));
    lemma_double_finite_parts(ff.mul(x), y);
    lemma_double_finite_parts(ff, x);
    lemma_double_finite_parts(centre, shift);
    lemma_double_finite_parts(centre, p0);
    lemma_fine_product(f, f);
    lemma_fine_of(centre);
    lemma_fine_of(shift);
    lemma_fine_of(p0);
    let (ec, es, ep) = (FineEstimate::of(centre), FineEstimate::of(shift), FineEstimate::of(p0));
    let ef = FineEstimate::of(f).times(FineEstimate::of(f));
    lemma_fine_plus(ec, es);
    lemma_fine_minus(ec, ep);
    lemma_fine_times(ef, ec.plus(es));
    let e = ef.times(ec.plus(es)).times(ec.minus(ep));
    lemma_fine_times(ef.times(ec.plus(es)), ec.minus(ep));
    lemma_fine_looser(e, e.scale, 12real);
}

/// The linear coefficient of the quadratic along a ray: `M^2 dx (2 c + shift - p0)`.
pub proof fn law_ray_linear_term(
    m: NaccMaterial,
    centre: Binary64,
    p0: Binary64,
    shift: Binary64,
    dx: Binary64,
)
    requires
        m.quadratic_b(centre, p0, shift, dx).is_finite(),
    ensures
        ({
            let f = m.friction.to_double();
            fine_around(
                m.quadratic_b(centre, p0, shift, dx),
                ((f.amount() * f.amount()) * dx.amount()) * (2real * centre.amount()
                    + shift.amount() - p0.amount()),
                ((fine_weight(f) * fine_weight(f)) * fine_weight(dx)) * (2real * fine_weight(centre)
                    + fine_weight(shift) + fine_weight(p0)),
                14real,
            )
        }),
{
    let f = m.friction.to_double();
    let ff = f.mul(f);
    let x = two_double().mul(centre);
    let y = x.add(shift).sub(p0);
    lemma_double_finite_parts(ff.mul(dx), y);
    lemma_double_finite_parts(ff, dx);
    lemma_double_finite_parts(x.add(shift), p0);
    lemma_double_finite_parts(x, shift);
    lemma_double_finite_parts(two_double(), centre);
    lemma_fine_product(f, f);
    lemma_small_doubles();
    lemma_fine_of(centre);
    lemma_fine_of(shift);
    lemma_fine_of(p0);
    lemma_fine_of(dx);
    let w = fine(two_double(), 2real, 2real, 0real);
    let (ec, es, ep) = (FineEstimate::of(centre), FineEstimate::of(shift), FineEstimate::of(p0));
    let ef = FineEstimate::of(f).times(FineEstimate::of(f));
    lemma_fine_times(w, ec);
    lemma_fine_plus(w.times(ec), es);
    lemma_fine_minus(w.times(ec).plus(es), ep);
    let ey = w.times(ec).plus(es).minus(ep);
    lemma_fine_times(ef, FineEstimate::of(dx));
    let e = ef.times(FineEstimate::of(dx)).times(ey);
    lemma_fine_times(ef.times(FineEstimate::of(dx)), ey);
    lemma_fine_looser(e, e.scale, 14real);
}

/// The leading coefficient of the quadratic along a ray: `M^2 dx^2 + (1 + 2 beta) dy^2`.
pub proof fn law_ray_leading_term(m: NaccMaterial, dx: Binary64, dy: Binary64)
    requires
        m.quadratic_a(dx, dy).is_finite(),
    ensures
        ({
            let (f, b) = (m.friction.to_double(), m.cohesion.to_double());
            let (wf, wx, wy) = (fine_weight(f), fine_weight(dx), fine_weight(dy));
            fine_around(
                m.quadratic_a(dx, dy),
                ((f.amount() * f.amount()) * dx.amount()) * dx.amount() + ((1real + 2real
                    * b.amount()) * dy.amount()) * dy.amount(),
                ((wf * wf) * wx) * wx + ((1real + 2real * fine_weight(b)) * wy) * wy,
                12real,
            )
        }),
{
    let (f, b) = (m.friction.to_double(), m.cohesion.to_double());
    let ff = f.mul(f);
    let s = Binary64::one().add(two_double().mul(b));
    lemma_double_finite_parts(ff.mul(dx).mul(dx), s.mul(dy).mul(dy));
    lemma_double_finite_parts(ff.mul(dx), dx);
    lemma_double_finite_parts(ff, dx);
    lemma_double_finite_parts(s.mul(dy), dy);
    lemma_double_finite_parts(s, dy);
    lemma_double_finite_parts(Binary64::one(), two_double().mul(b));
    lemma_double_finite_parts(two_double(), b);
    lemma_fine_product(f, f);
    lemma_small_doubles();
    lemma_fine_of(b);
    lemma_fine_of(dx);
    lemma_fine_of(dy);
    let w = fine(two_double(), 2real, 2real, 0real);
    let u = fine(Binary64::one(), 1real, 1real, 0real);
    let (ex, ey) = (FineEstimate::of(dx), FineEstimate::of(dy));
    let ef = FineEstimate::of(f).times(FineEstimate::of(f));
    lemma_fine_times(ef, ex);
    lemma_fine_times(ef.times(ex), ex);
    lemma_fine_times(w, FineEstimate::of(b));
    let es = u.plus(w.times(FineEstimate::of(b)));
    lemma_fine_plus(u, w.times(FineEstimate::of(b)));
    lemma_fine_times(es, ey);
    lemma_fine_times(es.times(ey), ey);
    let e = ef.times(ex).times(ex).plus(es.times(ey).times(ey));
    lemma_fine_plus(ef.times(ex).times(ex), es.times(ey).times(ey));
    lemma_fine_looser(e, e.scale, 12real);
}

/// A ray meets the ellipse at a root of its quadratic: at the distance `l` with
/// `2 a l = -b + d` or `2 a l = -b - d`, `d^2 = b^2 - 4 a c`, whichever is on the side of the
/// trial pressure.
pub proof fn law_ray_meets_the_ellipse(
    m: NaccMaterial,
    ray: Ray,
    p0: Binary64,
    shift: Binary64,
    dx: Binary64,
    dy: Binary64,
) -> (r: (Binary64, Binary64, Binary64))
    requires
        ({
            let c = m.quadratic_c(ray.centre, p0, shift);
            let b = m.quadratic_b(ray.centre, p0, shift, dx);
            let a = m.quadratic_a(dx, dy);
            let d2 = b.mul(b).sub(four_double().mul(a).mul(c));
            let d = d2.sqrt();
            let w = two_double().mul(a);
            &&& d2.is_finite() && d2.gt(Binary64::zero())
            &&& w.is_finite() && w.amount() != 0real
            &&& b.neg().add(d).is_finite() && b.neg().sub(d).is_finite()
            &&& b.neg().add(d).div(w).is_finite() && b.neg().sub(d).div(w).is_finite()
            &&& m.ray_pressure(&ray, p0, shift, dx, dy).is_finite()
        }),
    ensures
        ({
            let (d2, d, l) = r;
            let c = m.quadratic_c(ray.centre, p0, shift);
            let b = m.quadratic_b(ray.centre, p0, shift, dx);
            let a = m.quadratic_a(dx, dy);
            let w = two_double().mul(a);
            let p1 = ray.centre.add(b.neg().add(d).div(w).mul(dx));
            let first = ray.p_tr.to_double().sub(ray.centre).mul(p1.sub(ray.centre)).gt(
                Binary64::zero(),
            );
            &&& fine_around(
                d2,
                b.amount() * b.amount() - (4real * a.amount()) * c.amount(),
                fine_weight(b) * fine_weight(b) + (4real * fine_weight(a)) * fine_weight(c),
                6real,
            )
            &&& d.amount() > 0real
            &&& fine_off(d.amount() * d.amount(), d2.amount()) <= 2real * d2.amount()
            &&& fine_around(w, 2real * a.amount(), 2real * fine_weight(a), 2real)
            &&& fine_off(
                l.amount() * w.amount(),
                if first {
                    -b.amount() + d.amount()
                } else {
                    -b.amount() - d.amount()
                },
            ) <= 4real * (fine_weight(b) + fine_weight(d)) + fine_dust() * size(w.amount())
            &&& fine_around(
                m.ray_pressure(&ray, p0, shift, dx, dy),
                ray.centre.amount() + l.amount() * dx.amount(),
                fine_weight(ray.centre) + fine_weight(l) * fine_weight(dx),
                4real,
            )
        }),
{
    let c = m.quadratic_c(ray.centre, p0, shift);
    let b = m.quadratic_b(ray.centre, p0, shift, dx);
    let a = m.quadratic_a(dx, dy);
    let four = four_double().mul(a).mul(c);
    let d2 = b.mul(b).sub(four);
    let d = d2.sqrt();
    let w = two_double().mul(a);
    let l1 = b.neg().add(d).div(w);
    let l2 = b.neg().sub(d).div(w);
    let p1 = ray.centre.add(l1.mul(dx));
    let first = ray.p_tr.to_double().sub(ray.centre).mul(p1.sub(ray.centre)).gt(Binary64::zero());
    lemma_double_constants();
    lemma_small_doubles();
    lemma_double_finite_parts(b.mul(b), four);
    lemma_double_finite_parts(four_double().mul(a), c);
    lemma_double_finite_parts(four_double(), a);
    lemma_fine_product(b, b);
    lemma_fine_of(a);
    lemma_fine_of(c);
    let (ea, eb, ec) = (FineEstimate::of(a), FineEstimate::of(b), FineEstimate::of(c));
    let (e2, e4) = (fine(two_double(), 2real, 2real, 0real), fine(
        four_double(),
        4real,
        4real,
        0real,
    ));
    lemma_fine_times(e4, ea);
    lemma_fine_times(e4.times(ea), ec);
    lemma_fine_minus(eb.times(eb), e4.times(ea).times(ec));
    law_double_root_is_near(d2);
    assert(d2.max(Binary64::zero()) == d2);
    lemma_fine_times(e2, ea);
    lemma_fine_opposite(eb);
    lemma_fine_of(d);
    let ed = FineEstimate::of(d);
    lemma_fine_plus(eb.opposite(), ed);
    lemma_fine_minus(eb.opposite(), ed);
    let (s1, s2) = (eb.opposite().plus(ed), eb.opposite().minus(ed));
    lemma_fine_quotient_of(s1, w);
    lemma_fine_quotient_of(s2, w);
    assert((s1.parts + 2real) * s1.scale == 4real * s1.scale);
    assert((s2.parts + 2real) * s2.scale == 4real * s2.scale);
    let l = if first {
        l1
    } else {
        l2
    };
    assert(m.ray_pressure(&ray, p0, shift, dx, dy) == ray.centre.add(l.mul(dx)));
    lemma_double_finite_parts(ray.centre, l.mul(dx));
    lemma_fine_product(l, dx);
    lemma_fine_of(ray.centre);
    lemma_fine_plus(
        FineEstimate::of(ray.centre),
        FineEstimate::of(l).times(FineEstimate::of(dx)),
    );
    (d2, d, l)
}

/// How far the surface at `a` is from the one that the return to it hardens to: the strain
/// after the return less `a`.
pub proof fn law_hardening_residual<N: Numerics>(
    m: NaccMaterial,
    ray: Ray,
    alpha: Binary64,
    a: Binary64,
    n: &N,
)
    requires
        m.hardening_residual(ray, alpha, a, n).is_finite(),
    ensures
        ({
            let i = m.increment_at(ray, a, n);
            fine_around(
                m.hardening_residual(ray, alpha, a, n),
                alpha.amount() + i.amount() - a.amount(),
                fine_weight(alpha) + fine_weight(i) + fine_weight(a),
                4real,
            )
        }),
{
    let i = m.increment_at(ray, a, n);
    lemma_double_finite_parts(alpha.add(i), a);
    lemma_double_finite_parts(alpha, i);
    lemma_fine_of(alpha);
    lemma_fine_of(i);
    lemma_fine_of(a);
    lemma_fine_plus(FineEstimate::of(alpha), FineEstimate::of(i));
    lemma_fine_minus(FineEstimate::of(alpha).plus(FineEstimate::of(i)), FineEstimate::of(a));
}

/// The plastic log volume increment of a return along a ray: the logarithm of the trial volume
/// ratio over the one where the ray, from the trial stress to the centre, meets the surface at
/// `alpha_end`. Infinite where the ray has no direction.
pub proof fn law_ray_increment<N: Numerics>(
    m: NaccMaterial,
    ray: Ray,
    alpha_end: Binary64,
    n: &N,
) -> (r: (Binary64, Binary64, Binary64))
    requires
        ({
            let x = ray.centre.sub(ray.p_tr.to_double());
            let y = ray.q_tr.to_double().neg();
            let len = x.mul(x).add(y.mul(y)).sqrt();
            &&& x.mul(x).add(y.mul(y)).is_finite()
            &&& x.mul(x).add(y.mul(y)).gt(Binary64::zero())
            &&& x.div(len).is_finite() && y.div(len).is_finite()
        }),
    ensures
        ({
            let (len, dx, dy) = r;
            let (c, p, q) = (ray.centre, ray.p_tr.to_double(), ray.q_tr.to_double());
            let p0 = m.preconsolidation_double(alpha_end, n);
            let shift = m.cohesion.to_double().mul(p0).add(ray.cohesion_bonus_pa.to_double());
            let j_x = m.ratio_at_pressure(m.ray_pressure(&ray, p0, shift, dx, dy));
            &&& len.amount() > 0real
            &&& fine_off(dx.amount() * len.amount(), c.amount() - p.amount()) <= 4real * (
            fine_weight(c) + fine_weight(p)) + fine_dust() * len.amount()
            &&& fine_off(dy.amount() * len.amount(), -q.amount()) <= 2real * fine_weight(q)
                + fine_dust() * len.amount()
            &&& j_x.gt(Binary64::from_bits(0x3f1a_36e2_eb1c_432d)) ==> m.increment_at(
                ray,
                alpha_end,
                n,
            ) == n.unary_double_of(Unary::Ln, ray.j_tr.to_double().div(j_x))
        }),
{
    let (c, p, q) = (ray.centre, ray.p_tr.to_double(), ray.q_tr.to_double());
    let x = c.sub(p);
    let y = q.neg();
    let len = x.mul(x).add(y.mul(y)).sqrt();
    lemma_double_constants();
    lemma_double_finite_parts(x.mul(x), y.mul(y));
    lemma_double_finite_parts(x, x);
    lemma_double_finite_parts(y, y);
    lemma_double_finite_parts(q, q);
    lemma_double_finite_parts(c, p);
    law_double_root_is_near(x.mul(x).add(y.mul(y)));
    lemma_fine_of(c);
    lemma_fine_of(p);
    lemma_fine_of(q);
    lemma_fine_minus(FineEstimate::of(c), FineEstimate::of(p));
    let e = FineEstimate::of(c).minus(FineEstimate::of(p));
    lemma_fine_quotient_of(e, len);
    assert((e.parts + 2real) * e.scale == 4real * e.scale);
    lemma_fine_opposite(FineEstimate::of(q));
    let f = FineEstimate::of(q).opposite();
    lemma_fine_quotient_of(f, len);
    assert((f.parts + 2real) * f.scale == 2real * f.scale);
    assert(!len.le(Binary64::zero()));
    (len, x.div(len), y.div(len))
}

/// The volume ratio at which the elastic pressure is `p`: the root of `|1 - 2 p / kappa|`.
pub proof fn law_ratio_at_pressure(m: NaccMaterial, p: Binary64) -> (r: (Binary64, Binary64))
    requires
        ({
            let k = m.kappa.to_double();
            let q = two_double().mul(p).div(k);
            let s = Binary64::one().sub(q).abs();
            &&& k.is_finite() && k.amount() != 0real
            &&& two_double().mul(p).is_finite() && q.is_finite()
            &&& Binary64::one().sub(q).is_finite()
            &&& Binary64::from_bits(0x3c9c_d2b2_97d8_89bc).le(s)
        }),
    ensures
        ({
            let (q, s) = r;
            let j = m.ratio_at_pressure(p);
            let k = m.kappa.to_double();
            &&& fine_off(q.amount() * k.amount(), 2real * p.amount()) <= 4real * (2real
                * fine_weight(p)) + fine_dust() * size(k.amount())
            &&& fine_around(s, 1real - q.amount(), 1real + fine_weight(q), 2real)
            &&& j.amount() > 0real
            &&& fine_off(j.amount() * j.amount(), size(s.amount())) <= 2real * size(s.amount())
        }),
{
    let k = m.kappa.to_double();
    let q = two_double().mul(p).div(k);
    let s = Binary64::one().sub(q);
    lemma_double_constants();
    lemma_small_doubles();
    lemma_double_finite_parts(two_double(), p);
    lemma_fine_of(p);
    let w = fine(two_double(), 2real, 2real, 0real);
    let e = w.times(FineEstimate::of(p));
    lemma_fine_times(w, FineEstimate::of(p));
    lemma_fine_quotient_of(e, k);
    assert((e.parts + 2real) * e.scale == 4real * e.scale);
    lemma_fine_of(q);
    let u = fine(Binary64::one(), 1real, 1real, 0real);
    lemma_fine_minus(u, FineEstimate::of(q));
    lemma_double_amount(s);
    lemma_fine_of(s);
    lemma_fine_opposite(FineEstimate::of(s));
    assert(s.abs().max(Binary64::from_bits(0x3c9c_d2b2_97d8_89bc)) == s.abs());
    law_double_root_is_near(s.abs());
    lemma_double_amount(s.abs());
    (q, s)
}

/// The ray of a trial state starts at the trial stress and aims at the centre of the ellipse,
/// half way between the preconsolidation and the tensile strength.
pub proof fn law_ray_of_a_trial(t: Trial, cohesion_bonus_pa: Binary32) -> (centre: Binary32)
    requires
        t.p0.sub(t.shift).mul(half()).is_finite(),
    ensures
        ({
            let ray = NaccMaterial::ray_of(t, cohesion_bonus_pa);
            &&& around(
                centre,
                (t.p0.amount() - t.shift.amount()) / 2real,
                weight(t.p0) + weight(t.shift),
                4real,
            )
            &&& ray.centre == centre.to_double()
            &&& ray.p_tr == t.p && ray.j_tr == t.j
            &&& ray.cohesion_bonus_pa == cohesion_bonus_pa
        }),
{
    lemma_finite_parts(t.p0.sub(t.shift), half());
    lemma_finite_parts(t.p0, t.shift);
    lemma_of(t.p0);
    lemma_of(t.shift);
    lemma_minus(Estimate::of(t.p0), Estimate::of(t.shift));
    lemma_halved(Estimate::of(t.p0).minus(Estimate::of(t.shift)));
    t.p0.sub(t.shift).mul(half())
}

/// The middle of a bracket is half the sum of its ends.
pub proof fn law_middle_of_a_bracket(b: Bracket)
    requires
        NaccMaterial::middle(&b).is_finite(),
    ensures
        fine_around(
            NaccMaterial::middle(&b),
            (1real / 2real) * (b.lo.amount() + b.hi.amount()),
            fine_weight(b.lo) + fine_weight(b.hi),
            4real,
        ),
{
    lemma_double_finite_parts(half_double(), b.lo.add(b.hi));
    lemma_double_finite_parts(b.lo, b.hi);
    lemma_small_doubles();
    lemma_fine_of(b.lo);
    lemma_fine_of(b.hi);
    let s = FineEstimate::of(b.lo).plus(FineEstimate::of(b.hi));
    lemma_fine_plus(FineEstimate::of(b.lo), FineEstimate::of(b.hi));
    let h = fine(half_double(), 1real / 2real, 1real, 0real);
    lemma_fine_times(h, s);
    let (x, y) = (s.scale, 1real);
    assert(y * x == x) by (nonlinear_arith)
        requires
            y == 1real,
    ;
}

/// Where the chord of a bracket crosses zero: the way back from the upper end times the
/// difference of the residuals is the upper residual times the width.
pub proof fn law_chord_crosses_zero(b: Bracket) -> (back: Binary64)
    requires
        NaccMaterial::chord(&b).is_finite(),
        b.r_hi.sub(b.r_lo).is_finite() && b.r_hi.sub(b.r_lo).amount() != 0real,
        b.r_hi.mul(b.hi.sub(b.lo)).is_finite(),
    ensures
        ({
            let d = b.r_hi.sub(b.r_lo);
            &&& fine_around(
                d,
                b.r_hi.amount() - b.r_lo.amount(),
                fine_weight(b.r_hi) + fine_weight(b.r_lo),
                2real,
            )
            &&& fine_off(
                back.amount() * d.amount(),
                b.r_hi.amount() * (b.hi.amount() - b.lo.amount()),
            ) <= 6real * (fine_weight(b.r_hi) * (fine_weight(b.hi) + fine_weight(b.lo)))
                + fine_dust() * size(d.amount())
            &&& fine_around(
                NaccMaterial::chord(&b),
                b.hi.amount() - back.amount(),
                fine_weight(b.hi) + fine_weight(back),
                2real,
            )
        }),
{
    let d = b.r_hi.sub(b.r_lo);
    let w = b.hi.sub(b.lo);
    let back = b.r_hi.mul(w).div(d);
    lemma_double_finite_parts(b.hi, back);
    lemma_double_finite_parts(b.r_hi, w);
    lemma_double_finite_parts(b.r_hi, b.r_lo);
    lemma_double_finite_parts(b.hi, b.lo);
    lemma_fine_of(b.hi);
    lemma_fine_of(b.lo);
    lemma_fine_of(b.r_hi);
    lemma_fine_of(b.r_lo);
    lemma_fine_of(back);
    let (eh, el) = (FineEstimate::of(b.hi), FineEstimate::of(b.lo));
    let (rh, rl) = (FineEstimate::of(b.r_hi), FineEstimate::of(b.r_lo));
    lemma_fine_minus(rh, rl);
    lemma_fine_minus(eh, el);
    let e = rh.times(eh.minus(el));
    lemma_fine_times(rh, eh.minus(el));
    lemma_fine_quotient_of(e, d);
    assert((e.parts + 2real) * e.scale == 6real * e.scale);
    lemma_fine_minus(eh, FineEstimate::of(back));
    back
}

/// The preconsolidation in double precision: `kappa` times the sum of its offset and the
/// hyperbolic sine of the hardening factor times the compaction.
pub proof fn law_preconsolidation_in_double<N: Numerics>(m: NaccMaterial, alpha: Binary64, n: &N) -> (r:
    (Binary64, Binary64))
    requires
        m.preconsolidation_double(alpha, n).is_finite(),
        m.hardening_factor.to_double().mul(alpha.neg().max(Binary64::zero())).is_finite(),
    ensures
        ({
            let (x, s) = r;
            let (k, h) = (m.kappa.to_double(), m.hardening_factor.to_double());
            let c = alpha.neg().max(Binary64::zero());
            let o = Binary64::from_bits(P0_OFFSET_DOUBLE);
            &&& fine_around(
                x,
                h.amount() * c.amount(),
                fine_weight(h) * fine_weight(c),
                2real,
            )
            &&& s == n.unary_double_of(Unary::Sinh, x)
            &&& fine_around(
                m.preconsolidation_double(alpha, n),
                k.amount() * (o.amount() + s.amount()),
                fine_weight(k) * (fine_weight(o) + fine_weight(s)),
                4real,
            )
        }),
{
    let (k, h) = (m.kappa.to_double(), m.hardening_factor.to_double());
    let c = alpha.neg().max(Binary64::zero());
    let o = Binary64::from_bits(P0_OFFSET_DOUBLE);
    let x = h.mul(c);
    let s = n.unary_double_of(Unary::Sinh, x);
    lemma_fine_product(h, c);
    lemma_double_finite_parts(k, o.add(s));
    lemma_double_finite_parts(o, s);
    lemma_fine_of(k);
    lemma_fine_of(o);
    lemma_fine_of(s);
    let e = FineEstimate::of(o).plus(FineEstimate::of(s));
    lemma_fine_plus(FineEstimate::of(o), FineEstimate::of(s));
    lemma_fine_times(FineEstimate::of(k), e);
    (x, s)
}

} // verus!
