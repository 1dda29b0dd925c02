use vstd::prelude::*;

use crate::binary::around::Estimate;
use crate::binary::around::around;
use crate::binary::around::law_quotient_multiplies_back;
use crate::binary::around::lemma_finite_parts;
use crate::binary::around::lemma_halved;
use crate::binary::around::lemma_looser;
use crate::binary::around::lemma_minus;
use crate::binary::around::lemma_of;
use crate::binary::around::lemma_opposite;
use crate::binary::around::lemma_plus;
use crate::binary::around::lemma_quotient_of;
use crate::binary::around::lemma_times;
use crate::binary::around::positive;
use crate::binary::around::weight;
use crate::binary::error::law_order_of_amounts;
use crate::binary::error::law_quotient_is_near;
use crate::binary::error::lemma_constant_amounts;
use crate::binary::error::lemma_unit_is_small;
use crate::binary::error::off;
use crate::binary::error::size;
use crate::binary::relative::dust;
use crate::binary::roots::law_root_is_near;
use crate::binary::single::Binary32;
use crate::binary::single::half;
use crate::binary::single::lemma_single_constants;
use crate::binary::single::two;
use crate::estimates::estimate;
use crate::estimates::lemma_product;
use crate::linalg::Mat2;
use crate::linalg::Vec2;
use crate::mechanics::MICRO;
use crate::nacc::MIN_SQUARE;
use crate::nacc::MIN_Y0;
use crate::nacc::NaccMaterial;
use crate::nacc::P0_OFFSET;
use crate::nacc::Region;
use crate::nacc::Trial;
use crate::nacc::unit_or_zero;
use crate::nacc_flow::law_pressure_resists_volume_change;
use crate::numerics::Numerics;
use crate::numerics::Unary;

verus! {

/// The preconsolidation is `kappa` times the sum of its offset and the hyperbolic sine of the
/// hardening factor times the compaction.
pub proof fn law_preconsolidation<N: Numerics>(m: NaccMaterial, alpha: Binary32, n: &N) -> (r: (
    Binary32,
    Binary32,
))
    requires
        alpha.is_finite(),
        m.preconsolidation(alpha, n).is_finite(),
        m.hardening_factor.mul(alpha.neg().max(Binary32::zero())).is_finite(),
    ensures
        ({
            let (x, s) = r;
            let o = Binary32::from_bits(P0_OFFSET);
            &&& around(
                x,
                m.hardening_factor.amount() * positive(-alpha.amount()),
                weight(m.hardening_factor) * weight(alpha.neg().max(Binary32::zero())),
                2real,
            )
            &&& s == n.unary_of(Unary::Sinh, x)
            &&& around(
                m.preconsolidation(alpha, n),
                m.kappa.amount() * (o.amount() + s.amount()),
                weight(m.kappa) * (weight(o) + weight(s)),
                4real,
            )
        }),
{
    let z = Binary32::zero();
    let a = alpha.neg().max(z);
    let x = m.hardening_factor.mul(a);
    let s = n.unary_of(Unary::Sinh, x);
    let o = Binary32::from_bits(P0_OFFSET);
    lemma_single_constants();
    lemma_constant_amounts();
    lemma_finite_parts(alpha, alpha);
    lemma_of(alpha);
    lemma_opposite(Estimate::of(alpha));
    law_order_of_amounts(alpha.neg(), z);
    assert(a.amount() == positive(-alpha.amount()));
    lemma_product(m.hardening_factor, a);
    lemma_finite_parts(m.kappa, o.add(s));
    lemma_finite_parts(o, s);
    lemma_of(m.kappa);
    lemma_of(o);
    lemma_of(s);
    lemma_plus(Estimate::of(o), Estimate::of(s));
    lemma_times(Estimate::of(m.kappa), Estimate::of(o).plus(Estimate::of(s)));
    (x, s)
}

/// The principal deviatoric stress is half the difference of the squared stretches times
/// `mu / J`, with opposite signs in the two directions.
pub proof fn law_soil_deviator(m: NaccMaterial, j: Binary32, sq: Vec2) -> (k: Binary32)
    requires
        m.deviatoric_at(j, sq).x.is_finite(),
        m.deviatoric_at(j, sq).y.is_finite(),
        j.is_finite() && j.amount() > 0real,
        Binary32::one().div(j).is_finite(),
    ensures
        ({
            let s = m.deviatoric_at(j, sq);
            let d = (sq.x.amount() - sq.y.amount()) / 2real;
            let w = 2real * (weight(sq.x) + weight(sq.y));
            &&& around(s.x, d * k.amount(), w * weight(k), 8real)
            &&& around(s.y, (-d) * k.amount(), w * weight(k), 8real)
        }),
        ({
            let i = Binary32::one().div(j);
            &&& off(i.amount() * j.amount(), 1real) <= 1real + dust() * j.amount()
            &&& around(k, m.mu.amount() * i.amount(), weight(m.mu) * weight(i), 2real)
        }),
{
    let i = Binary32::one().div(j);
    let k = m.mu.mul(i);
    let h = sq.x.add(sq.y).mul(half());
    lemma_constant_amounts();
    lemma_single_constants();
    law_quotient_multiplies_back(Binary32::one(), j);
    lemma_finite_parts(sq.x.sub(h), k);
    lemma_finite_parts(sq.y.sub(h), k);
    lemma_product(m.mu, i);
    lemma_finite_parts(sq.x, h);
    lemma_finite_parts(sq.y, h);
    lemma_finite_parts(sq.x.add(sq.y), half());
    lemma_of(sq.x);
    lemma_of(sq.y);
    lemma_of(k);
    let (ex, ey) = (Estimate::of(sq.x), Estimate::of(sq.y));
    lemma_plus(ex, ey);
    lemma_halved(ex.plus(ey));
    let eh = ex.plus(ey).halved();
    lemma_minus(ex, eh);
    lemma_minus(ey, eh);
    let (dx, dy) = (ex.minus(eh), ey.minus(eh));
    let w = 2real * (weight(sq.x) + weight(sq.y));
    lemma_looser(dx, w, 6real);
    lemma_looser(dy, w, 6real);
    lemma_times(estimate(dx.got, dx.exact, w, 6real), Estimate::of(k));
    lemma_times(estimate(dy.got, dy.exact, w, 6real), Estimate::of(k));
    k
}

/// The yield function is `2 (1 + 2 beta) s . s + M^2 (p + shift) (p - p0)`.
pub proof fn law_yield_function(m: NaccMaterial, t: Trial)
    requires
        m.yield_function(&t).is_finite(),
    ensures
        ({
            let (sx, sy) = (t.s.x.amount(), t.s.y.amount());
            let f = m.friction.amount();
            let y0 = (1real + 2real * m.cohesion.amount()) * 2real;
            let y1 = ((f * f) * (t.p.amount() + t.shift.amount())) * (t.p.amount()
                - t.p0.amount());
            let w0 = (1real + 2real * weight(m.cohesion)) * 2real;
            let wf = weight(m.friction);
            let (wx, wy) = (weight(t.s.x), weight(t.s.y));
            around(
                m.yield_function(&t),
                y0 * (sx * sx + sy * sy) + y1,
                w0 * (wx * wx + wy * wy) + ((wf * wf) * (weight(t.p) + weight(t.shift))) * (weight(
                    t.p,
                ) + weight(t.p0)),
                16real,
            )
        }),
{
    let one = Binary32::one();
    let b = two().mul(m.cohesion);
    let y0 = m.y0();
    let s2 = t.s.x.mul(t.s.x).add(t.s.y.mul(t.s.y));
    let ff = m.friction.mul(m.friction);
    let ps = t.p.add(t.shift);
    let pp = t.p.sub(t.p0);
    lemma_finite_parts(y0.mul(s2), m.y1(t.p, t.shift, t.p0));
    lemma_finite_parts(y0, s2);
    lemma_finite_parts(one.add(b), two());
    lemma_finite_parts(one, b);
    lemma_finite_parts(two(), m.cohesion);
    lemma_finite_parts(t.s.x.mul(t.s.x), t.s.y.mul(t.s.y));
    lemma_product(t.s.x, t.s.x);
    lemma_product(t.s.y, t.s.y);
    lemma_finite_parts(ff.mul(ps), pp);
    lemma_finite_parts(ff, ps);
    lemma_product(m.friction, m.friction);
    lemma_finite_parts(t.p, t.shift);
    lemma_finite_parts(t.p, t.p0);
    lemma_of(m.cohesion);
    lemma_of(t.p);
    lemma_of(t.shift);
    lemma_of(t.p0);
    lemma_constant_amounts();
    lemma_single_constants();
    let w = estimate(two(), 2real, 2real, 0real);
    let u = estimate(one, 1real, 1real, 0real);
    lemma_times(w, Estimate::of(m.cohesion));
    let eb = u.plus(w.times(Estimate::of(m.cohesion)));
    lemma_plus(u, w.times(Estimate::of(m.cohesion)));
    lemma_times(eb, w);
    let (ex, ey) = (Estimate::of(t.s.x), Estimate::of(t.s.y));
    let es = ex.times(ex).plus(ey.times(ey));
    lemma_plus(ex.times(ex), ey.times(ey));
    let e0 = eb.times(w).times(es);
    lemma_times(eb.times(w), es);
    let ef = Estimate::of(m.friction).times(Estimate::of(m.friction));
    let ep = Estimate::of(t.p).plus(Estimate::of(t.shift));
    lemma_plus(Estimate::of(t.p), Estimate::of(t.shift));
    let em = Estimate::of(t.p).minus(Estimate::of(t.p0));
    lemma_minus(Estimate::of(t.p), Estimate::of(t.p0));
    lemma_times(ef, ep);
    lemma_times(ef.times(ep), em);
    let e1 = ef.times(ep).times(em);
    lemma_plus(e0, e1);
    lemma_looser(e0.plus(e1), e0.plus(e1).scale, 16real);
}

/// The region of a trial state: beyond the cap above the preconsolidation, beyond the tip below
/// the tensile strength, and between them by the sign of the yield function.
pub proof fn law_regions(m: NaccMaterial, t: Trial)
    requires
        t.p.is_finite() && t.p0.is_finite() && t.shift.is_finite(),
        m.yield_function(&t).is_finite(),
    ensures
        m.region(&t) == Region::Cap <==> t.p.amount() > t.p0.amount(),
        m.region(&t) == Region::Tip <==> t.p.amount() <= t.p0.amount() && t.p.amount()
            < -t.shift.amount(),
        m.region(&t) == Region::Outside ==> m.yield_function(&t).amount() > 0real,
        m.region(&t) == Region::Inside ==> 100000real * m.yield_function(&t).amount() <= 100000real,
{
    lemma_single_constants();
    lemma_constant_amounts();
    lemma_of(t.shift);
    lemma_opposite(Estimate::of(t.shift));
    law_order_of_amounts(t.p0, t.p);
    law_order_of_amounts(t.p, t.shift.neg());
    law_order_of_amounts(Binary32::zero(), m.yield_function(&t));
    law_order_of_amounts(m.yield_function(&t), Binary32::one());
}

/// At the cap the elastic pressure is the preconsolidation: `kappa (1 - J^2) = 2 p0`.
pub proof fn law_ratio_at_cap(m: NaccMaterial, p0: Binary32) -> (square: Binary32)
    requires
        m.kappa.is_finite() && m.kappa.amount() != 0real,
        two().neg().mul(p0).is_finite(),
        two().neg().mul(p0).div(m.kappa).is_finite(),
        two().neg().mul(p0).div(m.kappa).add(Binary32::one()).is_finite(),
        Binary32::from_bits(MIN_SQUARE).le(
            two().neg().mul(p0).div(m.kappa).add(Binary32::one()),
        ),
    ensures
        is_returned_ratio(m.ratio_at_cap(p0), square, m.kappa, p0, -2real * p0.amount()),
{
    let x = two().neg().mul(p0);
    lemma_finite_parts(two().neg(), p0);
    lemma_of(p0);
    lemma_constant_amounts();
    lemma_single_constants();
    let w = estimate(two(), 2real, 2real, 0real);
    lemma_opposite(w);
    let e = w.opposite().times(Estimate::of(p0));
    lemma_times(w.opposite(), Estimate::of(p0));
    lemma_returned_ratio(e, m.kappa, p0)
}

/// At the tip the elastic pressure is minus the tensile strength: `kappa (J^2 - 1) = 2 shift`.
pub proof fn law_ratio_at_tip(m: NaccMaterial, shift: Binary32) -> (square: Binary32)
    requires
        m.kappa.is_finite() && m.kappa.amount() != 0real,
        two().mul(shift).is_finite(),
        two().mul(shift).div(m.kappa).is_finite(),
        two().mul(shift).div(m.kappa).add(Binary32::one()).is_finite(),
        Binary32::from_bits(MIN_SQUARE).le(two().mul(shift).div(m.kappa).add(Binary32::one())),
    ensures
        is_returned_ratio(m.ratio_at_tip(shift), square, m.kappa, shift, 2real * shift.amount()),
{
    lemma_finite_parts(two(), shift);
    lemma_of(shift);
    lemma_constant_amounts();
    lemma_single_constants();
    let w = estimate(two(), 2real, 2real, 0real);
    let e = w.times(Estimate::of(shift));
    lemma_times(w, Estimate::of(shift));
    lemma_returned_ratio(e, m.kappa, shift)
}

/// `ratio` is the root of `square`, which is `1 + q` where `q kappa` is `load`.
pub open spec fn is_returned_ratio(
    ratio: Binary32,
    square: Binary32,
    kappa: Binary32,
    p: Binary32,
    load: real,
) -> bool {
    exists|q: Binary32| #[trigger] is_returned_at(ratio, square, q, kappa, p, load)
}

/// The same at the quotient `q`.
pub open spec fn is_returned_at(
    ratio: Binary32,
    square: Binary32,
    q: Binary32,
    kappa: Binary32,
    p: Binary32,
    load: real,
) -> bool {
    &&& ratio.amount() > 0real
    &&& off(ratio.amount() * ratio.amount(), square.amount()) <= 2real * square.amount()
    &&& around(square, 1real + q.amount(), weight(q) + 1real, 2real)
    &&& off(q.amount() * kappa.amount(), load) <= 4real * (2real * weight(p)) + dust() * size(
        kappa.amount(),
    )
}

proof fn lemma_returned_ratio(e: Estimate, kappa: Binary32, p: Binary32) -> (square: Binary32)
    requires
        e.holds(),
        e.scale == 2real * weight(p),
        e.parts == 2real,
        kappa.is_finite() && kappa.amount() != 0real,
        e.got.div(kappa).is_finite(),
        e.got.div(kappa).add(Binary32::one()).is_finite(),
        Binary32::from_bits(MIN_SQUARE).le(e.got.div(kappa).add(Binary32::one())),
    ensures
        is_returned_ratio(
            e.got.div(kappa).add(Binary32::one()).max(Binary32::from_bits(MIN_SQUARE)).sqrt(),
            square,
            kappa,
            p,
            e.exact,
        ),
{
    let q = e.got.div(kappa);
    let square = q.add(Binary32::one());
    lemma_constant_amounts();
    lemma_single_constants();
    lemma_quotient_of(e, kappa);
    assert((e.parts + 2real) * e.scale == 4real * (2real * weight(p)));
    lemma_of(q);
    let u = estimate(Binary32::one(), 1real, 1real, 0real);
    lemma_plus(Estimate::of(q), u);
    assert(square.max(Binary32::from_bits(MIN_SQUARE)) == square);
    law_root_is_near(square);
    assert(is_returned_at(square.sqrt(), square, q, kappa, p, e.exact));
    square
}

/// The trial state of a deformation gradient: volume ratio and squared stretches from the
/// singular values, tensile strength from the preconsolidation and the suction.
pub proof fn law_trial_state<N: Numerics>(
    m: NaccMaterial,
    f: Mat2,
    alpha: Binary32,
    cohesion_bonus_pa: Binary32,
    n: &N,
)
    requires
        ({
            let t = m.trial_of(f, alpha, cohesion_bonus_pa, n);
            t.trace.is_finite() && t.shift.is_finite()
        }),
        ({
            let sigma = n.svd_of(f).1;
            &&& sigma.x.mul(sigma.y).is_finite()
            &&& Binary32::from_bits(MICRO).le(sigma.x.mul(sigma.y))
        }),
    ensures
        ({
            let t = m.trial_of(f, alpha, cohesion_bonus_pa, n);
            let (u, sigma, vt) = n.svd_of(f);
            let (x, y) = (sigma.x.amount(), sigma.y.amount());
            let (wx, wy) = (weight(sigma.x), weight(sigma.y));
            &&& t.u == u && t.vt == vt
            &&& around(t.j, x * y, wx * wy, 2real)
            &&& around(t.trace, x * x + y * y, wx * wx + wy * wy, 4real)
            &&& t.p0 == m.preconsolidation(alpha, n)
            &&& around(
                t.shift,
                m.cohesion.amount() * t.p0.amount() + cohesion_bonus_pa.amount(),
                weight(m.cohesion) * weight(t.p0) + weight(cohesion_bonus_pa),
                4real,
            )
            &&& t.p == m.pressure_at(t.j)
            &&& t.s == m.deviatoric_at(
                t.j,
                Vec2 { x: sigma.x.mul(sigma.x), y: sigma.y.mul(sigma.y) },
            )
        }),
{
    let t = m.trial_of(f, alpha, cohesion_bonus_pa, n);
    let sigma = n.svd_of(f).1;
    lemma_single_constants();
    lemma_product(sigma.x, sigma.y);
    assert(sigma.x.mul(sigma.y).max(Binary32::from_bits(MICRO)) == sigma.x.mul(sigma.y));
    lemma_finite_parts(sigma.x.mul(sigma.x), sigma.y.mul(sigma.y));
    lemma_product(sigma.x, sigma.x);
    lemma_product(sigma.y, sigma.y);
    let (ex, ey) = (Estimate::of(sigma.x), Estimate::of(sigma.y));
    lemma_plus(ex.times(ex), ey.times(ey));
    lemma_finite_parts(m.cohesion.mul(t.p0), cohesion_bonus_pa);
    lemma_product(m.cohesion, t.p0);
    lemma_of(cohesion_bonus_pa);
    lemma_plus(
        Estimate::of(m.cohesion).times(Estimate::of(t.p0)),
        Estimate::of(cohesion_bonus_pa),
    );
}

/// A stretch is the root of its square.
pub proof fn law_stretch(square: Binary32)
    requires
        square.is_finite(),
        Binary32::from_bits(MIN_SQUARE).le(square),
    ensures
        NaccMaterial::stretch(square).amount() > 0real,
        off(
            NaccMaterial::stretch(square).amount() * NaccMaterial::stretch(square).amount(),
            square.amount(),
        ) <= 2real * square.amount(),
{
    lemma_single_constants();
    assert(square.max(Binary32::from_bits(MIN_SQUARE)) == square);
    law_root_is_near(square);
}

/// The squared stretches of a return to the ellipse: half the trace each, and the shear scaled
/// back to `sqrt(-y1 / y0) J / mu` along its direction.
pub proof fn law_ellipse_stretches(m: NaccMaterial, t: Trial, y1: Binary32) -> (r: (
    Binary32,
    Binary32,
    Binary32,
))
    requires
        m.y0().is_finite(),
        Binary32::from_bits(MIN_Y0).le(m.y0()),
        y1.is_finite() && y1.lt(Binary32::zero()),
        y1.neg().div(m.y0()).is_finite(),
        y1.neg().div(m.y0()).gt(Binary32::zero()),
        m.mu.is_finite() && m.mu.amount() != 0real,
        t.j.is_finite() && t.j.div(m.mu).is_finite(),
        t.trace.is_finite(),
        m.ellipse_stretches(&t, y1).x.is_finite(),
        m.ellipse_stretches(&t, y1).y.is_finite(),
    ensures
        ({
            let (q, root, arm) = r;
            let b = m.ellipse_stretches(&t, y1);
            let d = unit_or_zero(t.s);
            let size_of = root.mul(arm);
            &&& off(q.amount() * m.y0().amount(), -y1.amount()) <= size(y1.amount()) + dust()
                * size(m.y0().amount())
            &&& root.amount() > 0real
            &&& off(root.amount() * root.amount(), q.amount()) <= 2real * q.amount()
            &&& off(arm.amount() * m.mu.amount(), t.j.amount()) <= size(t.j.amount()) + dust()
                * size(m.mu.amount())
            &&& around(
                b.x,
                d.x.amount() * (root.amount() * arm.amount()) + t.trace.amount() / 2real,
                weight(d.x) * (weight(root) * weight(arm)) + weight(t.trace),
                6real,
            )
            &&& around(
                b.y,
                d.y.amount() * (root.amount() * arm.amount()) + t.trace.amount() / 2real,
                weight(d.y) * (weight(root) * weight(arm)) + weight(t.trace),
                6real,
            )
        }),
{
    let z = Binary32::zero();
    let y0 = m.y0();
    let q = y1.neg().div(y0);
    let root = q.sqrt();
    let arm = t.j.div(m.mu);
    let g = root.mul(arm);
    let d = unit_or_zero(t.s);
    let half_trace = t.trace.div(two());
    lemma_single_constants();
    lemma_constant_amounts();
    lemma_of(y1);
    lemma_opposite(Estimate::of(y1));
    law_order_of_amounts(z, y0);
    law_quotient_multiplies_back(y1.neg(), y0);
    law_root_is_near(q);
    law_quotient_multiplies_back(t.j, m.mu);
    assert(y0.max(Binary32::from_bits(MIN_Y0)) == y0);
    assert(q.max(z) == q);
    lemma_finite_parts(d.x.mul(g), half_trace);
    lemma_finite_parts(d.y.mul(g), half_trace);
    lemma_finite_parts(d.x, g);
    lemma_finite_parts(d.y, g);
    lemma_product(root, arm);
    lemma_of(d.x);
    lemma_of(d.y);
    let eg = Estimate::of(root).times(Estimate::of(arm));
    lemma_times(Estimate::of(d.x), eg);
    lemma_times(Estimate::of(d.y), eg);
    lemma_half_by_division(t.trace);
    let eh = estimate(half_trace, t.trace.amount() / 2real, weight(t.trace), 2real);
    lemma_plus(Estimate::of(d.x).times(eg), eh);
    lemma_plus(Estimate::of(d.y).times(eg), eh);
    (q, root, arm)
}

/// A half by division.
proof fn lemma_half_by_division(a: Binary32)
    requires
        a.is_finite(),
        a.div(two()).is_finite(),
    ensures
        estimate(a.div(two()), a.amount() / 2real, weight(a), 2real).holds(),
{
    lemma_single_constants();
    lemma_constant_amounts();
    law_quotient_is_near(a, two());
    lemma_unit_is_small();
    let (q, x) = (a.div(two()).amount(), a.amount());
    assert(x / 2real == a.amount() / two().amount());
}

/// Beyond the tip the soil is expanded: the squared volume ratio of the trial is not below that
/// of the tip, up to rounding, so a return from there takes volume off.
pub proof fn law_beyond_the_tip_is_expanded(m: NaccMaterial, t: Trial) -> (r: (Binary32, Binary32))
    requires
        m.region(&t) == Region::Tip,
        t.p == m.pressure_at(t.j),
        t.p.is_finite() && t.shift.is_finite(),
        Binary32::zero().lt(t.j),
        Binary32::one().div(t.j).is_finite(),
        m.kappa.is_finite() && m.kappa.amount() > 0real,
        two().mul(t.shift).is_finite(),
        two().mul(t.shift).div(m.kappa).is_finite(),
        two().mul(t.shift).div(m.kappa).add(Binary32::one()).is_finite(),
        Binary32::from_bits(MIN_SQUARE).le(two().mul(t.shift).div(m.kappa).add(Binary32::one())),
    ensures
        ({
            let (square, q) = r;
            let (k, j, ratio) = (m.kappa.amount(), t.j.amount(), m.ratio_at_tip(t.shift).amount());
            let w = (weight(m.kappa) * (weight(t.j) + weight(Binary32::one().div(t.j)))) * weight(
                t.j,
            );
            &&& around(square, 1real + q.amount(), weight(q) + 1real, 2real)
            &&& 8388608real * (k * (ratio * ratio - j * j)) <= 40real * w + 8real * weight(t.shift)
                + dust() * k + k * (2real * (weight(q) + 1real)) + k * (2real * square.amount())
        }),
{
    let square = law_ratio_at_tip(m, t.shift);
    let r = m.ratio_at_tip(t.shift);
    let q = choose|q: Binary32| #[trigger]
        is_returned_at(r, square, q, m.kappa, t.shift, 2real * t.shift.amount());
    law_pressure_resists_volume_change(m, t.j);
    lemma_single_constants();
    lemma_constant_amounts();
    lemma_of(t.shift);
    lemma_opposite(Estimate::of(t.shift));
    law_order_of_amounts(t.p, t.shift.neg());
    let (k, j, x) = (m.kappa.amount(), t.j.amount(), r.amount());
    let w = (weight(m.kappa) * (weight(t.j) + weight(Binary32::one().div(t.j)))) * weight(t.j);
    let (jj, xx) = (j * j, x * x);
    let (s, y) = (square.amount(), q.amount());
    let wq = weight(q) + 1real;
    assert((k / 2real) * (1real - jj) == (k - k * jj) / 2real) by (nonlinear_arith);
    let (ky, ks, kx, kj) = (k * y, k * s, k * xx, k * jj);
    assert(y * k == ky) by (nonlinear_arith)
        requires
            ky == k * y,
    ;
    assert(8388608real * (ks - k - ky) <= k * (2real * wq)) by (nonlinear_arith)
        requires
            8388608real * (s - (1real + y)) <= 2real * wq,
            k > 0real,
            ks == k * s,
            ky == k * y,
    ;
    assert(8388608real * (kx - ks) <= k * (2real * s)) by (nonlinear_arith)
        requires
            8388608real * (xx - s) <= 2real * s,
            k > 0real,
            kx == k * xx,
            ks == k * s,
    ;
    assert(k * (xx - jj) == kx - kj) by (nonlinear_arith)
        requires
            kx == k * xx,
            kj == k * jj,
    ;
    (square, q)
}

} // verus!
