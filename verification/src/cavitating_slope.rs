use vstd::prelude::*;

use crate::binary::error::huge;
use crate::binary::error::law_difference_is_near;
use crate::binary::error::law_order_of_amounts;
use crate::binary::error::law_product_is_near;
use crate::binary::error::law_quotient_is_near;
use crate::binary::error::law_sum_is_near;
use crate::binary::error::lemma_constant_amounts;
use crate::binary::error::off;
use crate::binary::error::size;
use crate::binary::error::tiny;
use crate::binary::laws::law_division_is_monotone;
use crate::binary::laws::law_finite_product_is_a_number;
use crate::binary::laws::law_finite_quotient_is_a_number;
use crate::binary::laws::law_multiplication_commutes;
use crate::binary::laws::law_multiplication_is_monotone;
use crate::binary::laws::law_subtraction_is_monotone;
use crate::binary::laws::law_sum_with_finite_is_a_number;
use crate::binary::relative::is_ordinary;
use crate::binary::relative::lemma_dust;
use crate::binary::relative::lemma_ordinary_product;
use crate::binary::relative::lemma_within_product;
use crate::binary::relative::lemma_within_quotient;
use crate::binary::relative::within;
use crate::binary::single::Binary32;
use crate::binary::single::half;
use crate::binary::single::lemma_single_constants;
use crate::binary::single::two;
use crate::cavitating_eos::Branch;
use crate::cavitating_eos::CavitatingEosParams;
use crate::cavitating_eos::MixtureJunctionEdges;
use crate::numerics::Numerics;
use crate::numerics::Unary;

verus! {

/// The growth of a routine over a step of its argument is what its slope says, up to the
/// share `t`.
pub open spec fn grows_by(low: real, high: real, rise: real, t: real) -> bool {
    size((high - low) - rise) <= t * rise
}

/// The pressure of the vapour is rounded little.
proof fn lemma_vapor_is_near(b: Binary32, power: Binary32)
    requires
        is_ordinary(b),
        power.is_finite(),
        0real <= power.amount() <= 1073741824real,
    ensures
        b.mul(power.sub(Binary32::one())).is_finite(),
        off(
            b.mul(power.sub(Binary32::one())).amount(),
            b.amount() * (power.amount() - 1real),
        ) <= 3real * (b.amount() * (power.amount() + 1real)) + 1real,
{
    lemma_single_constants();
    lemma_constant_amounts();
    lemma_dust();
    let x = b.amount();
    let p = power.amount();
    law_difference_is_near(power, Binary32::one());
    let d = power.sub(Binary32::one());
    let e = x * (p + 1real);
    assert(size(x * d.amount()) <= 2real * e && 8388608real * size(x * d.amount() - x * (p - 1real))
        <= e && e > 0real && e <= 2305843009213693952real) by (nonlinear_arith)
        requires
            e == x * (p + 1real),
            8388608real * size(d.amount() - (p - 1real)) <= p + 1real,
            0real < x <= 1073741824real,
            0real <= p <= 1073741824real,
    ;
    law_product_is_near(b, d);
}

/// A step in units of a reference.
proof fn lemma_scaled_step(x: Binary32, y: Binary32, r: Binary32)
    requires
        is_ordinary(x),
        is_ordinary(y),
        is_ordinary(r),
    ensures
        x.div(r).is_finite(),
        y.div(r).is_finite(),
        off(
            (y.div(r).amount() - x.div(r).amount()) * r.amount(),
            y.amount() - x.amount(),
        ) <= 2real * (x.amount() + y.amount()),
{
    lemma_scaled(x, r);
    lemma_scaled(y, r);
    let a = x.div(r).amount() * r.amount() - x.amount();
    let b = y.div(r).amount() * r.amount() - y.amount();
    assert((y.div(r).amount() - x.div(r).amount()) * r.amount() == y.div(r).amount() * r.amount()
        - x.div(r).amount() * r.amount()) by (nonlinear_arith);
}

/// A density in units of a reference.
proof fn lemma_scaled(x: Binary32, r: Binary32)
    requires
        is_ordinary(x),
        is_ordinary(r),
    ensures
        x.div(r).is_finite(),
        off(x.div(r).amount() * r.amount(), x.amount()) <= 2real * x.amount(),
{
    lemma_dust();
    let a = x.amount();
    let b = r.amount();
    let e = a / b;
    assert(e * b == a && e <= 1152921504606846976real && 1152921504606846976real * e >= 1real)
        by (nonlinear_arith)
        requires
            e == a / b,
            1real <= 1073741824real * a,
            a <= 1073741824real,
            1real <= 1073741824real * b,
            b <= 1073741824real,
    ;
    law_quotient_is_near(x, r);
    lemma_within_quotient(a, a, 0real, b, b, 0real, x.div(r).amount());
    let g = x.div(r).amount();
    assert(8388608real * size(g * b - a) <= 2real * a) by (nonlinear_arith)
        requires
            8388608real * size(g - e) <= 2real * e,
            e * b == a,
            b > 0real,
    ;
}

/// The pressure difference against the slope, in real numbers.
proof fn lemma_vapor_step(
    b: real,
    g: real,
    v: real,
    q: real,
    low: real,
    high: real,
    p: real,
    r: real,
    x: real,
    y: real,
    lo: real,
    hi: real,
    c: real,
    t: real,
)
    requires
        b > 0real,
        g > 0real,
        v > 0real,
        q > 0real,
        low >= 0real,
        high >= 0real,
        0real <= t <= 1real,
        0real < lo <= hi,
        off(p, b * (low - 1real)) <= 3real * (b * (low + 1real)) + 1real,
        off(r, b * (high - 1real)) <= 3real * (b * (high + 1real)) + 1real,
        off((y - x) * v, hi - lo) <= 2real * (lo + hi),
        x <= y,
        grows_by(low, high, g * q * (y - x), t),
        within(c, b * g / v * q, 8real),
    ensures
        size((r - p) - c * (hi - lo)) <= 2real * (t * (c * (hi - lo))) + (4real * (b * (low + high
            + 2real)) + 32real * (c * (lo + hi)) + 2real) / 8388608real,
{
    let f = 8388608real;
    let k = b * g / v * q;
    let d = hi - lo;
    let s = lo + hi;
    let w = (y - x) * v;
    assert(k * v == b * (g * q) && k > 0real) by (nonlinear_arith)
        requires
            k == b * g / v * q,
            v > 0real,
            b > 0real,
            g > 0real,
            q > 0real,
    ;
    // the rise of the power law
    let rise = g * q * (y - x);
    assert(b * rise == k * w) by (nonlinear_arith)
        requires
            rise == g * q * (y - x),
            w == (y - x) * v,
            k * v == b * (g * q),
    ;
    assert(size(b * (high - low) - k * w) <= t * (k * w)) by (nonlinear_arith)
        requires
            size((high - low) - rise) <= t * rise,
            b * rise == k * w,
            b > 0real,
    ;
    assert(size((r - p) - b * (high - low)) * f <= 3real * (b * (low + high + 2real)) + 2real)
        by (nonlinear_arith)
        requires
            f * size(p - b * (low - 1real)) <= 3real * (b * (low + 1real)) + 1real,
            f * size(r - b * (high - 1real)) <= 3real * (b * (high + 1real)) + 1real,
            f == 8388608real,
    ;
    // the step of the density
    assert(f * size(k * w - k * d) <= 2real * (k * s)) by (nonlinear_arith)
        requires
            f * size(w - d) <= 2real * s,
            k > 0real,
            f == 8388608real,
    ;
    assert(0real <= k * d <= k * s) by (nonlinear_arith)
        requires
            d == hi - lo,
            s == hi + lo,
            0real < lo <= hi,
            k > 0real,
    ;
    // the slope
    assert(f * size(c * d - k * d) <= 8real * (k * d)) by (nonlinear_arith)
        requires
            f * size(c - k) <= 8real * k,
            d >= 0real,
            f == 8388608real,
    ;
    assert(f * size(c * s - k * s) <= 8real * (k * s)) by (nonlinear_arith)
        requires
            f * size(c - k) <= 8real * k,
            s >= 0real,
            f == 8388608real,
    ;
    assert(t * (k * w) <= 2real * (t * (c * d)) + 4real * (k * s) / f) by (nonlinear_arith)
        requires
            k * w <= k * d + 2real * (k * s) / f,
            k * d <= 2real * (c * d),
            0real <= t <= 1real,
            k * s >= 0real,
            f == 8388608real,
    ;
    assert(b * (low + high + 2real) >= 0real) by (nonlinear_arith)
        requires
            b > 0real,
            low >= 0real,
            high >= 0real,
    ;
    let e = (r - p) - b * (high - low);
    let h = b * (high - low) - k * w;
    assert((r - p) - c * d == e + h + (k * w - k * d) - (c * d - k * d));
    assert(f * size((r - p) - c * d) <= f * size(e) + f * size(h) + f * size(k * w - k * d) + f
        * size(c * d - k * d));
    assert(f * size(h) <= f * (2real * (t * (c * d))) + 4real * (k * s));
    assert(k * s <= 2real * (c * s));
}

/// The slope of the vapour law is rounded little.
proof fn lemma_vapor_slope_is_near(b: Binary32, g: Binary32, v: Binary32, q: Binary32)
    requires
        is_ordinary(b),
        is_ordinary(g),
        is_ordinary(v),
        is_ordinary(q),
    ensures
        b.mul(g).div(v).mul(q).is_finite(),
        within(
            b.mul(g).div(v).mul(q).amount(),
            b.amount() * g.amount() / v.amount() * q.amount(),
            8real,
        ),
{
    lemma_dust();
    lemma_ordinary_product(b, g);
    let p = b.amount() * g.amount();
    let w = v.amount();
    let k = p / w;
    assert(k * w == p && k <= 1237940039285380274899124224real && 1237940039285380274899124224real
        * k >= 1real) by (nonlinear_arith)
        requires
            k == p / w,
            1real <= 1152921504606846976real * p,
            p <= 1152921504606846976real,
            1real <= 1073741824real * w,
            w <= 1073741824real,
    ;
    let pf = b.mul(g);
    assert(size(pf.amount() / w) <= 2real * k) by (nonlinear_arith)
        requires
            8388608real * size(pf.amount() - p) <= 2real * p,
            k * w == p,
            w > 0real,
            k > 0real,
    ;
    law_quotient_is_near(pf, v);
    let kf = pf.div(v);
    lemma_within_quotient(pf.amount(), p, 2real, w, w, 0real, kf.amount());
    let z = q.amount();
    let e = k * z;
    assert(1329227995784915872903807060280344576real * e >= 1real && e
        <= 1329227995784915872903807060280344576real) by (nonlinear_arith)
        requires
            e == k * z,
            k <= 1237940039285380274899124224real,
            1237940039285380274899124224real * k >= 1real,
            1real <= 1073741824real * z,
            z <= 1073741824real,
    ;
    assert(size(kf.amount() * z) <= 2real * e) by (nonlinear_arith)
        requires
            8388608real * size(kf.amount() - k) <= 4real * k,
            e == k * z,
            z > 0real,
            k > 0real,
    ;
    law_product_is_near(kf, q);
    lemma_within_product(kf.amount(), k, 4real, z, z, 0real, kf.mul(q).amount());
    assert(8388608real * size(kf.mul(q).amount() - e) <= 6real * e);
    assert(b.amount() * g.amount() / v.amount() * q.amount() == e);
}

/// In the vapour the squared sound speed is the slope of the pressure: between two densities
/// the pressures differ by the squared sound speed at a third times the distance, up to the
/// share `t` by which the power law is curved between them and up to rounding, where powers
/// grow by the exponent times the next lower power, up to that share.
pub proof fn law_vapor_pressure_has_the_sound_slope<N: Numerics>(
    eos: CavitatingEosParams,
    lo: Binary32,
    rho: Binary32,
    hi: Binary32,
    t: real,
    n: &N,
)
    requires
        eos.branch(lo) == Branch::Vapor,
        eos.branch(rho) == Branch::Vapor,
        eos.branch(hi) == Branch::Vapor,
        is_ordinary(lo),
        is_ordinary(hi),
        lo.le(hi),
        is_ordinary(eos.b_pa),
        is_ordinary(eos.gamma_v),
        is_ordinary(eos.rho_v_ref_kg_m3),
        0real <= t <= 1real,
        ({
            let r = eos.rho_v_ref_kg_m3;
            let low = n.pow_of(lo.div(r), eos.gamma_v);
            let high = n.pow_of(hi.div(r), eos.gamma_v);
            let q = n.pow_of(rho.div(r), eos.gamma_v.sub(Binary32::one()));
            &&& low.is_finite() && 0real <= low.amount() <= 1073741824real
            &&& high.is_finite() && 0real <= high.amount() <= 1073741824real
            &&& is_ordinary(q)
            &&& grows_by(
                low.amount(),
                high.amount(),
                eos.gamma_v.amount() * q.amount() * (hi.div(r).amount() - lo.div(r).amount()),
                t,
            )
        }),
    ensures
        ({
            let r = eos.rho_v_ref_kg_m3;
            let low = n.pow_of(lo.div(r), eos.gamma_v).amount();
            let high = n.pow_of(hi.div(r), eos.gamma_v).amount();
            let c2 = eos.sound_at(rho, n).amount();
            let step = hi.amount() - lo.amount();
            let rise = eos.pressure_at(hi, n).amount() - eos.pressure_at(lo, n).amount();
            size(rise - c2 * step) <= 2real * (t * (c2 * step)) + (4real * (eos.b_pa.amount() * (low
                + high + 2real)) + 32real * (c2 * (lo.amount() + hi.amount())) + 2real)
                / 8388608real
        }),
{
    lemma_single_constants();
    let r = eos.rho_v_ref_kg_m3;
    let low = n.pow_of(lo.div(r), eos.gamma_v);
    let high = n.pow_of(hi.div(r), eos.gamma_v);
    let q = n.pow_of(rho.div(r), eos.gamma_v.sub(Binary32::one()));
    lemma_vapor_is_near(eos.b_pa, low);
    lemma_vapor_is_near(eos.b_pa, high);
    lemma_scaled_step(lo, hi, r);
    lemma_vapor_slope_is_near(eos.b_pa, eos.gamma_v, r, q);
    law_order_of_amounts(lo, hi);
    law_order_of_amounts(Binary32::zero(), r);
    lemma_constant_amounts();
    law_finite_quotient_is_a_number(lo, r);
    law_finite_quotient_is_a_number(hi, r);
    law_division_is_monotone(lo, hi, r);
    law_order_of_amounts(lo.div(r), hi.div(r));
    lemma_vapor_step(
        eos.b_pa.amount(),
        eos.gamma_v.amount(),
        r.amount(),
        q.amount(),
        low.amount(),
        high.amount(),
        eos.pressure_at(lo, n).amount(),
        eos.pressure_at(hi, n).amount(),
        lo.div(r).amount(),
        hi.div(r).amount(),
        lo.amount(),
        hi.amount(),
        eos.sound_at(rho, n).amount(),
        t,
    );
}

/// A position in the band is rounded little.
proof fn lemma_position_is_near(edges: MixtureJunctionEdges, rho: Binary32)
    requires
        is_ordinary(rho),
        edges.rho_m_plus_kg_m3.add(edges.rho_m_minus_kg_m3).is_finite(),
        size(edges.rho_m_plus_kg_m3.add(edges.rho_m_minus_kg_m3).amount()) <= 4294967296real,
        is_ordinary(edges.rho_m_plus_kg_m3.sub(edges.rho_m_minus_kg_m3)),
        size(edges.position(rho).amount()) <= 1real,
    ensures
        edges.position(rho).is_finite(),
        ({
            let sum = edges.rho_m_plus_kg_m3.add(edges.rho_m_minus_kg_m3).amount();
            let w = edges.rho_m_plus_kg_m3.sub(edges.rho_m_minus_kg_m3).amount();
            off(edges.position(rho).amount() * w, 2real * rho.amount() - sum) <= 4real * w + 4real
                * rho.amount() + 1real
        }),
{
    lemma_single_constants();
    lemma_constant_amounts();
    lemma_dust();
    let sum = edges.rho_m_plus_kg_m3.add(edges.rho_m_minus_kg_m3);
    let width = edges.rho_m_plus_kg_m3.sub(edges.rho_m_minus_kg_m3);
    let w = width.amount();
    let x = rho.amount();
    law_product_is_near(two(), rho);
    let d = two().mul(rho);
    law_difference_is_near(d, sum);
    let u = d.sub(sum);
    let q = u.amount() / w;
    assert(q * w == u.amount() && size(q) <= huge()) by (nonlinear_arith)
        requires
            q == u.amount() / w,
            1real <= 1073741824real * w,
            size(u.amount()) <= 17179869184real,
            huge() == 170141183460469231731687303715884105728real,
    ;
    law_quotient_is_near(u, width);
    let g = edges.position(rho).amount();
    let s = 8388608real * tiny();
    assert(8388608real * size(g * w - u.amount()) <= size(u.amount()) + s * w) by (nonlinear_arith)
        requires
            8388608real * size(g - q) <= size(q) + s,
            q * w == u.amount(),
            w > 0real,
    ;
    assert(s * w <= 1real / 1024real) by (nonlinear_arith)
        requires
            1000000000000000real * s <= 1real,
            s > 0real,
            0real < w <= 1073741824real,
    ;
    assert(size(g * w) <= w) by (nonlinear_arith)
        requires
            size(g) <= 1real,
            w > 0real,
    ;
}

/// The amplitude of the arcsine is rounded little.
proof fn lemma_amplitude_is_near(square: Binary32, width: Binary32)
    requires
        is_ordinary(square),
        is_ordinary(width),
    ensures
        square.mul(width).mul(half()).is_finite(),
        within(
            square.mul(width).mul(half()).amount(),
            square.amount() * width.amount() / 2real,
            4real,
        ),
        square.amount() * width.amount() / 2real <= 576460752303423488real,
        square.amount() * width.amount() > 0real,
{
    lemma_single_constants();
    lemma_constant_amounts();
    lemma_dust();
    lemma_ordinary_product(square, width);
    let p = square.mul(width);
    let e = square.amount() * width.amount();
    law_product_is_near(p, half());
    lemma_within_product(
        p.amount(),
        e,
        2real,
        1real / 2real,
        1real / 2real,
        0real,
        p.mul(half()).amount(),
    );
    assert(e * (1real / 2real) == e / 2real);
}

/// The pressure of the mixture is rounded little.
proof fn lemma_mixture_is_near(p: Binary32, a: Binary32, x: Binary32)
    requires
        p.is_finite(),
        size(p.amount()) <= 1152921504606846976real,
        a.is_finite(),
        0real < a.amount() <= 1152921504606846976real,
        x.is_finite(),
        size(x.amount()) <= 2real,
    ensures
        p.add(a.mul(x)).is_finite(),
        off(p.add(a.mul(x)).amount(), p.amount() + a.amount() * x.amount()) <= size(p.amount())
            + 3real * (a.amount() * size(x.amount())) + 1real,
{
    lemma_dust();
    let m = a.amount() * x.amount();
    let b = a.amount() * size(x.amount());
    assert(size(m) == b && b <= 2305843009213693952real && b >= 0real) by (nonlinear_arith)
        requires
            m == a.amount() * x.amount(),
            b == a.amount() * size(x.amount()),
            0real < a.amount() <= 1152921504606846976real,
            size(x.amount()) <= 2real,
    ;
    law_product_is_near(a, x);
    law_sum_is_near(p, a.mul(x));
}

/// The pressure difference against the slope, in real numbers.
proof fn lemma_mixture_step(
    p: real,
    sq: real,
    a: real,
    w: real,
    r: real,
    low: real,
    high: real,
    first: real,
    second: real,
    x: real,
    y: real,
    sum: real,
    lo: real,
    hi: real,
    c: real,
    t: real,
)
    requires
        sq > 0real,
        w > 0real,
        r > 0real,
        a > 0real,
        0real <= t <= 1real,
        0real < lo <= hi,
        x <= y,
        within(a, sq * w / 2real, 4real),
        within(c, sq / r, 2real),
        off(first, p + a * low) <= size(p) + 3real * (a * size(low)) + 1real,
        off(second, p + a * high) <= size(p) + 3real * (a * size(high)) + 1real,
        off(x * w, 2real * lo - sum) <= 4real * w + 4real * lo + 1real,
        off(y * w, 2real * hi - sum) <= 4real * w + 4real * hi + 1real,
        grows_by(low, high, (y - x) / r, t),
    ensures
        size((second - first) - c * (hi - lo)) <= 2real * (t * (c * (hi - lo))) + (2real * size(p)
            + 4real * (a * (size(low) + size(high))) + 2real + 64real * (c * (w + lo + hi
            + 1real))) / 8388608real,
{
    let f = 8388608real;
    let k = sq / r;
    let d = hi - lo;
    let s = w + lo + hi + 1real;
    let g = (y - x) * w / 2real;
    let rise = (y - x) / r;
    assert(k * r == sq && k > 0real) by (nonlinear_arith)
        requires
            k == sq / r,
            r > 0real,
            sq > 0real,
    ;
    assert(rise * r == y - x && rise >= 0real) by (nonlinear_arith)
        requires
            rise == (y - x) / r,
            r > 0real,
            x <= y,
    ;
    // the step of the position is that of the density
    assert(f * size(g - d) <= 4real * s) by (nonlinear_arith)
        requires
            g == (y - x) * w / 2real,
            d == hi - lo,
            s == w + lo + hi + 1real,
            f * size(x * w - (2real * lo - sum)) <= 4real * w + 4real * lo + 1real,
            f * size(y * w - (2real * hi - sum)) <= 4real * w + 4real * hi + 1real,
            f == 8388608real,
            w > 0real,
            lo > 0real,
            hi > 0real,
    ;
    assert(0real <= g) by (nonlinear_arith)
        requires
            g == (y - x) * w / 2real,
            x <= y,
            w > 0real,
    ;
    // amplitude times growth
    let e = sq * w / 2real;
    assert(e * rise == k * g) by (nonlinear_arith)
        requires
            e == sq * w / 2real,
            g == (y - x) * w / 2real,
            rise * r == y - x,
            k * r == sq,
    ;
    assert(f * size(a * rise - k * g) <= 4real * (k * g)) by (nonlinear_arith)
        requires
            f * size(a - e) <= 4real * e,
            e * rise == k * g,
            rise >= 0real,
            f == 8388608real,
    ;
    assert(size(a * (high - low) - a * rise) <= t * (a * rise)) by (nonlinear_arith)
        requires
            size((high - low) - rise) <= t * rise,
            a > 0real,
    ;
    assert(a * (size(low) + size(high)) == a * size(low) + a * size(high)) by (nonlinear_arith);
    assert(a * size(low) >= 0real && a * size(high) >= 0real) by (nonlinear_arith)
        requires
            a > 0real,
            size(low) >= 0real,
            size(high) >= 0real,
    ;
    assert(a * (high - low) == a * high - a * low) by (nonlinear_arith);
    assert(f * size(k * g - k * d) <= 4real * (k * s)) by (nonlinear_arith)
        requires
            f * size(g - d) <= 4real * s,
            k > 0real,
            f == 8388608real,
    ;
    assert(0real <= k * d <= k * s && k * g >= 0real) by (nonlinear_arith)
        requires
            d == hi - lo,
            s == w + lo + hi + 1real,
            0real < lo <= hi,
            w > 0real,
            k > 0real,
            g >= 0real,
    ;
    assert(f * size(c * d - k * d) <= 2real * (k * d)) by (nonlinear_arith)
        requires
            f * size(c - k) <= 2real * k,
            d >= 0real,
            f == 8388608real,
    ;
    assert(f * size(c * s - k * s) <= 2real * (k * s)) by (nonlinear_arith)
        requires
            f * size(c - k) <= 2real * k,
            s >= 0real,
            f == 8388608real,
    ;
    assert(f * (a * rise) <= f * (k * d) + 9real * (k * s));
    assert(f * (t * (a * rise)) <= f * (2real * (t * (c * d))) + 9real * (k * s))
        by (nonlinear_arith)
        requires
            f * (a * rise) <= f * (k * d) + 9real * (k * s),
            k * d <= 2real * (c * d),
            0real <= t <= 1real,
            k * s >= 0real,
            f == 8388608real,
    ;
    lemma_mixture_total(
        first,
        second,
        p,
        a * low,
        a * high,
        a * size(low),
        a * size(high),
        a * rise,
        k * g,
        k * d,
        c * d,
        k * s,
        c * s,
        t * (a * rise),
        t * (c * d),
    );
}

/// The sum of the errors.
proof fn lemma_mixture_total(
    first: real,
    second: real,
    p: real,
    al: real,
    ah: real,
    sl: real,
    sh: real,
    ar: real,
    kg: real,
    kd: real,
    cd: real,
    ks: real,
    cs: real,
    tar: real,
    tcd: real,
)
    requires
        off(first, p + al) <= size(p) + 3real * sl + 1real,
        off(second, p + ah) <= size(p) + 3real * sh + 1real,
        size((ah - al) - ar) <= tar,
        off(ar, kg) <= 4real * kg,
        off(kg, kd) <= 4real * ks,
        off(cd, kd) <= 2real * kd,
        off(cs, ks) <= 2real * ks,
        0real <= kd <= ks,
        0real <= kg,
        sl >= 0real,
        sh >= 0real,
        8388608real * tar <= 8388608real * (2real * tcd) + 9real * ks,
    ensures
        size((second - first) - cd) <= 2real * tcd + (2real * size(p) + 4real * (sl + sh) + 2real
            + 64real * cs) / 8388608real,
{
    let f = 8388608real;
    assert(f * size((second - first) - (ah - al)) <= 2real * size(p) + 3real * (sl + sh) + 2real);
    assert(f * size(ar - kd) <= 9real * ks);
    assert(f * size(ar - cd) <= 11real * ks);
    assert(ks <= 2real * cs);
}

impl MixtureJunctionEdges {
    /// The arcsine of the position of a density.
    pub open spec fn angle<N: Numerics>(&self, rho: Binary32, n: &N) -> Binary32 {
        n.unary_of(
            Unary::Asin,
            self.position(rho).clamp(Binary32::one().neg(), Binary32::one()),
        )
    }

    /// What the slope of the arcsine is the inverse of: the root of one minus the squared
    /// position.
    pub open spec fn cosine(&self, rho: Binary32) -> Binary32 {
        Binary32::one().sub(self.position(rho).mul(self.position(rho))).max(
            Binary32::from_bits(0x0da2_4260),
        ).sqrt()
    }
}

/// In the mixture the squared sound speed is the slope of the pressure: between two densities
/// the pressures differ by the squared sound speed at a third times the distance, up to the
/// share `t` by which the arcsine is curved between them and up to rounding, where the
/// arcsine grows by the step of its argument over the root of one minus its square, up to
/// that share.
pub proof fn law_mixture_pressure_has_the_sound_slope<N: Numerics>(
    eos: CavitatingEosParams,
    lo: Binary32,
    rho: Binary32,
    hi: Binary32,
    t: real,
    n: &N,
)
    requires
        eos.branch(lo) == Branch::Mixture,
        eos.branch(rho) == Branch::Mixture,
        eos.branch(hi) == Branch::Mixture,
        is_ordinary(lo),
        is_ordinary(hi),
        lo.le(hi),
        eos.p_v_gauge_pa.is_finite(),
        size(eos.p_v_gauge_pa.amount()) <= 1152921504606846976real,
        is_ordinary(eos.c_min_m_s.mul(eos.c_min_m_s)),
        eos.rho_m_plus_kg_m3.add(eos.rho_m_minus_kg_m3).is_finite(),
        size(eos.rho_m_plus_kg_m3.add(eos.rho_m_minus_kg_m3).amount()) <= 4294967296real,
        is_ordinary(eos.rho_m_plus_kg_m3.sub(eos.rho_m_minus_kg_m3)),
        is_ordinary(eos.band().cosine(rho)),
        size(eos.band().position(lo).amount()) <= 1real,
        size(eos.band().position(hi).amount()) <= 1real,
        eos.band().angle(lo, n).is_finite() && size(eos.band().angle(lo, n).amount()) <= 2real,
        eos.band().angle(hi, n).is_finite() && size(eos.band().angle(hi, n).amount()) <= 2real,
        0real <= t <= 1real,
        grows_by(
            eos.band().angle(lo, n).amount(),
            eos.band().angle(hi, n).amount(),
            (eos.band().position(hi).amount() - eos.band().position(lo).amount())
                / eos.band().cosine(rho).amount(),
            t,
        ),
    ensures
        ({
            let width = eos.rho_m_plus_kg_m3.sub(eos.rho_m_minus_kg_m3).amount();
            let a = eos.amplitude().amount();
            let angles = size(eos.band().angle(lo, n).amount()) + size(
                eos.band().angle(hi, n).amount(),
            );
            let c2 = eos.sound_at(rho, n).amount();
            let step = hi.amount() - lo.amount();
            let rise = eos.pressure_at(hi, n).amount() - eos.pressure_at(lo, n).amount();
            size(rise - c2 * step) <= 2real * (t * (c2 * step)) + (2real * size(
                eos.p_v_gauge_pa.amount(),
            ) + 4real * (a * angles) + 2real + 64real * (c2 * (width + lo.amount() + hi.amount()
                + 1real))) / 8388608real
        }),
{
    lemma_single_constants();
    lemma_constant_amounts();
    lemma_dust();
    let edges = eos.band();
    let sum = edges.rho_m_plus_kg_m3.add(edges.rho_m_minus_kg_m3);
    let width = edges.rho_m_plus_kg_m3.sub(edges.rho_m_minus_kg_m3);
    let square = eos.c_min_m_s.mul(eos.c_min_m_s);
    let r = edges.cosine(rho);
    lemma_position_is_near(edges, lo);
    lemma_position_is_near(edges, hi);
    lemma_amplitude_is_near(square, width);
    let a = eos.amplitude();
    lemma_mixture_is_near(eos.p_v_gauge_pa, a, edges.angle(lo, n));
    lemma_mixture_is_near(eos.p_v_gauge_pa, a, edges.angle(hi, n));
    // the slope
    let k = square.amount() / r.amount();
    assert(k <= 1152921504606846976real && 1152921504606846976real * k >= 1real)
        by (nonlinear_arith)
        requires
            k == square.amount() / r.amount(),
            1real <= 1073741824real * square.amount(),
            square.amount() <= 1073741824real,
            1real <= 1073741824real * r.amount(),
            r.amount() <= 1073741824real,
    ;
    law_quotient_is_near(square, r);
    lemma_within_quotient(
        square.amount(),
        square.amount(),
        0real,
        r.amount(),
        r.amount(),
        0real,
        square.div(r).amount(),
    );
    // the order of the positions
    law_order_of_amounts(lo, hi);
    lemma_positions_are_ordered(edges, lo, hi);
    lemma_mixture_step(
        eos.p_v_gauge_pa.amount(),
        square.amount(),
        a.amount(),
        width.amount(),
        r.amount(),
        edges.angle(lo, n).amount(),
        edges.angle(hi, n).amount(),
        eos.pressure_at(lo, n).amount(),
        eos.pressure_at(hi, n).amount(),
        edges.position(lo).amount(),
        edges.position(hi).amount(),
        sum.amount(),
        lo.amount(),
        hi.amount(),
        eos.sound_at(rho, n).amount(),
        t,
    );
}

/// Positions are ordered as densities.
proof fn lemma_positions_are_ordered(edges: MixtureJunctionEdges, lo: Binary32, hi: Binary32)
    requires
        is_ordinary(lo),
        is_ordinary(hi),
        lo.le(hi),
        edges.rho_m_plus_kg_m3.add(edges.rho_m_minus_kg_m3).is_finite(),
        is_ordinary(edges.rho_m_plus_kg_m3.sub(edges.rho_m_minus_kg_m3)),
        edges.position(lo).is_finite(),
        edges.position(hi).is_finite(),
    ensures
        edges.position(lo).amount() <= edges.position(hi).amount(),
{
    lemma_single_constants();
    lemma_constant_amounts();
    let sum = edges.rho_m_plus_kg_m3.add(edges.rho_m_minus_kg_m3);
    let width = edges.rho_m_plus_kg_m3.sub(edges.rho_m_minus_kg_m3);
    law_finite_product_is_a_number(two(), lo);
    law_finite_product_is_a_number(two(), hi);
    law_multiplication_commutes(two(), lo);
    law_multiplication_commutes(two(), hi);
    law_multiplication_is_monotone(lo, hi, two());
    law_sum_with_finite_is_a_number(two().mul(lo), sum);
    law_sum_with_finite_is_a_number(two().mul(hi), sum);
    law_subtraction_is_monotone(two().mul(lo), two().mul(hi), sum);
    law_order_of_amounts(Binary32::zero(), width);
    law_division_is_monotone(two().mul(lo).sub(sum), two().mul(hi).sub(sum), width);
    law_order_of_amounts(edges.position(lo), edges.position(hi));
}

} // verus!
