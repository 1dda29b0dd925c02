use vstd::arithmetic::power2::lemma2_to64;
use vstd::arithmetic::power2::lemma_pow2_adds;
use vstd::arithmetic::power2::lemma_pow2_pos;
use vstd::arithmetic::power2::lemma_pow2_strictly_increases;
use vstd::arithmetic::power2::pow2;
use vstd::prelude::*;

use crate::binary::arith::product_of;
use crate::binary::arith::root_of;
use crate::binary::close::lemma_product_index_error;
use crate::binary::error::lemma_amount;
use crate::binary::error::lemma_product_of_reals;
use crate::binary::error::lemma_tiny;
use crate::binary::error::off;
use crate::binary::error::units;
use crate::binary::exact::Exact;
use crate::binary::exact::lemma_excess_decreases;
use crate::binary::exact::lemma_mag_increases;
use crate::binary::exact::lemma_mag_next;
use crate::binary::exact::lemma_mag_of_parts;
use crate::binary::exact::lemma_nearest_unique;
use crate::binary::exact::lemma_parts_of;
use crate::binary::exact::lemma_representable_is_fixed;
use crate::binary::exact::lemma_rounding_monotone;
use crate::binary::exact::mag;
use crate::binary::exact::nearest;
use crate::binary::exact::rounds_to;
use crate::binary::exact::sig_of;
use crate::binary::exact::step_of;
use crate::binary::number::Num;
use crate::binary::number::root;
use crate::binary::order::lemma_format_bounds;
use crate::binary::order::lemma_nearest_is_attained;
use crate::binary::round::single;
use crate::binary::single::Binary32;
use crate::binary::single::lemma_single_constants;

verus! {

/// A square rounded with relative error `2^-24` still lies between the squares of
/// the midpoints next to its root.
proof fn lemma_square_stays_near(m: int, q: int, s: int, r: int, t: int)
    requires
        m == q * s,
        s > 0,
        0x80_0000 <= q < 0x100_0000,
        -t <= 2 * (m * m - r) <= t,
        t * 0x80_0000 <= r,
    ensures
        4 * r < (2 * m + s) * (2 * m + s),
        (2 * m - s) * (2 * m - s) < 4 * r,
{
    let w: int = m * s;
    assert(m * m == q * w) by (nonlinear_arith)
        requires
            m == q * s,
            w == m * s,
    ;
    assert(w == q * (s * s)) by (nonlinear_arith)
        requires
            w == m * s,
            m == q * s,
    ;
    assert(s * s > 0) by (nonlinear_arith)
        requires
            s > 0,
    ;
    assert(w >= 0x80_0000 * (s * s)) by (nonlinear_arith)
        requires
            w == q * (s * s),
            q >= 0x80_0000,
            s * s > 0,
    ;
    assert(q * w <= 0xff_ffff * w) by (nonlinear_arith)
        requires
            q <= 0xff_ffff,
            w >= 0,
    ;
    assert((2 * m + s) * (2 * m + s) == 4 * (m * m) + 4 * w + s * s) by (nonlinear_arith)
        requires
            w == m * s,
    ;
    assert((2 * m - s) * (2 * m - s) == 4 * (m * m) - 4 * w + s * s) by (nonlinear_arith)
        requires
            w == m * s,
    ;
}

/// The square of a magnitude that is not too small is a normal number.
proof fn lemma_square_is_normal(k: nat, j: nat, kinf: nat)
    requires
        k >= 0x2000_0000,
        j < kinf,
        rounds_to(
            23,
            kinf,
            (Exact::Ratio { num: mag(23, k) * mag(23, k), den: pow2(149) }),
            j,
        ),
    ensures
        j >= 0x80_0000,
{
    lemma_single_constants();
    let m = mag(23, k);
    let e = pow2(149);
    lemma_pow2_pos(149);
    lemma_mag_of_parts(23, 63, pow2(23));
    lemma_pow2_adds(23, 63);
    lemma_pow2_adds(86, 86);
    lemma_pow2_adds(23, 149);
    lemma_mag_increases(23, 0x2000_0000, k);
    assert(m * m >= pow2(86) * pow2(86)) by (nonlinear_arith)
        requires
            m >= pow2(86),
    ;
    if j < 0x80_0000 {
        assert(mag(23, j) + mag(23, j + 1) == 2 * j + 1);
        assert((2 * j + 1) * e < 2 * (pow2(23) * e)) by (nonlinear_arith)
            requires
                2 * j + 1 < 2 * pow2(23),
                e > 0,
        ;
    }
}

/// The square of a power of two is exact.
proof fn lemma_power_square_is_exact(u: nat, j: nat, kinf: nat)
    requires
        63 <= u,
        j < kinf,
        rounds_to(
            23,
            kinf,
            (Exact::Ratio {
                num: (pow2(23) * pow2(u)) * (pow2(23) * pow2(u)),
                den: pow2(149),
            }),
            j,
        ),
    ensures
        mag(23, j) * pow2(149) == (pow2(23) * pow2(u)) * (pow2(23) * pow2(u)),
{
    lemma_single_constants();
    let v = (2 * u - 126) as nat;
    let i = v * pow2(23) + pow2(23);
    let m = pow2(23) * pow2(u);
    let e = pow2(149);
    let x = Exact::Ratio { num: m * m, den: e };
    lemma_pow2_pos(149);
    lemma_mag_of_parts(23, v, pow2(23));
    lemma_pow2_adds(23, u);
    lemma_pow2_adds(23 + u, 23 + u);
    lemma_pow2_adds(23, v);
    lemma_pow2_adds(23 + v, 149);
    assert(mag(23, i) * e == m * m);
    assert(x.excess(2 * mag(23, i)) == 0) by (nonlinear_arith)
        requires
            mag(23, i) * e == m * m,
            x.excess(2 * mag(23, i)) == 2 * (m * m) - (2 * mag(23, i)) * e,
    ;
    if i < kinf {
        lemma_representable_is_fixed(23, kinf, x, i);
        lemma_nearest_unique(23, kinf, x, j);
    } else {
        lemma_mag_increases(23, j + 1, i);
        lemma_mag_increases(23, j, j + 1);
        lemma_excess_decreases(x, mag(23, j) + mag(23, j + 1), 2 * mag(23, i));
    }
}

/// The root of the rounded square of a magnitude rounds back to it.
proof fn lemma_root_returns(k: nat, j: nat, kinf: nat)
    requires
        kinf == single().kinf(),
        0x2000_0000 <= k < kinf,
        j < kinf,
        rounds_to(
            23,
            kinf,
            (Exact::Ratio { num: mag(23, k) * mag(23, k), den: pow2(149) }),
            j,
        ),
    ensures
        nearest(23, kinf, (Exact::Root { radicand: mag(23, j) * pow2(149) })) == k,
{
    lemma_single_constants();
    lemma_square_is_normal(k, j, kinf);
    lemma_product_index_error(mag(23, k), mag(23, k), j);
    lemma_parts_of(23, k);
    lemma_mag_next(23, k);
    lemma_mag_next(23, (k - 1) as nat);
    lemma_parts_of(23, (k - 1) as nat);
    let m = mag(23, k) as int;
    let u = step_of(23, k);
    let v = step_of(23, (k - 1) as nat);
    let q = sig_of(23, k) as int;
    let s = pow2(u) as int;
    let r = mag(23, j) * pow2(149) as int;
    let y = Exact::Root { radicand: r as nat };
    let error = if m * m < r {
        2 * (r - m * m)
    } else {
        2 * (m * m - r)
    };
    lemma_square_stays_near(m, q, s, r, error);
    let low = (mag(23, (k - 1) as nat) + m) as nat;
    let high = (m + mag(23, k + 1)) as nat;
    assert(high == 2 * m + s);
    assert(y.excess(high) < 0);
    if q > 0x80_0000 {
        lemma_mag_of_parts(23, u, (q - 1) as nat);
        assert(u * pow2(23) + (q - 1) == k - 1);
        assert((q - 1) * s == m - s) by (nonlinear_arith)
            requires
                m == q * s,
        ;
        assert(low == 2 * m - s);
        assert(y.excess(low) > 0);
    } else {
        assert(u >= 63) by (nonlinear_arith)
            requires
                u * pow2(23) + q == k,
                k >= 0x2000_0000,
                q <= 0x80_0000,
                pow2(23) == 0x80_0000,
        ;
        lemma_power_square_is_exact(u, j, kinf);
        assert(low < 2 * m);
        assert(low * low < (2 * m) * (2 * m)) by (nonlinear_arith)
            requires
                0 <= low < 2 * m,
        ;
        assert((2 * m) * (2 * m) == 4 * (m * m)) by (nonlinear_arith);
        assert(y.excess(low) > 0);
    }
    lemma_nearest_unique(23, kinf, y, k);
}

/// The root of the rounded square of a number is its magnitude, to the bit, where
/// the square neither overflows nor leaves the normal numbers.
pub proof fn law_root_of_square(a: Binary32)
    requires
        a.mul(a).is_finite(),
        a.abs().bits >= 0x2000_0000,
    ensures
        a.mul(a).sqrt() == a.abs(),
{
    reveal(Binary32::spec_mul);
    reveal(Binary32::spec_sqrt);
    lemma_single_constants();
    lemma_format_bounds(single());
    let k = a.num().k as nat;
    let x = product_of(single(), k, k);
    let j = nearest(23, single().kinf(), x);
    lemma_nearest_is_attained(23, single().kinf(), x);
    lemma_square_is_normal(k, j, single().kinf());
    lemma_root_returns(k, j, single().kinf());
    assert(root_of(single(), j) == (Exact::Root { radicand: mag(23, j) * pow2(149) }));
}

/// Squares of the midpoints next to a magnitude differ from its square by a part in `2^23`.
proof fn lemma_midpoint_squares(m: int, s: int, r: int)
    requires
        s > 0,
        0x80_0000 * s <= m,
        4 * r <= (2 * m + s) * (2 * m + s),
        (2 * m - s) * (2 * m - s) <= 4 * r,
    ensures
        0x80_0000 * (m * m - r) <= 2 * r,
        0x80_0000 * (r - m * m) <= 2 * r,
{
    let w = m * s;
    let q = m * m;
    assert((2 * m + s) * (2 * m + s) == 4 * q + 4 * w + s * s) by (nonlinear_arith)
        requires
            w == m * s,
            q == m * m,
    ;
    assert((2 * m - s) * (2 * m - s) == 4 * q - 4 * w + s * s) by (nonlinear_arith)
        requires
            w == m * s,
            q == m * m,
    ;
    assert(0x80_0000 * w <= q) by (nonlinear_arith)
        requires
            0x80_0000 * s <= m,
            s > 0,
            w == m * s,
            q == m * m,
    ;
    assert(0 <= 0x80_0000 * (s * s) <= w) by (nonlinear_arith)
        requires
            0x80_0000 * s <= m,
            s > 0,
            w == m * s,
    ;
}

/// The error of a rounded root, and that it is a normal number.
proof fn lemma_root_error(r: nat, j: nat)
    requires
        rounds_to(23, single().kinf(), (Exact::Root { radicand: r }), j),
        pow2(149) <= r <= pow2(426),
    ensures
        0x80_0000 <= j < single().kinf(),
        0x80_0000 * (mag(23, j) * mag(23, j) - r) <= 2 * r,
        0x80_0000 * (r - mag(23, j) * mag(23, j)) <= 2 * r,
{
    lemma_single_constants();
    lemma_pow2_pos(23);
    lemma_pow2_adds(75, 74);
    lemma_pow2_strictly_increases(64, 74);
    lemma_pow2_strictly_increases(64, 75);
    lemma2_to64();
    let x = Exact::Root { radicand: r };
    let top = single().kinf();
    if j == top {
        lemma_mag_of_parts(23, 253, pow2(23));
        lemma_mag_of_parts(23, 254, pow2(23));
        lemma_pow2_adds(23, 253);
        lemma_pow2_adds(23, 254);
        lemma_mag_increases(23, 0x7f00_0000, 0x7f7f_ffff);
        lemma_pow2_strictly_increases(276, 277);
        lemma_pow2_pos(276);
        lemma_pow2_adds(276, 276);
        lemma_pow2_adds(2, 426);
        lemma_pow2_strictly_increases(428, 552);
        let a = (mag(23, 0x7f7f_ffff) + mag(23, 0x7f80_0000)) as int;
        let c = pow2(276) as int;
        assert(a * a > c * c) by (nonlinear_arith)
            requires
                a > c,
                c > 0,
        ;
    } else {
        lemma_mag_next(23, j);
        lemma_parts_of(23, j);
        let u = step_of(23, j);
        let s = pow2(u) as int;
        let m = mag(23, j) as int;
        if j < 0x80_0000 {
            assert(pow2(0) == 1);
            let h = 2 * m + s;
            assert(h * h <= 0x100_0000 * 0x100_0000) by (nonlinear_arith)
                requires
                    0 <= h <= 0x100_0000,
            ;
            let c = pow2(75) as int;
            let d = pow2(74) as int;
            assert(c * d >= 0x1_0000_0000_0000_0000 * 0x1_0000_0000_0000_0000) by (nonlinear_arith)
                requires
                    c >= 0x1_0000_0000_0000_0000,
                    d >= 0x1_0000_0000_0000_0000,
            ;
            assert(false);
        }
        let q = sig_of(23, j) as int;
        assert(s * 0x80_0000 <= m) by (nonlinear_arith)
            requires
                m == q * s,
                q >= 0x80_0000,
                s > 0,
        ;
        lemma_mag_next(23, (j - 1) as nat);
        lemma_parts_of(23, (j - 1) as nat);
        let w = step_of(23, (j - 1) as nat);
        assert(w <= u) by {
            if w > u {
                assert(w * pow2(23) >= (u + 1) * pow2(23)) by (nonlinear_arith)
                    requires
                        w >= u + 1,
                ;
                assert((u + 1) * pow2(23) == u * pow2(23) + pow2(23)) by (nonlinear_arith);
            }
        }
        if w < u {
            lemma_pow2_strictly_increases(w, u);
        }
        let t = pow2(w) as int;
        assert((2 * m - s) * (2 * m - s) <= (2 * m - t) * (2 * m - t)) by (nonlinear_arith)
            requires
                0 < t <= s,
                s <= 2 * m,
        ;
        lemma_midpoint_squares(m, s, r as int);
    }
}

/// A root is a positive number whose square is the radicand up to two parts in `2^23`.
pub proof fn law_root_is_near(a: Binary32)
    requires
        a.is_finite(),
        a.gt(Binary32::zero()),
    ensures
        a.sqrt().is_finite(),
        a.sqrt().gt(Binary32::zero()),
        a.sqrt().amount() > 0real,
        off(a.sqrt().amount() * a.sqrt().amount(), a.amount()) <= 2real * a.amount(),
{
    reveal(Binary32::spec_sqrt);
    lemma_single_constants();
    lemma_format_bounds(single());
    lemma_pow2_pos(23);
    let f = single();
    let k = a.num().k as nat;
    let ex = root_of(f, k);
    let j = nearest(23, f.kinf(), ex);
    lemma_nearest_is_attained(23, f.kinf(), ex);
    lemma_mag_increases(23, 0, k);
    lemma_mag_increases(23, k, 0x7f80_0000);
    lemma_mag_of_parts(23, 254, pow2(23));
    lemma_pow2_adds(23, 254);
    lemma_pow2_adds(277, 149);
    lemma_pow2_pos(149);
    let v = mag(23, k) as int;
    let d = pow2(149) as int;
    assert(mag(23, 0) == 0);
    assert(v >= 1);
    assert(d <= v * d <= pow2(277) * d) by (nonlinear_arith)
        requires
            1 <= v <= pow2(277),
            d > 0,
    ;
    lemma_root_error((v * d) as nat, j);
    let g = a.sqrt();
    assert(g.num() == (Num { neg: false, k: j as u64 }));
    lemma_mag_increases(23, 0, j);
    lemma_amount(a);
    lemma_amount(g);
    lemma_tiny();
    let m = mag(23, j) as int;
    let e = units();
    let x = a.amount();
    let y = g.amount();
    lemma_product_of_reals(m, m);
    lemma_product_of_reals(v, d);
    let mm = m as real;
    let vr = v as real;
    assert((y * y) * (e * e) == mm * mm && x * (e * e) == vr * e) by (nonlinear_arith)
        requires
            y * e == mm,
            x * e == vr,
    ;
    let z = y * y;
    assert(8388608real * (mm * mm - vr * e) <= 2real * (vr * e));
    assert(8388608real * (vr * e - mm * mm) <= 2real * (vr * e));
    let w = e * e;
    assert(8388608real * (z - x) <= 2real * x && 8388608real * (x - z) <= 2real * x)
        by (nonlinear_arith)
        requires
            z * w == mm * mm,
            x * w == vr * e,
            8388608real * (mm * mm - vr * e) <= 2real * (vr * e),
            8388608real * (vr * e - mm * mm) <= 2real * (vr * e),
            w == e * e,
            e > 0real,
    ;
}

/// Roots of positive numbers are ordered as the numbers are.
pub proof fn law_root_is_monotone(a: Binary32, b: Binary32)
    requires
        Binary32::zero().lt(a),
        a.le(b),
        b.is_finite(),
    ensures
        a.sqrt().le(b.sqrt()),
{
    reveal(Binary32::spec_sqrt);
    lemma_single_constants();
    lemma_format_bounds(single());
    let f = single();
    let (k, l) = (a.num().k as nat, b.num().k as nat);
    let (x, y) = (root_of(f, k), root_of(f, l));
    lemma_nearest_is_attained(23, f.kinf(), x);
    lemma_nearest_is_attained(23, f.kinf(), y);
    let i = nearest(23, f.kinf(), x);
    let j = nearest(23, f.kinf(), y);
    lemma_mag_increases(23, k, l);
    let (u, v, w) = (mag(23, k) as int, mag(23, l) as int, pow2(149) as int);
    assert(u * w <= v * w) by (nonlinear_arith)
        requires
            u <= v,
            w >= 0,
    ;
    lemma_rounding_monotone(23, f.kinf(), x, y, i, j);
}

} // verus!
