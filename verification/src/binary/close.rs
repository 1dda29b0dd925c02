use vstd::arithmetic::power2::lemma2_to64;
use vstd::arithmetic::power2::lemma_pow2_adds;
use vstd::arithmetic::power2::lemma_pow2_pos;
use vstd::arithmetic::power2::lemma_pow2_strictly_increases;
use vstd::arithmetic::power2::pow2;
use vstd::prelude::*;

use crate::binary::arith::product_of;
use crate::binary::arith::quotient_of;
use crate::binary::exact::Exact;
use crate::binary::exact::lemma_mag_increases;
use crate::binary::exact::lemma_mag_next;
use crate::binary::exact::lemma_mag_of_parts;
use crate::binary::exact::lemma_parts_of;
use crate::binary::exact::lemma_representable_is_fixed;
use crate::binary::exact::mag;
use crate::binary::exact::nearest;
use crate::binary::exact::rounds_to;
use crate::binary::exact::sig_of;
use crate::binary::exact::step_of;
use crate::binary::laws::doubled_index;
use crate::binary::laws::law_difference_is_not_negative;
use crate::binary::laws::law_non_negative_steps;
use crate::binary::laws::law_order_is_value_order;
use crate::binary::laws::law_positive_difference;
use crate::binary::laws::law_reversed_difference;
use crate::binary::laws::lemma_doubled_magnitude;
use crate::binary::laws::lemma_quotient_packs;
use crate::binary::laws::lemma_scaled_index;
use crate::binary::laws::lemma_sum_packs;
use crate::binary::number::Num;
use crate::binary::number::sum;
use crate::binary::number::total;
use crate::binary::order::lemma_format_bounds;
use crate::binary::order::lemma_nearest_is_attained;
use crate::binary::round::single;
use crate::binary::single::Binary32;
use crate::binary::single::half;
use crate::binary::single::lemma_single_constants;

verus! {

/// A positive finite number has a positive value, and a value that is a number of the
/// format is that number.
proof fn lemma_exact_sum(a: Binary32, b: Num, k: nat)
    requires
        a.is_finite(),
        b.finite(single()),
        k < single().kinf(),
        0 < k,
        a.value() + b.value(single()) == mag(23, k),
    ensures
        Binary32::of_num(sum(single(), a.num(), b)) == (Binary32 {
            bits: k as u32,
        }),
{
    lemma_single_constants();
    lemma_format_bounds(single());
    lemma_pow2_pos(23);
    lemma_mag_increases(23, 0, k);
    let m = mag(23, k);
    let x = total(m as int);
    assert(x.excess(2 * m) == 0) by (nonlinear_arith)
        requires
            x.excess(2 * m) == 2 * m - (2 * m) * 1,
    ;
    lemma_representable_is_fixed(23, single().kinf(), x, k);
}

/// The rounding error of a sum is at most one part in `2^24` of the result.
pub proof fn lemma_sum_error(v: int, j: nat)
    requires
        v > 0,
        j < single().kinf(),
        j == nearest(23, single().kinf(), total(v)),
    ensures
        0x100_0000 * (mag(23, j) - v) <= mag(23, j),
        0x100_0000 * (v - mag(23, j)) <= mag(23, j),
{
    lemma_single_constants();
    lemma_pow2_pos(23);
    let f = single();
    let x = total(v);
    lemma_nearest_is_attained(23, f.kinf(), x);
    lemma_mag_next(23, j);
    let big = mag(23, j) as int;
    let s = pow2(step_of(23, j)) as int;
    let high = mag(23, j) + mag(23, j + 1);
    assert(x.excess(high) == 2 * v - high) by (nonlinear_arith)
        requires
            x.excess(high) == 2 * v - high * 1,
    ;
    assert(2 * v <= 2 * big + s);
    lemma_parts_of(23, j);
    if j == 0 {
        assert(mag(23, 0) == 0 && mag(23, 1) == 1);
        assert(false);
    } else {
        lemma_mag_next(23, (j - 1) as nat);
        lemma_parts_of(23, (j - 1) as nat);
        let u = step_of(23, j);
        let w = step_of(23, (j - 1) as nat);
        assert(w <= u) by {
            if w > u {
                assert(w * pow2(23) >= (u + 1) * pow2(23)) by (nonlinear_arith)
                    requires
                        w >= u + 1,
                ;
                assert((u + 1) * pow2(23) == u * pow2(23) + pow2(23)) by (nonlinear_arith);
            }
        }
        if w < u {
            lemma_pow2_strictly_increases(w, u);
        }
        let low = mag(23, (j - 1) as nat) + mag(23, j);
        assert(x.excess(low) == 2 * v - low) by (nonlinear_arith)
            requires
                x.excess(low) == 2 * v - low * 1,
        ;
        assert(2 * v >= 2 * big - s);
        if j >= 0x80_0000 {
            let q = sig_of(23, j) as int;
            assert(s * 0x80_0000 <= big) by (nonlinear_arith)
                requires
                    big == q * s,
                    q >= 0x80_0000,
                    s > 0,
            ;
        } else {
            lemma_pow2_pos(0);
            assert(u == 0);
            assert(pow2(0) == 1) by {
                lemma2_to64();
            }
            assert(s == 1);
        }
    }
}

/// The rounding error of a positive sum is at most one part in `2^24` of the result.
pub proof fn law_sum_error(a: Binary32, b: Binary32)
    requires
        a.is_finite(),
        b.is_finite(),
        a.add(b).is_finite(),
        a.value() + b.value() > 0,
    ensures
        0x100_0000 * (a.add(b).value() - (a.value() + b.value())) <= a.add(b).value(),
        0x100_0000 * ((a.value() + b.value()) - a.add(b).value()) <= a.add(b).value(),
{
    reveal(Binary32::spec_add);
    lemma_single_constants();
    lemma_format_bounds(single());
    let f = single();
    let v = a.value() + b.value();
    lemma_sum_packs(a, b.num());
    lemma_nearest_is_attained(23, f.kinf(), total(v));
    lemma_sum_error(v, nearest(23, f.kinf(), total(v)));
}

/// The rounding error of a positive difference is at most one part in `2^24` of the result.
pub proof fn law_difference_error(a: Binary32, b: Binary32)
    requires
        a.is_finite(),
        b.is_finite(),
        a.sub(b).is_finite(),
        a.value() - b.value() > 0,
    ensures
        0x100_0000 * (a.sub(b).value() - (a.value() - b.value())) <= a.sub(b).value(),
        0x100_0000 * ((a.value() - b.value()) - a.sub(b).value()) <= a.sub(b).value(),
{
    reveal(Binary32::spec_sub);
    lemma_single_constants();
    lemma_format_bounds(single());
    let f = single();
    let v = a.value() - b.value();
    lemma_sum_packs(a, b.num().negated());
    lemma_nearest_is_attained(23, f.kinf(), total(v));
    lemma_sum_error(v, nearest(23, f.kinf(), total(v)));
}

/// The difference of two numbers within a factor of two of each other is exact.
pub proof fn law_close_difference_is_exact(a: Binary32, b: Binary32)
    requires
        a.is_finite(),
        b.is_finite(),
        0 < b.value(),
        b.value() <= a.value(),
        a.value() <= 2 * b.value(),
    ensures
        a.sub(b).is_finite(),
        a.sub(b).value() == a.value() - b.value(),
{
    reveal(Binary32::spec_sub);
    lemma_single_constants();
    lemma_format_bounds(single());
    lemma_pow2_pos(23);
    let f = single();
    let j = a.num().k as nat;
    let k = b.num().k as nat;
    law_order_is_value_order(b, a);
    assert(mag(23, 0) == 0);
    lemma_parts_of(23, j);
    lemma_parts_of(23, k);
    let ua = step_of(23, j);
    let ub = step_of(23, k);
    let qa = sig_of(23, j);
    let qb = sig_of(23, k);
    assert(k <= j);
    assert(ub <= ua) by {
        if ub > ua {
            assert(ub * pow2(23) >= (ua + 1) * pow2(23)) by (nonlinear_arith)
                requires
                    ub >= ua + 1,
            ;
            assert((ua + 1) * pow2(23) == ua * pow2(23) + pow2(23)) by (nonlinear_arith);
        }
    }
    let e = (ua - ub) as nat;
    lemma_pow2_adds(e, ub);
    lemma_pow2_pos(ub);
    let w = pow2(ub) as int;
    let c = qa * pow2(e);
    assert(mag(23, j) == c * w) by (nonlinear_arith)
        requires
            mag(23, j) == qa * pow2(ua),
            pow2(ua) == pow2(e) * w,
            c == qa * pow2(e),
    ;
    let q = c - qb;
    assert(mag(23, j) - mag(23, k) == q * w) by (nonlinear_arith)
        requires
            mag(23, j) == c * w,
            mag(23, k) == qb * w,
            q == c - qb,
    ;
    assert(0 <= q <= qb) by (nonlinear_arith)
        requires
            0 <= q * w,
            q * w <= qb * w,
            w > 0,
    ;
    if q > 0 {
        let g = lemma_scaled_index(q as nat, ub);
        if g >= f.kinf() {
            lemma_mag_increases(23, j, g);
        }
        if g == 0 {
            assert(q * w > 0) by (nonlinear_arith)
                requires
                    q > 0,
                    w > 0,
            ;
        }
        lemma_exact_sum(a, b.num().negated(), g);
    } else {
        assert(q * w == 0) by (nonlinear_arith)
            requires
                q == 0,
        ;
    }
}

/// What is taken off a number and put back gives that number, where the difference is
/// exact.
pub proof fn law_exact_difference_adds_back(a: Binary32, b: Binary32)
    requires
        a.is_finite(),
        b.is_finite(),
        a.bits < 0x8000_0000,
        a.value() > 0,
        a.sub(b).is_finite(),
        a.sub(b).value() == a.value() - b.value(),
    ensures
        b.add(a.sub(b)) == a,
{
    reveal(Binary32::spec_add);
    lemma_single_constants();
    lemma_pow2_pos(23);
    assert(mag(23, 0) == 0);
    lemma_exact_sum(b, a.sub(b).num(), a.num().k as nat);
}

/// A quarter.
#[verifier::allow_in_spec]
pub fn quarter() -> Binary32
    returns
        (Binary32 { bits: 0x3e80_0000 }),
{
    Binary32 { bits: 0x3e80_0000 }
}

/// Half of a normal number is exact.
pub proof fn law_half_is_exact(a: Binary32)
    requires
        0x0100_0000 <= a.bits < 0x7f80_0000,
    ensures
        half().mul(a).is_finite(),
        2 * half().mul(a).value() == a.value(),
        half().mul(a).bits < 0x8000_0000,
{
    reveal(Binary32::spec_mul);
    lemma_single_constants();
    lemma_format_bounds(single());
    lemma_pow2_pos(23);
    lemma_pow2_pos(149);
    let f = single();
    let k = a.num().k as nat;
    let h = (k - 0x80_0000) as nat;
    lemma_doubled_magnitude(h);
    lemma_mag_of_parts(23, 125, pow2(23));
    lemma_pow2_adds(23, 125);
    lemma_pow2_adds(148, 1);
    assert(pow2(1) == 2) by {
        lemma2_to64();
    }
    let m = mag(23, h);
    let c = pow2(148);
    let e = pow2(149);
    let x = product_of(f, 0x3f00_0000, k);
    assert(x.excess(2 * m) == 0) by (nonlinear_arith)
        requires
            x.excess(2 * m) == 2 * (c * (2 * m)) - (2 * m) * e,
            e == c * 2,
    ;
    lemma_representable_is_fixed(23, f.kinf(), x, h);
}

/// A quarter of a number that is not too small is exact.
pub proof fn law_quarter_is_exact(a: Binary32)
    requires
        0x0180_0000 <= a.bits < 0x7f80_0000,
    ensures
        quarter().mul(a).is_finite(),
        4 * quarter().mul(a).value() == a.value(),
{
    reveal(Binary32::spec_mul);
    lemma_single_constants();
    lemma_format_bounds(single());
    lemma_pow2_pos(23);
    lemma_pow2_pos(149);
    let f = single();
    let k = a.num().k as nat;
    let h = (k - 0x100_0000) as nat;
    lemma_doubled_magnitude(h);
    lemma_doubled_magnitude((h + 0x80_0000) as nat);
    lemma_mag_of_parts(23, 124, pow2(23));
    lemma_pow2_adds(23, 124);
    lemma_pow2_adds(147, 2);
    assert(pow2(2) == 4) by {
        lemma2_to64();
    }
    let m = mag(23, h);
    let c = pow2(147);
    let e = pow2(149);
    let x = product_of(f, 0x3e80_0000, k);
    assert(x.excess(2 * m) == 0) by (nonlinear_arith)
        requires
            x.excess(2 * m) == 2 * (c * (4 * m)) - (2 * m) * e,
            e == c * 4,
    ;
    lemma_representable_is_fixed(23, f.kinf(), x, h);
}

/// A step of at most a quarter of a number stays close to it.
pub proof fn law_small_steps_stay_close(a: Binary32, d: Binary32)
    requires
        a.is_finite(),
        a.value() > 0,
        Binary32::zero().le(d),
        d.is_finite(),
        4 * d.value() <= a.value(),
    ensures
        a.sub(d).is_finite(),
        7 * a.value() <= 10 * a.sub(d).value(),
        a.sub(d).value() <= a.value(),
        a.add(d).is_finite() ==> a.value() <= a.add(d).value() && 10 * a.add(d).value() <= 13
            * a.value(),
{
    reveal(Binary32::spec_sub);
    reveal(Binary32::spec_add);
    lemma_single_constants();
    lemma_format_bounds(single());
    lemma_pow2_pos(23);
    assert(mag(23, 0) == 0);
    law_non_negative_steps(a, d);
    law_order_is_value_order(Binary32::zero(), d);
    law_order_is_value_order(d, a);
    law_difference_is_not_negative(a, d);
    let f = single();
    lemma_sum_packs(a, d.num());
    lemma_sum_packs(a, d.num().negated());
    let v = a.value() - d.value();
    let w = a.value() + d.value();
    lemma_nearest_is_attained(23, f.kinf(), total(v));
    lemma_nearest_is_attained(23, f.kinf(), total(w));
    law_order_is_value_order(a.sub(d), a);
    lemma_sum_error(v, nearest(23, f.kinf(), total(v)));
    if a.add(d).is_finite() {
        law_order_is_value_order(a, a.add(d));
        lemma_sum_error(w, nearest(23, f.kinf(), total(w)));
    }
}

/// Twice a number is exact, where a finite number is larger.
pub proof fn law_exact_double(a: Binary32, above: Binary32)
    requires
        a.is_finite(),
        a.value() > 0,
        above.is_finite(),
        above.value() > 2 * a.value(),
    ensures
        a.add(a).is_finite(),
        a.add(a).value() == 2 * a.value(),
{
    reveal(Binary32::spec_add);
    lemma_single_constants();
    lemma_pow2_pos(23);
    assert(mag(23, 0) == 0);
    let k = a.num().k as nat;
    let g = doubled_index(k);
    lemma_doubled_magnitude(k);
    let top = above.num().k as nat;
    if g >= top {
        lemma_mag_increases(23, top, g);
    }
    lemma_exact_sum(a, a.num(), g);
}

/// The rounding error of a product is at most one part in `2^24` of it, where it is a
/// normal number.
pub proof fn law_product_error(a: Binary32, b: Binary32)
    requires
        a.is_finite(),
        b.is_finite(),
        a.mul(b).is_finite(),
        a.mul(b).abs().bits >= 0x80_0000,
    ensures
        ({
            let exact = a.value() * b.value();
            let got = a.mul(b).value() * pow2(149);
            let size = if got < 0 {
                -got
            } else {
                got
            };
            -size <= 0x100_0000 * (got - exact) <= size
        }),
{
    reveal(Binary32::spec_mul);
    lemma_single_constants();
    lemma_format_bounds(single());
    lemma_pow2_pos(149);
    let f = single();
    let j = a.num().k as nat;
    let k = b.num().k as nat;
    let x = product_of(f, j, k);
    let i = nearest(23, f.kinf(), x);
    lemma_nearest_is_attained(23, f.kinf(), x);
    lemma_product_index_error(mag(23, j), mag(23, k), i);
    let p = mag(23, j) as int;
    let q = mag(23, k) as int;
    let m = mag(23, i) as int;
    let e = pow2(149) as int;
    assert((-p) * q == -(p * q) && p * (-q) == -(p * q) && (-p) * (-q) == p * q && (-m) * e == -(m
        * e)) by (nonlinear_arith);
}

/// The same for the magnitudes of two factors.
pub proof fn lemma_product_index_error(p: nat, q: nat, j: nat)
    requires
        0x80_0000 <= j < single().kinf(),
        rounds_to(23, single().kinf(), (Exact::Ratio { num: p * q, den: pow2(149) }), j),
    ensures
        0x100_0000 * (mag(23, j) * pow2(149) - p * q) <= mag(23, j) * pow2(149),
        0x100_0000 * (p * q - mag(23, j) * pow2(149)) <= mag(23, j) * pow2(149),
{
    lemma_single_constants();
    let e = pow2(149) as int;
    lemma_pow2_pos(149);
    lemma_mag_next(23, j);
    lemma_mag_next(23, (j - 1) as nat);
    lemma_parts_of(23, j);
    lemma_parts_of(23, (j - 1) as nat);
    let u = step_of(23, j);
    let w = step_of(23, (j - 1) as nat);
    let s = pow2(u) as int;
    let big = mag(23, j) as int;
    assert(w <= u) by {
        if w > u {
            assert(w * pow2(23) >= (u + 1) * pow2(23)) by (nonlinear_arith)
                requires
                    w >= u + 1,
            ;
            assert((u + 1) * pow2(23) == u * pow2(23) + pow2(23)) by (nonlinear_arith);
        }
    }
    if w < u {
        lemma_pow2_strictly_increases(w, u);
    }
    assert(2 * (p * q) <= (2 * big + s) * e);
    assert(2 * (p * q) >= (2 * big - pow2(w)) * e);
    assert((2 * big - pow2(w)) * e >= (2 * big - s) * e) by (nonlinear_arith)
        requires
            pow2(w) <= s,
            e > 0,
    ;
    assert((2 * big + s) * e == 2 * (big * e) + s * e) by (nonlinear_arith);
    assert((2 * big - s) * e == 2 * (big * e) - s * e) by (nonlinear_arith);
    let sig = sig_of(23, j) as int;
    assert(s * e * 0x80_0000 <= big * e) by (nonlinear_arith)
        requires
            big == sig * s,
            sig >= 0x80_0000,
            s > 0,
            e > 0,
    ;
}

/// The difference of two positive numbers within a factor of two of each other is exact,
/// whichever is larger.
pub proof fn law_close_difference_is_exact_either_way(a: Binary32, b: Binary32)
    requires
        a.is_finite(),
        b.is_finite(),
        0 < a.value() <= 2 * b.value(),
        0 < b.value() <= 2 * a.value(),
    ensures
        a.sub(b).is_finite(),
        a.sub(b).value() == a.value() - b.value(),
{
    if b.value() <= a.value() {
        law_close_difference_is_exact(a, b);
    } else {
        lemma_single_constants();
        law_close_difference_is_exact(b, a);
        law_order_is_value_order(a, b);
        law_positive_difference(b, a);
        law_reversed_difference(a, b);
    }
}

/// The spacing above a normal number is between one part in `2^24` and one part in `2^23`
/// of that number.
pub proof fn law_spacing_is_relative(a: Binary32)
    requires
        0x80_0000 <= a.bits < 0x7f7f_ffff,
    ensures
        a.next().sub(a).is_finite(),
        a.next().sub(a).value() > 0,
        0x80_0000 * a.next().sub(a).value() <= a.value(),
        a.value() <= 0x100_0000 * a.next().sub(a).value(),
{
    lemma_single_constants();
    lemma_format_bounds(single());
    let k = a.num().k as nat;
    lemma_mag_next(23, k);
    lemma_parts_of(23, k);
    let q = sig_of(23, k) as int;
    let s = pow2(step_of(23, k)) as int;
    assert(0x80_0000 * s <= q * s && q * s <= 0x100_0000 * s) by (nonlinear_arith)
        requires
            0x80_0000 <= q <= 0x100_0000,
            s >= 0,
    ;
    law_close_difference_is_exact(a.next(), a);
}

/// Eight.
#[verifier::allow_in_spec]
pub fn eight() -> Binary32
    returns
        (Binary32 { bits: 0x4100_0000 }),
{
    Binary32 { bits: 0x4100_0000 }
}

/// Eight times a normal number that is not too large is exact.
pub proof fn law_eightfold_is_exact(a: Binary32)
    requires
        0x80_0000 <= a.bits < 0x7e00_0000,
    ensures
        eight().mul(a).is_finite(),
        eight().mul(a).value() == 8 * a.value(),
{
    reveal(Binary32::spec_mul);
    lemma_single_constants();
    lemma_format_bounds(single());
    lemma_pow2_pos(23);
    lemma_pow2_pos(149);
    let f = single();
    let k = a.num().k as nat;
    let h = (k + 0x180_0000) as nat;
    lemma_doubled_magnitude(k);
    lemma_doubled_magnitude((k + 0x80_0000) as nat);
    lemma_doubled_magnitude((k + 0x100_0000) as nat);
    lemma_mag_of_parts(23, 129, pow2(23));
    lemma_pow2_adds(23, 129);
    lemma_pow2_adds(149, 3);
    assert(pow2(3) == 8) by {
        lemma2_to64();
    }
    let m = mag(23, k);
    let e = pow2(149);
    let c = pow2(152);
    let x = product_of(f, 0x4100_0000, k);
    assert(x.excess(2 * mag(23, h)) == 0) by (nonlinear_arith)
        requires
            x.excess(2 * mag(23, h)) == 2 * (c * m) - (2 * mag(23, h)) * e,
            mag(23, h) == 8 * m,
            c == e * 8,
    ;
    lemma_representable_is_fixed(23, f.kinf(), x, h);
}

/// The rounding error of a positive sum is at most half the spacing at any normal number
/// that is not below the result.
pub proof fn law_sum_within_half_spacing(a: Binary32, b: Binary32, top: Binary32)
    requires
        a.is_finite(),
        b.is_finite(),
        a.add(b).is_finite(),
        a.value() + b.value() > 0,
        0x80_0000 <= top.bits < 0x7f7f_ffff,
        a.add(b).value() <= top.value(),
    ensures
        ({
            let spacing = top.next().sub(top).value();
            &&& 2 * (a.add(b).value() - (a.value() + b.value())) <= spacing
            &&& 2 * ((a.value() + b.value()) - a.add(b).value()) <= spacing
        }),
{
    reveal(Binary32::spec_add);
    lemma_single_constants();
    lemma_format_bounds(single());
    let f = single();
    let v = a.value() + b.value();
    lemma_sum_packs(a, b.num());
    let j = nearest(23, f.kinf(), total(v));
    lemma_nearest_is_attained(23, f.kinf(), total(v));
    lemma_half_spacing(v, j, top);
}

/// The same of a difference.
pub proof fn law_difference_within_half_spacing(a: Binary32, b: Binary32, top: Binary32)
    requires
        a.is_finite(),
        b.is_finite(),
        a.sub(b).is_finite(),
        a.value() - b.value() > 0,
        0x80_0000 <= top.bits < 0x7f7f_ffff,
        a.sub(b).value() <= top.value(),
    ensures
        ({
            let spacing = top.next().sub(top).value();
            &&& 2 * (a.sub(b).value() - (a.value() - b.value())) <= spacing
            &&& 2 * ((a.value() - b.value()) - a.sub(b).value()) <= spacing
        }),
{
    reveal(Binary32::spec_sub);
    lemma_single_constants();
    lemma_format_bounds(single());
    let f = single();
    let v = a.value() - b.value();
    lemma_sum_packs(a, b.num().negated());
    let j = nearest(23, f.kinf(), total(v));
    lemma_nearest_is_attained(23, f.kinf(), total(v));
    lemma_half_spacing(v, j, top);
}

proof fn lemma_half_spacing(v: int, j: nat, top: Binary32)
    requires
        v > 0,
        j < single().kinf(),
        j == nearest(23, single().kinf(), total(v)),
        0x80_0000 <= top.bits < 0x7f7f_ffff,
        mag(23, j) <= top.value(),
    ensures
        2 * (mag(23, j) - v) <= top.next().sub(top).value(),
        2 * (v - mag(23, j)) <= top.next().sub(top).value(),
{
    lemma_single_constants();
    lemma_format_bounds(single());
    lemma_pow2_pos(23);
    let f = single();
    let x = total(v);
    let k = top.num().k as nat;
    lemma_nearest_is_attained(23, f.kinf(), x);
    lemma_mag_next(23, j);
    lemma_mag_next(23, k);
    lemma_parts_of(23, k);
    if j > k {
        lemma_mag_increases(23, k, j);
    }
    lemma_steps_grow(j, k);
    let big = mag(23, j) as int;
    let s = pow2(step_of(23, k)) as int;
    law_spacing_is_relative(top);
    let a = top;
    let q = sig_of(23, k) as int;
    assert(0x80_0000 * s <= q * s) by (nonlinear_arith)
        requires
            0x80_0000 <= q,
            s >= 0,
    ;
    law_close_difference_is_exact(top.next(), top);
    let high = mag(23, j) + mag(23, j + 1);
    assert(x.excess(high) == 2 * v - high) by (nonlinear_arith)
        requires
            x.excess(high) == 2 * v - high * 1,
    ;
    assert(2 * v <= 2 * big + s);
    if j > 0 {
        lemma_mag_next(23, (j - 1) as nat);
        lemma_steps_grow((j - 1) as nat, k);
        let low = mag(23, (j - 1) as nat) + mag(23, j);
        assert(x.excess(low) == 2 * v - low) by (nonlinear_arith)
            requires
                x.excess(low) == 2 * v - low * 1,
        ;
        assert(2 * v >= 2 * big - s);
    } else {
        assert(mag(23, 0) == 0);
    }
}

/// The spacing of the numbers grows.
proof fn lemma_steps_grow(j: nat, k: nat)
    requires
        j <= k,
    ensures
        pow2(step_of(23, j)) <= pow2(step_of(23, k)),
{
    lemma_single_constants();
    lemma_pow2_pos(23);
    lemma_parts_of(23, j);
    lemma_parts_of(23, k);
    let w = step_of(23, j);
    let u = step_of(23, k);
    assert(w <= u) by {
        if w > u {
            assert(w * pow2(23) >= (u + 1) * pow2(23)) by (nonlinear_arith)
                requires
                    w >= u + 1,
            ;
            assert((u + 1) * pow2(23) == u * pow2(23) + pow2(23)) by (nonlinear_arith);
        }
    }
    if w < u {
        lemma_pow2_strictly_increases(w, u);
    }
}

/// Minus one divided by a finite positive number is negative.
pub proof fn law_negative_reciprocal(a: Binary32)
    requires
        a.is_finite(),
        a.gt(Binary32::zero()),
    ensures
        Binary32::one().neg().div(a).lt(Binary32::zero()),
{
    reveal(Binary32::spec_div);
    lemma_single_constants();
    lemma_format_bounds(single());
    lemma_pow2_pos(23);
    lemma_pow2_pos(149);
    let f = single();
    let k = a.num().k as nat;
    let x = quotient_of(f, 0x3f80_0000, k);
    let j = nearest(23, f.kinf(), x);
    lemma_nearest_is_attained(23, f.kinf(), x);
    lemma_quotient_packs(Binary32::one().neg(), a);
    assert(mag(23, 0) == 0);
    lemma_mag_increases(23, 0, k);
    if j == 0 {
        lemma_mag_of_parts(23, 126, pow2(23));
        lemma_pow2_adds(23, 126);
        lemma_mag_increases(23, k, 0x7f80_0000);
        lemma_mag_of_parts(23, 254, pow2(23));
        lemma_pow2_adds(23, 254);
        lemma_pow2_adds(149, 149);
        lemma_pow2_strictly_increases(277, 298);
        lemma_mag_next(23, 0);
        assert(pow2(0) == 1) by {
            lemma2_to64();
        }
        let m = mag(23, k);
        assert(x.excess(1) == 2 * (pow2(149) * pow2(149)) - m) by (nonlinear_arith)
            requires
                x.excess(1) == 2 * (pow2(149) * pow2(149)) - 1 * m,
        ;
    }
}

} // verus!
