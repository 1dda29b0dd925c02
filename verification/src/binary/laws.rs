use vstd::arithmetic::power2::lemma2_to64_rest;
use vstd::arithmetic::power2::lemma_pow2_adds;
use vstd::arithmetic::power2::lemma_pow2_pos;
use vstd::arithmetic::power2::lemma_pow2_strictly_increases;
use vstd::arithmetic::power2::lemma_pow2_unfold;
use vstd::arithmetic::power2::pow2;
use vstd::prelude::*;

use crate::binary::arith::integer_of;
use crate::binary::arith::lemma_zero_rounds_to_zero;
use crate::binary::arith::product_of;
use crate::binary::arith::quotient_of;
use crate::binary::arith::recast_of;
use crate::binary::double::Binary64;
use crate::binary::double::lemma_double_constants;
use crate::binary::exact::Exact;
use crate::binary::exact::lemma_mag_increases;
use crate::binary::exact::lemma_mag_next;
use crate::binary::exact::lemma_mag_of_parts;
use crate::binary::exact::lemma_nearest_unique;
use crate::binary::exact::lemma_parts_of;
use crate::binary::exact::lemma_representable_is_fixed;
use crate::binary::exact::mag;
use crate::binary::exact::nearest;
use crate::binary::exact::rounds_to;
use crate::binary::exact::sig_of;
use crate::binary::exact::step_of;
use crate::binary::number::Num;
use crate::binary::number::lemma_key_order_is_value_order;
use crate::binary::number::product;
use crate::binary::number::quotient;
use crate::binary::number::sum;
use crate::binary::number::total;
use crate::binary::order::lemma_format_bounds;
use crate::binary::order::lemma_nearest_is_attained;
use crate::binary::order::lemma_nearest_monotone;
use crate::binary::order::lemma_product_monotone;
use crate::binary::order::lemma_quotient_antitone;
use crate::binary::order::lemma_quotient_monotone;
use crate::binary::order::lemma_sum_monotone;
use crate::binary::order::lemma_sum_with_opposite;
use crate::binary::order::lemma_sum_with_zero;
use crate::binary::round::double;
use crate::binary::round::single;
use crate::binary::single::Binary32;
use crate::binary::single::half;
use crate::binary::single::lemma_single_constants;
use crate::binary::single::two;

verus! {

/// A result of an operation fits its bit pattern.
proof fn lemma_pack(n: Num)
    requires
        n.k < 0x8000_0000,
    ensures
        Binary32::of_num(n).num() == n,
{
}

/// A rounded sum fits its bit pattern.
pub proof fn lemma_sum_packs(a: Binary32, n: Num)
    requires
        n.k < 0x8000_0000,
    ensures
        Binary32::of_num(sum(single(), a.num(), n)).num() == sum(single(), a.num(), n),
{
    lemma_single_constants();
    lemma_format_bounds(single());
    let v = a.num().value(single()) + n.value(single());
    lemma_nearest_is_attained(23, single().kinf(), total(v));
    lemma_pack(sum(single(), a.num(), n));
}

/// A rounded product fits its bit pattern.
pub proof fn lemma_product_packs(a: Binary32, b: Binary32)
    ensures
        Binary32::of_num(product(single(), a.num(), b.num())).num() == product(
            single(),
            a.num(),
            b.num(),
        ),
{
    lemma_single_constants();
    lemma_format_bounds(single());
    lemma_nearest_is_attained(
        23,
        single().kinf(),
        product_of(single(), a.num().k as nat, b.num().k as nat),
    );
    lemma_pack(product(single(), a.num(), b.num()));
}

/// The order of finite numbers is the order of their values.
pub proof fn law_order_is_value_order(a: Binary32, b: Binary32)
    requires
        a.is_finite(),
        b.is_finite(),
    ensures
        a.lt(b) <==> a.value() < b.value(),
        a.le(b) <==> a.value() <= b.value(),
        a.eq(b) <==> a.value() == b.value(),
{
    lemma_single_constants();
    lemma_key_order_is_value_order(single(), a.num(), b.num());
    lemma_key_order_is_value_order(single(), b.num(), a.num());
}

/// Addition does not depend on the order of its arguments, to the bit.
pub proof fn law_addition_commutes(a: Binary32, b: Binary32)
    ensures
        a.add(b) == b.add(a),
{
    reveal(Binary32::spec_add);
    lemma_single_constants();
}

/// Multiplication does not depend on the order of its arguments, to the bit.
pub proof fn law_multiplication_commutes(a: Binary32, b: Binary32)
    ensures
        a.mul(b) == b.mul(a),
{
    reveal(Binary32::spec_mul);
    let j = a.num().k as nat;
    let k = b.num().k as nat;
    assert(mag(23, j) * mag(23, k) == mag(23, k) * mag(23, j)) by (nonlinear_arith);
}

/// Addition respects the order, as long as the sums are numbers.
pub proof fn law_addition_is_monotone(a: Binary32, b: Binary32, c: Binary32)
    requires
        a.le(b),
        !a.add(c).is_nan(),
        !b.add(c).is_nan(),
    ensures
        a.add(c).le(b.add(c)),
{
    reveal(Binary32::spec_add);
    lemma_single_constants();
    lemma_sum_packs(a, c.num());
    lemma_sum_packs(b, c.num());
    lemma_sum_monotone(single(), a.num(), b.num(), c.num());
}

/// Subtraction respects the order, as long as the differences are numbers.
pub proof fn law_subtraction_is_monotone(a: Binary32, b: Binary32, c: Binary32)
    requires
        a.le(b),
        !a.sub(c).is_nan(),
        !b.sub(c).is_nan(),
    ensures
        a.sub(c).le(b.sub(c)),
{
    reveal(Binary32::spec_sub);
    lemma_single_constants();
    lemma_sum_packs(a, c.num().negated());
    lemma_sum_packs(b, c.num().negated());
    lemma_sum_monotone(single(), a.num(), b.num(), c.num().negated());
}

/// Adding a number that is not negative does not decrease a finite number, and
/// subtracting it does not increase it.
pub proof fn law_non_negative_steps(a: Binary32, d: Binary32)
    requires
        a.is_finite(),
        Binary32::zero().le(d),
    ensures
        a.le(a.add(d)),
        a.sub(d).le(a),
        !a.add(d).is_nan(),
        !a.sub(d).is_nan(),
{
    reveal(Binary32::spec_add);
    reveal(Binary32::spec_sub);
    lemma_single_constants();
    lemma_format_bounds(single());
    let f = single();
    let z = Num { neg: false, k: 0 };
    let x = a.num();
    lemma_sum_packs(a, d.num());
    lemma_sum_packs(a, d.num().negated());
    lemma_sum_commutes(x, d.num());
    lemma_sum_commutes(x, d.num().negated());
    lemma_sum_commutes(x, z);
    lemma_sum_with_zero(f, x, z);
    if d.is_finite() {
        lemma_finite_sum_is_number(x, d.num());
        lemma_finite_sum_is_number(x, d.num().negated());
    }
    lemma_sum_monotone(f, z, d.num(), x);
    lemma_sum_monotone(f, d.num().negated(), z, x);
}

proof fn lemma_finite_sum_is_number(a: Num, b: Num)
    requires
        a.finite(single()),
        b.finite(single()),
    ensures
        !sum(single(), a, b).nan(single()),
{
    lemma_single_constants();
    lemma_format_bounds(single());
    let v = a.value(single()) + b.value(single());
    lemma_nearest_is_attained(23, single().kinf(), total(v));
}

proof fn lemma_sum_commutes(a: Num, b: Num)
    requires
        a.finite(single()),
    ensures
        sum(single(), a, b) == sum(single(), b, a),
{
}

/// A difference has the sign of the order: not negative where the first number is
/// at least the second one and that one is finite.
pub proof fn law_difference_is_not_negative(a: Binary32, b: Binary32)
    requires
        b.is_finite(),
        b.le(a),
    ensures
        Binary32::zero().le(a.sub(b)),
{
    reveal(Binary32::spec_sub);
    lemma_single_constants();
    lemma_format_bounds(single());
    let f = single();
    lemma_sum_packs(a, b.num().negated());
    lemma_sum_with_opposite(f, b.num());
    if a.is_finite() {
        lemma_finite_sum_is_number(a.num(), b.num().negated());
    }
    lemma_sum_monotone(f, b.num(), a.num(), b.num().negated());
}

/// The sum and the difference of finite numbers are numbers.
pub proof fn law_finite_difference_is_a_number(a: Binary32, b: Binary32)
    requires
        a.is_finite(),
        b.is_finite(),
    ensures
        !a.add(b).is_nan(),
        !a.sub(b).is_nan(),
{
    reveal(Binary32::spec_add);
    reveal(Binary32::spec_sub);
    lemma_single_constants();
    lemma_sum_packs(a, b.num());
    lemma_sum_packs(a, b.num().negated());
    lemma_finite_sum_is_number(a.num(), b.num());
    lemma_finite_sum_is_number(a.num(), b.num().negated());
}

/// A product is a number unless an infinity meets a zero or a NaN takes part.
pub proof fn law_finite_product_is_a_number(a: Binary32, b: Binary32)
    requires
        !a.is_nan(),
        !b.is_nan(),
        a.is_finite() || !b.eq(Binary32::zero()),
        b.is_finite() || !a.eq(Binary32::zero()),
    ensures
        !a.mul(b).is_nan(),
{
    reveal(Binary32::spec_mul);
    lemma_single_constants();
    lemma_product_packs(a, b);
    lemma_nearest_is_attained(
        23,
        single().kinf(),
        product_of(single(), a.num().k as nat, b.num().k as nat),
    );
}

/// A quotient of a finite number by a number that is not zero is a number.
pub proof fn law_finite_quotient_is_a_number(a: Binary32, b: Binary32)
    requires
        !a.is_nan(),
        !b.is_nan(),
        a.is_finite() || b.is_finite(),
        !b.eq(Binary32::zero()),
    ensures
        !a.div(b).is_nan(),
{
    reveal(Binary32::spec_div);
    lemma_single_constants();
    lemma_quotient_packs(a, b);
    lemma_nearest_is_attained(
        23,
        single().kinf(),
        quotient_of(single(), a.num().k as nat, b.num().k as nat),
    );
}

/// A number plus a finite number is a number.
pub proof fn law_sum_with_finite_is_a_number(a: Binary32, b: Binary32)
    requires
        !a.is_nan(),
        b.is_finite(),
    ensures
        !a.add(b).is_nan(),
        !a.sub(b).is_nan(),
{
    if a.is_finite() {
        law_finite_difference_is_a_number(a, b);
    } else {
        reveal(Binary32::spec_add);
        reveal(Binary32::spec_sub);
        lemma_single_constants();
    }
}

/// Multiplication by a number that is not negative respects the order, as long as
/// the products are numbers.
pub proof fn law_multiplication_is_monotone(a: Binary32, b: Binary32, c: Binary32)
    requires
        c.bits < 0x8000_0000,
        a.le(b),
        !a.mul(c).is_nan(),
        !b.mul(c).is_nan(),
    ensures
        a.mul(c).le(b.mul(c)),
{
    reveal(Binary32::spec_mul);
    lemma_single_constants();
    lemma_product_packs(a, c);
    lemma_product_packs(b, c);
    lemma_product_monotone(single(), a.num(), b.num(), c.num());
}

/// A rounded quotient fits its bit pattern.
pub proof fn lemma_quotient_packs(a: Binary32, b: Binary32)
    ensures
        Binary32::of_num(quotient(single(), a.num(), b.num())).num() == quotient(
            single(),
            a.num(),
            b.num(),
        ),
{
    lemma_single_constants();
    lemma_format_bounds(single());
    lemma_nearest_is_attained(
        23,
        single().kinf(),
        quotient_of(single(), a.num().k as nat, b.num().k as nat),
    );
    lemma_pack(quotient(single(), a.num(), b.num()));
}

/// Division by a positive number respects the order, as long as the quotients are
/// numbers.
pub proof fn law_division_is_monotone(a: Binary32, b: Binary32, c: Binary32)
    requires
        c.gt(Binary32::zero()),
        a.le(b),
        !a.div(c).is_nan(),
        !b.div(c).is_nan(),
    ensures
        a.div(c).le(b.div(c)),
{
    reveal(Binary32::spec_div);
    lemma_single_constants();
    lemma_quotient_packs(a, c);
    lemma_quotient_packs(b, c);
    lemma_quotient_monotone(single(), a.num(), b.num(), c.num());
}

/// A finite number that is not zero, divided by itself, is one.
pub proof fn law_self_quotient_is_one(a: Binary32)
    requires
        a.is_finite(),
        !a.eq(Binary32::zero()),
    ensures
        a.div(a) == Binary32::one(),
{
    reveal(Binary32::spec_div);
    lemma_single_constants();
    lemma_format_bounds(single());
    lemma_one_magnitude();
    lemma_pow2_pos(23);
    let k = a.num().k as nat;
    let m = mag(23, k);
    lemma_mag_increases(23, 0, k);
    let x = quotient_of(single(), k, k);
    assert(x.excess(2 * pow2(149)) == 0) by (nonlinear_arith)
        requires
            x.excess(2 * pow2(149)) == 2 * (m * pow2(149)) - (2 * pow2(149)) * m,
    ;
    lemma_representable_is_fixed(23, single().kinf(), x, 0x3f80_0000);
}

/// The larger and the smaller of two numbers bound both.
pub proof fn law_extremes_bound(a: Binary32, b: Binary32)
    requires
        !a.is_nan(),
        !b.is_nan(),
    ensures
        a.le(a.max(b)),
        b.le(a.max(b)),
        a.min(b).le(a),
        a.min(b).le(b),
{
}

/// A clamped number lies within its bounds.
pub proof fn law_clamp_is_bounded(x: Binary32, lo: Binary32, hi: Binary32)
    requires
        lo.le(hi),
        !x.is_nan(),
    ensures
        lo.le(x.clamp(lo, hi)),
        x.clamp(lo, hi).le(hi),
        lo.le(x) && x.le(hi) ==> x.clamp(lo, hi) == x,
{
}

/// A number times or divided by one is itself.
pub proof fn law_one_is_neutral(a: Binary32)
    requires
        !a.is_nan(),
    ensures
        a.mul(Binary32::one()) == a,
        a.div(Binary32::one()) == a,
{
    reveal(Binary32::spec_mul);
    reveal(Binary32::spec_div);
    lemma_single_constants();
    lemma_format_bounds(single());
    let k = a.num().k as nat;
    let m = mag(23, k);
    lemma_one_magnitude();
    lemma_pow2_pos(149);
    let x = product_of(single(), k, 0x3f80_0000);
    let y = quotient_of(single(), k, 0x3f80_0000);
    if a.is_finite() {
        assert(x.excess(2 * m) == 0) by (nonlinear_arith)
            requires
                x.excess(2 * m) == 2 * (m * pow2(149)) - (2 * m) * pow2(149),
        ;
        lemma_representable_is_fixed(23, single().kinf(), x, k);
        assert(y.excess(2 * m) == 0) by (nonlinear_arith)
            requires
                y.excess(2 * m) == 2 * (m * pow2(149)) - (2 * m) * pow2(149),
        ;
        lemma_representable_is_fixed(23, single().kinf(), y, k);
    }
}

proof fn lemma_one_magnitude()
    ensures
        mag(23, 0x3f80_0000) == pow2(149),
{
    lemma_single_constants();
    assert(0x3f80_0000 == 126 * pow2(23) + pow2(23));
    lemma_mag_of_parts(23, 126, pow2(23));
    lemma_pow2_adds(23, 126);
}

/// A finite number minus itself is zero, and zero times a finite number has value
/// zero.
pub proof fn law_cancellation(a: Binary32)
    requires
        a.is_finite(),
    ensures
        a.sub(a) == Binary32::zero(),
        a.mul(Binary32::zero()).eq(Binary32::zero()),
        Binary32::zero().mul(a).eq(Binary32::zero()),
{
    reveal(Binary32::spec_sub);
    reveal(Binary32::spec_mul);
    lemma_single_constants();
    lemma_format_bounds(single());
    let k = a.num().k as nat;
    lemma_pow2_pos(149);
    lemma_pow2_pos(23);
    assert(mag(23, 0) == 0);
    assert(mag(23, k) * 0 == 0 && 0 * mag(23, k) == 0) by (nonlinear_arith);
    lemma_zero_rounds_to_zero(single(), pow2(149));
    law_multiplication_commutes(a, Binary32::zero());
    lemma_product_packs(a, Binary32::zero());
}

/// Multiplying by minus one negates a number, and adding the negation subtracts.
pub proof fn law_minus_one_negates(a: Binary32, d: Binary32)
    requires
        !d.is_nan(),
    ensures
        Binary32::one().neg().mul(d) == d.neg(),
        Binary32::one().mul(d) == d,
        a.add(d.neg()) == a.sub(d),
{
    law_multiplication_commutes(Binary32::one(), d);
    law_one_is_neutral(d);
    reveal(Binary32::spec_mul);
    reveal(Binary32::spec_add);
    reveal(Binary32::spec_sub);
    lemma_single_constants();
    lemma_format_bounds(single());
    let k = d.num().k as nat;
    let m = mag(23, k);
    lemma_one_magnitude();
    lemma_pow2_pos(149);
    let x = product_of(single(), 0x3f80_0000, k);
    if d.is_finite() {
        assert(x.excess(2 * m) == 0) by (nonlinear_arith)
            requires
                x.excess(2 * m) == 2 * (pow2(149) * m) - (2 * m) * pow2(149),
        ;
        lemma_representable_is_fixed(23, single().kinf(), x, k);
    }
    assert(d.neg().num() == d.num().negated());
}

/// The distance between two numbers on either side of a finite number is not
/// negative, infinities included.
pub proof fn law_distance_across(low: Binary32, middle: Binary32, high: Binary32)
    requires
        middle.is_finite(),
        low.le(middle),
        middle.le(high),
    ensures
        Binary32::zero().le(high.sub(low)),
{
    if low.is_finite() {
        law_difference_is_not_negative(high, low);
    } else {
        reveal(Binary32::spec_sub);
        lemma_single_constants();
    }
}

/// Twice a number that is not negative is not negative.
pub proof fn law_doubling_keeps_the_sign(d: Binary32)
    requires
        Binary32::zero().le(d),
    ensures
        Binary32::zero().le(d.mul(two())),
{
    reveal(Binary32::spec_mul);
    lemma_single_constants();
    lemma_format_bounds(single());
    lemma_product_packs(d, two());
    lemma_nearest_is_attained(
        23,
        single().kinf(),
        product_of(single(), d.num().k as nat, 0x4000_0000),
    );
    if d.num().neg {
        assert(d.num().k == 0);
        assert(mag(23, 0) == 0) by {
            lemma_pow2_pos(23);
        }
        assert(0 * mag(23, 0x4000_0000) == 0) by (nonlinear_arith);
        lemma_pow2_pos(149);
        lemma_zero_rounds_to_zero(single(), pow2(149));
    }
}

/// Division by a larger number does not increase a number that is not negative.
pub proof fn law_division_is_antitone(a: Binary32, c: Binary32, d: Binary32)
    requires
        a.bits < 0x8000_0000,
        c.gt(Binary32::zero()),
        c.le(d),
        !a.div(c).is_nan(),
        !a.div(d).is_nan(),
    ensures
        a.div(d).le(a.div(c)),
{
    reveal(Binary32::spec_div);
    lemma_single_constants();
    lemma_quotient_packs(a, c);
    lemma_quotient_packs(a, d);
    lemma_quotient_antitone(single(), a.num(), c.num(), d.num());
}

/// The index of twice a magnitude.
pub open spec fn doubled_index(k: nat) -> nat {
    if k < 0x80_0000 {
        2 * k
    } else {
        k + 0x80_0000
    }
}

/// Doubling an index doubles its magnitude.
pub proof fn lemma_doubled_magnitude(k: nat)
    ensures
        mag(23, doubled_index(k)) == 2 * mag(23, k),
{
    lemma_single_constants();
    assert(pow2(23) == 0x80_0000);
    if k >= 0x80_0000 {
        lemma_parts_of(23, k);
        let u = step_of(23, k);
        let q = sig_of(23, k);
        assert(q >= 0x80_0000);
        lemma_mag_of_parts(23, u + 1, q);
        lemma_pow2_unfold(u + 1);
        assert((u + 1) * pow2(23) + q == k + 0x80_0000) by (nonlinear_arith)
            requires
                k == u * pow2(23) + q,
                pow2(23) == 0x80_0000,
        ;
        assert(q * pow2(u + 1) == 2 * (q * pow2(u))) by (nonlinear_arith)
            requires
                pow2(u + 1) == 2 * pow2(u),
        ;
    }
}

proof fn lemma_half_magnitude()
    ensures
        2 * mag(23, 0x3f00_0000) == pow2(149),
{
    lemma_single_constants();
    assert(0x3f00_0000 == 125 * pow2(23) + pow2(23));
    lemma_mag_of_parts(23, 125, pow2(23));
    lemma_pow2_adds(23, 125);
    lemma_pow2_unfold(149);
}

/// Half of twice a number is that number, as long as the double is finite.
pub proof fn law_half_of_double(a: Binary32)
    requires
        a.is_finite(),
        a.add(a).is_finite(),
    ensures
        a.add(a).mul(half()) == a,
{
    reveal(Binary32::spec_add);
    reveal(Binary32::spec_mul);
    lemma_single_constants();
    lemma_format_bounds(single());
    let f = single();
    let k = a.num().k as nat;
    let m = mag(23, k);
    let k2 = doubled_index(k);
    lemma_doubled_magnitude(k);
    lemma_half_magnitude();
    lemma_pow2_pos(23);
    lemma_pow2_pos(149);
    lemma_mag_increases(23, 0, k);
    lemma_sum_packs(a, a.num());
    let v = 2 * a.value();
    let x = total(v);
    assert(x == (Exact::Ratio { num: 2 * m, den: 1 }));
    lemma_nearest_is_attained(23, f.kinf(), x);
    if k2 < f.kinf() {
        assert(x.excess(2 * mag(23, k2)) == 0);
        lemma_representable_is_fixed(23, f.kinf(), x, k2);
    } else {
        // the double is not finite
        lemma_mag_increases(23, f.kinf(), k2);
        assert(rounds_to(23, f.kinf(), x, f.kinf())) by {
            lemma_mag_increases(23, (f.kinf() - 1) as nat, f.kinf());
        }
        lemma_nearest_unique(23, f.kinf(), x, f.kinf());
    }
    let y = product_of(f, k2, 0x3f00_0000);
    let h = mag(23, 0x3f00_0000);
    assert(y.excess(2 * m) == 0) by (nonlinear_arith)
        requires
            y.excess(2 * m) == 2 * ((2 * m) * h) - (2 * m) * pow2(149),
            2 * h == pow2(149),
    ;
    lemma_representable_is_fixed(23, f.kinf(), y, k);
}

/// Zero plus, minus and times zero is zero, to the bit.
pub proof fn lemma_zero_arithmetic()
    ensures
        Binary32::zero().add(Binary32::zero()) == Binary32::zero(),
        Binary32::zero().sub(Binary32::zero()) == Binary32::zero(),
        Binary32::zero().mul(Binary32::zero()) == Binary32::zero(),
        two().mul(Binary32::zero()) == Binary32::zero(),
        Binary32::zero().mul(half()) == Binary32::zero(),
        Binary32::zero().sqrt() == Binary32::zero(),
{
    reveal(Binary32::spec_add);
    reveal(Binary32::spec_sub);
    reveal(Binary32::spec_mul);
    reveal(Binary32::spec_sqrt);
    lemma_single_constants();
    lemma_format_bounds(single());
    lemma_pow2_pos(149);
    lemma_pow2_pos(23);
    assert(mag(23, 0) == 0);
    assert(0 * mag(23, 0x3f00_0000) == 0 && mag(23, 0x4000_0000) * 0 == 0) by (nonlinear_arith);
    lemma_zero_rounds_to_zero(single(), pow2(149));
}

/// A zero times a finite number is a zero.
pub proof fn law_zero_absorbs(a: Binary32, b: Binary32)
    requires
        a.eq(Binary32::zero()),
        b.is_finite(),
    ensures
        a.mul(b).eq(Binary32::zero()),
        b.mul(a).eq(Binary32::zero()),
{
    reveal(Binary32::spec_mul);
    lemma_single_constants();
    lemma_format_bounds(single());
    let k = b.num().k as nat;
    lemma_pow2_pos(149);
    lemma_pow2_pos(23);
    assert(mag(23, 0) == 0);
    assert(mag(23, k) * 0 == 0 && 0 * mag(23, k) == 0) by (nonlinear_arith);
    lemma_zero_rounds_to_zero(single(), pow2(149));
    lemma_product_packs(a, b);
    law_multiplication_commutes(a, b);
}

/// Zeros add up to zero.
pub proof fn law_zeros_add_up(a: Binary32, b: Binary32)
    requires
        a.eq(Binary32::zero()),
        b.eq(Binary32::zero()),
    ensures
        a.add(b).eq(Binary32::zero()),
        a.sub(b).eq(Binary32::zero()),
{
    reveal(Binary32::spec_add);
    reveal(Binary32::spec_sub);
    lemma_single_constants();
    lemma_pow2_pos(23);
    lemma_sum_packs(a, b.num());
    lemma_sum_packs(a, b.num().negated());
}

/// Adding zero keeps every number but the negative zero, subtracting it keeps them
/// all, to the bit.
pub proof fn law_zero_is_neutral(a: Binary32)
    requires
        !a.is_nan(),
    ensures
        a != Binary32::zero().neg() ==> a.add(Binary32::zero()) == a,
        a.sub(Binary32::zero()) == a,
{
    reveal(Binary32::spec_add);
    reveal(Binary32::spec_sub);
    lemma_single_constants();
    lemma_format_bounds(single());
    lemma_pow2_pos(23);
    let k = a.num().k as nat;
    if a.is_finite() {
        if k > 0 {
            lemma_mag_increases(23, 0, k);
        }
        let x = total(a.value());
        assert(x == (Exact::Ratio { num: mag(23, k), den: 1 }));
        let m = mag(23, k);
        assert(x.excess(2 * m) == 0) by (nonlinear_arith)
            requires
                x.excess(2 * m) == 2 * m - (2 * m) * 1,
        ;
        lemma_representable_is_fixed(23, single().kinf(), x, k);
    }
}

/// Zero divided by a positive number is zero.
pub proof fn law_zero_divided(a: Binary32)
    requires
        a.gt(Binary32::zero()),
    ensures
        Binary32::zero().div(a) == Binary32::zero(),
{
    reveal(Binary32::spec_div);
    lemma_single_constants();
    lemma_format_bounds(single());
    lemma_pow2_pos(149);
    lemma_pow2_pos(23);
    let k = a.num().k as nat;
    assert(mag(23, 0) == 0);
    lemma_mag_increases(23, 0, k);
    if a.is_finite() {
        assert(0 * pow2(149) == 0) by (nonlinear_arith);
        lemma_zero_rounds_to_zero(single(), mag(23, k));
    }
}

/// One and one is two, and twice two is four.
pub proof fn lemma_small_integers()
    ensures
        Binary32::one().add(Binary32::one()) == two(),
        two().mul(two()).bits == 0x4080_0000,
{
    reveal(Binary32::spec_add);
    reveal(Binary32::spec_mul);
    lemma_single_constants();
    lemma_format_bounds(single());
    lemma_pow2_pos(149);
    lemma_pow2_pos(23);
    lemma_one_magnitude();
    lemma_doubled_magnitude(0x3f80_0000);
    lemma_doubled_magnitude(0x4000_0000);
    let m = pow2(149);
    let x = total(2 * m as int);
    lemma_representable_is_fixed(23, single().kinf(), x, 0x4000_0000);
    let y = product_of(single(), 0x4000_0000, 0x4000_0000);
    assert(y.excess(2 * (4 * m)) == 0) by (nonlinear_arith)
        requires
            y.excess(2 * (4 * m)) == 2 * ((2 * m) * (2 * m)) - (2 * (4 * m)) * m,
    ;
    lemma_representable_is_fixed(23, single().kinf(), y, 0x4080_0000);
}

/// Twice a positive number is positive.
pub proof fn law_doubling_is_positive(a: Binary32)
    requires
        a.gt(Binary32::zero()),
    ensures
        two().mul(a).gt(Binary32::zero()),
{
    lemma_single_constants();
    let one = Binary32::one();
    let two = two();
    law_multiplication_commutes(one, a);
    law_one_is_neutral(a);
    law_finite_product_is_a_number(two, a);
    law_multiplication_is_monotone(one, two, a);
}

/// A number with a finite square is finite.
pub proof fn lemma_finite_square(a: Binary32)
    requires
        a.mul(a).is_finite(),
    ensures
        a.is_finite(),
{
    reveal(Binary32::spec_mul);
    lemma_single_constants();
    lemma_format_bounds(single());
}

/// A square is not negative.
pub proof fn law_square_is_not_negative(a: Binary32)
    requires
        !a.is_nan(),
    ensures
        Binary32::zero().le(a.mul(a)),
        a.mul(a).bits < 0x8000_0000,
{
    reveal(Binary32::spec_mul);
    lemma_single_constants();
    lemma_product_packs(a, a);
    lemma_nearest_is_attained(
        23,
        single().kinf(),
        product_of(single(), a.num().k as nat, a.num().k as nat),
    );
}

/// Rounding to single precision keeps a number that is not negative so.
pub proof fn law_narrowing_keeps_the_sign(a: Binary64)
    requires
        Binary64::zero().le(a),
    ensures
        Binary32::zero().le(a.to_single()),
{
    reveal(Binary64::spec_to_single);
    lemma_single_constants();
    lemma_double_constants();
    lemma_format_bounds(single());
    lemma_nearest_is_attained(
        23,
        single().kinf(),
        recast_of(double(), single(), a.num().k as nat),
    );
    if a.num().k == 0 {
        lemma_pow2_pos(52);
        lemma_pow2_pos(1074);
        assert(mag(52, 0) == 0);
        assert(0 * pow2(149) == 0) by (nonlinear_arith);
        lemma_zero_rounds_to_zero(single(), pow2(1074));
    }
}

/// Adding a zero keeps the value of a number.
pub proof fn law_zero_adds_nothing(a: Binary32, z: Binary32)
    requires
        !a.is_nan(),
        z.eq(Binary32::zero()),
    ensures
        a.add(z).eq(a),
{
    if a.eq(Binary32::zero()) {
        law_zeros_add_up(a, z);
    } else {
        law_zero_is_neutral(a);
        law_minus_one_negates(a, z);
        if z != Binary32::zero() {
            law_minus_one_negates(a, Binary32::zero());
        }
    }
}

/// A zero divided by a positive number is a zero.
pub proof fn law_zero_quotient(z: Binary32, a: Binary32)
    requires
        z.eq(Binary32::zero()),
        a.gt(Binary32::zero()),
    ensures
        z.div(a).eq(Binary32::zero()),
{
    reveal(Binary32::spec_div);
    lemma_single_constants();
    lemma_format_bounds(single());
    lemma_pow2_pos(149);
    lemma_pow2_pos(23);
    let k = a.num().k as nat;
    assert(mag(23, 0) == 0);
    lemma_mag_increases(23, 0, k);
    lemma_quotient_packs(z, a);
    if a.is_finite() {
        assert(0 * pow2(149) == 0) by (nonlinear_arith);
        lemma_zero_rounds_to_zero(single(), mag(23, k));
    }
}

/// The integer zero is the number zero, both ways.
pub proof fn lemma_integer_zero()
    ensures
        Binary32::from_integer(0) == Binary32::zero(),
        Binary32::zero().to_integer() == 0,
{
    reveal(Binary32::spec_from_integer);
    reveal(Binary32::spec_to_integer);
    lemma_single_constants();
    lemma_format_bounds(single());
    lemma_pow2_pos(149);
    lemma_pow2_pos(23);
    assert(mag(23, 0) == 0);
    assert(0 * pow2(149) == 0) by (nonlinear_arith);
    lemma_zero_rounds_to_zero(single(), 1);
    assert(0int / (pow2(149) as int) == 0) by (nonlinear_arith)
        requires
            pow2(149) > 0,
    ;
}

/// A larger subtrahend gives no larger difference.
pub proof fn law_subtraction_is_antitone(a: Binary32, c: Binary32, d: Binary32)
    requires
        c.le(d),
        !a.sub(c).is_nan(),
        !a.sub(d).is_nan(),
    ensures
        a.sub(d).le(a.sub(c)),
{
    law_minus_one_negates(a, c);
    law_minus_one_negates(a, d);
    law_addition_commutes(a, c.neg());
    law_addition_commutes(a, d.neg());
    law_addition_is_monotone(d.neg(), c.neg(), a);
}

/// The difference of a number and a smaller one is positive: it does not vanish.
pub proof fn law_positive_difference(a: Binary32, b: Binary32)
    requires
        b.is_finite(),
        b.lt(a),
    ensures
        a.sub(b).gt(Binary32::zero()),
{
    reveal(Binary32::spec_sub);
    lemma_single_constants();
    lemma_format_bounds(single());
    let f = single();
    lemma_sum_packs(a, b.num().negated());
    if a.is_finite() {
        law_order_is_value_order(b, a);
        let v = a.value() - b.value();
        let x = total(v);
        lemma_nearest_is_attained(23, f.kinf(), x);
        lemma_pow2_pos(23);
        // the difference is at least the smallest positive number
        if nearest(23, f.kinf(), x) == 0 {
            assert(mag(23, 0) + mag(23, 1) == 1);
            assert(x.excess(1) >= 1);
        }
    }
}

/// Zero times a finite number that is not negative is zero, to the bit.
pub proof fn law_zero_times_positive(a: Binary32)
    requires
        a.is_finite(),
        a.bits < 0x8000_0000,
    ensures
        Binary32::zero().mul(a) == Binary32::zero(),
{
    reveal(Binary32::spec_mul);
    lemma_single_constants();
    lemma_format_bounds(single());
    lemma_pow2_pos(149);
    lemma_pow2_pos(23);
    let k = a.num().k as nat;
    assert(mag(23, 0) == 0);
    assert(0 * mag(23, k) == 0) by (nonlinear_arith);
    lemma_zero_rounds_to_zero(single(), pow2(149));
}

/// An integer becomes a finite number that is not negative.
pub proof fn law_integers_are_finite(n: u64)
    ensures
        Binary32::from_integer(n).is_finite(),
        Binary32::from_integer(n).bits < 0x8000_0000,
{
    reveal(Binary32::spec_from_integer);
    lemma_single_constants();
    lemma_format_bounds(single());
    let f = single();
    let x = integer_of(f, n as nat);
    // two to the power of 64
    let k: nat = 0x5f80_0000;
    lemma_mag_of_parts(23, 190, pow2(23));
    lemma_pow2_adds(23, 190);
    lemma_pow2_adds(64, 149);
    lemma2_to64_rest();
    let y = Exact::Ratio { num: pow2(64) * pow2(149), den: 1 };
    lemma_representable_is_fixed(23, f.kinf(), y, k);
    assert(n * pow2(149) <= pow2(64) * pow2(149)) by (nonlinear_arith)
        requires
            n <= pow2(64),
    ;
    assert(x.le(y)) by {
        let a = n * pow2(149);
        let b = pow2(64) * pow2(149);
        assert(a * 1 <= b * 1) by (nonlinear_arith)
            requires
                a <= b,
        ;
    }
    lemma_nearest_monotone(23, f.kinf(), x, y);
}

/// Taking the spacing above a positive number off that number leaves a smaller one, and
/// adding it gives the next one.
pub proof fn law_spacing_is_felt(x: Binary32)
    requires
        x.is_finite(),
        x.gt(Binary32::zero()),
        x.next().is_finite(),
    ensures
        x.next().sub(x).gt(Binary32::zero()),
        x.sub(x.next().sub(x)).lt(x),
        x.next().sub(x).is_finite(),
        x.add(x.next().sub(x)) == x.next(),
{
    reveal(Binary32::spec_add);
    reveal(Binary32::spec_sub);
    lemma_single_constants();
    lemma_format_bounds(single());
    let f = single();
    let k = x.num().k as nat;
    let u = step_of(23, k);
    let w = pow2(u);
    lemma_parts_of(23, k);
    lemma_mag_next(23, k);
    lemma_mag_next(23, (k - 1) as nat);
    lemma_parts_of(23, (k - 1) as nat);
    lemma_pow2_pos(u);
    lemma_pow2_pos(23);
    let v = step_of(23, (k - 1) as nat);
    assert(v <= u) by {
        if v > u {
            assert(v * pow2(23) >= (u + 1) * pow2(23)) by (nonlinear_arith)
                requires
                    v >= u + 1,
            ;
            assert((u + 1) * pow2(23) == u * pow2(23) + pow2(23)) by (nonlinear_arith);
        }
    }
    if v < u {
        lemma_pow2_strictly_increases(v, u);
    }
    let g = lemma_power_index(u);
    lemma_mag_increases(23, (k - 1) as nat, k);
    assert(sig_of(23, k) * w >= w) by (nonlinear_arith)
        requires
            sig_of(23, k) >= 1,
    ;
    if g >= f.kinf() {
        lemma_mag_increases(23, k, g);
    }
    let a = total(w as int);
    assert(a.excess(2 * w) == 0) by (nonlinear_arith)
        requires
            a.excess(2 * w) == 2 * w - (2 * w) * 1,
    ;
    lemma_representable_is_fixed(23, f.kinf(), a, g);
    assert(g > 0);
    let ulp = x.next().sub(x);
    assert(ulp.num() == (Num { neg: false, k: g as u64 }));
    let above = mag(23, k + 1);
    let t = total(above as int);
    assert(t.excess(2 * above) == 0) by (nonlinear_arith)
        requires
            t.excess(2 * above) == 2 * above - (2 * above) * 1,
    ;
    lemma_representable_is_fixed(23, f.kinf(), t, k + 1);
    assert(x.num().value(f) + ulp.num().value(f) == above);
    let d = mag(23, k) - w;
    assert(x.num().value(f) + ulp.num().negated().value(f) == d);
    lemma_sum_packs(x, ulp.num().negated());
    if d > 0 {
        let y = total(d);
        let z = total(mag(23, (k - 1) as nat) as int);
        let below = mag(23, (k - 1) as nat);
        assert(z.excess(2 * below) == 0) by (nonlinear_arith)
            requires
                z.excess(2 * below) == 2 * below - (2 * below) * 1,
        ;
        lemma_representable_is_fixed(23, f.kinf(), z, (k - 1) as nat);
        assert(y.le(z)) by {
            assert(d * 1 <= below * 1) by (nonlinear_arith)
                requires
                    d <= below,
            ;
        }
        lemma_nearest_monotone(23, f.kinf(), y, z);
    }
}

/// The index of a power of two.
proof fn lemma_power_index(u: nat) -> (g: nat)
    ensures
        mag(23, g) == pow2(u),
        g > 0,
{
    lemma_single_constants();
    if u >= 23 {
        let v = (u - 23) as nat;
        lemma_mag_of_parts(23, v, pow2(23));
        lemma_pow2_adds(23, v);
        v * pow2(23) + pow2(23)
    } else {
        lemma_pow2_strictly_increases(u, 23);
        lemma_pow2_pos(u);
        pow2(u)
    }
}

/// Doubling does not decrease a number that is not negative.
pub proof fn law_doubling_grows(a: Binary32)
    requires
        Binary32::zero().le(a),
    ensures
        a.le(a.mul(two())),
{
    lemma_single_constants();
    let one = Binary32::one();
    law_multiplication_commutes(a, one);
    law_multiplication_commutes(a, two());
    law_one_is_neutral(a);
    law_finite_product_is_a_number(two(), a);
    if a.bits < 0x8000_0000 {
        law_multiplication_is_monotone(one, two(), a);
    } else {
        law_zero_absorbs(a, two());
    }
}

/// Twice the half of a normal number is that number.
pub proof fn law_double_of_half(s: Binary32)
    requires
        0x0100_0000 <= s.bits < 0x7f80_0000,
    ensures
        two().mul(s.div(two())) == s,
        s.div(two()).is_finite(),
        2 * s.div(two()).value() == s.value(),
{
    reveal(Binary32::spec_mul);
    reveal(Binary32::spec_div);
    lemma_single_constants();
    lemma_format_bounds(single());
    lemma_pow2_pos(149);
    let k = s.num().k as nat;
    let h = (k - 0x80_0000) as nat;
    lemma_doubled_magnitude(h);
    lemma_one_magnitude();
    lemma_doubled_magnitude(0x3f80_0000);
    let m = mag(23, h);
    let e = pow2(149);
    let x = quotient_of(single(), k, 0x4000_0000);
    assert(x.excess(2 * m) == 0) by (nonlinear_arith)
        requires
            x.excess(2 * m) == 2 * ((2 * m) * e) - (2 * m) * (2 * e),
    ;
    lemma_representable_is_fixed(23, single().kinf(), x, h);
    let y = product_of(single(), 0x4000_0000, h);
    assert(y.excess(2 * (2 * m)) == 0) by (nonlinear_arith)
        requires
            y.excess(2 * (2 * m)) == 2 * ((2 * e) * m) - (2 * (2 * m)) * e,
    ;
    lemma_representable_is_fixed(23, single().kinf(), y, k);
}

/// The index of a product of a significand and a power of two.
pub proof fn lemma_scaled_index(q: nat, u: nat) -> (k: nat)
    requires
        0 < q < 0x100_0000,
    ensures
        mag(23, k) == q * pow2(u),
    decreases u,
{
    lemma_single_constants();
    if u == 0 || q >= 0x80_0000 {
        lemma_mag_of_parts(23, u, q);
        u * pow2(23) + q
    } else {
        lemma_pow2_unfold(u);
        assert((2 * q) * pow2((u - 1) as nat) == q * pow2(u)) by (nonlinear_arith)
            requires
                pow2(u) == 2 * pow2((u - 1) as nat),
        ;
        lemma_scaled_index(2 * q, (u - 1) as nat)
    }
}

/// An integer of at most 24 bits becomes a number without rounding.
pub proof fn law_small_integers_are_exact(n: u64)
    requires
        n < 0x100_0000,
    ensures
        Binary32::from_integer(n).value() == n * pow2(149),
        Binary32::from_integer(n).to_integer() == n,
        Binary32::from_integer(n).is_finite(),
        Binary32::from_integer(n).bits < 0x8000_0000,
{
    reveal(Binary32::spec_from_integer);
    reveal(Binary32::spec_to_integer);
    lemma_single_constants();
    lemma_format_bounds(single());
    lemma_pow2_pos(149);
    lemma_pow2_pos(23);
    law_integers_are_finite(n);
    if n == 0 {
        lemma_integer_zero();
        assert(0 * pow2(149) == 0) by (nonlinear_arith);
        assert(mag(23, 0) == 0);
    } else {
        let k = lemma_scaled_index(n as nat, 149);
        let f = single();
        let m = mag(23, k);
        if k >= f.kinf() {
            lemma_mag_of_parts(23, 254, pow2(23));
            lemma_mag_increases(23, f.kinf(), k);
            lemma_pow2_adds(23, 254);
            lemma_pow2_adds(24, 149);
            lemma_pow2_strictly_increases(173, 277);
            lemma_pow2_unfold(24);
            assert(n * pow2(149) <= pow2(24) * pow2(149)) by (nonlinear_arith)
                requires
                    n <= pow2(24),
            ;
        }
        let x = integer_of(f, n as nat);
        assert(x.excess(2 * m) == 0) by (nonlinear_arith)
            requires
                x.excess(2 * m) == 2 * m - (2 * m) * 1,
        ;
        lemma_representable_is_fixed(23, f.kinf(), x, k);
        assert((n * pow2(149)) as int / (pow2(149) as int) == n) by (nonlinear_arith)
            requires
                pow2(149) > 0,
        ;
    }
}

/// The difference of neighbouring integers is one.
pub proof fn law_integer_steps_are_one(n: u64)
    requires
        n + 1 < 0x100_0000,
    ensures
        Binary32::from_integer((n + 1) as u64).sub(Binary32::from_integer(n)) == Binary32::one(),
{
    reveal(Binary32::spec_sub);
    lemma_single_constants();
    lemma_format_bounds(single());
    lemma_one_magnitude();
    lemma_pow2_pos(149);
    law_small_integers_are_exact(n);
    law_small_integers_are_exact((n + 1) as u64);
    let a = Binary32::from_integer((n + 1) as u64);
    let b = Binary32::from_integer(n);
    let e = pow2(149);
    assert((n + 1) * e - n * e == e) by (nonlinear_arith);
    assert(a.num().value(single()) + b.num().negated().value(single()) == e);
    let x = total(e as int);
    assert(x.excess(2 * e) == 0) by (nonlinear_arith)
        requires
            x.excess(2 * e) == 2 * e - (2 * e) * 1,
    ;
    lemma_representable_is_fixed(23, single().kinf(), x, 0x3f80_0000);
}

/// Negating a factor negates the product.
pub proof fn law_negated_factor(a: Binary32, b: Binary32)
    requires
        !a.mul(b).is_nan(),
    ensures
        a.neg().mul(b) == a.mul(b).neg(),
{
    reveal(Binary32::spec_mul);
    lemma_single_constants();
    lemma_format_bounds(single());
    lemma_product_packs(a, b);
    lemma_product_packs(a.neg(), b);
    lemma_nearest_is_attained(
        23,
        single().kinf(),
        product_of(single(), a.num().k as nat, b.num().k as nat),
    );
}

/// Differences taken in opposite order are opposite, unless they vanish.
pub proof fn law_reversed_difference(a: Binary32, b: Binary32)
    requires
        a.is_finite(),
        !b.is_nan(),
    ensures
        b.sub(a).eq(Binary32::zero()) || b.sub(a) == a.sub(b).neg(),
        b.sub(a).is_finite() ==> b.is_finite(),
{
    reveal(Binary32::spec_sub);
    lemma_single_constants();
    lemma_format_bounds(single());
    lemma_sum_packs(a, b.num().negated());
    lemma_sum_packs(b, a.num().negated());
    let v = a.value() - b.value();
    lemma_nearest_is_attained(23, single().kinf(), total(v));
    assert(total(v) == total(-v));
}

/// The difference of two finite numbers that are not negative is finite.
pub proof fn law_positive_difference_is_finite(a: Binary32, b: Binary32)
    requires
        a.is_finite(),
        b.is_finite(),
        Binary32::zero().le(a),
        Binary32::zero().le(b),
    ensures
        a.sub(b).is_finite(),
{
    lemma_single_constants();
    law_non_negative_steps(a, b);
    law_non_negative_steps(b, a);
    law_reversed_difference(a, b);
    law_reversed_difference(b, a);
}

} // verus!
