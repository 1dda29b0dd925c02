use vstd::arithmetic::power2::lemma2_to64;
use vstd::arithmetic::power2::lemma2_to64_rest;
use vstd::arithmetic::power2::lemma_pow2_pos;
use vstd::arithmetic::power2::pow2;
use vstd::prelude::*;

use crate::binary::arith::lemma_zero_rounds_to_zero;
use crate::binary::arith::product_of;
use crate::binary::arith::quotient_of;
use crate::binary::exact::Exact;
use crate::binary::exact::lemma_mag_increases;
use crate::binary::exact::lemma_representable_is_fixed;
use crate::binary::exact::lemma_rounding_monotone;
use crate::binary::exact::mag;
use crate::binary::exact::nearest;
use crate::binary::exact::rounds_to;
use crate::binary::number::Num;
use crate::binary::number::at_most;
use crate::binary::number::lemma_key_order_is_value_order;
use crate::binary::number::not_a_number;
use crate::binary::number::product;
use crate::binary::number::quotient;
use crate::binary::number::rounded;
use crate::binary::number::sum;
use crate::binary::number::total;
use crate::binary::round::Format;

verus! {

/// Some number of the format is the nearest one: the first whose upper midpoint is
/// not below `x`.
proof fn lemma_nearest_from(p: nat, kinf: nat, x: Exact, k: nat)
    requires
        k <= kinf,
        k > 0 ==> {
            let e = x.excess(mag(p, (k - 1) as nat) + mag(p, k));
            e > 0 || (e == 0 && k % 2 == 0)
        },
    ensures
        exists|j: nat| rounds_to(p, kinf, x, j),
    decreases kinf - k,
{
    if k < kinf {
        let e = x.excess(mag(p, k) + mag(p, k + 1));
        if e < 0 || (e == 0 && k % 2 == 0) {
            assert(rounds_to(p, kinf, x, k));
        } else {
            lemma_nearest_from(p, kinf, x, k + 1);
        }
    } else {
        assert(rounds_to(p, kinf, x, k));
    }
}

/// The nearest number is attained.
pub proof fn lemma_nearest_is_attained(p: nat, kinf: nat, x: Exact)
    ensures
        rounds_to(p, kinf, x, nearest(p, kinf, x)),
        nearest(p, kinf, x) <= kinf,
{
    lemma_nearest_from(p, kinf, x, 0);
}

/// Rounding respects the order.
pub proof fn lemma_nearest_monotone(p: nat, kinf: nat, x: Exact, y: Exact)
    requires
        x.wf(),
        y.wf(),
        x.le(y),
    ensures
        nearest(p, kinf, x) <= nearest(p, kinf, y),
{
    lemma_nearest_is_attained(p, kinf, x);
    lemma_nearest_is_attained(p, kinf, y);
    lemma_rounding_monotone(p, kinf, x, y, nearest(p, kinf, x), nearest(p, kinf, y));
}

pub proof fn lemma_format_bounds(f: Format)
    requires
        f.wf(),
    ensures
        0 < f.kinf(),
        f.hidden() / 2 > 0,
        f.kinf() + f.hidden() / 2 < 0x8000_0000_0000_0000,
{
    lemma2_to64();
    lemma2_to64_rest();
}

/// The rounded sum of an exact value, zero included.
spec fn rounded_total(f: Format, v: int) -> int {
    let k = nearest(f.p as nat, f.kinf(), total(v)) as int;
    if v < 0 {
        -k
    } else {
        k
    }
}

proof fn lemma_rounded_total_monotone(f: Format, v: int, w: int)
    requires
        f.wf(),
        v <= w,
    ensures
        rounded_total(f, v) <= rounded_total(f, w),
{
    let p = f.p as nat;
    if v < 0 && w < 0 {
        lemma_nearest_monotone(p, f.kinf(), total(w), total(v));
    } else if v >= 0 {
        lemma_nearest_monotone(p, f.kinf(), total(v), total(w));
    }
}

proof fn lemma_rounded_total_of_representable(f: Format, a: Num)
    requires
        f.wf(),
        a.finite(f),
    ensures
        rounded_total(f, a.value(f)) == a.key(),
{
    let p = f.p as nat;
    lemma_pow2_pos(p);
    lemma_mag_increases(p, 0, a.k as nat);
    let m = mag(p, a.k as nat);
    let x = total(a.value(f));
    assert(x == (Exact::Ratio { num: m, den: 1 }));
    assert(x.excess(2 * m) == 2 * m - 2 * m * 1);
    lemma_representable_is_fixed(p, f.kinf(), x, a.k as nat);
    if a.k > 0 {
        lemma_mag_increases(p, 0, a.k as nat);
    }
}

/// The position of a sum of two finite numbers.
proof fn lemma_sum_key(f: Format, a: Num, b: Num)
    requires
        f.wf(),
        a.finite(f),
        b.finite(f),
    ensures
        sum(f, a, b).key() == rounded_total(f, a.value(f) + b.value(f)),
        sum(f, a, b).k <= f.kinf(),
        !sum(f, a, b).nan(f),
{
    lemma_format_bounds(f);
    let v = a.value(f) + b.value(f);
    lemma_nearest_is_attained(f.p as nat, f.kinf(), total(v));
    if v == 0 {
        lemma_zero_rounds_to_zero(f, 1);
        assert(total(0) == (Exact::Ratio { num: 0, den: 1 }));
    }
}

/// Addition respects the order, as long as the sums are numbers.
pub proof fn lemma_sum_monotone(f: Format, a: Num, b: Num, c: Num)
    requires
        f.wf(),
        at_most(f, a, b),
        !sum(f, a, c).nan(f),
        !sum(f, b, c).nan(f),
    ensures
        at_most(f, sum(f, a, c), sum(f, b, c)),
{
    lemma_format_bounds(f);
    assert(not_a_number(f).nan(f));
    if a.finite(f) && c.finite(f) {
        lemma_sum_key(f, a, c);
    }
    if b.finite(f) && c.finite(f) {
        lemma_sum_key(f, b, c);
    }
    if a.finite(f) && b.finite(f) && c.finite(f) {
        lemma_key_order_is_value_order(f, a, b);
        lemma_rounded_total_monotone(f, a.value(f) + c.value(f), b.value(f) + c.value(f));
    }
}

/// Adding zero keeps the position.
pub proof fn lemma_sum_with_zero(f: Format, a: Num, z: Num)
    requires
        f.wf(),
        !a.nan(f),
        z.k == 0,
    ensures
        sum(f, a, z).key() == a.key(),
        !sum(f, a, z).nan(f),
{
    lemma_format_bounds(f);
    if a.finite(f) {
        lemma_sum_key(f, a, z);
        lemma_pow2_pos(f.p as nat);
        assert(z.value(f) == 0);
        lemma_rounded_total_of_representable(f, a);
    }
}

/// A finite number minus itself is zero.
pub proof fn lemma_sum_with_opposite(f: Format, a: Num)
    requires
        f.wf(),
        a.finite(f),
    ensures
        sum(f, a, a.negated()).key() == 0,
        !sum(f, a, a.negated()).nan(f),
{
    lemma_format_bounds(f);
    assert(a.negated().value(f) == -a.value(f)) by {
        lemma_pow2_pos(f.p as nat);
    }
}

/// The magnitude index of a product, for results that are numbers.
proof fn lemma_product_index(f: Format, a: Num, c: Num)
    requires
        f.wf(),
        !product(f, a, c).nan(f),
    ensures
        !a.nan(f),
        !c.nan(f),
        product(f, a, c).neg == (a.neg != c.neg),
        product(f, a, c).k <= f.kinf(),
        a.finite(f) && c.finite(f) ==> product(f, a, c).k == nearest(
            f.p as nat,
            f.kinf(),
            product_of(f, a.k as nat, c.k as nat),
        ),
        a.infinite(f) || c.infinite(f) ==> product(f, a, c).k == f.kinf() && a.k > 0 && c.k > 0,
{
    lemma_format_bounds(f);
    assert(not_a_number(f).nan(f));
    lemma_nearest_is_attained(f.p as nat, f.kinf(), product_of(f, a.k as nat, c.k as nat));
}

/// Larger factors give larger products.
proof fn lemma_product_index_monotone(f: Format, a: Num, b: Num, c: Num)
    requires
        f.wf(),
        a.k <= b.k,
        !product(f, a, c).nan(f),
        !product(f, b, c).nan(f),
    ensures
        product(f, a, c).k <= product(f, b, c).k,
{
    let p = f.p as nat;
    lemma_product_index(f, a, c);
    lemma_product_index(f, b, c);
    if a.finite(f) && b.finite(f) && c.finite(f) {
        let ma = mag(p, a.k as nat);
        let mb = mag(p, b.k as nat);
        let mc = mag(p, c.k as nat);
        let d = pow2(f.unit as nat);
        lemma_pow2_pos(f.unit as nat);
        lemma_mag_increases(p, a.k as nat, b.k as nat);
        assert((ma * mc) * d <= (mb * mc) * d) by (nonlinear_arith)
            requires
                ma <= mb,
                mc >= 0,
                d >= 0,
        ;
        lemma_nearest_monotone(
            p,
            f.kinf(),
            product_of(f, a.k as nat, c.k as nat),
            product_of(f, b.k as nat, c.k as nat),
        );
    }
}

/// Multiplication by a number that is not negative respects the order, as long as
/// the products are numbers.
pub proof fn lemma_product_monotone(f: Format, a: Num, b: Num, c: Num)
    requires
        f.wf(),
        !c.neg,
        at_most(f, a, b),
        !product(f, a, c).nan(f),
        !product(f, b, c).nan(f),
    ensures
        at_most(f, product(f, a, c), product(f, b, c)),
{
    lemma_product_index(f, a, c);
    lemma_product_index(f, b, c);
    if a.neg && b.neg {
        lemma_product_index_monotone(f, b, a, c);
    } else if !a.neg && !b.neg {
        lemma_product_index_monotone(f, a, b, c);
    } else if !a.neg && b.neg {
        assert(a.k == 0 && b.k == 0);
        lemma_product_of_zero(f, a, c);
        lemma_product_of_zero(f, b, c);
    }
}

/// A zero factor gives a zero product.
proof fn lemma_product_of_zero(f: Format, a: Num, c: Num)
    requires
        f.wf(),
        a.k == 0,
        !product(f, a, c).nan(f),
    ensures
        product(f, a, c).k == 0,
{
    let p = f.p as nat;
    lemma_product_index(f, a, c);
    lemma_pow2_pos(p);
    lemma_pow2_pos(f.unit as nat);
    assert(mag(p, 0) == 0);
    assert(0 * mag(p, c.k as nat) == 0) by (nonlinear_arith);
    lemma_zero_rounds_to_zero(f, pow2(f.unit as nat));
}

/// The magnitude index of a quotient, for results that are numbers.
proof fn lemma_quotient_index(f: Format, a: Num, c: Num)
    requires
        f.wf(),
        !quotient(f, a, c).nan(f),
    ensures
        !a.nan(f),
        !c.nan(f),
        quotient(f, a, c).neg == (a.neg != c.neg),
        quotient(f, a, c).k <= f.kinf(),
        a.finite(f) && c.finite(f) && c.k > 0 ==> quotient(f, a, c).k == nearest(
            f.p as nat,
            f.kinf(),
            quotient_of(f, a.k as nat, c.k as nat),
        ),
        a.infinite(f) ==> quotient(f, a, c).k == f.kinf(),
        a.finite(f) && c.infinite(f) ==> quotient(f, a, c).k == 0,
        a.finite(f) && c.k == 0 ==> quotient(f, a, c).k == f.kinf(),
{
    lemma_format_bounds(f);
    assert(not_a_number(f).nan(f));
    lemma_nearest_is_attained(f.p as nat, f.kinf(), quotient_of(f, a.k as nat, c.k as nat));
}

proof fn lemma_quotient_index_monotone(f: Format, a: Num, b: Num, c: Num)
    requires
        f.wf(),
        a.k <= b.k,
        !quotient(f, a, c).nan(f),
        !quotient(f, b, c).nan(f),
    ensures
        quotient(f, a, c).k <= quotient(f, b, c).k,
{
    let p = f.p as nat;
    lemma_quotient_index(f, a, c);
    lemma_quotient_index(f, b, c);
    if a.finite(f) && b.finite(f) && c.finite(f) && c.k > 0 {
        let ma = mag(p, a.k as nat);
        let mb = mag(p, b.k as nat);
        let mc = mag(p, c.k as nat);
        let d = pow2(f.unit as nat);
        lemma_mag_increases(p, a.k as nat, b.k as nat);
        lemma_pow2_pos(p);
        lemma_mag_increases(p, 0, c.k as nat);
        assert((ma * d) * mc <= (mb * d) * mc) by (nonlinear_arith)
            requires
                ma <= mb,
                mc >= 0,
                d >= 0,
        ;
        lemma_nearest_monotone(
            p,
            f.kinf(),
            quotient_of(f, a.k as nat, c.k as nat),
            quotient_of(f, b.k as nat, c.k as nat),
        );
    }
}

/// Division by a number that is not negative respects the order, as long as the
/// quotients are numbers.
pub proof fn lemma_quotient_monotone(f: Format, a: Num, b: Num, c: Num)
    requires
        f.wf(),
        !c.neg,
        c.k > 0,
        at_most(f, a, b),
        !quotient(f, a, c).nan(f),
        !quotient(f, b, c).nan(f),
    ensures
        at_most(f, quotient(f, a, c), quotient(f, b, c)),
{
    lemma_quotient_index(f, a, c);
    lemma_quotient_index(f, b, c);
    if a.neg && b.neg {
        lemma_quotient_index_monotone(f, b, a, c);
    } else if !a.neg && !b.neg {
        lemma_quotient_index_monotone(f, a, b, c);
    } else if !a.neg && b.neg {
        assert(a.k == 0 && b.k == 0);
        lemma_format_bounds(f);
        let p = f.p as nat;
        lemma_pow2_pos(p);
        lemma_mag_increases(p, 0, c.k as nat);
        assert(mag(p, 0) == 0);
        let d = pow2(f.unit as nat);
        assert(0 * d == 0) by (nonlinear_arith);
        if c.finite(f) {
            lemma_zero_rounds_to_zero(f, mag(p, c.k as nat));
        }
    }
}

/// Division by a larger number does not increase a number that is not negative.
pub proof fn lemma_quotient_antitone(f: Format, a: Num, c: Num, d: Num)
    requires
        f.wf(),
        !a.neg,
        !c.neg,
        !d.neg,
        c.k > 0,
        at_most(f, c, d),
        !quotient(f, a, c).nan(f),
        !quotient(f, a, d).nan(f),
    ensures
        at_most(f, quotient(f, a, d), quotient(f, a, c)),
{
    lemma_quotient_index(f, a, c);
    lemma_quotient_index(f, a, d);
    let p = f.p as nat;
    if a.finite(f) && c.finite(f) && d.finite(f) {
        let ma = mag(p, a.k as nat);
        let mc = mag(p, c.k as nat);
        let md = mag(p, d.k as nat);
        let e = pow2(f.unit as nat);
        lemma_pow2_pos(p);
        lemma_mag_increases(p, 0, c.k as nat);
        lemma_mag_increases(p, c.k as nat, d.k as nat);
        assert((ma * e) * mc <= (ma * e) * md) by (nonlinear_arith)
            requires
                mc <= md,
                ma >= 0,
                e >= 0,
        ;
        lemma_nearest_monotone(
            p,
            f.kinf(),
            quotient_of(f, a.k as nat, d.k as nat),
            quotient_of(f, a.k as nat, c.k as nat),
        );
    }
}

} // verus!
