use vstd::arithmetic::power2::lemma2_to64;
use vstd::arithmetic::power2::lemma2_to64_rest;
use vstd::arithmetic::power2::lemma_pow2_adds;
use vstd::arithmetic::power2::lemma_pow2_pos;
use vstd::arithmetic::power2::lemma_pow2_strictly_increases;
use vstd::arithmetic::power2::pow2;
use vstd::prelude::*;

use crate::binary::arith::product_of;
use crate::binary::arith::quotient_of;
use crate::binary::close::lemma_sum_error;
use crate::binary::exact::Exact;
use crate::binary::exact::lemma_mag_increases;
use crate::binary::exact::lemma_mag_next;
use crate::binary::exact::lemma_mag_of_parts;
use crate::binary::exact::lemma_parts_of;
use crate::binary::exact::mag;
use crate::binary::exact::nearest;
use crate::binary::exact::rounds_to;
use crate::binary::exact::sig_of;
use crate::binary::exact::step_of;
use crate::binary::laws::law_order_is_value_order;
use crate::binary::laws::lemma_product_packs;
use crate::binary::laws::lemma_quotient_packs;
use crate::binary::laws::lemma_sum_packs;
use crate::binary::number::total;
use crate::binary::order::lemma_format_bounds;
use crate::binary::order::lemma_nearest_is_attained;
use crate::binary::round::single;
use crate::binary::single::Binary32;
use crate::binary::single::half;
use crate::binary::single::lemma_single_constants;
use crate::binary::single::two;

verus! {

/// The number of units, which are the smallest positive numbers, in one.
pub open spec fn units() -> real {
    pow2(149) as real
}

/// The value of the smallest positive number.
#[verifier::opaque]
pub open spec fn tiny() -> real {
    1real / units()
}

/// The absolute value.
pub open spec fn size(x: real) -> real {
    if x < 0real {
        -x
    } else {
        x
    }
}

/// A difference in roundings: parts in `2^23`.
pub open spec fn off(got: real, exact: real) -> real {
    8388608real * size(got - exact)
}

/// `got` is `exact` up to one part in `2^23`.
pub open spec fn near(got: real, exact: real) -> bool {
    8388608real * size(got - exact) <= size(exact)
}

/// `got` is `exact` up to one part in `2^23` and one unit.
pub open spec fn nearly(got: real, exact: real) -> bool {
    8388608real * (size(got - exact) - tiny()) <= size(exact)
}

/// A bound below the largest finite number: `2^127`.
pub open spec fn huge() -> real {
    170141183460469231731687303715884105728real
}

impl Binary32 {
    /// The value of a finite number.
    #[verifier::opaque]
    pub open spec fn amount(self) -> real {
        (self.value() as real) / units()
    }
}

/// The rounding error of a quotient of integers that does not overflow, and that one up to
/// the bound does not.
pub proof fn lemma_ratio_error(num: nat, den: nat, j: nat)
    requires
        den > 0,
        rounds_to(23, single().kinf(), (Exact::Ratio { num, den }), j),
        num <= pow2(276) * den || j < single().kinf(),
    ensures
        j < single().kinf(),
        0x100_0000 * (num - mag(23, j) * den) <= mag(23, j) * den + 0x80_0000 * den,
        0x100_0000 * (mag(23, j) * den - num) <= mag(23, j) * den + 0x80_0000 * den,
{
    lemma_single_constants();
    lemma_pow2_pos(23);
    let x = Exact::Ratio { num, den };
    let top = single().kinf();
    let d = den as int;
    if j == top {
        lemma_mag_of_parts(23, 254, pow2(23));
        lemma_mag_of_parts(23, 253, pow2(23));
        lemma_pow2_adds(23, 254);
        lemma_pow2_adds(23, 253);
        lemma_pow2_strictly_increases(276, 277);
        lemma_mag_increases(23, 0x7f00_0000, 0x7f7f_ffff);
        let a = mag(23, 0x7f7f_ffff) as int;
        let b = mag(23, 0x7f80_0000) as int;
        let c = pow2(276) as int;
        assert((a + b) * d > 2 * (c * d)) by (nonlinear_arith)
            requires
                a >= c,
                b > c,
                d > 0,
        ;
    } else {
        lemma_mag_next(23, j);
        lemma_parts_of(23, j);
        let u = step_of(23, j);
        let s = pow2(u) as int;
        let m = mag(23, j) as int;
        assert((2 * m + s) * d == 2 * (m * d) + s * d) by (nonlinear_arith);
        assert(2 * num <= 2 * (m * d) + s * d);
        if j > 0 {
            lemma_mag_next(23, (j - 1) as nat);
            lemma_parts_of(23, (j - 1) as nat);
            let w = step_of(23, (j - 1) as nat);
            assert(w <= u) by {
                if w > u {
                    assert(w * pow2(23) >= (u + 1) * pow2(23)) by (nonlinear_arith)
                        requires
                            w >= u + 1,
                    ;
                    assert((u + 1) * pow2(23) == u * pow2(23) + pow2(23)) by (nonlinear_arith);
                }
            }
            if w < u {
                lemma_pow2_strictly_increases(w, u);
            }
            let t = pow2(w) as int;
            assert((2 * m - t) * d >= 2 * (m * d) - s * d) by (nonlinear_arith)
                requires
                    t <= s,
                    d > 0,
            ;
            assert(2 * num >= 2 * (m * d) - s * d);
        } else {
            assert(m == 0);
            assert(m * d == 0) by (nonlinear_arith)
                requires
                    m == 0,
            ;
            assert(s * d >= 0) by (nonlinear_arith)
                requires
                    s > 0,
                    d > 0,
            ;
        }
        assert(0x80_0000 * s <= m + 0x80_0000) by {
            if j >= 0x80_0000 {
                let q = sig_of(23, j) as int;
                assert(s * 0x80_0000 <= m) by (nonlinear_arith)
                    requires
                        m == q * s,
                        q >= 0x80_0000,
                        s > 0,
                ;
            } else {
                assert(pow2(0) == 1) by {
                    lemma2_to64();
                }
            }
        }
        assert(0x80_0000 * (s * d) <= m * d + 0x80_0000 * d) by (nonlinear_arith)
            requires
                0x80_0000 * s <= m + 0x80_0000,
                d > 0,
        ;
    }
}

/// The product of two integers, as a real number.
pub proof fn lemma_product_of_reals(x: int, y: int)
    ensures
        (x * y) as real == (x as real) * (y as real),
{
    assert((x * y) as real == (x as real) * (y as real)) by (nonlinear_arith);
}

/// What the smallest positive number amounts to.
pub proof fn lemma_tiny()
    ensures
        units() > 0real,
        tiny() > 0real,
        tiny() * units() == 1real,
        units() >= 1267650600228229401496703205376real,
        1267650600228229401496703205376real * tiny() <= 1real,
        178405961588244985132285746181186892047843328real * tiny() <= 1real,
{
    reveal(tiny);
    lemma_pow2_pos(149);
    lemma_pow2_adds(50, 50);
    lemma2_to64();
    lemma2_to64_rest();
    lemma_pow2_strictly_increases(100, 149);
    let e = units();
    assert((1real / e) * e == 1real && 1real / e > 0real) by (nonlinear_arith)
        requires
            e > 0real,
    ;
    lemma_pow2_adds(100, 47);
    lemma_pow2_strictly_increases(147, 149);
    let t = tiny();
    assert(178405961588244985132285746181186892047843328real * t <= t * e) by (nonlinear_arith)
        requires
            t > 0real,
            e >= 178405961588244985132285746181186892047843328real,
    ;
    assert(1267650600228229401496703205376real * t <= t * e) by (nonlinear_arith)
        requires
            t > 0real,
            e >= 1267650600228229401496703205376real,
    ;
}

/// What one unit is off in roundings stays small.
pub proof fn lemma_unit_is_small()
    ensures
        0real < tiny(),
        0real < 8388608real * tiny(),
        151115727451828646838272real * (8388608real * tiny()) <= 1real,
{
    lemma_tiny();
}

/// A finite number is its value in units.
pub proof fn lemma_amount(a: Binary32)
    ensures
        a.amount() * units() == a.value() as real,
        a.value() > 0 ==> a.amount() > 0real,
        a.value() < 0 ==> a.amount() < 0real,
        a.value() == 0 ==> a.amount() == 0real,
{
    reveal(Binary32::amount);
    lemma_tiny();
    let e = units();
    let v = a.value() as real;
    assert((v / e) * e == v && (v > 0real ==> v / e > 0real) && (v < 0real ==> v / e < 0real) && (v
        == 0real ==> v / e == 0real)) by (nonlinear_arith)
        requires
            e > 0real,
    ;
}

/// A sum is exact up to one part in `2^23`.
pub proof fn law_sum_is_near(a: Binary32, b: Binary32)
    requires
        a.is_finite(),
        b.is_finite(),
        size(a.amount() + b.amount()) <= huge() || a.add(b).is_finite(),
    ensures
        a.add(b).is_finite(),
        near(a.add(b).amount(), a.amount() + b.amount()),
{
    reveal(Binary32::spec_add);
    lemma_single_constants();
    lemma_format_bounds(single());
    lemma_tiny();
    lemma_amount(a);
    lemma_amount(b);
    let f = single();
    let v = a.value() + b.value();
    let n = if v < 0 {
        -v
    } else {
        v
    };
    let e = units();
    let x = a.amount() + b.amount();
    assert(x * e == v as real) by (nonlinear_arith)
        requires
            x == a.amount() + b.amount(),
            a.amount() * e == a.value() as real,
            b.amount() * e == b.value() as real,
            v == a.value() + b.value(),
    ;
    lemma_sum_packs(a, b.num());
    let j = nearest(23, f.kinf(), total(v));
    lemma_nearest_is_attained(23, f.kinf(), total(v));
    lemma_huge();
    if size(x) <= huge() {
        assert(n as real <= huge() * e) by (nonlinear_arith)
            requires
                x * e == v as real,
                n == v || n == -v,
                x <= huge(),
                -x <= huge(),
                e > 0real,
        ;
    }
    if v != 0 {
        assert(n <= pow2(276) * 1 || j < f.kinf());
        lemma_ratio_error(n as nat, 1, j);
        lemma_sum_error(n, j);
    }
    let g = a.add(b);
    lemma_amount(g);
    let w = g.value();
    assert(8388608real * (w as real - v as real) <= n as real);
    assert(8388608real * (v as real - w as real) <= n as real);
    let y = g.amount();
    assert(8388608real * size(y - x) <= size(x)) by (nonlinear_arith)
        requires
            x * e == v as real,
            y * e == w as real,
            n == (if v < 0 {
                -v
            } else {
                v
            }),
            8388608real * (w as real - v as real) <= n as real,
            8388608real * (v as real - w as real) <= n as real,
            e > 0real,
    ;
}

/// The bound in units.
pub proof fn lemma_huge()
    ensures
        huge() * units() == pow2(276) as real,
{
    lemma_pow2_adds(127, 149);
    lemma_pow2_adds(64, 63);
    lemma2_to64();
    lemma2_to64_rest();
    assert(pow2(127) as real == huge());
    lemma_product_of_reals(pow2(127) as int, pow2(149) as int);
}

/// The size of an integer.
pub open spec fn magnitude(v: int) -> int {
    if v < 0 {
        -v
    } else {
        v
    }
}

/// A product is exact up to one part in `2^23` and one unit.
pub proof fn law_product_is_near(a: Binary32, b: Binary32)
    requires
        a.is_finite(),
        b.is_finite(),
        size(a.amount() * b.amount()) <= huge() || a.mul(b).is_finite(),
    ensures
        a.mul(b).is_finite(),
        nearly(a.mul(b).amount(), a.amount() * b.amount()),
{
    reveal(Binary32::spec_mul);
    lemma_single_constants();
    lemma_format_bounds(single());
    lemma_tiny();
    lemma_amount(a);
    lemma_amount(b);
    lemma_huge();
    let f = single();
    let p = mag(23, a.num().k as nat) as int;
    let q = mag(23, b.num().k as nat) as int;
    let v = a.value() * b.value();
    let n = p * q;
    let s = a.num().neg;
    let t = b.num().neg;
    assert(n >= 0 && (s == t ==> v == n) && (s != t ==> v == -n)) by (nonlinear_arith)
        requires
            a.value() == (if s {
                -p
            } else {
                p
            }),
            b.value() == (if t {
                -q
            } else {
                q
            }),
            v == a.value() * b.value(),
            n == p * q,
            p >= 0,
            q >= 0,
    ;
    let e = units();
    let d = pow2(149) as int;
    let x = a.amount() * b.amount();
    lemma_product_of_reals(a.value(), b.value());
    assert(x * e * e == v as real) by (nonlinear_arith)
        requires
            x == a.amount() * b.amount(),
            a.amount() * e == a.value() as real,
            b.amount() * e == b.value() as real,
            v as real == (a.value() as real) * (b.value() as real),
    ;
    if size(x) <= huge() {
        assert(n as real <= huge() * e * e) by (nonlinear_arith)
            requires
                x * e * e == v as real,
                n == v || n == -v,
                x <= huge(),
                -x <= huge(),
                e > 0real,
        ;
    }
    lemma_product_of_reals(pow2(276) as int, d);
    let ex = product_of(f, a.num().k as nat, b.num().k as nat);
    let j = nearest(23, f.kinf(), ex);
    lemma_nearest_is_attained(23, f.kinf(), ex);
    lemma_product_packs(a, b);
    assert(n <= pow2(276) * d || j < f.kinf());
    lemma_ratio_error(n as nat, d as nat, j);
    let g = a.mul(b);
    lemma_amount(g);
    let m = mag(23, j) as int;
    let w = g.value();
    assert(magnitude(w * d - v) == magnitude(m * d - n)) by (nonlinear_arith)
        requires
            (w == m && v == n) || (w == -m && v == -n),
    ;
    let err = magnitude(w * d - v);
    assert(0x80_0000 * (err - d) <= n);
    lemma_product_of_reals(w, d);
    let y = g.amount();
    let t = tiny();
    assert(8388608real * (size(y - x) - t) <= size(x)) by (nonlinear_arith)
        requires
            x * e * e == v as real,
            y * e == w as real,
            t * e == 1real,
            (w * d) as real == (w as real) * (d as real),
            e == d as real,
            err == magnitude(w * d - v),
            n == magnitude(v),
            0x80_0000 * (err - d) <= n,
            e > 0real,
    ;
}

/// A quotient is exact up to one part in `2^23` and one unit.
pub proof fn law_quotient_is_near(a: Binary32, b: Binary32)
    requires
        a.is_finite(),
        b.is_finite(),
        b.amount() != 0real,
        size(a.amount() / b.amount()) <= huge() || a.div(b).is_finite(),
    ensures
        a.div(b).is_finite(),
        nearly(a.div(b).amount(), a.amount() / b.amount()),
{
    reveal(Binary32::spec_div);
    lemma_single_constants();
    lemma_format_bounds(single());
    lemma_pow2_pos(23);
    lemma_tiny();
    lemma_amount(a);
    lemma_amount(b);
    lemma_huge();
    let f = single();
    let p = mag(23, a.num().k as nat) as int;
    let q = mag(23, b.num().k as nat) as int;
    assert(mag(23, 0) == 0);
    let e = units();
    let d = pow2(149) as int;
    let x = a.amount() / b.amount();
    let z = b.amount();
    assert(x * z == a.amount()) by (nonlinear_arith)
        requires
            x == a.amount() / z,
            z != 0real,
    ;
    assert(x * (b.value() as real) == a.value() as real) by (nonlinear_arith)
        requires
            x * z == a.amount(),
            z * e == b.value() as real,
            a.amount() * e == a.value() as real,
    ;
    let s = a.num().neg;
    let t = b.num().neg;
    let y = if s == t {
        x
    } else {
        -x
    };
    assert(y * (q as real) == p as real && y >= 0real && q > 0) by (nonlinear_arith)
        requires
            x * (b.value() as real) == a.value() as real,
            a.value() == (if s {
                -p
            } else {
                p
            }),
            b.value() == (if t {
                -q
            } else {
                q
            }),
            y == (if s == t {
                x
            } else {
                -x
            }),
            p >= 0,
            q >= 0,
            b.value() != 0,
    ;
    let n = p * d;
    lemma_product_of_reals(p, d);
    lemma_product_of_reals(pow2(276) as int, q);
    if size(x) <= huge() {
        assert(n as real <= (pow2(276) as real) * (q as real)) by (nonlinear_arith)
            requires
                n as real == (p as real) * (d as real),
                y * (q as real) == p as real,
                0real <= y <= huge(),
                huge() * e == pow2(276) as real,
                e == d as real,
                e > 0real,
                q > 0,
        ;
    }
    let ex = quotient_of(f, a.num().k as nat, b.num().k as nat);
    let j = nearest(23, f.kinf(), ex);
    lemma_nearest_is_attained(23, f.kinf(), ex);
    lemma_quotient_packs(a, b);
    assert(n <= pow2(276) * q || j < f.kinf());
    lemma_ratio_error(n as nat, q as nat, j);
    let g = a.div(b);
    lemma_amount(g);
    let m = mag(23, j) as int;
    let err = magnitude(m * q - n);
    assert(0x80_0000 * (err - q) <= n);
    lemma_product_of_reals(m, q);
    let w = if s == t {
        g.amount()
    } else {
        -g.amount()
    };
    assert(w * e == m as real) by (nonlinear_arith)
        requires
            g.amount() * e == g.value() as real,
            g.value() == (if s == t {
                m
            } else {
                -m
            }),
            w == (if s == t {
                g.amount()
            } else {
                -g.amount()
            }),
    ;
    let u = tiny();
    let qr = q as real;
    assert(8388608real * (size(w - y) - u) <= y) by (nonlinear_arith)
        requires
            y * qr == p as real,
            n as real == (p as real) * e,
            w * e == m as real,
            u * e == 1real,
            (m * q) as real == (m as real) * qr,
            err == magnitude(m * q - n),
            0x80_0000 * (err - q) <= n,
            qr == q as real,
            qr > 0real,
            e > 0real,
    ;
}

/// A difference is exact up to one part in `2^23`.
pub proof fn law_difference_is_near(a: Binary32, b: Binary32)
    requires
        a.is_finite(),
        b.is_finite(),
        size(a.amount() - b.amount()) <= huge() || a.sub(b).is_finite(),
    ensures
        a.sub(b).is_finite(),
        near(a.sub(b).amount(), a.amount() - b.amount()),
{
    reveal(Binary32::spec_sub);
    reveal(Binary32::spec_add);
    lemma_single_constants();
    lemma_amount(b);
    lemma_amount(b.neg());
    lemma_tiny();
    let e = units();
    let x = b.amount();
    let y = b.neg().amount();
    assert(y == -x) by (nonlinear_arith)
        requires
            x * e == b.value() as real,
            y * e == b.neg().value() as real,
            b.neg().value() == -b.value(),
            e > 0real,
    ;
    law_sum_is_near(a, b.neg());
    assert(a.sub(b) == a.add(b.neg()));
}

/// The order of finite numbers is the order of what they amount to.
pub proof fn law_order_of_amounts(a: Binary32, b: Binary32)
    requires
        a.is_finite(),
        b.is_finite(),
    ensures
        a.lt(b) <==> a.amount() < b.amount(),
        a.le(b) <==> a.amount() <= b.amount(),
        a.eq(b) <==> a.amount() == b.amount(),
{
    law_order_is_value_order(a, b);
    lemma_amount(a);
    lemma_amount(b);
    lemma_tiny();
    let e = units();
    let x = a.amount();
    let y = b.amount();
    assert((x < y <==> a.value() < b.value()) && (x <= y <==> a.value() <= b.value()))
        by (nonlinear_arith)
        requires
            x * e == a.value() as real,
            y * e == b.value() as real,
            e > 0real,
    ;
}

/// The order of numbers is the order of what they amount to, with the infinities taken as
/// the numbers past the finite ones.
pub proof fn law_order_of_all_amounts(a: Binary32, b: Binary32)
    ensures
        a.le(b) ==> a.amount() <= b.amount(),
        !a.is_nan() && !b.is_nan() && a.amount() <= b.amount() ==> a.le(b),
{
    lemma_single_constants();
    lemma_pow2_pos(23);
    let x = a.num();
    let y = b.num();
    if x.k <= y.k {
        lemma_mag_increases(23, x.k as nat, y.k as nat);
    } else {
        lemma_mag_increases(23, y.k as nat, x.k as nat);
    }
    lemma_mag_increases(23, 0, x.k as nat);
    lemma_mag_increases(23, 0, y.k as nat);
    assert(mag(23, 0) == 0);
    assert(a.le(b) ==> a.value() <= b.value());
    assert(!a.is_nan() && !b.is_nan() && a.value() <= b.value() ==> a.le(b));
    lemma_amount(a);
    lemma_amount(b);
    lemma_tiny();
    let e = units();
    assert(a.amount() <= b.amount() <==> a.value() <= b.value()) by (nonlinear_arith)
        requires
            a.amount() * e == a.value() as real,
            b.amount() * e == b.value() as real,
            e > 0real,
    ;
}

/// What some constants amount to.
pub proof fn lemma_constant_amounts()
    ensures
        Binary32::zero().amount() == 0real,
        Binary32::one().amount() == 1real,
        two().amount() == 2real,
        half().amount() == 1real / 2real,
        Binary32::from_bits(0x3400_0000).amount() == 1real / 8388608real,
{
    lemma_single_constants();
    lemma_tiny();
    lemma2_to64();
    lemma_pow2_pos(23);
    let e = units();
    lemma_amount(Binary32::zero());
    assert(mag(23, 0) == 0);
    lemma_amount(Binary32::one());
    lemma_amount(two());
    lemma_amount(half());
    lemma_amount(Binary32::from_bits(0x3400_0000));
    lemma_mag_of_parts(23, 126, pow2(23));
    lemma_mag_of_parts(23, 127, pow2(23));
    lemma_mag_of_parts(23, 125, pow2(23));
    lemma_mag_of_parts(23, 103, pow2(23));
    lemma_pow2_adds(23, 126);
    lemma_pow2_adds(23, 127);
    lemma_pow2_adds(23, 125);
    lemma_pow2_adds(23, 103);
    lemma_pow2_adds(149, 1);
    lemma_pow2_adds(148, 1);
    lemma_pow2_adds(126, 23);
    let one = Binary32::one().amount();
    let twice = two().amount();
    let part = half().amount();
    let eps = Binary32::from_bits(0x3400_0000).amount();
    assert(one == 1real) by (nonlinear_arith)
        requires
            one * e == e,
            e > 0real,
    ;
    assert(twice == 2real) by (nonlinear_arith)
        requires
            twice * e == 2real * e,
            e > 0real,
    ;
    assert(part == 1real / 2real) by (nonlinear_arith)
        requires
            2real * (part * e) == e,
            e > 0real,
    ;
    assert(eps == 1real / 8388608real) by (nonlinear_arith)
        requires
            8388608real * (eps * e) == e,
            e > 0real,
    ;
}

/// Twice a number below a quarter of the largest ones is finite.
pub proof fn lemma_twice_is_finite(x: Binary32)
    requires
        x.bits < 0x7e80_0000,
    ensures
        two().mul(x).is_finite(),
{
    reveal(Binary32::spec_mul);
    lemma_single_constants();
    lemma_format_bounds(single());
    lemma_pow2_pos(23);
    lemma_pow2_pos(149);
    let f = single();
    let k = x.num().k as nat;
    lemma_mag_increases(23, k, 0x7e80_0000);
    lemma_mag_of_parts(23, 252, pow2(23));
    lemma_mag_of_parts(23, 127, pow2(23));
    lemma_pow2_adds(23, 252);
    lemma_pow2_adds(23, 127);
    lemma_pow2_adds(275, 1);
    lemma_pow2_adds(149, 1);
    lemma2_to64();
    let ex = product_of(f, 0x4000_0000, k);
    let j = nearest(23, f.kinf(), ex);
    lemma_nearest_is_attained(23, f.kinf(), ex);
    let m = mag(23, k) as int;
    let d = pow2(149) as int;
    let c = pow2(275) as int;
    assert((2 * d) * m <= (2 * c) * d) by (nonlinear_arith)
        requires
            0 <= m <= c,
            d > 0,
    ;
    lemma_ratio_error(((2 * d) * m) as nat, d as nat, j);
    lemma_product_packs(two(), x);
}

} // verus!
