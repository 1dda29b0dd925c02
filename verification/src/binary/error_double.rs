use vstd::arithmetic::power2::lemma2_to64;
use vstd::arithmetic::power2::lemma2_to64_rest;
use vstd::arithmetic::power2::lemma_pow2_adds;
use vstd::arithmetic::power2::lemma_pow2_pos;
use vstd::arithmetic::power2::lemma_pow2_strictly_increases;
use vstd::arithmetic::power2::pow2;
use vstd::prelude::*;

use crate::binary::arith::product_of;
use crate::binary::arith::quotient_of;
use crate::binary::arith::recast_of;
use crate::binary::double::Binary64;
use crate::binary::double::half_double;
use crate::binary::double::lemma_double_constants;
use crate::binary::error::huge;
use crate::binary::error::lemma_amount;
use crate::binary::error::lemma_huge;
use crate::binary::error::lemma_product_of_reals;
use crate::binary::error::lemma_ratio_error;
use crate::binary::error::lemma_tiny;
use crate::binary::error::magnitude;
use crate::binary::error::nearly;
use crate::binary::error::size;
use crate::binary::error::tiny;
use crate::binary::error::units;
use crate::binary::exact::Exact;
use crate::binary::exact::lemma_mag_increases;
use crate::binary::exact::lemma_mag_next;
use crate::binary::exact::lemma_mag_of_parts;
use crate::binary::exact::lemma_parts_of;
use crate::binary::exact::mag;
use crate::binary::exact::nearest;
use crate::binary::exact::rounds_to;
use crate::binary::exact::sig_of;
use crate::binary::exact::step_of;
use crate::binary::number::Num;
use crate::binary::number::lemma_key_order_is_value_order;
use crate::binary::number::total;
use crate::binary::order::lemma_format_bounds;
use crate::binary::order::lemma_nearest_is_attained;
use crate::binary::round::double;
use crate::binary::round::single;
use crate::binary::single::Binary32;
use crate::binary::single::lemma_single_constants;

verus! {

/// The number of units in one, in double precision.
pub open spec fn double_units() -> real {
    pow2(1074) as real
}

/// The value of the smallest positive number in double precision.
#[verifier::opaque]
pub open spec fn double_tiny() -> real {
    1real / double_units()
}

/// `got` is `exact` up to one part in `2^52` and one unit.
pub open spec fn double_near(got: real, exact: real) -> bool {
    4503599627370496real * (size(got - exact) - double_tiny()) <= size(exact)
}

/// A bound below the largest finite number: `2^200`.
pub open spec fn double_huge() -> real {
    1606938044258990275541962092341162602522202993782792835301376real
}

impl Binary64 {
    /// The value of a finite number.
    #[verifier::opaque]
    pub open spec fn amount(self) -> real {
        (self.value() as real) / double_units()
    }
}

/// The rounding error of a quotient of integers that does not overflow, and that one up to
/// the bound does not.
proof fn lemma_double_ratio_error(num: nat, den: nat, j: nat)
    requires
        den > 0,
        rounds_to(52, double().kinf(), (Exact::Ratio { num, den }), j),
        num <= pow2(1274) * den || j < double().kinf(),
    ensures
        j < double().kinf(),
        0x20_0000_0000_0000 * (num - mag(52, j) * den) <= mag(52, j) * den + 0x10_0000_0000_0000 * den,
        0x20_0000_0000_0000 * (mag(52, j) * den - num) <= mag(52, j) * den + 0x10_0000_0000_0000 * den,
{
    lemma_double_constants();
    lemma_pow2_pos(52);
    let x = Exact::Ratio { num, den };
    let top = double().kinf();
    let d = den as int;
    if j == top {
        lemma_mag_of_parts(52, 1222, pow2(52));
        lemma_pow2_adds(52, 1222);
        lemma_mag_increases(52, 0x4c70_0000_0000_0000, 0x7fef_ffff_ffff_ffff);
        lemma_mag_increases(52, 0x7fef_ffff_ffff_ffff, 0x7ff0_0000_0000_0000);
        let a = mag(52, 0x7fef_ffff_ffff_ffff) as int;
        let b = mag(52, 0x7ff0_0000_0000_0000) as int;
        let c = pow2(1274) as int;
        assert((a + b) * d > 2 * (c * d)) by (nonlinear_arith)
            requires
                a >= c,
                b > a,
                d > 0,
        ;
    } else {
        lemma_mag_next(52, j);
        lemma_parts_of(52, j);
        let u = step_of(52, j);
        let s = pow2(u) as int;
        let m = mag(52, j) as int;
        assert((2 * m + s) * d == 2 * (m * d) + s * d) by (nonlinear_arith);
        assert(2 * num <= 2 * (m * d) + s * d);
        if j > 0 {
            lemma_mag_next(52, (j - 1) as nat);
            lemma_parts_of(52, (j - 1) as nat);
            let w = step_of(52, (j - 1) as nat);
            assert(w <= u) by {
                if w > u {
                    assert(w * pow2(52) >= (u + 1) * pow2(52)) by (nonlinear_arith)
                        requires
                            w >= u + 1,
                    ;
                    assert((u + 1) * pow2(52) == u * pow2(52) + pow2(52)) by (nonlinear_arith);
                }
            }
            if w < u {
                lemma_pow2_strictly_increases(w, u);
            }
            let t = pow2(w) as int;
            assert((2 * m - t) * d >= 2 * (m * d) - s * d) by (nonlinear_arith)
                requires
                    t <= s,
                    d > 0,
            ;
            assert(2 * num >= 2 * (m * d) - s * d);
        } else {
            assert(m == 0);
            assert(m * d == 0) by (nonlinear_arith)
                requires
                    m == 0,
            ;
            assert(s * d >= 0) by (nonlinear_arith)
                requires
                    s > 0,
                    d > 0,
            ;
        }
        assert(0x10_0000_0000_0000 * s <= m + 0x10_0000_0000_0000) by {
            if j >= 0x10_0000_0000_0000 {
                let q = sig_of(52, j) as int;
                assert(s * 0x10_0000_0000_0000 <= m) by (nonlinear_arith)
                    requires
                        m == q * s,
                        q >= 0x10_0000_0000_0000,
                        s > 0,
                ;
            } else {
                assert(pow2(0) == 1) by {
                    lemma2_to64();
                }
            }
        }
        assert(0x10_0000_0000_0000 * (s * d) <= m * d + 0x10_0000_0000_0000 * d) by (nonlinear_arith)
            requires
                0x10_0000_0000_0000 * s <= m + 0x10_0000_0000_0000,
                d > 0,
        ;
    }
}

/// What the smallest positive number amounts to.
pub proof fn lemma_double_tiny()
    ensures
        double_units() > 0real,
        double_tiny() > 0real,
        double_tiny() * double_units() == 1real,
        1267650600228229401496703205376real * double_tiny() <= 1real,
        double_huge() * double_units() == pow2(1274) as real,
{
    reveal(double_tiny);
    lemma_pow2_pos(1074);
    lemma_pow2_adds(50, 50);
    lemma_pow2_adds(100, 100);
    lemma_pow2_adds(200, 1074);
    lemma2_to64();
    lemma2_to64_rest();
    lemma_pow2_strictly_increases(100, 1074);
    let e = double_units();
    assert((1real / e) * e == 1real && 1real / e > 0real) by (nonlinear_arith)
        requires
            e > 0real,
    ;
    let t = double_tiny();
    assert(1267650600228229401496703205376real * t <= t * e) by (nonlinear_arith)
        requires
            t > 0real,
            e >= 1267650600228229401496703205376real,
    ;
    lemma_product_of_reals(pow2(100) as int, pow2(100) as int);
    assert(pow2(200) as real == double_huge());
    lemma_product_of_reals(pow2(200) as int, pow2(1074) as int);
}

/// A finite number is its value in units.
pub proof fn lemma_double_amount(a: Binary64)
    ensures
        a.amount() * double_units() == a.value() as real,
        a.value() > 0 <==> a.amount() > 0real,
        a.value() < 0 <==> a.amount() < 0real,
{
    reveal(Binary64::amount);
    lemma_double_tiny();
    let e = double_units();
    let v = a.value() as real;
    assert((v / e) * e == v && (v > 0real <==> v / e > 0real) && (v < 0real <==> v / e < 0real))
        by (nonlinear_arith)
        requires
            e > 0real,
    ;
}

/// A rounded number against the exact one.
proof fn lemma_rounded_is_near(num: nat, den: nat, j: nat, x: real)
    requires
        den > 0,
        rounds_to(52, double().kinf(), (Exact::Ratio { num, den }), j),
        x * (den as real) * double_units() == num as real,
        0real <= x,
        x <= double_huge() || j < double().kinf(),
    ensures
        j < double().kinf(),
        4503599627370496real * (size((mag(52, j) as real) / double_units() - x) - double_tiny())
            <= x,
{
    lemma_double_tiny();
    let e = double_units();
    let d = den as real;
    let c = double_huge();
    lemma_product_of_reals(pow2(1274) as int, den as int);
    if x <= c {
        assert(num as real <= (pow2(1274) as real) * d) by (nonlinear_arith)
            requires
                x * d * e == num as real,
                0real <= x <= c,
                c * e == pow2(1274) as real,
                d > 0real,
                e > 0real,
        ;
        assert(num <= pow2(1274) * den);
    }
    lemma_double_ratio_error(num, den, j);
    let m = mag(52, j) as int;
    lemma_product_of_reals(m, den as int);
    let err = magnitude(num - m * den);
    assert(0x10_0000_0000_0000 * (err - den) <= num);
    let g = (m as real) / e;
    assert(g * e == m as real) by (nonlinear_arith)
        requires
            g == (m as real) / e,
            e > 0real,
    ;
    let t = double_tiny();
    assert(4503599627370496real * (size(g - x) - t) <= x) by (nonlinear_arith)
        requires
            x * d * e == num as real,
            g * e == m as real,
            t * e == 1real,
            (m * den) as real == (m as real) * d,
            err == magnitude(num - m * den),
            0x10_0000_0000_0000 * (err - den) <= num,
            d == den as real,
            d > 0real,
            e > 0real,
    ;
}

/// A sign put on an approximation and on what it approximates.
proof fn lemma_signed(neg: bool, g: real, x: real, got: real, exact: real)
    requires
        4503599627370496real * (size(g - x) - double_tiny()) <= x,
        x >= 0real,
        got == (if neg {
            -g
        } else {
            g
        }),
        exact == (if neg {
            -x
        } else {
            x
        }),
    ensures
        double_near(got, exact),
{
}

/// A rounded number with its sign.
proof fn lemma_rounded_amount(neg: bool, j: nat, a: Binary64)
    requires
        j < double().kinf(),
        a.num() == (Num { neg, k: j as u64 }),
    ensures
        a.is_finite(),
        a.amount() == (if neg {
            -((mag(52, j) as real) / double_units())
        } else {
            (mag(52, j) as real) / double_units()
        }),
{
    reveal(Binary64::amount);
    lemma_double_constants();
    lemma_double_tiny();
    let e = double_units();
    let m = mag(52, j) as real;
    assert((-m) / e == -(m / e)) by (nonlinear_arith)
        requires
            e > 0real,
    ;
}

/// A sum is exact up to one part in `2^52`.
pub proof fn law_double_sum_is_near(a: Binary64, b: Binary64)
    requires
        a.is_finite(),
        b.is_finite(),
        size(a.amount() + b.amount()) <= double_huge() || a.add(b).is_finite(),
    ensures
        a.add(b).is_finite(),
        double_near(a.add(b).amount(), a.amount() + b.amount()),
{
    reveal(Binary64::spec_add);
    lemma_double_constants();
    lemma_format_bounds(double());
    lemma_double_tiny();
    lemma_double_amount(a);
    lemma_double_amount(b);
    let f = double();
    let v = a.value() + b.value();
    let n = magnitude(v);
    let e = double_units();
    let s = a.amount() + b.amount();
    assert(s * e == v as real) by (nonlinear_arith)
        requires
            s == a.amount() + b.amount(),
            a.amount() * e == a.value() as real,
            b.amount() * e == b.value() as real,
            v == a.value() + b.value(),
    ;
    let x = size(s);
    assert(x * 1real * e == n as real && (v < 0 <==> s < 0real)) by (nonlinear_arith)
        requires
            s * e == v as real,
            n == magnitude(v),
            x == size(s),
            e > 0real,
    ;
    let j = nearest(52, f.kinf(), total(v));
    lemma_nearest_is_attained(52, f.kinf(), total(v));
    let r = a.add(b);
    if v != 0 {
        assert(r.num() == (Num { neg: v < 0, k: j as u64 }));
    } else {
        assert(x == 0real) by (nonlinear_arith)
            requires
                x * 1real * e == 0real,
                e > 0real,
        ;
    }
    lemma_rounded_is_near(n as nat, 1, j, x);
    if v == 0 {
        lemma_pow2_pos(52);
        lemma_double_amount(r);
        assert(mag(52, 0) == 0);
        assert(r.value() == 0);
        assert(s == 0real) by (nonlinear_arith)
            requires
                s * e == 0real,
                e > 0real,
        ;
        assert(r.amount() == 0real);
    } else {
        lemma_rounded_amount(v < 0, j, r);
        lemma_signed(v < 0, (mag(52, j) as real) / e, x, r.amount(), s);
    }
}

/// A difference is exact up to one part in `2^52`.
pub proof fn law_double_difference_is_near(a: Binary64, b: Binary64)
    requires
        a.is_finite(),
        b.is_finite(),
        size(a.amount() - b.amount()) <= double_huge() || a.sub(b).is_finite(),
    ensures
        a.sub(b).is_finite(),
        double_near(a.sub(b).amount(), a.amount() - b.amount()),
{
    reveal(Binary64::spec_sub);
    reveal(Binary64::spec_add);
    lemma_double_constants();
    lemma_double_amount(b);
    lemma_double_amount(b.neg());
    lemma_double_tiny();
    let e = double_units();
    let x = b.amount();
    let y = b.neg().amount();
    assert(y == -x) by (nonlinear_arith)
        requires
            x * e == b.value() as real,
            y * e == b.neg().value() as real,
            b.neg().value() == -b.value(),
            e > 0real,
    ;
    law_double_sum_is_near(a, b.neg());
    assert(a.sub(b) == a.add(b.neg()));
}

/// A product is exact up to one part in `2^52`.
pub proof fn law_double_product_is_near(a: Binary64, b: Binary64)
    requires
        a.is_finite(),
        b.is_finite(),
        size(a.amount() * b.amount()) <= double_huge() || a.mul(b).is_finite(),
    ensures
        a.mul(b).is_finite(),
        double_near(a.mul(b).amount(), a.amount() * b.amount()),
{
    reveal(Binary64::spec_mul);
    lemma_double_constants();
    lemma_format_bounds(double());
    lemma_double_tiny();
    lemma_double_amount(a);
    lemma_double_amount(b);
    let f = double();
    let p = mag(52, a.num().k as nat) as int;
    let q = mag(52, b.num().k as nat) as int;
    let n = p * q;
    let e = double_units();
    let d = pow2(1074) as int;
    let s = a.num().neg;
    let t = b.num().neg;
    lemma_product_of_reals(p, q);
    let w = a.amount() * b.amount();
    let x = if s != t {
        -w
    } else {
        w
    };
    assert(x * e * e == n as real && n >= 0) by (nonlinear_arith)
        requires
            a.amount() * e == a.value() as real,
            b.amount() * e == b.value() as real,
            a.value() == (if s {
                -p
            } else {
                p
            }),
            b.value() == (if t {
                -q
            } else {
                q
            }),
            w == a.amount() * b.amount(),
            x == (if s != t {
                -w
            } else {
                w
            }),
            n as real == (p as real) * (q as real),
            n == p * q,
            p >= 0,
            q >= 0,
    ;
    assert(x >= 0real) by (nonlinear_arith)
        requires
            x * e * e == n as real,
            n >= 0,
            e > 0real,
    ;
    let ex = product_of(f, a.num().k as nat, b.num().k as nat);
    let j = nearest(52, f.kinf(), ex);
    lemma_nearest_is_attained(52, f.kinf(), ex);
    let r = a.mul(b);
    assert(r.num() == (Num { neg: s != t, k: j as u64 }));
    lemma_rounded_is_near(n as nat, d as nat, j, x);
    lemma_rounded_amount(s != t, j, r);
    lemma_signed(s != t, (mag(52, j) as real) / e, x, r.amount(), w);
}

/// A single precision number in double precision.
pub proof fn law_widening_is_near(a: Binary32)
    requires
        a.is_finite(),
        size(a.amount()) <= double_huge(),
    ensures
        a.to_double().is_finite(),
        double_near(a.to_double().amount(), a.amount()),
{
    reveal(Binary32::spec_to_double);
    lemma_single_constants();
    lemma_double_constants();
    lemma_format_bounds(double());
    lemma_double_tiny();
    lemma_tiny();
    lemma_amount(a);
    lemma_pow2_pos(149);
    let f = double();
    let p = mag(23, a.num().k as nat) as int;
    let neg = a.num().neg;
    let e = double_units();
    let u = units();
    let n = p * pow2(1074);
    lemma_product_of_reals(p, pow2(1074) as int);
    let x = if neg {
        -a.amount()
    } else {
        a.amount()
    };
    assert(x * u * e == n as real && x >= 0real && n >= 0) by (nonlinear_arith)
        requires
            a.amount() * u == a.value() as real,
            a.value() == (if neg {
                -p
            } else {
                p
            }),
            x == (if neg {
                -a.amount()
            } else {
                a.amount()
            }),
            n as real == (p as real) * e,
            p >= 0,
            u > 0real,
            e > 0real,
    ;
    let ex = recast_of(single(), f, a.num().k as nat);
    let j = nearest(52, f.kinf(), ex);
    lemma_nearest_is_attained(52, f.kinf(), ex);
    lemma_rounded_is_near(n as nat, pow2(149), j, x);
    let r = a.to_double();
    lemma_rounded_amount(neg, j, r);
    lemma_signed(neg, (mag(52, j) as real) / e, x, r.amount(), a.amount());
}

/// A double precision number in single precision.
pub proof fn law_narrowing_is_near(a: Binary64)
    requires
        a.is_finite(),
        size(a.amount()) <= huge(),
    ensures
        a.to_single().is_finite(),
        nearly(a.to_single().amount(), a.amount()),
{
    reveal(Binary64::spec_to_single);
    lemma_single_constants();
    lemma_double_constants();
    lemma_format_bounds(single());
    lemma_double_tiny();
    lemma_tiny();
    lemma_huge();
    lemma_double_amount(a);
    lemma_pow2_pos(1074);
    let f = single();
    let p = mag(52, a.num().k as nat) as int;
    let neg = a.num().neg;
    let e = double_units();
    let u = units();
    let d = pow2(1074) as int;
    let n = p * pow2(149);
    lemma_product_of_reals(p, pow2(149) as int);
    let x = if neg {
        -a.amount()
    } else {
        a.amount()
    };
    assert(x * e * u == n as real && x >= 0real && n >= 0) by (nonlinear_arith)
        requires
            a.amount() * e == a.value() as real,
            a.value() == (if neg {
                -p
            } else {
                p
            }),
            x == (if neg {
                -a.amount()
            } else {
                a.amount()
            }),
            n as real == (p as real) * u,
            p >= 0,
            u > 0real,
            e > 0real,
    ;
    lemma_product_of_reals(pow2(276) as int, d);
    assert(n as real <= (pow2(276) as real) * e) by (nonlinear_arith)
        requires
            x * e * u == n as real,
            0real <= x <= huge(),
            huge() * u == pow2(276) as real,
            u > 0real,
            e > 0real,
    ;
    let ex = recast_of(double(), f, a.num().k as nat);
    let j = nearest(23, f.kinf(), ex);
    lemma_nearest_is_attained(23, f.kinf(), ex);
    assert(n <= pow2(276) * d);
    lemma_ratio_error(n as nat, d as nat, j);
    let r = a.to_single();
    lemma_amount(r);
    let m = mag(23, j) as int;
    lemma_product_of_reals(m, d);
    let err = magnitude(n - m * d);
    assert(0x80_0000 * (err - d) <= n);
    let g = if neg {
        -r.amount()
    } else {
        r.amount()
    };
    assert(r.num() == (Num { neg, k: j as u64 }));
    assert(g * u == m as real) by (nonlinear_arith)
        requires
            r.amount() * u == r.value() as real,
            r.value() == (if neg {
                -m
            } else {
                m
            }),
            g == (if neg {
                -r.amount()
            } else {
                r.amount()
            }),
    ;
    let t = tiny();
    assert(8388608real * (size(g - x) - t) <= x) by (nonlinear_arith)
        requires
            x * e * u == n as real,
            g * u == m as real,
            t * u == 1real,
            (m * d) as real == (m as real) * e,
            err == magnitude(n - m * d),
            0x80_0000 * (err - d) <= n,
            e == d as real,
            u > 0real,
            e > 0real,
    ;
}

/// What is not above zero amounts to no more than zero.
pub proof fn lemma_not_above_zero(a: Binary64)
    requires
        a.is_finite(),
        !a.gt(Binary64::zero()),
    ensures
        a.amount() <= 0real,
{
    lemma_double_constants();
    lemma_double_amount(a);
    lemma_pow2_pos(52);
    assert(mag(52, 0) == 0);
    lemma_key_order_is_value_order(double(), Binary64::zero().num(), a.num());
}

/// What some constants amount to.
pub proof fn lemma_double_constant_amounts()
    ensures
        Binary64::one().is_finite(),
        Binary64::one().amount() == 1real,
        half_double().is_finite(),
        half_double().amount() == 1real / 2real,
{
    lemma_double_constants();
    lemma_double_tiny();
    lemma2_to64();
    lemma_pow2_pos(52);
    let e = double_units();
    lemma_double_amount(Binary64::one());
    lemma_double_amount(half_double());
    lemma_mag_of_parts(52, 1022, pow2(52));
    lemma_mag_of_parts(52, 1021, pow2(52));
    lemma_pow2_adds(52, 1022);
    lemma_pow2_adds(52, 1021);
    lemma_pow2_adds(1073, 1);
    let one = Binary64::one().amount();
    let part = half_double().amount();
    assert(one == 1real) by (nonlinear_arith)
        requires
            one * e == e,
            e > 0real,
    ;
    assert(part == 1real / 2real) by (nonlinear_arith)
        requires
            2real * (part * e) == e,
            e > 0real,
    ;
}

/// A quotient is exact up to one part in `2^52`.
pub proof fn law_double_quotient_is_near(a: Binary64, b: Binary64)
    requires
        a.is_finite(),
        b.is_finite(),
        b.amount() != 0real,
        a.div(b).is_finite(),
    ensures
        double_near(a.div(b).amount(), a.amount() / b.amount()),
{
    reveal(Binary64::spec_div);
    lemma_double_constants();
    lemma_format_bounds(double());
    lemma_pow2_pos(52);
    lemma_pow2_pos(1074);
    lemma_double_tiny();
    lemma_double_amount(a);
    lemma_double_amount(b);
    let f = double();
    let p = mag(52, a.num().k as nat) as int;
    let q = mag(52, b.num().k as nat) as int;
    assert(mag(52, 0) == 0);
    let e = double_units();
    let d = pow2(1074) as int;
    let s = a.num().neg;
    let t = b.num().neg;
    let z = b.amount();
    let w = a.amount() / z;
    assert(w * z == a.amount()) by (nonlinear_arith)
        requires
            w == a.amount() / z,
            z != 0real,
    ;
    assert(w * (b.value() as real) == a.value() as real) by (nonlinear_arith)
        requires
            w * z == a.amount(),
            z * e == b.value() as real,
            a.amount() * e == a.value() as real,
    ;
    let x = if s != t {
        -w
    } else {
        w
    };
    assert(x * (q as real) == p as real && x >= 0real && q > 0) by (nonlinear_arith)
        requires
            w * (b.value() as real) == a.value() as real,
            a.value() == (if s {
                -p
            } else {
                p
            }),
            b.value() == (if t {
                -q
            } else {
                q
            }),
            x == (if s != t {
                -w
            } else {
                w
            }),
            p >= 0,
            q >= 0,
            b.value() != 0,
    ;
    let n = p * d;
    lemma_product_of_reals(p, d);
    assert(x * (q as real) * e == n as real) by (nonlinear_arith)
        requires
            x * (q as real) == p as real,
            n as real == (p as real) * (d as real),
            e == d as real,
    ;
    assert(n >= 0) by (nonlinear_arith)
        requires
            n == p * d,
            p >= 0,
            d >= 0,
    ;
    let ex = quotient_of(f, a.num().k as nat, b.num().k as nat);
    let j = nearest(52, f.kinf(), ex);
    lemma_nearest_is_attained(52, f.kinf(), ex);
    let r = a.div(b);
    assert(r.num() == (Num { neg: s != t, k: j as u64 }));
    lemma_rounded_is_near(n as nat, q as nat, j, x);
    lemma_rounded_amount(s != t, j, r);
    lemma_signed(s != t, (mag(52, j) as real) / e, x, r.amount(), w);
}

/// The parts of a finite sum, difference or product in double precision are finite.
pub proof fn lemma_double_finite_parts(a: Binary64, b: Binary64)
    ensures
        a.add(b).is_finite() ==> a.is_finite() && b.is_finite(),
        a.sub(b).is_finite() ==> a.is_finite() && b.is_finite(),
        a.mul(b).is_finite() ==> a.is_finite() && b.is_finite(),
        a.neg().is_finite() <==> a.is_finite(),
{
    reveal(Binary64::spec_add);
    reveal(Binary64::spec_sub);
    reveal(Binary64::spec_mul);
    lemma_double_constants();
    lemma_format_bounds(double());
}

} // verus!
