use vstd::arithmetic::power2::lemma2_to64;
use vstd::arithmetic::power2::lemma2_to64_rest;
use vstd::arithmetic::power2::lemma_pow2_adds;
use vstd::arithmetic::power2::lemma_pow2_pos;
use vstd::arithmetic::power2::pow2;
use vstd::prelude::*;

use crate::binary::double::Binary64;
use crate::binary::double::half_double;
use crate::binary::double::lemma_double_constants;
use crate::binary::double::two_double;
use crate::binary::error::huge;
use crate::binary::error::law_difference_is_near;
use crate::binary::error::law_order_of_amounts;
use crate::binary::error::law_product_is_near;
use crate::binary::error::law_quotient_is_near;
use crate::binary::error::law_sum_is_near;
use crate::binary::error::lemma_amount;
use crate::binary::error::lemma_constant_amounts;
use crate::binary::error::lemma_product_of_reals;
use crate::binary::error::lemma_tiny;
use crate::binary::error::off;
use crate::binary::error::size;
use crate::binary::error::tiny;
use crate::binary::error::units;
use crate::binary::error_double::double_units;
use crate::binary::error_double::law_double_difference_is_near;
use crate::binary::error_double::law_double_product_is_near;
use crate::binary::error_double::law_double_sum_is_near;
use crate::binary::error_double::law_narrowing_is_near;
use crate::binary::error_double::law_widening_is_near;
use crate::binary::error_double::lemma_double_amount;
use crate::binary::error_double::lemma_double_constant_amounts;
use crate::binary::error_double::lemma_double_tiny;
use crate::binary::error_double::lemma_not_above_zero;
use crate::binary::exact::lemma_mag_of_parts;
use crate::binary::laws::law_addition_commutes;
use crate::binary::laws::law_difference_is_not_negative;
use crate::binary::laws::law_finite_product_is_a_number;
use crate::binary::laws::law_multiplication_commutes;
use crate::binary::laws::law_multiplication_is_monotone;
use crate::binary::laws::law_reversed_difference;
use crate::binary::laws::law_square_is_not_negative;
use crate::binary::laws::law_zero_absorbs;
use crate::binary::laws::law_zero_adds_nothing;
use crate::binary::laws::law_zeros_add_up;
use crate::binary::relative::is_ordinary;
use crate::binary::relative::lemma_dust;
use crate::binary::relative::lemma_within_product;
use crate::binary::relative::lemma_within_quotient;
use crate::binary::relative::within;
use crate::binary::single::Binary32;
use crate::binary::single::half;
use crate::binary::single::lemma_single_constants;
use crate::linalg::Mat2;
use crate::linalg::Vec2;
use crate::mechanics::recompose;
use crate::nacc::NaccMaterial;
use crate::nacc::P0_OFFSET;
use crate::nacc::P0_OFFSET_DOUBLE;
use crate::nacc::Region;
use crate::nacc::Trial;
use crate::nacc::law_cap_return_lands_on_the_cap;
use crate::nacc::law_elastic_states_are_fixed;
use crate::numerics::Numerics;
use crate::numerics::Unary;

verus! {

/// A difference in roundings of double precision: parts in `2^52`.
pub open spec fn fine(got: real, exact: real) -> real {
    4503599627370496real * size(got - exact)
}

/// The smallest preconsolidation is the same in both precisions, up to rounding.
proof fn lemma_offsets()
    ensures
        Binary32::from_bits(P0_OFFSET).is_finite(),
        Binary64::from_bits(P0_OFFSET_DOUBLE).is_finite(),
        0real < Binary32::from_bits(P0_OFFSET).amount() <= 1real,
        0real < Binary64::from_bits(P0_OFFSET_DOUBLE).amount() <= 1real,
        1099511627776real * (Binary64::from_bits(P0_OFFSET_DOUBLE).amount() - Binary32::from_bits(
            P0_OFFSET,
        ).amount()) <= 1real,
{
    lemma_single_constants();
    lemma_double_constants();
    lemma2_to64();
    lemma2_to64_rest();
    lemma_tiny();
    lemma_double_tiny();
    let a = Binary32::from_bits(P0_OFFSET);
    let b = Binary64::from_bits(P0_OFFSET_DOUBLE);
    lemma_amount(a);
    lemma_double_amount(b);
    lemma_mag_of_parts(23, 109, 0xa7_c5ac);
    lemma_mag_of_parts(52, 1005, 0x14_f8b5_88e3_68f1);
    lemma_pow2_adds(109, 40);
    lemma_pow2_adds(1005, 69);
    lemma_pow2_adds(64, 5);
    lemma_pow2_pos(109);
    lemma_pow2_pos(1005);
    lemma_product_of_reals(pow2(109) as int, pow2(40) as int);
    lemma_product_of_reals(pow2(1005) as int, pow2(69) as int);
    lemma_product_of_reals(0xa7_c5ac, pow2(109) as int);
    lemma_product_of_reals(0x14_f8b5_88e3_68f1, pow2(1005) as int);
    let p = pow2(109) as real;
    let q = pow2(1005) as real;
    assert(pow2(69) == 590295810358705651712);
    assert(a.amount() * 1099511627776real == 10995116real) by (nonlinear_arith)
        requires
            a.amount() * units() == 10995116real * p,
            units() == p * 1099511627776real,
            p > 0real,
    ;
    assert(b.amount() * 590295810358705651712real == 5902958103587057real) by (nonlinear_arith)
        requires
            b.amount() * double_units() == 5902958103587057real * q,
            double_units() == q * 590295810358705651712real,
            q > 0real,
    ;
}

/// The elastic pressure is rounded little.
proof fn lemma_pressure_is_near(m: NaccMaterial, j: Binary32)
    requires
        is_ordinary(m.kappa),
        is_ordinary(j),
    ensures
        m.pressure_at(j).is_finite(),
        off(
            m.pressure_at(j).amount(),
            m.kappa.amount() / 2real * (1real - j.amount() * j.amount()),
        ) <= 16real * (m.kappa.amount() * (1real + j.amount() * j.amount())) + 1real,
{
    lemma_single_constants();
    lemma_constant_amounts();
    lemma_dust();
    let k = m.kappa.amount();
    let x = j.amount();
    // half the modulus
    law_product_is_near(m.kappa, half());
    let a = m.kappa.mul(half());
    lemma_within_product(k, k, 0real, 1real / 2real, 1real / 2real, 0real, a.amount());
    let h = k / 2real;
    assert(k * (1real / 2real) == h);
    assert(8388608real * size(a.amount() - h) <= 2real * h);
    // the inverse
    let i = 1real / x;
    assert(i * x == 1real && 0real < i <= 1073741824real && 1073741824real * i >= 1real)
        by (nonlinear_arith)
        requires
            i == 1real / x,
            1real <= 1073741824real * x,
            x <= 1073741824real,
    ;
    law_quotient_is_near(Binary32::one(), j);
    let q = Binary32::one().div(j);
    lemma_within_quotient(1real, 1real, 0real, x, x, 0real, q.amount());
    law_difference_is_near(j, q);
    let d = j.sub(q);
    let dx = x - i;
    assert(off(d.amount(), dx) <= 4real * (x + i));
    // the products
    lemma_pressure_products(a, h, d, dx, x, i, j);
    let e = a.mul(d);
    assert(m.pressure_at(j) == e.neg().mul(j));
    let exact = h * (1real - x * x);
    assert(h * dx * x == -exact) by (nonlinear_arith)
        requires
            dx == x - i,
            i * x == 1real,
            exact == h * (1real - x * x),
    ;
}

/// Two products of it.
proof fn lemma_pressure_products(
    a: Binary32,
    h: real,
    d: Binary32,
    dx: real,
    x: real,
    i: real,
    j: Binary32,
)
    requires
        a.is_finite(),
        d.is_finite(),
        j.is_finite(),
        j.amount() == x,
        8388608real * size(a.amount() - h) <= 2real * h,
        off(d.amount(), dx) <= 4real * (x + i),
        dx == x - i,
        i * x == 1real,
        0real < i <= 1073741824real,
        0real < x <= 1073741824real,
        0real < h <= 536870912real,
    ensures
        a.mul(d).is_finite(),
        a.mul(d).neg().mul(j).is_finite(),
        off(a.mul(d).neg().mul(j).amount(), -(h * dx * x)) <= 16real * (2real * h * (1real + x * x))
            + 1real,
{
    lemma_single_constants();
    lemma_dust();
    let f = 8388608real;
    let s = x + i;
    let b = h * s;
    assert(size(a.amount() * d.amount()) <= 2real * b && f * size(a.amount() * d.amount() - h * dx)
        <= 7real * b && b > 0real && b <= 1152921504606846976real) by (nonlinear_arith)
        requires
            f * size(a.amount() - h) <= 2real * h,
            f * size(d.amount() - dx) <= 4real * s,
            size(dx) <= s,
            s > 0real,
            s <= 2147483648real,
            0real < h <= 536870912real,
            b == h * s,
            f == 8388608real,
    ;
    law_product_is_near(a, d);
    let e = a.mul(d);
    assert(off(e.amount(), h * dx) <= 9real * b + f * tiny());
    lemma_negated(e);
    let g = e.neg();
    let c = b * x;
    assert(c == h * (1real + x * x)) by (nonlinear_arith)
        requires
            c == b * x,
            b == h * s,
            s == x + i,
            i * x == 1real,
    ;
    assert(f * size(g.amount() * x - (-(h * dx * x))) <= 9real * c + f * tiny() * x && size(
        g.amount() * x,
    ) <= 3real * c + tiny() * x) by (nonlinear_arith)
        requires
            g.amount() == -e.amount(),
            f * size(e.amount() - h * dx) <= 9real * b + f * tiny(),
            size(e.amount()) <= 3real * b + tiny(),
            c == b * x,
            x > 0real,
            f == 8388608real,
    ;
    assert(f * tiny() * x <= 1real / 16real && tiny() * x <= 1real / 16real) by (nonlinear_arith)
        requires
            1000000000000000real * (f * tiny()) <= 1real,
            tiny() > 0real,
            0real < x <= 1073741824real,
            f == 8388608real,
    ;
    assert(c <= 1237940039285380274899124224real && c >= 0real) by (nonlinear_arith)
        requires
            c == b * x,
            0real < b <= 1152921504606846976real,
            0real < x <= 1073741824real,
    ;
    law_product_is_near(g, j);
    assert(2real * h * (1real + x * x) == 2real * c) by (nonlinear_arith)
        requires
            c == h * (1real + x * x),
    ;
}

/// The opposite number.
proof fn lemma_negated(a: Binary32)
    requires
        a.is_finite(),
    ensures
        a.neg().is_finite(),
        a.neg().amount() == -a.amount(),
{
    lemma_single_constants();
    lemma_amount(a);
    lemma_amount(a.neg());
    lemma_tiny();
    let e = units();
    let x = a.amount();
    let y = a.neg().amount();
    assert(y == -x) by (nonlinear_arith)
        requires
            x * e == a.value() as real,
            y * e == a.neg().value() as real,
            a.neg().value() == -a.value(),
            e > 0real,
    ;
}

/// The size of a product.
proof fn lemma_size_of_product(a: real, b: real)
    ensures
        size(a * b) == size(a) * size(b),
        size(a) >= 0real,
{
    assert(size(a * b) == size(a) * size(b)) by (nonlinear_arith);
}

/// A product grows with its factors.
proof fn lemma_product_grows(a: real, b: real, c: real, d: real)
    requires
        0real <= a <= c,
        0real <= b <= d,
    ensures
        0real <= a * b <= c * d,
{
    assert(0real <= a * b) by (nonlinear_arith)
        requires
            a >= 0real,
            b >= 0real,
    ;
    assert(a * b <= c * b) by (nonlinear_arith)
        requires
            a <= c,
            b >= 0real,
    ;
    assert(c * b <= c * d) by (nonlinear_arith)
        requires
            b <= d,
            c >= 0real,
    ;
}

/// The error of a product of approximations.
proof fn lemma_product_of_errors(a: real, ax: real, e: real, b: real, bx: real, g: real)
    requires
        fine(a, ax) <= e,
        fine(b, bx) <= g,
    ensures
        fine(a * b, ax * bx) <= e * size(b) + size(ax) * g,
{
    let d = 4503599627370496real;
    let p = (a - ax) * b;
    let q = ax * (b - bx);
    assert(a * b - ax * bx == p + q) by (nonlinear_arith)
        requires
            p == (a - ax) * b,
            q == ax * (b - bx),
    ;
    lemma_size_of_product(a - ax, b);
    lemma_size_of_product(ax, b - bx);
    let u = size(a - ax);
    let w = size(b - bx);
    lemma_size_of_product(b, 1real);
    lemma_size_of_product(ax, 1real);
    assert(d * (u * size(b)) <= e * size(b)) by (nonlinear_arith)
        requires
            d * u <= e,
            size(b) >= 0real,
            d == 4503599627370496real,
    ;
    assert(d * (size(ax) * w) <= size(ax) * g) by (nonlinear_arith)
        requires
            d * w <= g,
            size(ax) >= 0real,
            d == 4503599627370496real,
    ;
}

/// The square of a widened ratio.
proof fn lemma_square(jd: Binary64, x: real)
    requires
        jd.is_finite(),
        fine(jd.amount(), x) <= x + 1real,
        0real < x <= 1073741824real,
    ensures
        jd.mul(jd).is_finite(),
        fine(jd.mul(jd).amount(), x * x) <= 12real * (x * x) + 12real,
        x * x <= 1152921504606846976real,
        0real < x * x,
{
    lemma_double_tiny();
    let a = jd.amount();
    let xx = x * x;
    lemma_product_grows(x, x, 1073741824real, 1073741824real);
    assert(xx > 0real) by (nonlinear_arith)
        requires
            xx == x * x,
            x > 0real,
    ;
    assert(size(a) <= 2real * x + 1real);
    lemma_product_of_errors(a, x, x + 1real, a, x, x + 1real);
    lemma_product_grows(x + 1real, size(a), x + 1real, 2real * x + 1real);
    assert((x + 1real) * (2real * x + 1real) == 2real * xx + 3real * x + 1real) by (nonlinear_arith)
        requires
            xx == x * x,
    ;
    assert(x * (x + 1real) == xx + x) by (nonlinear_arith)
        requires
            xx == x * x,
    ;
    assert(2real * x <= xx + 1real) by (nonlinear_arith)
        requires
            xx == x * x,
    ;
    law_double_product_is_near(jd, jd);
}

/// The square times what the compaction makes of it.
proof fn lemma_compacted(jj: Binary64, xx: real, y: Binary64)
    requires
        jj.is_finite(),
        y.is_finite(),
        fine(jj.amount(), xx) <= 12real * xx + 12real,
        0real < xx <= 1152921504606846976real,
        0real <= y.amount() <= 1152921504606846976real,
    ensures
        jj.mul(y).is_finite(),
        fine(jj.mul(y).amount(), xx * y.amount()) <= 16real * (xx * y.amount()) + 16real
            * y.amount() + 1real,
        0real <= xx * y.amount() <= 1329227995784915872903807060280344576real,
{
    lemma_double_tiny();
    let a = jj.amount();
    let v = y.amount();
    lemma_product_grows(xx, v, 1152921504606846976real, 1152921504606846976real);
    lemma_product_of_errors(a, xx, 12real * xx + 12real, v, v, 0real);
    assert((12real * xx + 12real) * v == 12real * (xx * v) + 12real * v) by (nonlinear_arith);
    law_double_product_is_near(jj, y);
}

/// What is left of the volume.
proof fn lemma_left(jq: Binary64, x2: real, v: real)
    requires
        jq.is_finite(),
        fine(jq.amount(), x2) <= 16real * x2 + 16real * v + 1real,
        0real <= x2 <= 1329227995784915872903807060280344576real,
        0real <= v <= 1152921504606846976real,
    ensures
        Binary64::one().sub(jq).is_finite(),
        fine(Binary64::one().sub(jq).amount(), 1real - x2) <= 64real * (1real + x2 + v),
{
    lemma_double_constant_amounts();
    lemma_double_tiny();
    law_double_difference_is_near(Binary64::one(), jq);
}

/// Half the modulus.
proof fn lemma_half_modulus(k: Binary32)
    requires
        is_ordinary(k),
    ensures
        k.to_double().is_finite(),
        fine(k.to_double().amount(), k.amount()) <= 2real * k.amount(),
        half_double().mul(k.to_double()).is_finite(),
        fine(half_double().mul(k.to_double()).amount(), k.amount() / 2real) <= 2real * k.amount(),
{
    lemma_double_constant_amounts();
    lemma_double_tiny();
    law_widening_is_near(k);
    law_double_product_is_near(half_double(), k.to_double());
}

/// A product with the modulus.
proof fn lemma_modulus_product(a: Binary64, ax: real, q: real, b: Binary64, bx: real, w: real)
    requires
        a.is_finite(),
        b.is_finite(),
        1real <= 1073741824real * q,
        q <= 1073741824real,
        0real <= ax <= q,
        fine(a.amount(), ax) <= 2real * q,
        fine(b.amount(), bx) <= 64real * w,
        size(bx) <= w,
        1real <= w <= 2658455991569831745807614120560689152real,
    ensures
        a.mul(b).is_finite(),
        fine(a.mul(b).amount(), ax * bx) <= 128real * (q * w),
        size(ax * bx) <= q * w,
        q * w > 0real,
        q * w <= 2854495385411919762116571938898990272765493248real,
{
    lemma_double_tiny();
    let e = q * w;
    lemma_product_grows(q, w, 1073741824real, 2658455991569831745807614120560689152real);
    assert(e >= q) by (nonlinear_arith)
        requires
            e == q * w,
            w >= 1real,
            q > 0real,
    ;
    assert(size(b.amount()) <= 2real * w);
    lemma_product_of_errors(a.amount(), ax, 2real * q, b.amount(), bx, 64real * w);
    lemma_size_of_product(b.amount(), 1real);
    lemma_size_of_product(bx, 1real);
    lemma_product_grows(2real * q, size(b.amount()), 2real * q, 2real * w);
    lemma_product_grows(size(ax), 64real * w, q, 64real * w);
    lemma_product_grows(size(ax), size(bx), q, w);
    lemma_size_of_product(ax, bx);
    assert((2real * q) * (2real * w) == 4real * e && q * (64real * w) == 64real * e)
        by (nonlinear_arith)
        requires
            e == q * w,
    ;
    law_double_product_is_near(a, b);
}

/// The pressure that is carried after a compaction, in double precision.
proof fn lemma_carried(k: Binary32, j: Binary32, y: Binary64)
    requires
        is_ordinary(k),
        is_ordinary(j),
        y.is_finite(),
        0real <= y.amount() <= 1152921504606846976real,
    ensures
        ({
            let jd = j.to_double();
            let r = half_double().mul(k.to_double()).mul(Binary64::one().sub(jd.mul(jd).mul(y)));
            let x2 = j.amount() * j.amount() * y.amount();
            let w = k.amount() * (1real + x2 + y.amount());
            &&& r.is_finite()
            &&& fine(r.amount(), k.amount() / 2real * (1real - x2)) <= 128real * w
            &&& size(k.amount() / 2real * (1real - x2)) <= w
            &&& x2 >= 0real
            &&& w <= 2854495385411919762116571938898990272765493248real
        }),
{
    lemma_double_tiny();
    let x = j.amount();
    let v = y.amount();
    law_widening_is_near(j);
    let jd = j.to_double();
    assert(fine(jd.amount(), x) <= x + 1real);
    lemma_square(jd, x);
    lemma_compacted(jd.mul(jd), x * x, y);
    let x2 = x * x * v;
    lemma_left(jd.mul(jd).mul(y), x2, v);
    lemma_half_modulus(k);
    lemma_modulus_product(
        half_double().mul(k.to_double()),
        k.amount() / 2real,
        k.amount(),
        Binary64::one().sub(jd.mul(jd).mul(y)),
        1real - x2,
        1real + x2 + v,
    );
}

impl NaccMaterial {
    /// The hyperbolic sine in the cap along a compaction, zero without one.
    pub open spec fn cap_sine<N: Numerics>(&self, compaction: Binary64, n: &N) -> real {
        if compaction.gt(Binary64::zero()) {
            n.unary_double_of(
                Unary::Sinh,
                self.hardening_factor.to_double().mul(compaction),
            ).amount()
        } else {
            0real
        }
    }

    /// That sine is finite and not huge.
    pub open spec fn has_cap_sine<N: Numerics>(&self, compaction: Binary64, n: &N) -> bool {
        &&& compaction.gt(Binary64::zero()) ==> n.unary_double_of(
            Unary::Sinh,
            self.hardening_factor.to_double().mul(compaction),
        ).is_finite()
        &&& size(self.cap_sine(compaction, n)) <= 1152921504606846976real
    }
}

/// The cap along a compaction, in double precision.
proof fn lemma_cap<N: Numerics>(m: NaccMaterial, compaction: Binary64, n: &N)
    requires
        is_ordinary(m.kappa),
        m.has_cap_sine(compaction, n),
    ensures
        ({
            let s = m.cap_sine(compaction, n);
            let exact = m.kappa.amount() * (Binary64::from_bits(P0_OFFSET_DOUBLE).amount() + s);
            let w = m.kappa.amount() * (1real + size(s));
            &&& m.compacted_cap(compaction, n).is_finite()
            &&& fine(m.compacted_cap(compaction, n).amount(), exact) <= 128real * w
            &&& size(exact) <= w
            &&& w <= 2854495385411919762116571938898990272765493248real
            &&& w >= m.kappa.amount()
        }),
{
    lemma_double_tiny();
    lemma_offsets();
    lemma_half_modulus(m.kappa);
    let s = m.cap_sine(compaction, n);
    let q = m.kappa.amount();
    let base = Binary64::from_bits(P0_OFFSET_DOUBLE);
    let w = 1real + size(s);
    assert(q * w >= q) by (nonlinear_arith)
        requires
            w >= 1real,
            q > 0real,
    ;
    if compaction.gt(Binary64::zero()) {
        let sine = n.unary_double_of(
            Unary::Sinh,
            m.hardening_factor.to_double().mul(compaction),
        );
        law_double_sum_is_near(base, sine);
        lemma_modulus_product(
            m.kappa.to_double(),
            q,
            q,
            base.add(sine),
            base.amount() + s,
            w,
        );
    } else {
        lemma_modulus_product(m.kappa.to_double(), q, q, base, base.amount() + s, w);
    }
}

/// Where the carried pressure is not above the cap in double precision, it is not above it
/// but for rounding.
proof fn lemma_excess<N: Numerics>(
    m: NaccMaterial,
    j: Binary32,
    alpha: Binary64,
    u: Binary64,
    n: &N,
)
    requires
        is_ordinary(m.kappa),
        is_ordinary(j),
        !m.cap_excess(j.to_double(), alpha, u, n).gt(Binary64::zero()),
        n.unary_double_of(Unary::Exp, two_double().mul(u)).is_finite(),
        0real <= n.unary_double_of(Unary::Exp, two_double().mul(u)).amount()
            <= 1152921504606846976real,
        m.has_cap_sine(u.sub(alpha), n),
    ensures
        ({
            let y = n.unary_double_of(Unary::Exp, two_double().mul(u)).amount();
            let s = m.cap_sine(u.sub(alpha), n);
            let q = m.kappa.amount();
            let x2 = j.amount() * j.amount() * y;
            let base = Binary64::from_bits(P0_OFFSET_DOUBLE).amount();
            17592186044416real * (q / 2real * (1real - x2) - q * (base + s)) <= q * (1real + x2 + y)
                + q * (1real + size(s))
        }),
{
    lemma_double_tiny();
    let y = n.unary_double_of(Unary::Exp, two_double().mul(u));
    lemma_carried(m.kappa, j, y);
    lemma_cap(m, u.sub(alpha), n);
    let jd = j.to_double();
    let carried = half_double().mul(m.kappa.to_double()).mul(
        Binary64::one().sub(jd.mul(jd).mul(y)),
    );
    let cap = m.compacted_cap(u.sub(alpha), n);
    law_double_difference_is_near(carried, cap);
    lemma_not_above_zero(carried.sub(cap));
}

/// The volume ratio after a compaction, in single precision.
proof fn lemma_ratio(j: Binary32, e: Binary64)
    requires
        is_ordinary(j),
        e.is_finite(),
        1real <= 1073741824real * (j.amount() * e.amount()),
        j.amount() * e.amount() <= 1073741824real,
        0real < e.amount(),
    ensures
        j.to_double().mul(e).to_single().is_finite(),
        within(j.to_double().mul(e).to_single().amount(), j.amount() * e.amount(), 4real),
{
    lemma_double_tiny();
    lemma_dust();
    let x = j.amount();
    let v = e.amount();
    let c = x * v;
    law_widening_is_near(j);
    let jd = j.to_double();
    assert(fine(jd.amount(), x) <= 2real * x);
    lemma_product_of_errors(jd.amount(), x, 2real * x, v, v, 0real);
    assert((2real * x) * v == 2real * c) by (nonlinear_arith)
        requires
            c == x * v,
    ;
    law_double_product_is_near(jd, e);
    law_narrowing_is_near(jd.mul(e));
}

/// The preconsolidation in single precision is rounded little.
proof fn lemma_preconsolidation(k: Binary32, sine: Binary32)
    requires
        is_ordinary(k),
        sine.is_finite(),
        size(sine.amount()) <= 1152921504606846976real,
    ensures
        k.mul(Binary32::from_bits(P0_OFFSET).add(sine)).is_finite(),
        off(
            k.mul(Binary32::from_bits(P0_OFFSET).add(sine)).amount(),
            k.amount() * (Binary32::from_bits(P0_OFFSET).amount() + sine.amount()),
        ) <= 4real * (k.amount() * (1real + size(sine.amount()))) + 1real,
{
    lemma_offsets();
    lemma_dust();
    let base = Binary32::from_bits(P0_OFFSET);
    let q = k.amount();
    let bx = base.amount() + sine.amount();
    let w = 1real + size(sine.amount());
    law_sum_is_near(base, sine);
    let b = base.add(sine).amount();
    let e = q * w;
    lemma_size_of_product(q, b);
    lemma_size_of_product(b, 1real);
    lemma_product_grows(q, size(b), q, 2real * w);
    assert(q * (2real * w) == 2real * e) by (nonlinear_arith)
        requires
            e == q * w,
    ;
    lemma_product_grows(q, w, 1073741824real, 1152921504606846977real);
    law_product_is_near(k, base.add(sine));
    assert(8388608real * size(q * b - q * bx) <= e) by (nonlinear_arith)
        requires
            8388608real * size(b - bx) <= w,
            q > 0real,
            e == q * w,
    ;
}

/// How far rounding may take the pressure of a returned state above the cap that its history
/// stands for: the share `t` that the routines are off by, and a few roundings of the modulus
/// `q`, of the squared ratio `cc`, and of the exponential `y` and the sines `s` and `ss`.
pub open spec fn reload_slack(
    q: real,
    cc: real,
    y: real,
    s: real,
    ss: real,
    t: real,
) -> real {
    t * (q * (1real + cc)) + q / 1099511627776real + q * (3real + 2real * cc + y + size(s))
        / 17592186044416real + (20real * q + 40real * (q * cc) + 4real * (q * size(ss)) + 2real)
        / 8388608real
}

/// The pressure of a returned state against the hardened cap, in real numbers.
proof fn lemma_landing(
    q: real,
    p: real,
    jj: real,
    cc: real,
    x2: real,
    y: real,
    s: real,
    ss: real,
    base: real,
    lower: real,
    cap: real,
    t: real,
)
    requires
        q > 0real,
        off(p, q / 2real * (1real - jj)) <= 16real * (q * (1real + jj)) + 1real,
        8388608real * (cc - jj) <= 9real * cc,
        0real <= jj <= 2real * cc,
        0real <= cc,
        0real <= x2 <= cc + t * cc,
        0real <= y,
        0real <= t <= 1real,
        17592186044416real * (q / 2real * (1real - x2) - q * (base + s)) <= q * (1real + x2 + y) + q
            * (1real + size(s)),
        s <= ss + t,
        1099511627776real * (base - lower) <= 1real,
        off(cap, q * (lower + ss)) <= 4real * (q * (1real + size(ss))) + 1real,
    ensures
        p <= cap + reload_slack(q, cc, y, s, ss, t),
{
    let qc = q * cc;
    let qj = q * jj;
    let qx = q * x2;
    let qy = q * y;
    let qs = q * s;
    let qss = q * ss;
    let qt = q * t;
    let tc = t * cc;
    let qtc = q * tc;
    let a = q * size(s);
    let b = q * size(ss);
    assert(q / 2real * (1real - jj) == q / 2real - qj / 2real && q * (1real + jj) == q + qj && q
        / 2real * (1real - x2) == q / 2real - qx / 2real && q * (base + s) == q * base + qs && q * (
    1real + x2 + y) == q + qx + qy) by (nonlinear_arith)
        requires
            qj == q * jj,
            qx == q * x2,
            qy == q * y,
            qs == q * s,
    ;
    assert(q * (1real + size(s)) == q + a && q * (1real + size(ss)) == q + b && q * (lower + ss)
        == q * lower + qss) by (nonlinear_arith)
        requires
            a == q * size(s),
            b == q * size(ss),
            qss == q * ss,
    ;
    assert(8388608real * (qc - qj) <= 9real * qc && 0real <= qj && qj <= 2real * qc && qc >= 0real)
        by (nonlinear_arith)
        requires
            8388608real * (cc - jj) <= 9real * cc,
            0real <= jj <= 2real * cc,
            0real <= cc,
            q > 0real,
            qc == q * cc,
            qj == q * jj,
    ;
    assert(qx <= qc + qtc && qx >= 0real) by (nonlinear_arith)
        requires
            0real <= x2 <= cc + tc,
            q > 0real,
            qc == q * cc,
            qx == q * x2,
            qtc == q * tc,
    ;
    assert(0real <= tc <= cc) by (nonlinear_arith)
        requires
            tc == t * cc,
            0real <= t <= 1real,
            cc >= 0real,
    ;
    assert(0real <= qtc <= qc) by (nonlinear_arith)
        requires
            0real <= tc <= cc,
            q > 0real,
            qtc == q * tc,
            qc == q * cc,
    ;
    assert(qs <= qss + qt && qy >= 0real) by (nonlinear_arith)
        requires
            s <= ss + t,
            q > 0real,
            y >= 0real,
            qs == q * s,
            qss == q * ss,
            qt == q * t,
            qy == q * y,
    ;
    assert(1099511627776real * (q * base - q * lower) <= q) by (nonlinear_arith)
        requires
            1099511627776real * (base - lower) <= 1real,
            q > 0real,
    ;
    assert(t * (q * (1real + cc)) == qt + qtc) by (nonlinear_arith)
        requires
            qt == q * t,
            qtc == q * tc,
            tc == t * cc,
    ;
    assert(q * (3real + 2real * cc + y + size(s)) == 3real * q + 2real * qc + qy + a)
        by (nonlinear_arith)
        requires
            qc == q * cc,
            qy == q * y,
            a == q * size(s),
    ;
    lemma_landing_sum(q, p, cap, qc, qj, qx, qy, qs, qss, qt, qtc, a, b, q * base, q * lower);
}

/// The sum of its terms.
proof fn lemma_landing_sum(
    q: real,
    p: real,
    cap: real,
    qc: real,
    qj: real,
    qx: real,
    qy: real,
    qs: real,
    qss: real,
    qt: real,
    qtc: real,
    a: real,
    b: real,
    qb: real,
    ql: real,
)
    requires
        q > 0real,
        8388608real * (p - (q / 2real - qj / 2real)) <= 16real * (q + qj) + 1real,
        8388608real * (qc - qj) <= 9real * qc,
        0real <= qj <= 2real * qc,
        0real <= qx <= qc + qtc,
        0real <= qtc <= qc,
        17592186044416real * ((q / 2real - qx / 2real) - (qb + qs)) <= q + qx + qy + q + a,
        qs <= qss + qt,
        1099511627776real * (qb - ql) <= q,
        8388608real * ((ql + qss) - cap) <= 4real * (q + b) + 1real,
    ensures
        p <= cap + qt + qtc + q / 1099511627776real + (3real * q + 2real * qc + qy + a)
            / 17592186044416real + (20real * q + 40real * qc + 4real * b + 2real) / 8388608real,
{
}

impl NaccMaterial {
    /// The first compaction at which a state beyond the cap is no longer above the cap that
    /// it hardens: the number after the one that the return stops at.
    pub open spec fn landing<N: Numerics>(&self, j: Binary32, alpha: Binary32, n: &N) -> Binary64 {
        if self.cap_excess(j.to_double(), alpha.to_double(), Binary64::zero(), n).gt(
            Binary64::zero(),
        ) {
            Binary64 { bits: (self.cap_compaction(j, alpha, n).bits + 1) as u64 }
        } else {
            Binary64::zero()
        }
    }

    /// The volume ratio after a return to the cap.
    pub open spec fn landed_ratio<N: Numerics>(&self, j: Binary32, alpha: Binary32, n: &N) -> Binary32 {
        j.to_double().mul(
            n.unary_double_of(Unary::Exp, self.cap_compaction(j, alpha, n)),
        ).to_single()
    }

    /// The history after a return to the cap.
    pub open spec fn landed_history<N: Numerics>(
        &self,
        j: Binary32,
        alpha: Binary32,
        n: &N,
    ) -> Binary32 {
        alpha.sub(self.cap_compaction(j, alpha, n).to_single())
    }

    /// The hyperbolic sine in the preconsolidation of a history.
    pub open spec fn history_sine<N: Numerics>(&self, alpha: Binary32, n: &N) -> Binary32 {
        n.unary_of(
            Unary::Sinh,
            self.hardening_factor.mul(alpha.neg().max(Binary32::zero())),
        )
    }

    /// The routines are finite along a return to the cap and agree with each other up to the
    /// share `t`: the exponential of twice a number with the square of the exponential, and
    /// the hyperbolic sine in both precisions.
    pub open spec fn routines_agree<N: Numerics>(
        &self,
        j: Binary32,
        alpha: Binary32,
        t: real,
        n: &N,
    ) -> bool {
        let w = self.landing(j, alpha, n);
        let once = n.unary_double_of(Unary::Exp, self.cap_compaction(j, alpha, n));
        let twice = n.unary_double_of(Unary::Exp, two_double().mul(w));
        let sine = self.history_sine(self.landed_history(j, alpha, n), n);
        let c = j.amount() * once.amount();
        &&& 0real <= t <= 1real
        &&& once.is_finite() && 0real < once.amount()
        &&& 1real <= 536870912real * c && c <= 536870912real
        &&& twice.is_finite() && 0real <= twice.amount() <= 1152921504606846976real
        &&& twice.amount() <= (1real + t) * (once.amount() * once.amount())
        &&& self.has_cap_sine(w.sub(alpha.to_double()), n)
        &&& sine.is_finite() && size(sine.amount()) <= 1152921504606846976real
        &&& self.cap_sine(w.sub(alpha.to_double()), n) <= sine.amount() + t
    }

    /// How far rounding may take the pressure of a returned state above its cap.
    pub open spec fn landing_slack<N: Numerics>(
        &self,
        j: Binary32,
        alpha: Binary32,
        t: real,
        n: &N,
    ) -> real {
        let w = self.landing(j, alpha, n);
        let c = j.amount() * n.unary_double_of(
            Unary::Exp,
            self.cap_compaction(j, alpha, n),
        ).amount();
        reload_slack(
            self.kappa.amount(),
            c * c,
            n.unary_double_of(Unary::Exp, two_double().mul(w)).amount(),
            self.cap_sine(w.sub(alpha.to_double()), n),
            self.history_sine(self.landed_history(j, alpha, n), n).amount(),
            t,
        )
    }
}

/// A state that was returned to the cap carries no more pressure than the preconsolidation
/// that its new history stands for, up to rounding.
pub proof fn law_returned_state_is_on_its_cap<N: Numerics>(
    m: NaccMaterial,
    j: Binary32,
    alpha: Binary32,
    t: real,
    n: &N,
)
    requires
        is_ordinary(m.kappa),
        is_ordinary(j),
        !m.cap_excess(j.to_double(), alpha.to_double(), Binary64::infinity(), n).gt(
            Binary64::zero(),
        ),
        m.routines_agree(j, alpha, t, n),
    ensures
        m.pressure_at(m.landed_ratio(j, alpha, n)).is_finite(),
        m.preconsolidation(m.landed_history(j, alpha, n), n).is_finite(),
        m.pressure_at(m.landed_ratio(j, alpha, n)).amount() <= m.preconsolidation(
            m.landed_history(j, alpha, n),
            n,
        ).amount() + m.landing_slack(j, alpha, t, n),
{
    lemma_single_constants();
    lemma_double_constants();
    lemma_offsets();
    let jd = j.to_double();
    let ad = alpha.to_double();
    let u = m.cap_compaction(j, alpha, n);
    let w = m.landing(j, alpha, n);
    if m.cap_excess(jd, ad, Binary64::zero(), n).gt(Binary64::zero()) {
        law_cap_return_lands_on_the_cap(m, j, alpha, n);
    }
    assert(!m.cap_excess(jd, ad, w, n).gt(Binary64::zero()));
    lemma_excess(m, j, ad, w, n);
    let once = n.unary_double_of(Unary::Exp, u);
    let y = n.unary_double_of(Unary::Exp, two_double().mul(w)).amount();
    let x = j.amount();
    let c = x * once.amount();
    lemma_ratio(j, once);
    let r = m.landed_ratio(j, alpha, n);
    assert(8388608real * size(r.amount() - c) <= 4real * c);
    assert(is_ordinary(r));
    lemma_pressure_is_near(m, r);
    let sine = m.history_sine(m.landed_history(j, alpha, n), n);
    lemma_preconsolidation(m.kappa, sine);
    let cc = c * c;
    let jj = r.amount() * r.amount();
    lemma_squares(r.amount(), c);
    lemma_twice(x, once.amount(), y, t);
    lemma_landing(
        m.kappa.amount(),
        m.pressure_at(r).amount(),
        jj,
        cc,
        x * x * y,
        y,
        m.cap_sine(w.sub(ad), n),
        sine.amount(),
        Binary64::from_bits(P0_OFFSET_DOUBLE).amount(),
        Binary32::from_bits(P0_OFFSET).amount(),
        m.preconsolidation(m.landed_history(j, alpha, n), n).amount(),
        t,
    );
}

/// The square of an approximation.
proof fn lemma_squares(r: real, c: real)
    requires
        8388608real * size(r - c) <= 4real * c,
        c > 0real,
    ensures
        8388608real * (c * c - r * r) <= 9real * (c * c),
        0real <= r * r <= 2real * (c * c),
        0real <= c * c,
{
    lemma_product_grows(c, c, c, c);
    let e = c / 2097152real;
    lemma_product_grows(c - e, c - e, r, r);
    lemma_product_grows(r, r, c + e, c + e);
    assert((c - e) * (c - e) == c * c - 2real * (c * e) + e * e && (c + e) * (c + e) == c * c + 2real
        * (c * e) + e * e && e * e >= 0real) by (nonlinear_arith);
    assert(2097152real * (c * e) == c * c) by (nonlinear_arith)
        requires
            2097152real * e == c,
    ;
    assert(2097152real * (e * e) == c * e) by (nonlinear_arith)
        requires
            2097152real * e == c,
    ;
}

/// The exponential of twice a compaction against the squared ratio.
proof fn lemma_twice(x: real, v: real, y: real, t: real)
    requires
        x > 0real,
        v > 0real,
        0real <= t,
        0real <= y,
        y <= (1real + t) * (v * v),
    ensures
        ({
            let cc = (x * v) * (x * v);
            0real <= x * x * y <= cc + t * cc
        }),
{
    let vv = v * v;
    let xx = x * x;
    let cc = (x * v) * (x * v);
    assert(cc == xx * vv) by (nonlinear_arith)
        requires
            cc == (x * v) * (x * v),
            xx == x * x,
            vv == v * v,
    ;
    lemma_product_grows(x, x, x, x);
    lemma_product_grows(xx, y, xx, (1real + t) * vv);
    assert(xx * ((1real + t) * vv) == cc + t * cc) by (nonlinear_arith)
        requires
            cc == xx * vv,
    ;
}

/// A hardening projection from beyond the cap ends in the landed ratio and history.
pub proof fn law_projection_lands<N: Numerics>(
    m: NaccMaterial,
    loaded: Mat2,
    alpha: Binary32,
    cohesion_bonus_pa: Binary32,
    n: &N,
)
    requires
        m.returns_to_the_cap(loaded, alpha, cohesion_bonus_pa, n),
    ensures
        ({
            let t = m.trial_of(loaded, alpha, cohesion_bonus_pa, n);
            m.projected(loaded, alpha, cohesion_bonus_pa, n) == (
                recompose(
                    t.u,
                    Vec2::splat(n.pow_of(m.landed_ratio(t.j, alpha, n), half())),
                    t.vt,
                ),
                m.landed_history(t.j, alpha, n),
            )
        }),
{
}

impl NaccMaterial {
    /// A hardening soil whose trial state lies beyond the cap, and beyond the volume ratio
    /// at the cap.
    pub open spec fn returns_to_the_cap<N: Numerics>(
        &self,
        f: Mat2,
        alpha: Binary32,
        cohesion_bonus_pa: Binary32,
        n: &N,
    ) -> bool {
        let t = self.trial_of(f, alpha, cohesion_bonus_pa, n);
        &&& self.hardening_enabled
        &&& self.region(&t) == Region::Cap
        &&& !n.unary_double_of(
            Unary::Ln,
            self.ratio_at_cap(t.p0).to_double().div(t.j.to_double()),
        ).le(Binary64::zero())
    }
}

/// Preconsolidation is a memory: after a projection back to the cap, every state without
/// shear that carries less pressure than the returned one, by more than rounding, and that is
/// not torn, is elastic with the new history. Neither it nor the history changes.
pub proof fn law_reloading_is_elastic<N: Numerics>(
    m: NaccMaterial,
    loaded: Mat2,
    alpha: Binary32,
    t: real,
    f: Mat2,
    cohesion_bonus_pa: Binary32,
    n: &N,
)
    requires
        m.returns_to_the_cap(loaded, alpha, cohesion_bonus_pa, n),
        is_ordinary(m.kappa),
        ({
            let j = m.trial_of(loaded, alpha, cohesion_bonus_pa, n).j;
            let a = m.projected(loaded, alpha, cohesion_bonus_pa, n).1;
            let s = m.trial_of(f, a, cohesion_bonus_pa, n);
            &&& is_ordinary(j)
            &&& !m.cap_excess(j.to_double(), alpha.to_double(), Binary64::infinity(), n).gt(
                Binary64::zero(),
            )
            &&& m.routines_agree(j, alpha, t, n)
            &&& s.p.is_finite()
            &&& s.p.amount() + m.landing_slack(j, alpha, t, n) <= m.pressure_at(
                m.landed_ratio(j, alpha, n),
            ).amount()
            &&& s.s.x.eq(Binary32::zero()) && s.s.y.eq(Binary32::zero())
            &&& s.shift.is_finite()
            &&& s.shift.neg().le(s.p)
            &&& s.p.sub(s.p0).is_finite()
            &&& m.friction.mul(m.friction).mul(s.p.add(s.shift)).is_finite()
            &&& m.y0().is_finite()
        }),
    ensures
        ({
            let a = m.projected(loaded, alpha, cohesion_bonus_pa, n).1;
            m.projected(f, a, cohesion_bonus_pa, n) == (f, a)
        }),
{
    lemma_single_constants();
    law_projection_lands(m, loaded, alpha, cohesion_bonus_pa, n);
    let j = m.trial_of(loaded, alpha, cohesion_bonus_pa, n).j;
    law_returned_state_is_on_its_cap(m, j, alpha, t, n);
    let a = m.landed_history(j, alpha, n);
    let s = m.trial_of(f, a, cohesion_bonus_pa, n);
    law_order_of_amounts(s.p, s.p0);
    law_order_of_amounts(s.p0, s.p);
    lemma_inside(m, s);
    law_elastic_states_are_fixed(m, f, a, cohesion_bonus_pa, n);
}

/// The pressure part of the yield function is not positive between tip and cap.
proof fn lemma_pressure_part(m: NaccMaterial, s: Trial)
    requires
        s.p.is_finite(),
        s.p0.is_finite(),
        s.shift.is_finite(),
        s.p.le(s.p0),
        s.shift.neg().le(s.p),
        s.p.sub(s.p0).is_finite(),
        m.friction.mul(m.friction).mul(s.p.add(s.shift)).is_finite(),
    ensures
        m.y1(s.p, s.shift, s.p0).le(Binary32::zero()),
{
    lemma_single_constants();
    let zero = Binary32::zero();
    let square = m.friction.mul(m.friction);
    let b = s.p.add(s.shift);
    let g = square.mul(b);
    assert(b == s.p.sub(s.shift.neg())) by {
        reveal(Binary32::spec_add);
        reveal(Binary32::spec_sub);
    }
    law_difference_is_not_negative(s.p, s.shift.neg());
    assert(square.is_finite() && b.is_finite() && !m.friction.is_nan()) by {
        reveal(Binary32::spec_mul);
    }
    law_square_is_not_negative(m.friction);
    if b.eq(zero) {
        law_zero_absorbs(b, square);
    } else {
        law_zero_absorbs(zero, b);
        law_finite_product_is_a_number(zero, b);
        law_multiplication_is_monotone(zero, square, b);
    }
    assert(zero.le(g));
    law_difference_is_not_negative(s.p0, s.p);
    law_reversed_difference(s.p0, s.p);
    let d = s.p.sub(s.p0);
    assert(d.le(zero));
    if g.eq(zero) {
        law_zero_absorbs(g, d);
    } else {
        law_multiplication_commutes(g, d);
        law_zero_absorbs(zero, g);
        law_finite_product_is_a_number(d, g);
        law_finite_product_is_a_number(zero, g);
        law_multiplication_is_monotone(d, zero, g);
    }
}

/// A state without shear between tip and cap is inside the yield surface.
proof fn lemma_inside(m: NaccMaterial, s: Trial)
    requires
        s.p.is_finite(),
        s.p0.is_finite(),
        s.shift.is_finite(),
        s.p.le(s.p0),
        s.shift.neg().le(s.p),
        s.s.x.eq(Binary32::zero()) && s.s.y.eq(Binary32::zero()),
        s.p.sub(s.p0).is_finite(),
        m.friction.mul(m.friction).mul(s.p.add(s.shift)).is_finite(),
        m.y0().is_finite(),
    ensures
        m.region(&s) == Region::Inside,
{
    lemma_single_constants();
    let zero = Binary32::zero();
    // no shear
    law_zero_absorbs(s.s.x, s.s.x);
    law_zero_absorbs(s.s.y, s.s.y);
    law_zeros_add_up(s.s.x.mul(s.s.x), s.s.y.mul(s.s.y));
    let shear = s.s.x.mul(s.s.x).add(s.s.y.mul(s.s.y));
    law_zero_absorbs(shear, m.y0());
    law_multiplication_commutes(shear, m.y0());
    // the pressure part is not positive
    let g = m.friction.mul(m.friction).mul(s.p.add(s.shift));
    let d = s.p.sub(s.p0);
    lemma_pressure_part(m, s);
    law_addition_commutes(m.y0().mul(shear), g.mul(d));
    law_zero_adds_nothing(g.mul(d), m.y0().mul(shear));
}

} // verus!
