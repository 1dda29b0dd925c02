use vstd::prelude::*;

use crate::binary::error::huge;
use crate::binary::error::law_difference_is_near;
use crate::binary::error::law_product_is_near;
use crate::binary::error::law_quotient_is_near;
use crate::binary::error::law_sum_is_near;
use crate::binary::error::lemma_amount;
use crate::binary::error::lemma_constant_amounts;
use crate::binary::error::lemma_tiny;
use crate::binary::error::lemma_unit_is_small;
use crate::binary::error::near;
use crate::binary::error::off;
use crate::binary::error::size;
use crate::binary::error::tiny;
use crate::binary::error::units;
use crate::binary::laws::lemma_product_packs;
use crate::binary::laws::lemma_sum_packs;
use crate::binary::relative::dust;
use crate::binary::relative::lemma_dust;
use crate::binary::single::Binary32;
use crate::binary::single::half;
use crate::binary::single::lemma_single_constants;
use crate::binary::single::two;

verus! {

/// A number that stands for the real number `exact`, of size at most `scale`, up to `parts`
/// parts in `2^23` of `scale`.
pub struct Estimate {
    pub got: Binary32,
    pub exact: real,
    pub scale: real,
    pub parts: real,
}

/// `a` is `exact`, of size at most `scale`, up to `parts` parts in `2^23` of `scale`.
pub open spec fn around(a: Binary32, exact: real, scale: real, parts: real) -> bool {
    &&& a.is_finite()
    &&& 1real <= scale
    &&& size(exact) <= scale
    &&& off(a.amount(), exact) <= parts * scale
}

impl Estimate {
    pub open spec fn holds(self) -> bool {
        &&& around(self.got, self.exact, self.scale, self.parts)
        &&& 0real <= self.parts <= 400real
    }

    /// A number that stands for itself.
    pub open spec fn of(a: Binary32) -> Estimate {
        Estimate { got: a, exact: a.amount(), scale: weight(a), parts: 0real }
    }

    /// A number of size at most one that stands for itself.
    pub open spec fn unit(a: Binary32) -> Estimate {
        Estimate { got: a, exact: a.amount(), scale: 1real, parts: 0real }
    }

    pub open spec fn plus(self, other: Estimate) -> Estimate {
        Estimate {
            got: self.got.add(other.got),
            exact: self.exact + other.exact,
            scale: self.scale + other.scale,
            parts: larger(self.parts, other.parts) + 2real,
        }
    }

    pub open spec fn minus(self, other: Estimate) -> Estimate {
        Estimate {
            got: self.got.sub(other.got),
            exact: self.exact - other.exact,
            scale: self.scale + other.scale,
            parts: larger(self.parts, other.parts) + 2real,
        }
    }

    pub open spec fn times(self, other: Estimate) -> Estimate {
        Estimate {
            got: self.got.mul(other.got),
            exact: self.exact * other.exact,
            scale: self.scale * other.scale,
            parts: self.parts + other.parts + 2real,
        }
    }

    pub open spec fn halved(self) -> Estimate {
        Estimate {
            got: self.got.mul(half()),
            exact: self.exact / 2real,
            parts: self.parts + 2real,
            ..self
        }
    }

    pub open spec fn opposite(self) -> Estimate {
        Estimate { got: self.got.neg(), exact: -self.exact, ..self }
    }
}

/// A bound on the size of a number, at least one.
pub open spec fn weight(a: Binary32) -> real {
    size(a.amount()) + 1real
}

/// The positive part.
pub open spec fn positive(x: real) -> real {
    if x < 0real {
        0real
    } else {
        x
    }
}

/// The larger of two.
pub open spec fn larger(x: real, y: real) -> real {
    if x < y {
        y
    } else {
        x
    }
}

/// A number stands for itself.
pub proof fn lemma_of(a: Binary32)
    requires
        a.is_finite(),
    ensures
        Estimate::of(a).holds(),
        size(a.amount()) <= 1real ==> Estimate::unit(a).holds(),
{
}

/// Zero and one stand for themselves.
pub proof fn lemma_units()
    ensures
        Estimate::unit(Binary32::zero()).holds(),
        Estimate::unit(Binary32::one()).holds(),
        Estimate::unit(half()).holds(),
        Estimate::unit(Binary32::zero()).exact == 0real,
        Estimate::unit(Binary32::one()).exact == 1real,
        Estimate::unit(half()).exact == 1real / 2real,
{
    lemma_constant_amounts();
    lemma_single_constants();
}

/// What a number around `exact` is at most.
pub proof fn lemma_around_size(a: Binary32, s: real, m: real, k: real)
    requires
        around(a, s, m, k),
        0real <= k <= 1024real,
    ensures
        8192real * size(a.amount()) <= 8193real * m,
{
    assert(k * m <= 1024real * m) by (nonlinear_arith)
        requires
            0real <= k <= 1024real,
            m >= 0real,
    ;
}

/// The opposite of an estimate.
pub proof fn lemma_opposite(a: Estimate)
    requires
        a.holds(),
    ensures
        a.opposite().holds(),
        a.got.neg().amount() == -a.got.amount(),
{
    lemma_single_constants();
    lemma_amount(a.got);
    lemma_amount(a.got.neg());
    lemma_tiny();
    let e = units();
    let x = a.got.amount();
    let y = a.got.neg().amount();
    assert(y == -x) by (nonlinear_arith)
        requires
            x * e == a.got.value() as real,
            y * e == a.got.neg().value() as real,
            a.got.neg().value() == -a.got.value(),
            e > 0real,
    ;
}

/// The parts of a finite sum, difference or product are finite.
pub proof fn lemma_finite_parts(a: Binary32, b: Binary32)
    ensures
        a.add(b).is_finite() ==> a.is_finite() && b.is_finite(),
        a.sub(b).is_finite() ==> a.is_finite() && b.is_finite(),
        a.mul(b).is_finite() ==> a.is_finite() && b.is_finite(),
        a.neg().is_finite() <==> a.is_finite(),
{
    reveal(Binary32::spec_add);
    reveal(Binary32::spec_sub);
    reveal(Binary32::spec_mul);
    lemma_single_constants();
    lemma_sum_packs(a, b.num());
    lemma_sum_packs(a, b.num().negated());
    lemma_product_packs(a, b);
}

/// A finite sum of estimates.
pub proof fn lemma_plus(a: Estimate, b: Estimate)
    requires
        a.holds(),
        b.holds(),
        a.parts <= 390real,
        b.parts <= 390real,
        a.plus(b).got.is_finite(),
    ensures
        a.plus(b).holds(),
{
    law_sum_is_near(a.got, b.got);
    lemma_summed_estimates(a, b, b.got.amount(), b.exact, a.plus(b).got.amount());
}

/// A finite difference of estimates.
pub proof fn lemma_minus(a: Estimate, b: Estimate)
    requires
        a.holds(),
        b.holds(),
        a.parts <= 390real,
        b.parts <= 390real,
        a.minus(b).got.is_finite(),
    ensures
        a.minus(b).holds(),
{
    law_difference_is_near(a.got, b.got);
    lemma_summed_estimates(a, b, -b.got.amount(), -b.exact, a.minus(b).got.amount());
}

/// The error of a rounded sum of estimates, the second of them perhaps negated.
proof fn lemma_summed_estimates(a: Estimate, b: Estimate, q: real, y: real, r: real)
    requires
        a.holds(),
        b.holds(),
        (q == b.got.amount() && y == b.exact) || (q == -b.got.amount() && y == -b.exact),
        near(r, a.got.amount() + q),
    ensures
        off(r, a.exact + y) <= (larger(a.parts, b.parts) + 2real) * (a.scale + b.scale),
        size(a.exact + y) <= a.scale + b.scale,
{
    let m = a.scale;
    let n = b.scale;
    let k = a.parts;
    let l = b.parts;
    let j = larger(k, l);
    lemma_around_size(a.got, a.exact, m, k);
    lemma_around_size(b.got, b.exact, n, l);
    assert(k * m <= j * m) by (nonlinear_arith)
        requires
            k <= j,
            m >= 0real,
    ;
    assert(l * n <= j * n) by (nonlinear_arith)
        requires
            l <= j,
            n >= 0real,
    ;
    assert((j + 2real) * (m + n) == j * m + j * n + 2real * (m + n)) by (nonlinear_arith);
    lemma_summed(a.got.amount(), a.exact, q, y, r, j * m, j * n, m, n);
}

/// The error of a rounded sum.
proof fn lemma_summed(
    a: real,
    x: real,
    b: real,
    y: real,
    r: real,
    e: real,
    f: real,
    m: real,
    n: real,
)
    requires
        near(r, a + b),
        off(a, x) <= e,
        off(b, y) <= f,
        8192real * size(a) <= 8193real * m,
        8192real * size(b) <= 8193real * n,
        m >= 1real,
        n >= 1real,
    ensures
        off(r, x + y) <= e + f + 2real * (m + n),
{
    assert(8388608real * size(r - (a + b)) <= size(a) + size(b));
}

/// A finite product of estimates.
pub proof fn lemma_times(a: Estimate, b: Estimate)
    requires
        a.holds(),
        b.holds(),
        a.parts + b.parts <= 390real,
        a.times(b).got.is_finite(),
    ensures
        a.times(b).holds(),
{
    lemma_unit_is_small();
    let m = a.scale;
    let n = b.scale;
    let k = a.parts;
    let l = b.parts;
    lemma_around_size(a.got, a.exact, m, k);
    lemma_around_size(b.got, b.exact, n, l);
    let p = a.got.amount();
    let q = b.got.amount();
    let mn = m * n;
    assert(1real <= mn) by (nonlinear_arith)
        requires
            mn == m * n,
            1real <= m,
            1real <= n,
    ;
    lemma_multiplied(p, q, m, n);
    law_product_is_near(a.got, b.got);
    lemma_multiplied(a.exact, b.exact, m, n);
    lemma_product_error(p, a.exact, q, b.exact, m, n, k, l);
    assert((k + l + 2real) * mn == k * mn + l * mn + 2real * mn) by (nonlinear_arith);
}

/// A finite half of an estimate.
pub proof fn lemma_halved(a: Estimate)
    requires
        a.holds(),
        a.parts <= 390real,
        a.halved().got.is_finite(),
    ensures
        a.halved().holds(),
{
    lemma_units();
    let h = Estimate::unit(half());
    lemma_times(a, h);
    assert(a.exact * h.exact == a.exact / 2real) by (nonlinear_arith)
        requires
            h.exact == 1real / 2real,
    ;
    assert(a.scale * 1real == a.scale) by (nonlinear_arith);
}

/// An estimate holds of a larger scale and more parts.
pub proof fn lemma_looser(a: Estimate, scale: real, parts: real)
    requires
        a.holds(),
        a.scale <= scale,
        a.parts <= parts,
    ensures
        around(a.got, a.exact, scale, parts),
{
    let k = a.parts;
    let m = a.scale;
    assert(k * m <= parts * scale) by (nonlinear_arith)
        requires
            0real <= k <= parts,
            0real <= m <= scale,
    ;
}

/// A quotient times its divisor gives the dividend back.
pub proof fn law_quotient_multiplies_back(a: Binary32, b: Binary32)
    requires
        a.is_finite(),
        b.is_finite(),
        b.amount() != 0real,
        a.div(b).is_finite(),
    ensures
        off(a.div(b).amount() * b.amount(), a.amount()) <= size(a.amount()) + dust() * size(
            b.amount(),
        ),
{
    law_quotient_is_near(a, b);
    lemma_dust();
    let q = a.div(b).amount();
    let x = a.amount();
    let y = b.amount();
    let z = x / y;
    let d = q - z;
    assert(z * y == x && size(x) == size(z) * size(y) && size(q * y - x) == size(d) * size(y))
        by (nonlinear_arith)
        requires
            z == x / y,
            y != 0real,
            d == q - z,
    ;
    let t = 8388608real * tiny();
    let u = size(d);
    let w = size(y);
    let v = size(z);
    assert(8388608real * (u * w) <= v * w + dust() * w) by (nonlinear_arith)
        requires
            8388608real * u <= v + t,
            t <= dust(),
            w >= 0real,
    ;
}

/// Differences add up.
pub proof fn lemma_chain(a: real, b: real, c: real)
    ensures
        off(a, c) <= off(a, b) + off(b, c),
{
}

/// A quotient of an estimate times its divisor gives back what it stands for.
pub proof fn lemma_quotient_of(e: Estimate, b: Binary32)
    requires
        e.holds(),
        b.is_finite(),
        b.amount() != 0real,
        e.got.div(b).is_finite(),
    ensures
        off(e.got.div(b).amount() * b.amount(), e.exact) <= (e.parts + 2real) * e.scale + dust()
            * size(b.amount()),
{
    let a = e.got;
    law_quotient_multiplies_back(a, b);
    lemma_around_size(a, e.exact, e.scale, e.parts);
    let got = a.div(b).amount() * b.amount();
    lemma_chain(got, a.amount(), e.exact);
    let (k, m) = (e.parts, e.scale);
    assert((k + 2real) * m == k * m + 2real * m) by (nonlinear_arith);
}

/// The size of a product.
proof fn lemma_multiplied(p: real, q: real, m: real, n: real)
    requires
        8192real * size(p) <= 8193real * m,
        8192real * size(q) <= 8193real * n,
        m >= 1real,
        n >= 1real,
    ensures
        4096real * size(p * q) <= 4098real * (m * n),
        size(p) <= m && size(q) <= n ==> size(p * q) <= m * n,
{
    let a = size(p);
    let b = size(q);
    assert(size(p * q) == a * b) by (nonlinear_arith)
        requires
            a == size(p),
            b == size(q),
    ;
    assert(67108864real * (a * b) <= 67125249real * (m * n)) by (nonlinear_arith)
        requires
            0real <= 8192real * a <= 8193real * m,
            0real <= 8192real * b <= 8193real * n,
    ;
    assert(m * n >= 0real) by (nonlinear_arith)
        requires
            m >= 0real,
            n >= 0real,
    ;
    if a <= m && b <= n {
        assert(a * b <= m * n) by (nonlinear_arith)
            requires
                0real <= a <= m,
                0real <= b <= n,
        ;
    }
}

/// The error of a product of approximations.
proof fn lemma_product_error(
    p: real,
    x: real,
    q: real,
    y: real,
    m: real,
    n: real,
    k: real,
    l: real,
)
    requires
        off(p, x) <= k * m,
        off(q, y) <= l * n,
        size(x) <= m,
        8192real * size(q) <= 8193real * n,
        1real <= m,
        1real <= n,
        0real <= k <= 400real,
        0real <= l,
    ensures
        off(p * q, x * y) <= k * (m * n) + l * (m * n) + m * n / 16real,
{
    let f = 8388608real;
    let d = p - x;
    let e = q - y;
    let mn = m * n;
    let u = size(d);
    let v = size(e);
    assert(p * q - x * y == d * q + x * e) by (nonlinear_arith)
        requires
            d == p - x,
            e == q - y,
    ;
    assert(size(d * q) == u * size(q) && size(x * e) == size(x) * v) by (nonlinear_arith)
        requires
            u == size(d),
            v == size(e),
    ;
    assert(f * (size(x) * v) <= l * mn) by (nonlinear_arith)
        requires
            f * v <= l * n,
            0real <= size(x) <= m,
            v >= 0real,
            l >= 0real,
            n >= 0real,
            mn == m * n,
            f == 8388608real,
    ;
    let t = u * size(q);
    assert(mn >= 0real) by (nonlinear_arith)
        requires
            m >= 0real,
            n >= 0real,
            mn == m * n,
    ;
    assert(f * 8192real * t <= (k * m) * (8193real * n)) by (nonlinear_arith)
        requires
            0real <= f * u <= k * m,
            0real <= 8192real * size(q) <= 8193real * n,
            t == u * size(q),
            u >= 0real,
            f == 8388608real,
    ;
    assert((k * m) * (8193real * n) == 8193real * (k * mn) && 0real <= k * mn <= 400real * mn)
        by (nonlinear_arith)
        requires
            mn == m * n,
            0real <= k <= 400real,
            mn >= 0real,
    ;
}

/// A product of numbers of bounded sizes does not overflow.
pub proof fn lemma_bounded_product(a: Binary32, b: Binary32, x: real, y: real)
    requires
        a.is_finite() && b.is_finite(),
        size(a.amount()) <= x,
        size(b.amount()) <= y,
        1real <= x && 1real <= y,
        2real * (x * y) <= huge(),
    ensures
        a.mul(b).is_finite(),
        size(a.mul(b).amount()) <= 2real * (x * y),
{
    let (p, q) = (a.amount(), b.amount());
    let (u, v) = (size(p), size(q));
    assert(size(p * q) == u * v) by (nonlinear_arith)
        requires
            u == size(p),
            v == size(q),
    ;
    assert(u * v <= x * y && 1real <= x * y) by (nonlinear_arith)
        requires
            0real <= u <= x,
            0real <= v <= y,
            1real <= x,
            1real <= y,
    ;
    law_product_is_near(a, b);
    lemma_unit_is_small();
}

} // verus!
