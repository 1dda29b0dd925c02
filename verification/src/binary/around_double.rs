use vstd::prelude::*;

use crate::binary::around::larger;
use crate::binary::double::Binary64;
use crate::binary::double::lemma_double_constants;
use crate::binary::error::size;
use crate::binary::error_double::double_near;
use crate::binary::error_double::double_tiny;
use crate::binary::error_double::double_units;
use crate::binary::error_double::law_double_difference_is_near;
use crate::binary::error_double::law_double_product_is_near;
use crate::binary::error_double::law_double_quotient_is_near;
use crate::binary::error_double::law_double_sum_is_near;
use crate::binary::error_double::lemma_double_amount;
use crate::binary::error_double::lemma_double_tiny;

verus! {

/// A difference in roundings of double precision: parts in `2^52`.
pub open spec fn fine_off(got: real, exact: real) -> real {
    4503599627370496real * size(got - exact)
}

/// A bound far above the smallest number of double precision: `2^-40`.
pub open spec fn fine_dust() -> real {
    1real / 1099511627776real
}

/// A bound on the size of a number, at least one.
pub open spec fn fine_weight(a: Binary64) -> real {
    size(a.amount()) + 1real
}

/// A number that stands for the real number `exact`, of size at most `scale`, up to `parts`
/// parts in `2^52` of `scale`.
pub struct FineEstimate {
    pub got: Binary64,
    pub exact: real,
    pub scale: real,
    pub parts: real,
}

/// `a` is `exact`, of size at most `scale`, up to `parts` parts in `2^52` of `scale`.
pub open spec fn fine_around(a: Binary64, exact: real, scale: real, parts: real) -> bool {
    &&& a.is_finite()
    &&& 1real <= scale
    &&& size(exact) <= scale
    &&& fine_off(a.amount(), exact) <= parts * scale
}

impl FineEstimate {
    pub open spec fn holds(self) -> bool {
        &&& fine_around(self.got, self.exact, self.scale, self.parts)
        &&& 0real <= self.parts <= 400real
    }

    /// A number that stands for itself.
    pub open spec fn of(a: Binary64) -> FineEstimate {
        FineEstimate { got: a, exact: a.amount(), scale: fine_weight(a), parts: 0real }
    }

    pub open spec fn plus(self, other: FineEstimate) -> FineEstimate {
        FineEstimate {
            got: self.got.add(other.got),
            exact: self.exact + other.exact,
            scale: self.scale + other.scale,
            parts: larger(self.parts, other.parts) + 2real,
        }
    }

    pub open spec fn minus(self, other: FineEstimate) -> FineEstimate {
        FineEstimate {
            got: self.got.sub(other.got),
            exact: self.exact - other.exact,
            scale: self.scale + other.scale,
            parts: larger(self.parts, other.parts) + 2real,
        }
    }

    pub open spec fn times(self, other: FineEstimate) -> FineEstimate {
        FineEstimate {
            got: self.got.mul(other.got),
            exact: self.exact * other.exact,
            scale: self.scale * other.scale,
            parts: self.parts + other.parts + 2real,
        }
    }

    pub open spec fn opposite(self) -> FineEstimate {
        FineEstimate { got: self.got.neg(), exact: -self.exact, ..self }
    }
}

/// A number stands for itself.
pub proof fn lemma_fine_of(a: Binary64)
    requires
        a.is_finite(),
    ensures
        FineEstimate::of(a).holds(),
{
}

/// What a number around `exact` is at most.
pub proof fn lemma_fine_around_size(a: Binary64, s: real, m: real, k: real)
    requires
        fine_around(a, s, m, k),
        0real <= k <= 1024real,
    ensures
        8192real * size(a.amount()) <= 8193real * m,
{
    assert(k * m <= 1024real * m) by (nonlinear_arith)
        requires
            0real <= k <= 1024real,
            m >= 0real,
    ;
}

/// The opposite of an estimate.
pub proof fn lemma_fine_opposite(a: FineEstimate)
    requires
        a.holds(),
    ensures
        a.opposite().holds(),
        a.got.neg().amount() == -a.got.amount(),
{
    lemma_double_constants();
    lemma_double_amount(a.got);
    lemma_double_amount(a.got.neg());
    lemma_double_tiny();
    let e = double_units();
    let x = a.got.amount();
    let y = a.got.neg().amount();
    assert(y == -x) by (nonlinear_arith)
        requires
            x * e == a.got.value() as real,
            y * e == a.got.neg().value() as real,
            a.got.neg().value() == -a.got.value(),
            e > 0real,
    ;
}

/// A finite sum of estimates.
pub proof fn lemma_fine_plus(a: FineEstimate, b: FineEstimate)
    requires
        a.holds(),
        b.holds(),
        a.parts <= 390real,
        b.parts <= 390real,
        a.plus(b).got.is_finite(),
    ensures
        a.plus(b).holds(),
{
    law_double_sum_is_near(a.got, b.got);
    lemma_fine_summed_estimates(a, b, b.got.amount(), b.exact, a.plus(b).got.amount());
}

/// A finite difference of estimates.
pub proof fn lemma_fine_minus(a: FineEstimate, b: FineEstimate)
    requires
        a.holds(),
        b.holds(),
        a.parts <= 390real,
        b.parts <= 390real,
        a.minus(b).got.is_finite(),
    ensures
        a.minus(b).holds(),
{
    law_double_difference_is_near(a.got, b.got);
    lemma_fine_summed_estimates(a, b, -b.got.amount(), -b.exact, a.minus(b).got.amount());
}

/// The error of a rounded sum of estimates, the second of them perhaps negated.
proof fn lemma_fine_summed_estimates(a: FineEstimate, b: FineEstimate, q: real, y: real, r: real)
    requires
        a.holds(),
        b.holds(),
        (q == b.got.amount() && y == b.exact) || (q == -b.got.amount() && y == -b.exact),
        double_near(r, a.got.amount() + q),
    ensures
        fine_off(r, a.exact + y) <= (larger(a.parts, b.parts) + 2real) * (a.scale + b.scale),
        size(a.exact + y) <= a.scale + b.scale,
{
    let m = a.scale;
    let n = b.scale;
    let k = a.parts;
    let l = b.parts;
    let j = larger(k, l);
    lemma_fine_around_size(a.got, a.exact, m, k);
    lemma_fine_around_size(b.got, b.exact, n, l);
    assert(k * m <= j * m) by (nonlinear_arith)
        requires
            k <= j,
            m >= 0real,
    ;
    assert(l * n <= j * n) by (nonlinear_arith)
        requires
            l <= j,
            n >= 0real,
    ;
    assert((j + 2real) * (m + n) == j * m + j * n + 2real * (m + n)) by (nonlinear_arith);
    lemma_fine_summed(a.got.amount(), a.exact, q, y, r, j * m, j * n, m, n);
}

/// The error of a rounded sum.
proof fn lemma_fine_summed(
    a: real,
    x: real,
    b: real,
    y: real,
    r: real,
    e: real,
    f: real,
    m: real,
    n: real,
)
    requires
        double_near(r, a + b),
        fine_off(a, x) <= e,
        fine_off(b, y) <= f,
        8192real * size(a) <= 8193real * m,
        8192real * size(b) <= 8193real * n,
        m >= 1real,
        n >= 1real,
    ensures
        fine_off(r, x + y) <= e + f + 2real * (m + n),
{
    lemma_double_tiny();
    assert(4503599627370496real * size(r - (a + b)) <= size(a) + size(b) + 1real / 4real);
}

/// An estimate holds of a larger scale and more parts.
pub proof fn lemma_fine_looser(a: FineEstimate, scale: real, parts: real)
    requires
        a.holds(),
        a.scale <= scale,
        a.parts <= parts,
    ensures
        fine_around(a.got, a.exact, scale, parts),
{
    let k = a.parts;
    let m = a.scale;
    assert(k * m <= parts * scale) by (nonlinear_arith)
        requires
            0real <= k <= parts,
            0real <= m <= scale,
    ;
}

/// A finite product of estimates.
pub proof fn lemma_fine_times(a: FineEstimate, b: FineEstimate)
    requires
        a.holds(),
        b.holds(),
        a.parts + b.parts <= 390real,
        a.times(b).got.is_finite(),
    ensures
        a.times(b).holds(),
{
    lemma_double_tiny();
    let m = a.scale;
    let n = b.scale;
    let k = a.parts;
    let l = b.parts;
    lemma_fine_around_size(a.got, a.exact, m, k);
    lemma_fine_around_size(b.got, b.exact, n, l);
    let p = a.got.amount();
    let q = b.got.amount();
    let mn = m * n;
    assert(1real <= mn) by (nonlinear_arith)
        requires
            mn == m * n,
            1real <= m,
            1real <= n,
    ;
    lemma_fine_multiplied(p, q, m, n);
    law_double_product_is_near(a.got, b.got);
    lemma_fine_multiplied(a.exact, b.exact, m, n);
    lemma_fine_product_error(p, a.exact, q, b.exact, m, n, k, l);
    assert((k + l + 2real) * mn == k * mn + l * mn + 2real * mn) by (nonlinear_arith);
}

/// A quotient times its divisor gives the dividend back.
pub proof fn law_fine_quotient_multiplies_back(a: Binary64, b: Binary64)
    requires
        a.is_finite(),
        b.is_finite(),
        b.amount() != 0real,
        a.div(b).is_finite(),
    ensures
        fine_off(a.div(b).amount() * b.amount(), a.amount()) <= size(a.amount()) + fine_dust() * size(
            b.amount(),
        ),
{
    law_double_quotient_is_near(a, b);
    lemma_double_tiny();
    let q = a.div(b).amount();
    let x = a.amount();
    let y = b.amount();
    let z = x / y;
    let d = q - z;
    assert(z * y == x && size(x) == size(z) * size(y) && size(q * y - x) == size(d) * size(y))
        by (nonlinear_arith)
        requires
            z == x / y,
            y != 0real,
            d == q - z,
    ;
    let t = 4503599627370496real * double_tiny();
    let u = size(d);
    let w = size(y);
    let v = size(z);
    assert(4503599627370496real * (u * w) <= v * w + fine_dust() * w) by (nonlinear_arith)
        requires
            4503599627370496real * u <= v + t,
            t <= fine_dust(),
            w >= 0real,
    ;
}

/// A quotient of an estimate times its divisor gives back what it stands for.
pub proof fn lemma_fine_quotient_of(e: FineEstimate, b: Binary64)
    requires
        e.holds(),
        b.is_finite(),
        b.amount() != 0real,
        e.got.div(b).is_finite(),
    ensures
        fine_off(e.got.div(b).amount() * b.amount(), e.exact) <= (e.parts + 2real) * e.scale + fine_dust()
            * size(b.amount()),
{
    let a = e.got;
    law_fine_quotient_multiplies_back(a, b);
    lemma_fine_around_size(a, e.exact, e.scale, e.parts);
    let got = a.div(b).amount() * b.amount();
        let (k, m) = (e.parts, e.scale);
    assert((k + 2real) * m == k * m + 2real * m) by (nonlinear_arith);
}

/// The size of a product.
proof fn lemma_fine_multiplied(p: real, q: real, m: real, n: real)
    requires
        8192real * size(p) <= 8193real * m,
        8192real * size(q) <= 8193real * n,
        m >= 1real,
        n >= 1real,
    ensures
        4096real * size(p * q) <= 4098real * (m * n),
        size(p) <= m && size(q) <= n ==> size(p * q) <= m * n,
{
    let a = size(p);
    let b = size(q);
    assert(size(p * q) == a * b) by (nonlinear_arith)
        requires
            a == size(p),
            b == size(q),
    ;
    assert(67108864real * (a * b) <= 67125249real * (m * n)) by (nonlinear_arith)
        requires
            0real <= 8192real * a <= 8193real * m,
            0real <= 8192real * b <= 8193real * n,
    ;
    assert(m * n >= 0real) by (nonlinear_arith)
        requires
            m >= 0real,
            n >= 0real,
    ;
    if a <= m && b <= n {
        assert(a * b <= m * n) by (nonlinear_arith)
            requires
                0real <= a <= m,
                0real <= b <= n,
        ;
    }
}

/// The error of a product of approximations.
proof fn lemma_fine_product_error(
    p: real,
    x: real,
    q: real,
    y: real,
    m: real,
    n: real,
    k: real,
    l: real,
)
    requires
        fine_off(p, x) <= k * m,
        fine_off(q, y) <= l * n,
        size(x) <= m,
        8192real * size(q) <= 8193real * n,
        1real <= m,
        1real <= n,
        0real <= k <= 400real,
        0real <= l,
    ensures
        fine_off(p * q, x * y) <= k * (m * n) + l * (m * n) + m * n / 16real,
{
    let f = 4503599627370496real;
    let d = p - x;
    let e = q - y;
    let mn = m * n;
    let u = size(d);
    let v = size(e);
    assert(p * q - x * y == d * q + x * e) by (nonlinear_arith)
        requires
            d == p - x,
            e == q - y,
    ;
    assert(size(d * q) == u * size(q) && size(x * e) == size(x) * v) by (nonlinear_arith)
        requires
            u == size(d),
            v == size(e),
    ;
    assert(f * (size(x) * v) <= l * mn) by (nonlinear_arith)
        requires
            f * v <= l * n,
            0real <= size(x) <= m,
            v >= 0real,
            l >= 0real,
            n >= 0real,
            mn == m * n,
            f == 4503599627370496real,
    ;
    let t = u * size(q);
    assert(mn >= 0real) by (nonlinear_arith)
        requires
            m >= 0real,
            n >= 0real,
            mn == m * n,
    ;
    assert(f * 8192real * t <= (k * m) * (8193real * n)) by (nonlinear_arith)
        requires
            0real <= f * u <= k * m,
            0real <= 8192real * size(q) <= 8193real * n,
            t == u * size(q),
            u >= 0real,
            f == 4503599627370496real,
    ;
    assert((k * m) * (8193real * n) == 8193real * (k * mn) && 0real <= k * mn <= 400real * mn)
        by (nonlinear_arith)
        requires
            mn == m * n,
            0real <= k <= 400real,
            mn >= 0real,
    ;
}

} // verus!
