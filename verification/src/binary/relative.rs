use vstd::prelude::*;

use crate::binary::error::law_product_is_near;
use crate::binary::error::lemma_tiny;
use crate::binary::error::near;
use crate::binary::error::nearly;
use crate::binary::error::size;
use crate::binary::error::tiny;
use crate::binary::single::Binary32;

verus! {

/// `got` is the positive number `exact` up to `k` parts in `2^23`.
pub open spec fn within(got: real, exact: real, k: real) -> bool {
    8388608real * size(got - exact) <= k * exact
}

/// A bound that is far above the smallest number: `2^-120`.
pub open spec fn dust() -> real {
    1real / 1329227995784915872903807060280344576real
}

/// The unit is far below the bound.
pub proof fn lemma_dust()
    ensures
        0real < tiny(),
        16real * (8388608real * tiny()) <= dust(),
        0real < dust(),
{
    lemma_tiny();
}

/// A rounded product of approximations.
pub proof fn lemma_within_product(
    a: real,
    ax: real,
    j: real,
    b: real,
    bx: real,
    k: real,
    r: real,
)
    requires
        within(a, ax, j),
        within(b, bx, k),
        nearly(r, a * b),
        0real <= j <= 64real,
        0real <= k <= 64real,
        ax > 0real,
        bx > 0real,
        ax * bx >= dust(),
    ensures
        within(r, ax * bx, j + k + 2real),
{
    lemma_dust();
    let e = ax * bx;
    let f = 8388608real;
    assert(f * size(a * b - e) <= (j + k) * e + e / 1024real) by (nonlinear_arith)
        requires
            f * size(a - ax) <= j * ax,
            f * size(b - bx) <= k * bx,
            0real <= j <= 64real,
            0real <= k <= 64real,
            ax > 0real,
            bx > 0real,
            e == ax * bx,
            f == 8388608real,
    ;
    assert((j + k) * e >= 0real && (j + k) * e <= 128real * e && (j + k + 2real) * e == (j + k) * e
        + 2real * e) by (nonlinear_arith)
        requires
            0real <= j <= 64real,
            0real <= k <= 64real,
            e > 0real,
    ;
}

/// A rounded quotient of approximations.
pub proof fn lemma_within_quotient(
    a: real,
    ax: real,
    j: real,
    b: real,
    bx: real,
    k: real,
    r: real,
)
    requires
        within(a, ax, j),
        within(b, bx, k),
        nearly(r, a / b),
        0real <= j <= 64real,
        0real <= k <= 64real,
        ax > 0real,
        bx > 0real,
        ax / bx >= dust(),
    ensures
        within(r, ax / bx, j + k + 2real),
        b > 0real,
{
    lemma_dust();
    let e = ax / bx;
    let f = 8388608real;
    assert(e * bx == ax) by (nonlinear_arith)
        requires
            e == ax / bx,
            bx > 0real,
    ;
    assert(f * b >= 8388544real * bx) by (nonlinear_arith)
        requires
            f * size(b - bx) <= k * bx,
            k <= 64real,
            bx > 0real,
            f == 8388608real,
    ;
    let q = a / b;
    assert(q * b == a) by (nonlinear_arith)
        requires
            q == a / b,
            b > 0real,
    ;
    assert(f * size((q - e) * b) <= (j + k) * (e * bx)) by (nonlinear_arith)
        requires
            q * b == a,
            e * bx == ax,
            f * size(a - ax) <= j * ax,
            f * size(b - bx) <= k * bx,
            e > 0real,
            f == 8388608real,
    ;
    let t = (j + k) * e;
    assert((j + k) * (e * bx) == t * bx && 0real <= t <= 128real * e) by (nonlinear_arith)
        requires
            t == (j + k) * e,
            0real <= j <= 64real,
            0real <= k <= 64real,
            e > 0real,
    ;
    assert(f * size(q - e) <= t + t / 1024real) by (nonlinear_arith)
        requires
            f * size((q - e) * b) <= t * bx,
            f * b >= 8388544real * bx,
            f == 8388608real,
            bx > 0real,
            t >= 0real,
    ;
    assert((j + k + 2real) * e == t + 2real * e) by (nonlinear_arith)
        requires
            t == (j + k) * e,
    ;
}

/// A rounded sum of approximations, each of which may be off by dust besides.
pub proof fn lemma_within_sum(a: real, ax: real, b: real, bx: real, k: real, r: real, z: real)
    requires
        8388608real * size(a - ax) <= k * ax + z,
        8388608real * size(b - bx) <= k * bx + z,
        near(r, a + b),
        0real <= k <= 64real,
        ax >= 0real,
        bx >= 0real,
        0real <= 8real * z <= ax + bx,
    ensures
        within(r, ax + bx, k + 2real),
{
    let e = ax + bx;
    assert(k * ax + k * bx == k * e && (k + 2real) * e == k * e + 2real * e && 0real <= k * e
        <= 64real * e) by (nonlinear_arith)
        requires
            e == ax + bx,
            0real <= k <= 64real,
            e >= 0real,
    ;
}

/// A finite number between `2^-30` and `2^30`.
pub open spec fn is_ordinary(a: Binary32) -> bool {
    &&& a.is_finite()
    &&& 1real <= 1073741824real * a.amount()
    &&& a.amount() <= 1073741824real
}

/// The product of two ordinary numbers.
pub proof fn lemma_ordinary_product(a: Binary32, b: Binary32)
    requires
        is_ordinary(a),
        is_ordinary(b),
    ensures
        a.mul(b).is_finite(),
        within(a.mul(b).amount(), a.amount() * b.amount(), 2real),
        1real <= 1152921504606846976real * (a.amount() * b.amount()),
        a.amount() * b.amount() <= 1152921504606846976real,
{
    let x = a.amount();
    let y = b.amount();
    assert(1real <= 1152921504606846976real * (x * y) && x * y <= 1152921504606846976real)
        by (nonlinear_arith)
        requires
            1real <= 1073741824real * x,
            x <= 1073741824real,
            1real <= 1073741824real * y,
            y <= 1073741824real,
    ;
    law_product_is_near(a, b);
    lemma_within_product(x, x, 0real, y, y, 0real, a.mul(b).amount());
}

} // verus!
