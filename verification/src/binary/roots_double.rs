use vstd::arithmetic::power2::lemma2_to64;
use vstd::arithmetic::power2::lemma_pow2_adds;
use vstd::arithmetic::power2::lemma_pow2_pos;
use vstd::arithmetic::power2::lemma_pow2_strictly_increases;
use vstd::arithmetic::power2::pow2;
use vstd::prelude::*;

use crate::binary::arith::root_of;
use crate::binary::around_double::fine_off;
use crate::binary::double::Binary64;
use crate::binary::double::lemma_double_constants;
use crate::binary::error::lemma_product_of_reals;
use crate::binary::error_double::double_units;
use crate::binary::error_double::lemma_double_amount;
use crate::binary::error_double::lemma_double_tiny;
use crate::binary::exact::Exact;
use crate::binary::exact::lemma_mag_increases;
use crate::binary::exact::lemma_mag_next;
use crate::binary::exact::lemma_mag_of_parts;
use crate::binary::exact::lemma_parts_of;
use crate::binary::exact::mag;
use crate::binary::exact::nearest;
use crate::binary::exact::rounds_to;
use crate::binary::exact::sig_of;
use crate::binary::exact::step_of;
use crate::binary::number::Num;
use crate::binary::number::root;
use crate::binary::order::lemma_format_bounds;
use crate::binary::order::lemma_nearest_is_attained;
use crate::binary::round::double;

verus! {

/// Squares of the midpoints next to a magnitude differ from its square by a part in `2^52`.
proof fn lemma_fine_midpoint_squares(m: int, s: int, r: int)
    requires
        s > 0,
        0x10_0000_0000_0000 * s <= m,
        4 * r <= (2 * m + s) * (2 * m + s),
        (2 * m - s) * (2 * m - s) <= 4 * r,
    ensures
        0x10_0000_0000_0000 * (m * m - r) <= 2 * r,
        0x10_0000_0000_0000 * (r - m * m) <= 2 * r,
{
    let w = m * s;
    let q = m * m;
    assert((2 * m + s) * (2 * m + s) == 4 * q + 4 * w + s * s) by (nonlinear_arith)
        requires
            w == m * s,
            q == m * m,
    ;
    assert((2 * m - s) * (2 * m - s) == 4 * q - 4 * w + s * s) by (nonlinear_arith)
        requires
            w == m * s,
            q == m * m,
    ;
    assert(0x10_0000_0000_0000 * w <= q) by (nonlinear_arith)
        requires
            0x10_0000_0000_0000 * s <= m,
            s > 0,
            w == m * s,
            q == m * m,
    ;
    assert(0 <= 0x10_0000_0000_0000 * (s * s) <= w) by (nonlinear_arith)
        requires
            0x10_0000_0000_0000 * s <= m,
            s > 0,
            w == m * s,
    ;
}

/// The error of a rounded root, and that it is a normal number.
proof fn lemma_fine_root_error(r: nat, j: nat)
    requires
        rounds_to(52, double().kinf(), (Exact::Root { radicand: r }), j),
        pow2(1074) <= r <= pow2(3172),
    ensures
        0x10_0000_0000_0000 <= j < double().kinf(),
        0x10_0000_0000_0000 * (mag(52, j) * mag(52, j) - r) <= 2 * r,
        0x10_0000_0000_0000 * (r - mag(52, j) * mag(52, j)) <= 2 * r,
{
    lemma_double_constants();
    lemma_pow2_pos(52);
    lemma_pow2_adds(537, 537);
    lemma_pow2_strictly_increases(64, 537);
    lemma2_to64();
    let x = Exact::Root { radicand: r };
    let top = double().kinf();
    if j == top {
        lemma_mag_of_parts(52, 2045, pow2(52));
        lemma_mag_of_parts(52, 2046, pow2(52));
        lemma_pow2_adds(52, 2045);
        lemma_pow2_adds(52, 2046);
        lemma_mag_increases(52, 0x7fe0_0000_0000_0000, 0x7fef_ffff_ffff_ffff);
        lemma_pow2_strictly_increases(2097, 2098);
        lemma_pow2_pos(2097);
        lemma_pow2_adds(2097, 2097);
        lemma_pow2_adds(2, 3172);
        lemma_pow2_strictly_increases(3174, 4194);
        let a = (mag(52, 0x7fef_ffff_ffff_ffff) + mag(52, 0x7ff0_0000_0000_0000)) as int;
        let c = pow2(2097) as int;
        assert(a * a > c * c) by (nonlinear_arith)
            requires
                a > c,
                c > 0,
        ;
    } else {
        lemma_mag_next(52, j);
        lemma_parts_of(52, j);
        let u = step_of(52, j);
        let s = pow2(u) as int;
        let m = mag(52, j) as int;
        if j < 0x10_0000_0000_0000 {
            assert(pow2(0) == 1);
            let h = 2 * m + s;
            assert(h * h <= 0x20_0000_0000_0000 * 0x20_0000_0000_0000) by (nonlinear_arith)
                requires
                    0 <= h <= 0x20_0000_0000_0000,
            ;
            let c = pow2(537) as int;
            let d = pow2(537) as int;
            assert(c * d >= 0x1_0000_0000_0000_0000 * 0x1_0000_0000_0000_0000) by (nonlinear_arith)
                requires
                    c >= 0x1_0000_0000_0000_0000,
                    d >= 0x1_0000_0000_0000_0000,
            ;
            assert(false);
        }
        let q = sig_of(52, j) as int;
        assert(s * 0x10_0000_0000_0000 <= m) by (nonlinear_arith)
            requires
                m == q * s,
                q >= 0x10_0000_0000_0000,
                s > 0,
        ;
        lemma_mag_next(52, (j - 1) as nat);
        lemma_parts_of(52, (j - 1) as nat);
        let w = step_of(52, (j - 1) as nat);
        assert(w <= u) by {
            if w > u {
                assert(w * pow2(52) >= (u + 1) * pow2(52)) by (nonlinear_arith)
                    requires
                        w >= u + 1,
                ;
                assert((u + 1) * pow2(52) == u * pow2(52) + pow2(52)) by (nonlinear_arith);
            }
        }
        if w < u {
            lemma_pow2_strictly_increases(w, u);
        }
        let t = pow2(w) as int;
        assert((2 * m - s) * (2 * m - s) <= (2 * m - t) * (2 * m - t)) by (nonlinear_arith)
            requires
                0 < t <= s,
                s <= 2 * m,
        ;
        lemma_fine_midpoint_squares(m, s, r as int);
    }
}

/// A root is a positive number whose square is the radicand up to two parts in `2^52`.
pub proof fn law_double_root_is_near(a: Binary64)
    requires
        a.is_finite(),
        a.gt(Binary64::zero()),
    ensures
        a.sqrt().is_finite(),
        a.sqrt().gt(Binary64::zero()),
        a.sqrt().amount() > 0real,
        fine_off(a.sqrt().amount() * a.sqrt().amount(), a.amount()) <= 2real * a.amount(),
{
    reveal(Binary64::spec_sqrt);
    lemma_double_constants();
    lemma_format_bounds(double());
    lemma_pow2_pos(52);
    let f = double();
    let k = a.num().k as nat;
    let ex = root_of(f, k);
    let j = nearest(52, f.kinf(), ex);
    lemma_nearest_is_attained(52, f.kinf(), ex);
    lemma_mag_increases(52, 0, k);
    lemma_mag_increases(52, k, 0x7ff0_0000_0000_0000);
    lemma_mag_of_parts(52, 2046, pow2(52));
    lemma_pow2_adds(52, 2046);
    lemma_pow2_adds(2098, 1074);
    lemma_pow2_pos(1074);
    let v = mag(52, k) as int;
    let d = pow2(1074) as int;
    assert(mag(52, 0) == 0);
    assert(v >= 1);
    assert(d <= v * d <= pow2(2098) * d) by (nonlinear_arith)
        requires
            1 <= v <= pow2(2098),
            d > 0,
    ;
    lemma_fine_root_error((v * d) as nat, j);
    let g = a.sqrt();
    assert(g.num() == (Num { neg: false, k: j as u64 }));
    lemma_mag_increases(52, 0, j);
    lemma_double_amount(a);
    lemma_double_amount(g);
    lemma_double_tiny();
    let m = mag(52, j) as int;
    let e = double_units();
    let x = a.amount();
    let y = g.amount();
    lemma_product_of_reals(m, m);
    lemma_product_of_reals(v, d);
    let mm = m as real;
    let vr = v as real;
    assert((y * y) * (e * e) == mm * mm && x * (e * e) == vr * e) by (nonlinear_arith)
        requires
            y * e == mm,
            x * e == vr,
    ;
    let z = y * y;
    assert(4503599627370496real * (mm * mm - vr * e) <= 2real * (vr * e));
    assert(4503599627370496real * (vr * e - mm * mm) <= 2real * (vr * e));
    let w = e * e;
    assert(4503599627370496real * (z - x) <= 2real * x && 4503599627370496real * (x - z) <= 2real * x)
        by (nonlinear_arith)
        requires
            z * w == mm * mm,
            x * w == vr * e,
            4503599627370496real * (mm * mm - vr * e) <= 2real * (vr * e),
            4503599627370496real * (vr * e - mm * mm) <= 2real * (vr * e),
            w == e * e,
            e > 0real,
    ;
}

} // verus!
