use vstd::prelude::*;

use crate::binary::error::huge;
use crate::binary::error::law_difference_is_near;
use crate::binary::error::law_order_of_amounts;
use crate::binary::error::law_product_is_near;
use crate::binary::error::law_quotient_is_near;
use crate::binary::error::law_sum_is_near;
use crate::binary::error::lemma_constant_amounts;
use crate::binary::error::lemma_tiny;
use crate::binary::error::lemma_unit_is_small;
use crate::binary::error::near;
use crate::binary::error::nearly;
use crate::binary::error::off;
use crate::binary::error::size;
use crate::binary::error::tiny;
use crate::binary::laws::law_addition_commutes;
use crate::binary::laws::law_clamp_is_bounded;
use crate::binary::laws::law_difference_is_not_negative;
use crate::binary::laws::law_doubling_is_positive;
use crate::binary::laws::law_finite_difference_is_a_number;
use crate::binary::laws::law_finite_product_is_a_number;
use crate::binary::laws::law_finite_quotient_is_a_number;
use crate::binary::laws::law_multiplication_commutes;
use crate::binary::laws::law_non_negative_steps;
use crate::binary::laws::law_subtraction_is_monotone;
use crate::binary::laws::law_sum_with_finite_is_a_number;
use crate::binary::single::Binary32;
use crate::binary::single::half;
use crate::binary::single::lemma_single_constants;
use crate::binary::single::two;
use crate::cavitating_eos::C1Patch;
use crate::cavitating_eos::law_patch_slope_is_bounded;
use crate::cavitating_eos::law_patch_starts_at_its_left_end;
use crate::mechanics::EPSILON;

verus! {

/// A bound on slopes and widths: `2^30`.
pub open spec fn large() -> real {
    1073741824real
}

/// The rounded product of a rounded slope range and a distance.
proof fn lemma_gain_first(a: real, ax: real, h: real, y: real, m: real)
    requires
        near(a, ax),
        nearly(h, a * y),
        size(ax) <= m,
        0real <= y <= 2real * large(),
        0real <= m <= 2real * large(),
    ensures
        off(h, ax * y) <= 3real * (m * y) + 8388608real * tiny(),
        size(h) <= 2real * (m * y) + tiny(),
{
    lemma_tiny();
    assert(8388608real * size(a * y - ax * y) <= m * y) by (nonlinear_arith)
        requires
            8388608real * size(a - ax) <= m,
            y >= 0real,
    ;
    assert(8388608real * size(a * y) <= 8388609real * (m * y)) by (nonlinear_arith)
        requires
            8388608real * size(a - ax) <= m,
            size(ax) <= m,
            y >= 0real,
    ;
    assert(m * y >= 0real) by (nonlinear_arith)
        requires
            m >= 0real,
            y >= 0real,
    ;
}

/// The square of the distance in it.
proof fn lemma_gain_second(ax: real, h: real, g: real, y: real, m: real)
    requires
        off(h, ax * y) <= 3real * (m * y) + 8388608real * tiny(),
        size(h) <= 2real * (m * y) + tiny(),
        nearly(g, h * y),
        0real <= y <= 2real * large(),
        0real <= m <= 2real * large(),
    ensures
        off(g, ax * y * y) <= 6real * (m * y * y) + 8388608real * tiny() * (1real + 2real * y),
{
    lemma_tiny();
    let t = tiny();
    let s = 8388608real * tiny();
    assert(8388608real * size(h * y - ax * y * y) <= 3real * (m * y * y) + s * y)
        by (nonlinear_arith)
        requires
            8388608real * size(h - ax * y) <= 3real * (m * y) + s,
            y >= 0real,
    ;
    assert(size(h * y) <= 2real * (m * y * y) + t * y) by (nonlinear_arith)
        requires
            size(h) <= 2real * (m * y) + t,
            y >= 0real,
    ;
    assert(m * y * y >= 0real && t * y >= 0real && s * y >= t * y) by (nonlinear_arith)
        requires
            m >= 0real,
            y >= 0real,
            t > 0real,
            s == 8388608real * t,
    ;
    assert(s * (1real + 2real * y) == s + 2real * (s * y)) by (nonlinear_arith);
}

/// The quotient by twice the ramp.
proof fn lemma_gain_third(ax: real, g: real, k: real, k2: real, r: real, y: real, m: real, z: real)
    requires
        off(g, ax * y * y) <= 6real * (m * y * y) + 8388608real * tiny() * (1real + 2real * y),
        size(ax) <= m,
        nearly(k2, 2real * k),
        nearly(r, g / k2),
        0real <= y <= 2real * large(),
        0real <= m <= 2real * large(),
        1real <= 8388608real * k,
        z * (2real * k) == y * y,
    ensures
        off(r, ax * z) <= 18real * (m * z) + 1real,
        z >= 0real,
{
    lemma_unit_is_small();
    let t = tiny();
    let s = 8388608real * t;
    let q = g / k2;
    let d = 2real * k;
    assert(8388607real * d <= 8388608real * k2 + 1real && 8388608real * k2 <= 8388610real * d) by {
        assert(s <= d);
    }
    assert(k2 > 0real && 2real * k2 >= d);
    assert(q * k2 == g) by (nonlinear_arith)
        requires
            q == g / k2,
            k2 > 0real,
    ;
    assert(z >= 0real && m * z >= 0real && m * y * y == (m * z) * d && ax * y * y == (ax * z) * d)
        by (nonlinear_arith)
        requires
            z * d == y * y,
            d > 0real,
            m >= 0real,
    ;
    // what one unit amounts to after the division
    let w = s * (1real + 2real * y);
    assert(w <= d / 4real) by (nonlinear_arith)
        requires
            w == s * (1real + 2real * y),
            151115727451828646838272real * s <= 1real,
            s > 0real,
            0real <= y <= 2147483648real,
            1real <= 8388608real * k,
            d == 2real * k,
    ;
    // the quotient of what was computed against the quotient meant
    assert(8388608real * size(g - ax * z * d) <= 6real * ((m * z) * d) + d / 4real);
    assert(size(ax * z) <= m * z) by (nonlinear_arith)
        requires
            size(ax) <= m,
            z >= 0real,
    ;
    let e = q - ax * z;
    assert(8388608real * size(e * k2) <= 6real * ((m * z) * d) + d / 4real + (m * z) * (2real * d))
        by (nonlinear_arith)
        requires
            e == q - ax * z,
            q * k2 == g,
            8388608real * size(g - ax * z * d) <= 6real * ((m * z) * d) + d / 4real,
            size(ax * z) <= m * z,
            8388608real * size(k2 - d) <= 2real * d,
            m * z >= 0real,
            d > 0real,
    ;
    assert(8388608real * size(e) <= 16real * (m * z) + 1real / 2real) by (nonlinear_arith)
        requires
            8388608real * size(e * k2) <= 6real * ((m * z) * d) + d / 4real + (m * z) * (2real * d),
            2real * k2 >= d,
            d > 0real,
            m * z >= 0real,
    ;
}

/// The error of a rounded sum.
proof fn lemma_sum_off(a: real, ax: real, b: real, bx: real, r: real)
    requires
        near(r, a + b),
    ensures
        8388608real * off(r, ax + bx) <= 8388609real * (off(a, ax) + off(b, bx)) + 8388608real * (
        size(ax) + size(bx)),
{
}

impl C1Patch {
    /// The patch has a width, is finite, rises, and is not so large or steep that its
    /// pressure overflows.
    pub open spec fn is_moderate(&self) -> bool {
        &&& self.rho_left.is_finite()
        &&& self.width.is_finite() && 0real < self.width.amount() <= large()
        &&& self.m0.is_finite() && 0real <= self.m0.amount() <= large()
        &&& self.m1.is_finite() && 0real <= self.m1.amount() <= large()
        &&& self.p0.is_finite() && size(self.p0.amount()) <= large() * large()
        &&& self.p1.is_finite() && size(self.p1.amount()) <= large() * large()
    }

    /// What the rounding of a pressure is measured by: the slopes over the width.
    pub open spec fn scale(&self) -> real {
        (self.m0.amount() + self.m1.amount() + 1real) * (1real + self.width.amount()) * (1real
            + self.width.amount())
    }

    /// The length that a ramp of length `l` is divided by.
    pub open spec fn divisor(&self, l: Binary32) -> real {
        l.max(Binary32::from_bits(EPSILON)).amount()
    }

    /// The pressure that is meant at distance `x`, for a ramp of length `l`.
    pub open spec fn meant(&self, x: Binary32, l: Binary32, at_start: bool) -> real {
        let p = self.p0.amount();
        let m = self.m0.amount();
        let rise = self.m1.amount() - self.m0.amount();
        let d = 2real * self.divisor(l);
        if at_start {
            if x.le(l) {
                p + m * x.amount() + rise * (x.amount() * x.amount() / d)
            } else {
                p + m * l.amount() + rise * l.amount() / 2real + self.m1.amount() * (x.amount()
                    - l.amount())
            }
        } else if x.le(self.width.sub(l)) {
            p + m * x.amount()
        } else {
            let y = x.sub(self.width.sub(l)).amount();
            p + m * x.amount() + rise * (y * y / d)
        }
    }
}

/// What a ramp adds is rounded little.
proof fn lemma_gain_is_near(patch: C1Patch, y: Binary32, l: Binary32)
    requires
        patch.is_moderate(),
        y.is_finite(),
        l.is_finite(),
        0real <= y.amount() <= 2real * large(),
        l.amount() <= large(),
    ensures
        ({
            let d = 2real * patch.divisor(l);
            let rise = patch.m1.amount() - patch.m0.amount();
            let z = y.amount() * y.amount() / d;
            let m = patch.m0.amount() + patch.m1.amount();
            &&& 4194304real * d >= 1real
            &&& patch.divisor(l) >= l.amount()
            &&& z >= 0real
            &&& z * d == y.amount() * y.amount()
            &&& patch.ramp_gain(y, l).is_finite()
            &&& off(patch.ramp_gain(y, l).amount(), rise * z) <= 18real * (m * z) + 1real
        }),
{
    lemma_single_constants();
    lemma_constant_amounts();
    lemma_unit_is_small();
    let eps = Binary32::from_bits(EPSILON);
    law_order_of_amounts(l, eps);
    law_order_of_amounts(eps, l);
    let k = l.max(eps);
    let m = patch.m0.amount() + patch.m1.amount();
    let rise = patch.m1.amount() - patch.m0.amount();
    let x = y.amount();
    let a = patch.m1.sub(patch.m0);
    law_difference_is_near(patch.m1, patch.m0);
    assert(size(a.amount() * x) <= huge()) by (nonlinear_arith)
        requires
            size(a.amount()) <= 4294967296real,
            0real <= x <= 2147483648real,
    ;
    law_product_is_near(a, y);
    let h = a.mul(y);
    lemma_gain_first(a.amount(), rise, h.amount(), x, m);
    assert(m * x <= 4611686018427387904real && m * x >= 0real) by (nonlinear_arith)
        requires
            0real <= m <= 2147483648real,
            0real <= x <= 2147483648real,
    ;
    assert(size(h.amount() * x) <= huge() / 67108864real) by (nonlinear_arith)
        requires
            size(h.amount()) <= 9223372036854775809real,
            0real <= x <= 2147483648real,
    ;
    law_product_is_near(h, y);
    let g = h.mul(y);
    lemma_gain_second(rise, h.amount(), g.amount(), x, m);
    law_product_is_near(two(), k);
    let k2 = two().mul(k);
    let q = g.amount() / k2.amount();
    let d = 2real * k.amount();
    assert(size(q) <= huge()) by (nonlinear_arith)
        requires
            q == g.amount() / k2.amount(),
            k2.amount() >= 1real / 8388608real,
            size(g.amount()) <= huge() / 33554432real,
    ;
    law_quotient_is_near(g, k2);
    let z = x * x / d;
    assert(z * d == x * x) by (nonlinear_arith)
        requires
            z == x * x / d,
            d > 0real,
    ;
    lemma_gain_third(
        rise,
        g.amount(),
        k.amount(),
        k2.amount(),
        patch.ramp_gain(y, l).amount(),
        x,
        m,
        z,
    );
}

/// The products that bound a pressure are below the scale of its patch.
proof fn lemma_scale(patch: C1Patch, x: real)
    requires
        patch.is_moderate(),
        0real <= x <= patch.width.amount(),
    ensures
        ({
            let m = patch.m0.amount() + patch.m1.amount();
            &&& 0real <= patch.m0.amount() * x
            &&& 0real <= patch.m1.amount() * x
            &&& patch.m0.amount() * x <= m * x
            &&& patch.m1.amount() * x <= m * x
            &&& m * x <= patch.scale()
            &&& m * x <= 4611686018427387904real
            &&& 1real <= patch.scale()
            &&& m <= patch.scale()
        }),
{
    let w = patch.width.amount();
    let a = patch.m0.amount();
    let b = patch.m1.amount();
    let m = a + b;
    assert(0real <= a * x <= m * x && 0real <= b * x <= m * x && m * x <= m * w && m * w
        <= 4611686018427387904real) by (nonlinear_arith)
        requires
            0real <= a <= 1073741824real,
            0real <= b <= 1073741824real,
            m == a + b,
            0real <= x <= w,
            w <= 1073741824real,
    ;
    let s = patch.scale();
    assert(m * w <= s && 1real <= s && m <= s) by (nonlinear_arith)
        requires
            s == (m + 1real) * (1real + w) * (1real + w),
            m >= 0real,
            w >= 0real,
    ;
}

/// The left pressure and the left slope over a distance.
proof fn lemma_base_is_near(patch: C1Patch, x: Binary32)
    requires
        patch.is_moderate(),
        x.is_finite(),
        0real <= x.amount() <= patch.width.amount(),
    ensures
        ({
            let c = patch.p0.add(patch.m0.mul(x));
            &&& c.is_finite()
            &&& off(c.amount(), patch.p0.amount() + patch.m0.amount() * x.amount()) <= size(
                patch.p0.amount(),
            ) + 3real * (patch.m0.amount() * x.amount()) + 1real
        }),
{
    lemma_unit_is_small();
    lemma_scale(patch, x.amount());
    law_product_is_near(patch.m0, x);
    law_sum_is_near(patch.p0, patch.m0.mul(x));
}

/// A pressure is what is meant up to rounding: a few parts in `2^23` of the left pressure
/// and of the slopes over the width.
proof fn lemma_pressure_is_near(patch: C1Patch, x: Binary32, l: Binary32, at_start: bool)
    requires
        patch.is_moderate(),
        x.is_finite(),
        l.is_finite(),
        0real <= x.amount() <= patch.width.amount(),
        0real <= l.amount() <= patch.width.amount(),
    ensures
        patch.value_on_ramp(x, l, at_start).is_finite(),
        off(patch.value_on_ramp(x, l, at_start).amount(), patch.meant(x, l, at_start)) <= 4real
            * size(patch.p0.amount()) + 32real * patch.scale(),
{
    lemma_single_constants();
    lemma_constant_amounts();
    lemma_unit_is_small();
    law_order_of_amounts(x, l);
    let w = patch.width.amount();
    let m = patch.m0.amount() + patch.m1.amount();
    let rise = patch.m1.amount() - patch.m0.amount();
    let p = patch.p0.amount();
    let k = patch.divisor(l);
    lemma_scale(patch, x.amount());
    lemma_scale(patch, l.amount());
    lemma_base_is_near(patch, x);
    if at_start && x.le(l) {
        lemma_gain_is_near(patch, x, l);
        let z = x.amount() * x.amount() / (2real * k);
        assert(2real * z <= x.amount()) by (nonlinear_arith)
            requires
                z * (2real * k) == x.amount() * x.amount(),
                0real <= x.amount() <= k,
                k > 0real,
        ;
        assert((1real + w) * (1real + w) >= w) by (nonlinear_arith)
            requires
                w >= 0real,
        ;
        lemma_with_gain(patch, x, patch.ramp_gain(x, l), z);
    } else if at_start {
        lemma_base_is_near(patch, l);
        lemma_tail_is_near(patch, x, l);
    } else {
        law_difference_is_near(patch.width, l);
        let f = patch.width.sub(l);
        law_order_of_amounts(x, f);
        if !x.le(f) {
            law_difference_is_near(x, f);
            let y = x.sub(f);
            lemma_gain_is_near(patch, y, l);
            let z = y.amount() * y.amount() / (2real * k);
            lemma_late_gain(w, l.amount(), f.amount(), x.amount(), y.amount(), k, z);
            lemma_with_gain(patch, x, patch.ramp_gain(y, l), z);
        }
    }
}

/// A gain that is bounded by the width adds little rounding.
proof fn lemma_with_gain(patch: C1Patch, x: Binary32, gain: Binary32, z: real)
    requires
        patch.is_moderate(),
        x.is_finite(),
        0real <= x.amount() <= patch.width.amount(),
        gain.is_finite(),
        0real <= z,
        z <= (1real + patch.width.amount()) * (1real + patch.width.amount()),
        off(gain.amount(), (patch.m1.amount() - patch.m0.amount()) * z) <= 18real * ((
        patch.m0.amount() + patch.m1.amount()) * z) + 1real,
    ensures
        ({
            let r = patch.p0.add(patch.m0.mul(x)).add(gain);
            let exact = patch.p0.amount() + patch.m0.amount() * x.amount() + (patch.m1.amount()
                - patch.m0.amount()) * z;
            &&& r.is_finite()
            &&& off(r.amount(), exact) <= 4real * size(patch.p0.amount()) + 32real * patch.scale()
        }),
{
    lemma_unit_is_small();
    let w = patch.width.amount();
    let a = patch.m0.amount();
    let b = patch.m1.amount();
    let m = a + b;
    let rise = b - a;
    let p = patch.p0.amount();
    let s = patch.scale();
    lemma_scale(patch, x.amount());
    lemma_base_is_near(patch, x);
    assert(size(rise * z) <= m * z && 0real <= m * z && m * z + z <= s) by (nonlinear_arith)
        requires
            0real <= a,
            0real <= b,
            m == a + b,
            rise == b - a,
            0real <= z <= (1real + w) * (1real + w),
            s == (m + 1real) * (1real + w) * (1real + w),
    ;
    assert(s <= 4951760157141521099596496896real) by (nonlinear_arith)
        requires
            s == (m + 1real) * (1real + w) * (1real + w),
            0real <= m <= 2147483648real,
            0real <= w <= 1073741824real,
    ;
    let c = patch.p0.add(patch.m0.mul(x));
    law_sum_is_near(c, gain);
    lemma_sum_off(c.amount(), p + a * x.amount(), gain.amount(), rise * z, c.add(gain).amount());
}

/// The part of a late ramp that a density has passed.
proof fn lemma_late_gain(w: real, l: real, f: real, x: real, y: real, k: real, z: real)
    requires
        0real <= l <= w,
        near(f, w - l),
        f < x <= w,
        near(y, x - f),
        k >= l,
        8388608real * k >= 1real,
        z * (2real * k) == y * y,
    ensures
        0real <= y,
        4194304real * y <= 4194305real * (x - f),
        8388608real * (x - f) <= 8388608real * l + w,
        0real <= z,
        z <= (1real + w) * (1real + w),
{
    let e = w / 8388608real;
    assert(x - f <= l + e);
    assert(y <= (l + e) * 2real);
    assert(8388608real * y <= 8388609real * (l + e));
    let r = l + e;
    // y^2 / 2k with y close to l + e, k >= l and k >= 2^-23
    assert(z >= 0real) by (nonlinear_arith)
        requires
            z * (2real * k) == y * y,
            k > 0real,
    ;
    assert(y * y <= 2real * (r * r)) by (nonlinear_arith)
        requires
            0real <= y,
            8388608real * y <= 8388609real * r,
    ;
    assert(r * r <= 2real * (l * l) + 2real * (e * e)) by (nonlinear_arith)
        requires
            r == l + e,
    ;
    assert(l * l <= l * k && 8388608real * (e * e) <= (w * w) * k) by (nonlinear_arith)
        requires
            0real <= l <= k,
            8388608real * e == w,
            8388608real * k >= 1real,
    ;
    assert((w * w) * k >= 0real) by (nonlinear_arith)
        requires
            k >= 0real,
    ;
    assert(z <= 2real * l + w * w && w * w >= 0real) by (nonlinear_arith)
        requires
            z * (2real * k) <= 4real * (l * k) + (w * w) * k,
            k > 0real,
    ;
    assert((1real + w) * (1real + w) == 1real + 2real * w + w * w) by (nonlinear_arith);
}

/// The pressure beyond a ramp at the left end is rounded little.
proof fn lemma_tail_is_near(patch: C1Patch, x: Binary32, l: Binary32)
    requires
        patch.is_moderate(),
        x.is_finite(),
        l.is_finite(),
        0real <= l.amount() < x.amount(),
        x.amount() <= patch.width.amount(),
    ensures
        ({
            let r = patch.p0.add(patch.m0.mul(l)).add(patch.m1.sub(patch.m0).mul(l).mul(half())).add(
                patch.m1.mul(x.sub(l)),
            );
            let exact = patch.p0.amount() + patch.m0.amount() * l.amount() + (patch.m1.amount()
                - patch.m0.amount()) * l.amount() / 2real + patch.m1.amount() * (x.amount()
                - l.amount());
            &&& r.is_finite()
            &&& off(r.amount(), exact) <= 4real * size(patch.p0.amount()) + 32real * patch.scale()
        }),
{
    lemma_unit_is_small();
    let a = patch.m0.amount();
    let b = patch.m1.amount();
    let m = a + b;
    let p = patch.p0.amount();
    let t = l.amount();
    let s = patch.scale();
    lemma_scale(patch, x.amount());
    lemma_scale(patch, t);
    lemma_scale(patch, x.amount() - t);
    lemma_base_is_near(patch, l);
    let c = patch.p0.add(patch.m0.mul(l));
    lemma_half_rise(patch, l);
    let q = patch.m1.sub(patch.m0).mul(l).mul(half());
    lemma_rest_of_the_way(patch, x, l);
    let e = patch.m1.mul(x.sub(l));
    let dist = x.amount() - t;
    lemma_small_enough(p, a * t, (b - a) * t / 2real, b * dist, m * t, m * dist);
    law_sum_is_near(c, q);
    lemma_sum_off(c.amount(), p + a * t, q.amount(), (b - a) * t / 2real, c.add(q).amount());
    let first = off(c.add(q).amount(), p + a * t + (b - a) * t / 2real);
    assert(first <= 3real * size(p) + 9real * (m * t) + 4real);
    law_sum_is_near(c.add(q), e);
    lemma_sum_off(
        c.add(q).amount(),
        p + a * t + (b - a) * t / 2real,
        e.amount(),
        b * dist,
        c.add(q).add(e).amount(),
    );
}

/// Sizes that do not overflow.
proof fn lemma_small_enough(p: real, x: real, y: real, z: real, v: real, w: real)
    requires
        size(p) <= large() * large(),
        0real <= x <= v,
        size(y) <= v,
        0real <= z <= w,
        v <= 4611686018427387904real,
        w <= 4611686018427387904real,
    ensures
        size(p + x) <= 18446744073709551616real,
        size(p + x + y) <= 18446744073709551616real,
        size(p + x + y) <= size(p) + 2real * v,
        size(p + x) <= size(p) + v,
{
}

/// The slope beyond a ramp at the left end, over the rest of the way.
proof fn lemma_rest_of_the_way(patch: C1Patch, x: Binary32, l: Binary32)
    requires
        patch.is_moderate(),
        x.is_finite(),
        l.is_finite(),
        0real <= l.amount() < x.amount(),
        x.amount() <= patch.width.amount(),
    ensures
        ({
            let e = patch.m1.mul(x.sub(l));
            let exact = patch.m1.amount() * (x.amount() - l.amount());
            &&& e.is_finite()
            &&& off(e.amount(), exact) <= 3real * exact + 1real
        }),
{
    lemma_unit_is_small();
    lemma_scale(patch, x.amount() - l.amount());
    law_difference_is_near(x, l);
    let y = x.sub(l);
    let b = patch.m1.amount();
    let dist = x.amount() - l.amount();
    assert(b * y.amount() >= 0real && 8388608real * size(b * y.amount() - b * dist) <= b * dist)
        by (nonlinear_arith)
        requires
            8388608real * size(y.amount() - dist) <= dist,
            dist > 0real,
            b >= 0real,
    ;
    law_product_is_near(patch.m1, y);
}

/// Half the rise of the slope over a ramp.
proof fn lemma_half_rise(patch: C1Patch, l: Binary32)
    requires
        patch.is_moderate(),
        l.is_finite(),
        0real <= l.amount() <= patch.width.amount(),
    ensures
        ({
            let q = patch.m1.sub(patch.m0).mul(l).mul(half());
            let rise = patch.m1.amount() - patch.m0.amount();
            let m = patch.m0.amount() + patch.m1.amount();
            &&& q.is_finite()
            &&& size(rise * l.amount()) <= m * l.amount()
            &&& off(q.amount(), rise * l.amount() / 2real) <= 4real * (m * l.amount()) + 1real
        }),
{
    lemma_single_constants();
    lemma_constant_amounts();
    lemma_unit_is_small();
    lemma_scale(patch, l.amount());
    let a = patch.m0.amount();
    let b = patch.m1.amount();
    let m = a + b;
    let t = l.amount();
    law_difference_is_near(patch.m1, patch.m0);
    let g = patch.m1.sub(patch.m0);
    assert(size(g.amount() * t) <= huge() && size((b - a) * t) <= m * t) by (nonlinear_arith)
        requires
            size(g.amount()) <= 4294967296real,
            0real <= t <= 1073741824real,
            0real <= a,
            0real <= b,
            m == a + b,
    ;
    law_product_is_near(g, l);
    let h = g.mul(l);
    lemma_gain_first(g.amount(), b - a, h.amount(), t, m);
    law_product_is_near(h, half());
}

/// The pressure on a ramp at the left end rises.
proof fn lemma_early_ramp_rises(a: real, b: real, k: real, x: real, y: real)
    requires
        0real <= a,
        0real <= b,
        0real < k,
        0real <= x <= y,
        y <= k,
    ensures
        a * x + (b - a) * (x * x / (2real * k)) <= a * y + (b - a) * (y * y / (2real * k)),
{
    let d = 2real * k;
    let u = x * x / d;
    let v = y * y / d;
    assert(u * d == x * x && v * d == y * y) by (nonlinear_arith)
        requires
            u == x * x / d,
            v == y * y / d,
            d > 0real,
    ;
    assert((v - u) * d == (y - x) * (y + x)) by (nonlinear_arith)
        requires
            u * d == x * x,
            v * d == y * y,
    ;
    // v - u = (y - x) (y + x) / d is between zero and y - x
    assert(0real <= v - u <= y - x) by (nonlinear_arith)
        requires
            (v - u) * d == (y - x) * (y + x),
            0real <= x <= y,
            y + x <= d,
            d > 0real,
    ;
    assert(a * y - a * x + (b - a) * (v - u) >= 0real) by (nonlinear_arith)
        requires
            0real <= v - u <= y - x,
            0real <= a,
            0real <= b,
    ;
    assert((b - a) * (v - u) == (b - a) * v - (b - a) * u) by (nonlinear_arith);
}

/// The pressure on a ramp at the right end rises, up to what its foot is off by.
proof fn lemma_late_ramp_rises(
    a: real,
    b: real,
    k: real,
    w: real,
    l: real,
    f: real,
    x: real,
    y: real,
    u: real,
    v: real,
)
    requires
        0real <= a,
        0real <= b,
        k >= l,
        8388608real * k >= 1real,
        0real <= l <= w,
        near(f, w - l),
        f <= x <= y,
        y <= w,
        0real <= u <= v,
        near(u, x - f),
        near(v, y - f),
    ensures
        8388608real * ((a * x + (b - a) * (u * u / (2real * k))) - (a * y + (b - a) * (v * v / (
        2real * k)))) <= 16real * ((a + b) * ((1real + w) * (1real + w))),
{
    let d = 2real * k;
    let p = u * u / d;
    let q = v * v / d;
    assert(p * d == u * u && q * d == v * v) by (nonlinear_arith)
        requires
            p == u * u / d,
            q == v * v / d,
            d > 0real,
    ;
    assert(q >= p) by (nonlinear_arith)
        requires
            p * d == u * u,
            q * d == v * v,
            0real <= u <= v,
            d > 0real,
    ;
    let s = (1real + w) * (1real + w);
    assert(s >= 1real && s >= w && s == 1real + 2real * w + w * w && w * w >= 0real)
        by (nonlinear_arith)
        requires
            s == (1real + w) * (1real + w),
            w >= 0real,
    ;
    lemma_late_steps(k, w, l, f, x, y, u, v, p, q);
    let e = q - p - (y - x);
    assert(8388608real * e <= 16real * s);
    assert(8388608real * ((a * x + (b - a) * p) - (a * y + (b - a) * q)) <= 16real * ((a + b) * s))
        by (nonlinear_arith)
        requires
            8388608real * ((q - p) - (y - x)) <= 16real * s,
            q >= p,
            y >= x,
            0real <= a,
            0real <= b,
            s >= 0real,
    ;
}

/// The step of a late ramp against the step of the density.
proof fn lemma_late_steps(
    k: real,
    w: real,
    l: real,
    f: real,
    x: real,
    y: real,
    u: real,
    v: real,
    p: real,
    q: real,
)
    requires
        k >= l,
        8388608real * k >= 1real,
        0real <= l <= w,
        near(f, w - l),
        f <= x <= y,
        y <= w,
        0real <= u <= v,
        near(u, x - f),
        near(v, y - f),
        p * (2real * k) == u * u,
        q * (2real * k) == v * v,
    ensures
        8388608real * ((q - p) - (y - x)) <= 16real * (1real + 2real * w + w * w),
{
    let e = w / 8388608real;
    let r = l + e;
    assert(y - f <= r && x - f <= r);
    assert(8388608real * v <= 8388609real * r);
    // v - u against y - x
    assert(8388608real * ((v - u) - (y - x)) <= 2real * r);
    // (v + u) / 2k against one
    let g = e / k;
    assert(g * k == e && g >= 0real) by (nonlinear_arith)
        requires
            g == e / k,
            k > 0real,
            e >= 0real,
    ;
    assert(g <= w) by (nonlinear_arith)
        requires
            g * k == e,
            8388608real * e == w,
            8388608real * k >= 1real,
            w >= 0real,
            g >= 0real,
    ;
    // v + u <= 2 (1 + 2^-23) r and r <= k (1 + g)
    assert(8388608real * (v + u) <= 16777218real * (k + e));
    assert(8388608real * (q - p) <= 8388609real * ((v - u) * (1real + g))) by (nonlinear_arith)
        requires
            p * (2real * k) == u * u,
            q * (2real * k) == v * v,
            8388608real * (v + u) <= 16777218real * (k + e),
            g * k == e,
            0real <= u <= v,
            k > 0real,
    ;
    let c = v - u;
    assert(c <= 2real * r && r <= 2real * w);
    // c g with c about l + e: l e / k <= e, and e e / k <= e w
    assert(c * g <= 2real * (e + e * w)) by (nonlinear_arith)
        requires
            0real <= c <= 2real * (l + e),
            g * k == e,
            0real <= l <= k,
            0real <= g <= w,
            e >= 0real,
    ;
    assert(c * (1real + g) == c + c * g) by (nonlinear_arith);
    assert(8388608real * (e * w) == w * w) by (nonlinear_arith)
        requires
            8388608real * e == w,
    ;
    assert(w * w >= 0real && e * w >= 0real) by (nonlinear_arith)
        requires
            w >= 0real,
            e >= 0real,
    ;
}

/// The ramp of a patch with a width is a length within it.
pub proof fn lemma_ramp_is_a_length(patch: C1Patch)
    requires
        patch.width.is_finite(),
        patch.width.gt(Binary32::zero()),
        two().mul(patch.width).is_finite(),
        patch.p1.sub(patch.p0).is_finite(),
        patch.m0.is_finite(),
        patch.m1.sub(patch.m0).is_finite(),
    ensures
        !patch.ramp_of().0.is_nan(),
        Binary32::zero().le(patch.ramp_of().0),
        patch.ramp_of().0.le(patch.width),
        !patch.is_flat() ==> !patch.end_ramp().is_nan(),
{
    lemma_single_constants();
    let zero = Binary32::zero();
    let w = patch.width;
    let rise = patch.m1.sub(patch.m0);
    if !patch.is_flat() {
        assert(!rise.eq(zero));
        let d = patch.p1.sub(patch.p0).div(w);
        law_finite_quotient_is_a_number(patch.p1.sub(patch.p0), w);
        law_sum_with_finite_is_a_number(d, patch.m0);
        let above = d.sub(patch.m0);
        law_doubling_is_positive(w);
        law_multiplication_commutes(two(), w);
        law_finite_product_is_a_number(two().mul(w), above);
        law_finite_quotient_is_a_number(two().mul(w).mul(above), rise);
        law_clamp_is_bounded(patch.end_ramp(), zero, w);
    }
}

/// The distance of a density from the left end is within the patch.
pub proof fn lemma_offset_is_a_length(patch: C1Patch, rho: Binary32)
    requires
        patch.width.is_finite(),
        patch.width.gt(Binary32::zero()),
        patch.rho_left.is_finite(),
        !rho.is_nan(),
    ensures
        Binary32::zero().le(patch.offset(rho)),
        patch.offset(rho).le(patch.width),
{
    lemma_single_constants();
    law_sum_with_finite_is_a_number(rho, patch.rho_left);
    law_clamp_is_bounded(rho.sub(patch.rho_left), Binary32::zero(), patch.width);
}

impl C1Patch {
    /// How far rounding may take the pressure of the patch back: a few parts in `2^23` of
    /// the left pressure and of the slopes over the width.
    pub open spec fn slack(&self) -> real {
        (8real * size(self.p0.amount()) + 80real * self.scale()) / 8388608real
    }
}

/// What the ramp of a moderate patch integrates to is a number, and it rises up to
/// rounding.
proof fn lemma_integral_rises(patch: C1Patch, rho: Binary32, denser: Binary32)
    requires
        patch.is_moderate(),
        rho.le(denser),
    ensures
        patch.integral(rho).is_finite(),
        patch.integral(denser).is_finite(),
        patch.integral(rho).amount() <= patch.integral(denser).amount() + patch.slack(),
{
    lemma_single_constants();
    lemma_constant_amounts();
    lemma_unit_is_small();
    let zero = Binary32::zero();
    let w = patch.width;
    law_order_of_amounts(zero, w);
    law_sum_with_finite_is_a_number(rho, patch.rho_left);
    law_sum_with_finite_is_a_number(denser, patch.rho_left);
    law_subtraction_is_monotone(rho, denser, patch.rho_left);
    lemma_offset_is_a_length(patch, rho);
    lemma_offset_is_a_length(patch, denser);
    let x = patch.offset(rho);
    let y = patch.offset(denser);
    law_order_of_amounts(zero, x);
    law_order_of_amounts(x, w);
    law_order_of_amounts(zero, y);
    law_order_of_amounts(y, w);
    assert(x.le(y));
    law_order_of_amounts(x, y);
    let a = patch.m0.amount();
    let b = patch.m1.amount();
    lemma_scale(patch, x.amount());
    lemma_scale(patch, y.amount());
    assert(a * x.amount() <= a * y.amount()) by (nonlinear_arith)
        requires
            a >= 0real,
            x.amount() <= y.amount(),
    ;
    if patch.is_flat() {
        lemma_base_is_near(patch, x);
        lemma_base_is_near(patch, y);
    } else {
        law_product_is_near(two(), w);
        law_difference_is_near(patch.p1, patch.p0);
        law_difference_is_near(patch.m1, patch.m0);
        lemma_ramp_is_a_length(patch);
        let (l, at_start) = patch.ramp_of();
        law_order_of_amounts(zero, l);
        law_order_of_amounts(l, w);
        lemma_pressure_is_near(patch, x, l, at_start);
        lemma_pressure_is_near(patch, y, l, at_start);
        lemma_meant_rises(patch, x, y, l, at_start);
    }
}

/// What is meant rises.
proof fn lemma_meant_rises(
    patch: C1Patch,
    x: Binary32,
    y: Binary32,
    l: Binary32,
    at_start: bool,
)
    requires
        patch.is_moderate(),
        x.is_finite(),
        y.is_finite(),
        l.is_finite(),
        0real <= x.amount() <= y.amount(),
        y.amount() <= patch.width.amount(),
        0real <= l.amount() <= patch.width.amount(),
    ensures
        8388608real * (patch.meant(x, l, at_start) - patch.meant(y, l, at_start)) <= 16real
            * patch.scale(),
{
    lemma_single_constants();
    lemma_constant_amounts();
    let w = patch.width;
    let a = patch.m0.amount();
    let b = patch.m1.amount();
    let k = patch.divisor(l);
    let t = l.amount();
    let eps = Binary32::from_bits(EPSILON);
    law_order_of_amounts(l, eps);
    law_order_of_amounts(eps, l);
    law_order_of_amounts(x, l);
    law_order_of_amounts(y, l);
    lemma_scale(patch, t);
    let sc = (1real + w.amount()) * (1real + w.amount());
    assert((a + b) * sc <= patch.scale()) by (nonlinear_arith)
        requires
            patch.scale() == (a + b + 1real) * (1real + w.amount()) * (1real + w.amount()),
            sc == (1real + w.amount()) * (1real + w.amount()),
            w.amount() >= 0real,
    ;
    if at_start {
        if y.le(l) {
            lemma_early_ramp_rises(a, b, k, x.amount(), y.amount());
        } else if x.le(l) {
            lemma_early_ramp_rises(a, b, k, x.amount(), t);
            let dist = y.amount() - t;
            assert(b * dist >= 0real) by (nonlinear_arith)
                requires
                    b >= 0real,
                    dist >= 0real,
            ;
            // the foot of a ramp shorter than the smallest divisor
            let z = t * t / (2real * k);
            assert(2real * size((b - a) * z - (b - a) * t / 2real) * 8388608real <= 2real * (a + b))
                by (nonlinear_arith)
                requires
                    z == t * t / (2real * k),
                    k == t || (t < k && 8388608real * k == 1real),
                    0real <= t,
                    0real < k,
                    a >= 0real,
                    b >= 0real,
            ;
        } else {
            assert(b * (x.amount() - t) <= b * (y.amount() - t)) by (nonlinear_arith)
                requires
                    b >= 0real,
                    x.amount() <= y.amount(),
            ;
        }
    } else {
        law_difference_is_near(w, l);
        let f = w.sub(l);
        law_order_of_amounts(x, f);
        law_order_of_amounts(y, f);
        assert(a * x.amount() <= a * y.amount() && (x.amount() <= f.amount() ==> a * x.amount() <= a
            * f.amount())) by (nonlinear_arith)
            requires
                a >= 0real,
                x.amount() <= y.amount(),
        ;
        if !y.le(f) {
            law_difference_is_near(y, f);
            let v = y.sub(f).amount();
            if x.le(f) {
                lemma_late_ramp_rises(
                    a,
                    b,
                    k,
                    w.amount(),
                    t,
                    f.amount(),
                    f.amount(),
                    y.amount(),
                    0real,
                    v,
                );
                assert(0real * 0real / (2real * k) == 0real) by (nonlinear_arith)
                    requires
                        k > 0real,
                ;
            } else {
                law_difference_is_near(x, f);
                let u = x.sub(f).amount();
                law_finite_difference_is_a_number(x, f);
                law_finite_difference_is_a_number(y, f);
                law_order_of_amounts(x, y);
                law_subtraction_is_monotone(x, y, f);
                law_order_of_amounts(x.sub(f), y.sub(f));
                lemma_late_ramp_rises(
                    a,
                    b,
                    k,
                    w.amount(),
                    t,
                    f.amount(),
                    x.amount(),
                    y.amount(),
                    u,
                    v,
                );
            }
        }
    }
}

/// The pressure of a rising patch is a number, lies between the end pressures, and rises
/// with the density up to rounding.
pub proof fn law_patch_pressure_rises(patch: C1Patch, rho: Binary32, denser: Binary32)
    requires
        patch.is_moderate(),
        patch.is_rising(),
        rho.le(denser),
    ensures
        patch.value_at(rho).is_finite(),
        patch.value_at(denser).is_finite(),
        patch.p0.le(patch.value_at(rho)) && patch.value_at(rho).le(patch.p1),
        patch.p0.le(patch.value_at(denser)) && patch.value_at(denser).le(patch.p1),
        patch.value_at(rho).amount() <= patch.value_at(denser).amount() + patch.slack(),
{
    lemma_single_constants();
    lemma_scale(patch, 0real);
    lemma_integral_rises(patch, rho, denser);
    let x = patch.integral(rho);
    let y = patch.integral(denser);
    law_order_of_amounts(patch.p0, x);
    law_order_of_amounts(patch.p0, y);
    law_order_of_amounts(x, patch.p1);
    law_order_of_amounts(y, patch.p1);
    law_order_of_amounts(patch.p0, patch.p1);
    law_order_of_amounts(patch.p1, patch.p0);
    law_order_of_amounts(x, patch.p0);
    law_order_of_amounts(y, patch.p0);
    law_order_of_amounts(patch.p1, x);
    law_order_of_amounts(patch.p1, y);
}

/// Rounding takes no pressure forward.
pub proof fn lemma_slack_is_positive(patch: C1Patch)
    requires
        patch.is_moderate(),
    ensures
        patch.slack() > 0real,
{
    lemma_scale(patch, 0real);
}

impl C1Patch {
    /// The slope of the line through both ends.
    pub open spec fn mean_slope(&self) -> Binary32 {
        self.p1.sub(self.p0).div(self.width)
    }

    /// The mean slope lies strictly between the end slopes.
    pub open spec fn has_mean_between(&self) -> bool {
        &&& self.derivative_extrema().0.lt(self.mean_slope())
        &&& self.mean_slope().lt(self.derivative_extrema().1)
    }
}

/// Where the mean slope lies between the end slopes, the end pressures are finite and the
/// end slopes are numbers. Finite slopes do not follow: every mean lies between two
/// infinities.
pub proof fn law_mean_slope_makes_ends_finite(patch: C1Patch)
    requires
        patch.has_mean_between(),
        patch.width.is_finite(),
    ensures
        patch.p0.is_finite(),
        patch.p1.is_finite(),
        patch.p1.sub(patch.p0).is_finite(),
        !patch.m0.is_nan(),
        !patch.m1.is_nan(),
{
    lemma_single_constants();
    reveal(Binary32::spec_div);
    reveal(Binary32::spec_sub);
    assert(patch.mean_slope().is_finite());
}

/// The slope of a patch is a number, whatever the density.
proof fn lemma_slope_is_a_number(patch: C1Patch, rho: Binary32)
    requires
        patch.width.is_finite(),
        patch.width.gt(Binary32::zero()),
        two().mul(patch.width).is_finite(),
        patch.rho_left.is_finite(),
        patch.p1.sub(patch.p0).is_finite(),
        patch.m0.is_finite(),
        patch.m1.is_finite(),
        patch.m1.sub(patch.m0).is_finite(),
        !rho.is_nan(),
    ensures
        !patch.slope_at(rho).is_nan(),
{
    lemma_single_constants();
    lemma_offset_is_a_length(patch, rho);
    lemma_ramp_is_a_length(patch);
    if !patch.is_flat() {
        let x = patch.offset(rho);
        let (l, at_start) = patch.ramp_of();
        let rise = patch.m1.sub(patch.m0);
        let flat = patch.width.sub(l);
        law_finite_difference_is_a_number(patch.width, l);
        law_non_negative_steps(patch.width, l);
        law_difference_is_not_negative(patch.width, l);
        law_finite_difference_is_a_number(x, flat);
        let y = if at_start {
            x
        } else {
            x.sub(flat)
        };
        let bound = l.max(Binary32::from_bits(EPSILON));
        law_finite_product_is_a_number(rise, y);
        law_finite_quotient_is_a_number(rise.mul(y), bound);
        law_addition_commutes(patch.m0, patch.ramp_slope(y, l));
        law_sum_with_finite_is_a_number(patch.ramp_slope(y, l), patch.m0);
    }
}

/// A patch whose mean slope lies between its end slopes starts with its left pressure and
/// slope, ends with its right ones, and never overshoots a slope.
pub proof fn law_patch_does_not_overshoot(patch: C1Patch, rho: Binary32)
    requires
        patch.has_mean_between(),
        patch.width.gt(Binary32::zero()),
        patch.width.is_finite(),
        two().mul(patch.width).is_finite(),
        patch.rho_left.is_finite(),
        patch.m1.sub(patch.m0).is_finite(),
        patch.m0.is_finite(),
        !rho.is_nan(),
    ensures
        patch.derivative_extrema().0.le(patch.slope_at(rho)),
        patch.slope_at(rho).le(patch.derivative_extrema().1),
        patch.value_at(patch.rho_left).eq(patch.p0),
        patch.slope_at(patch.rho_left).eq(patch.m0),
        patch.rho_left.lt(patch.right()) ==> patch.value_at(patch.right()) == patch.p1,
        patch.rho_left.lt(patch.right()) ==> patch.slope_at(patch.right()) == patch.m1,
{
    lemma_single_constants();
    law_mean_slope_makes_ends_finite(patch);
    assert(patch.m1.is_finite()) by {
        reveal(Binary32::spec_sub);
    }
    lemma_slope_is_a_number(patch, rho);
    law_patch_slope_is_bounded(patch, rho);
    lemma_ramp_is_a_length(patch);
    law_patch_starts_at_its_left_end(patch);
}

} // verus!
