use vstd::arithmetic::div_mod::lemma_fundamental_div_mod;
use vstd::arithmetic::power2::lemma2_to64;
use vstd::arithmetic::power2::lemma2_to64_rest;
use vstd::arithmetic::power2::lemma_pow2_adds;
use vstd::arithmetic::power2::lemma_pow2_pos;
use vstd::arithmetic::power2::lemma_pow2_strictly_increases;
use vstd::arithmetic::power2::lemma_pow2_unfold;
use vstd::arithmetic::power2::pow2;
use vstd::prelude::*;

use crate::binary::exact::Exact;
use crate::binary::exact::in_range;
use crate::binary::exact::lemma_mag_increases;
use crate::binary::exact::lemma_parts_of;
use crate::binary::exact::lemma_representable_is_fixed;
use crate::binary::exact::mag;
use crate::binary::exact::nearest;
use crate::binary::round::Format;
use crate::binary::round::SCALE;
use crate::binary::round::lemma_scaled_shift;
use crate::binary::round::locates;
use crate::binary::round::round;
use crate::binary::round::scaled_pow2;

verus! {

/// An exact quotient that lies in `[s * 2^e, (s + 1) * 2^e)`.
proof fn lemma_locates_ratio(num: nat, den: nat, s: nat, e: int, sticky: bool)
    requires
        den > 0,
        e >= -SCALE,
        s * den * scaled_pow2(e) <= num * scaled_pow2(0),
        sticky <==> s * den * scaled_pow2(e) < num * scaled_pow2(0),
        num * scaled_pow2(0) < (s + 1) * den * scaled_pow2(e),
    ensures
        locates(Exact::Ratio { num, den }, s, e, sticky),
{
    let x = Exact::Ratio { num, den };
    let one = scaled_pow2(0);
    let se = scaled_pow2(e);
    lemma_pow2_pos(SCALE as nat);
    assert forall|m: nat| #[trigger] x.excess(m) == x.excess(m) implies {
        &&& m * one < 2 * s * se ==> x.excess(m) > 0
        &&& m * one == 2 * s * se ==> (if sticky {
            x.excess(m) > 0
        } else {
            x.excess(m) == 0
        })
        &&& m * one >= 2 * (s + 1) * se ==> x.excess(m) < 0
        &&& !sticky && m * one > 2 * s * se ==> x.excess(m) < 0
    } by {
        let md = m * den;
        assert(md * one == m * one * den) by (nonlinear_arith)
            requires
                md == m * den,
        ;
        assert(2 * s * se * den == 2 * (s * den * se)) by (nonlinear_arith);
        assert(2 * (s + 1) * se * den == 2 * ((s + 1) * den * se)) by (nonlinear_arith);
        assert(2 * num * one == 2 * (num * one)) by (nonlinear_arith);
        if m * one < 2 * s * se {
            assert(m * one * den < 2 * s * se * den) by (nonlinear_arith)
                requires
                    m * one < 2 * s * se,
                    den > 0,
            ;
            assert(md < 2 * num) by (nonlinear_arith)
                requires
                    md * one < 2 * num * one,
            ;
        }
        if m * one == 2 * s * se {
            assert(m * one * den == 2 * s * se * den);
            assert(if sticky {
                md < 2 * num
            } else {
                md == 2 * num
            }) by (nonlinear_arith)
                requires
                    if sticky {
                        md * one < 2 * num * one
                    } else {
                        md * one == 2 * num * one
                    },
                    one > 0,
            ;
        }
        if m * one >= 2 * (s + 1) * se {
            assert(m * one * den >= 2 * (s + 1) * se * den) by (nonlinear_arith)
                requires
                    m * one >= 2 * (s + 1) * se,
                    den > 0,
            ;
            assert(md > 2 * num) by (nonlinear_arith)
                requires
                    md * one > 2 * num * one,
                    one > 0,
            ;
        }
        if !sticky && m * one > 2 * s * se {
            assert(m * one * den > 2 * s * se * den) by (nonlinear_arith)
                requires
                    m * one > 2 * s * se,
                    den > 0,
            ;
            assert(md > 2 * num) by (nonlinear_arith)
                requires
                    md * one > 2 * num * one,
                    one > 0,
            ;
        }
    }
}

/// Zero rounds to zero.
pub proof fn lemma_zero_rounds_to_zero(f: Format, den: nat)
    requires
        f.wf(),
        den > 0,
    ensures
        nearest(f.p as nat, f.kinf(), (Exact::Ratio { num: 0, den })) == 0,
{
    let x = Exact::Ratio { num: 0, den };
    lemma_pow2_pos(f.p as nat);
    assert(f.kinf() > 0) by (nonlinear_arith)
        requires
            f.kinf() == f.top * f.hidden(),
            f.top > 0,
            f.hidden() > 0,
    ;
    assert(x.excess(0) == 0) by (nonlinear_arith)
        requires
            x.excess(0) == 0 - 0 * den,
    ;
    lemma_representable_is_fixed(f.p as nat, f.kinf(), x, 0);
}

/// The exponent step and the significand of a finite number.
pub fn parts(f: Format, k: u64) -> (r: (i32, u64))
    requires
        f.wf(),
        k < f.kinf(),
    ensures
        0 <= r.0 < f.top - 1,
        in_range(f.p as nat, r.0 as nat, r.1 as nat),
        mag(f.p as nat, k as nat) == r.1 * pow2(r.0 as nat),
        r.1 == 0 <==> k == 0,
{
    let w: u64 = f.hidden_bit();
    proof {
        lemma2_to64();
        lemma2_to64_rest();
        lemma_parts_of(f.p as nat, k as nat);
    }
    if k < 2 * w {
        (0, k)
    } else {
        proof {
            assert(k / w < f.top && (k / w - 1) * w <= k && k / w >= 2) by (nonlinear_arith)
                requires
                    k < f.top * w,
                    w > 0,
                    k >= 2 * w,
            ;
        }
        let u: u64 = k / w - 1;
        (u as i32, k - u * w)
    }
}

/// The same with the significand scaled up to full length.
fn full_parts(f: Format, k: u64) -> (r: (i32, u64))
    requires
        f.wf(),
        0 < k < f.kinf(),
    ensures
        -(f.p as int) <= r.0 < f.top - 1,
        f.hidden() <= r.1 < 2 * f.hidden(),
        mag(f.p as nat, k as nat) * scaled_pow2(0) == r.1 * scaled_pow2(r.0 as int),
{
    let w: u64 = f.hidden_bit();
    let (u, s) = parts(f, k);
    let mut e: i32 = u;
    let mut q: u64 = s;
    let ghost m = mag(f.p as nat, k as nat);
    proof {
        lemma2_to64();
        lemma2_to64_rest();
        lemma_scaled_shift(0, u as nat);
        assert(m * scaled_pow2(0) == q * scaled_pow2(e as int)) by (nonlinear_arith)
            requires
                m == q * pow2(u as nat),
                scaled_pow2(u as int) == pow2(u as nat) * scaled_pow2(0),
                e == u,
        ;
        assert(pow2(0) == 1);
    }
    let ghost mut n: nat = 0;
    while q < w
        invariant
            f.wf(),
            w == f.hidden(),
            1 <= w <= 0x10_0000_0000_0000,
            0 < q < 2 * w,
            0 <= u < f.top - 1,
            e == u - n,
            q >= pow2(n),
            n <= f.p,
            m * scaled_pow2(0) == q * scaled_pow2(e as int),
        decreases 2 * w - q,
    {
        proof {
            lemma_scaled_shift(e as int - 1, 1);
            assert(pow2(1) == 2) by {
                lemma2_to64();
            }
            assert((2 * q) * scaled_pow2(e as int - 1) == q * scaled_pow2(e as int))
                by (nonlinear_arith)
                requires
                    scaled_pow2(e as int) == 2 * scaled_pow2(e as int - 1),
            ;
            lemma_pow2_unfold(n + 1);
            assert(n < f.p);
            n = n + 1;
        }
        q = 2 * q;
        e = e - 1;
    }
    (e, q)
}

/// The part of `q * 2^u` that counts in units of `2^(target)`.
fn align(q: u64, u: i32, target: i32) -> (r: (u128, bool))
    requires
        q < 0x20_0000_0000_0000,
        0 <= u <= 2046,
        -60 <= target,
        u <= target + 60,
        target <= 2046,
    ensures
        r.0 <= 0x2_0000_0000_0000_0000_0000_0000_0000,
        r.1 ==> r.0 <= q && u < target,
        r.0 * scaled_pow2(target as int) <= q * scaled_pow2(u as int),
        q * scaled_pow2(u as int) < (r.0 + 1) * scaled_pow2(target as int),
        r.1 <==> r.0 * scaled_pow2(target as int) < q * scaled_pow2(u as int),
{
    let mut b: u128 = q as u128;
    let mut c: i32 = u;
    let mut sticky: bool = false;
    proof {
        lemma_scaled_shift(u as int, 0);
        assert(pow2(0) == 1) by {
            lemma2_to64();
        }
        assert(q * scaled_pow2(u as int) < (b + 1) * scaled_pow2(u as int)) by (nonlinear_arith)
            requires
                b == q,
                scaled_pow2(u as int) > 0,
        ;
        assert(b == q * pow2(0)) by (nonlinear_arith)
            requires
                b == q,
                pow2(0) == 1,
        ;
    }
    while c > target
        invariant
            q < 0x20_0000_0000_0000,
            0 <= u <= 2046,
            -60 <= target <= c <= u || c == u,
            u <= target + 60,
            b == q * pow2((u - c) as nat),
            b * scaled_pow2(c as int) == q * scaled_pow2(u as int),
            !sticky,
        decreases c - target,
    {
        proof {
            lemma_scaled_shift(c as int - 1, 1);
            lemma2_to64();
            assert((2 * b) * scaled_pow2(c as int - 1) == b * scaled_pow2(c as int))
                by (nonlinear_arith)
                requires
                    scaled_pow2(c as int) == 2 * scaled_pow2(c as int - 1),
            ;
            lemma_pow2_unfold((u - c + 1) as nat);
            assert(q * pow2((u - c + 1) as nat) == 2 * (q * pow2((u - c) as nat)))
                by (nonlinear_arith)
                requires
                    pow2((u - c + 1) as nat) == 2 * pow2((u - c) as nat),
            ;
            if u - c + 1 < 60 {
                lemma_pow2_strictly_increases((u - c + 1) as nat, 60);
            }
            lemma_pow2_60();
            assert(q * pow2((u - c + 1) as nat) <= 0x20_0000_0000_0000 * 0x1000_0000_0000_0000)
                by (nonlinear_arith)
                requires
                    q < 0x20_0000_0000_0000,
                    pow2((u - c + 1) as nat) <= 0x1000_0000_0000_0000,
            ;
        }
        b = 2 * b;
        c = c - 1;
    }
    proof {
        lemma_scaled_shift(c as int, 0);
        assert(b * scaled_pow2(c as int) < (b + 1) * scaled_pow2(c as int)) by (nonlinear_arith)
            requires
                scaled_pow2(c as int) > 0,
        ;
        lemma_pow2_60();
        lemma_pow2_pos((u - c) as nat);
        if u - c < 60 {
            lemma_pow2_strictly_increases((u - c) as nat, 60);
        }
        assert(q * pow2((u - c) as nat) <= 0x20_0000_0000_0000 * 0x1000_0000_0000_0000)
            by (nonlinear_arith)
            requires
                q < 0x20_0000_0000_0000,
                pow2((u - c) as nat) <= 0x1000_0000_0000_0000,
        ;
        if u <= target {
            assert(b == q) by (nonlinear_arith)
                requires
                    b == q * pow2((u - c) as nat),
                    pow2((u - c) as nat) == 1,
            ;
        }
    }
    while c < target && b > 0
        invariant
            -60 <= c <= target <= 2046,
            u < target ==> b <= q,
            u >= target ==> c == target && !sticky,
            b <= 0x20_0000_0000_0000 * 0x1000_0000_0000_0000,
            b * scaled_pow2(c as int) <= q * scaled_pow2(u as int),
            q * scaled_pow2(u as int) < (b + 1) * scaled_pow2(c as int),
            sticky <==> b * scaled_pow2(c as int) < q * scaled_pow2(u as int),
        decreases b,
    {
        let ghost b0 = b;
        let ghost v = q * scaled_pow2(u as int);
        proof {
            lemma_scaled_shift(c as int, 1);
            lemma2_to64();
            let h = scaled_pow2(c as int);
            let g = scaled_pow2(c as int + 1);
            let b2 = b / 2;
            assert(b2 * g + (b % 2) * h == b * h) by (nonlinear_arith)
                requires
                    g == 2 * h,
                    b == 2 * b2 + b % 2,
            ;
            assert((b % 2 == 1 ==> (b % 2) * h == h) && (b % 2 == 0 ==> (b % 2) * h == 0))
                by (nonlinear_arith);
            assert((b2 + 1) * g >= (b + 1) * h) by (nonlinear_arith)
                requires
                    g == 2 * h,
                    b <= 2 * b2 + 1,
            ;
        }
        sticky = sticky || b % 2 == 1;
        b = b / 2;
        c = c + 1;
    }
    proof {
        if c < target {
            lemma_scaled_shift(c as int, (target - c) as nat);
            let h = scaled_pow2(c as int);
            let g = scaled_pow2(target as int);
            lemma_pow2_pos((target - c) as nat);
            assert(g >= h) by (nonlinear_arith)
                requires
                    g == pow2((target - c) as nat) * h,
                    pow2((target - c) as nat) >= 1,
            ;
            assert(b * g == 0 && b * h == 0 && (b + 1) * g == g && (b + 1) * h == h)
                by (nonlinear_arith)
                requires
                    b == 0,
            ;
        }
    }
    (b, sticky)
}

proof fn lemma_pow2_60()
    ensures
        pow2(60) == 0x1000_0000_0000_0000,
        pow2(56) == 0x100_0000_0000_0000,
        pow2(57) == 0x200_0000_0000_0000,
{
    lemma2_to64();
    lemma2_to64_rest();
}

/// The sum of two magnitudes, rounded.
pub open spec fn sum_of(p: nat, j: nat, k: nat) -> Exact {
    Exact::Ratio { num: mag(p, j) + mag(p, k), den: 1 }
}

/// The difference of two magnitudes, rounded.
pub open spec fn difference_of(p: nat, j: nat, k: nat) -> Exact {
    Exact::Ratio { num: (mag(p, j) - mag(p, k)) as nat, den: 1 }
}

pub fn add_magnitudes(f: Format, j: u64, k: u64) -> (r: u64)
    requires
        f.wf(),
        k <= j < f.kinf(),
        j > 0,
    ensures
        r <= f.kinf(),
        r == nearest(f.p as nat, f.kinf(), sum_of(f.p as nat, j as nat, k as nat)),
{
    let (uj, qj) = parts(f, j);
    let (uk, qk) = parts(f, k);
    proof {
        lemma_parts_order(f.p as nat, j as nat, k as nat, uj as nat, qj as nat, uk as nat, qk as nat);
        lemma_pow2_60();
        lemma2_to64_rest();
        lemma2_to64();
    }
    let e: i32 = uj - 60;
    let (b, sticky) = align(qk, uk, e);
    let a: u128 = qj as u128 * 0x1000_0000_0000_0000;
    let s: u128 = a + b;
    let ghost num = mag(f.p as nat, j as nat) + mag(f.p as nat, k as nat);
    proof {
        let one = scaled_pow2(0);
        let se = scaled_pow2(e as int);
        lemma_scaled_shift(e as int, 60);
        lemma_scaled_shift(0, uj as nat);
        lemma_scaled_shift(0, uk as nat);
        assert(num * one == a * se + qk * scaled_pow2(uk as int)) by (nonlinear_arith)
            requires
                num == qj * pow2(uj as nat) + qk * pow2(uk as nat),
                scaled_pow2(uj as int) == pow2(uj as nat) * one,
                scaled_pow2(uk as int) == pow2(uk as nat) * one,
                scaled_pow2(uj as int) == 0x1000_0000_0000_0000 * se,
                a == qj * 0x1000_0000_0000_0000,
        ;
        assert(s * 1 * se == a * se + b * se && (s + 1) * 1 * se == a * se + (b + 1) * se)
            by (nonlinear_arith)
            requires
                s == a + b,
        ;
        lemma_locates_ratio(num, 1, s as nat, e as int, sticky);
    }
    round(f, s, e, sticky)
}

pub fn subtract_magnitudes(f: Format, j: u64, k: u64) -> (r: u64)
    requires
        f.wf(),
        k < j < f.kinf(),
    ensures
        r <= f.kinf(),
        r == nearest(f.p as nat, f.kinf(), difference_of(f.p as nat, j as nat, k as nat)),
{
    let (uj, qj) = parts(f, j);
    let (uk, qk) = parts(f, k);
    proof {
        lemma_parts_order(f.p as nat, j as nat, k as nat, uj as nat, qj as nat, uk as nat, qk as nat);
        lemma_mag_increases(f.p as nat, k as nat, j as nat);
        lemma_pow2_60();
        lemma2_to64_rest();
        lemma2_to64();
    }
    let e: i32 = uj - 60;
    let (b, sticky) = align(qk, uk, e);
    let a: u128 = qj as u128 * 0x1000_0000_0000_0000;
    let ghost num = (mag(f.p as nat, j as nat) - mag(f.p as nat, k as nat)) as nat;
    let ghost one = scaled_pow2(0);
    let ghost se = scaled_pow2(e as int);
    proof {
        lemma_scaled_shift(e as int, 60);
        lemma_scaled_shift(0, uj as nat);
        lemma_scaled_shift(0, uk as nat);
        assert(num * one == a * se - qk * scaled_pow2(uk as int)) by (nonlinear_arith)
            requires
                num == qj * pow2(uj as nat) - qk * pow2(uk as nat),
                scaled_pow2(uj as int) == pow2(uj as nat) * one,
                scaled_pow2(uk as int) == pow2(uk as nat) * one,
                scaled_pow2(uj as int) == 0x1000_0000_0000_0000 * se,
                a == qj * 0x1000_0000_0000_0000,
        ;
        assert(num * one > 0) by (nonlinear_arith)
            requires
                num > 0,
                one > 0,
        ;
        assert(a > b) by (nonlinear_arith)
            requires
                a * se > b * se,
        ;
        if sticky {
            assert(a >= 0x1000_0000_0000_0000 * f.hidden());
        }
    }
    let s: u128 = if sticky {
        a - b - 1
    } else {
        a - b
    };
    proof {
        if sticky {
            assert(s * 1 * se == a * se - (b + 1) * se && (s + 1) * 1 * se == a * se - b * se)
                by (nonlinear_arith)
                requires
                    s == a - b - 1,
            ;
        } else {
            assert(s * 1 * se == a * se - b * se && (s + 1) * 1 * se == a * se - b * se + se)
                by (nonlinear_arith)
                requires
                    s == a - b,
            ;
        }
        lemma_locates_ratio(num, 1, s as nat, e as int, sticky);
    }
    round(f, s, e, sticky)
}

/// A larger number has no smaller exponent.
proof fn lemma_parts_order(p: nat, j: nat, k: nat, uj: nat, qj: nat, uk: nat, qk: nat)
    requires
        k <= j,
        in_range(p, uj, qj),
        in_range(p, uk, qk),
        mag(p, j) == qj * pow2(uj),
        mag(p, k) == qk * pow2(uk),
    ensures
        uk <= uj,
{
    lemma_mag_increases(p, k, j);
    lemma_pow2_pos(p);
    if uk > uj {
        lemma_pow2_pos(uj);
        lemma_pow2_unfold(uj + 1);
        if uj + 1 < uk {
            lemma_pow2_strictly_increases(uj + 1, uk);
        }
        assert(qk * pow2(uk) > qj * pow2(uj)) by (nonlinear_arith)
            requires
                qk >= pow2(p),
                qj < 2 * pow2(p),
                pow2(uk) >= 2 * pow2(uj),
                pow2(uj) > 0,
                pow2(p) > 0,
        ;
    }
}

/// The exact product of two magnitudes.
pub open spec fn product_of(f: Format, j: nat, k: nat) -> Exact {
    Exact::Ratio {
        num: mag(f.p as nat, j) * mag(f.p as nat, k),
        den: pow2(f.unit as nat),
    }
}

/// The exact quotient of two magnitudes.
pub open spec fn quotient_of(f: Format, j: nat, k: nat) -> Exact {
    Exact::Ratio {
        num: mag(f.p as nat, j) * pow2(f.unit as nat),
        den: mag(f.p as nat, k),
    }
}

/// The exact square root of a magnitude.
pub open spec fn root_of(f: Format, k: nat) -> Exact {
    Exact::Root { radicand: mag(f.p as nat, k) * pow2(f.unit as nat) }
}

/// A magnitude of one format, in units of another.
pub open spec fn recast_of(from: Format, to: Format, k: nat) -> Exact {
    Exact::Ratio {
        num: mag(from.p as nat, k) * pow2(to.unit as nat),
        den: pow2(from.unit as nat),
    }
}

/// An integer, in units of a format.
pub open spec fn integer_of(to: Format, n: nat) -> Exact {
    Exact::Ratio { num: n * pow2(to.unit as nat), den: 1 }
}

pub fn multiply_magnitudes(f: Format, j: u64, k: u64) -> (r: u64)
    requires
        f.wf(),
        j < f.kinf(),
        k < f.kinf(),
    ensures
        r <= f.kinf(),
        r == nearest(f.p as nat, f.kinf(), product_of(f, j as nat, k as nat)),
{
    let ghost den = pow2(f.unit as nat);
    let ghost num = mag(f.p as nat, j as nat) * mag(f.p as nat, k as nat);
    proof {
        lemma_pow2_pos(f.unit as nat);
        lemma2_to64_rest();
        lemma2_to64();
    }
    let (uj, qj) = parts(f, j);
    let (uk, qk) = parts(f, k);
    if qj == 0 || qk == 0 {
        proof {
            assert(num == 0) by (nonlinear_arith)
                requires
                    num == (qj * pow2(uj as nat)) * (qk * pow2(uk as nat)),
                    qj == 0 || qk == 0,
            ;
            lemma_zero_rounds_to_zero(f, den);
        }
        return 0;
    }
    proof {
        assert(0 < qj * qk < 0x400_0000_0000_0000_0000_0000_0000) by (nonlinear_arith)
            requires
                0 < qj < 0x20_0000_0000_0000,
                0 < qk < 0x20_0000_0000_0000,
        ;
    }
    let s: u128 = qj as u128 * qk as u128;
    let e: i32 = uj + uk - f.unit as i32;
    proof {
        let one = scaled_pow2(0);
        let se = scaled_pow2(e as int);
        lemma_scaled_shift(e as int, f.unit as nat);
        lemma_scaled_shift(0, (uj + uk) as nat);
        lemma_pow2_adds(uj as nat, uk as nat);
        assert(s * den * se == num * one) by (nonlinear_arith)
            requires
                s == qj * qk,
                num == (qj * pow2(uj as nat)) * (qk * pow2(uk as nat)),
                den * se == (pow2(uj as nat) * pow2(uk as nat)) * one,
        ;
        assert((s + 1) * den * se > s * den * se) by (nonlinear_arith)
            requires
                den > 0,
                se > 0,
        ;
        lemma_locates_ratio(num, den, s as nat, e as int, false);
    }
    round(f, s, e, false)
}

pub fn divide_magnitudes(f: Format, j: u64, k: u64) -> (r: u64)
    requires
        f.wf(),
        j < f.kinf(),
        0 < k < f.kinf(),
    ensures
        r <= f.kinf(),
        r == nearest(f.p as nat, f.kinf(), quotient_of(f, j as nat, k as nat)),
{
    let ghost mj = mag(f.p as nat, j as nat);
    let ghost mk = mag(f.p as nat, k as nat);
    let ghost num = mj * pow2(f.unit as nat);
    proof {
        lemma_pow2_pos(f.p as nat);
        lemma_mag_increases(f.p as nat, 0, k as nat);
        lemma_pow2_60();
        lemma2_to64_rest();
        lemma2_to64();
    }
    if j == 0 {
        proof {
            assert(num == 0) by (nonlinear_arith)
                requires
                    num == mj * pow2(f.unit as nat),
                    mj == 0,
            ;
            lemma_zero_rounds_to_zero(f, mk);
        }
        return 0;
    }
    let (ej, qj) = full_parts(f, j);
    let (ek, qk) = full_parts(f, k);
    let n: u128 = qj as u128 * 0x100_0000_0000_0000;
    let d: u128 = qk as u128;
    let s: u128 = n / d;
    let rem: u128 = n % d;
    let e: i32 = ej - 56 - ek + f.unit as i32;
    proof {
        let w = f.hidden();
        assert(n == s * d + rem && rem < d) by {
            lemma_fundamental_div_mod(n as int, d as int);
            assert(d * s == s * d) by (nonlinear_arith);
        }
        assert(s >= 4 * 0x10_0000_0000_0000) by (nonlinear_arith)
            requires
                n == s * d + rem,
                rem < d,
                n >= w * 0x100_0000_0000_0000,
                d < 2 * w,
                w >= 1,
        ;
        assert(s <= n) by (nonlinear_arith)
            requires
                n == s * d + rem,
                d >= 1,
                rem >= 0,
        ;
        let one = scaled_pow2(0);
        let se = scaled_pow2(e as int);
        let sek = scaled_pow2(ek as int);
        let sej = scaled_pow2(ej as int);
        let pu = pow2(f.unit as nat);
        let kk = sek * se;
        // sej * 2^unit * one == 2^56 * sek * se
        lemma_pow2_adds((ek + SCALE) as nat, (e + SCALE) as nat);
        lemma_pow2_adds(56, (ek + e + 2 * SCALE) as nat);
        lemma_pow2_adds((ej + SCALE) as nat, f.unit as nat);
        lemma_pow2_adds((ej + SCALE + f.unit) as nat, SCALE as nat);
        lemma_pow2_pos((ek + SCALE) as nat);
        lemma_pow2_pos((e + SCALE) as nat);
        lemma_pow2_pos(SCALE as nat);
        assert(sej * pu * one == 0x100_0000_0000_0000 * kk);
        assert(kk > 0) by (nonlinear_arith)
            requires
                kk == sek * se,
                sek > 0,
                se > 0,
        ;
        assert(num * one * one == n * kk) by (nonlinear_arith)
            requires
                num == mj * pu,
                mj * one == qj * sej,
                sej * pu * one == 0x100_0000_0000_0000 * kk,
                n == qj * 0x100_0000_0000_0000,
        ;
        assert(s * mk * se * one == s * d * kk && (s + 1) * mk * se * one == (s + 1) * d * kk)
            by (nonlinear_arith)
            requires
                mk * one == d * sek,
                kk == sek * se,
        ;
        assert(s * d * kk <= n * kk && ((rem != 0) <==> s * d * kk < n * kk) && n * kk < (s + 1) * d
            * kk) by (nonlinear_arith)
            requires
                n == s * d + rem,
                0 <= rem < d,
                kk > 0,
        ;
        assert(s * mk * se <= num * one && ((s * mk * se < num * one) <==> (s * mk * se * one < num
            * one * one)) && num * one < (s + 1) * mk * se) by (nonlinear_arith)
            requires
                s * mk * se * one <= num * one * one,
                num * one * one < (s + 1) * mk * se * one,
                one > 0,
        ;
        lemma_locates_ratio(num, mk, s as nat, e as int, rem != 0);
    }
    round(f, s, e, rem != 0)
}

/// The integer square root.
fn integer_root(n: u128) -> (r: u128)
    requires
        n < 0x4000_0000_0000_0000_0000_0000_0000,
    ensures
        r < 0x100_0000_0000_0000,
        r * r <= n < (r + 1) * (r + 1),
{
    let mut lo: u128 = 0;
    let mut hi: u128 = 0x100_0000_0000_0000;
    while hi - lo > 1
        invariant
            lo < hi <= 0x100_0000_0000_0000,
            lo * lo <= n < hi * hi,
        decreases hi - lo,
    {
        let mid: u128 = lo + (hi - lo) / 2;
        proof {
            assert(mid * mid <= 0x100_0000_0000_0000 * 0x100_0000_0000_0000) by (nonlinear_arith)
                requires
                    0 <= mid <= 0x100_0000_0000_0000,
            ;
        }
        if mid * mid <= n {
            lo = mid;
        } else {
            hi = mid;
        }
    }
    lo
}

pub fn root_magnitude(f: Format, k: u64) -> (r: u64)
    requires
        f.wf(),
        0 < k < f.kinf(),
    ensures
        r <= f.kinf(),
        r == nearest(f.p as nat, f.kinf(), root_of(f, k as nat)),
{
    let ghost m = mag(f.p as nat, k as nat);
    let ghost rad = m * pow2(f.unit as nat);
    let (ek, q) = full_parts(f, k);
    let odd: bool = (ek + f.unit as i32 + 2000) % 2 == 1;
    let g: i32 = if odd {
        57
    } else {
        56
    };
    let n: u128 = if odd {
        q as u128 * 0x200_0000_0000_0000
    } else {
        q as u128 * 0x100_0000_0000_0000
    };
    proof {
        lemma_pow2_60();
        lemma2_to64_rest();
        lemma2_to64();
    }
    let s: u128 = integer_root(n);
    proof {
        assert(s * s < 0x1_0000_0000_0000_0000_0000_0000_0000) by (nonlinear_arith)
            requires
                0 <= s < 0x100_0000_0000_0000,
        ;
    }
    let sticky: bool = s * s != n;
    let e: i32 = (ek + f.unit as i32 - g + 4000) / 2 - 2000;
    proof {
        let one = scaled_pow2(0);
        let se = scaled_pow2(e as int);
        let sk = scaled_pow2(ek as int);
        let pu = pow2(f.unit as nat);
        let w = f.hidden();
        assert(2 * e == ek + f.unit - g);
        assert(s >= 4 * w) by (nonlinear_arith)
            requires
                n < (s + 1) * (s + 1),
                n >= w * 0x100_0000_0000_0000,
                1 <= w <= 0x10_0000_0000_0000,
        ;
        lemma_pow2_adds((ek + SCALE) as nat, f.unit as nat);
        lemma_pow2_adds((ek + SCALE + f.unit) as nat, SCALE as nat);
        lemma_pow2_adds((e + SCALE) as nat, (e + SCALE) as nat);
        lemma_pow2_adds(g as nat, (2 * e + 2 * SCALE) as nat);
        lemma_pow2_pos((e + SCALE) as nat);
        lemma_pow2_pos(SCALE as nat);
        assert(sk * pu * one == pow2(g as nat) * (se * se));
        assert(n == q * pow2(g as nat));
        assert(rad * one * one == n * (se * se)) by (nonlinear_arith)
            requires
                rad == m * pu,
                m * one == q * sk,
                sk * pu * one == pow2(g as nat) * (se * se),
                n == q * pow2(g as nat),
        ;
        lemma_locates_root(rad, n as nat, s as nat, e as int, sticky);
    }
    round(f, s, e, sticky)
}

proof fn lemma_locates_root(rad: nat, n: nat, s: nat, e: int, sticky: bool)
    requires
        e >= -SCALE,
        rad * scaled_pow2(0) * scaled_pow2(0) == n * (scaled_pow2(e) * scaled_pow2(e)),
        s * s <= n < (s + 1) * (s + 1),
        sticky <==> s * s != n,
    ensures
        locates((Exact::Root { radicand: rad }), s, e, sticky),
{
    let x = Exact::Root { radicand: rad };
    let one = scaled_pow2(0);
    let se = scaled_pow2(e);
    lemma_pow2_pos(SCALE as nat);
    lemma_pow2_pos((e + SCALE) as nat);
    let ss = se * se;
    assert(ss > 0) by (nonlinear_arith)
        requires
            ss == se * se,
            se > 0,
    ;
    let o2 = one * one;
    assert(o2 > 0) by (nonlinear_arith)
        requires
            o2 == one * one,
            one > 0,
    ;
    assert(4 * rad * o2 == 4 * n * ss) by (nonlinear_arith)
        requires
            rad * one * one == n * ss,
            o2 == one * one,
    ;
    assert forall|m: nat| #[trigger] x.excess(m) == x.excess(m) implies {
        &&& m * one < 2 * s * se ==> x.excess(m) > 0
        &&& m * one == 2 * s * se ==> (if sticky {
            x.excess(m) > 0
        } else {
            x.excess(m) == 0
        })
        &&& m * one >= 2 * (s + 1) * se ==> x.excess(m) < 0
        &&& !sticky && m * one > 2 * s * se ==> x.excess(m) < 0
    } by {
        let a = m * one;
        let lo = 2 * s * se;
        let hi = 2 * (s + 1) * se;
        let mm = m * m;
        assert(a * a == mm * o2) by (nonlinear_arith)
            requires
                a == m * one,
                mm == m * m,
                o2 == one * one,
        ;
        assert(lo * lo == 4 * (s * s) * ss && hi * hi == 4 * ((s + 1) * (s + 1)) * ss)
            by (nonlinear_arith)
            requires
                lo == 2 * s * se,
                hi == 2 * (s + 1) * se,
                ss == se * se,
        ;
        assert(4 * (s * s) * ss <= 4 * n * ss && 4 * n * ss < 4 * ((s + 1) * (s + 1)) * ss && (s * s
            < n ==> 4 * (s * s) * ss < 4 * n * ss)) by (nonlinear_arith)
            requires
                s * s <= n < (s + 1) * (s + 1),
                ss > 0,
        ;
        lemma_square_order(a, lo);
        lemma_square_order(lo, a);
        lemma_square_order(hi, a);
        lemma_unscale(mm, 4 * rad, o2);
    }
}

proof fn lemma_square_order(a: nat, b: nat)
    ensures
        a < b ==> a * a < b * b,
        a <= b ==> a * a <= b * b,
{
    assert(a < b ==> a * a < b * b) by (nonlinear_arith)
        requires
            a >= 0,
            b >= 0,
    ;
}

proof fn lemma_unscale(a: nat, b: nat, c: nat)
    requires
        c > 0,
    ensures
        a * c < b * c ==> a < b,
        a * c == b * c ==> a == b,
        a * c > b * c ==> a > b,
{
    assert(a * c < b * c ==> a < b) by (nonlinear_arith);
    assert(a * c > b * c ==> a > b) by (nonlinear_arith);
    assert(a * c == b * c ==> a == b) by (nonlinear_arith)
        requires
            c > 0,
    ;
}

pub fn recast_magnitude(from: Format, to: Format, k: u64) -> (r: u64)
    requires
        from.wf(),
        to.wf(),
        k < from.kinf(),
    ensures
        r <= to.kinf(),
        r == nearest(to.p as nat, to.kinf(), recast_of(from, to, k as nat)),
{
    let ghost den = pow2(from.unit as nat);
    let ghost num = mag(from.p as nat, k as nat) * pow2(to.unit as nat);
    proof {
        lemma_pow2_pos(from.unit as nat);
        lemma2_to64_rest();
        lemma2_to64();
    }
    let (u, q) = parts(from, k);
    if q == 0 {
        proof {
            assert(num == 0) by (nonlinear_arith)
                requires
                    num == (q * pow2(u as nat)) * pow2(to.unit as nat),
                    q == 0,
            ;
            lemma_zero_rounds_to_zero(to, den);
        }
        return 0;
    }
    let s: u128 = q as u128;
    let e: i32 = u + to.unit as i32 - from.unit as i32;
    proof {
        let one = scaled_pow2(0);
        let se = scaled_pow2(e as int);
        lemma_scaled_shift(e as int, from.unit as nat);
        lemma_scaled_shift(0, (u + to.unit) as nat);
        lemma_pow2_adds(u as nat, to.unit as nat);
        assert(s * den * se == num * one) by (nonlinear_arith)
            requires
                s == q,
                num == (q * pow2(u as nat)) * pow2(to.unit as nat),
                den * se == (pow2(u as nat) * pow2(to.unit as nat)) * one,
        ;
        assert((s + 1) * den * se > s * den * se) by (nonlinear_arith)
            requires
                den > 0,
                se > 0,
        ;
        lemma_locates_ratio(num, den, s as nat, e as int, false);
    }
    round(to, s, e, false)
}

pub fn integer_magnitude(to: Format, n: u64) -> (r: u64)
    requires
        to.wf(),
    ensures
        r <= to.kinf(),
        r == nearest(to.p as nat, to.kinf(), integer_of(to, n as nat)),
{
    let ghost num = n * pow2(to.unit as nat);
    if n == 0 {
        proof {
            assert(num == 0) by (nonlinear_arith)
                requires
                    num == n * pow2(to.unit as nat),
                    n == 0,
            ;
            lemma_zero_rounds_to_zero(to, 1);
        }
        return 0;
    }
    let s: u128 = n as u128;
    let e: i32 = to.unit as i32;
    proof {
        let one = scaled_pow2(0);
        let se = scaled_pow2(e as int);
        lemma_scaled_shift(0, to.unit as nat);
        lemma_scaled_shift(e as int, 0);
        assert(s * 1 * se == num * one) by (nonlinear_arith)
            requires
                s == n,
                num == n * pow2(to.unit as nat),
                se == pow2(to.unit as nat) * one,
        ;
        assert((s + 1) * 1 * se > s * 1 * se) by (nonlinear_arith)
            requires
                se > 0,
        ;
        lemma_locates_ratio(num as nat, 1, s as nat, e as int, false);
    }
    round(to, s, e, false)
}

} // verus!
