use vstd::arithmetic::div_mod::lemma_fundamental_div_mod_converse;
use vstd::arithmetic::power2::lemma2_to64;
use vstd::arithmetic::power2::lemma2_to64_rest;
use vstd::arithmetic::power2::lemma_pow2_adds;
use vstd::arithmetic::power2::lemma_pow2_pos;
use vstd::arithmetic::power2::lemma_pow2_strictly_increases;
use vstd::arithmetic::power2::lemma_pow2_unfold;
use vstd::arithmetic::power2::pow2;
use vstd::prelude::*;

use crate::binary::exact::Exact;
use crate::binary::exact::in_range;
use crate::binary::exact::lemma_mag_increases;
use crate::binary::exact::lemma_mag_next;
use crate::binary::exact::lemma_mag_of_parts;
use crate::binary::exact::lemma_nearest_unique;
use crate::binary::exact::lemma_parts_of;
use crate::binary::exact::mag;
use crate::binary::exact::nearest;
use crate::binary::exact::rounds_to;
use crate::binary::exact::step_of;

verus! {

/// Every power of two that an exact intermediate result is scaled by becomes an
/// integer when it is multiplied by `2^SCALE`.
pub const SCALE: i32 = 6000;

/// `2^(e + SCALE)`.
pub open spec fn scaled_pow2(e: int) -> nat
    recommends
        e >= -SCALE,
{
    pow2((e + SCALE) as nat)
}

/// `x` lies in `[s * 2^e, (s + 1) * 2^e)`, and above the lower end exactly if
/// `sticky`.
pub open spec fn locates(x: Exact, s: nat, e: int, sticky: bool) -> bool {
    forall|m: nat|
        {
            &&& m * scaled_pow2(0) < 2 * s * scaled_pow2(e) ==> #[trigger] x.excess(m) > 0
            &&& m * scaled_pow2(0) == 2 * s * scaled_pow2(e) ==> (if sticky {
                x.excess(m) > 0
            } else {
                x.excess(m) == 0
            })
            &&& m * scaled_pow2(0) >= 2 * (s + 1) * scaled_pow2(e) ==> x.excess(m) < 0
            &&& !sticky && m * scaled_pow2(0) > 2 * s * scaled_pow2(e) ==> x.excess(m) < 0
        }
}

/// A binary interchange format: `p` fraction bits, the all-ones exponent field
/// `top`, and the exponent `-unit` of the smallest positive number.
#[derive(Clone, Copy)]
pub struct Format {
    pub p: u32,
    pub top: u32,
    pub unit: u32,
}

impl Format {
    /// The two formats in use: 24 and 53 significant bits.
    pub open spec fn wf(self) -> bool {
        ||| self.p == 23 && self.top == 255 && self.unit == 149
        ||| self.p == 52 && self.top == 2047 && self.unit == 1074
    }

    pub open spec fn hidden(self) -> nat {
        pow2(self.p as nat)
    }

    /// The index of infinity.
    pub open spec fn kinf(self) -> nat {
        self.top as nat * pow2(self.p as nat)
    }

    /// `2^p`.
    pub fn hidden_bit(self) -> (r: u64)
        requires
            self.wf(),
        ensures
            r == self.hidden(),
    {
        proof {
            lemma2_to64();
            lemma2_to64_rest();
        }
        if self.p == 23 {
            0x80_0000
        } else {
            0x10_0000_0000_0000
        }
    }

    /// The index of infinity.
    pub fn infinity(self) -> (r: u64)
        requires
            self.wf(),
        ensures
            r == self.kinf(),
    {
        proof {
            lemma2_to64();
            lemma2_to64_rest();
        }
        if self.p == 23 {
            0x7f80_0000
        } else {
            0x7ff0_0000_0000_0000
        }
    }
}

/// The single-precision format.
pub open spec fn single() -> Format {
    Format { p: 23, top: 255, unit: 149 }
}

/// The double-precision format.
pub open spec fn double() -> Format {
    Format { p: 52, top: 2047, unit: 1074 }
}

pub proof fn lemma_scaled_shift(e: int, d: nat)
    requires
        e >= -SCALE,
    ensures
        scaled_pow2(e + d) == pow2(d) * scaled_pow2(e),
        scaled_pow2(e) > 0,
        pow2(d) > 0,
{
    lemma_pow2_adds(d, (e + SCALE) as nat);
    lemma_pow2_pos(d);
    lemma_pow2_pos((e + SCALE) as nat);
}

/// What the halving of a located number leaves: the kept significand `q` at
/// exponent `u`, the first dropped bit `half` and whether anything else dropped.
spec fn halved(s: nat, e: int, q: nat, u: int, half: bool, r: nat, d: nat) -> bool {
    &&& u == e + d
    &&& d >= 1
    &&& s == q * pow2(d) + (if half {
        pow2((d - 1) as nat)
    } else {
        0
    }) + r
    &&& r < pow2((d - 1) as nat)
}

proof fn lemma_halve_again(
    s: nat,
    e: int,
    q: nat,
    u: int,
    half: bool,
    r: nat,
    d: nat,
) -> (r2: nat)
    requires
        halved(s, e, q, u, half, r, d),
    ensures
        halved(s, e, q / 2, u + 1, q % 2 == 1, r2, d + 1),
        (r2 > 0) <==> (half || r > 0),
{
    lemma_pow2_unfold(d);
    lemma_pow2_unfold(d + 1);
    lemma_pow2_pos((d - 1) as nat);
    let r2 = (if half {
        pow2((d - 1) as nat)
    } else {
        0
    }) + r;
    assert(q * pow2(d) == (q / 2) * pow2(d + 1) + (q % 2) * pow2(d)) by (nonlinear_arith)
        requires
            pow2(d + 1) == 2 * pow2(d),
            q == 2 * (q / 2) + q % 2,
    ;
    assert((q % 2) * pow2(d) == (if q % 2 == 1 {
        pow2(d)
    } else {
        0
    })) by (nonlinear_arith)
        requires
            q % 2 == 0 || q % 2 == 1,
    ;
    r2
}

/// The midpoint above the kept significand decides the rounding.
proof fn lemma_round_choice(
    f: Format,
    x: Exact,
    s: nat,
    e: int,
    sticky: bool,
    q: nat,
    u: nat,
    half: bool,
    r: nat,
    d: nat,
    up: bool,
)
    requires
        f.wf(),
        x.wf(),
        e >= -SCALE,
        locates(x, s, e, sticky),
        halved(s, e, q, u as int, half, r, d),
        in_range(f.p as nat, u, q),
        u + 1 < f.top,
        up == (half && (r > 0 || sticky || q % 2 == 1)),
    ensures
        rounds_to(
            f.p as nat,
            f.kinf(),
            x,
            u * f.hidden() + q + (if up {
                1nat
            } else {
                0nat
            }),
        ),
{
    let p = f.p as nat;
    let w = f.hidden();
    let k = u * w + q;
    let one = scaled_pow2(0);
    let se = scaled_pow2(e);
    lemma_pow2_pos(p);
    lemma_mag_of_parts(p, u, q);
    lemma_mag_next(p, k);
    lemma_mag_next(p, k + 1);
    lemma_scaled_shift(e, d);
    lemma_scaled_shift(0, u);
    lemma_pow2_pos((d - 1) as nat);
    lemma_pow2_unfold(d);
    // the step at k is 2^u
    lemma_parts_of(p, k);
    assert(mag(p, k + 1) == (q + 1) * pow2(u)) by {
        lemma_step_of_parts(p, u, q);
        assert((q + 1) * pow2(u) == q * pow2(u) + pow2(u)) by (nonlinear_arith);
    }
    let pd = pow2(d);
    let pu = pow2(u);
    // 2^u * 2^SCALE == 2^d * se
    assert(scaled_pow2(u as int) == pu * one);
    assert(pu * one == pd * se);
    let m = mag(p, k) + mag(p, k + 1);
    assert(m * one == (2 * q + 1) * pd * se) by (nonlinear_arith)
        requires
            m == q * pu + (q + 1) * pu,
            pu * one == pd * se,
    ;
    let h = pow2((d - 1) as nat);
    if half {
        assert(2 * s * se == (2 * q + 1) * pd * se + 2 * r * se) by (nonlinear_arith)
            requires
                s == q * pd + h + r,
                pd == 2 * h,
        ;
        assert(r > 0 ==> 2 * r * se > 0) by (nonlinear_arith)
            requires
                se > 0,
        ;
        assert(r == 0 ==> 2 * r * se == 0) by (nonlinear_arith);
        if r > 0 {
            assert(m * one < 2 * s * se);
            assert(x.excess(m) > 0);
        } else {
            assert(m * one == 2 * s * se);
            assert(if sticky {
                x.excess(m) > 0
            } else {
                x.excess(m) == 0
            });
        }
    } else {
        assert(2 * (s + 1) * se <= (2 * q + 1) * pd * se) by (nonlinear_arith)
            requires
                s == q * pd + r,
                r + 1 <= h,
                pd == 2 * h,
                se > 0,
        ;
        assert(x.excess(m) < 0);
    }
    // parity of the index is the parity of the significand
    assert(k % 2 == q % 2) by {
        lemma_pow2_unfold(p);
        let g = pow2((p - 1) as nat);
        assert(k == 2 * (u * g) + q) by (nonlinear_arith)
            requires
                k == u * w + q,
                w == 2 * g,
        ;
    }
    assert(k + 1 <= f.kinf()) by (nonlinear_arith)
        requires
            k == u * w + q,
            q < 2 * w,
            u + 1 < f.top,
            f.kinf() == f.top * w,
            w > 0,
    ;
    if up {
        let m2 = mag(p, k + 1) + mag(p, k + 2);
        assert(m2 * one >= 2 * (q + 1) * pd * se) by (nonlinear_arith)
            requires
                m2 >= 2 * ((q + 1) * pu),
                pu * one == pd * se,
        ;
        assert(s + 1 <= (q + 1) * pd) by (nonlinear_arith)
            requires
                s == q * pd + h + r,
                r + 1 <= h,
                pd == 2 * h,
        ;
        assert(2 * (s + 1) * se <= 2 * (q + 1) * pd * se) by (nonlinear_arith)
            requires
                s + 1 <= (q + 1) * pd,
                se > 0,
        ;
        assert(x.excess(m2) < 0);
    } else if k > 0 {
        let m0 = mag(p, (k - 1) as nat) + mag(p, k);
        lemma_mag_increases(p, (k - 1) as nat, k);
        assert(m0 < 2 * mag(p, k));
        assert(m0 * one < 2 * q * pd * se) by (nonlinear_arith)
            requires
                m0 < 2 * (q * pu),
                pu * one == pd * se,
                one > 0,
        ;
        assert(2 * q * pd * se <= 2 * s * se) by (nonlinear_arith)
            requires
                q * pd <= s,
                se > 0,
        ;
        assert(x.excess(m0) > 0);
    }
}

proof fn lemma_step_of_parts(p: nat, u: nat, q: nat)
    requires
        in_range(p, u, q),
    ensures
        step_of(p, u * pow2(p) + q) == u,
{
    lemma_pow2_pos(p);
    let w = pow2(p) as int;
    let k = u * w + q;
    if u > 0 {
        assert(k == (u + 1) * w + (q - w)) by (nonlinear_arith)
            requires
                k == u * w + q,
        ;
        lemma_fundamental_div_mod_converse(k, w, (u + 1) as int, q - w);
        assert(k >= 2 * w) by (nonlinear_arith)
            requires
                k == u * w + q,
                u >= 1,
                q >= w,
                w > 0,
        ;
    }
}

/// Past the largest finite number.
proof fn lemma_round_overflow(
    f: Format,
    x: Exact,
    s: nat,
    e: int,
    sticky: bool,
    q: nat,
    u: nat,
    half: bool,
    r: nat,
    d: nat,
)
    requires
        f.wf(),
        x.wf(),
        e >= -SCALE,
        locates(x, s, e, sticky),
        halved(s, e, q, u as int, half, r, d),
        f.hidden() <= q,
        u + 1 >= f.top,
    ensures
        rounds_to(f.p as nat, f.kinf(), x, f.kinf()),
{
    let p = f.p as nat;
    let w = f.hidden();
    let k = f.kinf();
    let one = scaled_pow2(0);
    let se = scaled_pow2(e);
    let t = (f.top - 1) as nat;
    lemma_pow2_pos(p);
    assert(k == t * w + w) by (nonlinear_arith)
        requires
            k == f.top * w,
            t == f.top - 1,
    ;
    lemma_mag_of_parts(p, t, w);
    lemma_scaled_shift(e, d);
    lemma_scaled_shift(0, u);
    lemma_scaled_shift(0, t);
    lemma_pow2_pos((d - 1) as nat);
    if t < u {
        lemma_pow2_strictly_increases(t, u);
    }
    assert(k > 0) by (nonlinear_arith)
        requires
            k == t * w + w,
            w > 0,
    ;
    let pt = pow2(t);
    let pu = pow2(u);
    let pd = pow2(d);
    let m0 = mag(p, (k - 1) as nat) + mag(p, k);
    lemma_mag_increases(p, (k - 1) as nat, k);
    assert(scaled_pow2(u as int) == pu * one);
    assert(m0 * one < 2 * q * pd * se) by (nonlinear_arith)
        requires
            m0 < 2 * (w * pt),
            pt <= pu,
            w <= q,
            w > 0,
            pu * one == pd * se,
            one > 0,
    ;
    assert(2 * q * pd * se <= 2 * s * se) by (nonlinear_arith)
        requires
            q * pd <= s,
            se > 0,
    ;
    assert(x.excess(m0) > 0);
}

/// Below half of the smallest positive number.
proof fn lemma_round_underflow(
    f: Format,
    x: Exact,
    s: nat,
    e: int,
    sticky: bool,
    u: int,
    half: bool,
    r: nat,
    d: nat,
)
    requires
        f.wf(),
        x.wf(),
        e >= -SCALE,
        locates(x, s, e, sticky),
        halved(s, e, 0, u, half, r, d),
        -SCALE <= u < 0,
    ensures
        rounds_to(f.p as nat, f.kinf(), x, 0),
{
    let p = f.p as nat;
    let se = scaled_pow2(e);
    let one = scaled_pow2(0);
    lemma_pow2_pos(p);
    lemma_scaled_shift(e, d);
    lemma_scaled_shift(u, (-u) as nat);
    lemma_pow2_unfold(d);
    lemma_pow2_unfold((-u) as nat);
    lemma_pow2_pos((-u - 1) as nat);
    let pd = pow2(d);
    assert(0 * pd == 0) by (nonlinear_arith);
    assert(s + 1 <= pd);
    assert(2 * (s + 1) * se <= 2 * pd * se) by (nonlinear_arith)
        requires
            s + 1 <= pd,
            se > 0,
    ;
    assert(pd * se == scaled_pow2(u));
    assert(one >= 2 * scaled_pow2(u)) by (nonlinear_arith)
        requires
            one == pow2((-u) as nat) * scaled_pow2(u),
            pow2((-u) as nat) >= 2,
    ;
    assert(2 * pd * se == 2 * scaled_pow2(u)) by (nonlinear_arith)
        requires
            pd * se == scaled_pow2(u),
    ;
    let m = mag(p, 0) + mag(p, 1);
    assert(m == 1);
    assert(m * one == one) by (nonlinear_arith)
        requires
            m == 1,
    ;
    assert(x.excess(m) < 0);
}

/// The index of the number nearest to an exact result that lies in
/// `[s * 2^e, (s + 1) * 2^e)`, above the lower end exactly if `sticky`.
pub fn round(f: Format, s: u128, e: i32, sticky: bool) -> (k: u64)
    requires
        f.wf(),
        0 < s < 0x1000_0000_0000_0000_0000_0000_0000_0000,
        -5000 <= e <= 5000,
        sticky ==> s >= 4 * f.hidden(),
    ensures
        k <= f.kinf(),
        forall|x: Exact| #[trigger]
            locates(x, s as nat, e as int, sticky) && x.wf() ==> rounds_to(
                f.p as nat,
                f.kinf(),
                x,
                k as nat,
            ) && nearest(f.p as nat, f.kinf(), x) == k,
{
    let w: u128 = f.hidden_bit() as u128;
    proof {
        lemma2_to64();
        lemma2_to64_rest();
    }
    // scale small exact values up until two bits can be dropped
    let mut t: u128 = s;
    let mut c: i32 = e;
    while t < 4 * w
        invariant
            f.wf(),
            w == f.hidden(),
            1 <= w <= 0x10_0000_0000_0000,
            0 < t < 0x1000_0000_0000_0000_0000_0000_0000_0000,
            sticky ==> (t == s && c == e && t >= 4 * w),
            -5000 <= e <= 5000,
            e - 56 <= c <= e,
            c < e ==> t * 1 >= pow2((e - c) as nat),
            t * scaled_pow2(c as int) == s * scaled_pow2(e as int),
        decreases 8 * w - t,
    {
        proof {
            lemma_scaled_shift(c as int - 1, 1);
            assert(pow2(1) == 2) by {
                lemma2_to64();
            }
            assert((2 * t) * scaled_pow2(c as int - 1) == t * scaled_pow2(c as int))
                by (nonlinear_arith)
                requires
                    scaled_pow2(c as int) == 2 * scaled_pow2(c as int - 1),
            ;
            lemma_pow2_unfold((e - c + 1) as nat);
            if c == e {
                lemma2_to64();
            }
            if c == e - 56 {
                lemma2_to64();
                lemma2_to64_rest();
            }
        }
        t = 2 * t;
        c = c - 1;
    }
    // drop bits until the significand fits
    let mut q: u128 = t / 2;
    let mut half: bool = t % 2 == 1;
    let mut rest: bool = false;
    let mut u: i32 = c + 1;
    let ghost mut r: nat = 0;
    let ghost mut d: nat = 1;
    proof {
        assert(pow2(0) == 1 && pow2(1) == 2) by {
            lemma2_to64();
        }
    }
    while q >= 2 * w
        invariant
            f.wf(),
            w == f.hidden(),
            1 <= w <= 0x10_0000_0000_0000,
            w <= q < 0x1000_0000_0000_0000_0000_0000_0000_0000,
            halved(t as nat, c as int, q as nat, u as int, half, r, d),
            rest <==> r > 0,
            -5056 <= c <= 5000,
            t < 0x1000_0000_0000_0000_0000_0000_0000_0000,
            u == c + d,
            d <= 125,
        decreases q,
    {
        proof {
            let r2 = lemma_halve_again(t as nat, c as int, q as nat, u as int, half, r, d);
            r = r2;
            assert(d <= 124) by {
                if d >= 125 {
                    lemma2_to64();
                    lemma_pow2_adds(61, 64);
                    assert(pow2(125) == 0x2000_0000_0000_0000_0000_0000_0000_0000) by {
                        lemma2_to64_rest();
                    }
                    assert(q * pow2(d) >= pow2(125)) by (nonlinear_arith)
                        requires
                            q >= 1,
                            pow2(d) >= pow2(125),
                    ;
                }
            }
            d = d + 1;
        }
        rest = rest || half;
        half = q % 2 == 1;
        q = q / 2;
        u = u + 1;
    }
    // and until the exponent is one that the format has
    while u < 0 && q > 0
        invariant
            f.wf(),
            w == f.hidden(),
            q < 2 * w,
            u <= 0 || w <= q,
            halved(t as nat, c as int, q as nat, u as int, half, r, d),
            rest <==> r > 0,
            -5056 <= u <= 5200,
            -5056 <= c <= 5000,
        decreases q,
    {
        proof {
            let r2 = lemma_halve_again(t as nat, c as int, q as nat, u as int, half, r, d);
            r = r2;
            d = d + 1;
        }
        rest = rest || half;
        half = q % 2 == 1;
        q = q / 2;
        u = u + 1;
    }
    proof {
        assert forall|x: Exact| #[trigger] locates(x, s as nat, e as int, sticky) implies locates(
            x,
            t as nat,
            c as int,
            sticky,
        ) by {
            lemma_relocate(x, s as nat, e as int, t as nat, c as int, sticky);
        }
    }
    if u < 0 {
        proof {
            lemma_pow2_pos(f.p as nat);
            assert forall|x: Exact| #[trigger]
                locates(x, s as nat, e as int, sticky) && x.wf() implies rounds_to(
                f.p as nat,
                f.kinf(),
                x,
                0,
            ) && nearest(f.p as nat, f.kinf(), x) == 0 by {
                lemma_round_underflow(f, x, t as nat, c as int, sticky, u as int, half, r, d);
                lemma_nearest_unique(f.p as nat, f.kinf(), x, 0);
            }
        }
        return 0;
    }
    if u as u32 + 1 >= f.top {
        proof {
            assert forall|x: Exact| #[trigger]
                locates(x, s as nat, e as int, sticky) && x.wf() implies rounds_to(
                f.p as nat,
                f.kinf(),
                x,
                f.kinf(),
            ) && nearest(f.p as nat, f.kinf(), x) == f.kinf() by {
                lemma_round_overflow(
                    f,
                    x,
                    t as nat,
                    c as int,
                    sticky,
                    q as nat,
                    u as nat,
                    half,
                    r,
                    d,
                );
                lemma_nearest_unique(f.p as nat, f.kinf(), x, f.kinf());
            }
        }
        return f.infinity();
    }
    let up: bool = half && (rest || sticky || q % 2 == 1);
    let one: u64 = if up {
        1
    } else {
        0
    };
    proof {
        assert(u * w <= 2046 * w) by (nonlinear_arith)
            requires
                0 <= u <= 2046,
                w >= 0,
        ;
        assert(u * w + q + one <= f.kinf()) by (nonlinear_arith)
            requires
                u + 1 < f.top,
                q < 2 * w,
                one <= 1,
                f.kinf() == f.top * w,
        ;
    }
    let k: u64 = u as u64 * f.hidden_bit() + q as u64 + one;
    proof {
        assert forall|x: Exact| #[trigger]
            locates(x, s as nat, e as int, sticky) && x.wf() implies rounds_to(
            f.p as nat,
            f.kinf(),
            x,
            k as nat,
        ) && nearest(f.p as nat, f.kinf(), x) == k by {
            lemma_round_choice(
                f,
                x,
                t as nat,
                c as int,
                sticky,
                q as nat,
                u as nat,
                half,
                r,
                d,
                up,
            );
            lemma_nearest_unique(f.p as nat, f.kinf(), x, k as nat);
        }
    }
    k
}

proof fn lemma_relocate(x: Exact, s: nat, e: int, t: nat, c: int, sticky: bool)
    requires
        -SCALE <= c <= e,
        t * scaled_pow2(c) == s * scaled_pow2(e),
        sticky ==> t == s && c == e,
        locates(x, s, e, sticky),
    ensures
        locates(x, t, c, sticky),
{
    let one = scaled_pow2(0);
    if c < e {
        lemma_scaled_shift(c, (e - c) as nat);
        let pc = scaled_pow2(c);
        assert forall|m: nat| #[trigger] x.excess(m) == x.excess(m) implies {
            &&& m * one < 2 * t * pc ==> x.excess(m) > 0
            &&& m * one == 2 * t * pc ==> x.excess(m) == 0
            &&& m * one >= 2 * (t + 1) * pc ==> x.excess(m) < 0
            &&& m * one > 2 * t * pc ==> x.excess(m) < 0
        } by {
            assert(2 * (t + 1) * pc > 2 * t * pc) by (nonlinear_arith)
                requires
                    pc > 0,
            ;
            assert(2 * t * pc == 2 * s * scaled_pow2(e)) by (nonlinear_arith)
                requires
                    t * pc == s * scaled_pow2(e),
            ;
        }
    } else {
        lemma_scaled_shift(c, 0);
        assert(t == s) by (nonlinear_arith)
            requires
                t * scaled_pow2(c) == s * scaled_pow2(c),
                scaled_pow2(c) > 0,
        ;
    }
}

} // verus!
