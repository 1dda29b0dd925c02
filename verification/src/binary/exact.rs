use vstd::arithmetic::div_mod::lemma_fundamental_div_mod;
use vstd::arithmetic::div_mod::lemma_fundamental_div_mod_converse;
use vstd::arithmetic::power2::lemma2_to64;
use vstd::arithmetic::power2::lemma_pow2_pos;
use vstd::arithmetic::power2::lemma_pow2_unfold;
use vstd::arithmetic::power2::pow2;
use vstd::prelude::*;


verus! {

/// Magnitude of the `k`-th non-negative number of a binary format with `p`
/// fraction bits, in units of the smallest positive number of that format.
///
/// The numbers of a format are indexed in increasing order by their bit pattern
/// without the sign: the exponent field is `k / 2^p`, the fraction `k % 2^p`.
pub open spec fn mag(p: nat, k: nat) -> nat {
    if k < 2 * pow2(p) {
        k
    } else {
        (k % pow2(p) + pow2(p)) * pow2((k / pow2(p) - 1) as nat)
    }
}

/// A non-negative real number that an operation has to round.
pub enum Exact {
    /// The quotient `num / den`.
    Ratio { num: nat, den: nat },
    /// The square root of `radicand`.
    Root { radicand: nat },
}

impl Exact {
    /// The quotient has a positive denominator.
    pub open spec fn wf(self) -> bool {
        match self {
            Exact::Ratio { num, den } => den > 0,
            Exact::Root { radicand } => true,
        }
    }

    /// An integer with the sign of `2 * self - m`.
    pub open spec fn excess(self, m: nat) -> int {
        match self {
            Exact::Ratio { num, den } => 2 * num - m * den,
            Exact::Root { radicand } => 4 * radicand - m * m,
        }
    }

    /// `self <= other`.
    pub open spec fn le(self, other: Exact) -> bool {
        match (self, other) {
            (Exact::Ratio { num: n1, den: d1 }, Exact::Ratio { num: n2, den: d2 }) => n1 * d2 <= n2
                * d1,
            (Exact::Root { radicand: r1 }, Exact::Root { radicand: r2 }) => r1 <= r2,
            _ => false,
        }
    }
}

/// `k` is the number of the format nearest to `x`; where two numbers are equally
/// near, `k` is the even one. `kinf` is the first index past the finite numbers:
/// it stands for infinity, and takes every `x` that is nearer to the number that
/// would follow the largest finite one.
pub open spec fn rounds_to(p: nat, kinf: nat, x: Exact, k: nat) -> bool {
    &&& k <= kinf
    &&& k > 0 ==> {
        let e = x.excess(mag(p, (k - 1) as nat) + mag(p, k));
        e > 0 || (e == 0 && k % 2 == 0)
    }
    &&& k < kinf ==> {
        let e = x.excess(mag(p, k) + mag(p, k + 1));
        e < 0 || (e == 0 && k % 2 == 0)
    }
}

/// The index of the number of the format that `x` rounds to.
pub open spec fn nearest(p: nat, kinf: nat, x: Exact) -> nat {
    choose|k: nat| rounds_to(p, kinf, x, k)
}

/// The exponent step and the significand of the `k`-th number.
pub open spec fn step_of(p: nat, k: nat) -> nat {
    if k < 2 * pow2(p) {
        0
    } else {
        (k / pow2(p) - 1) as nat
    }
}

pub open spec fn sig_of(p: nat, k: nat) -> nat {
    (k - step_of(p, k) * pow2(p)) as nat
}

/// A significand `q` at step `u` in the range that the format uses.
pub open spec fn in_range(p: nat, u: nat, q: nat) -> bool {
    q < 2 * pow2(p) && (u == 0 || pow2(p) <= q)
}

pub proof fn lemma_mag_of_parts(p: nat, u: nat, q: nat)
    requires
        in_range(p, u, q),
    ensures
        mag(p, u * pow2(p) + q) == q * pow2(u),
{
    lemma_pow2_pos(p);
    let w = pow2(p) as int;
    let k = u * w + q;
    if u == 0 {
        assert(pow2(0) == 1) by {
            lemma2_to64();
        }
        assert(k == q);
    } else {
        assert(k == (u + 1) * w + (q - w)) by (nonlinear_arith)
            requires
                k == u * w + q,
        ;
        lemma_fundamental_div_mod_converse(k, w, (u + 1) as int, q - w);
        assert(k >= 2 * w) by (nonlinear_arith)
            requires
                k == u * w + q,
                u >= 1,
                q >= w,
                w > 0,
        ;
    }
}

pub proof fn lemma_parts_of(p: nat, k: nat)
    ensures
        in_range(p, step_of(p, k), sig_of(p, k)),
        k == step_of(p, k) * pow2(p) + sig_of(p, k),
        mag(p, k) == sig_of(p, k) * pow2(step_of(p, k)),
{
    lemma_pow2_pos(p);
    let w = pow2(p) as int;
    if k >= 2 * w {
        lemma_fundamental_div_mod(k as int, w);
        let e = k as int / w;
        let f = k as int % w;
        assert(e >= 2) by (nonlinear_arith)
            requires
                k == w * e + f,
                0 <= f < w,
                k >= 2 * w,
                w > 0,
        ;
        assert(k - (e - 1) * w == f + w) by (nonlinear_arith)
            requires
                k == w * e + f,
        ;
        assert((e - 1) * w >= 0) by (nonlinear_arith)
            requires
                e >= 2,
                w > 0,
        ;
    }
    lemma_mag_of_parts(p, step_of(p, k), sig_of(p, k));
}

/// The next number is one step further.
pub proof fn lemma_mag_next(p: nat, k: nat)
    ensures
        mag(p, k + 1) == mag(p, k) + pow2(step_of(p, k)),
        pow2(step_of(p, k)) >= 1,
{
    lemma_parts_of(p, k);
    let u = step_of(p, k);
    let q = sig_of(p, k);
    lemma_pow2_pos(u);
    lemma_pow2_pos(p);
    if q + 1 < 2 * pow2(p) {
        lemma_mag_of_parts(p, u, q + 1);
        assert((q + 1) * pow2(u) == q * pow2(u) + pow2(u)) by (nonlinear_arith);
    } else {
        lemma_mag_of_parts(p, u + 1, pow2(p));
        assert((u + 1) * pow2(p) + pow2(p) == u * pow2(p) + q + 1) by (nonlinear_arith)
            requires
                q + 1 == 2 * pow2(p),
        ;
        lemma_pow2_unfold(u + 1);
        assert(pow2(p) * pow2(u + 1) == q * pow2(u) + pow2(u)) by (nonlinear_arith)
            requires
                q + 1 == 2 * pow2(p),
                pow2(u + 1) == 2 * pow2(u),
        ;
    }
}

/// Larger indices are larger numbers.
pub proof fn lemma_mag_increases(p: nat, j: nat, k: nat)
    requires
        j <= k,
    ensures
        mag(p, j) <= mag(p, k),
        j < k ==> mag(p, j) < mag(p, k),
    decreases k - j,
{
    if j < k {
        lemma_mag_increases(p, j, (k - 1) as nat);
        lemma_mag_next(p, (k - 1) as nat);
    }
}

pub proof fn lemma_excess_decreases(x: Exact, m1: nat, m2: nat)
    requires
        x.wf(),
        m1 <= m2,
    ensures
        x.excess(m1) >= x.excess(m2),
        m1 < m2 ==> x.excess(m1) > x.excess(m2),
{
    match x {
        Exact::Ratio { num, den } => {
            assert(m1 * den <= m2 * den && (m1 < m2 ==> m1 * den < m2 * den)) by (nonlinear_arith)
                requires
                    m1 <= m2,
                    den > 0,
            ;
        },
        Exact::Root { radicand } => {
            assert(m1 * m1 <= m2 * m2 && (m1 < m2 ==> m1 * m1 < m2 * m2)) by (nonlinear_arith)
                requires
                    m1 <= m2,
            ;
        },
    }
}

/// Rounding respects the order: of two numbers the smaller one is not rounded to
/// the larger result.
pub proof fn lemma_rounding_monotone(p: nat, kinf: nat, x: Exact, y: Exact, j: nat, k: nat)
    requires
        x.wf(),
        y.wf(),
        x.le(y),
        rounds_to(p, kinf, x, j),
        rounds_to(p, kinf, y, k),
    ensures
        j <= k,
{
    if j > k {
        let mx = mag(p, (j - 1) as nat) + mag(p, j);
        let my = mag(p, k) + mag(p, k + 1);
        lemma_mag_increases(p, k, (j - 1) as nat);
        lemma_mag_increases(p, k + 1, j);
        assert(my <= mx);
        assert(x.excess(mx) >= 0);
        assert(y.excess(my) <= 0);
        match (x, y) {
            (Exact::Ratio { num: n1, den: d1 }, Exact::Ratio { num: n2, den: d2 }) => {
                // mx / 2 <= x <= y <= my / 2
                assert(2 * n1 * d2 >= mx * d1 * d2) by (nonlinear_arith)
                    requires
                        2 * n1 >= mx * d1,
                        d2 > 0,
                ;
                assert(2 * n2 * d1 <= my * d2 * d1) by (nonlinear_arith)
                    requires
                        2 * n2 <= my * d2,
                        d1 > 0,
                ;
                assert(2 * n1 * d2 <= 2 * n2 * d1) by (nonlinear_arith)
                    requires
                        n1 * d2 <= n2 * d1,
                ;
                assert(my >= mx) by (nonlinear_arith)
                    requires
                        mx * d1 * d2 <= my * d2 * d1,
                        d1 > 0,
                        d2 > 0,
                ;
                assert(x.excess(mx) == 0) by (nonlinear_arith)
                    requires
                        x.excess(mx) == 2 * n1 - mx * d1,
                        2 * n1 >= mx * d1,
                        2 * n1 * d2 <= 2 * n2 * d1,
                        2 * n2 <= mx * d2,
                        d1 > 0,
                        d2 > 0,
                ;
                assert(y.excess(my) == 0) by (nonlinear_arith)
                    requires
                        y.excess(my) == 2 * n2 - my * d2,
                        2 * n1 >= mx * d1,
                        2 * n1 * d2 <= 2 * n2 * d1,
                        2 * n2 <= mx * d2,
                        my == mx,
                        d1 > 0,
                        d2 > 0,
                ;
            },
            (Exact::Root { radicand: r1 }, Exact::Root { radicand: r2 }) => {
                assert(my >= mx) by (nonlinear_arith)
                    requires
                        mx * mx <= my * my,
                        my >= 0,
                        mx >= 0,
                ;
            },
            _ => {},
        }
        assert(my == mx);
        assert(x.excess(mx) == 0 && y.excess(my) == 0);
        // equal midpoints: k + 1 == j, and both would be even
        if k + 1 < j {
            lemma_mag_increases(p, k + 1, (j - 1) as nat);
            lemma_mag_increases(p, (j - 1) as nat, j);
            lemma_mag_increases(p, k, (k + 1) as nat);
        }
        assert(j == k + 1);
    }
}

/// At most one number of the format is the nearest one.
pub proof fn lemma_nearest_unique(p: nat, kinf: nat, x: Exact, k: nat)
    requires
        x.wf(),
        rounds_to(p, kinf, x, k),
    ensures
        nearest(p, kinf, x) == k,
{
    let j = nearest(p, kinf, x);
    assert(rounds_to(p, kinf, x, j));
    assert(x.le(x)) by {
        match x {
            Exact::Ratio { num, den } => {},
            Exact::Root { radicand } => {},
        }
    }
    lemma_rounding_monotone(p, kinf, x, x, j, k);
    lemma_rounding_monotone(p, kinf, x, x, k, j);
}

/// A number of the format rounds to itself.
pub proof fn lemma_representable_is_fixed(p: nat, kinf: nat, x: Exact, k: nat)
    requires
        x.wf(),
        k < kinf,
        x.excess(2 * mag(p, k)) == 0,
    ensures
        rounds_to(p, kinf, x, k),
        nearest(p, kinf, x) == k,
{
    if k > 0 {
        lemma_mag_increases(p, (k - 1) as nat, k);
        lemma_excess_decreases(x, mag(p, (k - 1) as nat) + mag(p, k), 2 * mag(p, k));
    }
    lemma_mag_increases(p, k, k + 1);
    lemma_excess_decreases(x, 2 * mag(p, k), mag(p, k) + mag(p, k + 1));
    lemma_nearest_unique(p, kinf, x, k);
}

} // verus!
