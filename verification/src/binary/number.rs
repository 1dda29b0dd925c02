use vstd::arithmetic::power2::lemma2_to64;
use vstd::arithmetic::power2::lemma2_to64_rest;
use vstd::arithmetic::power2::lemma_pow2_pos;
use vstd::prelude::*;

use crate::binary::arith::add_magnitudes;
use crate::binary::arith::divide_magnitudes;
use crate::binary::arith::integer_magnitude;
use crate::binary::arith::integer_of;
use crate::binary::arith::multiply_magnitudes;
use crate::binary::arith::product_of;
use crate::binary::arith::quotient_of;
use crate::binary::arith::recast_magnitude;
use crate::binary::arith::recast_of;
use crate::binary::arith::root_magnitude;
use crate::binary::arith::root_of;
use crate::binary::arith::subtract_magnitudes;
use crate::binary::exact::Exact;
use crate::binary::exact::lemma_mag_increases;
use crate::binary::exact::mag;
use crate::binary::exact::nearest;
use crate::binary::round::Format;

verus! {

/// A number of a binary format: its sign and the index of its magnitude. An index
/// past that of infinity is not a number.
#[derive(Clone, Copy, PartialEq, Eq, Structural)]
pub struct Num {
    pub neg: bool,
    pub k: u64,
}

impl Num {
    pub open spec fn nan(self, f: Format) -> bool {
        self.k > f.kinf()
    }

    pub open spec fn infinite(self, f: Format) -> bool {
        self.k == f.kinf()
    }

    pub open spec fn finite(self, f: Format) -> bool {
        self.k < f.kinf()
    }

    /// The value in units of the smallest positive number of the format.
    pub open spec fn value(self, f: Format) -> int {
        if self.neg {
            -(mag(f.p as nat, self.k as nat) as int)
        } else {
            mag(f.p as nat, self.k as nat) as int
        }
    }

    /// The position in the order of the numbers; both zeros have position zero.
    pub open spec fn key(self) -> int {
        if self.neg {
            -(self.k as int)
        } else {
            self.k as int
        }
    }

    pub open spec fn negated(self) -> Num {
        Num { neg: !self.neg, k: self.k }
    }
}

/// The one result that is not a number.
pub open spec fn not_a_number(f: Format) -> Num {
    Num { neg: false, k: (f.kinf() + f.hidden() / 2) as u64 }
}

/// `a < b`, false if either is not a number.
pub open spec fn less(f: Format, a: Num, b: Num) -> bool {
    !a.nan(f) && !b.nan(f) && a.key() < b.key()
}

/// `a <= b`, false if either is not a number.
pub open spec fn at_most(f: Format, a: Num, b: Num) -> bool {
    !a.nan(f) && !b.nan(f) && a.key() <= b.key()
}

/// The rounded magnitude of an exact result.
pub open spec fn rounded(f: Format, neg: bool, x: Exact) -> Num {
    Num { neg, k: nearest(f.p as nat, f.kinf(), x) as u64 }
}

/// The magnitude of an exact sum.
pub open spec fn total(v: int) -> Exact {
    Exact::Ratio {
        num: (if v < 0 {
            -v
        } else {
            v
        }) as nat,
        den: 1,
    }
}

/// `a + b`.
pub open spec fn sum(f: Format, a: Num, b: Num) -> Num {
    let v = a.value(f) + b.value(f);
    if a.nan(f) || b.nan(f) {
        not_a_number(f)
    } else if a.infinite(f) {
        if b.infinite(f) && a.neg != b.neg {
            not_a_number(f)
        } else {
            a
        }
    } else if b.infinite(f) {
        b
    } else if v == 0 {
        Num { neg: a.neg && b.neg, k: 0 }
    } else {
        rounded(f, v < 0, total(v))
    }
}

/// `a * b`.
pub open spec fn product(f: Format, a: Num, b: Num) -> Num {
    let neg = a.neg != b.neg;
    if a.nan(f) || b.nan(f) {
        not_a_number(f)
    } else if a.infinite(f) || b.infinite(f) {
        if a.k == 0 || b.k == 0 {
            not_a_number(f)
        } else {
            Num { neg, k: f.kinf() as u64 }
        }
    } else {
        rounded(f, neg, product_of(f, a.k as nat, b.k as nat))
    }
}

/// `a / b`.
pub open spec fn quotient(f: Format, a: Num, b: Num) -> Num {
    let neg = a.neg != b.neg;
    if a.nan(f) || b.nan(f) {
        not_a_number(f)
    } else if a.infinite(f) {
        if b.infinite(f) {
            not_a_number(f)
        } else {
            Num { neg, k: f.kinf() as u64 }
        }
    } else if b.infinite(f) {
        Num { neg, k: 0 }
    } else if b.k == 0 {
        if a.k == 0 {
            not_a_number(f)
        } else {
            Num { neg, k: f.kinf() as u64 }
        }
    } else {
        rounded(f, neg, quotient_of(f, a.k as nat, b.k as nat))
    }
}

/// The square root of `a`.
pub open spec fn root(f: Format, a: Num) -> Num {
    if a.nan(f) {
        not_a_number(f)
    } else if a.k == 0 {
        a
    } else if a.neg {
        not_a_number(f)
    } else if a.infinite(f) {
        a
    } else {
        rounded(f, false, root_of(f, a.k as nat))
    }
}

/// `a` in another format.
pub open spec fn recast(from: Format, to: Format, a: Num) -> Num {
    if a.nan(from) {
        not_a_number(to)
    } else if a.infinite(from) {
        Num { neg: a.neg, k: to.kinf() as u64 }
    } else {
        rounded(to, a.neg, recast_of(from, to, a.k as nat))
    }
}

/// The non-negative integer `n` in a format.
pub open spec fn integer(f: Format, n: nat) -> Num {
    rounded(f, false, integer_of(f, n))
}

/// The order of the numbers is the order of their values.
pub proof fn lemma_key_order_is_value_order(f: Format, a: Num, b: Num)
    requires
        a.finite(f),
        b.finite(f),
    ensures
        a.key() < b.key() <==> a.value(f) < b.value(f),
        a.key() == b.key() <==> a.value(f) == b.value(f),
{
    let p = f.p as nat;
    lemma_pow2_pos(p);
    assert(mag(p, 0) == 0);
    lemma_mag_increases(p, 0, a.k as nat);
    lemma_mag_increases(p, 0, b.k as nat);
    if a.k <= b.k {
        lemma_mag_increases(p, a.k as nat, b.k as nat);
    } else {
        lemma_mag_increases(p, b.k as nat, a.k as nat);
    }
}

fn exec_not_a_number(f: Format) -> (r: Num)
    requires
        f.wf(),
    ensures
        r == not_a_number(f),
        r.nan(f),
{
    proof {
        lemma2_to64();
        lemma2_to64_rest();
    }
    Num { neg: false, k: f.infinity() + f.hidden_bit() / 2 }
}

pub fn exec_less(f: Format, a: Num, b: Num) -> (r: bool)
    requires
        f.wf(),
        a.k < 0x8000_0000_0000_0000,
        b.k < 0x8000_0000_0000_0000,
    ensures
        r == less(f, a, b),
{
    let inf: u64 = f.infinity();
    if a.k > inf || b.k > inf {
        false
    } else if a.neg {
        if b.neg {
            b.k < a.k
        } else {
            a.k > 0 || b.k > 0
        }
    } else {
        !b.neg && a.k < b.k
    }
}

pub fn exec_at_most(f: Format, a: Num, b: Num) -> (r: bool)
    requires
        f.wf(),
        a.k < 0x8000_0000_0000_0000,
        b.k < 0x8000_0000_0000_0000,
    ensures
        r == at_most(f, a, b),
{
    let inf: u64 = f.infinity();
    a.k <= inf && b.k <= inf && !exec_less(f, b, a)
}

pub fn exec_sum(f: Format, a: Num, b: Num) -> (r: Num)
    requires
        f.wf(),
        a.k < 0x8000_0000_0000_0000,
        b.k < 0x8000_0000_0000_0000,
    ensures
        r == sum(f, a, b),
        r.k <= f.kinf() + f.hidden() / 2,
{
    let inf: u64 = f.infinity();
    proof {
        lemma2_to64();
        lemma2_to64_rest();
    }
    if a.k > inf || b.k > inf {
        return exec_not_a_number(f);
    }
    if a.k == inf {
        if b.k == inf && a.neg != b.neg {
            return exec_not_a_number(f);
        }
        return a;
    }
    if b.k == inf {
        return b;
    }
    proof {
        lemma_key_order_is_value_order(f, a, b.negated());
        lemma_key_order_is_value_order(f, b, a.negated());
        let p = f.p as nat;
        assert(mag(p, 0) == 0);
        lemma_mag_increases(p, 0, a.k as nat);
        lemma_mag_increases(p, 0, b.k as nat);
    }
    if a.neg == b.neg {
        if a.k == 0 && b.k == 0 {
            Num { neg: a.neg, k: 0 }
        } else if a.k >= b.k {
            Num { neg: a.neg, k: add_magnitudes(f, a.k, b.k) }
        } else {
            Num { neg: a.neg, k: add_magnitudes(f, b.k, a.k) }
        }
    } else if a.k == b.k {
        Num { neg: false, k: 0 }
    } else if a.k > b.k {
        Num { neg: a.neg, k: subtract_magnitudes(f, a.k, b.k) }
    } else {
        Num { neg: b.neg, k: subtract_magnitudes(f, b.k, a.k) }
    }
}

pub fn exec_product(f: Format, a: Num, b: Num) -> (r: Num)
    requires
        f.wf(),
    ensures
        r == product(f, a, b),
        r.k <= f.kinf() + f.hidden() / 2,
{
    let inf: u64 = f.infinity();
    proof {
        lemma2_to64();
        lemma2_to64_rest();
    }
    if a.k > inf || b.k > inf {
        return exec_not_a_number(f);
    }
    if a.k == inf || b.k == inf {
        if a.k == 0 || b.k == 0 {
            return exec_not_a_number(f);
        }
        return Num { neg: a.neg != b.neg, k: inf };
    }
    Num { neg: a.neg != b.neg, k: multiply_magnitudes(f, a.k, b.k) }
}

pub fn exec_quotient(f: Format, a: Num, b: Num) -> (r: Num)
    requires
        f.wf(),
    ensures
        r == quotient(f, a, b),
        r.k <= f.kinf() + f.hidden() / 2,
{
    let inf: u64 = f.infinity();
    proof {
        lemma2_to64();
        lemma2_to64_rest();
    }
    let neg: bool = a.neg != b.neg;
    if a.k > inf || b.k > inf {
        return exec_not_a_number(f);
    }
    if a.k == inf {
        if b.k == inf {
            return exec_not_a_number(f);
        }
        return Num { neg, k: inf };
    }
    if b.k == inf {
        return Num { neg, k: 0 };
    }
    if b.k == 0 {
        if a.k == 0 {
            return exec_not_a_number(f);
        }
        return Num { neg, k: inf };
    }
    Num { neg, k: divide_magnitudes(f, a.k, b.k) }
}

pub fn exec_root(f: Format, a: Num) -> (r: Num)
    requires
        f.wf(),
    ensures
        r == root(f, a),
        r.k <= f.kinf() + f.hidden() / 2,
{
    let inf: u64 = f.infinity();
    proof {
        lemma2_to64();
        lemma2_to64_rest();
    }
    if a.k > inf {
        return exec_not_a_number(f);
    }
    if a.k == 0 {
        return a;
    }
    if a.neg {
        return exec_not_a_number(f);
    }
    if a.k == inf {
        return a;
    }
    Num { neg: false, k: root_magnitude(f, a.k) }
}

pub fn exec_recast(from: Format, to: Format, a: Num) -> (r: Num)
    requires
        from.wf(),
        to.wf(),
    ensures
        r == recast(from, to, a),
        r.k <= to.kinf() + to.hidden() / 2,
{
    let inf: u64 = from.infinity();
    proof {
        lemma2_to64();
        lemma2_to64_rest();
    }
    if a.k > inf {
        return exec_not_a_number(to);
    }
    if a.k == inf {
        return Num { neg: a.neg, k: to.infinity() };
    }
    Num { neg: a.neg, k: recast_magnitude(from, to, a.k) }
}

pub fn exec_integer(f: Format, n: u64) -> (r: Num)
    requires
        f.wf(),
    ensures
        r == integer(f, n as nat),
        r.k <= f.kinf() + f.hidden() / 2,
{
    proof {
        lemma2_to64();
        lemma2_to64_rest();
    }
    Num { neg: false, k: integer_magnitude(f, n) }
}

} // verus!
