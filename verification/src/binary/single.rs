use vstd::arithmetic::div_mod::lemma_div_by_multiple;
use vstd::arithmetic::div_mod::lemma_div_denominator;
use vstd::arithmetic::div_mod::lemma_div_multiples_vanish_quotient;
use vstd::arithmetic::power2::lemma2_to64;
use vstd::arithmetic::power2::lemma2_to64_rest;
use vstd::arithmetic::power2::lemma_pow2_adds;
use vstd::arithmetic::power2::lemma_pow2_pos;
use vstd::arithmetic::power2::lemma_pow2_unfold;
use vstd::arithmetic::power2::pow2;
use vstd::prelude::*;

use crate::binary::arith::parts;
use crate::binary::double::Binary64;
use crate::binary::exact::mag;
use crate::binary::number::Num;
use crate::binary::number::at_most;
use crate::binary::number::exec_at_most;
use crate::binary::number::exec_integer;
use crate::binary::number::exec_less;
use crate::binary::number::exec_product;
use crate::binary::number::exec_quotient;
use crate::binary::number::exec_recast;
use crate::binary::number::exec_root;
use crate::binary::number::exec_sum;
use crate::binary::number::integer;
use crate::binary::number::less;
use crate::binary::number::product;
use crate::binary::number::quotient;
use crate::binary::number::recast;
use crate::binary::number::root;
use crate::binary::number::sum;
use crate::binary::round::Format;
use crate::binary::round::double;
use crate::binary::round::single;

verus! {

/// A single-precision number, by its bit pattern.
///
/// `==` compares the bit patterns; [`Binary32::eq`] compares the values, so that the
/// two zeros are equal and no NaN equals anything. Every operation that gives no
/// number gives the pattern of [`Binary32::nan`].
#[derive(Clone, Copy, Debug, PartialEq, Eq, Structural)]
pub struct Binary32 {
    pub bits: u32,
}

impl Binary32 {
    /// Sign and magnitude.
    pub open spec fn num(self) -> Num {
        if self.bits >= 0x8000_0000 {
            Num { neg: true, k: (self.bits - 0x8000_0000) as u64 }
        } else {
            Num { neg: false, k: self.bits as u64 }
        }
    }

    /// The pattern of a sign and a magnitude.
    pub open spec fn of_num(n: Num) -> Binary32 {
        Binary32 {
            bits: (if n.neg {
                n.k + 0x8000_0000
            } else {
                n.k as int
            }) as u32,
        }
    }

    pub open spec fn spec_is_nan(self) -> bool {
        self.num().nan(single())
    }

    pub open spec fn spec_is_finite(self) -> bool {
        self.num().finite(single())
    }

    /// The value of a finite number, in units of the smallest positive number.
    pub open spec fn value(self) -> int {
        self.num().value(single())
    }

    /// The position in the order of the numbers.
    pub open spec fn key(self) -> int {
        self.num().key()
    }

    pub open spec fn spec_lt(self, other: Binary32) -> bool {
        less(single(), self.num(), other.num())
    }

    pub open spec fn spec_le(self, other: Binary32) -> bool {
        at_most(single(), self.num(), other.num())
    }

    pub open spec fn spec_gt(self, other: Binary32) -> bool {
        other.spec_lt(self)
    }

    pub open spec fn spec_ge(self, other: Binary32) -> bool {
        other.spec_le(self)
    }

    pub open spec fn spec_eq(self, other: Binary32) -> bool {
        self.spec_le(other) && other.spec_le(self)
    }

    pub open spec fn spec_neg(self) -> Binary32 {
        Binary32 {
            bits: (if self.bits >= 0x8000_0000 {
                self.bits - 0x8000_0000
            } else {
                self.bits + 0x8000_0000
            }) as u32,
        }
    }

    pub open spec fn spec_abs(self) -> Binary32 {
        if self.bits >= 0x8000_0000 {
            self.spec_neg()
        } else {
            self
        }
    }

    #[verifier::opaque]
    pub open spec fn spec_add(self, other: Binary32) -> Binary32 {
        Binary32::of_num(sum(single(), self.num(), other.num()))
    }

    #[verifier::opaque]
    pub open spec fn spec_sub(self, other: Binary32) -> Binary32 {
        Binary32::of_num(sum(single(), self.num(), other.num().negated()))
    }

    #[verifier::opaque]
    pub open spec fn spec_mul(self, other: Binary32) -> Binary32 {
        Binary32::of_num(product(single(), self.num(), other.num()))
    }

    #[verifier::opaque]
    pub open spec fn spec_div(self, other: Binary32) -> Binary32 {
        Binary32::of_num(quotient(single(), self.num(), other.num()))
    }

    #[verifier::opaque]
    pub open spec fn spec_sqrt(self) -> Binary32 {
        Binary32::of_num(root(single(), self.num()))
    }

    pub open spec fn spec_max(self, other: Binary32) -> Binary32 {
        if self.spec_is_nan() || self.spec_lt(other) {
            other
        } else {
            self
        }
    }

    pub open spec fn spec_min(self, other: Binary32) -> Binary32 {
        if self.spec_is_nan() || other.spec_lt(self) {
            other
        } else {
            self
        }
    }

    pub open spec fn spec_clamp(self, lo: Binary32, hi: Binary32) -> Binary32 {
        let x = if self.spec_lt(lo) {
            lo
        } else {
            self
        };
        if hi.spec_lt(x) {
            hi
        } else {
            x
        }
    }

    #[verifier::opaque]
    pub open spec fn spec_to_double(self) -> Binary64 {
        Binary64::of_num(recast(single(), double(), self.num()))
    }

    /// The integer part, zero for NaN and negative numbers, at most `u64::MAX`.
    #[verifier::opaque]
    pub open spec fn spec_to_integer(self) -> u64 {
        let n = self.num();
        let whole = mag(23, n.k as nat) / pow2(149);
        if n.nan(single()) || n.neg {
            0
        } else if n.infinite(single()) || whole > u64::MAX {
            u64::MAX
        } else {
            whole as u64
        }
    }

    /// The number with the next bit pattern.
    pub open spec fn spec_next(self) -> Binary32 {
        Binary32 {
            bits: if self.bits == u32::MAX {
                0
            } else {
                (self.bits + 1) as u32
            },
        }
    }

    #[verifier::opaque]
    pub open spec fn spec_from_integer(n: u64) -> Binary32 {
        Binary32::of_num(integer(single(), n as nat))
    }

    pub(crate) fn format() -> (f: Format)
        ensures
            f == single(),
            f.wf(),
            f.kinf() == 0x7f80_0000,
            f.hidden() == 0x80_0000,
    {
        proof {
            lemma_single_constants();
        }
        Format { p: 23, top: 255, unit: 149 }
    }

    pub(crate) fn unpack(self) -> (n: Num)
        ensures
            n == self.num(),
            n.k < 0x8000_0000,
    {
        if self.bits >= 0x8000_0000 {
            Num { neg: true, k: (self.bits - 0x8000_0000) as u64 }
        } else {
            Num { neg: false, k: self.bits as u64 }
        }
    }

    pub(crate) fn pack(n: Num) -> (x: Binary32)
        requires
            n.k < 0x8000_0000,
        ensures
            x == Binary32::of_num(n),
            x.num() == n,
    {
        if n.neg {
            Binary32 { bits: n.k as u32 + 0x8000_0000 }
        } else {
            Binary32 { bits: n.k as u32 }
        }
    }

    /// The number with the bit pattern `bits`.
    #[verifier::allow_in_spec]
    pub fn from_bits(bits: u32) -> Binary32
        returns
            (Binary32 { bits }),
    {
        Binary32 { bits }
    }

    /// The bit pattern.
    #[verifier::allow_in_spec]
    pub fn to_bits(self) -> u32
        returns
            self.bits,
    {
        self.bits
    }

    /// Zero.
    #[verifier::allow_in_spec]
    pub fn zero() -> Binary32
        returns
            (Binary32 { bits: 0 }),
    {
        Binary32 { bits: 0 }
    }

    /// One.
    #[verifier::allow_in_spec]
    pub fn one() -> Binary32
        returns
            (Binary32 { bits: 0x3f80_0000 }),
    {
        Binary32 { bits: 0x3f80_0000 }
    }

    /// Positive infinity.
    #[verifier::allow_in_spec]
    pub fn infinity() -> Binary32
        returns
            (Binary32 { bits: 0x7f80_0000 }),
    {
        Binary32 { bits: 0x7f80_0000 }
    }

    /// Not a number.
    #[verifier::allow_in_spec]
    pub fn nan() -> Binary32
        returns
            (Binary32 { bits: 0x7fc0_0000 }),
    {
        Binary32 { bits: 0x7fc0_0000 }
    }

    /// Whether this is not a number.
    #[verifier::when_used_as_spec(spec_is_nan)]
    pub fn is_nan(self) -> (r: bool)
        ensures
            r == self.spec_is_nan(),
    {
        let f = Self::format();
        self.unpack().k > f.infinity()
    }

    /// Whether this is a number other than the infinities.
    #[verifier::when_used_as_spec(spec_is_finite)]
    pub fn is_finite(self) -> (r: bool)
        ensures
            r == self.spec_is_finite(),
    {
        let f = Self::format();
        self.unpack().k < f.infinity()
    }

    /// `self < other`.
    #[verifier::when_used_as_spec(spec_lt)]
    pub fn lt(self, other: Binary32) -> (r: bool)
        ensures
            r == self.spec_lt(other),
    {
        exec_less(Self::format(), self.unpack(), other.unpack())
    }

    /// `self <= other`.
    #[verifier::when_used_as_spec(spec_le)]
    pub fn le(self, other: Binary32) -> (r: bool)
        ensures
            r == self.spec_le(other),
    {
        exec_at_most(Self::format(), self.unpack(), other.unpack())
    }

    /// `self > other`.
    #[verifier::when_used_as_spec(spec_gt)]
    pub fn gt(self, other: Binary32) -> (r: bool)
        ensures
            r == self.spec_gt(other),
    {
        other.lt(self)
    }

    /// `self >= other`.
    #[verifier::when_used_as_spec(spec_ge)]
    pub fn ge(self, other: Binary32) -> (r: bool)
        ensures
            r == self.spec_ge(other),
    {
        other.le(self)
    }

    /// Whether the values are equal.
    #[verifier::when_used_as_spec(spec_eq)]
    pub fn eq(self, other: Binary32) -> (r: bool)
        ensures
            r == self.spec_eq(other),
    {
        self.le(other) && other.le(self)
    }

    /// `-self`.
    #[verifier::when_used_as_spec(spec_neg)]
    pub fn neg(self) -> (r: Binary32)
        ensures
            r == self.spec_neg(),
    {
        if self.bits >= 0x8000_0000 {
            Binary32 { bits: self.bits - 0x8000_0000 }
        } else {
            Binary32 { bits: self.bits + 0x8000_0000 }
        }
    }

    /// The absolute value.
    #[verifier::when_used_as_spec(spec_abs)]
    pub fn abs(self) -> (r: Binary32)
        ensures
            r == self.spec_abs(),
    {
        if self.bits >= 0x8000_0000 {
            self.neg()
        } else {
            self
        }
    }

    /// `self + other`: the nearest number to the exact sum.
    #[verifier::when_used_as_spec(spec_add)]
    pub fn add(self, other: Binary32) -> (r: Binary32)
        ensures
            r == self.spec_add(other),
    {
        proof {
            reveal(Binary32::spec_add);
        }
        Self::pack(exec_sum(Self::format(), self.unpack(), other.unpack()))
    }

    /// `self - other`: the nearest number to the exact difference.
    #[verifier::when_used_as_spec(spec_sub)]
    pub fn sub(self, other: Binary32) -> (r: Binary32)
        ensures
            r == self.spec_sub(other),
    {
        proof {
            reveal(Binary32::spec_sub);
        }
        let o = other.unpack();
        Self::pack(exec_sum(Self::format(), self.unpack(), Num { neg: !o.neg, k: o.k }))
    }

    /// `self * other`: the nearest number to the exact product.
    #[verifier::when_used_as_spec(spec_mul)]
    pub fn mul(self, other: Binary32) -> (r: Binary32)
        ensures
            r == self.spec_mul(other),
    {
        proof {
            reveal(Binary32::spec_mul);
        }
        Self::pack(exec_product(Self::format(), self.unpack(), other.unpack()))
    }

    /// `self / other`: the nearest number to the exact quotient.
    #[verifier::when_used_as_spec(spec_div)]
    pub fn div(self, other: Binary32) -> (r: Binary32)
        ensures
            r == self.spec_div(other),
    {
        proof {
            reveal(Binary32::spec_div);
        }
        Self::pack(exec_quotient(Self::format(), self.unpack(), other.unpack()))
    }

    /// The nearest number to the exact square root.
    #[verifier::when_used_as_spec(spec_sqrt)]
    pub fn sqrt(self) -> (r: Binary32)
        ensures
            r == self.spec_sqrt(),
    {
        proof {
            reveal(Binary32::spec_sqrt);
        }
        Self::pack(exec_root(Self::format(), self.unpack()))
    }

    /// The larger of the two; the other one where one is not a number.
    #[verifier::when_used_as_spec(spec_max)]
    pub fn max(self, other: Binary32) -> (r: Binary32)
        ensures
            r == self.spec_max(other),
    {
        if self.is_nan() || self.lt(other) {
            other
        } else {
            self
        }
    }

    /// The smaller of the two; the other one where one is not a number.
    #[verifier::when_used_as_spec(spec_min)]
    pub fn min(self, other: Binary32) -> (r: Binary32)
        ensures
            r == self.spec_min(other),
    {
        if self.is_nan() || other.lt(self) {
            other
        } else {
            self
        }
    }

    /// The nearest number of `[lo, hi]`; NaN stays what it is.
    #[verifier::when_used_as_spec(spec_clamp)]
    pub fn clamp(self, lo: Binary32, hi: Binary32) -> (r: Binary32)
        requires
            lo.spec_le(hi),
        ensures
            r == self.spec_clamp(lo, hi),
    {
        let x = if self.lt(lo) {
            lo
        } else {
            self
        };
        if hi.lt(x) {
            hi
        } else {
            x
        }
    }

    /// The nearest double-precision number.
    #[verifier::when_used_as_spec(spec_to_double)]
    pub fn to_double(self) -> (r: Binary64)
        ensures
            r == self.spec_to_double(),
    {
        proof {
            reveal(Binary32::spec_to_double);
        }
        Binary64::pack(exec_recast(Self::format(), Binary64::format(), self.unpack()))
    }

    /// The number with the next bit pattern: the next larger one for a positive
    /// finite number.
    #[verifier::when_used_as_spec(spec_next)]
    pub fn next(self) -> (r: Binary32)
        ensures
            r == self.spec_next(),
    {
        if self.bits == u32::MAX {
            Binary32 { bits: 0 }
        } else {
            Binary32 { bits: self.bits + 1 }
        }
    }

    /// The integer part, zero for NaN and negative numbers, at most `u64::MAX`.
    #[verifier::when_used_as_spec(spec_to_integer)]
    pub fn to_integer(self) -> (r: u64)
        ensures
            r == self.spec_to_integer(),
    {
        proof {
            reveal(Binary32::spec_to_integer);
            lemma_single_constants();
            lemma_pow2_pos(149);
        }
        let f = Self::format();
        let n = self.unpack();
        if n.k > f.infinity() || n.neg {
            return 0;
        }
        if n.k == f.infinity() {
            return u64::MAX;
        }
        let (u, s) = parts(f, n.k);
        let mut q: u64 = s;
        let mut e: i32 = u;
        if u <= 149 {
            let ghost m = mag(23, n.k as nat);
            proof {
                lemma_whole_part(s as nat, u as nat);
                assert(pow2(0) == 1) by {
                    lemma2_to64();
                }
                assert(s as int / 1 == s);
            }
            while e < 149
                invariant
                    u <= e <= 149,
                    0 <= u,
                    q == s as nat / pow2((e - u) as nat),
                decreases 149 - e,
            {
                proof {
                    lemma_pow2_unfold((e - u + 1) as nat);
                    lemma_pow2_pos((e - u) as nat);
                    lemma_div_denominator(s as int, pow2((e - u) as nat) as int, 2);
                    assert(pow2((e - u) as nat) * 2 == pow2((e - u + 1) as nat));
                }
                q = q / 2;
                e = e + 1;
            }
            q
        } else {
            proof {
                lemma_whole_multiple(s as nat, u as nat);
                assert(pow2(0) == 1) by {
                    lemma2_to64();
                }
                assert(s * 1 == s) by (nonlinear_arith);
            }
            while e > 149
                invariant
                    149 <= e <= u,
                    q == s * pow2((u - e) as nat),
                    s > 0 ==> q > 0,
                    n == self.num(),
                    !n.nan(single()),
                    !n.neg,
                    !n.infinite(single()),
                    s * pow2((u - 149) as nat) == mag(23, n.k as nat) / pow2(149),
                decreases e - 149,
            {
                proof {
                    reveal(Binary32::spec_to_integer);
                    lemma_pow2_unfold((u - e + 1) as nat);
                    lemma_pow2_pos((e - 150) as nat);
                    lemma_pow2_adds((u - e + 1) as nat, (e - 150) as nat);
                    let a = pow2((u - e) as nat);
                    let b = pow2((u - e + 1) as nat);
                    let c = pow2((e - 150) as nat);
                    assert(s * b == 2 * q) by (nonlinear_arith)
                        requires
                            q == s * a,
                            b == 2 * a,
                    ;
                    assert(s * pow2((u - 149) as nat) >= 2 * q) by (nonlinear_arith)
                        requires
                            pow2((u - 149) as nat) == b * c,
                            s * b == 2 * q,
                            c >= 1,
                    ;
                }
                if q >= 0x8000_0000_0000_0000 {
                    return u64::MAX;
                }
                q = 2 * q;
                e = e - 1;
            }
            q
        }
    }

    /// The nearest number to the integer `n`.
    #[verifier::when_used_as_spec(spec_from_integer)]
    pub fn from_integer(n: u64) -> (r: Binary32)
        ensures
            r == Self::spec_from_integer(n),
    {
        proof {
            reveal(Binary32::spec_from_integer);
        }
        Self::pack(exec_integer(Self::format(), n))
    }
}

proof fn lemma_whole_part(s: nat, u: nat)
    requires
        u <= 149,
    ensures
        (s * pow2(u)) / pow2(149) == s / pow2((149 - u) as nat),
{
    let d = (149 - u) as nat;
    lemma_pow2_pos(u);
    lemma_pow2_pos(d);
    lemma_pow2_adds(u, d);
    lemma_div_multiples_vanish_quotient(
        pow2(u) as int,
        s as int,
        pow2(d) as int,
    );
    assert(s * pow2(u) == pow2(u) * s) by (nonlinear_arith);
}

proof fn lemma_whole_multiple(s: nat, u: nat)
    requires
        u >= 149,
    ensures
        (s * pow2(u)) / pow2(149) == s * pow2((u - 149) as nat),
{
    let d = (u - 149) as nat;
    lemma_pow2_pos(149);
    lemma_pow2_adds(d, 149);
    assert(s * pow2(u) == (s * pow2(d)) * pow2(149)) by (nonlinear_arith)
        requires
            pow2(u) == pow2(d) * pow2(149),
    ;
    lemma_div_by_multiple(
        (s * pow2(d)) as int,
        pow2(149) as int,
    );
}

/// The derived constants of the format.
pub proof fn lemma_single_constants()
    ensures
        single().wf(),
        single().kinf() == 0x7f80_0000,
        single().hidden() == 0x80_0000,
{
    lemma2_to64();
    lemma2_to64_rest();
}

/// One half.
#[verifier::allow_in_spec]
pub fn half() -> Binary32
    returns
        (Binary32 { bits: 0x3f00_0000 }),
{
    Binary32 { bits: 0x3f00_0000 }
}

/// Two.
#[verifier::allow_in_spec]
pub fn two() -> Binary32
    returns
        (Binary32 { bits: 0x4000_0000 }),
{
    Binary32 { bits: 0x4000_0000 }
}

} // verus!
