use vstd::arithmetic::power2::lemma2_to64;
use vstd::arithmetic::power2::lemma2_to64_rest;
use vstd::prelude::*;

use crate::binary::number::Num;
use crate::binary::number::at_most;
use crate::binary::number::exec_at_most;
use crate::binary::number::exec_integer;
use crate::binary::number::exec_less;
use crate::binary::number::exec_product;
use crate::binary::number::exec_quotient;
use crate::binary::number::exec_recast;
use crate::binary::number::exec_root;
use crate::binary::number::exec_sum;
use crate::binary::number::integer;
use crate::binary::number::less;
use crate::binary::number::product;
use crate::binary::number::quotient;
use crate::binary::number::recast;
use crate::binary::number::root;
use crate::binary::number::sum;
use crate::binary::round::Format;
use crate::binary::round::double;
use crate::binary::round::single;
use crate::binary::single::Binary32;

verus! {

/// A double-precision number, by its bit pattern.
///
/// `==` compares the bit patterns; [`Binary64::eq`] compares the values, so that the
/// two zeros are equal and no NaN equals anything. Every operation that gives no
/// number gives the pattern of [`Binary64::nan`].
#[derive(Clone, Copy, Debug, PartialEq, Eq, Structural)]
pub struct Binary64 {
    pub bits: u64,
}

impl Binary64 {
    /// Sign and magnitude.
    pub open spec fn num(self) -> Num {
        if self.bits >= 0x8000_0000_0000_0000 {
            Num { neg: true, k: (self.bits - 0x8000_0000_0000_0000) as u64 }
        } else {
            Num { neg: false, k: self.bits as u64 }
        }
    }

    /// The pattern of a sign and a magnitude.
    pub open spec fn of_num(n: Num) -> Binary64 {
        Binary64 {
            bits: (if n.neg {
                n.k + 0x8000_0000_0000_0000
            } else {
                n.k as int
            }) as u64,
        }
    }

    pub open spec fn spec_is_nan(self) -> bool {
        self.num().nan(double())
    }

    pub open spec fn spec_is_finite(self) -> bool {
        self.num().finite(double())
    }

    /// The value of a finite number, in units of the smallest positive number.
    pub open spec fn value(self) -> int {
        self.num().value(double())
    }

    /// The position in the order of the numbers.
    pub open spec fn key(self) -> int {
        self.num().key()
    }

    pub open spec fn spec_lt(self, other: Binary64) -> bool {
        less(double(), self.num(), other.num())
    }

    pub open spec fn spec_le(self, other: Binary64) -> bool {
        at_most(double(), self.num(), other.num())
    }

    pub open spec fn spec_gt(self, other: Binary64) -> bool {
        other.spec_lt(self)
    }

    pub open spec fn spec_ge(self, other: Binary64) -> bool {
        other.spec_le(self)
    }

    pub open spec fn spec_eq(self, other: Binary64) -> bool {
        self.spec_le(other) && other.spec_le(self)
    }

    pub open spec fn spec_neg(self) -> Binary64 {
        Binary64 {
            bits: (if self.bits >= 0x8000_0000_0000_0000 {
                self.bits - 0x8000_0000_0000_0000
            } else {
                self.bits + 0x8000_0000_0000_0000
            }) as u64,
        }
    }

    pub open spec fn spec_abs(self) -> Binary64 {
        if self.bits >= 0x8000_0000_0000_0000 {
            self.spec_neg()
        } else {
            self
        }
    }

    #[verifier::opaque]
    pub open spec fn spec_add(self, other: Binary64) -> Binary64 {
        Binary64::of_num(sum(double(), self.num(), other.num()))
    }

    #[verifier::opaque]
    pub open spec fn spec_sub(self, other: Binary64) -> Binary64 {
        Binary64::of_num(sum(double(), self.num(), other.num().negated()))
    }

    #[verifier::opaque]
    pub open spec fn spec_mul(self, other: Binary64) -> Binary64 {
        Binary64::of_num(product(double(), self.num(), other.num()))
    }

    #[verifier::opaque]
    pub open spec fn spec_div(self, other: Binary64) -> Binary64 {
        Binary64::of_num(quotient(double(), self.num(), other.num()))
    }

    #[verifier::opaque]
    pub open spec fn spec_sqrt(self) -> Binary64 {
        Binary64::of_num(root(double(), self.num()))
    }

    pub open spec fn spec_max(self, other: Binary64) -> Binary64 {
        if self.spec_is_nan() || self.spec_lt(other) {
            other
        } else {
            self
        }
    }

    pub open spec fn spec_min(self, other: Binary64) -> Binary64 {
        if self.spec_is_nan() || other.spec_lt(self) {
            other
        } else {
            self
        }
    }

    pub open spec fn spec_clamp(self, lo: Binary64, hi: Binary64) -> Binary64 {
        let x = if self.spec_lt(lo) {
            lo
        } else {
            self
        };
        if hi.spec_lt(x) {
            hi
        } else {
            x
        }
    }

    #[verifier::opaque]
    pub open spec fn spec_to_single(self) -> Binary32 {
        Binary32::of_num(recast(double(), single(), self.num()))
    }

    #[verifier::opaque]
    pub open spec fn spec_from_integer(n: u64) -> Binary64 {
        Binary64::of_num(integer(double(), n as nat))
    }

    pub(crate) fn format() -> (f: Format)
        ensures
            f == double(),
            f.wf(),
            f.kinf() == 0x7ff0_0000_0000_0000,
            f.hidden() == 0x10_0000_0000_0000,
    {
        proof {
            lemma_double_constants();
        }
        Format { p: 52, top: 2047, unit: 1074 }
    }

    pub(crate) fn unpack(self) -> (n: Num)
        ensures
            n == self.num(),
            n.k < 0x8000_0000_0000_0000,
    {
        if self.bits >= 0x8000_0000_0000_0000 {
            Num { neg: true, k: self.bits - 0x8000_0000_0000_0000 }
        } else {
            Num { neg: false, k: self.bits }
        }
    }

    pub(crate) fn pack(n: Num) -> (x: Binary64)
        requires
            n.k < 0x8000_0000_0000_0000,
        ensures
            x == Binary64::of_num(n),
            x.num() == n,
    {
        if n.neg {
            Binary64 { bits: n.k + 0x8000_0000_0000_0000 }
        } else {
            Binary64 { bits: n.k }
        }
    }

    /// The number with the bit pattern `bits`.
    #[verifier::allow_in_spec]
    pub fn from_bits(bits: u64) -> Binary64
        returns
            (Binary64 { bits }),
    {
        Binary64 { bits }
    }

    /// The bit pattern.
    #[verifier::allow_in_spec]
    pub fn to_bits(self) -> u64
        returns
            self.bits,
    {
        self.bits
    }

    /// Zero.
    #[verifier::allow_in_spec]
    pub fn zero() -> Binary64
        returns
            (Binary64 { bits: 0 }),
    {
        Binary64 { bits: 0 }
    }

    /// One.
    #[verifier::allow_in_spec]
    pub fn one() -> Binary64
        returns
            (Binary64 { bits: 0x3ff0_0000_0000_0000 }),
    {
        Binary64 { bits: 0x3ff0_0000_0000_0000 }
    }

    /// Positive infinity.
    #[verifier::allow_in_spec]
    pub fn infinity() -> Binary64
        returns
            (Binary64 { bits: 0x7ff0_0000_0000_0000 }),
    {
        Binary64 { bits: 0x7ff0_0000_0000_0000 }
    }

    /// Not a number.
    #[verifier::allow_in_spec]
    pub fn nan() -> Binary64
        returns
            (Binary64 { bits: 0x7ff8_0000_0000_0000 }),
    {
        Binary64 { bits: 0x7ff8_0000_0000_0000 }
    }

    /// Whether this is not a number.
    #[verifier::when_used_as_spec(spec_is_nan)]
    pub fn is_nan(self) -> (r: bool)
        ensures
            r == self.spec_is_nan(),
    {
        let f = Self::format();
        self.unpack().k > f.infinity()
    }

    /// Whether this is a number other than the infinities.
    #[verifier::when_used_as_spec(spec_is_finite)]
    pub fn is_finite(self) -> (r: bool)
        ensures
            r == self.spec_is_finite(),
    {
        let f = Self::format();
        self.unpack().k < f.infinity()
    }

    /// `self < other`.
    #[verifier::when_used_as_spec(spec_lt)]
    pub fn lt(self, other: Binary64) -> (r: bool)
        ensures
            r == self.spec_lt(other),
    {
        exec_less(Self::format(), self.unpack(), other.unpack())
    }

    /// `self <= other`.
    #[verifier::when_used_as_spec(spec_le)]
    pub fn le(self, other: Binary64) -> (r: bool)
        ensures
            r == self.spec_le(other),
    {
        exec_at_most(Self::format(), self.unpack(), other.unpack())
    }

    /// `self > other`.
    #[verifier::when_used_as_spec(spec_gt)]
    pub fn gt(self, other: Binary64) -> (r: bool)
        ensures
            r == self.spec_gt(other),
    {
        other.lt(self)
    }

    /// `self >= other`.
    #[verifier::when_used_as_spec(spec_ge)]
    pub fn ge(self, other: Binary64) -> (r: bool)
        ensures
            r == self.spec_ge(other),
    {
        other.le(self)
    }

    /// Whether the values are equal.
    #[verifier::when_used_as_spec(spec_eq)]
    pub fn eq(self, other: Binary64) -> (r: bool)
        ensures
            r == self.spec_eq(other),
    {
        self.le(other) && other.le(self)
    }

    /// `-self`.
    #[verifier::when_used_as_spec(spec_neg)]
    pub fn neg(self) -> (r: Binary64)
        ensures
            r == self.spec_neg(),
    {
        if self.bits >= 0x8000_0000_0000_0000 {
            Binary64 { bits: self.bits - 0x8000_0000_0000_0000 }
        } else {
            Binary64 { bits: self.bits + 0x8000_0000_0000_0000 }
        }
    }

    /// The absolute value.
    #[verifier::when_used_as_spec(spec_abs)]
    pub fn abs(self) -> (r: Binary64)
        ensures
            r == self.spec_abs(),
    {
        if self.bits >= 0x8000_0000_0000_0000 {
            self.neg()
        } else {
            self
        }
    }

    /// `self + other`: the nearest number to the exact sum.
    #[verifier::when_used_as_spec(spec_add)]
    pub fn add(self, other: Binary64) -> (r: Binary64)
        ensures
            r == self.spec_add(other),
    {
        proof {
            reveal(Binary64::spec_add);
        }
        Self::pack(exec_sum(Self::format(), self.unpack(), other.unpack()))
    }

    /// `self - other`: the nearest number to the exact difference.
    #[verifier::when_used_as_spec(spec_sub)]
    pub fn sub(self, other: Binary64) -> (r: Binary64)
        ensures
            r == self.spec_sub(other),
    {
        proof {
            reveal(Binary64::spec_sub);
        }
        let o = other.unpack();
        Self::pack(exec_sum(Self::format(), self.unpack(), Num { neg: !o.neg, k: o.k }))
    }

    /// `self * other`: the nearest number to the exact product.
    #[verifier::when_used_as_spec(spec_mul)]
    pub fn mul(self, other: Binary64) -> (r: Binary64)
        ensures
            r == self.spec_mul(other),
    {
        proof {
            reveal(Binary64::spec_mul);
        }
        Self::pack(exec_product(Self::format(), self.unpack(), other.unpack()))
    }

    /// `self / other`: the nearest number to the exact quotient.
    #[verifier::when_used_as_spec(spec_div)]
    pub fn div(self, other: Binary64) -> (r: Binary64)
        ensures
            r == self.spec_div(other),
    {
        proof {
            reveal(Binary64::spec_div);
        }
        Self::pack(exec_quotient(Self::format(), self.unpack(), other.unpack()))
    }

    /// The nearest number to the exact square root.
    #[verifier::when_used_as_spec(spec_sqrt)]
    pub fn sqrt(self) -> (r: Binary64)
        ensures
            r == self.spec_sqrt(),
    {
        proof {
            reveal(Binary64::spec_sqrt);
        }
        Self::pack(exec_root(Self::format(), self.unpack()))
    }

    /// The larger of the two; the other one where one is not a number.
    #[verifier::when_used_as_spec(spec_max)]
    pub fn max(self, other: Binary64) -> (r: Binary64)
        ensures
            r == self.spec_max(other),
    {
        if self.is_nan() || self.lt(other) {
            other
        } else {
            self
        }
    }

    /// The smaller of the two; the other one where one is not a number.
    #[verifier::when_used_as_spec(spec_min)]
    pub fn min(self, other: Binary64) -> (r: Binary64)
        ensures
            r == self.spec_min(other),
    {
        if self.is_nan() || other.lt(self) {
            other
        } else {
            self
        }
    }

    /// The nearest number of `[lo, hi]`; NaN stays what it is.
    #[verifier::when_used_as_spec(spec_clamp)]
    pub fn clamp(self, lo: Binary64, hi: Binary64) -> (r: Binary64)
        requires
            lo.spec_le(hi),
        ensures
            r == self.spec_clamp(lo, hi),
    {
        let x = if self.lt(lo) {
            lo
        } else {
            self
        };
        if hi.lt(x) {
            hi
        } else {
            x
        }
    }

    /// The nearest single-precision number.
    #[verifier::when_used_as_spec(spec_to_single)]
    pub fn to_single(self) -> (r: Binary32)
        ensures
            r == self.spec_to_single(),
    {
        proof {
            reveal(Binary64::spec_to_single);
        }
        Binary32::pack(exec_recast(Self::format(), Binary32::format(), self.unpack()))
    }

    /// The nearest number to the integer `n`.
    #[verifier::when_used_as_spec(spec_from_integer)]
    pub fn from_integer(n: u64) -> (r: Binary64)
        ensures
            r == Self::spec_from_integer(n),
    {
        proof {
            reveal(Binary64::spec_from_integer);
        }
        Self::pack(exec_integer(Self::format(), n))
    }
}

/// The derived constants of the format.
pub proof fn lemma_double_constants()
    ensures
        double().wf(),
        double().kinf() == 0x7ff0_0000_0000_0000,
        double().hidden() == 0x10_0000_0000_0000,
{
    lemma2_to64();
    lemma2_to64_rest();
}

/// One half in double precision.
#[verifier::allow_in_spec]
pub fn half_double() -> Binary64
    returns
        (Binary64 { bits: 0x3fe0_0000_0000_0000 }),
{
    Binary64 { bits: 0x3fe0_0000_0000_0000 }
}

/// Two in double precision.
#[verifier::allow_in_spec]
pub fn two_double() -> Binary64
    returns
        (Binary64 { bits: 0x4000_0000_0000_0000 }),
{
    Binary64 { bits: 0x4000_0000_0000_0000 }
}

} // verus!
