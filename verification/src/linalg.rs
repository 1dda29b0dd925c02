use vstd::prelude::*;

use crate::binary::laws::law_addition_commutes;
use crate::binary::laws::law_multiplication_commutes;
use crate::binary::laws::law_one_is_neutral;
use crate::binary::laws::law_zero_absorbs;
use crate::binary::laws::law_zero_is_neutral;
use crate::binary::laws::law_zeros_add_up;
use crate::binary::laws::lemma_zero_arithmetic;
use crate::binary::single::Binary32;
use crate::binary::single::half;
use crate::binary::single::lemma_single_constants;

verus! {

/// A vector of the plane.
#[derive(Clone, Copy, Debug, PartialEq, Eq, Structural)]
pub struct Vec2 {
    pub x: Binary32,
    pub y: Binary32,
}

/// A 2x2 matrix, by columns.
#[derive(Clone, Copy, Debug, PartialEq, Eq, Structural)]
pub struct Mat2 {
    pub x_axis: Vec2,
    pub y_axis: Vec2,
}

impl Vec2 {
    #[verifier::allow_in_spec]
    pub fn new(x: Binary32, y: Binary32) -> Vec2
        returns
            (Vec2 { x, y }),
    {
        Vec2 { x, y }
    }

    /// Both components equal to `s`.
    #[verifier::allow_in_spec]
    pub fn splat(s: Binary32) -> Vec2
        returns
            (Vec2 { x: s, y: s }),
    {
        Vec2 { x: s, y: s }
    }

    #[verifier::allow_in_spec]
    pub fn add(self, other: Vec2) -> Vec2
        returns
            (Vec2 { x: self.x.add(other.x), y: self.y.add(other.y) }),
    {
        Vec2 { x: self.x.add(other.x), y: self.y.add(other.y) }
    }

    #[verifier::allow_in_spec]
    pub fn sub(self, other: Vec2) -> Vec2
        returns
            (Vec2 { x: self.x.sub(other.x), y: self.y.sub(other.y) }),
    {
        Vec2 { x: self.x.sub(other.x), y: self.y.sub(other.y) }
    }

    /// `s * self`.
    #[verifier::allow_in_spec]
    pub fn scale(self, s: Binary32) -> Vec2
        returns
            (Vec2 { x: self.x.mul(s), y: self.y.mul(s) }),
    {
        Vec2 { x: self.x.mul(s), y: self.y.mul(s) }
    }

    #[verifier::allow_in_spec]
    pub fn dot(self, other: Vec2) -> Binary32
        returns
            self.x.mul(other.x).add(self.y.mul(other.y)),
    {
        self.x.mul(other.x).add(self.y.mul(other.y))
    }

    #[verifier::allow_in_spec]
    pub fn length(self) -> Binary32
        returns
            self.dot(self).sqrt(),
    {
        self.dot(self).sqrt()
    }
}

impl Mat2 {
    #[verifier::allow_in_spec]
    pub fn from_cols(x_axis: Vec2, y_axis: Vec2) -> Mat2
        returns
            (Mat2 { x_axis, y_axis }),
    {
        Mat2 { x_axis, y_axis }
    }

    #[verifier::allow_in_spec]
    pub fn zero() -> Mat2
        returns
            (Mat2 {
                x_axis: Vec2::splat(Binary32::zero()),
                y_axis: Vec2::splat(Binary32::zero()),
            }),
    {
        Mat2 { x_axis: Vec2::splat(Binary32::zero()), y_axis: Vec2::splat(Binary32::zero()) }
    }

    /// The diagonal matrix with the entries of `d`.
    #[verifier::allow_in_spec]
    pub fn from_diagonal(d: Vec2) -> Mat2
        returns
            (Mat2 {
                x_axis: Vec2 { x: d.x, y: Binary32::zero() },
                y_axis: Vec2 { x: Binary32::zero(), y: d.y },
            }),
    {
        Mat2 {
            x_axis: Vec2 { x: d.x, y: Binary32::zero() },
            y_axis: Vec2 { x: Binary32::zero(), y: d.y },
        }
    }

    /// `s` times the identity.
    #[verifier::allow_in_spec]
    pub fn isotropic(s: Binary32) -> Mat2
        returns
            Mat2::from_diagonal(Vec2::splat(s)),
    {
        Mat2::from_diagonal(Vec2::splat(s))
    }

    #[verifier::allow_in_spec]
    pub fn identity() -> Mat2
        returns
            Mat2::isotropic(Binary32::one()),
    {
        Mat2::isotropic(Binary32::one())
    }

    #[verifier::allow_in_spec]
    pub fn determinant(self) -> Binary32
        returns
            self.x_axis.x.mul(self.y_axis.y).sub(self.x_axis.y.mul(self.y_axis.x)),
    {
        self.x_axis.x.mul(self.y_axis.y).sub(self.x_axis.y.mul(self.y_axis.x))
    }

    /// The sum of the diagonal entries.
    #[verifier::allow_in_spec]
    pub fn trace(self) -> Binary32
        returns
            self.x_axis.x.add(self.y_axis.y),
    {
        self.x_axis.x.add(self.y_axis.y)
    }

    #[verifier::allow_in_spec]
    pub fn transpose(self) -> Mat2
        returns
            (Mat2 {
                x_axis: Vec2 { x: self.x_axis.x, y: self.y_axis.x },
                y_axis: Vec2 { x: self.x_axis.y, y: self.y_axis.y },
            }),
    {
        Mat2 {
            x_axis: Vec2 { x: self.x_axis.x, y: self.y_axis.x },
            y_axis: Vec2 { x: self.x_axis.y, y: self.y_axis.y },
        }
    }

    #[verifier::allow_in_spec]
    pub fn add(self, other: Mat2) -> Mat2
        returns
            (Mat2 {
                x_axis: self.x_axis.add(other.x_axis),
                y_axis: self.y_axis.add(other.y_axis),
            }),
    {
        Mat2 { x_axis: self.x_axis.add(other.x_axis), y_axis: self.y_axis.add(other.y_axis) }
    }

    #[verifier::allow_in_spec]
    pub fn sub(self, other: Mat2) -> Mat2
        returns
            (Mat2 {
                x_axis: self.x_axis.sub(other.x_axis),
                y_axis: self.y_axis.sub(other.y_axis),
            }),
    {
        Mat2 { x_axis: self.x_axis.sub(other.x_axis), y_axis: self.y_axis.sub(other.y_axis) }
    }

    /// `s * self`.
    #[verifier::allow_in_spec]
    pub fn scale(self, s: Binary32) -> Mat2
        returns
            (Mat2 { x_axis: self.x_axis.scale(s), y_axis: self.y_axis.scale(s) }),
    {
        Mat2 { x_axis: self.x_axis.scale(s), y_axis: self.y_axis.scale(s) }
    }

    /// `self * v`.
    #[verifier::allow_in_spec]
    pub fn apply(self, v: Vec2) -> Vec2
        returns
            (Vec2 {
                x: self.x_axis.x.mul(v.x).add(self.y_axis.x.mul(v.y)),
                y: self.x_axis.y.mul(v.x).add(self.y_axis.y.mul(v.y)),
            }),
    {
        Vec2 {
            x: self.x_axis.x.mul(v.x).add(self.y_axis.x.mul(v.y)),
            y: self.x_axis.y.mul(v.x).add(self.y_axis.y.mul(v.y)),
        }
    }

    /// `self * other`.
    #[verifier::allow_in_spec]
    pub fn mul(self, other: Mat2) -> Mat2
        returns
            (Mat2 { x_axis: self.apply(other.x_axis), y_axis: self.apply(other.y_axis) }),
    {
        Mat2 { x_axis: self.apply(other.x_axis), y_axis: self.apply(other.y_axis) }
    }

    /// The inverse; not finite where the determinant is zero.
    #[verifier::allow_in_spec]
    pub fn inverse(self) -> Mat2
        returns
            self.inverse_scaled(Binary32::one().div(self.determinant())),
    {
        self.inverse_scaled(Binary32::one().div(self.determinant()))
    }

    /// The adjugate times `inv_det`.
    #[verifier::allow_in_spec]
    pub fn inverse_scaled(self, inv_det: Binary32) -> Mat2
        returns
            (Mat2 {
                x_axis: Vec2 {
                    x: self.y_axis.y.mul(inv_det),
                    y: self.x_axis.y.mul(inv_det.neg()),
                },
                y_axis: Vec2 {
                    x: self.y_axis.x.mul(inv_det.neg()),
                    y: self.x_axis.x.mul(inv_det),
                },
            }),
    {
        Mat2 {
            x_axis: Vec2 { x: self.y_axis.y.mul(inv_det), y: self.x_axis.y.mul(inv_det.neg()) },
            y_axis: Vec2 { x: self.y_axis.x.mul(inv_det.neg()), y: self.x_axis.x.mul(inv_det) },
        }
    }

    /// `self` without half its trace on the diagonal.
    #[verifier::allow_in_spec]
    pub fn deviator(self) -> Mat2
        returns
            self.sub(Mat2::isotropic(self.trace().mul(half()))),
    {
        self.sub(Mat2::isotropic(self.trace().mul(half())))
    }

    /// Twice the symmetric part.
    #[verifier::allow_in_spec]
    pub fn symmetrised(self) -> Mat2
        returns
            self.add(self.transpose()),
    {
        self.add(self.transpose())
    }
}

impl Mat2 {
    /// Every entry is a zero.
    pub open spec fn vanishes(self) -> bool {
        &&& self.x_axis.x.eq(Binary32::zero())
        &&& self.x_axis.y.eq(Binary32::zero())
        &&& self.y_axis.x.eq(Binary32::zero())
        &&& self.y_axis.y.eq(Binary32::zero())
    }

    /// Every entry is finite.
    pub open spec fn is_finite(self) -> bool {
        &&& self.x_axis.x.is_finite()
        &&& self.x_axis.y.is_finite()
        &&& self.y_axis.x.is_finite()
        &&& self.y_axis.y.is_finite()
    }
}

/// A vanishing matrix still vanishes when it is scaled.
pub proof fn law_vanishing_scaled(a: Mat2, s: Binary32)
    requires
        a.vanishes(),
        s.is_finite(),
    ensures
        a.scale(s).vanishes(),
{
    law_zero_absorbs(a.x_axis.x, s);
    law_zero_absorbs(a.x_axis.y, s);
    law_zero_absorbs(a.y_axis.x, s);
    law_zero_absorbs(a.y_axis.y, s);
}

/// The sum of vanishing matrices vanishes.
pub proof fn law_vanishing_sum(a: Mat2, b: Mat2)
    requires
        a.vanishes(),
        b.vanishes(),
    ensures
        a.add(b).vanishes(),
{
    law_zeros_add_up(a.x_axis.x, b.x_axis.x);
    law_zeros_add_up(a.x_axis.y, b.x_axis.y);
    law_zeros_add_up(a.y_axis.x, b.y_axis.x);
    law_zeros_add_up(a.y_axis.y, b.y_axis.y);
}

/// The product of a vanishing matrix with a finite one vanishes.
pub proof fn law_vanishing_product(a: Mat2, b: Mat2)
    requires
        a.vanishes(),
        b.is_finite(),
    ensures
        a.mul(b).vanishes(),
{
    lemma_vanishing_applied(a, b.x_axis);
    lemma_vanishing_applied(a, b.y_axis);
}

proof fn lemma_vanishing_applied(a: Mat2, v: Vec2)
    requires
        a.vanishes(),
        v.x.is_finite(),
        v.y.is_finite(),
    ensures
        a.apply(v).x.eq(Binary32::zero()),
        a.apply(v).y.eq(Binary32::zero()),
{
    law_zero_absorbs(a.x_axis.x, v.x);
    law_zero_absorbs(a.y_axis.x, v.y);
    law_zero_absorbs(a.x_axis.y, v.x);
    law_zero_absorbs(a.y_axis.y, v.y);
    law_zeros_add_up(a.x_axis.x.mul(v.x), a.y_axis.x.mul(v.y));
    law_zeros_add_up(a.x_axis.y.mul(v.x), a.y_axis.y.mul(v.y));
}

/// The identity has determinant one, and its product with its transpose is itself.
pub proof fn lemma_identity_has_unit_volume()
    ensures
        Mat2::identity().determinant() == Binary32::one(),
        Mat2::identity().mul(Mat2::identity().transpose()) == Mat2::identity(),
{
    let one = Binary32::one();
    let zero = Binary32::zero();
    lemma_single_constants();
    law_one_is_neutral(one);
    law_one_is_neutral(zero);
    law_multiplication_commutes(one, zero);
    lemma_zero_arithmetic();
    law_zero_is_neutral(one);
    law_addition_commutes(one, zero);
}

} // verus!
