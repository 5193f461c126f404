//! The arithmetic a value must offer to serve as one lane of a lane vector.

use vstd::prelude::*;

verus! {

/// The two families of scalars that the dispatch policy tells apart.
#[derive(Clone, Copy, Debug, PartialEq, Eq, Structural)]
pub enum Precision {
    /// The narrower scalars, of 32 bits.
    Narrow,
    /// The wider scalars, of 64 bits.
    Wide,
}

/// A scalar with total, deterministic arithmetic.
///
/// Every executable operation returns exactly the value its mathematical
/// counterpart names, so the result of a computation is pinned down by the
/// order in which the operations are applied.
pub trait Scalar: Copy + Sized {
    /// Zero: the value every accumulation starts from.
    spec fn nought() -> Self;

    /// `self + rhs`.
    spec fn sum(self, rhs: Self) -> Self;

    /// `self - rhs`.
    spec fn difference(self, rhs: Self) -> Self;

    /// `self * rhs`.
    spec fn product(self, rhs: Self) -> Self;

    /// `self / rhs`.
    spec fn quotient(self, rhs: Self) -> Self;

    /// The square root of `self`.
    spec fn root(self) -> Self;

    /// The family this scalar belongs to.
    spec fn family() -> Precision;

    /// Zero.
    fn zero() -> (r: Self)
        ensures
            r == Self::nought(),
    ;

    /// `self + rhs`.
    fn plus(self, rhs: Self) -> (r: Self)
        ensures
            r == self.sum(rhs),
    ;

    /// `self - rhs`.
    fn minus(self, rhs: Self) -> (r: Self)
        ensures
            r == self.difference(rhs),
    ;

    /// `self * rhs`.
    fn times(self, rhs: Self) -> (r: Self)
        ensures
            r == self.product(rhs),
    ;

    /// `self / rhs`.
    fn over(self, rhs: Self) -> (r: Self)
        ensures
            r == self.quotient(rhs),
    ;

    /// The square root of `self`.
    fn sqrt(self) -> (r: Self)
        ensures
            r == self.root(),
    ;

    /// The family this scalar belongs to.
    fn precision() -> (p: Precision)
        ensures
            p == Self::family(),
    ;
}

/// A scalar whose arithmetic is exact, so that the laws of sums and products
/// of numbers hold of it without exception.
pub trait ExactScalar: Scalar {
    /// `x + y == y + x`.
    proof fn sum_commutes(x: Self, y: Self)
        ensures
            x.sum(y) == y.sum(x),
    ;

    /// `(x + y) + z == x + (y + z)`.
    proof fn sum_associates(x: Self, y: Self, z: Self)
        ensures
            x.sum(y).sum(z) == x.sum(y.sum(z)),
    ;

    /// `x + 0 == x`.
    proof fn sum_with_nought(x: Self)
        ensures
            x.sum(Self::nought()) == x,
    ;

    /// `x - x == 0`.
    proof fn difference_with_self(x: Self)
        ensures
            x.difference(x) == Self::nought(),
    ;

    /// `x * y == y * x`.
    proof fn product_commutes(x: Self, y: Self)
        ensures
            x.product(y) == y.product(x),
    ;

    /// `x * 0 == 0`.
    proof fn product_with_nought(x: Self)
        ensures
            x.product(Self::nought()) == Self::nought(),
    ;

    /// `(x - y) * (x - y) == (y - x) * (y - x)`.
    proof fn squared_difference_symmetric(x: Self, y: Self)
        ensures
            x.difference(y).product(x.difference(y)) == y.difference(x).product(y.difference(x)),
    ;

    /// The square root of zero is zero.
    proof fn root_of_nought()
        ensures
            Self::nought().root() == Self::nought(),
    ;
}

} // verus!
