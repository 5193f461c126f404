//! Fixed-width lane vectors with elementwise arithmetic.

use crate::scalar::Scalar;
use core::ops::{Add, AddAssign, Div, DivAssign, Mul, MulAssign, Sub, SubAssign};
use vstd::prelude::*;
use vstd::std_specs::ops::{AddSpecImpl, DivSpecImpl, MulSpecImpl, SubSpecImpl};

verus! {

/// `N` scalars of one type that are operated on together, lane by lane.
#[derive(Debug, PartialEq)]
pub struct Lanes<T: Scalar, const N: usize> {
    /// The lanes, from the first to the last.
    pub values: [T; N],
}

impl<T: Scalar, const N: usize> Clone for Lanes<T, N> {
    /// A copy with the same lanes.
    fn clone(&self) -> (r: Self)
        ensures
            r == *self,
    {
        *self
    }
}

impl<T: Scalar, const N: usize> Copy for Lanes<T, N> {}

/// Four 32-bit integer lanes.
pub type I32x4 = Lanes<i32, 4>;

/// Eight 32-bit integer lanes.
pub type I32x8 = Lanes<i32, 8>;

/// Two 64-bit integer lanes.
pub type I64x2 = Lanes<i64, 2>;

/// Four 64-bit integer lanes.
pub type I64x4 = Lanes<i64, 4>;

/// The lanes `x[j] + y[j]`.
pub open spec fn lanewise_sum<T: Scalar>(x: Seq<T>, y: Seq<T>) -> Seq<T> {
    Seq::new(x.len(), |j: int| x[j].sum(y[j]))
}

/// The lanes `x[j] - y[j]`.
pub open spec fn lanewise_difference<T: Scalar>(x: Seq<T>, y: Seq<T>) -> Seq<T> {
    Seq::new(x.len(), |j: int| x[j].difference(y[j]))
}

/// The lanes `x[j] * y[j]`.
pub open spec fn lanewise_product<T: Scalar>(x: Seq<T>, y: Seq<T>) -> Seq<T> {
    Seq::new(x.len(), |j: int| x[j].product(y[j]))
}

/// The lanes `x[j] / y[j]`.
pub open spec fn lanewise_quotient<T: Scalar>(x: Seq<T>, y: Seq<T>) -> Seq<T> {
    Seq::new(x.len(), |j: int| x[j].quotient(y[j]))
}

/// The lanes of `s` added up from the first to the last:
/// `((s[0] + s[1]) + s[2]) + ...`, and zero where there is no lane.
pub open spec fn lane_total<T: Scalar>(s: Seq<T>) -> T
    decreases s.len(),
{
    if s.len() == 0 {
        T::nought()
    } else if s.len() == 1 {
        s[0]
    } else {
        lane_total(s.drop_last()).sum(s.last())
    }
}

impl<T: Scalar, const N: usize> View for Lanes<T, N> {
    type V = Seq<T>;

    open spec fn view(&self) -> Seq<T> {
        self.values@
    }
}

impl<T: Scalar, const N: usize> Lanes<T, N> {
    /// The lane vector whose lanes are the elements of `s`, for an `s` of `N`
    /// elements.
    pub open spec fn of(s: Seq<T>) -> Self {
        Lanes { values: choose|v: [T; N]| v@ == s }
    }

    /// A lane vector is determined by its lanes.
    pub proof fn lemma_of_view(self)
        ensures
            Self::of(self@) == self,
    {
        let v = choose|v: [T; N]| v@ == self@;
        assert(self.values@ == self@);
        assert(v =~= self.values);
    }

    /// The lane vector that holds `values`, lane `j` being `values[j]`.
    pub fn new(values: [T; N]) -> (r: Self)
        ensures
            r@ == values@,
            r.values == values,
    {
        Lanes { values }
    }

    /// The lane vector with `value` in every lane.
    pub fn splat(value: T) -> (r: Self)
        ensures
            r@ == Seq::new(N as nat, |j: int| value),
    {
        let r = Lanes { values: [value; N] };
        assert(r@ =~= Seq::new(N as nat, |j: int| value));
        r
    }

    /// The number of lanes.
    pub fn lanes() -> (n: usize)
        ensures
            n == N,
    {
        N
    }

    /// The lane vector made of the first `N` elements of `slice`.
    pub fn from_slice(slice: &[T]) -> (r: Self)
        requires
            slice@.len() >= N,
        ensures
            r@ == slice@.take(N as int),
    {
        let mut values = [T::zero(); N];
        let mut j: usize = 0;
        while j < N
            invariant
                0 <= j <= N,
                slice@.len() >= N,
                forall|k: int| 0 <= k < j ==> values@[k] == slice@[k],
            decreases N - j,
        {
            values[j] = slice[j];
            j += 1;
        }
        let r = Lanes { values };
        assert(r@ =~= slice@.take(N as int));
        r
    }

    /// Adds the lanes up, from the first to the last.
    pub fn horizontal_add(self) -> (r: T)
        ensures
            r == lane_total(self@),
    {
        if N == 0 {
            return T::zero();
        }
        let mut acc = self.values[0];
        let mut j: usize = 1;
        assert(self@.take(1).len() == 1);
        while j < N
            invariant
                1 <= j <= N,
                acc == lane_total(self@.take(j as int)),
            decreases N - j,
        {
            assert(self@.take(j + 1).drop_last() =~= self@.take(j as int));
            acc = acc.plus(self.values[j]);
            j += 1;
        }
        assert(self@.take(N as int) =~= self@);
        acc
    }
}

impl<T: Scalar, const N: usize> AddSpecImpl for Lanes<T, N> {
    open spec fn obeys_add_spec() -> bool {
        true
    }

    open spec fn add_req(self, rhs: Self) -> bool {
        true
    }

    open spec fn add_spec(self, rhs: Self) -> Self {
        Self::of(lanewise_sum(self@, rhs@))
    }
}

impl<T: Scalar, const N: usize> Add for Lanes<T, N> {
    type Output = Self;

    /// Lane `j` of the result is `self[j] + rhs[j]`.
    fn add(self, rhs: Self) -> (r: Self)
        ensures
            r@ == lanewise_sum(self@, rhs@),
            r == Self::of(lanewise_sum(self@, rhs@)),
    {
        let mut values = self.values;
        let mut j: usize = 0;
        while j < N
            invariant
                0 <= j <= N,
                forall|k: int| 0 <= k < j ==> values@[k] == self@[k].sum(rhs@[k]),
                forall|k: int| j <= k < N ==> values@[k] == self@[k],
            decreases N - j,
        {
            values[j] = self.values[j].plus(rhs.values[j]);
            j += 1;
        }
        let r = Lanes { values };
        proof {
            assert(r@ =~= lanewise_sum(self@, rhs@));
            r.lemma_of_view();
        }
        r
    }
}

impl<T: Scalar, const N: usize> AddAssign for Lanes<T, N> {
    /// Replaces each lane `self[j]` by `self[j] + rhs[j]`.
    fn add_assign(&mut self, rhs: Self)
        ensures
            final(self)@ == lanewise_sum(old(self)@, rhs@),
            *final(self) == Self::of(lanewise_sum(old(self)@, rhs@)),
    {
        let r = *self + rhs;
        *self = r;
    }
}

impl<T: Scalar, const N: usize> SubSpecImpl for Lanes<T, N> {
    open spec fn obeys_sub_spec() -> bool {
        true
    }

    open spec fn sub_req(self, rhs: Self) -> bool {
        true
    }

    open spec fn sub_spec(self, rhs: Self) -> Self {
        Self::of(lanewise_difference(self@, rhs@))
    }
}

impl<T: Scalar, const N: usize> Sub for Lanes<T, N> {
    type Output = Self;

    /// Lane `j` of the result is `self[j] - rhs[j]`.
    fn sub(self, rhs: Self) -> (r: Self)
        ensures
            r@ == lanewise_difference(self@, rhs@),
            r == Self::of(lanewise_difference(self@, rhs@)),
    {
        let mut values = self.values;
        let mut j: usize = 0;
        while j < N
            invariant
                0 <= j <= N,
                forall|k: int| 0 <= k < j ==> values@[k] == self@[k].difference(rhs@[k]),
                forall|k: int| j <= k < N ==> values@[k] == self@[k],
            decreases N - j,
        {
            values[j] = self.values[j].minus(rhs.values[j]);
            j += 1;
        }
        let r = Lanes { values };
        proof {
            assert(r@ =~= lanewise_difference(self@, rhs@));
            r.lemma_of_view();
        }
        r
    }
}

impl<T: Scalar, const N: usize> SubAssign for Lanes<T, N> {
    /// Replaces each lane `self[j]` by `self[j] - rhs[j]`.
    fn sub_assign(&mut self, rhs: Self)
        ensures
            final(self)@ == lanewise_difference(old(self)@, rhs@),
            *final(self) == Self::of(lanewise_difference(old(self)@, rhs@)),
    {
        let r = *self - rhs;
        *self = r;
    }
}

impl<T: Scalar, const N: usize> MulSpecImpl for Lanes<T, N> {
    open spec fn obeys_mul_spec() -> bool {
        true
    }

    open spec fn mul_req(self, rhs: Self) -> bool {
        true
    }

    open spec fn mul_spec(self, rhs: Self) -> Self {
        Self::of(lanewise_product(self@, rhs@))
    }
}

impl<T: Scalar, const N: usize> Mul for Lanes<T, N> {
    type Output = Self;

    /// Lane `j` of the result is `self[j] * rhs[j]`.
    fn mul(self, rhs: Self) -> (r: Self)
        ensures
            r@ == lanewise_product(self@, rhs@),
            r == Self::of(lanewise_product(self@, rhs@)),
    {
        let mut values = self.values;
        let mut j: usize = 0;
        while j < N
            invariant
                0 <= j <= N,
                forall|k: int| 0 <= k < j ==> values@[k] == self@[k].product(rhs@[k]),
                forall|k: int| j <= k < N ==> values@[k] == self@[k],
            decreases N - j,
        {
            values[j] = self.values[j].times(rhs.values[j]);
            j += 1;
        }
        let r = Lanes { values };
        proof {
            assert(r@ =~= lanewise_product(self@, rhs@));
            r.lemma_of_view();
        }
        r
    }
}

impl<T: Scalar, const N: usize> MulAssign for Lanes<T, N> {
    /// Replaces each lane `self[j]` by `self[j] * rhs[j]`.
    fn mul_assign(&mut self, rhs: Self)
        ensures
            final(self)@ == lanewise_product(old(self)@, rhs@),
            *final(self) == Self::of(lanewise_product(old(self)@, rhs@)),
    {
        let r = *self * rhs;
        *self = r;
    }
}

impl<T: Scalar, const N: usize> DivSpecImpl for Lanes<T, N> {
    open spec fn obeys_div_spec() -> bool {
        true
    }

    open spec fn div_req(self, rhs: Self) -> bool {
        true
    }

    open spec fn div_spec(self, rhs: Self) -> Self {
        Self::of(lanewise_quotient(self@, rhs@))
    }
}

impl<T: Scalar, const N: usize> Div for Lanes<T, N> {
    type Output = Self;

    /// Lane `j` of the result is `self[j] / rhs[j]`.
    fn div(self, rhs: Self) -> (r: Self)
        ensures
            r@ == lanewise_quotient(self@, rhs@),
            r == Self::of(lanewise_quotient(self@, rhs@)),
    {
        let mut values = self.values;
        let mut j: usize = 0;
        while j < N
            invariant
                0 <= j <= N,
                forall|k: int| 0 <= k < j ==> values@[k] == self@[k].quotient(rhs@[k]),
                forall|k: int| j <= k < N ==> values@[k] == self@[k],
            decreases N - j,
        {
            values[j] = self.values[j].over(rhs.values[j]);
            j += 1;
        }
        let r = Lanes { values };
        proof {
            assert(r@ =~= lanewise_quotient(self@, rhs@));
            r.lemma_of_view();
        }
        r
    }
}

impl<T: Scalar, const N: usize> DivAssign for Lanes<T, N> {
    /// Replaces each lane `self[j]` by `self[j] / rhs[j]`.
    fn div_assign(&mut self, rhs: Self)
        ensures
            final(self)@ == lanewise_quotient(old(self)@, rhs@),
            *final(self) == Self::of(lanewise_quotient(old(self)@, rhs@)),
    {
        let r = *self / rhs;
        *self = r;
    }
}

} // verus!
