//! The dispatch policy: which lane width serves a sequence of a given length,
//! and the two ways of asking for a distance that are built on it.

use crate::distance::{scalar_squared_distance, scalar_sum, vector_sum};
use crate::lanes::Lanes;
use crate::scalar::{Precision, Scalar};
use vstd::prelude::*;

verus! {

/// From this length on, sequences of 32-bit scalars go through eight lanes.
pub const NARROW_THRESHOLD: usize = 64;

/// From this length on, sequences of 64-bit scalars go through four lanes.
pub const WIDE_THRESHOLD: usize = 16;

/// The lane width the policy picks for a sequence of `len` scalars of the
/// given precision: the wider of the two widths of that precision from its
/// threshold on, the narrower below it.
pub open spec fn chosen_width(precision: Precision, len: nat) -> nat {
    match precision {
        Precision::Narrow => if len >= NARROW_THRESHOLD { 8 } else { 4 },
        Precision::Wide => if len >= WIDE_THRESHOLD { 4 } else { 2 },
    }
}

/// The lane width for a sequence of `len` scalars of the given precision.
pub fn lane_width(precision: Precision, len: usize) -> (width: usize)
    ensures
        width == chosen_width(precision, len as nat),
{
    match precision {
        Precision::Narrow => if len >= NARROW_THRESHOLD { 8 } else { 4 },
        Precision::Wide => if len >= WIDE_THRESHOLD { 4 } else { 2 },
    }
}

/// The squared distance of `a` and `b` as the dispatch policy computes it:
/// through lanes of the width chosen for their length.
pub open spec fn dispatched_sum<T: Scalar>(a: Seq<T>, b: Seq<T>) -> T {
    vector_sum(a, b, chosen_width(T::family(), a.len()))
}

/// The squared distance of `a` and `b`, through lanes of the width that the
/// policy picks for their length.
pub fn vectorized_squared_distance<T: Scalar>(a: &[T], b: &[T]) -> (r: T)
    requires
        a@.len() == b@.len(),
    ensures
        r == dispatched_sum(a@, b@),
{
    let width = lane_width(T::precision(), a.len());
    if width == 8 {
        Lanes::<T, 8>::squared_distance(a, b)
    } else if width == 4 {
        Lanes::<T, 4>::squared_distance(a, b)
    } else {
        Lanes::<T, 2>::squared_distance(a, b)
    }
}

/// Distances computed one element at a time.
pub trait Naive: Sized {
    /// What a distance is measured in.
    type Output;

    /// The scalar that the sequences hold.
    type Ty;

    /// Whether a distance between `self` and `other` is defined: they are
    /// equally long.
    spec fn comparable(self, other: Self) -> bool;

    /// The squared distance that the element-by-element computation gives.
    spec fn squared_distance_value(self, other: Self) -> Self::Output;

    /// The distance that the element-by-element computation gives.
    spec fn distance_value(self, other: Self) -> Self::Output;

    /// The squared Euclidean distance of `self` and `other`, one element at a time.
    fn squared_distance(self, other: Self) -> (r: Self::Output)
        requires
            self.comparable(other),
        ensures
            r == self.squared_distance_value(other),
    ;

    /// The Euclidean distance of `self` and `other`, one element at a time.
    fn distance(self, other: Self) -> (r: Self::Output)
        requires
            self.comparable(other),
        ensures
            r == self.distance_value(other),
    ;
}

/// Distances computed through lane vectors.
pub trait Vectorized: Sized {
    /// What a distance is measured in.
    type Output;

    /// Whether a distance between `self` and `other` is defined: they are
    /// equally long.
    spec fn comparable(self, other: Self) -> bool;

    /// The squared distance that the lane-vector computation gives.
    spec fn squared_distance_value(self, other: Self) -> Self::Output;

    /// The distance that the lane-vector computation gives.
    spec fn distance_value(self, other: Self) -> Self::Output;

    /// The squared Euclidean distance of `self` and `other`, through lane vectors.
    fn squared_distance(self, other: Self) -> (r: Self::Output)
        requires
            self.comparable(other),
        ensures
            r == self.squared_distance_value(other),
    ;

    /// The Euclidean distance of `self` and `other`, through lane vectors.
    fn distance(self, other: Self) -> (r: Self::Output)
        requires
            self.comparable(other),
        ensures
            r == self.distance_value(other),
    ;
}

impl<'a, T: Scalar> Naive for &'a [T] {
    type Output = T;

    type Ty = T;

    open spec fn comparable(self, other: Self) -> bool {
        self@.len() == other@.len()
    }

    open spec fn squared_distance_value(self, other: Self) -> T {
        scalar_sum(self@, other@)
    }

    open spec fn distance_value(self, other: Self) -> T {
        scalar_sum(self@, other@).root()
    }

    fn squared_distance(self, other: Self) -> (r: T) {
        scalar_squared_distance(self, other)
    }

    fn distance(self, other: Self) -> (r: T) {
        scalar_squared_distance(self, other).sqrt()
    }
}

impl<'a, T: Scalar> Naive for &'a Vec<T> {
    type Output = T;

    type Ty = T;

    open spec fn comparable(self, other: Self) -> bool {
        self@.len() == other@.len()
    }

    open spec fn squared_distance_value(self, other: Self) -> T {
        scalar_sum(self@, other@)
    }

    open spec fn distance_value(self, other: Self) -> T {
        scalar_sum(self@, other@).root()
    }

    fn squared_distance(self, other: Self) -> (r: T) {
        scalar_squared_distance(self.as_slice(), other.as_slice())
    }

    fn distance(self, other: Self) -> (r: T) {
        scalar_squared_distance(self.as_slice(), other.as_slice()).sqrt()
    }
}

impl<'a, T: Scalar> Vectorized for &'a [T] {
    type Output = T;

    open spec fn comparable(self, other: Self) -> bool {
        self@.len() == other@.len()
    }

    open spec fn squared_distance_value(self, other: Self) -> T {
        dispatched_sum(self@, other@)
    }

    open spec fn distance_value(self, other: Self) -> T {
        dispatched_sum(self@, other@).root()
    }

    fn squared_distance(self, other: Self) -> (r: T) {
        vectorized_squared_distance(self, other)
    }

    fn distance(self, other: Self) -> (r: T) {
        vectorized_squared_distance(self, other).sqrt()
    }
}

impl<'a, T: Scalar> Vectorized for &'a Vec<T> {
    type Output = T;

    open spec fn comparable(self, other: Self) -> bool {
        self@.len() == other@.len()
    }

    open spec fn squared_distance_value(self, other: Self) -> T {
        dispatched_sum(self@, other@)
    }

    open spec fn distance_value(self, other: Self) -> T {
        dispatched_sum(self@, other@).root()
    }

    fn squared_distance(self, other: Self) -> (r: T) {
        vectorized_squared_distance(self.as_slice(), other.as_slice())
    }

    fn distance(self, other: Self) -> (r: T) {
        vectorized_squared_distance(self.as_slice(), other.as_slice()).sqrt()
    }
}

/// The Euclidean distance of two equally long sequences, computed one
/// element at a time.
pub fn scalar_euclidean<T: Naive>(a: T, b: T) -> (r: T::Output)
    requires
        a.comparable(b),
    ensures
        r == a.distance_value(b),
{
    Naive::distance(a, b)
}

/// The Euclidean distance of two equally long sequences, computed through
/// lane vectors.
pub fn vector_euclidean<T: Vectorized>(a: T, b: T) -> (r: T::Output)
    requires
        a.comparable(b),
    ensures
        r == a.distance_value(b),
{
    Vectorized::distance(a, b)
}

} // verus!
