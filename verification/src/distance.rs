//! The distance engine: squared Euclidean distance accumulated in lane
//! vectors, and the element-by-element computation it is measured against.

use crate::lanes::{lane_total, lanewise_difference, lanewise_product, lanewise_sum, Lanes};
use crate::scalar::Scalar;
use vstd::prelude::*;
use vstd::slice::slice_subrange;

verus! {

/// `(x - y) * (x - y)`.
pub open spec fn squared_difference<T: Scalar>(x: T, y: T) -> T {
    x.difference(y).product(x.difference(y))
}

/// The squared differences of `a` and `b`, element by element.
pub open spec fn squared_differences<T: Scalar>(a: Seq<T>, b: Seq<T>) -> Seq<T> {
    Seq::new(a.len(), |i: int| squared_difference(a[i], b[i]))
}

/// The elements of `s` added to zero one after the other:
/// `((0 + s[0]) + s[1]) + ...`.
pub open spec fn running_total<T: Scalar>(s: Seq<T>) -> T
    decreases s.len(),
{
    if s.len() == 0 {
        T::nought()
    } else {
        running_total(s.drop_last()).sum(s.last())
    }
}

/// The squared distance of `a` and `b` as the element-by-element computation
/// gives it: the squared differences added up in sequence order.
pub open spec fn scalar_sum<T: Scalar>(a: Seq<T>, b: Seq<T>) -> T {
    running_total(squared_differences(a, b))
}

/// Chunk `c` of `s` where chunks are `n` elements wide.
pub open spec fn chunk<T>(s: Seq<T>, n: nat, c: nat) -> Seq<T> {
    s.subrange((c * n) as int, (c * n + n) as int)
}

/// The `n`-lane accumulator after the first `chunks` chunks of `a` and `b`
/// have been taken in: it starts at zero in every lane, and each chunk adds
/// its squared differences lane by lane.
pub open spec fn lane_accumulation<T: Scalar>(
    a: Seq<T>,
    b: Seq<T>,
    n: nat,
    chunks: nat,
) -> Seq<T>
    decreases chunks,
{
    if chunks == 0 {
        Seq::new(n, |j: int| T::nought())
    } else {
        let c = (chunks - 1) as nat;
        let d = lanewise_difference(chunk(a, n, c), chunk(b, n, c));
        lanewise_sum(lane_accumulation(a, b, n, c), lanewise_product(d, d))
    }
}

/// The squared distance of `a` and `b` as the engine with `n` lanes gives
/// it: the lanes of the accumulator over the full chunks added up, plus the
/// element-by-element sum over what is left behind the last full chunk.
pub open spec fn vector_sum<T: Scalar>(a: Seq<T>, b: Seq<T>, n: nat) -> T {
    let chunks = a.len() / n;
    let done = (chunks * n) as int;
    let len = a.len() as int;
    lane_total(lane_accumulation(a, b, n, chunks)).sum(
        scalar_sum(a.subrange(done, len), b.subrange(done, len)),
    )
}

/// The squared distance of `a` and `b`, element by element in sequence order.
pub fn scalar_squared_distance<T: Scalar>(a: &[T], b: &[T]) -> (r: T)
    requires
        a@.len() == b@.len(),
    ensures
        r == scalar_sum(a@, b@),
{
    let mut total = T::zero();
    let mut i: usize = 0;
    while i < a.len()
        invariant
            0 <= i <= a@.len(),
            a@.len() == b@.len(),
            total == scalar_sum(a@.take(i as int), b@.take(i as int)),
        decreases a@.len() - i,
    {
        proof {
            let s = squared_differences(a@.take(i + 1), b@.take(i + 1));
            assert(s.drop_last() =~= squared_differences(a@.take(i as int), b@.take(i as int)));
            assert(s.last() == squared_difference(a@[i as int], b@[i as int]));
        }
        let d = a[i].minus(b[i]);
        total = total.plus(d.times(d));
        i += 1;
    }
    proof {
        assert(a@.take(a@.len() as int) =~= a@);
        assert(b@.take(a@.len() as int) =~= b@);
    }
    total
}

impl<T: Scalar, const N: usize> Lanes<T, N> {
    /// The squared distance of `a` and `b`, accumulated `N` elements at a
    /// time: every full chunk of `N` elements goes through the lanes, and the
    /// elements behind the last full chunk are added one by one.
    pub fn squared_distance(a: &[T], b: &[T]) -> (r: T)
        requires
            N > 0,
            a@.len() == b@.len(),
        ensures
            r == vector_sum(a@, b@, N as nat),
    {
        let len = a.len();
        let mut acc = Lanes::<T, N>::splat(T::zero());
        let mut i: usize = 0;
        let ghost mut chunks: nat = 0;
        proof {
            assert(acc@ =~= lane_accumulation(a@, b@, N as nat, 0));
        }
        while len - i >= N
            invariant
                N > 0,
                len == a@.len(),
                len == b@.len(),
                i == chunks * N,
                i <= len,
                acc@ == lane_accumulation(a@, b@, N as nat, chunks),
            decreases len - i,
        {
            let x = Lanes::<T, N>::from_slice(slice_subrange(a, i, len));
            let y = Lanes::<T, N>::from_slice(slice_subrange(b, i, len));
            let d = x - y;
            proof {
                assert(x@ =~= chunk(a@, N as nat, chunks));
                assert(y@ =~= chunk(b@, N as nat, chunks));
                assert((chunks + 1) * N == chunks * N + N) by (nonlinear_arith);
            }
            acc = acc + d * d;
            i += N;
            proof {
                chunks = chunks + 1;
            }
        }
        proof {
            vstd::arithmetic::div_mod::lemma_fundamental_div_mod_converse(
                len as int,
                N as int,
                chunks as int,
                len - i,
            );
        }
        let head = acc.horizontal_add();
        let tail = scalar_squared_distance(slice_subrange(a, i, len), slice_subrange(b, i, len));
        head.plus(tail)
    }

    /// The Euclidean distance of `a` and `b`: the square root of
    /// [`Self::squared_distance`].
    pub fn distance(a: &[T], b: &[T]) -> (r: T)
        requires
            N > 0,
            a@.len() == b@.len(),
        ensures
            r == vector_sum(a@, b@, N as nat).root(),
    {
        Self::squared_distance(a, b).sqrt()
    }
}

} // verus!
