//! What holds of lane vectors and of the two distance computations.

use crate::dispatch::{chosen_width, dispatched_sum};
use crate::distance::{
    chunk, lane_accumulation, running_total, scalar_sum, squared_difference, squared_differences,
    vector_sum,
};
use crate::lanes::{lane_total, lanewise_difference, lanewise_product, lanewise_sum, Lanes};
use crate::scalar::{ExactScalar, Scalar};
use vstd::prelude::*;

verus! {

/// Sequences shorter than the lane width never reach the lanes: the
/// accumulator stays at zero in every lane, and its lanes added up are joined
/// to the element-by-element sum of the whole input.
pub proof fn lemma_short_input<T: Scalar>(a: Seq<T>, b: Seq<T>, n: nat)
    requires
        a.len() == b.len(),
        a.len() < n,
    ensures
        vector_sum(a, b, n) == lane_total(Seq::new(n, |j: int| T::nought())).sum(scalar_sum(a, b)),
{
    vstd::arithmetic::div_mod::lemma_basic_div(a.len() as int, n as int);
    assert(a.subrange(0, a.len() as int) =~= a);
    assert(b.subrange(0, a.len() as int) =~= b);
}

/// `(w + x) + (y + z) == (w + y) + (x + z)`.
proof fn lemma_sum_interchange<T: ExactScalar>(w: T, x: T, y: T, z: T)
    ensures
        w.sum(x).sum(y.sum(z)) == w.sum(y).sum(x.sum(z)),
{
    T::sum_associates(w, x, y.sum(z));
    T::sum_associates(x, y, z);
    T::sum_commutes(x, y);
    T::sum_associates(y, x, z);
    T::sum_associates(w, y, x.sum(z));
}

/// The running total of two sequences laid end to end is the sum of their
/// running totals.
pub proof fn lemma_running_total_concat<T: ExactScalar>(s: Seq<T>, t: Seq<T>)
    ensures
        running_total(s + t) == running_total(s).sum(running_total(t)),
    decreases t.len(),
{
    if t.len() == 0 {
        assert(s + t =~= s);
        T::sum_with_nought(running_total(s));
    } else {
        assert((s + t).drop_last() =~= s + t.drop_last());
        lemma_running_total_concat(s, t.drop_last());
        T::sum_associates(running_total(s), running_total(t.drop_last()), t.last());
    }
}

/// Adding lanes up from the first one gives what adding them to zero gives.
pub proof fn lemma_lane_total_is_running_total<T: ExactScalar>(s: Seq<T>)
    ensures
        lane_total(s) == running_total(s),
    decreases s.len(),
{
    if s.len() == 1 {
        assert(running_total(s.drop_last()) == T::nought());
        T::sum_commutes(T::nought(), s[0]);
        T::sum_with_nought(s[0]);
    } else if s.len() > 1 {
        lemma_lane_total_is_running_total(s.drop_last());
    }
}

/// The running total of a lane-by-lane sum is the sum of the running totals.
proof fn lemma_running_total_of_sum<T: ExactScalar>(x: Seq<T>, y: Seq<T>)
    requires
        x.len() == y.len(),
    ensures
        running_total(lanewise_sum(x, y)) == running_total(x).sum(running_total(y)),
    decreases x.len(),
{
    if x.len() == 0 {
        T::sum_with_nought(T::nought());
    } else {
        let s = lanewise_sum(x, y);
        assert(s.drop_last() =~= lanewise_sum(x.drop_last(), y.drop_last()));
        lemma_running_total_of_sum(x.drop_last(), y.drop_last());
        lemma_sum_interchange(
            running_total(x.drop_last()),
            running_total(y.drop_last()),
            x.last(),
            y.last(),
        );
    }
}

/// Zeros add up to zero.
proof fn lemma_running_total_of_noughts<T: ExactScalar>(s: Seq<T>)
    requires
        forall|j: int| 0 <= j < s.len() ==> s[j] == T::nought(),
    ensures
        running_total(s) == T::nought(),
    decreases s.len(),
{
    if s.len() > 0 {
        lemma_running_total_of_noughts(s.drop_last());
        T::sum_with_nought(T::nought());
    }
}

/// The accumulator has as many lanes as it was set up with.
proof fn lemma_accumulation_len<T: Scalar>(a: Seq<T>, b: Seq<T>, n: nat, chunks: nat)
    ensures
        lane_accumulation(a, b, n, chunks).len() == n,
    decreases chunks,
{
    if chunks > 0 {
        lemma_accumulation_len(a, b, n, (chunks - 1) as nat);
    }
}

/// After `chunks` chunks the lanes of the accumulator add up to the running
/// total of the squared differences of the elements taken in so far.
proof fn lemma_accumulation_total<T: ExactScalar>(a: Seq<T>, b: Seq<T>, n: nat, chunks: nat)
    requires
        a.len() == b.len(),
        chunks * n <= a.len(),
    ensures
        running_total(lane_accumulation(a, b, n, chunks)) == running_total(
            squared_differences(a, b).take((chunks * n) as int),
        ),
    decreases chunks,
{
    let all = squared_differences(a, b);
    if chunks == 0 {
        lemma_running_total_of_noughts(lane_accumulation(a, b, n, 0));
        assert(0 * n == 0);
    } else {
        let c = (chunks - 1) as nat;
        assert(chunks * n == c * n + n) by (nonlinear_arith)
            requires
                chunks == c + 1,
        ;
        let d = lanewise_difference(chunk(a, n, c), chunk(b, n, c));
        let squares = lanewise_product(d, d);
        let before = lane_accumulation(a, b, n, c);
        lemma_accumulation_len(a, b, n, c);
        lemma_accumulation_total(a, b, n, c);
        lemma_running_total_of_sum(before, squares);
        assert(squares =~= all.subrange((c * n) as int, (chunks * n) as int));
        lemma_running_total_concat(all.take((c * n) as int), squares);
        assert(all.take((c * n) as int) + squares =~= all.take((chunks * n) as int));
    }
}

/// Over exact scalars the lane-vector computation and the element-by-element
/// computation give the same squared distance, whatever the lane width.
pub proof fn lemma_vector_sum_is_scalar_sum<T: ExactScalar>(a: Seq<T>, b: Seq<T>, n: nat)
    requires
        a.len() == b.len(),
        n > 0,
    ensures
        vector_sum(a, b, n) == scalar_sum(a, b),
{
    let len = a.len();
    let chunks = len / n;
    let done = chunks * n;
    assert(done <= len) by {
        vstd::arithmetic::div_mod::lemma_fundamental_div_mod(len as int, n as int);
        vstd::arithmetic::div_mod::lemma_mod_pos_bound(len as int, n as int);
        assert(n * chunks == chunks * n) by (nonlinear_arith);
    }
    let all = squared_differences(a, b);
    let acc = lane_accumulation(a, b, n, chunks);
    lemma_accumulation_total(a, b, n, chunks);
    lemma_lane_total_is_running_total(acc);
    let rest = squared_differences(
        a.subrange(done as int, len as int),
        b.subrange(done as int, len as int),
    );
    assert(rest =~= all.subrange(done as int, len as int));
    lemma_running_total_concat(all.take(done as int), rest);
    assert(all.take(done as int) + rest =~= all);
}

/// Over exact scalars the distance that the dispatch policy computes is the
/// distance that the element-by-element computation gives, at every length
/// and so on either side of each threshold.
pub proof fn lemma_dispatched_is_scalar<T: ExactScalar>(a: Seq<T>, b: Seq<T>)
    requires
        a.len() == b.len(),
    ensures
        dispatched_sum(a, b) == scalar_sum(a, b),
        dispatched_sum(a, b).root() == scalar_sum(a, b).root(),
{
    lemma_vector_sum_is_scalar_sum(a, b, chosen_width(T::family(), a.len()));
}

/// The distance of two empty sequences is zero, by either computation.
pub proof fn lemma_distance_of_empty<T: ExactScalar>(n: nat)
    requires
        n > 0,
    ensures
        scalar_sum(Seq::<T>::empty(), Seq::<T>::empty()) == T::nought(),
        scalar_sum(Seq::<T>::empty(), Seq::<T>::empty()).root() == T::nought(),
        vector_sum(Seq::<T>::empty(), Seq::<T>::empty(), n) == T::nought(),
        vector_sum(Seq::<T>::empty(), Seq::<T>::empty(), n).root() == T::nought(),
        dispatched_sum(Seq::<T>::empty(), Seq::<T>::empty()).root() == T::nought(),
{
    let e = Seq::<T>::empty();
    assert(squared_differences(e, e).len() == 0);
    lemma_vector_sum_is_scalar_sum(e, e, n);
    lemma_dispatched_is_scalar(e, e);
    T::root_of_nought();
}

/// The distance of a sequence from itself is zero, by either computation.
pub proof fn lemma_distance_to_itself<T: ExactScalar>(a: Seq<T>, n: nat)
    requires
        n > 0,
    ensures
        scalar_sum(a, a) == T::nought(),
        scalar_sum(a, a).root() == T::nought(),
        vector_sum(a, a, n) == T::nought(),
        vector_sum(a, a, n).root() == T::nought(),
        dispatched_sum(a, a).root() == T::nought(),
{
    let all = squared_differences(a, a);
    assert forall|j: int| 0 <= j < all.len() implies all[j] == T::nought() by {
        T::difference_with_self(a[j]);
        T::product_with_nought(T::nought());
    }
    lemma_running_total_of_noughts(all);
    lemma_vector_sum_is_scalar_sum(a, a, n);
    lemma_dispatched_is_scalar(a, a);
    T::root_of_nought();
}

/// The distance from `a` to `b` is the distance from `b` to `a`, by either
/// computation.
pub proof fn lemma_distance_symmetric<T: ExactScalar>(a: Seq<T>, b: Seq<T>, n: nat)
    requires
        a.len() == b.len(),
        n > 0,
    ensures
        scalar_sum(a, b) == scalar_sum(b, a),
        scalar_sum(a, b).root() == scalar_sum(b, a).root(),
        vector_sum(a, b, n) == vector_sum(b, a, n),
        vector_sum(a, b, n).root() == vector_sum(b, a, n).root(),
        dispatched_sum(a, b).root() == dispatched_sum(b, a).root(),
{
    assert forall|j: int| 0 <= j < a.len() implies squared_difference(a[j], b[j])
        == squared_difference(b[j], a[j]) by {
        T::squared_difference_symmetric(a[j], b[j]);
    }
    assert(squared_differences(a, b) =~= squared_differences(b, a));
    lemma_vector_sum_is_scalar_sum(a, b, n);
    lemma_vector_sum_is_scalar_sum(b, a, n);
    lemma_dispatched_is_scalar(a, b);
    lemma_dispatched_is_scalar(b, a);
}

/// Adding two lane vectors and then adding up the lanes gives the sum of what
/// adding up the lanes of each gives.
pub proof fn lemma_horizontal_add_of_sum<T: ExactScalar, const N: usize>(
    a: Lanes<T, N>,
    b: Lanes<T, N>,
)
    ensures
        lane_total(lanewise_sum(a@, b@)) == lane_total(a@).sum(lane_total(b@)),
{
    lemma_lane_total_is_running_total(lanewise_sum(a@, b@));
    lemma_lane_total_is_running_total(a@);
    lemma_lane_total_is_running_total(b@);
    lemma_running_total_of_sum(a@, b@);
}

/// A lane vector minus itself is zero in every lane.
pub proof fn lemma_difference_with_itself<T: ExactScalar, const N: usize>(a: Lanes<T, N>)
    ensures
        lanewise_difference(a@, a@) == Seq::new(N as nat, |j: int| T::nought()),
{
    assert forall|j: int| 0 <= j < N implies a@[j].difference(a@[j]) == T::nought() by {
        T::difference_with_self(a@[j]);
    }
    assert(lanewise_difference(a@, a@) =~= Seq::new(N as nat, |j: int| T::nought()));
}

/// The lane-by-lane product does not depend on the order of its factors.
pub proof fn lemma_product_commutes<T: ExactScalar, const N: usize>(a: Lanes<T, N>, b: Lanes<T, N>)
    ensures
        lanewise_product(a@, b@) == lanewise_product(b@, a@),
{
    assert forall|j: int| 0 <= j < N implies a@[j].product(b@[j]) == b@[j].product(a@[j]) by {
        T::product_commutes(a@[j], b@[j]);
    }
    assert(lanewise_product(a@, b@) =~= lanewise_product(b@, a@));
}

} // verus!
