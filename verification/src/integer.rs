//! Two's-complement integers as exact scalars: `i32` in the narrow family
//! and `i64` in the wide one.
//!
//! Sums, differences and products wrap around, so they are exact modulo the
//! range of the type. Division truncates toward zero and gives zero for a zero
//! divisor. The square root is the integer square root, and zero for a
//! negative number.

use crate::dispatch::dispatched_sum;
use crate::distance::{scalar_sum, squared_differences};
use crate::laws::lemma_dispatched_is_scalar;
use crate::scalar::{ExactScalar, Precision, Scalar};
use vstd::arithmetic::div_mod::{
    lemma_add_mod_noop, lemma_mod_multiples_vanish, lemma_mul_mod_noop_general, lemma_small_mod,
};
use vstd::prelude::*;

verus! {

/// The number congruent to `v` modulo `range` that lies nearest to zero, the
/// negative one of two that are equally near.
pub open spec fn centered(v: int, range: int) -> int {
    let r = v % range;
    if 2 * r >= range {
        r - range
    } else {
        r
    }
}

/// `v` reduced into the range of `i32`.
pub open spec fn wrap32(v: int) -> i32 {
    centered(v, 0x1_0000_0000) as i32
}

/// `v` reduced into the range of `i64`.
pub open spec fn wrap64(v: int) -> i64 {
    centered(v, 0x1_0000_0000_0000_0000) as i64
}

/// `x / d` rounded toward zero, and zero where `d` is zero.
pub open spec fn truncated_quotient(x: int, d: int) -> int {
    if d == 0 {
        0
    } else if x >= 0 && d > 0 {
        x / d
    } else if x >= 0 {
        -(x / (-d))
    } else if d > 0 {
        -((-x) / d)
    } else {
        (-x) / (-d)
    }
}

/// Whether `r` is the integer square root of `n`: the largest number whose
/// square does not exceed `n`.
pub open spec fn is_integer_root(n: int, r: int) -> bool {
    0 <= r && r * r <= n < (r + 1) * (r + 1)
}

/// The integer square root of `n`, and zero where `n` is negative.
pub open spec fn integer_root(n: int) -> int {
    if n < 0 {
        0
    } else {
        choose|r: int| is_integer_root(n, r)
    }
}

/// No number has two integer square roots.
pub proof fn lemma_integer_root_unique(n: int, r: int, s: int)
    requires
        is_integer_root(n, r),
        is_integer_root(n, s),
    ensures
        r == s,
{
    if r < s {
        assert((r + 1) * (r + 1) <= s * s) by (nonlinear_arith)
            requires
                0 <= r,
                r + 1 <= s,
        ;
    }
    if s < r {
        assert((s + 1) * (s + 1) <= r * r) by (nonlinear_arith)
            requires
                0 <= s,
                s + 1 <= r,
        ;
    }
}

/// A number that meets the definition is the integer square root.
pub proof fn lemma_integer_root_is(n: int, r: int)
    requires
        is_integer_root(n, r),
    ensures
        integer_root(n) == r,
{
    assert(r * r >= 0) by (nonlinear_arith);
    let s = choose|s: int| is_integer_root(n, s);
    lemma_integer_root_unique(n, r, s);
}

/// `centered(v, range)` is congruent to `v` and lies in the half-open
/// interval of length `range` around zero.
pub proof fn lemma_centered_range(v: int, range: int)
    requires
        range > 0,
    ensures
        -range <= 2 * centered(v, range) < range,
        centered(v, range) % range == v % range,
{
    let r = v % range;
    lemma_small_mod(r as nat, range as nat);
    if 2 * r >= range {
        lemma_mod_multiples_vanish(-1, r, range);
        assert(range * (-1) + r == r - range);
    }
}

/// A number inside the interval is its own reduction.
pub proof fn lemma_centered_fixed(v: int, range: int)
    requires
        range > 0,
        -range <= 2 * v < range,
    ensures
        centered(v, range) == v,
{
    if v >= 0 {
        lemma_small_mod(v as nat, range as nat);
    } else {
        lemma_small_mod((v + range) as nat, range as nat);
        lemma_mod_multiples_vanish(1, v, range);
        assert(range * 1 + v == v + range);
    }
}

/// Reducing one term of a sum first does not change the reduced sum.
pub proof fn lemma_centered_sum(u: int, v: int, range: int)
    requires
        range > 0,
    ensures
        centered(centered(u, range) + v, range) == centered(u + v, range),
{
    lemma_centered_range(u, range);
    lemma_add_mod_noop(centered(u, range), v, range);
    lemma_add_mod_noop(u, v, range);
}

/// Reducing one factor of a product first does not change the reduced product.
pub proof fn lemma_centered_product(u: int, v: int, range: int)
    requires
        range > 0,
    ensures
        centered(centered(u, range) * v, range) == centered(u * v, range),
        centered(v * centered(u, range), range) == centered(v * u, range),
{
    lemma_centered_range(u, range);
    lemma_mul_mod_noop_general(centered(u, range), v, range);
    lemma_mul_mod_noop_general(u, v, range);
    lemma_mul_mod_noop_general(v, centered(u, range), range);
    lemma_mul_mod_noop_general(v, u, range);
}

/// The integer square root of a non-negative `x`.
pub fn integer_sqrt(x: i64) -> (r: i64)
    requires
        x >= 0,
    ensures
        r == integer_root(x as int),
        is_integer_root(x as int, r as int),
{
    let mut low: i64 = 0;
    let mut high: i64 = 3037000500;
    assert(3037000500int * 3037000500int > i64::MAX) by (nonlinear_arith);
    while high - low > 1
        invariant
            0 <= low < high <= 3037000500,
            low * low <= x < high * high,
        decreases high - low,
    {
        let mid: i64 = low + (high - low) / 2;
        assert(0 <= mid * mid <= 3037000499int * 3037000499int) by (nonlinear_arith)
            requires
                0 <= mid <= 3037000499,
        ;
        if mid * mid <= x {
            low = mid;
        } else {
            high = mid;
        }
    }
    proof {
        lemma_integer_root_is(x as int, low as int);
    }
    low
}

impl Scalar for i32 {
    open spec fn nought() -> i32 {
        0
    }

    open spec fn sum(self, rhs: i32) -> i32 {
        wrap32(self + rhs)
    }

    open spec fn difference(self, rhs: i32) -> i32 {
        wrap32(self - rhs)
    }

    open spec fn product(self, rhs: i32) -> i32 {
        wrap32(self * rhs)
    }

    open spec fn quotient(self, rhs: i32) -> i32 {
        wrap32(truncated_quotient(self as int, rhs as int))
    }

    open spec fn root(self) -> i32 {
        integer_root(self as int) as i32
    }

    open spec fn family() -> Precision {
        Precision::Narrow
    }

    fn zero() -> i32 {
        0
    }

    fn plus(self, rhs: i32) -> i32 {
        self.wrapping_add(rhs)
    }

    fn minus(self, rhs: i32) -> i32 {
        self.wrapping_sub(rhs)
    }

    fn times(self, rhs: i32) -> i32 {
        self.wrapping_mul(rhs)
    }

    fn over(self, rhs: i32) -> i32 {
        match self.checked_div(rhs) {
            Some(q) => {
                proof {
                    lemma_centered_fixed(q as int, 0x1_0000_0000);
                }
                q
            },
            None => if rhs == 0 {
                0
            } else {
                i32::MIN
            },
        }
    }

    fn sqrt(self) -> i32 {
        if self < 0 {
            0
        } else {
            integer_sqrt(self as i64) as i32
        }
    }

    fn precision() -> Precision {
        Precision::Narrow
    }
}

impl ExactScalar for i32 {
    proof fn sum_commutes(x: i32, y: i32) {
    }

    proof fn sum_associates(x: i32, y: i32, z: i32) {
        lemma_centered_sum(x + y, z as int, 0x1_0000_0000);
        lemma_centered_sum(y + z, x as int, 0x1_0000_0000);
    }

    proof fn sum_with_nought(x: i32) {
    }

    proof fn difference_with_self(x: i32) {
    }

    proof fn product_commutes(x: i32, y: i32) {
        assert(x * y == y * x) by (nonlinear_arith);
    }

    proof fn product_with_nought(x: i32) {
        assert(x * 0 == 0) by (nonlinear_arith);
    }

    proof fn squared_difference_symmetric(x: i32, y: i32) {
        let d = x - y;
        let e = y - x;
        let u = centered(d, 0x1_0000_0000);
        let v = centered(e, 0x1_0000_0000);
        lemma_centered_product(d, u, 0x1_0000_0000);
        lemma_centered_product(d, d, 0x1_0000_0000);
        lemma_centered_product(e, v, 0x1_0000_0000);
        lemma_centered_product(e, e, 0x1_0000_0000);
        assert(d * d == e * e) by (nonlinear_arith)
            requires
                d == -e,
        ;
        lemma_centered_range(d, 0x1_0000_0000);
        lemma_centered_range(e, 0x1_0000_0000);
    }

    proof fn root_of_nought() {
        lemma_integer_root_is(0, 0);
    }
}

impl Scalar for i64 {
    open spec fn nought() -> i64 {
        0
    }

    open spec fn sum(self, rhs: i64) -> i64 {
        wrap64(self + rhs)
    }

    open spec fn difference(self, rhs: i64) -> i64 {
        wrap64(self - rhs)
    }

    open spec fn product(self, rhs: i64) -> i64 {
        wrap64(self * rhs)
    }

    open spec fn quotient(self, rhs: i64) -> i64 {
        wrap64(truncated_quotient(self as int, rhs as int))
    }

    open spec fn root(self) -> i64 {
        integer_root(self as int) as i64
    }

    open spec fn family() -> Precision {
        Precision::Wide
    }

    fn zero() -> i64 {
        0
    }

    fn plus(self, rhs: i64) -> i64 {
        self.wrapping_add(rhs)
    }

    fn minus(self, rhs: i64) -> i64 {
        self.wrapping_sub(rhs)
    }

    fn times(self, rhs: i64) -> i64 {
        self.wrapping_mul(rhs)
    }

    fn over(self, rhs: i64) -> i64 {
        match self.checked_div(rhs) {
            Some(q) => {
                proof {
                    lemma_centered_fixed(q as int, 0x1_0000_0000_0000_0000);
                }
                q
            },
            None => if rhs == 0 {
                0
            } else {
                i64::MIN
            },
        }
    }

    fn sqrt(self) -> i64 {
        if self < 0 {
            0
        } else {
            integer_sqrt(self)
        }
    }

    fn precision() -> Precision {
        Precision::Wide
    }
}

impl ExactScalar for i64 {
    proof fn sum_commutes(x: i64, y: i64) {
    }

    proof fn sum_associates(x: i64, y: i64, z: i64) {
        lemma_centered_sum(x + y, z as int, 0x1_0000_0000_0000_0000);
        lemma_centered_sum(y + z, x as int, 0x1_0000_0000_0000_0000);
    }

    proof fn sum_with_nought(x: i64) {
    }

    proof fn difference_with_self(x: i64) {
    }

    proof fn product_commutes(x: i64, y: i64) {
        assert(x * y == y * x) by (nonlinear_arith);
    }

    proof fn product_with_nought(x: i64) {
        assert(x * 0 == 0) by (nonlinear_arith);
    }

    proof fn squared_difference_symmetric(x: i64, y: i64) {
        let d = x - y;
        let e = y - x;
        let u = centered(d, 0x1_0000_0000_0000_0000);
        let v = centered(e, 0x1_0000_0000_0000_0000);
        lemma_centered_product(d, u, 0x1_0000_0000_0000_0000);
        lemma_centered_product(d, d, 0x1_0000_0000_0000_0000);
        lemma_centered_product(e, v, 0x1_0000_0000_0000_0000);
        lemma_centered_product(e, e, 0x1_0000_0000_0000_0000);
        assert(d * d == e * e) by (nonlinear_arith)
            requires
                d == -e,
        ;
        lemma_centered_range(d, 0x1_0000_0000_0000_0000);
        lemma_centered_range(e, 0x1_0000_0000_0000_0000);
    }

    proof fn root_of_nought() {
        lemma_integer_root_is(0, 0);
    }
}

/// The sum of the squared differences of `a` and `b` as numbers, without any
/// wrapping.
pub open spec fn exact_sum32(a: Seq<i32>, b: Seq<i32>) -> int
    decreases a.len(),
{
    if a.len() == 0 {
        0
    } else {
        exact_sum32(a.drop_last(), b.drop_last()) + (a.last() - b.last()) * (a.last() - b.last())
    }
}

/// The squared distance of two `i32` sequences, by either computation, is the
/// exact sum of their squared differences reduced into the range of `i32`,
/// and that sum itself where it lies in the range.
pub proof fn lemma_scalar_sum_i32(a: Seq<i32>, b: Seq<i32>)
    requires
        a.len() == b.len(),
    ensures
        scalar_sum(a, b) == wrap32(exact_sum32(a, b)),
        dispatched_sum(a, b) == wrap32(exact_sum32(a, b)),
        i32::MIN <= exact_sum32(a, b) <= i32::MAX ==> {
            &&& scalar_sum(a, b) == exact_sum32(a, b)
            &&& dispatched_sum(a, b) == exact_sum32(a, b)
        },
    decreases a.len(),
{
    lemma_dispatched_is_scalar(a, b);
    let range = 0x1_0000_0000int;
    let all = squared_differences(a, b);
    if a.len() > 0 {
        let before = exact_sum32(a.drop_last(), b.drop_last());
        let d = a.last() - b.last();
        lemma_scalar_sum_i32(a.drop_last(), b.drop_last());
        assert(all.drop_last() =~= squared_differences(a.drop_last(), b.drop_last()));
        lemma_centered_product(d, centered(d, range), range);
        lemma_centered_product(d, d, range);
        lemma_centered_range(d, range);
        lemma_centered_range(centered(d, range) * centered(d, range), range);
        lemma_centered_range(before, range);
        let square = centered(centered(d, range) * centered(d, range), range);
        assert(all.last() == square);
        assert(square == centered(d * d, range));
        lemma_centered_sum(before, square, range);
        lemma_centered_sum(d * d, before, range);
    }
    if i32::MIN <= exact_sum32(a, b) <= i32::MAX {
        lemma_centered_fixed(exact_sum32(a, b), range);
    }
}

/// The sum of the squared differences of `a` and `b` as numbers, without any
/// wrapping.
pub open spec fn exact_sum64(a: Seq<i64>, b: Seq<i64>) -> int
    decreases a.len(),
{
    if a.len() == 0 {
        0
    } else {
        exact_sum64(a.drop_last(), b.drop_last()) + (a.last() - b.last()) * (a.last() - b.last())
    }
}

/// The squared distance of two `i64` sequences, by either computation, is the
/// exact sum of their squared differences reduced into the range of `i64`,
/// and that sum itself where it lies in the range.
pub proof fn lemma_scalar_sum_i64(a: Seq<i64>, b: Seq<i64>)
    requires
        a.len() == b.len(),
    ensures
        scalar_sum(a, b) == wrap64(exact_sum64(a, b)),
        dispatched_sum(a, b) == wrap64(exact_sum64(a, b)),
        i64::MIN <= exact_sum64(a, b) <= i64::MAX ==> {
            &&& scalar_sum(a, b) == exact_sum64(a, b)
            &&& dispatched_sum(a, b) == exact_sum64(a, b)
        },
    decreases a.len(),
{
    lemma_dispatched_is_scalar(a, b);
    let range = 0x1_0000_0000_0000_0000int;
    let all = squared_differences(a, b);
    if a.len() > 0 {
        let before = exact_sum64(a.drop_last(), b.drop_last());
        let d = a.last() - b.last();
        lemma_scalar_sum_i64(a.drop_last(), b.drop_last());
        assert(all.drop_last() =~= squared_differences(a.drop_last(), b.drop_last()));
        lemma_centered_product(d, centered(d, range), range);
        lemma_centered_product(d, d, range);
        lemma_centered_range(d, range);
        lemma_centered_range(centered(d, range) * centered(d, range), range);
        lemma_centered_range(before, range);
        let square = centered(centered(d, range) * centered(d, range), range);
        assert(all.last() == square);
        assert(square == centered(d * d, range));
        lemma_centered_sum(before, square, range);
        lemma_centered_sum(d * d, before, range);
    }
    if i64::MIN <= exact_sum64(a, b) <= i64::MAX {
        lemma_centered_fixed(exact_sum64(a, b), range);
    }
}

} // verus!
