use simd_euclidean::lanes::{I32x4, I32x8, I64x2, I64x4, Lanes};

#[test]
fn new_keeps_the_lanes_in_order() {
    let v = I64x4::new([7, -8, 9, 10]);
    assert_eq!(v.values, [7, -8, 9, 10]);
}

#[test]
fn splat_fills_every_lane() {
    assert_eq!(I32x8::splat(3), I32x8::new([3; 8]));
    assert_eq!(I64x2::splat(-1).values, [-1, -1]);
}

#[test]
fn lanes_is_the_width() {
    assert_eq!(I32x4::lanes(), 4);
    assert_eq!(I32x8::lanes(), 8);
    assert_eq!(I64x2::lanes(), 2);
    assert_eq!(I64x4::lanes(), 4);
}

#[test]
fn from_slice_takes_the_first_lanes() {
    let data = [1i64, 2, 3, 4, 5, 6, 7];
    assert_eq!(I64x4::from_slice(&data), I64x4::new([1, 2, 3, 4]));
    assert_eq!(I64x4::from_slice(&data[3..]), I64x4::new([4, 5, 6, 7]));
    assert_eq!(I64x2::from_slice(&data[5..]), I64x2::new([6, 7]));
}

#[test]
fn from_slice_of_exactly_the_width() {
    let data = [1, 2, 3, 4, 5, 6, 7, 8];
    assert_eq!(I32x8::from_slice(&data).values, data);
}

#[test]
fn horizontal_add_sums_all_lanes() {
    assert_eq!(I32x8::new([1, 2, 3, 4, 5, 6, 7, 8]).horizontal_add(), 36);
    assert_eq!(I64x2::new([40, 2]).horizontal_add(), 42);
    assert_eq!(I64x4::new([-1, -2, -3, 6]).horizontal_add(), 0);
}

#[test]
fn horizontal_add_of_one_lane_and_of_none() {
    assert_eq!(Lanes::<i64, 1>::new([-5]).horizontal_add(), -5);
    assert_eq!(Lanes::<i64, 0>::new([]).horizontal_add(), 0);
}

#[test]
fn horizontal_add_wraps() {
    assert_eq!(I32x4::new([i32::MAX, 1, 0, 0]).horizontal_add(), i32::MIN);
    assert_eq!(I64x2::new([i64::MIN, -1]).horizontal_add(), i64::MAX);
}

#[test]
fn sum_and_product_of_two_vectors() {
    let a = I32x4::new([1, 2, 3, 4]);
    let b = I32x4::new([4, 3, 2, 1]);
    assert_eq!((a + b).horizontal_add(), 20);
    assert_eq!(a - b, I32x4::new([-3, -1, 1, 3]));
    assert_eq!((a * b).horizontal_add(), 4 + 6 + 6 + 4);
    assert_eq!(a * b, I32x4::new([4, 6, 6, 4]));
}

#[test]
fn quotient_truncates_toward_zero() {
    let a = I64x4::new([7, -7, 7, -7]);
    let b = I64x4::new([2, 2, -2, -2]);
    assert_eq!(a / b, I64x4::new([3, -3, -3, 3]));
}

#[test]
fn quotient_by_zero_is_zero() {
    let a = I32x4::new([5, -5, 0, i32::MAX]);
    assert_eq!(a / I32x4::splat(0), I32x4::splat(0));
}

#[test]
fn quotient_of_least_by_minus_one_wraps() {
    assert_eq!(I32x4::splat(i32::MIN) / I32x4::splat(-1), I32x4::splat(i32::MIN));
    assert_eq!(I64x2::splat(i64::MIN) / I64x2::splat(-1), I64x2::splat(i64::MIN));
}

#[test]
fn elementwise_operations_wrap() {
    let a = I32x4::new([i32::MAX, i32::MIN, 65536, -65536]);
    let b = I32x4::new([1, 1, 65536, 65537]);
    assert_eq!(a + b, I32x4::new([i32::MIN, i32::MIN + 1, 131072, 1]));
    assert_eq!(a - b, I32x4::new([i32::MAX - 1, i32::MAX, 0, -131073]));
    assert_eq!(a * b, I32x4::new([i32::MAX, i32::MIN, 0, -65536]));
}

#[test]
fn in_place_operations_match_the_binary_ones() {
    let a = I64x4::new([10, 20, 30, 40]);
    let b = I64x4::new([3, -4, 5, 0]);

    let mut c = a;
    c += b;
    assert_eq!(c, a + b);
    assert_eq!(c, I64x4::new([13, 16, 35, 40]));

    let mut c = a;
    c -= b;
    assert_eq!(c, a - b);
    assert_eq!(c, I64x4::new([7, 24, 25, 40]));

    let mut c = a;
    c *= b;
    assert_eq!(c, a * b);
    assert_eq!(c, I64x4::new([30, -80, 150, 0]));

    let mut c = a;
    c /= b;
    assert_eq!(c, a / b);
    assert_eq!(c, I64x4::new([3, -5, 6, 0]));
}

#[test]
fn clone_is_the_same_vector() {
    let a = I32x4::new([1, 2, 3, 4]);
    assert_eq!(a.clone(), a);
}

#[test]
fn vectors_differ_when_one_lane_differs() {
    assert_ne!(I32x4::new([1, 2, 3, 4]), I32x4::new([1, 2, 3, 5]));
}

#[test]
fn horizontal_add_distributes_over_the_sum() {
    let a = I32x8::new([i32::MAX, -7, 3, 100, i32::MIN, 9, 0, 1]);
    let b = I32x8::new([5, i32::MAX, -3, 8, -1, -9, 2, 77]);
    assert_eq!(
        (a + b).horizontal_add(),
        a.horizontal_add().wrapping_add(b.horizontal_add())
    );
}

#[test]
fn a_vector_minus_itself_is_zero() {
    let a = I64x4::new([i64::MIN, i64::MAX, -1, 12345]);
    assert_eq!(a - a, I64x4::splat(0));
}

#[test]
fn product_does_not_depend_on_the_order() {
    let a = I64x4::new([i64::MAX, -3, 1 << 40, 11]);
    let b = I64x4::new([2, i64::MIN, 1 << 30, -11]);
    assert_eq!(a * b, b * a);
}
