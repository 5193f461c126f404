use simd_euclidean::dispatch::{
    scalar_euclidean, vector_euclidean, vectorized_squared_distance, Naive, Vectorized,
};
use simd_euclidean::distance::scalar_squared_distance;
use simd_euclidean::lanes::{I32x4, I32x8, I64x2, I64x4, Lanes};

// Coordinates in units of one ten-thousandth.
const PS: [i64; 72] = [
    61125, 107950, 200000, 0, 105500, 106300, 200000, 0, 0, 0, 0, 0, 102600, 107300, 0, 0, 200000,
    0, 104975, 0, 0, 0, 0, 0, 0, 0, 200000, 0, 200000, 200000, 200000, 0, 0, 0, 0, 104750, 60905,
    200000, 0, 200000, 200000, 0, 105375, 105400, 105750, 0, 0, 0, 107600, 107550, 0, 0, 0, 0, 0,
    0, 0, 0, 0, 0, 0, 200000, 200000, 0, 200000, 0, 0, 200000, 0, 0, 0, 200000,
];
const QS: [i64; 72] = [
    60905, 200000, 0, 200000, 200000, 0, 105375, 105400, 105750, 0, 0, 0, 107600, 107550, 0, 0, 0,
    0, 0, 0, 0, 0, 0, 0, 0, 200000, 200000, 0, 200000, 0, 0, 200000, 0, 0, 0, 200000, 61125,
    107950, 200000, 0, 105500, 106300, 200000, 0, 0, 0, 0, 0, 102600, 107300, 0, 0, 200000, 0,
    104975, 0, 0, 0, 0, 0, 0, 0, 200000, 0, 200000, 200000, 200000, 0, 0, 0, 0, 104750,
];

fn narrowed(values: &[i64]) -> Vec<i32> {
    values.iter().map(|v| *v as i32).collect()
}

fn ramp(len: usize, step: i64) -> Vec<i64> {
    (0..len).map(|i| (i as i64) * step % 1000 - 500).collect()
}

#[test]
fn four_elements_in_tenths() {
    let a = [1i32, 2, 3, 4];
    let b = [4i32, 3, 2, 1];
    assert_eq!(Naive::squared_distance(&a[..], &b[..]), 9 + 1 + 1 + 9);
    assert_eq!(Vectorized::squared_distance(&a[..], &b[..]), 20);
    assert_eq!(I32x4::squared_distance(&a, &b), 20);
    assert_eq!(I32x8::squared_distance(&a, &b), 20);
    assert_eq!(scalar_euclidean(&a[..], &b[..]), 4);
    assert_eq!(vector_euclidean(&a[..], &b[..]), 4);
}

#[test]
fn four_elements_in_ten_thousandths() {
    let a = [1000i64, 2000, 3000, 4000];
    let b = [4000i64, 3000, 2000, 1000];
    assert_eq!(Naive::squared_distance(&a[..], &b[..]), 20_000_000);
    assert_eq!(Vectorized::squared_distance(&a[..], &b[..]), 20_000_000);
    assert_eq!(scalar_euclidean(&a[..], &b[..]), 4472);
    assert_eq!(vector_euclidean(&a[..], &b[..]), 4472);
    assert_eq!(I64x2::distance(&a, &b), 4472);
    assert_eq!(I64x4::distance(&a, &b), 4472);
}

#[test]
fn squared_distance_of_known_data() {
    let expected = [
        (0usize, 0i64),
        (4, 88473250900),
        (10, 139949304025),
        (16, 139974366525),
        (63, 591060796800),
        (64, 591060796800),
        (72, 720133359300),
    ];
    for (len, value) in expected {
        let a = &PS[..len];
        let b = &QS[..len];
        assert_eq!(scalar_squared_distance(a, b), value, "len = {}", len);
        assert_eq!(vectorized_squared_distance(a, b), value, "len = {}", len);
        assert_eq!(I64x2::squared_distance(a, b), value, "len = {}", len);
        assert_eq!(I64x4::squared_distance(a, b), value, "len = {}", len);
        assert_eq!(Lanes::<i64, 8>::squared_distance(a, b), value, "len = {}", len);
    }
}

#[test]
fn distance_of_known_data() {
    let expected = [
        (0usize, 0i64),
        (4, 297444),
        (10, 374097),
        (16, 374131),
        (63, 768804),
        (64, 768804),
        (72, 848606),
    ];
    for (len, value) in expected {
        let a = &PS[..len];
        let b = &QS[..len];
        assert_eq!(scalar_euclidean(a, b), value, "len = {}", len);
        assert_eq!(vector_euclidean(a, b), value, "len = {}", len);
        assert_eq!(I64x2::distance(a, b), value, "len = {}", len);
        assert_eq!(I64x4::distance(a, b), value, "len = {}", len);
    }
}

#[test]
fn squared_distance_wraps_in_the_narrow_type() {
    let a = narrowed(&PS);
    let b = narrowed(&QS);
    assert_eq!(Naive::squared_distance(&a, &b), -1421146428);
    assert_eq!(Vectorized::squared_distance(&a, &b), -1421146428);
    assert_eq!(I32x4::squared_distance(&a, &b), -1421146428);
    assert_eq!(I32x8::squared_distance(&a, &b), -1421146428);
    assert_eq!(scalar_euclidean(&a, &b), 0);
    assert_eq!(vector_euclidean(&a, &b), 0);
}

#[test]
fn empty_sequences_are_at_distance_zero() {
    let e32: [i32; 0] = [];
    let e64: [i64; 0] = [];
    assert_eq!(scalar_euclidean(&e32[..], &e32[..]), 0);
    assert_eq!(vector_euclidean(&e32[..], &e32[..]), 0);
    assert_eq!(scalar_euclidean(&e64[..], &e64[..]), 0);
    assert_eq!(vector_euclidean(&e64[..], &e64[..]), 0);
    assert_eq!(Naive::squared_distance(&e64[..], &e64[..]), 0);
    assert_eq!(Vectorized::squared_distance(&e64[..], &e64[..]), 0);
    assert_eq!(I32x4::distance(&e32, &e32), 0);
    assert_eq!(I32x8::distance(&e32, &e32), 0);
    assert_eq!(I64x2::distance(&e64, &e64), 0);
    assert_eq!(I64x4::distance(&e64, &e64), 0);
}

#[test]
fn a_sequence_is_at_distance_zero_from_itself() {
    for len in [1usize, 3, 15, 16, 63, 64, 72] {
        let a = &PS[..len];
        assert_eq!(scalar_euclidean(a, a), 0);
        assert_eq!(vector_euclidean(a, a), 0);
        let n = narrowed(a);
        assert_eq!(scalar_euclidean(&n, &n), 0);
        assert_eq!(vector_euclidean(&n, &n), 0);
    }
    let extremes = [i64::MIN, i64::MAX, 0, -1];
    assert_eq!(vector_euclidean(&extremes[..], &extremes[..]), 0);
    assert_eq!(scalar_euclidean(&extremes[..], &extremes[..]), 0);
}

#[test]
fn distance_is_symmetric() {
    for len in 0..=PS.len() {
        let a = &PS[..len];
        let b = &QS[..len];
        assert_eq!(scalar_euclidean(a, b), scalar_euclidean(b, a));
        assert_eq!(vector_euclidean(a, b), vector_euclidean(b, a));
        assert_eq!(Naive::squared_distance(a, b), Naive::squared_distance(b, a));
        assert_eq!(Vectorized::squared_distance(a, b), Vectorized::squared_distance(b, a));
        let n = narrowed(a);
        let m = narrowed(b);
        assert_eq!(Vectorized::squared_distance(&n, &m), Vectorized::squared_distance(&m, &n));
        assert_eq!(Naive::squared_distance(&n, &m), Naive::squared_distance(&m, &n));
    }
}

#[test]
fn both_computations_agree_at_every_length() {
    for len in 0..=160usize {
        let a = ramp(len, 37);
        let b = ramp(len, 91);
        let expected: i64 = a.iter().zip(b.iter()).map(|(x, y)| (x - y) * (x - y)).sum();
        assert_eq!(Naive::squared_distance(&a, &b), expected, "len = {}", len);
        assert_eq!(Vectorized::squared_distance(&a, &b), expected, "len = {}", len);
        assert_eq!(I64x2::squared_distance(&a, &b), expected, "len = {}", len);
        assert_eq!(I64x4::squared_distance(&a, &b), expected, "len = {}", len);
        assert_eq!(vector_euclidean(&a, &b), scalar_euclidean(&a, &b), "len = {}", len);

        let n = narrowed(&a);
        let m = narrowed(&b);
        assert_eq!(Naive::squared_distance(&n, &m), expected as i32, "len = {}", len);
        assert_eq!(Vectorized::squared_distance(&n, &m), expected as i32, "len = {}", len);
        assert_eq!(I32x4::squared_distance(&n, &m), expected as i32, "len = {}", len);
        assert_eq!(I32x8::squared_distance(&n, &m), expected as i32, "len = {}", len);
        assert_eq!(vector_euclidean(&n, &m), scalar_euclidean(&n, &m), "len = {}", len);
    }
}

#[test]
fn both_computations_agree_on_either_side_of_the_threshold() {
    for len in [63usize, 64] {
        let a = narrowed(&ramp(len, 13));
        let b = narrowed(&ramp(len, 7));
        let expected = scalar_euclidean(&a, &b);
        assert!(expected > 0);
        assert_eq!(vector_euclidean(&a, &b), expected);
        assert_eq!(I32x4::distance(&a, &b), expected);
        assert_eq!(I32x8::distance(&a, &b), expected);
    }
    for len in [15usize, 16] {
        let a = ramp(len, 13);
        let b = ramp(len, 7);
        let expected = scalar_euclidean(&a, &b);
        assert!(expected > 0);
        assert_eq!(vector_euclidean(&a, &b), expected);
        assert_eq!(I64x2::distance(&a, &b), expected);
        assert_eq!(I64x4::distance(&a, &b), expected);
    }
}

#[test]
fn fewer_elements_than_lanes() {
    let a = [10i32, 20, 30];
    let b = [13i32, 16, 30];
    assert_eq!(I32x4::squared_distance(&a, &b), 25);
    assert_eq!(I32x8::squared_distance(&a, &b), 25);
    assert_eq!(I32x4::distance(&a, &b), 5);
    let one = [7i64];
    let other = [-5i64];
    assert_eq!(I64x2::squared_distance(&one, &other), 144);
    assert_eq!(I64x2::distance(&one, &other), 12);
}

#[test]
fn full_chunks_and_a_remainder() {
    let a = [1i64, 2, 3, 4, 5, 6, 7, 8, 9, 10];
    let b = [0i64; 10];
    assert_eq!(I64x4::squared_distance(&a, &b), 385);
    assert_eq!(I64x2::squared_distance(&a, &b), 385);
    assert_eq!(Lanes::<i64, 3>::squared_distance(&a, &b), 385);
    assert_eq!(I64x4::squared_distance(&a[..8], &b[..8]), 204);
    assert_eq!(I64x4::distance(&a, &b), 19);
}

#[test]
fn slices_and_vectors_give_the_same() {
    let a = vec![3i64, -4, 12, 0, 5];
    let b = vec![0i64, 0, 0, 0, 0];
    assert_eq!(scalar_euclidean(&a, &b), 13);
    assert_eq!(scalar_euclidean(&a[..], &b[..]), 13);
    assert_eq!(vector_euclidean(&a, &b), 13);
    assert_eq!(vector_euclidean(&a[..], &b[..]), 13);
    assert_eq!(Naive::distance(&a, &b), 13);
    assert_eq!(Vectorized::distance(&a, &b), 13);
    assert_eq!(Naive::squared_distance(&a, &b), 194);
    assert_eq!(Vectorized::squared_distance(&a, &b), 194);
}
