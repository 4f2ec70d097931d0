use cairo_hints::integer::Integer;

#[test]
fn integer_compare_small() {
    let a = Integer::from_i64(-5);
    let b = Integer::from_i64(3);
    assert_eq!(a.compare(&b), -1);
    assert_eq!(b.compare(&a), 1);
    assert_eq!(a.compare(&Integer::from_i64(-5)), 0);
    assert!(b.greater_than(&a));
    assert!(b.greater_or_equal(&Integer::from_u64(3)));
    assert!(!a.greater_or_equal(&b));
}

#[test]
fn integer_compare_multi_limb() {
    // 2^64 + 5 against 2^64 - 1, and their negations.
    let big = Integer::from_parts(false, vec![5, 1]);
    let below = Integer::from_u64(u64::MAX);
    assert_eq!(big.compare(&below), 1);
    let neg_big = Integer::from_parts(true, vec![5, 1]);
    let neg_below = Integer::from_parts(true, vec![u64::MAX]);
    assert_eq!(neg_big.compare(&neg_below), -1);
    assert_eq!(neg_big.compare(&Integer::from_parts(true, vec![5, 1])), 0);
    // Equal top limbs, lower limbs decide.
    let x = Integer::from_parts(false, vec![4, 7]);
    let y = Integer::from_parts(false, vec![9, 7]);
    assert_eq!(x.compare(&y), -1);
}

#[test]
fn integer_from_parts_is_canonical() {
    assert_eq!(Integer::from_parts(false, vec![3, 0, 0]), Integer::from_u64(3));
    assert_eq!(Integer::from_parts(true, vec![0]), Integer::from_i64(0));
    assert_eq!(Integer::from_parts(true, vec![]), Integer::from_u64(0));
    assert!(Integer::from_parts(false, vec![0, 0]).equals(&Integer::from_i64(0)));
    assert_eq!(Integer::from_parts(true, vec![7, 0]).to_parts(), (true, vec![7]));
}

#[test]
fn integer_sign() {
    assert!(Integer::from_i64(-1).is_negative());
    assert!(!Integer::from_i64(0).is_negative());
    assert!(!Integer::from_parts(true, vec![0]).is_negative());
    assert!(Integer::from_i64(1).is_positive());
    assert!(!Integer::from_i64(0).is_positive());
    assert!(!Integer::from_i64(-3).is_positive());
}

#[test]
fn integer_to_usize() {
    assert_eq!(Integer::from_i64(42).to_usize(), Some(42));
    assert_eq!(Integer::from_i64(0).to_usize(), Some(0));
    assert_eq!(Integer::from_i64(-1).to_usize(), None);
    assert_eq!(Integer::from_usize(usize::MAX).to_usize(), Some(usize::MAX));
    assert_eq!(Integer::from_parts(false, vec![0, 1]).to_usize(), None);
}

#[test]
fn integer_to_i32() {
    assert_eq!(Integer::from_i64(i32::MAX as i64).to_i32(), Some(i32::MAX));
    assert_eq!(Integer::from_i64(i32::MIN as i64).to_i32(), Some(i32::MIN));
    assert_eq!(Integer::from_i64(i32::MAX as i64 + 1).to_i32(), None);
    assert_eq!(Integer::from_i64(i32::MIN as i64 - 1).to_i32(), None);
    assert_eq!(Integer::from_i32(-7).to_i32(), Some(-7));
    assert_eq!(Integer::from_parts(true, vec![1, 1]).to_i32(), None);
}

#[test]
fn integer_extremes_of_i64() {
    let min = Integer::from_i64(i64::MIN);
    assert_eq!(min.to_parts(), (true, vec![1u64 << 63]));
    assert_eq!(min.compare(&Integer::from_i64(i64::MIN + 1)), -1);
    assert_eq!(Integer::from_i64(i64::MAX).to_parts(), (false, vec![i64::MAX as u64]));
}

#[test]
fn integer_clone_keeps_value() {
    let a = Integer::from_parts(true, vec![1, 2, 3]);
    let b = a.clone();
    assert!(a.equals(&b));
    assert_eq!(a, b);
}
