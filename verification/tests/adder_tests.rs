use autofolder::Adder;

/// Folding single items adds them into the running sum.
#[test]
fn adder_fold_accumulates() {
    let mut adder = Adder::<usize, usize>::new(7);
    adder.fold(3);
    assert_eq!(*adder.read(), 10);
    adder.fold(5);
    assert_eq!(adder.into_inner(), 15);
}

/// Extending with a whole sequence adds every item, in order.
#[test]
fn adder_extend_sums_sequence() {
    let mut adder = Adder::<u64, u64>::new(0);
    adder.extend(vec![1, 2, 3, 4, 5]);
    assert_eq!(*adder.read(), 15);
    adder.extend((6..=10).rev().collect());
    assert_eq!(adder.into_inner(), 55);
}

/// Building from a sequence seeds the sum with the type's default, zero.
#[test]
fn adder_from_vec_starts_at_default() {
    let adder: Adder<i64, i64> = Adder::from_vec(vec![-3, 10, 2]);
    assert_eq!(adder.into_inner(), 9);
    let empty: Adder<i64, i64> = Adder::from_vec(vec![]);
    assert_eq!(empty.into_inner(), 0);
}
