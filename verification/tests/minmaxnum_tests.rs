use autofolder::MaxNum;
use autofolder::MinMaxNum;
use autofolder::MinNum;

/// Test extend, build from sequence for MaxNum
#[test]
fn test_maxnum() {
    let mut maxnum = MaxNum::<usize>::default();
    assert_eq!(maxnum.into_inner(), 0);
    maxnum.eval_ref(&3);
    assert_eq!(maxnum.into_inner(), 3);
    maxnum.extend((1..=5).collect());
    assert_eq!(maxnum.as_ref(), &5);
    let clone = maxnum.clone();
    maxnum.extend((6..=10).rev().collect());
    assert_eq!(maxnum.into_inner(), 10);
    assert_eq!(clone.into_inner(), 5);
    let collect = MaxNum::from_vec((7..=9).rev().collect());
    assert_eq!(collect.into_inner(), 9);
    let singleton = MaxNum::<usize>::from_vec((2..=2).rev().collect());
    assert_eq!(singleton.into_inner(), 2);
}

/// Test extend, build from sequence for MinNum
#[test]
fn test_minnum() {
    let mut minnum = MinNum::<usize>::default();
    assert_eq!(minnum.into_inner(), usize::MAX);
    minnum.eval_ref(&300);
    assert_eq!(minnum.as_ref(), &300);
    minnum.extend((10..=50).collect());
    assert_eq!(minnum.as_ref(), &10);
    let clone = minnum.clone();
    minnum.extend((6..=10).rev().collect());
    assert_eq!(minnum.into_inner(), 6);
    assert_eq!(clone.into_inner(), 10);
    let collect = MinNum::from_vec((2..=4).rev().collect());
    assert_eq!(collect.into_inner(), 2);
    let singleton = MinNum::<usize>::from_vec((2..=2).rev().collect());
    assert_eq!(singleton.into_inner(), 2);
}

/// Test extend, build from sequence for MinMaxNum
#[test]
fn test_minmaxnum() {
    let mut minmaxnum = MinMaxNum::<usize>::default();
    assert_eq!(minmaxnum.into_inner(), (usize::MAX, 0));
    minmaxnum.eval_ref(&300);
    assert_eq!(minmaxnum.as_ref(), (&300, &300));
    minmaxnum.extend((290..=310).collect());
    assert_eq!(minmaxnum.as_ref(), (&290, &310));
    let clone = minmaxnum.clone();
    minmaxnum.extend((280..=320).rev().collect());
    assert_eq!(minmaxnum.into_inner(), (280, 320));
    assert_eq!(clone.into_inner(), (290, 310));
    let collect = MinMaxNum::<usize>::from_vec((2..=4).rev().collect());
    assert_eq!(collect.into_inner(), (2, 4));
    let singleton = MinMaxNum::<usize>::from_vec((2..=2).rev().collect());
    assert_eq!(singleton.into_inner(), (2, 2));
}

/// Building the sentinel trackers from a sequence of references.
#[test]
fn test_sentinel_from_refs() {
    let vec: Vec<usize> = vec![9, 4, 6];
    assert_eq!(MinNum::from_vec_ref(&vec).into_inner(), 4);
    assert_eq!(MaxNum::from_vec_ref(&vec).into_inner(), 9);
    assert_eq!(MinMaxNum::from_vec_ref(&vec).into_inner(), (4, 9));
}
