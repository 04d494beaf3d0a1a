use autofolder::Max;

use std::cmp::Ordering;

/// Test extend, build from sequence
#[test]
fn max_tests_test_max() {
    let mut max = Max::<usize>::new(0);
    max.eval_ref(&3);
    assert_eq!(max.as_ref(), Some(&3));
    max.extend((1..=5).collect());
    assert_eq!(max.as_ref(), Some(&5));
    let max2 = max.clone();
    max.extend((6..=10).rev().collect());
    assert_eq!(max.into_inner(), Some(10));
    assert_eq!(max2.into_inner(), Some(5));
    let max = Max::from_vec((7..=9).rev().collect());
    assert_eq!(max.into_inner(), Some(9));
}

#[derive(Default, PartialEq, Eq, PartialOrd, Debug, Clone)]
pub struct Usize(usize);

/// Test newtype wrapper
#[test]
fn max_tests_test_newtype_with_default() {
    let mut max = Max::<Usize>::new(Usize::default());
    max.extend((1..=5).map(Usize).collect());
    assert_eq!(max.as_ref(), Some(&Usize(5)));
    let sum2 = max.clone();
    max.extend((6..=10).map(Usize).rev().collect());
    assert_eq!(max.into_inner(), Some(Usize(10)));
    assert_eq!(sum2.into_inner(), Some(Usize(5)));
}

#[derive(Default, PartialEq, Eq, PartialOrd, Debug)]
pub struct UsizeNoClone(usize);

/// Test newtype wrapper without default
#[test]
fn max_tests_test_newtype_without_default() {
    let max = Max::from_vec((1..=5).map(UsizeNoClone).rev().collect());
    assert_eq!(max.into_inner().unwrap().0, 5);
}

#[derive(PartialEq, Eq, Debug)]
pub struct MyString(String);
impl PartialOrd for MyString {
    fn partial_cmp(&self, other: &Self) -> Option<Ordering> {
        self.0.len().partial_cmp(&other.0.len())
    }
}

/// Test strings under a length-based order: ties keep the older value
#[test]
fn max_tests_test_newtype_vec() {
    let mut autofolder = Max::<MyString>::default();
    autofolder.extend((6..=30).map(|i| MyString(format!("{}", i))).rev().collect());
    assert_eq!(autofolder.as_ref().unwrap().0, "30");
    autofolder.extend((950..=1005).map(|i| MyString(format!("{}", i))).collect());
    assert_eq!(autofolder.into_inner().unwrap().0, "1000");
}

/// Test empty input
#[test]
fn max_tests_test_empty() {
    let sum: Max<UsizeNoClone> = Max::from_vec(vec![]);
    assert_eq!(sum.into_inner(), None);
}
