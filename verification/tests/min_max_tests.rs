use autofolder::Max;
use autofolder::Min;

use std::cmp::Ordering;
use std::convert::TryFrom;

/// String-wrapping test helper ordered by the number its text parses to; a
/// text that parses to no number compares to nothing.
#[derive(PartialEq, Eq, Debug)]
pub struct Strnum(String);

impl From<String> for Strnum {
    fn from(s: String) -> Self {
        Strnum(s)
    }
}

impl From<&str> for Strnum {
    fn from(s: &str) -> Self {
        Strnum::from(String::from(s))
    }
}

impl From<usize> for Strnum {
    fn from(value: usize) -> Self {
        Strnum::from(format!("{}", value))
    }
}

impl TryFrom<&Strnum> for usize {
    type Error = std::num::ParseIntError;
    fn try_from(value: &Strnum) -> Result<Self, Self::Error> {
        value.0.parse::<usize>()
    }
}

impl PartialOrd for Strnum {
    fn partial_cmp(&self, other: &Self) -> Option<Ordering> {
        let selfnum = usize::try_from(self).ok()?;
        let othernum = usize::try_from(other).ok()?;
        selfnum.partial_cmp(&othernum)
    }
}

#[derive(PartialEq, Eq, Debug, Clone)]
pub struct StrnumClone(String);

impl From<String> for StrnumClone {
    fn from(s: String) -> Self {
        StrnumClone(s)
    }
}

impl From<&str> for StrnumClone {
    fn from(s: &str) -> Self {
        StrnumClone::from(String::from(s))
    }
}

impl From<usize> for StrnumClone {
    fn from(value: usize) -> Self {
        StrnumClone::from(format!("{}", value))
    }
}

impl TryFrom<&StrnumClone> for usize {
    type Error = std::num::ParseIntError;
    fn try_from(value: &StrnumClone) -> Result<Self, Self::Error> {
        value.0.parse::<usize>()
    }
}

impl PartialOrd for StrnumClone {
    fn partial_cmp(&self, other: &Self) -> Option<Ordering> {
        let selfnum = usize::try_from(self).ok()?;
        let othernum = usize::try_from(other).ok()?;
        selfnum.partial_cmp(&othernum)
    }
}

/// Test extend, build from sequence for min
#[test]
fn test_min() {
    let mut min = Min::<usize>::new(500);
    min.eval_ref(&300);
    assert_eq!(min.as_ref(), Some(&300));
    min.extend((250..=255).collect());
    assert_eq!(min.as_ref(), Some(&250));
    let clone = min.clone();
    min.extend((6..=10).rev().collect());
    assert_eq!(min.into_inner(), Some(6));
    assert_eq!(clone.into_inner(), Some(250));
    let collect = Min::from_vec((2..=4).rev().collect());
    assert_eq!(collect.into_inner(), Some(2));
    let vec = (2..=4).rev().collect::<Vec<_>>();
    let collect_ref = Min::<usize>::from_vec_ref(&vec);
    assert_eq!(collect_ref.into_inner(), Some(2));
}

/// Test extend, build from sequence for max
#[test]
fn min_max_tests_test_max() {
    let mut max = Max::<usize>::new(0);
    max.eval_ref(&3);
    assert_eq!(max.as_ref(), Some(&3));
    max.extend((1..=5).collect());
    assert_eq!(max.as_ref(), Some(&5));
    let clone = max.clone();
    max.extend((6..=10).rev().collect());
    assert_eq!(max.into_inner(), Some(10));
    assert_eq!(clone.into_inner(), Some(5));
    let collect = Max::from_vec((7..=9).rev().collect());
    assert_eq!(collect.into_inner(), Some(9));
    let vec = (2..=4).rev().collect::<Vec<_>>();
    let collect_ref = Max::<usize>::from_vec_ref(&vec);
    assert_eq!(collect_ref.into_inner(), Some(4));
}

/// Test type with clone
#[test]
fn min_max_tests_test_type_with_clone() {
    let mut max = Max::<StrnumClone>::default();
    max.extend((1..=5).map(StrnumClone::from).collect());
    assert_eq!(max.as_ref(), Some(&StrnumClone::from(5)));
    let sum2 = max.clone();
    max.extend((6..=10).map(StrnumClone::from).rev().collect());
    assert_eq!(max.into_inner(), Some(StrnumClone::from(10)));
    assert_eq!(sum2.into_inner(), Some(StrnumClone::from(5)));
}

/// Test type without clone
#[test]
fn min_max_tests_test_type_without_clone() {
    let mut autofolder = Max::<Strnum>::default();
    autofolder.extend((6..=30).map(Strnum::from).rev().collect());
    assert_eq!(autofolder.as_ref().unwrap(), &Strnum::from(30));
    autofolder.extend((950..=1005).map(Strnum::from).collect());
    assert_eq!(autofolder.into_inner().unwrap(), Strnum::from("1005"));
}

/// Test empty input
#[test]
fn min_max_tests_test_empty() {
    let sum: Max<Strnum> = Max::from_vec(vec![]);
    assert_eq!(sum.into_inner(), None);
}
