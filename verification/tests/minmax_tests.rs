use autofolder::MinMax;

use std::cmp::Ordering;
use std::convert::TryFrom;

/// String-wrapping test helper ordered by the number its text parses to; a
/// text that parses to no number compares to nothing.
#[derive(PartialEq, Eq, Debug)]
pub struct Strnum(String);

impl From<String> for Strnum {
    fn from(s: String) -> Self {
        Strnum(s)
    }
}

impl From<&str> for Strnum {
    fn from(s: &str) -> Self {
        Strnum::from(String::from(s))
    }
}

impl From<usize> for Strnum {
    fn from(value: usize) -> Self {
        Strnum::from(format!("{}", value))
    }
}

impl TryFrom<&Strnum> for usize {
    type Error = std::num::ParseIntError;
    fn try_from(value: &Strnum) -> Result<Self, Self::Error> {
        value.0.parse::<usize>()
    }
}

impl PartialOrd for Strnum {
    fn partial_cmp(&self, other: &Self) -> Option<Ordering> {
        let selfnum = usize::try_from(self).ok()?;
        let othernum = usize::try_from(other).ok()?;
        selfnum.partial_cmp(&othernum)
    }
}

#[derive(PartialEq, Eq, Debug, Clone)]
pub struct StrnumClone(String);

impl From<String> for StrnumClone {
    fn from(s: String) -> Self {
        StrnumClone(s)
    }
}

impl From<&str> for StrnumClone {
    fn from(s: &str) -> Self {
        StrnumClone::from(String::from(s))
    }
}

impl From<usize> for StrnumClone {
    fn from(value: usize) -> Self {
        StrnumClone::from(format!("{}", value))
    }
}

impl TryFrom<&StrnumClone> for usize {
    type Error = std::num::ParseIntError;
    fn try_from(value: &StrnumClone) -> Result<Self, Self::Error> {
        value.0.parse::<usize>()
    }
}

impl PartialOrd for StrnumClone {
    fn partial_cmp(&self, other: &Self) -> Option<Ordering> {
        let selfnum = usize::try_from(self).ok()?;
        let othernum = usize::try_from(other).ok()?;
        selfnum.partial_cmp(&othernum)
    }
}

/// Test extend, build from sequence
#[test]
fn test_minmax() {
    let mut minmax = MinMax::<usize>::new(0);
    minmax.eval_ref(&3);
    assert_eq!(minmax.as_ref(), Some((&0, &3)));
    minmax.extend((1..=5).collect());
    assert_eq!(minmax.as_ref(), Some((&0, &5)));
    let clone = minmax.clone();
    minmax.extend((6..=10).rev().collect());
    assert_eq!(minmax.to_inner(), Some((0, 10)));
    assert_eq!(clone.to_inner(), Some((0, 5)));
    let collect = MinMax::from_vec((7..=9).rev().collect());
    assert_eq!(collect.to_inner(), Some((7, 9)));
    let vec = (2..=4).rev().collect::<Vec<_>>();
    let collect_ref = MinMax::<usize>::from_vec_ref(&vec);
    assert_eq!(collect_ref.to_inner(), Some((2, 4)));
}

/// Test type without clone
#[test]
fn minmax_tests_test_type_without_clone() {
    let mut minmax = MinMax::<Strnum>::default();
    assert_eq!(minmax.min_as_ref(), None);
    assert_eq!(minmax.max_as_ref(), None);
    assert_eq!(minmax.as_ref(), None);
    minmax.eval(Strnum::from(5));
    assert_eq!(minmax.min_as_ref(), Some(&Strnum::from(5)));
    assert_eq!(minmax.max_as_ref(), Some(&Strnum::from(5)));
    assert_eq!(minmax.as_ref(), Some((&Strnum::from(5), &Strnum::from(5))));
    minmax.eval(Strnum::from("NaN"));
    assert_eq!(minmax.min_as_ref(), Some(&Strnum::from(5)));
    assert_eq!(minmax.max_as_ref(), Some(&Strnum::from(5)));
    assert_eq!(minmax.as_ref(), Some((&Strnum::from(5), &Strnum::from(5))));
    let mut minmax = MinMax::from_vec((1..=2).map(Strnum::from).collect());
    minmax.extend((4..=5).map(Strnum::from).collect());
    assert_eq!(minmax.min_as_ref(), Some(&Strnum::from(1)));
    assert_eq!(minmax.max_as_ref(), Some(&Strnum::from(5)));
    assert_eq!(minmax.as_ref(), Some((&Strnum::from(1), &Strnum::from(5))));
    minmax.extend((6..=10).map(Strnum::from).rev().collect::<Vec<_>>());
    assert_eq!(minmax.as_ref(), Some((&Strnum::from(1), &Strnum::from(10))));
}

/// Test type with clone
#[test]
fn minmax_tests_test_type_with_clone() {
    let mut minmax = MinMax::<StrnumClone>::default();
    assert_eq!(minmax.clone().to_inner(), None);
    minmax.eval(StrnumClone::from(3));
    assert_eq!(
        minmax.clone().to_inner(),
        Some((StrnumClone::from(3), StrnumClone::from(3)))
    );
    minmax.eval_ref(&StrnumClone::from("NaN"));
    assert_eq!(
        minmax.clone().to_inner(),
        Some((StrnumClone::from(3), StrnumClone::from(3)))
    );
    let vec = (1..=5).map(StrnumClone::from).collect::<Vec<_>>();
    minmax.extend_ref(&vec);
    assert_eq!(
        minmax.to_inner(),
        Some((StrnumClone::from(1), StrnumClone::from(5)))
    );
}
