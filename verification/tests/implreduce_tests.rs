use autofolder::ImplReduce;
use autofolder::ReduceTrait;

#[derive(Default, PartialEq, Eq, Debug, Clone)]
pub struct Usize(usize);
pub type Adder = ImplReduce<Usize>;
impl ReduceTrait<Usize> for Adder {
    fn reduce_req(_lhs: Usize, _rhs: Usize) -> bool {
        true
    }
    fn reduce_spec(lhs: Usize, rhs: Usize) -> Usize {
        Usize(lhs.0 + rhs.0)
    }
    fn reduce(lhs: Usize, rhs: Usize) -> Usize {
        Usize(lhs.0 + rhs.0)
    }
}

/// Test newtype wrapper
#[test]
fn implreduce_tests_test_newtype_with_default() {
    let mut sum = Adder::new(Usize::default());
    sum.extend((1..=5).map(Usize).collect());
    assert_eq!(sum.as_ref(), Some(&Usize(15)));
    let sum2 = sum.clone();
    sum.extend((6..=10).map(Usize).rev().collect());
    assert_eq!(sum.into_inner(), Some(Usize(55)));
    assert_eq!(sum2.into_inner(), Some(Usize(15)));
}

#[derive(Default, PartialEq, Eq, Debug)]
pub struct UsizeNoDefault(usize);
pub type AdderNoDefault = ImplReduce<UsizeNoDefault>;
impl ReduceTrait<UsizeNoDefault> for AdderNoDefault {
    fn reduce_req(_lhs: UsizeNoDefault, _rhs: UsizeNoDefault) -> bool {
        true
    }
    fn reduce_spec(lhs: UsizeNoDefault, rhs: UsizeNoDefault) -> UsizeNoDefault {
        UsizeNoDefault(lhs.0 + rhs.0)
    }
    fn reduce(lhs: UsizeNoDefault, rhs: UsizeNoDefault) -> UsizeNoDefault {
        UsizeNoDefault(lhs.0 + rhs.0)
    }
}

/// Test newtype wrapper without default
#[test]
fn implreduce_tests_test_newtype_without_default() {
    let sum = AdderNoDefault::from_vec((1..=5).map(UsizeNoDefault).rev().collect());
    assert_eq!(sum.into_inner().unwrap().0, 15);
}

#[derive(PartialEq, Eq, Debug)]
pub struct MyString(String);
pub type StringMax = ImplReduce<MyString>;
impl ReduceTrait<MyString> for StringMax {
    fn reduce_req(_lhs: MyString, _rhs: MyString) -> bool {
        true
    }
    fn reduce_spec(lhs: MyString, rhs: MyString) -> MyString {
        if lhs.0.len() > rhs.0.len() {
            lhs
        } else {
            rhs
        }
    }
    fn reduce(lhs: MyString, rhs: MyString) -> MyString {
        if lhs.0.len() > rhs.0.len() {
            lhs
        } else {
            rhs
        }
    }
}

/// Test strings, which don't impl Copy
#[test]
fn implreduce_tests_test_newtype_vec() {
    let mut autofolder = StringMax::default();
    autofolder.extend((6..=10).map(|i| MyString(format!("{}", i))).rev().collect());
    assert_eq!(autofolder.as_ref().unwrap().0, "10");
    assert_eq!(autofolder.into_inner().unwrap().0, "10");
}

/// Test empty input
#[test]
fn implreduce_tests_test_empty() {
    let sum: Adder = ImplReduce::from_vec(vec![]);
    assert_eq!(sum.into_inner(), None);
}
