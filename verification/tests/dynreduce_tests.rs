use autofolder::DynReduce;

/// Test builtin type
#[test]
fn dynreduce_tests_test_builtin_sum_usize() {
    let mut sum = DynReduce::<usize, _>::new(usize_add_usize);
    sum.reduce(10);
    assert_eq!(sum.as_ref(), Some(&10));
    let sum2 = sum.clone();
    sum.extend((1..=5).rev().collect());
    assert_eq!(sum.into_inner(), Some(25));
    assert_eq!(sum2.into_inner(), Some(10));
}

fn usize_add_usize(a: usize, i: usize) -> usize {
    a + i
}

#[derive(Default, PartialEq, Eq, Debug)]
struct Usize(usize);

/// Test newtype wrapper
#[test]
fn dynreduce_tests_test_newtype_with_default() {
    let f = |a: Usize, i: Usize| Usize(a.0 + i.0);
    let mut sum = DynReduce::<Usize, _>::new(f);
    sum.extend((1..=5).map(Usize).collect());
    assert_eq!(sum.as_ref(), Some(&Usize(15)));
    sum.extend((6..=10).rev().map(Usize).collect());
    assert_eq!(sum.into_inner(), Some(Usize(55)));
}

#[derive(Debug)]
struct UsizeNoDefault(pub usize);

/// Test newtype wrapper without default
#[test]
fn dynreduce_tests_test_newtype_without_default() {
    let f = |a: UsizeNoDefault, i: UsizeNoDefault| UsizeNoDefault(a.0 + i.0);
    let mut sum = DynReduce::<UsizeNoDefault, _>::new(f);
    sum.extend((1..=5).map(UsizeNoDefault).rev().collect());
    assert_eq!(sum.into_inner().unwrap().0, 15);
}

/// Test Strings, it doesn't impl Copy
#[test]
fn test_string() {
    let mut autofolder = DynReduce::<String, _>::new(concat);
    let f = |v| format!("{}", v);
    autofolder.extend((1..=5).map(f).collect());
    assert_eq!(autofolder.as_ref().clone(), Some(&format!("1 2 3 4 5")));
    autofolder.extend((6..10).map(f).rev().collect());
    assert_eq!(autofolder.into_inner().unwrap(), "1 2 3 4 5 9 8 7 6");
}

fn concat(lhs: String, rhs: String) -> String {
    // Not at all efficient, but shows that we don't have to return a
    // "changed lhs"
    format!("{} {}", lhs, rhs)
}

/// Test empty input
#[test]
fn test_empty_vec() {
    let mut autofolder = DynReduce::<String, _>::new(concat);
    autofolder.extend(vec![]);
    assert_eq!(autofolder.into_inner(), None);
}
