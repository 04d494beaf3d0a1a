use autofolder::FolderTrait;
use autofolder::ImplFolder;

#[derive(Default, PartialEq, Eq, Debug, Clone)]
pub struct Usize(usize);
pub type Adder = ImplFolder<Usize, u16>;
impl FolderTrait<Usize, u16> for Adder {
    fn fold_req(_accum: Usize, _item: u16) -> bool {
        true
    }
    fn fold_spec(accum: Usize, item: u16) -> Usize {
        Usize(accum.0 + item as usize)
    }
    fn fold(accum: Usize, item: u16) -> Usize {
        Usize(accum.0 + item as usize)
    }
}

/// Test newtype wrapper
#[test]
fn implfolder_tests_test_newtype_with_default() {
    let mut sum = Adder::from_vec((1..=5).collect());
    assert_eq!(sum.as_ref(), &Usize(15));
    let sum2 = sum.clone();
    sum.extend((6..=10).rev().collect());
    assert_eq!(sum.into_inner(), Usize(55));
    assert_eq!(sum2.into_inner(), Usize(15));
}

#[derive(Default, PartialEq, Eq, Debug)]
pub struct UsizeNoDefault(usize);
pub type AdderNoDefault = ImplFolder<UsizeNoDefault, u16>;
impl FolderTrait<UsizeNoDefault, u16> for AdderNoDefault {
    fn fold_req(_accum: UsizeNoDefault, _item: u16) -> bool {
        true
    }
    fn fold_spec(accum: UsizeNoDefault, item: u16) -> UsizeNoDefault {
        UsizeNoDefault(accum.0 + item as usize)
    }
    fn fold(accum: UsizeNoDefault, item: u16) -> UsizeNoDefault {
        UsizeNoDefault(accum.0 + item as usize)
    }
}

/// Test newtype wrapper without default
#[test]
fn implfolder_tests_test_newtype_without_default() {
    let mut sum = AdderNoDefault::new(UsizeNoDefault(0));
    sum.extend((1..=5).rev().collect());
    assert_eq!(sum.into_inner().0, 15);
}

#[derive(PartialEq, Eq, Debug)]
pub struct VecString(Vec<String>);
pub type StringJoiner = ImplFolder<VecString, String>;
impl FolderTrait<VecString, String> for StringJoiner {
    fn fold_req(_accum: VecString, _item: String) -> bool {
        true
    }
    fn fold_spec(mut accum: VecString, item: String) -> VecString {
        accum.0.push(item);
        accum
    }
    fn fold(mut accum: VecString, item: String) -> VecString {
        accum.0.push(item);
        accum
    }
}

/// Test vector of Strings, neither impl Copy
#[test]
fn implfolder_tests_test_newtype_vec() {
    let mut autofolder = StringJoiner::new(VecString(vec![]));
    autofolder.extend((6..10).map(|i| format!("{}", i)).rev().collect());
    assert_eq!(autofolder.as_ref().0, vec!["9", "8", "7", "6"]);
    assert_eq!(autofolder.into_inner().0, vec!["9", "8", "7", "6"]);
}
