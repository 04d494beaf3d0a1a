use autofolder::Accumulable;
use autofolder::Accumulator;

/* Basic tests */

enum MarkerSum {}

#[derive(Default, PartialEq, Eq, Debug)]
struct UsizeWrapper(usize);
type UsizeSum = Accumulator<UsizeWrapper, MarkerSum>;
impl Accumulable<UsizeWrapper, u16> for UsizeSum {
    fn fold_req(_accum: UsizeWrapper, _item: u16) -> bool {
        true
    }
    fn fold_spec(accum: UsizeWrapper, item: u16) -> UsizeWrapper {
        UsizeWrapper(accum.0 + item as usize)
    }
    fn fold(accum: UsizeWrapper, item: u16) -> UsizeWrapper {
        UsizeWrapper(accum.0 + item as usize)
    }
}

#[test]
fn test_sum() {
    let mut sum: Accumulator<UsizeWrapper, MarkerSum> =
        Accumulator::from_vec((1_u16..=5_u16).collect());
    assert_eq!(*sum.read(), UsizeWrapper(15));
    sum.extend((6_u16..=10_u16).rev().collect());
    assert_eq!(*sum.read(), UsizeWrapper(55));
}

/* No-default test: can't build from a sequence alone */

#[derive(PartialEq, Eq, Debug)]
struct UsizeWrapperNoDefault(usize);
type UsizeSumNoDefault = Accumulator<UsizeWrapperNoDefault, MarkerSum>;
impl Accumulable<UsizeWrapperNoDefault, u16> for UsizeSumNoDefault {
    fn fold_req(_a: UsizeWrapperNoDefault, _i: u16) -> bool {
        true
    }
    fn fold_spec(a: UsizeWrapperNoDefault, i: u16) -> UsizeWrapperNoDefault {
        UsizeWrapperNoDefault(a.0 + i as usize)
    }
    fn fold(a: UsizeWrapperNoDefault, i: u16) -> UsizeWrapperNoDefault {
        UsizeWrapperNoDefault(a.0 + i as usize)
    }
}

#[test]
fn test_sum_nodefault() {
    let mut sum = Accumulator::<UsizeWrapperNoDefault, MarkerSum>::new(UsizeWrapperNoDefault(0));
    assert_eq!(*sum.read(), UsizeWrapperNoDefault(0));
    sum.extend((1_u16..=10_u16).rev().collect());
    assert_eq!(*sum.read(), UsizeWrapperNoDefault(55));
}
