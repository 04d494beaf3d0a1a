use vstd::prelude::*;

use core::cmp::Ordering;
use vstd::pervasive::cloned;
use vstd::std_specs::cmp::PartialOrdSpec;

verus! {

/// One step of an extremum tracker: the candidate replaces the stored value
/// exactly when comparing the candidate against it yields `target`
/// (`Less` for a minimum tracker, `Greater` for a maximum tracker).
/// A tie or an undefined comparison keeps the stored value.
pub open spec fn extremum_step<Item: PartialOrd>(
    cur: Option<Item>,
    item: Item,
    target: Ordering,
) -> Option<Item> {
    match cur {
        Option::None => Some(item),
        Option::Some(stored) => if item.partial_cmp_spec(&stored) == Some(target) {
            Some(item)
        } else {
            Some(stored)
        },
    }
}

/// Folding a whole sequence into an extremum tracker, item by item, in order.
pub open spec fn extremum_fold<Item: PartialOrd>(
    cur: Option<Item>,
    items: Seq<Item>,
    target: Ordering,
) -> Option<Item>
    decreases items.len(),
{
    if items.len() == 0 {
        cur
    } else {
        extremum_fold(extremum_step(cur, items[0], target), items.skip(1), target)
    }
}

/// One step of an extremum tracker fed through a reference: when the candidate
/// wins, the stored value becomes a clone of it.
pub open spec fn extremum_step_ref<Item: PartialOrd + Clone>(
    cur: Option<Item>,
    item: Item,
    next: Option<Item>,
    target: Ordering,
) -> bool {
    match cur {
        Option::None => next matches Some(v) && cloned::<Item>(item, v),
        Option::Some(stored) => if item.partial_cmp_spec(&stored) == Some(target) {
            next matches Some(v) && cloned::<Item>(item, v)
        } else {
            next == cur
        },
    }
}

/// Folding a whole sequence of references into an extremum tracker.
pub open spec fn extremum_fold_ref<Item: PartialOrd + Clone>(
    cur: Option<Item>,
    items: Seq<Item>,
    next: Option<Item>,
    target: Ordering,
) -> bool
    decreases items.len(),
{
    if items.len() == 0 {
        next == cur
    } else {
        exists|mid: Option<Item>|
            #[trigger] extremum_step_ref(cur, items[0], mid, target) && extremum_fold_ref(
                mid,
                items.skip(1),
                next,
                target,
            )
    }
}

/// Keeps only the smallest value seen so far, as given by `PartialOrd`;
/// empty until the first item arrives.
#[derive(Debug, Copy, Clone)]
pub struct Min<Item> {
    item: Option<Item>,
}

/// Keeps only the largest value seen so far, as given by `PartialOrd`;
/// empty until the first item arrives.
#[derive(Debug, Copy, Clone)]
pub struct Max<Item> {
    item: Option<Item>,
}

impl<Item> Min<Item> {
    /// The running value: absent until the first item is reduced in.
    pub closed spec fn current(self) -> Option<Item> {
        self.item
    }

    /// Creates a `Min` already holding `initial`.
    pub fn new(initial: Item) -> (r: Self)
        ensures
            r.current() == Some(initial),
    {
        Min { item: Some(initial) }
    }

    /// Deconstructs self and returns the inner value.
    pub fn into_inner(self) -> (r: Option<Item>)
        ensures
            r == self.current(),
    {
        self.item
    }

    /// Returns a reference to the inner value, if there is one.
    pub fn as_ref(&self) -> (r: Option<&Item>)
        ensures
            match r {
                Option::None => self.current() is None,
                Option::Some(v) => self.current() == Some(*v),
            },
    {
        self.item.as_ref()
    }

    /// Replaces the current value with the new one exactly when the new one is
    /// strictly smaller; a tie or an undefined comparison keeps the old value.
    pub fn reduce(&mut self, item: Item) where Item: PartialOrd
        ensures
            Item::obeys_partial_cmp_spec() ==> final(self).current() == extremum_step(
                old(self).current(),
                item,
                Ordering::Less,
            ),
            old(self).current() is None ==> final(self).current() == Some(item),
            final(self).current() is Some,
            final(self).current() == Some(item) || final(self).current() == old(self).current(),
    {
        let replace = match &self.item {
            Option::None => true,
            Option::Some(stored) => matches!(item.partial_cmp(stored), Some(Ordering::Less)),
        };
        if replace {
            self.item = Some(item);
        }
    }

    /// Like [`Min::reduce`], taking the candidate by reference and cloning it
    /// only when it actually replaces the stored value.
    pub fn reduce_ref(&mut self, item: &Item) where Item: PartialOrd + Clone
        ensures
            final(self).current() is Some,
            Item::obeys_partial_cmp_spec() ==> extremum_step_ref(
                old(self).current(),
                *item,
                final(self).current(),
                Ordering::Less,
            ),
    {
        let replace = match &self.item {
            Option::None => true,
            Option::Some(stored) => matches!(item.partial_cmp(stored), Some(Ordering::Less)),
        };
        if replace {
            self.item = Some(item.clone());
        }
    }

    /// Alias for [`Min::reduce`].
    pub fn eval(&mut self, item: Item) where Item: PartialOrd
        ensures
            Item::obeys_partial_cmp_spec() ==> final(self).current() == extremum_step(
                old(self).current(),
                item,
                Ordering::Less,
            ),
            old(self).current() is None ==> final(self).current() == Some(item),
            final(self).current() is Some,
            final(self).current() == Some(item) || final(self).current() == old(self).current(),
    {
        self.reduce(item)
    }

    /// Alias for [`Min::reduce_ref`].
    pub fn eval_ref(&mut self, item: &Item) where Item: PartialOrd + Clone
        ensures
            final(self).current() is Some,
            Item::obeys_partial_cmp_spec() ==> extremum_step_ref(
                old(self).current(),
                *item,
                final(self).current(),
                Ordering::Less,
            ),
    {
        self.reduce_ref(item)
    }

    /// Reduces a whole sequence of items into self, in order.
    pub fn extend(&mut self, items: Vec<Item>) where Item: PartialOrd
        ensures
            Item::obeys_partial_cmp_spec() ==> final(self).current() == extremum_fold(
                old(self).current(),
                items@,
                Ordering::Less,
            ),
    {
        let ghost all = items@;
        let mut items = items;
        while items.len() > 0
            invariant
                Item::obeys_partial_cmp_spec() ==> extremum_fold(
                    self.current(),
                    items@,
                    Ordering::Less,
                ) == extremum_fold(old(self).current(), all, Ordering::Less),
            decreases items.len(),
        {
            let ghost pre = items@;
            let it = items.remove(0);
            proof {
                assert(items@ =~= pre.skip(1));
            }
            self.reduce(it);
        }
    }

    /// Reduces a whole sequence of items into self by reference, in order.
    pub fn extend_ref(&mut self, items: &Vec<Item>) where Item: PartialOrd + Clone
        ensures
            Item::obeys_partial_cmp_spec() ==> extremum_fold_ref(
                old(self).current(),
                items@,
                final(self).current(),
                Ordering::Less,
            ),
    {
        let ghost all = items@;
        let mut i: usize = 0;
        while i < items.len()
            invariant
                i <= items.len(),
                items@ == all,
                Item::obeys_partial_cmp_spec() ==> extremum_fold_ref(
                    old(self).current(),
                    all.take(i as int),
                    self.current(),
                    Ordering::Less,
                ),
            decreases items.len() - i,
        {
            let ghost before = self.current();
            self.reduce_ref(&items[i]);
            proof {
                if Item::obeys_partial_cmp_spec() {
                    lemma_extremum_fold_ref_snoc(
                        old(self).current(),
                        all.take(i as int),
                        before,
                        all[i as int],
                        self.current(),
                        Ordering::Less,
                    );
                    assert(all.take(i as int).push(all[i as int]) =~= all.take(i + 1 as int));
                }
            }
            i = i + 1;
        }
        proof {
            assert(all.take(items@.len() as int) =~= all);
        }
    }

    /// Builds a `Min` from a whole sequence of items, in order.
    pub fn from_vec(items: Vec<Item>) -> (r: Self) where Item: PartialOrd
        ensures
            Item::obeys_partial_cmp_spec() ==> r.current() == extremum_fold(
                Option::<Item>::None,
                items@,
                Ordering::Less,
            ),
    {
        let mut r = Min { item: Option::None };
        r.extend(items);
        r
    }

    /// Builds a `Min` from a whole sequence of items by reference, in order.
    pub fn from_vec_ref(items: &Vec<Item>) -> (r: Self) where Item: PartialOrd + Clone
        ensures
            Item::obeys_partial_cmp_spec() ==> extremum_fold_ref(
                Option::<Item>::None,
                items@,
                r.current(),
                Ordering::Less,
            ),
    {
        let mut r = Min { item: Option::None };
        r.extend_ref(items);
        r
    }
}

impl<Item> Default for Min<Item> {
    /// An empty `Min`: no item seen yet.
    fn default() -> (r: Self)
        ensures
            r.current() is None,
    {
        Min { item: Option::None }
    }
}

impl<Item> Max<Item> {
    /// The running value: absent until the first item is reduced in.
    pub closed spec fn current(self) -> Option<Item> {
        self.item
    }

    /// Creates a `Max` already holding `initial`.
    pub fn new(initial: Item) -> (r: Self)
        ensures
            r.current() == Some(initial),
    {
        Max { item: Some(initial) }
    }

    /// Deconstructs self and returns the inner value.
    pub fn into_inner(self) -> (r: Option<Item>)
        ensures
            r == self.current(),
    {
        self.item
    }

    /// Returns a reference to the inner value, if there is one.
    pub fn as_ref(&self) -> (r: Option<&Item>)
        ensures
            match r {
                Option::None => self.current() is None,
                Option::Some(v) => self.current() == Some(*v),
            },
    {
        self.item.as_ref()
    }

    /// Replaces the current value with the new one exactly when the new one is
    /// strictly larger; a tie or an undefined comparison keeps the old value.
    pub fn reduce(&mut self, item: Item) where Item: PartialOrd
        ensures
            Item::obeys_partial_cmp_spec() ==> final(self).current() == extremum_step(
                old(self).current(),
                item,
                Ordering::Greater,
            ),
            old(self).current() is None ==> final(self).current() == Some(item),
            final(self).current() is Some,
            final(self).current() == Some(item) || final(self).current() == old(self).current(),
    {
        let replace = match &self.item {
            Option::None => true,
            Option::Some(stored) => matches!(item.partial_cmp(stored), Some(Ordering::Greater)),
        };
        if replace {
            self.item = Some(item);
        }
    }

    /// Like [`Max::reduce`], taking the candidate by reference and cloning it
    /// only when it actually replaces the stored value.
    pub fn reduce_ref(&mut self, item: &Item) where Item: PartialOrd + Clone
        ensures
            final(self).current() is Some,
            Item::obeys_partial_cmp_spec() ==> extremum_step_ref(
                old(self).current(),
                *item,
                final(self).current(),
                Ordering::Greater,
            ),
    {
        let replace = match &self.item {
            Option::None => true,
            Option::Some(stored) => matches!(item.partial_cmp(stored), Some(Ordering::Greater)),
        };
        if replace {
            self.item = Some(item.clone());
        }
    }

    /// Alias for [`Max::reduce`].
    pub fn eval(&mut self, item: Item) where Item: PartialOrd
        ensures
            Item::obeys_partial_cmp_spec() ==> final(self).current() == extremum_step(
                old(self).current(),
                item,
                Ordering::Greater,
            ),
            old(self).current() is None ==> final(self).current() == Some(item),
            final(self).current() is Some,
            final(self).current() == Some(item) || final(self).current() == old(self).current(),
    {
        self.reduce(item)
    }

    /// Alias for [`Max::reduce_ref`].
    pub fn eval_ref(&mut self, item: &Item) where Item: PartialOrd + Clone
        ensures
            final(self).current() is Some,
            Item::obeys_partial_cmp_spec() ==> extremum_step_ref(
                old(self).current(),
                *item,
                final(self).current(),
                Ordering::Greater,
            ),
    {
        self.reduce_ref(item)
    }

    /// Reduces a whole sequence of items into self, in order.
    pub fn extend(&mut self, items: Vec<Item>) where Item: PartialOrd
        ensures
            Item::obeys_partial_cmp_spec() ==> final(self).current() == extremum_fold(
                old(self).current(),
                items@,
                Ordering::Greater,
            ),
    {
        let ghost all = items@;
        let mut items = items;
        while items.len() > 0
            invariant
                Item::obeys_partial_cmp_spec() ==> extremum_fold(
                    self.current(),
                    items@,
                    Ordering::Greater,
                ) == extremum_fold(old(self).current(), all, Ordering::Greater),
            decreases items.len(),
        {
            let ghost pre = items@;
            let it = items.remove(0);
            proof {
                assert(items@ =~= pre.skip(1));
            }
            self.reduce(it);
        }
    }

    /// Reduces a whole sequence of items into self by reference, in order.
    pub fn extend_ref(&mut self, items: &Vec<Item>) where Item: PartialOrd + Clone
        ensures
            Item::obeys_partial_cmp_spec() ==> extremum_fold_ref(
                old(self).current(),
                items@,
                final(self).current(),
                Ordering::Greater,
            ),
    {
        let ghost all = items@;
        let mut i: usize = 0;
        while i < items.len()
            invariant
                i <= items.len(),
                items@ == all,
                Item::obeys_partial_cmp_spec() ==> extremum_fold_ref(
                    old(self).current(),
                    all.take(i as int),
                    self.current(),
                    Ordering::Greater,
                ),
            decreases items.len() - i,
        {
            let ghost before = self.current();
            self.reduce_ref(&items[i]);
            proof {
                if Item::obeys_partial_cmp_spec() {
                    lemma_extremum_fold_ref_snoc(
                        old(self).current(),
                        all.take(i as int),
                        before,
                        all[i as int],
                        self.current(),
                        Ordering::Greater,
                    );
                    assert(all.take(i as int).push(all[i as int]) =~= all.take(i + 1 as int));
                }
            }
            i = i + 1;
        }
        proof {
            assert(all.take(items@.len() as int) =~= all);
        }
    }

    /// Builds a `Max` from a whole sequence of items, in order.
    pub fn from_vec(items: Vec<Item>) -> (r: Self) where Item: PartialOrd
        ensures
            Item::obeys_partial_cmp_spec() ==> r.current() == extremum_fold(
                Option::<Item>::None,
                items@,
                Ordering::Greater,
            ),
    {
        let mut r = Max { item: Option::None };
        r.extend(items);
        r
    }

    /// Builds a `Max` from a whole sequence of items by reference, in order.
    pub fn from_vec_ref(items: &Vec<Item>) -> (r: Self) where Item: PartialOrd + Clone
        ensures
            Item::obeys_partial_cmp_spec() ==> extremum_fold_ref(
                Option::<Item>::None,
                items@,
                r.current(),
                Ordering::Greater,
            ),
    {
        let mut r = Max { item: Option::None };
        r.extend_ref(items);
        r
    }
}

impl<Item> Default for Max<Item> {
    /// An empty `Max`: no item seen yet.
    fn default() -> (r: Self)
        ensures
            r.current() is None,
    {
        Max { item: Option::None }
    }
}


/// Keeps both the smallest and largest values seen so far, as given by
/// `PartialOrd`. A single item acts as both extremes; two distinct extremes
/// are held as a confirmed (min, max) pair.
#[derive(Debug, Copy, Clone)]
pub enum MinMax<Item> {
    /// Empty; no item evaluated.
    Empty,
    /// Single item evaluated: it is both the minimum and the maximum so far.
    Single(Item),
    /// Two or more distinct items evaluated: the minimum and maximum values.
    Both(Item, Item),
}

/// One step of the combined tracker. From a single stored value, a strictly
/// smaller or larger candidate opens a (min, max) pair; a tie or an undefined
/// comparison keeps the single value. With a pair, the candidate replaces the
/// minimum when strictly smaller than it, else the maximum when strictly
/// larger than it.
pub open spec fn minmax_step<Item: PartialOrd>(cur: MinMax<Item>, item: Item) -> MinMax<Item> {
    match cur {
        MinMax::Empty => MinMax::Single(item),
        MinMax::Single(stored) => if item.partial_cmp_spec(&stored) == Some(Ordering::Less) {
            MinMax::Both(item, stored)
        } else if item.partial_cmp_spec(&stored) == Some(Ordering::Greater) {
            MinMax::Both(stored, item)
        } else {
            MinMax::Single(stored)
        },
        MinMax::Both(mn, mx) => if item.partial_cmp_spec(&mn) == Some(Ordering::Less) {
            MinMax::Both(item, mx)
        } else if item.partial_cmp_spec(&mx) == Some(Ordering::Greater) {
            MinMax::Both(mn, item)
        } else {
            MinMax::Both(mn, mx)
        },
    }
}

/// Folding a whole sequence into the combined tracker, item by item, in order.
pub open spec fn minmax_fold<Item: PartialOrd>(cur: MinMax<Item>, items: Seq<Item>) -> MinMax<
    Item,
>
    decreases items.len(),
{
    if items.len() == 0 {
        cur
    } else {
        minmax_fold(minmax_step(cur, items[0]), items.skip(1))
    }
}

/// One step of the combined tracker fed through a reference: where the
/// candidate is stored, a clone of it is stored instead.
pub open spec fn minmax_step_ref<Item: PartialOrd + Clone>(
    cur: MinMax<Item>,
    item: Item,
    next: MinMax<Item>,
) -> bool {
    match cur {
        MinMax::Empty => next matches MinMax::Single(v) && cloned::<Item>(item, v),
        MinMax::Single(stored) => if item.partial_cmp_spec(&stored) == Some(Ordering::Less) {
            next matches MinMax::Both(a, b) && cloned::<Item>(item, a) && b == stored
        } else if item.partial_cmp_spec(&stored) == Some(Ordering::Greater) {
            next matches MinMax::Both(a, b) && a == stored && cloned::<Item>(item, b)
        } else {
            next == MinMax::Single(stored)
        },
        MinMax::Both(mn, mx) => if item.partial_cmp_spec(&mn) == Some(Ordering::Less) {
            next matches MinMax::Both(a, b) && cloned::<Item>(item, a) && b == mx
        } else if item.partial_cmp_spec(&mx) == Some(Ordering::Greater) {
            next matches MinMax::Both(a, b) && a == mn && cloned::<Item>(item, b)
        } else {
            next == cur
        },
    }
}

/// Folding a whole sequence of references into the combined tracker.
pub open spec fn minmax_fold_ref<Item: PartialOrd + Clone>(
    cur: MinMax<Item>,
    items: Seq<Item>,
    next: MinMax<Item>,
) -> bool
    decreases items.len(),
{
    if items.len() == 0 {
        next == cur
    } else {
        exists|mid: MinMax<Item>|
            #[trigger] minmax_step_ref(cur, items[0], mid) && minmax_fold_ref(
                mid,
                items.skip(1),
                next,
            )
    }
}

impl<Item> MinMax<Item> {
    /// The smallest value seen so far, if any; a single stored value is it.
    pub open spec fn spec_min(self) -> Option<Item> {
        match self {
            MinMax::Empty => Option::None,
            MinMax::Single(v) => Some(v),
            MinMax::Both(mn, _) => Some(mn),
        }
    }

    /// The largest value seen so far, if any; a single stored value is it.
    pub open spec fn spec_max(self) -> Option<Item> {
        match self {
            MinMax::Empty => Option::None,
            MinMax::Single(v) => Some(v),
            MinMax::Both(_, mx) => Some(mx),
        }
    }

    /// Creates a `MinMax` already holding `initial` as its single value.
    pub fn new(initial: Item) -> (r: Self)
        ensures
            r == MinMax::Single(initial),
    {
        MinMax::Single(initial)
    }

    /// Deconstructs self and returns the extreme values found, if any.
    /// A single stored value is returned as both the minimum and the maximum,
    /// which takes one clone of it.
    pub fn to_inner(self) -> (r: Option<(Item, Item)>) where Item: Clone
        ensures
            self is Empty <==> r is None,
            self matches MinMax::Single(v) ==> r matches Some(p) && cloned::<Item>(v, p.0)
                && p.1 == v,
            self matches MinMax::Both(mn, mx) ==> r == Some((mn, mx)),
    {
        match self {
            MinMax::Empty => Option::None,
            MinMax::Single(item) => {
                let c = item.clone();
                Some((c, item))
            },
            MinMax::Both(mn, mx) => Some((mn, mx)),
        }
    }

    /// Returns references to the extreme values, if any; a single stored
    /// value is returned as both the minimum and the maximum.
    pub fn as_ref(&self) -> (r: Option<(&Item, &Item)>)
        ensures
            match r {
                Option::None => self is Empty,
                Option::Some(p) => self.spec_min() == Some(*p.0) && self.spec_max() == Some(
                    *p.1,
                ),
            },
    {
        match self {
            MinMax::Empty => Option::None,
            MinMax::Single(item) => Some((item, item)),
            MinMax::Both(mn, mx) => Some((mn, mx)),
        }
    }

    /// Returns a reference to the smallest value seen, if there is one.
    pub fn min_as_ref(&self) -> (r: Option<&Item>)
        ensures
            match r {
                Option::None => self.spec_min() is None,
                Option::Some(v) => self.spec_min() == Some(*v),
            },
    {
        match self {
            MinMax::Empty => Option::None,
            MinMax::Single(item) => Some(item),
            MinMax::Both(mn, _) => Some(mn),
        }
    }

    /// Returns a reference to the largest value seen, if there is one.
    pub fn max_as_ref(&self) -> (r: Option<&Item>)
        ensures
            match r {
                Option::None => self.spec_max() is None,
                Option::Some(v) => self.spec_max() == Some(*v),
            },
    {
        match self {
            MinMax::Empty => Option::None,
            MinMax::Single(item) => Some(item),
            MinMax::Both(_, mx) => Some(mx),
        }
    }

    /// Feeds one item into the tracker, following [`minmax_step`].
    pub fn reduce(&mut self, item: Item) where Item: PartialOrd
        ensures
            Item::obeys_partial_cmp_spec() ==> *final(self) == minmax_step(*old(self), item),
            *old(self) is Empty ==> *final(self) == MinMax::Single(item),
            !(*final(self) is Empty),
    {
        let mut tmp = MinMax::Empty;
        core::mem::swap(self, &mut tmp);
        *self = match tmp {
            MinMax::Empty => MinMax::Single(item),
            MinMax::Single(stored) => {
                if matches!(item.partial_cmp(&stored), Some(Ordering::Less)) {
                    MinMax::Both(item, stored)
                } else if matches!(item.partial_cmp(&stored), Some(Ordering::Greater)) {
                    MinMax::Both(stored, item)
                } else {
                    MinMax::Single(stored)
                }
            },
            MinMax::Both(mn, mx) => {
                if matches!(item.partial_cmp(&mn), Some(Ordering::Less)) {
                    MinMax::Both(item, mx)
                } else if matches!(item.partial_cmp(&mx), Some(Ordering::Greater)) {
                    MinMax::Both(mn, item)
                } else {
                    MinMax::Both(mn, mx)
                }
            },
        };
    }

    /// Like [`MinMax::reduce`], taking the candidate by reference and cloning
    /// it only when it is actually stored.
    pub fn reduce_ref(&mut self, item: &Item) where Item: PartialOrd + Clone
        ensures
            Item::obeys_partial_cmp_spec() ==> minmax_step_ref(*old(self), *item, *final(self)),
            !(*final(self) is Empty),
    {
        let mut tmp = MinMax::Empty;
        core::mem::swap(self, &mut tmp);
        *self = match tmp {
            MinMax::Empty => MinMax::Single(item.clone()),
            MinMax::Single(stored) => {
                if matches!(item.partial_cmp(&stored), Some(Ordering::Less)) {
                    MinMax::Both(item.clone(), stored)
                } else if matches!(item.partial_cmp(&stored), Some(Ordering::Greater)) {
                    MinMax::Both(stored, item.clone())
                } else {
                    MinMax::Single(stored)
                }
            },
            MinMax::Both(mn, mx) => {
                if matches!(item.partial_cmp(&mn), Some(Ordering::Less)) {
                    MinMax::Both(item.clone(), mx)
                } else if matches!(item.partial_cmp(&mx), Some(Ordering::Greater)) {
                    MinMax::Both(mn, item.clone())
                } else {
                    MinMax::Both(mn, mx)
                }
            },
        };
    }

    /// Alias for [`MinMax::reduce`].
    pub fn eval(&mut self, item: Item) where Item: PartialOrd
        ensures
            Item::obeys_partial_cmp_spec() ==> *final(self) == minmax_step(*old(self), item),
            *old(self) is Empty ==> *final(self) == MinMax::Single(item),
            !(*final(self) is Empty),
    {
        self.reduce(item)
    }

    /// Alias for [`MinMax::reduce_ref`].
    pub fn eval_ref(&mut self, item: &Item) where Item: PartialOrd + Clone
        ensures
            Item::obeys_partial_cmp_spec() ==> minmax_step_ref(*old(self), *item, *final(self)),
            !(*final(self) is Empty),
    {
        self.reduce_ref(item)
    }

    /// Feeds a whole sequence of items into the tracker, in order.
    pub fn extend(&mut self, items: Vec<Item>) where Item: PartialOrd
        ensures
            Item::obeys_partial_cmp_spec() ==> *final(self) == minmax_fold(*old(self), items@),
    {
        let ghost all = items@;
        let mut items = items;
        while items.len() > 0
            invariant
                Item::obeys_partial_cmp_spec() ==> minmax_fold(*self, items@) == minmax_fold(
                    *old(self),
                    all,
                ),
            decreases items.len(),
        {
            let ghost pre = items@;
            let it = items.remove(0);
            proof {
                assert(items@ =~= pre.skip(1));
            }
            self.reduce(it);
        }
    }

    /// Feeds a whole sequence of items into the tracker by reference, in order.
    pub fn extend_ref(&mut self, items: &Vec<Item>) where Item: PartialOrd + Clone
        ensures
            Item::obeys_partial_cmp_spec() ==> minmax_fold_ref(*old(self), items@, *final(self)),
    {
        let ghost all = items@;
        let mut i: usize = 0;
        while i < items.len()
            invariant
                i <= items.len(),
                items@ == all,
                Item::obeys_partial_cmp_spec() ==> minmax_fold_ref(
                    *old(self),
                    all.take(i as int),
                    *self,
                ),
            decreases items.len() - i,
        {
            let ghost before = *self;
            self.reduce_ref(&items[i]);
            proof {
                if Item::obeys_partial_cmp_spec() {
                    lemma_minmax_fold_ref_snoc(
                        *old(self),
                        all.take(i as int),
                        before,
                        all[i as int],
                        *self,
                    );
                    assert(all.take(i as int).push(all[i as int]) =~= all.take(i + 1 as int));
                }
            }
            i = i + 1;
        }
        proof {
            assert(all.take(items@.len() as int) =~= all);
        }
    }

    /// Builds a `MinMax` from a whole sequence of items, in order.
    pub fn from_vec(items: Vec<Item>) -> (r: Self) where Item: PartialOrd
        ensures
            Item::obeys_partial_cmp_spec() ==> r == minmax_fold(MinMax::<Item>::Empty, items@),
    {
        let mut r = MinMax::Empty;
        r.extend(items);
        r
    }

    /// Builds a `MinMax` from a whole sequence of items by reference, in order.
    pub fn from_vec_ref(items: &Vec<Item>) -> (r: Self) where Item: PartialOrd + Clone
        ensures
            Item::obeys_partial_cmp_spec() ==> minmax_fold_ref(MinMax::<Item>::Empty, items@, r),
    {
        let mut r = MinMax::Empty;
        r.extend_ref(items);
        r
    }
}

impl<Item> Default for MinMax<Item> {
    /// An empty `MinMax`: no item seen yet.
    fn default() -> (r: Self)
        ensures
            r == MinMax::<Item>::Empty,
    {
        MinMax::Empty
    }
}

/// Appending one item to a by-reference combined fold extends it by one step.
proof fn lemma_minmax_fold_ref_snoc<Item: PartialOrd + Clone>(
    cur: MinMax<Item>,
    items: Seq<Item>,
    mid: MinMax<Item>,
    item: Item,
    next: MinMax<Item>,
)
    requires
        minmax_fold_ref(cur, items, mid),
        minmax_step_ref(mid, item, next),
    ensures
        minmax_fold_ref(cur, items.push(item), next),
    decreases items.len(),
{
    if items.len() == 0 {
        assert(items.push(item).skip(1) =~= Seq::<Item>::empty());
        assert(minmax_step_ref(cur, items.push(item)[0], next));
        assert(minmax_fold_ref(next, items.push(item).skip(1), next));
    } else {
        let m0 = choose|m0: MinMax<Item>|
            #[trigger] minmax_step_ref(cur, items[0], m0) && minmax_fold_ref(
                m0,
                items.skip(1),
                mid,
            );
        lemma_minmax_fold_ref_snoc(m0, items.skip(1), mid, item, next);
        assert(items.skip(1).push(item) =~= items.push(item).skip(1));
        assert(minmax_step_ref(cur, items.push(item)[0], m0));
        assert(minmax_fold_ref(m0, items.push(item).skip(1), next));
    }
}

/// Appending one item to a by-reference extremum fold extends the fold by one step.
proof fn lemma_extremum_fold_ref_snoc<Item: PartialOrd + Clone>(
    cur: Option<Item>,
    items: Seq<Item>,
    mid: Option<Item>,
    item: Item,
    next: Option<Item>,
    target: Ordering,
)
    requires
        extremum_fold_ref(cur, items, mid, target),
        extremum_step_ref(mid, item, next, target),
    ensures
        extremum_fold_ref(cur, items.push(item), next, target),
    decreases items.len(),
{
    if items.len() == 0 {
        assert(items.push(item).skip(1) =~= Seq::<Item>::empty());
        assert(extremum_step_ref(cur, items.push(item)[0], next, target));
        assert(extremum_fold_ref(next, items.push(item).skip(1), next, target));
    } else {
        let m0 = choose|m0: Option<Item>|
            #[trigger] extremum_step_ref(cur, items[0], m0, target) && extremum_fold_ref(
                m0,
                items.skip(1),
                mid,
                target,
            );
        lemma_extremum_fold_ref_snoc(m0, items.skip(1), mid, item, next, target);
        assert(items.skip(1).push(item) =~= items.push(item).skip(1));
        assert(extremum_step_ref(cur, items.push(item)[0], m0, target));
        assert(extremum_fold_ref(m0, items.push(item).skip(1), next, target));
    }
}


/// The combined tracker state that matches a pair of independent extremum
/// trackers: a single value is both extremes, and a confirmed pair is
/// strictly ordered.
spec fn corresponds<Item: PartialOrd>(
    mm: MinMax<Item>,
    mn: Option<Item>,
    mx: Option<Item>,
) -> bool {
    match mm {
        MinMax::Empty => mn is None && mx is None,
        MinMax::Single(v) => mn == Some(v) && mx == Some(v),
        MinMax::Both(a, b) => mn == Some(a) && mx == Some(b) && a.partial_cmp_spec(&b) == Some(
            Ordering::Less,
        ),
    }
}

proof fn lemma_minmax_step_corresponds<Item: PartialOrd>(
    mm: MinMax<Item>,
    mn: Option<Item>,
    mx: Option<Item>,
    item: Item,
)
    requires
        vstd::laws_cmp::obeys_partial_cmp_spec_properties::<Item>(),
        corresponds(mm, mn, mx),
    ensures
        corresponds(
            minmax_step(mm, item),
            extremum_step(mn, item, Ordering::Less),
            extremum_step(mx, item, Ordering::Greater),
        ),
{
    reveal(vstd::laws_cmp::obeys_partial_cmp_spec_properties);
}

proof fn lemma_minmax_fold_corresponds<Item: PartialOrd>(
    mm: MinMax<Item>,
    mn: Option<Item>,
    mx: Option<Item>,
    s: Seq<Item>,
)
    requires
        vstd::laws_cmp::obeys_partial_cmp_spec_properties::<Item>(),
        corresponds(mm, mn, mx),
    ensures
        corresponds(
            minmax_fold(mm, s),
            extremum_fold(mn, s, Ordering::Less),
            extremum_fold(mx, s, Ordering::Greater),
        ),
    decreases s.len(),
{
    if s.len() > 0 {
        lemma_minmax_step_corresponds(mm, mn, mx, s[0]);
        lemma_minmax_fold_corresponds(
            minmax_step(mm, s[0]),
            extremum_step(mn, s[0], Ordering::Less),
            extremum_step(mx, s[0], Ordering::Greater),
            s.skip(1),
        );
    }
}

/// Law: for every sequence, running [`Min`] and [`Max`] independently and
/// running [`MinMax`] from empty over it agree: the combined tracker's
/// minimum equals `Min`'s result and its maximum equals `Max`'s result,
/// provided the item type's comparison behaves as a partial order.
pub proof fn lemma_minmax_matches_min_and_max<Item: PartialOrd>(s: Seq<Item>)
    requires
        vstd::laws_cmp::obeys_partial_cmp_spec_properties::<Item>(),
    ensures
        minmax_fold(MinMax::<Item>::Empty, s).spec_min() == extremum_fold(
            Option::<Item>::None,
            s,
            Ordering::Less,
        ),
        minmax_fold(MinMax::<Item>::Empty, s).spec_max() == extremum_fold(
            Option::<Item>::None,
            s,
            Ordering::Greater,
        ),
{
    lemma_minmax_fold_corresponds(
        MinMax::<Item>::Empty,
        Option::<Item>::None,
        Option::<Item>::None,
        s,
    );
}

/// Law: for every sequence, whenever [`MinMax`] fed from empty holds a
/// confirmed pair, its minimum is strictly below its maximum, provided the
/// item type's comparison behaves as a partial order. Equal extremes stay in
/// the single-value state and never form a pair.
pub proof fn lemma_minmax_min_below_max<Item: PartialOrd>(s: Seq<Item>)
    requires
        vstd::laws_cmp::obeys_partial_cmp_spec_properties::<Item>(),
    ensures
        minmax_fold(MinMax::<Item>::Empty, s) matches MinMax::Both(mn, mx)
            ==> mn.partial_cmp_spec(&mx) == Some(Ordering::Less),
{
    lemma_minmax_fold_corresponds(
        MinMax::<Item>::Empty,
        Option::<Item>::None,
        Option::<Item>::None,
        s,
    );
}

proof fn lemma_minmax_fold_stays_single<Item: PartialOrd>(v: Item, s: Seq<Item>)
    requires
        forall|i: int|
            0 <= i < s.len() ==> #[trigger] s[i].partial_cmp_spec(&v) == Some(Ordering::Equal),
    ensures
        minmax_fold(MinMax::Single(v), s) == MinMax::Single(v),
    decreases s.len(),
{
    if s.len() > 0 {
        assert(s[0].partial_cmp_spec(&v) == Some(Ordering::Equal));
        assert(forall|i: int|
            0 <= i < s.skip(1).len() ==> #[trigger] s.skip(1)[i].partial_cmp_spec(&v) == Some(
                Ordering::Equal,
            ));
        lemma_minmax_fold_stays_single(v, s.skip(1));
    }
}

/// Law: a sequence whose items all compare equal to one another collapses in
/// [`MinMax`] to the single-value state holding its first item (or stays
/// empty if the sequence is empty); it never yields a duplicated pair.
pub proof fn lemma_minmax_single_on_all_equal<Item: PartialOrd>(s: Seq<Item>)
    requires
        forall|i: int, j: int|
            0 <= i < s.len() && 0 <= j < s.len() ==> #[trigger] s[i].partial_cmp_spec(&s[j])
                == Some(Ordering::Equal),
    ensures
        s.len() == 0 ==> minmax_fold(MinMax::<Item>::Empty, s) is Empty,
        s.len() > 0 ==> minmax_fold(MinMax::<Item>::Empty, s) == MinMax::Single(s[0]),
{
    if s.len() > 0 {
        assert(minmax_step(MinMax::<Item>::Empty, s[0]) == MinMax::Single(s[0]));
        assert(forall|i: int|
            0 <= i < s.skip(1).len() ==> #[trigger] s.skip(1)[i].partial_cmp_spec(&s[0]) == Some(
                Ordering::Equal,
            ));
        lemma_minmax_fold_stays_single(s[0], s.skip(1));
    }
}

} // verus!

