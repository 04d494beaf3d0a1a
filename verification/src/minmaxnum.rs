use vstd::prelude::*;

use core::cmp::Ordering;
use vstd::pervasive::cloned;
use vstd::std_specs::cmp::PartialOrdSpec;

verus! {

/// Relies on num's `Bounded` impl for `usize`: `min_value` returns `usize::MIN`.
pub assume_specification[ <usize as num::Bounded>::min_value ]() -> (r: usize)
    ensures
        r == usize::MIN,
;

/// Relies on num's `Bounded` impl for `usize`: `max_value` returns `usize::MAX`.
pub assume_specification[ <usize as num::Bounded>::max_value ]() -> (r: usize)
    ensures
        r == usize::MAX,
;

/// Relies on num's `Bounded` impl for `isize`: `min_value` returns `isize::MIN`.
pub assume_specification[ <isize as num::Bounded>::min_value ]() -> (r: isize)
    ensures
        r == isize::MIN,
;

/// Relies on num's `Bounded` impl for `isize`: `max_value` returns `isize::MAX`.
pub assume_specification[ <isize as num::Bounded>::max_value ]() -> (r: isize)
    ensures
        r == isize::MAX,
;

/// Relies on num's `Bounded` impl for `u32`: `min_value` returns `u32::MIN`.
pub assume_specification[ <u32 as num::Bounded>::min_value ]() -> (r: u32)
    ensures
        r == u32::MIN,
;

/// Relies on num's `Bounded` impl for `u32`: `max_value` returns `u32::MAX`.
pub assume_specification[ <u32 as num::Bounded>::max_value ]() -> (r: u32)
    ensures
        r == u32::MAX,
;

/// Relies on num's `Bounded` impl for `u64`: `min_value` returns `u64::MIN`.
pub assume_specification[ <u64 as num::Bounded>::min_value ]() -> (r: u64)
    ensures
        r == u64::MIN,
;

/// Relies on num's `Bounded` impl for `u64`: `max_value` returns `u64::MAX`.
pub assume_specification[ <u64 as num::Bounded>::max_value ]() -> (r: u64)
    ensures
        r == u64::MAX,
;

/// Relies on num's `Bounded` impl for `i32`: `min_value` returns `i32::MIN`.
pub assume_specification[ <i32 as num::Bounded>::min_value ]() -> (r: i32)
    ensures
        r == i32::MIN,
;

/// Relies on num's `Bounded` impl for `i32`: `max_value` returns `i32::MAX`.
pub assume_specification[ <i32 as num::Bounded>::max_value ]() -> (r: i32)
    ensures
        r == i32::MAX,
;

/// Relies on num's `Bounded` impl for `i64`: `min_value` returns `i64::MIN`.
pub assume_specification[ <i64 as num::Bounded>::min_value ]() -> (r: i64)
    ensures
        r == i64::MIN,
;

/// Relies on num's `Bounded` impl for `i64`: `max_value` returns `i64::MAX`.
pub assume_specification[ <i64 as num::Bounded>::max_value ]() -> (r: i64)
    ensures
        r == i64::MAX,
;

/// Item types with natural minimum and maximum bound values, used to seed the
/// sentinel-bound trackers so they are never empty. The bounds come from
/// num's `Bounded`; the spec functions name them for contracts.
pub trait BoundedItem: Sized {
    /// The smallest value the type can represent.
    spec fn spec_bound_min() -> Self;

    /// The largest value the type can represent.
    spec fn spec_bound_max() -> Self;

    /// Returns the smallest representable value.
    fn bound_min() -> (r: Self)
        ensures
            r == Self::spec_bound_min(),
    ;

    /// Returns the largest representable value.
    fn bound_max() -> (r: Self)
        ensures
            r == Self::spec_bound_max(),
    ;
}

impl BoundedItem for usize {
    open spec fn spec_bound_min() -> usize {
        usize::MIN
    }

    open spec fn spec_bound_max() -> usize {
        usize::MAX
    }

    fn bound_min() -> (r: usize) {
        <usize as num::Bounded>::min_value()
    }

    fn bound_max() -> (r: usize) {
        <usize as num::Bounded>::max_value()
    }
}

impl BoundedItem for isize {
    open spec fn spec_bound_min() -> isize {
        isize::MIN
    }

    open spec fn spec_bound_max() -> isize {
        isize::MAX
    }

    fn bound_min() -> (r: isize) {
        <isize as num::Bounded>::min_value()
    }

    fn bound_max() -> (r: isize) {
        <isize as num::Bounded>::max_value()
    }
}

impl BoundedItem for u32 {
    open spec fn spec_bound_min() -> u32 {
        u32::MIN
    }

    open spec fn spec_bound_max() -> u32 {
        u32::MAX
    }

    fn bound_min() -> (r: u32) {
        <u32 as num::Bounded>::min_value()
    }

    fn bound_max() -> (r: u32) {
        <u32 as num::Bounded>::max_value()
    }
}

impl BoundedItem for u64 {
    open spec fn spec_bound_min() -> u64 {
        u64::MIN
    }

    open spec fn spec_bound_max() -> u64 {
        u64::MAX
    }

    fn bound_min() -> (r: u64) {
        <u64 as num::Bounded>::min_value()
    }

    fn bound_max() -> (r: u64) {
        <u64 as num::Bounded>::max_value()
    }
}

impl BoundedItem for i32 {
    open spec fn spec_bound_min() -> i32 {
        i32::MIN
    }

    open spec fn spec_bound_max() -> i32 {
        i32::MAX
    }

    fn bound_min() -> (r: i32) {
        <i32 as num::Bounded>::min_value()
    }

    fn bound_max() -> (r: i32) {
        <i32 as num::Bounded>::max_value()
    }
}

impl BoundedItem for i64 {
    open spec fn spec_bound_min() -> i64 {
        i64::MIN
    }

    open spec fn spec_bound_max() -> i64 {
        i64::MAX
    }

    fn bound_min() -> (r: i64) {
        <i64 as num::Bounded>::min_value()
    }

    fn bound_max() -> (r: i64) {
        <i64 as num::Bounded>::max_value()
    }
}

/// One step of a sentinel-bound tracker: the candidate replaces the stored
/// value exactly when comparing the candidate against it yields `target`.
pub open spec fn sentinel_step<Item: PartialOrd>(cur: Item, item: Item, target: Ordering) -> Item {
    if item.partial_cmp_spec(&cur) == Some(target) {
        item
    } else {
        cur
    }
}

/// Folding a whole sequence into a sentinel-bound tracker, in order.
pub open spec fn sentinel_fold<Item: PartialOrd>(
    cur: Item,
    items: Seq<Item>,
    target: Ordering,
) -> Item
    decreases items.len(),
{
    if items.len() == 0 {
        cur
    } else {
        sentinel_fold(sentinel_step(cur, items[0], target), items.skip(1), target)
    }
}

/// One step of a sentinel-bound tracker fed through a reference: when the
/// candidate wins, the stored value becomes a clone of it.
pub open spec fn sentinel_step_ref<Item: PartialOrd + Clone>(
    cur: Item,
    item: Item,
    next: Item,
    target: Ordering,
) -> bool {
    if item.partial_cmp_spec(&cur) == Some(target) {
        cloned::<Item>(item, next)
    } else {
        next == cur
    }
}

/// Folding a whole sequence of references into a sentinel-bound tracker.
pub open spec fn sentinel_fold_ref<Item: PartialOrd + Clone>(
    cur: Item,
    items: Seq<Item>,
    next: Item,
    target: Ordering,
) -> bool
    decreases items.len(),
{
    if items.len() == 0 {
        next == cur
    } else {
        exists|mid: Item|
            #[trigger] sentinel_step_ref(cur, items[0], mid, target) && sentinel_fold_ref(
                mid,
                items.skip(1),
                next,
                target,
            )
    }
}

/// Keeps only the largest iterated value; initialized to the type's smallest
/// representable value, so it is never empty.
#[derive(Debug, Copy, Clone)]
pub struct MaxNum<Item> {
    item: Item,
}

/// Keeps only the smallest iterated value; initialized to the type's largest
/// representable value, so it is never empty.
#[derive(Debug, Copy, Clone)]
pub struct MinNum<Item> {
    item: Item,
}


impl<Item> MinNum<Item> {
    /// The running minimum; starts at the type's largest representable value.
    pub closed spec fn value(self) -> Item {
        self.item
    }

    /// Creates a new `MinNum` seeded with the type's largest representable
    /// value, so the tracker is never empty.
    pub fn new() -> (r: Self) where Item: BoundedItem
        ensures
            r.value() == Item::spec_bound_max(),
    {
        MinNum { item: Item::bound_max() }
    }

    /// Deconstruct self and return the inner value.
    pub fn into_inner(self) -> (r: Item)
        ensures
            r == self.value(),
    {
        self.item
    }

    /// Returns a reference to the inner value.
    pub fn as_ref(&self) -> (r: &Item)
        ensures
            *r == self.value(),
    {
        &self.item
    }

    /// Replaces the current value with the new one exactly when the new one is
    /// strictly smaller; a tie or an undefined comparison keeps the old value.
    pub fn reduce(&mut self, item: Item) where Item: PartialOrd
        ensures
            Item::obeys_partial_cmp_spec() ==> final(self).value() == sentinel_step(
                old(self).value(),
                item,
                Ordering::Less,
            ),
            final(self).value() == item || final(self).value() == old(self).value(),
    {
        let replace = matches!(item.partial_cmp(&self.item), Some(Ordering::Less));
        if replace {
            self.item = item;
        }
    }

    /// Like [`MinNum::reduce`], taking the candidate by reference and cloning
    /// it only when it actually replaces the stored value.
    pub fn reduce_ref(&mut self, item: &Item) where Item: PartialOrd + Clone
        ensures
            Item::obeys_partial_cmp_spec() ==> sentinel_step_ref(
                old(self).value(),
                *item,
                final(self).value(),
                Ordering::Less,
            ),
    {
        let replace = matches!(item.partial_cmp(&self.item), Some(Ordering::Less));
        if replace {
            self.item = item.clone();
        }
    }

    /// Alias for [`MinNum::reduce`].
    pub fn eval(&mut self, item: Item) where Item: PartialOrd
        ensures
            Item::obeys_partial_cmp_spec() ==> final(self).value() == sentinel_step(
                old(self).value(),
                item,
                Ordering::Less,
            ),
            final(self).value() == item || final(self).value() == old(self).value(),
    {
        self.reduce(item)
    }

    /// Alias for [`MinNum::reduce_ref`].
    pub fn eval_ref(&mut self, item: &Item) where Item: PartialOrd + Clone
        ensures
            Item::obeys_partial_cmp_spec() ==> sentinel_step_ref(
                old(self).value(),
                *item,
                final(self).value(),
                Ordering::Less,
            ),
    {
        self.reduce_ref(item)
    }

    /// Reduces a whole sequence of items into self, in order.
    pub fn extend(&mut self, items: Vec<Item>) where Item: PartialOrd
        ensures
            Item::obeys_partial_cmp_spec() ==> final(self).value() == sentinel_fold(
                old(self).value(),
                items@,
                Ordering::Less,
            ),
    {
        let ghost all = items@;
        let mut items = items;
        while items.len() > 0
            invariant
                Item::obeys_partial_cmp_spec() ==> sentinel_fold(
                    self.value(),
                    items@,
                    Ordering::Less,
                ) == sentinel_fold(old(self).value(), all, Ordering::Less),
            decreases items.len(),
        {
            let ghost pre = items@;
            let it = items.remove(0);
            proof {
                assert(items@ =~= pre.skip(1));
            }
            self.reduce(it);
        }
    }

    /// Reduces a whole sequence of items into self by reference, in order.
    pub fn extend_ref(&mut self, items: &Vec<Item>) where Item: PartialOrd + Clone
        ensures
            Item::obeys_partial_cmp_spec() ==> sentinel_fold_ref(
                old(self).value(),
                items@,
                final(self).value(),
                Ordering::Less,
            ),
    {
        let ghost all = items@;
        let mut i: usize = 0;
        while i < items.len()
            invariant
                i <= items.len(),
                items@ == all,
                Item::obeys_partial_cmp_spec() ==> sentinel_fold_ref(
                    old(self).value(),
                    all.take(i as int),
                    self.value(),
                    Ordering::Less,
                ),
            decreases items.len() - i,
        {
            let ghost before = self.value();
            self.reduce_ref(&items[i]);
            proof {
                if Item::obeys_partial_cmp_spec() {
                    lemma_sentinel_fold_ref_snoc(
                        old(self).value(),
                        all.take(i as int),
                        before,
                        all[i as int],
                        self.value(),
                        Ordering::Less,
                    );
                    assert(all.take(i as int).push(all[i as int]) =~= all.take(i + 1 as int));
                }
            }
            i = i + 1;
        }
        proof {
            assert(all.take(items@.len() as int) =~= all);
        }
    }

    /// Builds a `MinNum` from a whole sequence of items, in order, starting
    /// at the type's largest representable value.
    pub fn from_vec(items: Vec<Item>) -> (r: Self) where Item: PartialOrd + BoundedItem
        ensures
            Item::obeys_partial_cmp_spec() ==> r.value() == sentinel_fold(
                Item::spec_bound_max(),
                items@,
                Ordering::Less,
            ),
    {
        let mut r = MinNum::new();
        r.extend(items);
        r
    }

    /// Builds a `MinNum` from a whole sequence of items by reference, in
    /// order, starting at the type's largest representable value.
    pub fn from_vec_ref(items: &Vec<Item>) -> (r: Self) where
        Item: PartialOrd + Clone + BoundedItem,

        ensures
            Item::obeys_partial_cmp_spec() ==> sentinel_fold_ref(
                Item::spec_bound_max(),
                items@,
                r.value(),
                Ordering::Less,
            ),
    {
        let mut r = MinNum::new();
        r.extend_ref(items);
        r
    }
}

impl<Item: BoundedItem> Default for MinNum<Item> {
    /// A `MinNum` holding the type's largest representable value.
    fn default() -> (r: Self)
        ensures
            r.value() == Item::spec_bound_max(),
    {
        MinNum::new()
    }
}

impl<Item> MaxNum<Item> {
    /// The running maximum; starts at the type's smallest representable value.
    pub closed spec fn value(self) -> Item {
        self.item
    }

    /// Creates a new `MaxNum` seeded with the type's smallest representable
    /// value, so the tracker is never empty.
    pub fn new() -> (r: Self) where Item: BoundedItem
        ensures
            r.value() == Item::spec_bound_min(),
    {
        MaxNum { item: Item::bound_min() }
    }

    /// Deconstruct self and return the inner value.
    pub fn into_inner(self) -> (r: Item)
        ensures
            r == self.value(),
    {
        self.item
    }

    /// Returns a reference to the inner value.
    pub fn as_ref(&self) -> (r: &Item)
        ensures
            *r == self.value(),
    {
        &self.item
    }

    /// Replaces the current value with the new one exactly when the new one is
    /// strictly larger; a tie or an undefined comparison keeps the old value.
    pub fn reduce(&mut self, item: Item) where Item: PartialOrd
        ensures
            Item::obeys_partial_cmp_spec() ==> final(self).value() == sentinel_step(
                old(self).value(),
                item,
                Ordering::Greater,
            ),
            final(self).value() == item || final(self).value() == old(self).value(),
    {
        let replace = matches!(item.partial_cmp(&self.item), Some(Ordering::Greater));
        if replace {
            self.item = item;
        }
    }

    /// Like [`MaxNum::reduce`], taking the candidate by reference and cloning
    /// it only when it actually replaces the stored value.
    pub fn reduce_ref(&mut self, item: &Item) where Item: PartialOrd + Clone
        ensures
            Item::obeys_partial_cmp_spec() ==> sentinel_step_ref(
                old(self).value(),
                *item,
                final(self).value(),
                Ordering::Greater,
            ),
    {
        let replace = matches!(item.partial_cmp(&self.item), Some(Ordering::Greater));
        if replace {
            self.item = item.clone();
        }
    }

    /// Alias for [`MaxNum::reduce`].
    pub fn eval(&mut self, item: Item) where Item: PartialOrd
        ensures
            Item::obeys_partial_cmp_spec() ==> final(self).value() == sentinel_step(
                old(self).value(),
                item,
                Ordering::Greater,
            ),
            final(self).value() == item || final(self).value() == old(self).value(),
    {
        self.reduce(item)
    }

    /// Alias for [`MaxNum::reduce_ref`].
    pub fn eval_ref(&mut self, item: &Item) where Item: PartialOrd + Clone
        ensures
            Item::obeys_partial_cmp_spec() ==> sentinel_step_ref(
                old(self).value(),
                *item,
                final(self).value(),
                Ordering::Greater,
            ),
    {
        self.reduce_ref(item)
    }

    /// Reduces a whole sequence of items into self, in order.
    pub fn extend(&mut self, items: Vec<Item>) where Item: PartialOrd
        ensures
            Item::obeys_partial_cmp_spec() ==> final(self).value() == sentinel_fold(
                old(self).value(),
                items@,
                Ordering::Greater,
            ),
    {
        let ghost all = items@;
        let mut items = items;
        while items.len() > 0
            invariant
                Item::obeys_partial_cmp_spec() ==> sentinel_fold(
                    self.value(),
                    items@,
                    Ordering::Greater,
                ) == sentinel_fold(old(self).value(), all, Ordering::Greater),
            decreases items.len(),
        {
            let ghost pre = items@;
            let it = items.remove(0);
            proof {
                assert(items@ =~= pre.skip(1));
            }
            self.reduce(it);
        }
    }

    /// Reduces a whole sequence of items into self by reference, in order.
    pub fn extend_ref(&mut self, items: &Vec<Item>) where Item: PartialOrd + Clone
        ensures
            Item::obeys_partial_cmp_spec() ==> sentinel_fold_ref(
                old(self).value(),
                items@,
                final(self).value(),
                Ordering::Greater,
            ),
    {
        let ghost all = items@;
        let mut i: usize = 0;
        while i < items.len()
            invariant
                i <= items.len(),
                items@ == all,
                Item::obeys_partial_cmp_spec() ==> sentinel_fold_ref(
                    old(self).value(),
                    all.take(i as int),
                    self.value(),
                    Ordering::Greater,
                ),
            decreases items.len() - i,
        {
            let ghost before = self.value();
            self.reduce_ref(&items[i]);
            proof {
                if Item::obeys_partial_cmp_spec() {
                    lemma_sentinel_fold_ref_snoc(
                        old(self).value(),
                        all.take(i as int),
                        before,
                        all[i as int],
                        self.value(),
                        Ordering::Greater,
                    );
                    assert(all.take(i as int).push(all[i as int]) =~= all.take(i + 1 as int));
                }
            }
            i = i + 1;
        }
        proof {
            assert(all.take(items@.len() as int) =~= all);
        }
    }

    /// Builds a `MaxNum` from a whole sequence of items, in order, starting
    /// at the type's smallest representable value.
    pub fn from_vec(items: Vec<Item>) -> (r: Self) where Item: PartialOrd + BoundedItem
        ensures
            Item::obeys_partial_cmp_spec() ==> r.value() == sentinel_fold(
                Item::spec_bound_min(),
                items@,
                Ordering::Greater,
            ),
    {
        let mut r = MaxNum::new();
        r.extend(items);
        r
    }

    /// Builds a `MaxNum` from a whole sequence of items by reference, in
    /// order, starting at the type's smallest representable value.
    pub fn from_vec_ref(items: &Vec<Item>) -> (r: Self) where
        Item: PartialOrd + Clone + BoundedItem,

        ensures
            Item::obeys_partial_cmp_spec() ==> sentinel_fold_ref(
                Item::spec_bound_min(),
                items@,
                r.value(),
                Ordering::Greater,
            ),
    {
        let mut r = MaxNum::new();
        r.extend_ref(items);
        r
    }
}

impl<Item: BoundedItem> Default for MaxNum<Item> {
    /// A `MaxNum` holding the type's smallest representable value.
    fn default() -> (r: Self)
        ensures
            r.value() == Item::spec_bound_min(),
    {
        MaxNum::new()
    }
}

/// Appending one item to a by-reference sentinel fold extends it by one step.
proof fn lemma_sentinel_fold_ref_snoc<Item: PartialOrd + Clone>(
    cur: Item,
    items: Seq<Item>,
    mid: Item,
    item: Item,
    next: Item,
    target: Ordering,
)
    requires
        sentinel_fold_ref(cur, items, mid, target),
        sentinel_step_ref(mid, item, next, target),
    ensures
        sentinel_fold_ref(cur, items.push(item), next, target),
    decreases items.len(),
{
    if items.len() == 0 {
        assert(items.push(item).skip(1) =~= Seq::<Item>::empty());
        assert(sentinel_step_ref(cur, items.push(item)[0], next, target));
        assert(sentinel_fold_ref(next, items.push(item).skip(1), next, target));
    } else {
        let m0 = choose|m0: Item|
            #[trigger] sentinel_step_ref(cur, items[0], m0, target) && sentinel_fold_ref(
                m0,
                items.skip(1),
                mid,
                target,
            );
        lemma_sentinel_fold_ref_snoc(m0, items.skip(1), mid, item, next, target);
        assert(items.skip(1).push(item) =~= items.push(item).skip(1));
        assert(sentinel_step_ref(cur, items.push(item)[0], m0, target));
        assert(sentinel_fold_ref(m0, items.push(item).skip(1), next, target));
    }
}


/// Keeps both the smallest and largest iterated values; initialized to the
/// crossed bounds (minimum slot at the type's largest value, maximum slot at
/// its smallest), so the tracker is never empty.
#[derive(Debug, Copy, Clone)]
pub struct MinMaxNum<Item> {
    min: Item,
    max: Item,
}

/// One step of the two-sided sentinel tracker. The candidate replaces the
/// minimum slot when strictly smaller than it, and the maximum slot when
/// strictly larger than it; both can happen for one candidate while the
/// tracker still holds the crossed bounds. A stored minimum is a clone of the
/// candidate; a stored maximum is the candidate itself, or a clone of it when
/// the candidate was fed through a reference (`by_ref`).
pub open spec fn minmaxnum_step_rel<Item: PartialOrd + Clone>(
    mn0: Item,
    mx0: Item,
    item: Item,
    mn1: Item,
    mx1: Item,
    by_ref: bool,
) -> bool {
    &&& if item.partial_cmp_spec(&mn0) == Some(Ordering::Less) {
        cloned::<Item>(item, mn1)
    } else {
        mn1 == mn0
    }
    &&& if item.partial_cmp_spec(&mx0) == Some(Ordering::Greater) {
        if by_ref {
            cloned::<Item>(item, mx1)
        } else {
            mx1 == item
        }
    } else {
        mx1 == mx0
    }
}

/// Folding a whole sequence into the two-sided sentinel tracker, in order.
pub open spec fn minmaxnum_fold_rel<Item: PartialOrd + Clone>(
    mn0: Item,
    mx0: Item,
    items: Seq<Item>,
    mn1: Item,
    mx1: Item,
    by_ref: bool,
) -> bool
    decreases items.len(),
{
    if items.len() == 0 {
        mn1 == mn0 && mx1 == mx0
    } else {
        exists|mnm: Item, mxm: Item|
            #[trigger] minmaxnum_step_rel(mn0, mx0, items[0], mnm, mxm, by_ref)
                && minmaxnum_fold_rel(mnm, mxm, items.skip(1), mn1, mx1, by_ref)
    }
}

impl<Item> MinMaxNum<Item> {
    /// The running minimum; starts at the type's largest representable value.
    pub closed spec fn min_val(self) -> Item {
        self.min
    }

    /// The running maximum; starts at the type's smallest representable value.
    pub closed spec fn max_val(self) -> Item {
        self.max
    }

    /// Creates a new `MinMaxNum` seeded with the crossed bounds, so the
    /// tracker is never empty.
    pub fn new() -> (r: Self) where Item: BoundedItem
        ensures
            r.min_val() == Item::spec_bound_max(),
            r.max_val() == Item::spec_bound_min(),
    {
        MinMaxNum { min: Item::bound_max(), max: Item::bound_min() }
    }

    /// Deconstruct self and return the inner (min, max) values.
    pub fn into_inner(self) -> (r: (Item, Item))
        ensures
            r.0 == self.min_val(),
            r.1 == self.max_val(),
    {
        (self.min, self.max)
    }

    /// Returns references to the inner (min, max) values.
    pub fn as_ref(&self) -> (r: (&Item, &Item))
        ensures
            *r.0 == self.min_val(),
            *r.1 == self.max_val(),
    {
        (&self.min, &self.max)
    }

    /// Returns a reference to the running minimum.
    pub fn min_as_ref(&self) -> (r: &Item)
        ensures
            *r == self.min_val(),
    {
        &self.min
    }

    /// Returns a reference to the running maximum.
    pub fn max_as_ref(&self) -> (r: &Item)
        ensures
            *r == self.max_val(),
    {
        &self.max
    }

    /// Feeds one item into the tracker: it replaces the minimum slot when
    /// strictly smaller, and the maximum slot when strictly larger.
    pub fn reduce(&mut self, item: Item) where Item: PartialOrd + Clone
        ensures
            Item::obeys_partial_cmp_spec() ==> minmaxnum_step_rel(
                old(self).min_val(),
                old(self).max_val(),
                item,
                final(self).min_val(),
                final(self).max_val(),
                false,
            ),
    {
        if matches!(item.partial_cmp(&self.min), Some(Ordering::Less)) {
            self.min = item.clone();
        }
        if matches!(item.partial_cmp(&self.max), Some(Ordering::Greater)) {
            self.max = item;
        }
    }

    /// Like [`MinMaxNum::reduce`], taking the candidate by reference and
    /// cloning it only where it is actually stored.
    pub fn reduce_ref(&mut self, item: &Item) where Item: PartialOrd + Clone
        ensures
            Item::obeys_partial_cmp_spec() ==> minmaxnum_step_rel(
                old(self).min_val(),
                old(self).max_val(),
                *item,
                final(self).min_val(),
                final(self).max_val(),
                true,
            ),
    {
        if matches!(item.partial_cmp(&self.min), Some(Ordering::Less)) {
            self.min = item.clone();
        }
        if matches!(item.partial_cmp(&self.max), Some(Ordering::Greater)) {
            self.max = item.clone();
        }
    }

    /// Alias for [`MinMaxNum::reduce`].
    pub fn eval(&mut self, item: Item) where Item: PartialOrd + Clone
        ensures
            Item::obeys_partial_cmp_spec() ==> minmaxnum_step_rel(
                old(self).min_val(),
                old(self).max_val(),
                item,
                final(self).min_val(),
                final(self).max_val(),
                false,
            ),
    {
        self.reduce(item)
    }

    /// Alias for [`MinMaxNum::reduce_ref`].
    pub fn eval_ref(&mut self, item: &Item) where Item: PartialOrd + Clone
        ensures
            Item::obeys_partial_cmp_spec() ==> minmaxnum_step_rel(
                old(self).min_val(),
                old(self).max_val(),
                *item,
                final(self).min_val(),
                final(self).max_val(),
                true,
            ),
    {
        self.reduce_ref(item)
    }

    /// Feeds a whole sequence of items into the tracker, in order.
    pub fn extend(&mut self, items: Vec<Item>) where Item: PartialOrd + Clone
        ensures
            Item::obeys_partial_cmp_spec() ==> minmaxnum_fold_rel(
                old(self).min_val(),
                old(self).max_val(),
                items@,
                final(self).min_val(),
                final(self).max_val(),
                false,
            ),
    {
        let ghost all = items@;
        let mut items = items;
        while items.len() > 0
            invariant
                Item::obeys_partial_cmp_spec() ==> forall|m1: Item, m2: Item|
                    #[trigger] minmaxnum_fold_rel(
                        self.min_val(),
                        self.max_val(),
                        items@,
                        m1,
                        m2,
                        false,
                    ) ==> minmaxnum_fold_rel(
                        old(self).min_val(),
                        old(self).max_val(),
                        all,
                        m1,
                        m2,
                        false,
                    ),
            decreases items.len(),
        {
            let ghost pre = items@;
            let ghost pmn = self.min_val();
            let ghost pmx = self.max_val();
            let it = items.remove(0);
            proof {
                assert(items@ =~= pre.skip(1));
            }
            self.reduce(it);
            proof {
                if Item::obeys_partial_cmp_spec() {
                    assert forall|m1: Item, m2: Item| #[trigger] minmaxnum_fold_rel(
                        self.min_val(),
                        self.max_val(),
                        items@,
                        m1,
                        m2,
                        false,
                    ) implies minmaxnum_fold_rel(pmn, pmx, pre, m1, m2, false) by {
                        assert(minmaxnum_step_rel(
                            pmn,
                            pmx,
                            pre[0],
                            self.min_val(),
                            self.max_val(),
                            false,
                        ));
                        assert(minmaxnum_fold_rel(
                            self.min_val(),
                            self.max_val(),
                            pre.skip(1),
                            m1,
                            m2,
                            false,
                        ));
                    }
                }
            }
        }
        proof {
            if Item::obeys_partial_cmp_spec() {
                assert(minmaxnum_fold_rel(
                    self.min_val(),
                    self.max_val(),
                    items@,
                    self.min_val(),
                    self.max_val(),
                    false,
                ));
            }
        }
    }

    /// Feeds a whole sequence of items into the tracker by reference, in
    /// order.
    pub fn extend_ref(&mut self, items: &Vec<Item>) where Item: PartialOrd + Clone
        ensures
            Item::obeys_partial_cmp_spec() ==> minmaxnum_fold_rel(
                old(self).min_val(),
                old(self).max_val(),
                items@,
                final(self).min_val(),
                final(self).max_val(),
                true,
            ),
    {
        let ghost all = items@;
        let mut i: usize = 0;
        proof {
            assert(all.skip(0) =~= all);
        }
        while i < items.len()
            invariant
                i <= items.len(),
                items@ == all,
                Item::obeys_partial_cmp_spec() ==> forall|m1: Item, m2: Item|
                    #[trigger] minmaxnum_fold_rel(
                        self.min_val(),
                        self.max_val(),
                        all.skip(i as int),
                        m1,
                        m2,
                        true,
                    ) ==> minmaxnum_fold_rel(
                        old(self).min_val(),
                        old(self).max_val(),
                        all,
                        m1,
                        m2,
                        true,
                    ),
            decreases items.len() - i,
        {
            let ghost pmn = self.min_val();
            let ghost pmx = self.max_val();
            self.reduce_ref(&items[i]);
            proof {
                if Item::obeys_partial_cmp_spec() {
                    assert(all.skip(i as int).skip(1) =~= all.skip(i + 1 as int));
                    assert(all.skip(i as int)[0] == all[i as int]);
                    assert forall|m1: Item, m2: Item| #[trigger] minmaxnum_fold_rel(
                        self.min_val(),
                        self.max_val(),
                        all.skip(i + 1 as int),
                        m1,
                        m2,
                        true,
                    ) implies minmaxnum_fold_rel(pmn, pmx, all.skip(i as int), m1, m2, true) by {
                        assert(minmaxnum_step_rel(
                            pmn,
                            pmx,
                            all.skip(i as int)[0],
                            self.min_val(),
                            self.max_val(),
                            true,
                        ));
                        assert(minmaxnum_fold_rel(
                            self.min_val(),
                            self.max_val(),
                            all.skip(i as int).skip(1),
                            m1,
                            m2,
                            true,
                        ));
                    }
                }
            }
            i = i + 1;
        }
        proof {
            if Item::obeys_partial_cmp_spec() {
                assert(all.skip(items@.len() as int) =~= Seq::<Item>::empty());
                assert(minmaxnum_fold_rel(
                    self.min_val(),
                    self.max_val(),
                    all.skip(items@.len() as int),
                    self.min_val(),
                    self.max_val(),
                    true,
                ));
            }
        }
    }

    /// Builds a `MinMaxNum` from a whole sequence of items, in order,
    /// starting at the crossed bounds.
    pub fn from_vec(items: Vec<Item>) -> (r: Self) where Item: PartialOrd + Clone + BoundedItem
        ensures
            Item::obeys_partial_cmp_spec() ==> minmaxnum_fold_rel(
                Item::spec_bound_max(),
                Item::spec_bound_min(),
                items@,
                r.min_val(),
                r.max_val(),
                false,
            ),
    {
        let mut r = MinMaxNum::new();
        r.extend(items);
        r
    }

    /// Builds a `MinMaxNum` from a whole sequence of items by reference, in
    /// order, starting at the crossed bounds.
    pub fn from_vec_ref(items: &Vec<Item>) -> (r: Self) where
        Item: PartialOrd + Clone + BoundedItem,

        ensures
            Item::obeys_partial_cmp_spec() ==> minmaxnum_fold_rel(
                Item::spec_bound_max(),
                Item::spec_bound_min(),
                items@,
                r.min_val(),
                r.max_val(),
                true,
            ),
    {
        let mut r = MinMaxNum::new();
        r.extend_ref(items);
        r
    }
}

impl<Item: BoundedItem> Default for MinMaxNum<Item> {
    /// A `MinMaxNum` holding the crossed bounds: its minimum slot at the
    /// type's largest representable value, its maximum slot at the smallest.
    fn default() -> (r: Self)
        ensures
            r.min_val() == Item::spec_bound_max(),
            r.max_val() == Item::spec_bound_min(),
    {
        MinMaxNum::new()
    }
}

} // verus!


