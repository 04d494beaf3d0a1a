use vstd::prelude::*;

verus! {

/// One step of reducing: an absent running value is seeded with the item
/// verbatim; a present one may become any outcome of the reducing function.
pub open spec fn reduce_step_rel<Item, Func: Fn(Item, Item) -> Item>(
    f: Func,
    cur: Option<Item>,
    item: Item,
    next: Option<Item>,
) -> bool {
    match cur {
        Option::None => next == Some(item),
        Option::Some(c) => next matches Some(v) && call_ensures(f, (c, item), v),
    }
}

/// Relation: `b` is a possible outcome of reducing `items` into `a`, one step
/// per item, in order.
pub open spec fn reduces<Item, Func: Fn(Item, Item) -> Item>(
    f: Func,
    a: Option<Item>,
    items: Seq<Item>,
    b: Option<Item>,
) -> bool
    decreases items.len(),
{
    if items.len() == 0 {
        a == b
    } else {
        exists|mid: Option<Item>|
            #[trigger] reduce_step_rel(f, a, items[0], mid) && reduces(f, mid, items.skip(1), b)
    }
}

/// `f` can be called on every pair of a reachable running value and the item
/// that follows it along `items`.
pub open spec fn reduce_callable<Item, Func: Fn(Item, Item) -> Item>(
    f: Func,
    a: Option<Item>,
    items: Seq<Item>,
) -> bool
    decreases items.len(),
{
    items.len() > 0 ==> match a {
        Option::None => reduce_callable(f, Some(items[0]), items.skip(1)),
        Option::Some(c) => {
            &&& call_requires(f, (c, items[0]))
            &&& forall|mid: Item|
                #[trigger] call_ensures(f, (c, items[0]), mid) ==> reduce_callable(
                    f,
                    Some(mid),
                    items.skip(1),
                )
        },
    }
}

/// Like a folder, but requiring no initial value: the first item reduced in
/// becomes the running value as-is, and later items are combined pairwise by
/// the reducing function, an ordinary function value kept in a struct field.
#[derive(Copy, Clone)]
pub struct DynReduce<Item, Func> {
    item: Option<Item>,
    function: Func,
}

impl<Item, Func> DynReduce<Item, Func> {
    /// The running value: absent until the first item is reduced in.
    pub closed spec fn current(self) -> Option<Item> {
        self.item
    }

    /// The reducing function.
    pub closed spec fn func(self) -> Func {
        self.function
    }

    /// Creates a new `DynReduce` with the provided reducing function.
    pub fn new(func: Func) -> (r: Self) where Func: Fn(Item, Item) -> Item
        ensures
            r.current() is None,
            r.func() == func,
    {
        DynReduce { item: Option::None, function: func }
    }

    /// Returns the contained value, consuming the self value.
    pub fn into_inner(self) -> (r: Option<Item>)
        ensures
            r == self.current(),
    {
        self.item
    }

    /// Returns a reference to the inner value, if there is one.
    pub fn as_ref(&self) -> (r: Option<&Item>)
        ensures
            match r {
                Option::None => self.current() is None,
                Option::Some(v) => self.current() == Some(*v),
            },
    {
        self.item.as_ref()
    }

    /// Reduces an individual value into self: the first item is stored
    /// verbatim, later ones are combined with the running value.
    pub fn reduce(&mut self, item: Item) where Func: Fn(Item, Item) -> Item
        requires
            old(self).current() matches Some(c) ==> call_requires(old(self).func(), (c, item)),
        ensures
            final(self).func() == old(self).func(),
            reduce_step_rel(old(self).func(), old(self).current(), item, final(self).current()),
            final(self).current() is Some,
    {
        let cur = self.item.take();
        match cur {
            Option::None => {
                self.item = Some(item);
            },
            Option::Some(c) => {
                let next = (self.function)(c, item);
                self.item = Some(next);
            },
        }
    }

    /// Reduces a whole sequence of items into self, in order.
    pub fn extend(&mut self, items: Vec<Item>) where Func: Fn(Item, Item) -> Item
        requires
            reduce_callable(old(self).func(), old(self).current(), items@),
        ensures
            final(self).func() == old(self).func(),
            reduces(old(self).func(), old(self).current(), items@, final(self).current()),
    {
        let ghost all = items@;
        let mut items = items;
        while items.len() > 0
            invariant
                self.func() == old(self).func(),
                reduce_callable(self.func(), self.current(), items@),
                forall|b: Option<Item>|
                    #[trigger] reduces(self.func(), self.current(), items@, b) ==> reduces(
                        old(self).func(),
                        old(self).current(),
                        all,
                        b,
                    ),
            decreases items.len(),
        {
            let ghost pre = items@;
            let ghost prev = self.current();
            let it = items.remove(0);
            proof {
                assert(items@ =~= pre.skip(1));
            }
            self.reduce(it);
            proof {
                assert forall|b: Option<Item>| #[trigger] reduces(
                    self.func(),
                    self.current(),
                    items@,
                    b,
                ) implies reduces(self.func(), prev, pre, b) by {
                    assert(reduce_step_rel(self.func(), prev, pre[0], self.current()));
                    assert(reduces(self.func(), self.current(), pre.skip(1), b));
                }
            }
        }
        proof {
            assert(reduces(self.func(), self.current(), items@, self.current()));
        }
    }
}

/// Law: reducing a non-empty sequence from the empty state is the same as
/// seeding the running value with the sequence's first item and reducing the
/// rest of the sequence in order.
pub proof fn lemma_reduces_seeded_by_first<Item, Func: Fn(Item, Item) -> Item>(
    f: Func,
    items: Seq<Item>,
    b: Option<Item>,
)
    requires
        items.len() > 0,
    ensures
        reduces(f, Option::<Item>::None, items, b) <==> reduces(f, Some(items[0]), items.skip(1), b),
{
    assert forall|bb: Option<Item>| reduces(f, Some(items[0]), items.skip(1), bb) implies reduces(
        f,
        Option::<Item>::None,
        items,
        bb,
    ) by {
        assert(reduce_step_rel(f, Option::<Item>::None, items[0], Some(items[0])));
    }
}

/// Law: reducing a sequence from the empty state ends absent exactly when the
/// sequence is empty.
pub proof fn lemma_reduces_absent_iff_empty<Item, Func: Fn(Item, Item) -> Item>(
    f: Func,
    items: Seq<Item>,
    b: Option<Item>,
)
    requires
        reduces(f, Option::<Item>::None, items, b),
    ensures
        b is None <==> items.len() == 0,
{
    lemma_reduces_stays_present(f, items, b);
}

/// Once the running value is present, every later state is present too.
proof fn lemma_reduces_stays_present<Item, Func: Fn(Item, Item) -> Item>(
    f: Func,
    items: Seq<Item>,
    b: Option<Item>,
)
    requires
        reduces(f, Option::<Item>::None, items, b),
    ensures
        items.len() == 0 ==> b is None,
        items.len() > 0 ==> b is Some,
    decreases items.len(),
{
    if items.len() > 0 {
        lemma_reduces_present(f, Some(items[0]), items.skip(1), b);
    }
}

proof fn lemma_reduces_present<Item, Func: Fn(Item, Item) -> Item>(
    f: Func,
    a: Option<Item>,
    items: Seq<Item>,
    b: Option<Item>,
)
    requires
        reduces(f, a, items, b),
        a is Some,
    ensures
        b is Some,
    decreases items.len(),
{
    if items.len() > 0 {
        let mid = choose|mid: Option<Item>|
            #[trigger] reduce_step_rel(f, a, items[0], mid) && reduces(f, mid, items.skip(1), b);
        lemma_reduces_present(f, mid, items.skip(1), b);
    }
}

} // verus!
