use vstd::prelude::*;

verus! {

/// Trait that provides the `reduce` implementation for [`ImplReduce`]: the
/// combining behavior is attached statically to the concrete item type, so
/// each item type can have at most one reducing function.
pub trait ReduceTrait<Item> {
    /// When the reducing function may be applied.
    spec fn reduce_req(lhs: Item, rhs: Item) -> bool;

    /// The mathematical reducing function.
    spec fn reduce_spec(lhs: Item, rhs: Item) -> Item;

    /// User-defined reduce function: returns a new item that combines `lhs`
    /// and `rhs`.
    fn reduce(lhs: Item, rhs: Item) -> (r: Item)
        requires
            Self::reduce_req(lhs, rhs),
        ensures
            r == Self::reduce_spec(lhs, rhs),
    ;
}

/// One step of reducing by `F`'s reducing function: an absent running value
/// is seeded with the item verbatim, without applying the function.
pub open spec fn reduce_step<Item, F: ReduceTrait<Item>>(cur: Option<Item>, item: Item) -> Option<
    Item,
> {
    match cur {
        Option::None => Some(item),
        Option::Some(c) => Some(F::reduce_spec(c, item)),
    }
}

/// Reducing a whole sequence into a running value by `F`'s reducing function,
/// item by item, in order.
pub open spec fn reduce_seq<Item, F: ReduceTrait<Item>>(
    cur: Option<Item>,
    items: Seq<Item>,
) -> Option<Item>
    decreases items.len(),
{
    if items.len() == 0 {
        cur
    } else {
        reduce_seq::<Item, F>(reduce_step::<Item, F>(cur, items[0]), items.skip(1))
    }
}

/// `F`'s reducing function may be applied to every intermediate running value
/// along `items`.
pub open spec fn reduce_seq_req<Item, F: ReduceTrait<Item>>(
    cur: Option<Item>,
    items: Seq<Item>,
) -> bool
    decreases items.len(),
{
    items.len() > 0 ==> {
        &&& (cur matches Some(c) ==> F::reduce_req(c, items[0]))
        &&& reduce_seq_req::<Item, F>(reduce_step::<Item, F>(cur, items[0]), items.skip(1))
    }
}

/// Like [`ImplFolder`](crate::ImplFolder), but requiring no initial value:
/// the first item reduced in becomes the running value as-is, and later items
/// are combined pairwise by the [`ReduceTrait`] implementation on the
/// concrete item type.
#[derive(Debug, Copy, Clone)]
pub struct ImplReduce<Item> {
    item: Option<Item>,
}

impl<Item> ImplReduce<Item> {
    /// The running value: absent until the first item is reduced in.
    pub closed spec fn current(self) -> Option<Item> {
        self.item
    }

    /// Creates a new `ImplReduce` with the provided initial value.
    pub fn new(initial: Item) -> (r: Self)
        ensures
            r.current() == Some(initial),
    {
        ImplReduce { item: Some(initial) }
    }

    /// Deconstruct self and return the inner value.
    pub fn into_inner(self) -> (r: Option<Item>)
        ensures
            r == self.current(),
    {
        self.item
    }

    /// Returns a reference to the inner value, if there is one.
    pub fn as_ref(&self) -> (r: Option<&Item>)
        ensures
            match r {
                Option::None => self.current() is None,
                Option::Some(v) => self.current() == Some(*v),
            },
    {
        self.item.as_ref()
    }

    /// Reduces an individual value into self: the first item is stored
    /// verbatim, later ones are combined with the running value by the
    /// trait's reducing function.
    pub fn reduce(&mut self, item: Item) where Self: ReduceTrait<Item>
        requires
            old(self).current() matches Some(c) ==> Self::reduce_req(c, item),
        ensures
            final(self).current() == reduce_step::<Item, Self>(old(self).current(), item),
            final(self).current() is Some,
    {
        let cur = self.item.take();
        match cur {
            Option::None => {
                self.item = Some(item);
            },
            Option::Some(c) => {
                let next = <Self as ReduceTrait<Item>>::reduce(c, item);
                self.item = Some(next);
            },
        }
    }

    /// Reduces a whole sequence of items into self, in order.
    pub fn extend(&mut self, items: Vec<Item>) where Self: ReduceTrait<Item>
        requires
            reduce_seq_req::<Item, Self>(old(self).current(), items@),
        ensures
            final(self).current() == reduce_seq::<Item, Self>(old(self).current(), items@),
    {
        let ghost all = items@;
        let mut items = items;
        while items.len() > 0
            invariant
                reduce_seq_req::<Item, Self>(self.current(), items@),
                reduce_seq::<Item, Self>(self.current(), items@) == reduce_seq::<Item, Self>(
                    old(self).current(),
                    all,
                ),
            decreases items.len(),
        {
            let ghost pre = items@;
            let it = items.remove(0);
            proof {
                assert(items@ =~= pre.skip(1));
            }
            self.reduce(it);
        }
    }

    /// Builds an `ImplReduce` from a whole sequence of items reduced in
    /// order; an empty sequence yields the permanently-absent state.
    pub fn from_vec(items: Vec<Item>) -> (r: Self) where Self: ReduceTrait<Item>
        requires
            reduce_seq_req::<Item, Self>(Option::<Item>::None, items@),
        ensures
            r.current() == reduce_seq::<Item, Self>(Option::<Item>::None, items@),
    {
        let mut r = ImplReduce { item: Option::None };
        r.extend(items);
        r
    }
}

impl<Item> Default for ImplReduce<Item> {
    /// An empty `ImplReduce`: no item reduced yet.
    fn default() -> (r: Self)
        ensures
            r.current() is None,
    {
        ImplReduce { item: Option::None }
    }
}

/// Law: reducing a non-empty sequence from the empty state is the same as
/// seeding the running value with the sequence's first item and reducing the
/// rest of the sequence in order.
pub proof fn lemma_reduce_seq_seeded_by_first<Item, F: ReduceTrait<Item>>(items: Seq<Item>)
    requires
        items.len() > 0,
    ensures
        reduce_seq::<Item, F>(Option::<Item>::None, items) == reduce_seq::<Item, F>(
            Some(items[0]),
            items.skip(1),
        ),
{
}

/// Law: reducing a sequence from the empty state ends absent exactly when the
/// sequence is empty.
pub proof fn lemma_reduce_seq_absent_iff_empty<Item, F: ReduceTrait<Item>>(items: Seq<Item>)
    ensures
        reduce_seq::<Item, F>(Option::<Item>::None, items) is None <==> items.len() == 0,
{
    if items.len() > 0 {
        lemma_reduce_seq_present::<Item, F>(Some(items[0]), items.skip(1));
    }
}

proof fn lemma_reduce_seq_present<Item, F: ReduceTrait<Item>>(cur: Option<Item>, items: Seq<Item>)
    requires
        cur is Some,
    ensures
        reduce_seq::<Item, F>(cur, items) is Some,
    decreases items.len(),
{
    if items.len() > 0 {
        lemma_reduce_seq_present::<Item, F>(
            reduce_step::<Item, F>(cur, items[0]),
            items.skip(1),
        );
    }
}

} // verus!
