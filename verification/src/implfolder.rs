use vstd::prelude::*;

use core::marker::PhantomData;

verus! {

/// Trait that provides the `fold` implementation for [`ImplFolder`]: the
/// combining behavior is attached statically to the concrete (output, item)
/// type pairing, so each pairing can have at most one folding function.
pub trait FolderTrait<Output, Item> {
    /// When the folding function may be applied.
    spec fn fold_req(output: Output, item: Item) -> bool;

    /// The mathematical folding function.
    spec fn fold_spec(output: Output, item: Item) -> Output;

    /// User-defined folding function: returns a new output with `item`
    /// folded in.
    fn fold(output: Output, item: Item) -> (r: Output)
        requires
            Self::fold_req(output, item),
        ensures
            r == Self::fold_spec(output, item),
    ;
}

/// Folding a whole sequence into an output value by `F`'s folding function,
/// item by item, in order.
pub open spec fn fold_seq<Output, Item, F: FolderTrait<Output, Item>>(
    init: Output,
    items: Seq<Item>,
) -> Output
    decreases items.len(),
{
    if items.len() == 0 {
        init
    } else {
        fold_seq::<Output, Item, F>(F::fold_spec(init, items[0]), items.skip(1))
    }
}

/// `F`'s folding function may be applied to every intermediate output along
/// `items`.
pub open spec fn fold_seq_req<Output, Item, F: FolderTrait<Output, Item>>(
    init: Output,
    items: Seq<Item>,
) -> bool
    decreases items.len(),
{
    items.len() > 0 ==> F::fold_req(init, items[0]) && fold_seq_req::<Output, Item, F>(
        F::fold_spec(init, items[0]),
        items.skip(1),
    )
}

/// Holds a running output value; the folding function that combines each new
/// item into it comes from the [`FolderTrait`] implementation on the concrete
/// (output, item) type pairing.
#[derive(Debug, Copy, Clone)]
pub struct ImplFolder<Output, Item> {
    output: Option<Output>,
    item: PhantomData<Item>,
}

impl<Output, Item> ImplFolder<Output, Item> {
    /// The container always holds a value; the option field is only the
    /// placeholder discipline used while folding.
    pub closed spec fn wf(self) -> bool {
        self.output is Some
    }

    /// The running output value.
    pub closed spec fn value(self) -> Output {
        self.output.unwrap()
    }

    /// Creates a new `ImplFolder` with the provided initial value.
    pub fn new(initial: Output) -> (r: Self)
        ensures
            r.wf(),
            r.value() == initial,
    {
        ImplFolder { output: Some(initial), item: PhantomData }
    }

    /// Deconstruct self and return the inner value.
    pub fn into_inner(self) -> (r: Output)
        requires
            self.wf(),
        ensures
            r == self.value(),
    {
        self.output.unwrap()
    }

    /// Returns a reference to the running output value.
    pub fn as_ref(&self) -> (r: &Output)
        requires
            self.wf(),
        ensures
            *r == self.value(),
    {
        self.output.as_ref().unwrap()
    }

    /// Folds an individual value into self by the trait's folding function.
    pub fn fold(&mut self, item: Item) where Self: FolderTrait<Output, Item>
        requires
            old(self).wf(),
            Self::fold_req(old(self).value(), item),
        ensures
            final(self).wf(),
            final(self).value() == Self::fold_spec(old(self).value(), item),
    {
        let cur = self.output.take().unwrap();
        let next = <Self as FolderTrait<Output, Item>>::fold(cur, item);
        self.output = Some(next);
    }

    /// Folds a whole sequence of items into self, in order.
    pub fn extend(&mut self, items: Vec<Item>) where Self: FolderTrait<Output, Item>
        requires
            old(self).wf(),
            fold_seq_req::<Output, Item, Self>(old(self).value(), items@),
        ensures
            final(self).wf(),
            final(self).value() == fold_seq::<Output, Item, Self>(old(self).value(), items@),
    {
        let ghost all = items@;
        let mut items = items;
        while items.len() > 0
            invariant
                self.wf(),
                fold_seq_req::<Output, Item, Self>(self.value(), items@),
                fold_seq::<Output, Item, Self>(self.value(), items@) == fold_seq::<
                    Output,
                    Item,
                    Self,
                >(old(self).value(), all),
            decreases items.len(),
        {
            let ghost pre = items@;
            let it = items.remove(0);
            proof {
                assert(items@ =~= pre.skip(1));
            }
            self.fold(it);
        }
    }

    /// Builds an `ImplFolder` from a whole sequence of items folded, in
    /// order, into a default-valued seed.
    pub fn from_vec(items: Vec<Item>) -> (r: Self) where
        Output: Default,
        Self: FolderTrait<Output, Item>,

        requires
            forall|seed: Output|
                #[trigger] call_ensures(Output::default, (), seed) ==> fold_seq_req::<
                    Output,
                    Item,
                    Self,
                >(seed, items@),
        ensures
            r.wf(),
            exists|seed: Output|
                #[trigger] call_ensures(Output::default, (), seed) && r.value() == fold_seq::<
                    Output,
                    Item,
                    Self,
                >(seed, items@),
    {
        let seed = Output::default();
        let mut r = ImplFolder::new(seed);
        r.extend(items);
        r
    }
}

impl<Output: Default, Item> Default for ImplFolder<Output, Item> {
    /// An `ImplFolder` seeded with the output type's default value.
    fn default() -> (r: Self)
        ensures
            r.wf(),
            call_ensures(Output::default, (), r.value()),
    {
        ImplFolder::new(Output::default())
    }
}

/// Law: folding a sequence into an [`ImplFolder`] yields exactly the standard
/// left fold of that sequence by the trait's folding function.
pub proof fn lemma_fold_seq_is_fold_left<Output, Item, F: FolderTrait<Output, Item>>(
    init: Output,
    items: Seq<Item>,
)
    ensures
        fold_seq::<Output, Item, F>(init, items) == items.fold_left(
            init,
            |acc: Output, it: Item| F::fold_spec(acc, it),
        ),
    decreases items.len(),
{
    let g = |acc: Output, it: Item| F::fold_spec(acc, it);
    if items.len() > 0 {
        let mid = F::fold_spec(init, items[0]);
        lemma_fold_seq_is_fold_left::<Output, Item, F>(mid, items.skip(1));
        assert(items.skip(1) =~= items.subrange(1, items.len() as int));
        items.skip(1).lemma_fold_left_alt(mid, g);
        assert(g(init, items[0]) == mid);
        assert(items.fold_left_alt(init, g) == items.subrange(
            1,
            items.len() as int,
        ).fold_left_alt(g(init, items[0]), g));
    }
    items.lemma_fold_left_alt(init, g);
}

} // verus!
