use vstd::prelude::*;

use core::marker::PhantomData;

verus! {

/// Core trait of the accumulator folding wrapper: implementations attach a
/// folding behavior to an [`Accumulator`] instantiation.
pub trait Accumulable<Accum, Item> {
    /// When the folding function may be applied.
    spec fn fold_req(accum: Accum, item: Item) -> bool;

    /// The mathematical folding function.
    spec fn fold_spec(accum: Accum, item: Item) -> Accum;

    /// Returns an accumulator value with the provided `item` folded in; for
    /// example, a summing accumulator would return `accum + item`.
    fn fold(accum: Accum, item: Item) -> (r: Accum)
        requires
            Self::fold_req(accum, item),
        ensures
            r == Self::fold_spec(accum, item),
    ;
}

/// Folding a whole sequence into an accumulated value by `A`'s folding
/// function, item by item, in order.
pub open spec fn accum_seq<Accum, Item, A: Accumulable<Accum, Item>>(
    init: Accum,
    items: Seq<Item>,
) -> Accum
    decreases items.len(),
{
    if items.len() == 0 {
        init
    } else {
        accum_seq::<Accum, Item, A>(A::fold_spec(init, items[0]), items.skip(1))
    }
}

/// `A`'s folding function may be applied to every intermediate value along
/// `items`.
pub open spec fn accum_seq_req<Accum, Item, A: Accumulable<Accum, Item>>(
    init: Accum,
    items: Seq<Item>,
) -> bool
    decreases items.len(),
{
    items.len() > 0 ==> A::fold_req(init, items[0]) && accum_seq_req::<Accum, Item, A>(
        A::fold_spec(init, items[0]),
        items.skip(1),
    )
}

/// Wrapper around an accumulated value. The zero-size `Marker` type tag
/// selects which [`Accumulable`] folding behavior applies, so that several
/// distinct behaviors can be defined over the same accumulated type without
/// collision; the tag occupies no storage and has no runtime behavior.
#[derive(Debug)]
pub struct Accumulator<Accum, Marker> {
    accum: Option<Accum>,
    marker: PhantomData<Marker>,
}

impl<Accum, Marker> Accumulator<Accum, Marker> {
    /// The wrapper always holds a value; the option field is only the
    /// placeholder discipline used while folding.
    pub closed spec fn wf(self) -> bool {
        self.accum is Some
    }

    /// The accumulated value.
    pub closed spec fn value(self) -> Accum {
        self.accum.unwrap()
    }

    /// Creates a new `Accumulator` holding `accum`.
    pub fn new(accum: Accum) -> (r: Self)
        ensures
            r.wf(),
            r.value() == accum,
    {
        Accumulator { accum: Some(accum), marker: PhantomData }
    }

    /// Deconstruct self and return the accumulated value.
    pub fn into_inner(self) -> (r: Accum)
        requires
            self.wf(),
        ensures
            r == self.value(),
    {
        self.accum.unwrap()
    }

    /// Returns a reference to the accumulated value.
    pub fn read(&self) -> (r: &Accum)
        requires
            self.wf(),
        ensures
            *r == self.value(),
    {
        self.accum.as_ref().unwrap()
    }

    /// Folds an individual value into self by the tagged folding behavior.
    pub fn fold_in<Item>(&mut self, item: Item) where Self: Accumulable<Accum, Item>
        requires
            old(self).wf(),
            Self::fold_req(old(self).value(), item),
        ensures
            final(self).wf(),
            final(self).value() == Self::fold_spec(old(self).value(), item),
    {
        let cur = self.accum.take().unwrap();
        let next = <Self as Accumulable<Accum, Item>>::fold(cur, item);
        self.accum = Some(next);
    }

    /// Folds a whole sequence of items into self, in order.
    pub fn extend<Item>(&mut self, items: Vec<Item>) where Self: Accumulable<Accum, Item>
        requires
            old(self).wf(),
            accum_seq_req::<Accum, Item, Self>(old(self).value(), items@),
        ensures
            final(self).wf(),
            final(self).value() == accum_seq::<Accum, Item, Self>(old(self).value(), items@),
    {
        let ghost all = items@;
        let mut items = items;
        while items.len() > 0
            invariant
                self.wf(),
                accum_seq_req::<Accum, Item, Self>(self.value(), items@),
                accum_seq::<Accum, Item, Self>(self.value(), items@) == accum_seq::<
                    Accum,
                    Item,
                    Self,
                >(old(self).value(), all),
            decreases items.len(),
        {
            let ghost pre = items@;
            let it = items.remove(0);
            proof {
                assert(items@ =~= pre.skip(1));
            }
            self.fold_in(it);
        }
    }

    /// Builds an `Accumulator` from a whole sequence of items folded, in
    /// order, into a default-valued seed.
    pub fn from_vec<Item>(items: Vec<Item>) -> (r: Self) where
        Accum: Default,
        Self: Accumulable<Accum, Item>,

        requires
            forall|seed: Accum|
                #[trigger] call_ensures(Accum::default, (), seed) ==> accum_seq_req::<
                    Accum,
                    Item,
                    Self,
                >(seed, items@),
        ensures
            r.wf(),
            exists|seed: Accum|
                #[trigger] call_ensures(Accum::default, (), seed) && r.value() == accum_seq::<
                    Accum,
                    Item,
                    Self,
                >(seed, items@),
    {
        let mut r = Accumulator::new(Accum::default());
        r.extend(items);
        r
    }
}

impl<Accum: Default, Marker> Default for Accumulator<Accum, Marker> {
    /// An `Accumulator` seeded with the accumulated type's default value.
    fn default() -> (r: Self)
        ensures
            r.wf(),
            call_ensures(Accum::default, (), r.value()),
    {
        Accumulator::new(Accum::default())
    }
}

} // verus!
