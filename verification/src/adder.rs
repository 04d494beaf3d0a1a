use vstd::prelude::*;

use core::marker::PhantomData;
use vstd::std_specs::ops::AddSpec;

verus! {

/// Adding a whole sequence of items into a running value, in order, by the
/// inner type's addition.
pub open spec fn add_seq<Inner: core::ops::Add<Item, Output = Inner>, Item>(
    init: Inner,
    items: Seq<Item>,
) -> Inner
    decreases items.len(),
{
    if items.len() == 0 {
        init
    } else {
        add_seq(init.add_spec(items[0]), items.skip(1))
    }
}

/// The inner type's addition may be applied to every intermediate value along
/// `items` (for machine integers: no sum overflows).
pub open spec fn add_seq_req<Inner: core::ops::Add<Item, Output = Inner>, Item>(
    init: Inner,
    items: Seq<Item>,
) -> bool
    decreases items.len(),
{
    items.len() > 0 ==> init.add_req(items[0]) && add_seq_req(
        init.add_spec(items[0]),
        items.skip(1),
    )
}

/// Thin wrapper that folds values by the host type's addition; no
/// user-supplied function is needed since the operation is fixed.
#[derive(Debug)]
pub struct Adder<Inner, Item> {
    inner: Option<Inner>,
    item: PhantomData<Item>,
}

impl<Inner, Item> Adder<Inner, Item> {
    /// The container always holds a value; the option field is only the
    /// placeholder discipline used while folding.
    pub closed spec fn wf(self) -> bool {
        self.inner is Some
    }

    /// The running sum.
    pub closed spec fn value(self) -> Inner {
        self.inner.unwrap()
    }

    /// Creates a new `Adder` seeded with `inner`.
    pub fn new(inner: Inner) -> (r: Self)
        ensures
            r.wf(),
            r.value() == inner,
    {
        Adder { inner: Some(inner), item: PhantomData }
    }

    /// Deconstruct self and return the inner value.
    pub fn into_inner(self) -> (r: Inner)
        requires
            self.wf(),
        ensures
            r == self.value(),
    {
        self.inner.unwrap()
    }

    /// Returns a reference to the running sum.
    pub fn read(&self) -> (r: &Inner)
        requires
            self.wf(),
        ensures
            *r == self.value(),
    {
        self.inner.as_ref().unwrap()
    }

    /// Fold value into self by the inner type's addition.
    pub fn fold(&mut self, item: Item) where Inner: core::ops::Add<Item, Output = Inner>
        requires
            old(self).wf(),
            old(self).value().add_req(item),
        ensures
            final(self).wf(),
            Inner::obeys_add_spec() ==> final(self).value() == old(self).value().add_spec(item),
    {
        let cur = self.inner.take().unwrap();
        let next = cur + item;
        self.inner = Some(next);
    }

    /// Folds a whole sequence of items into self, in order.
    pub fn extend(&mut self, items: Vec<Item>) where Inner: core::ops::Add<Item, Output = Inner>
        requires
            old(self).wf(),
            Inner::obeys_add_spec(),
            add_seq_req(old(self).value(), items@),
        ensures
            final(self).wf(),
            final(self).value() == add_seq(old(self).value(), items@),
    {
        let ghost all = items@;
        let mut items = items;
        while items.len() > 0
            invariant
                self.wf(),
                Inner::obeys_add_spec(),
                add_seq_req(self.value(), items@),
                add_seq(self.value(), items@) == add_seq(old(self).value(), all),
            decreases items.len(),
        {
            let ghost pre = items@;
            let it = items.remove(0);
            proof {
                assert(items@ =~= pre.skip(1));
            }
            self.fold(it);
        }
    }

    /// Builds an `Adder` from a whole sequence of items added, in order, into
    /// a default-valued seed.
    pub fn from_vec(items: Vec<Item>) -> (r: Self) where
        Inner: Default + core::ops::Add<Item, Output = Inner>,

        requires
            Inner::obeys_add_spec(),
            forall|seed: Inner|
                #[trigger] call_ensures(Inner::default, (), seed) ==> add_seq_req(seed, items@),
        ensures
            r.wf(),
            exists|seed: Inner|
                #[trigger] call_ensures(Inner::default, (), seed) && r.value() == add_seq(
                    seed,
                    items@,
                ),
    {
        let mut r = Adder::new(Inner::default());
        r.extend(items);
        r
    }
}

impl<Inner: Default, Item> Default for Adder<Inner, Item> {
    /// An `Adder` seeded with the inner type's default value.
    fn default() -> (r: Self)
        ensures
            r.wf(),
            call_ensures(Inner::default, (), r.value()),
    {
        Adder::new(Inner::default())
    }
}

} // verus!
