use vstd::prelude::*;

use core::marker::PhantomData;

verus! {

/// Relation: `b` is a possible outcome of folding `items` into `a`, one call
/// of `f` per item, in order. `f` is an arbitrary function value, so its
/// outcomes are constrained only by its postcondition.
pub open spec fn folds<Output, Item, Func: Fn(Output, Item) -> Output>(
    f: Func,
    a: Output,
    items: Seq<Item>,
    b: Output,
) -> bool
    decreases items.len(),
{
    if items.len() == 0 {
        a == b
    } else {
        exists|mid: Output|
            #[trigger] call_ensures(f, (a, items[0]), mid) && folds(f, mid, items.skip(1), b)
    }
}

/// `f` can be called on `a` and the first item, and on every intermediate
/// output it can yield along `items`.
pub open spec fn fold_callable<Output, Item, Func: Fn(Output, Item) -> Output>(
    f: Func,
    a: Output,
    items: Seq<Item>,
) -> bool
    decreases items.len(),
{
    items.len() > 0 ==> {
        &&& call_requires(f, (a, items[0]))
        &&& forall|mid: Output|
            #[trigger] call_ensures(f, (a, items[0]), mid) ==> fold_callable(
                f,
                mid,
                items.skip(1),
            )
    }
}

/// Holds a running output value and the folding function that combines each
/// new item into it; the function is an ordinary function value kept in a
/// struct field.
#[derive(Debug, Copy, Clone)]
pub struct DynFolder<Output, Item, Func> {
    output: Option<Output>,
    function: Func,
    item: PhantomData<Item>,
}

impl<Output, Item, Func> DynFolder<Output, Item, Func> {
    /// The container always holds a value; the option field is only the
    /// placeholder discipline used while folding.
    pub closed spec fn wf(self) -> bool {
        self.output is Some
    }

    /// The running output value.
    pub closed spec fn value(self) -> Output {
        self.output.unwrap()
    }

    /// The folding function.
    pub closed spec fn func(self) -> Func {
        self.function
    }

    /// Creates a new `DynFolder` with the provided initial value and folding
    /// function.
    pub fn new(initial: Output, func: Func) -> (r: Self) where Func: Fn(Output, Item) -> Output
        ensures
            r.wf(),
            r.value() == initial,
            r.func() == func,
    {
        DynFolder { output: Some(initial), function: func, item: PhantomData }
    }

    /// Returns the contained value, consuming the self value.
    pub fn into_inner(self) -> (r: Output)
        requires
            self.wf(),
        ensures
            r == self.value(),
    {
        self.output.unwrap()
    }

    /// Returns a reference to the running output value.
    pub fn as_ref(&self) -> (r: &Output)
        requires
            self.wf(),
        ensures
            *r == self.value(),
    {
        self.output.as_ref().unwrap()
    }

    /// Folds an individual value into self: the running output becomes an
    /// outcome of the folding function on the old output and the item.
    pub fn fold(&mut self, item: Item) where Func: Fn(Output, Item) -> Output
        requires
            old(self).wf(),
            call_requires(old(self).func(), (old(self).value(), item)),
        ensures
            final(self).wf(),
            final(self).func() == old(self).func(),
            call_ensures(old(self).func(), (old(self).value(), item), final(self).value()),
    {
        let cur = self.output.take().unwrap();
        let next = (self.function)(cur, item);
        self.output = Some(next);
    }

    /// Folds a whole sequence of items into self, in order.
    pub fn extend(&mut self, items: Vec<Item>) where Func: Fn(Output, Item) -> Output
        requires
            old(self).wf(),
            fold_callable(old(self).func(), old(self).value(), items@),
        ensures
            final(self).wf(),
            final(self).func() == old(self).func(),
            folds(old(self).func(), old(self).value(), items@, final(self).value()),
    {
        let ghost all = items@;
        let mut items = items;
        while items.len() > 0
            invariant
                self.wf(),
                self.func() == old(self).func(),
                fold_callable(self.func(), self.value(), items@),
                forall|b: Output|
                    #[trigger] folds(self.func(), self.value(), items@, b) ==> folds(
                        old(self).func(),
                        old(self).value(),
                        all,
                        b,
                    ),
            decreases items.len(),
        {
            let ghost pre = items@;
            let ghost prev = self.value();
            let it = items.remove(0);
            proof {
                assert(items@ =~= pre.skip(1));
            }
            self.fold(it);
            proof {
                assert forall|b: Output| #[trigger] folds(
                    self.func(),
                    self.value(),
                    items@,
                    b,
                ) implies folds(self.func(), prev, pre, b) by {
                    assert(call_ensures(self.func(), (prev, pre[0]), self.value()));
                    assert(folds(self.func(), self.value(), pre.skip(1), b));
                }
            }
        }
        proof {
            assert(folds(self.func(), self.value(), items@, self.value()));
        }
    }
}

/// Law: when the folding function implements a deterministic specification
/// `g` (every outcome it allows equals `g` of the inputs), folding a sequence
/// yields exactly the standard left fold of that sequence by `g`.
pub proof fn lemma_folds_is_fold_left<Output, Item, Func: Fn(Output, Item) -> Output>(
    f: Func,
    a: Output,
    items: Seq<Item>,
    b: Output,
    g: spec_fn(Output, Item) -> Output,
)
    requires
        folds(f, a, items, b),
        forall|x: Output, i: Item, y: Output| #[trigger] call_ensures(f, (x, i), y) ==> y == g(
            x,
            i,
        ),
    ensures
        b == items.fold_left_alt(a, g),
        b == items.fold_left(a, g),
    decreases items.len(),
{
    if items.len() == 0 {
    } else {
        let mid = choose|mid: Output|
            #[trigger] call_ensures(f, (a, items[0]), mid) && folds(f, mid, items.skip(1), b);
        assert(mid == g(a, items[0]));
        lemma_folds_is_fold_left(f, mid, items.skip(1), b, g);
        assert(items.skip(1) =~= items.subrange(1, items.len() as int));
    }
    items.lemma_fold_left_alt(a, g);
}

} // verus!
