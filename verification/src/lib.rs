//! Single-slot "autofolder" containers that incrementally combine (fold or
//! reduce) a stream of values into one running result, without requiring all
//! inputs to be available through a single iteration pass.
//!
//! - [`DynFolder`] holds an initial value and a folding function as a struct
//!   field; [`ImplFolder`] binds the folding function statically to the
//!   (output, item) type pairing through [`FolderTrait`].
//! - [`DynReduce`] and [`ImplReduce`] are the same two shapes without an
//!   initial value: the first item seeds the running value as-is.
//! - [`Min`], [`Max`] and [`MinMax`] keep the extreme values seen so far
//!   under `PartialOrd`; [`MinNum`], [`MaxNum`] and [`MinMaxNum`] seed
//!   themselves with the type's bounds so they are never empty.
//! - [`Accumulator`] tags a fold behavior with a zero-size marker type;
//!   [`Adder`] folds by the host type's addition.
//!
//! Every container states its behavior as a contract over spec-level fold
//! functions, and the laws relating the containers (a fold equals the
//! standard left fold; the combined tracker agrees with the independent
//! ones) are proved alongside them.

use vstd::prelude::*;

pub mod accumulator;
pub mod adder;
pub mod dynfolder;
pub mod dynreduce;
pub mod implfolder;
pub mod implreduce;
pub mod minmax;
pub mod minmaxnum;

pub use accumulator::Accumulable;
pub use accumulator::Accumulator;
pub use adder::Adder;
pub use dynfolder::DynFolder;
pub use dynreduce::DynReduce;
pub use implfolder::FolderTrait;
pub use implfolder::ImplFolder;
pub use implreduce::ImplReduce;
pub use implreduce::ReduceTrait;
pub use minmax::Max;
pub use minmax::Min;
pub use minmax::MinMax;
pub use minmaxnum::BoundedItem;
pub use minmaxnum::MaxNum;
pub use minmaxnum::MinMaxNum;
pub use minmaxnum::MinNum;

verus! {

/// Relies on the standard `Clone` for `core::marker::PhantomData`, a unit
/// marker type: the clone of a marker is that marker.
pub assume_specification<T: core::marker::PointeeSized>[ <core::marker::PhantomData<T> as core::clone::Clone>::clone ](
    v: &core::marker::PhantomData<T>,
) -> (r: core::marker::PhantomData<T>)
    ensures
        r == *v,
;

} // verus!
