//! Collections of fixed-schema records stored in a columnar (struct-of-arrays)
//! memory layout, with synchronized per-field iteration, per-index mutable
//! access, and a bitmap-backed filtered view over any indexable collection.

use vstd::prelude::*;

pub mod bitmap;
pub mod record;
pub mod tuple;

verus! {

/// A type that has a columnar container representation.
///
/// `Output` is the container holding one growable column per field of
/// `Self`; it starts out empty and well formed.
pub trait Column: Sized {
    /// The container type representing the wrapped data in a columnar layout.
    type Output;

    /// Holds when a freshly built container is well formed and holds no records.
    spec fn output_is_empty(out: &Self::Output) -> bool;

    /// Build an empty container with default capacity.
    fn new() -> (r: Self::Output)
        ensures
            Self::output_is_empty(&r),
    ;

    /// Build an empty container with storage pre-reserved for `capacity` records.
    fn with_capacity(capacity: usize) -> (r: Self::Output)
        ensures
            Self::output_is_empty(&r),
    ;
}

} // verus!
