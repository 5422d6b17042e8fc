//! A minimal in-memory tabular data engine.
//!
//! A relation is a fixed set of named, equal-length columns. Each column
//! stores values of one concrete element type behind a type-erased handle
//! (a tagged union); read operations recover the concrete type through an
//! explicit runtime check that can fail. Filtered reads go through cursors
//! bound to a per-column selection predicate, and typed multi-column
//! projection is dispatched through fixed-arity adapters.

pub mod data;
pub mod foundations;
pub mod relation;
pub mod support;

use vstd::prelude::*;

verus! {

/// Sum of two machine-word counters; the caller keeps the sum in range.
pub fn add(left: usize, right: usize) -> (r: usize)
    requires
        left + right <= usize::MAX,
    ensures
        r == left + right,
{
    left + right
}

} // verus!
