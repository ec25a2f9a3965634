//! Verified building blocks behind a collection of Rust concept demos:
//! slices and strings, iterators, error handling, lifetimes, traits,
//! closures, comparisons, entity storage and hand-written futures.
use vstd::prelude::*;

pub mod closures;
pub mod comparisons;
pub mod errors;
pub mod futures;
pub mod ids;
pub mod iterators;
pub mod lifetimes;
pub mod memory;
pub mod order;
pub mod perf;
pub mod slices;
pub mod text;
pub mod traits;

pub use memory::{ejemplo, example};

verus! {

} // verus!
