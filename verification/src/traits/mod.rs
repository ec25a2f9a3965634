//! Traits as contracts: separate responsibilities, polymorphic callers,
//! injected dependencies and test doubles, default and static methods,
//! associated types, and the same method name in two traits.
pub mod concepts;
pub mod dispatch;
pub mod others;
pub mod repository;
pub mod utilities;
