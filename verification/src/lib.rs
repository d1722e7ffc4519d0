//! An append-only set that keeps its elements in the order of insertion.
//!
//! [`FrozenIndexSet`] stores its elements in an `indexmap::IndexSet` and never
//! takes one out: an element keeps the index it was given when it was first
//! inserted, and inserting an equal value again hands back the element that is
//! already there. The operations are verified against a model of the contents
//! as a sequence:
//!
//! - [`model`] defines that model: what an insertion does to the sequence and
//!   what a lookup finds in it;
//! - [`store`] is the boundary to `indexmap`, with the contracts that the
//!   proofs take on trust;
//! - [`index_set`] is the container and the contracts of its operations;
//! - [`laws`] proves what follows for every run of insertions.
//!
//! The container is the part that works under exclusive access: insertion takes
//! `&mut self`. A handle that inserts through a shared reference has to be
//! built on top of it with `unsafe` code, which is outside what is verified
//! here. For such a handle the container keeps a reentrancy flag, which every
//! operation requires to be lowered.

pub mod index_set;
pub mod laws;
pub mod model;
pub mod store;

pub use crate::index_set::FrozenIndexSet;
