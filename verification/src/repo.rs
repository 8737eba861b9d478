//! The entity store: an in-memory document store with typed collections,
//! generic access primitives, and the order composition and line-mutation
//! operations built on them.

pub mod error;
pub mod orders;
pub mod repository;
