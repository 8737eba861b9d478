//! A restaurant point-of-sale backend core: waiters place orders for tables,
//! orders accumulate product lines with quantities, and callers read back
//! fully resolved order views with a computed monetary total.
//!
//! The store is modelled as an in-memory set of typed collections; the
//! composition and line-mutation logic on top of it is verified.

pub mod ids;
pub mod models;
pub mod repo;
pub mod services;
