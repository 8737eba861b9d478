//! The caller-facing operations: create/read/list for each entity kind,
//! the order views, the line mutation entry points, and the empty-check.
//! Store errors are translated to boundary errors here.

pub mod categories;
pub mod error;
pub mod orders;
pub mod products;
pub mod tables;
pub mod waiters;
