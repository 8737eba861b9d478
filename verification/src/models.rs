//! The entity types that the store holds, and the capabilities the generic
//! store operations require of them.

use vstd::prelude::*;

pub mod categories;
pub mod orders;
pub mod products;
pub mod tables;
pub mod waiters;

verus! {

/// Every stored entity names the collection it belongs to.
pub trait CollectionName {
    fn collection_name() -> &'static str;
}

/// A record with a 128-bit identifier, the capability that the generic
/// store operations are parametrized over.
pub trait Entity: Sized {
    /// The identifier, as seen by specifications.
    spec fn entity_id(&self) -> u128;

    /// The identifier, as read by executable code.
    fn id(&self) -> (r: u128)
        ensures
            r == self.entity_id(),
    ;
}

} // verus!
