use vstd::prelude::*;

use crate::models::CollectionName;
use crate::models::Entity;

verus! {

pub type WaiterId = u128;

/// Input for creating a waiter: the identifier is assigned at creation.
#[derive(Debug, PartialEq)]
pub struct NewWaiter {
    pub name: String,
    pub code: String,
}

/// A waiter record. The login code is unique across all waiters; the store
/// keeps a unique secondary index on it.
#[derive(Debug, PartialEq)]
pub struct Waiter {
    pub _id: WaiterId,
    pub name: String,
    pub code: String,
}

impl CollectionName for Waiter {
    fn collection_name() -> &'static str {
        "waiters"
    }
}

impl Entity for Waiter {
    open spec fn entity_id(&self) -> u128 {
        self._id
    }

    fn id(&self) -> u128 {
        self._id
    }
}

impl Clone for Waiter {
    fn clone(&self) -> (r: Self)
        ensures
            r == *self,
    {
        Waiter { _id: self._id, name: self.name.clone(), code: self.code.clone() }
    }
}

/// The waiter summary embedded in an order view.
#[derive(Debug, PartialEq)]
pub struct WaiterInOrder {
    pub _id: WaiterId,
    pub name: String,
}

impl CollectionName for WaiterInOrder {
    fn collection_name() -> &'static str {
        "waiters"
    }
}

impl Clone for WaiterInOrder {
    fn clone(&self) -> (r: Self)
        ensures
            r == *self,
    {
        WaiterInOrder { _id: self._id, name: self.name.clone() }
    }
}

} // verus!
