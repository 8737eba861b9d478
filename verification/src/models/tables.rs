use vstd::prelude::*;

use crate::models::CollectionName;
use crate::models::Entity;

verus! {

pub type TableId = u128;

/// Input for creating a table: placement coordinates and floor level.
#[derive(Debug, PartialEq)]
pub struct NewTable {
    pub name: String,
    pub x: i32,
    pub y: i32,
    pub level: i32,
}

/// A table record.
#[derive(Debug, PartialEq)]
pub struct Table {
    pub _id: TableId,
    pub name: String,
    pub x: i32,
    pub y: i32,
    pub level: i32,
}

impl CollectionName for Table {
    fn collection_name() -> &'static str {
        "tables"
    }
}

impl Entity for Table {
    open spec fn entity_id(&self) -> u128 {
        self._id
    }

    fn id(&self) -> u128 {
        self._id
    }
}

impl Clone for Table {
    fn clone(&self) -> (r: Self)
        ensures
            r == *self,
    {
        Table {
            _id: self._id,
            name: self.name.clone(),
            x: self.x,
            y: self.y,
            level: self.level,
        }
    }
}

/// The table summary embedded in an order view.
#[derive(Debug, PartialEq)]
pub struct TableAPI {
    pub _id: TableId,
    pub name: String,
}

impl CollectionName for TableAPI {
    fn collection_name() -> &'static str {
        "tables"
    }
}

impl Clone for TableAPI {
    fn clone(&self) -> (r: Self)
        ensures
            r == *self,
    {
        TableAPI { _id: self._id, name: self.name.clone() }
    }
}

} // verus!
