use vstd::prelude::*;

use crate::models::CollectionName;
use crate::models::Entity;

verus! {

pub type CategoryId = u128;

/// Input for creating a category.
#[derive(Debug, PartialEq)]
pub struct NewCategory {
    pub name: String,
    pub icon: String,
    pub color: String,
}

/// A category record: purely descriptive, created once and read many times.
#[derive(Debug, PartialEq)]
pub struct Category {
    pub _id: CategoryId,
    pub name: String,
    pub icon: String,
    pub color: String,
}

impl CollectionName for Category {
    fn collection_name() -> &'static str {
        "categories"
    }
}

impl Entity for Category {
    open spec fn entity_id(&self) -> u128 {
        self._id
    }

    fn id(&self) -> u128 {
        self._id
    }
}

impl Clone for Category {
    fn clone(&self) -> (r: Self)
        ensures
            r == *self,
    {
        Category {
            _id: self._id,
            name: self.name.clone(),
            icon: self.icon.clone(),
            color: self.color.clone(),
        }
    }
}

} // verus!
