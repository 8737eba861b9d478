use vstd::prelude::*;

use crate::models::categories::Category;
use crate::models::categories::CategoryId;
use crate::models::CollectionName;
use crate::models::Entity;

verus! {

pub type ProductId = u128;

/// Input for creating a product. The unit price is a non-negative amount
/// in the smallest currency unit.
#[derive(Debug, PartialEq)]
pub struct NewProduct {
    pub name: String,
    pub price: u64,
    pub category_id: CategoryId,
}

/// A product record. `category_id` must reference an existing category at
/// read-composition time; this is not enforced at write time.
#[derive(Debug, PartialEq)]
pub struct Product {
    pub _id: ProductId,
    pub name: String,
    pub price: u64,
    pub category_id: CategoryId,
}

impl CollectionName for Product {
    fn collection_name() -> &'static str {
        "products"
    }
}

impl Entity for Product {
    open spec fn entity_id(&self) -> u128 {
        self._id
    }

    fn id(&self) -> u128 {
        self._id
    }
}

impl Clone for Product {
    fn clone(&self) -> (r: Self)
        ensures
            r == *self,
    {
        Product {
            _id: self._id,
            name: self.name.clone(),
            price: self.price,
            category_id: self.category_id,
        }
    }
}

/// The body of an add-product / remove-product request.
#[derive(Clone, Copy, Debug, PartialEq)]
pub struct AddProductQuery {
    pub product_id: ProductId,
}

/// A product with its category resolved, as returned by the product listing.
#[derive(Debug, PartialEq)]
pub struct ProductAPI {
    pub _id: ProductId,
    pub name: String,
    pub price: u64,
    pub category: Category,
}

impl Clone for ProductAPI {
    fn clone(&self) -> (r: Self)
        ensures
            r == *self,
    {
        ProductAPI {
            _id: self._id,
            name: self.name.clone(),
            price: self.price,
            category: self.category.clone(),
        }
    }
}

/// A fully resolved order line: product snapshot, category snapshot and
/// the quantity ordered.
#[derive(Debug, PartialEq)]
pub struct ProductInOrder {
    pub _id: ProductId,
    pub name: String,
    pub price: u64,
    pub category: Category,
    pub quantity: u64,
}

impl Clone for ProductInOrder {
    fn clone(&self) -> (r: Self)
        ensures
            r == *self,
    {
        ProductInOrder {
            _id: self._id,
            name: self.name.clone(),
            price: self.price,
            category: self.category.clone(),
            quantity: self.quantity,
        }
    }
}

/// One line inside a stored order: a product identifier and a quantity.
/// A stored line always has quantity at least 1; a quantity of zero is
/// represented by the absence of the line.
#[derive(Clone, Copy, Debug, PartialEq)]
pub struct ProductIdWithQuantity {
    pub _id: ProductId,
    pub quantity: u64,
}

impl Entity for ProductIdWithQuantity {
    open spec fn entity_id(&self) -> u128 {
        self._id
    }

    fn id(&self) -> u128 {
        self._id
    }
}

} // verus!
