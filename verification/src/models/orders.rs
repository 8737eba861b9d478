use vstd::prelude::*;

use crate::models::products::ProductIdWithQuantity;
use crate::models::products::ProductInOrder;
use crate::models::tables::TableAPI;
use crate::models::tables::TableId;
use crate::models::waiters::WaiterId;
use crate::models::waiters::WaiterInOrder;
use crate::models::CollectionName;
use crate::models::Entity;

verus! {

pub type OrderId = u128;

/// Input for creating an order: the owning waiter and table.
#[derive(Clone, Copy, Debug, PartialEq)]
pub struct NewOrder {
    pub waiter_id: WaiterId,
    pub table_id: TableId,
}

/// An order record: an ordered list of product lines, plus a creation
/// timestamp in milliseconds that is set once and never mutated.
#[derive(Debug, PartialEq)]
pub struct Order {
    pub _id: OrderId,
    pub waiter_id: WaiterId,
    pub table_id: TableId,
    pub products: Vec<ProductIdWithQuantity>,
    pub created_at: i64,
}

impl CollectionName for Order {
    fn collection_name() -> &'static str {
        "orders"
    }
}

impl Entity for Order {
    open spec fn entity_id(&self) -> u128 {
        self._id
    }

    fn id(&self) -> u128 {
        self._id
    }
}

impl Order {
    /// Well-formedness of the line list: no line with quantity below 1,
    /// and no two lines for the same product.
    pub open spec fn lines_wf(&self) -> bool {
        &&& forall|i: int|
            0 <= i < self.products@.len() ==> #[trigger] self.products@[i].quantity >= 1
        &&& forall|i: int, j: int|
            0 <= i < j < self.products@.len() ==> self.products@[i]._id != self.products@[j]._id
    }
}

/// The fully resolved, denormalized read view of an order. It is composed
/// on demand and never stored; `sum` is the total of unit price times
/// quantity over all lines.
#[derive(Debug, PartialEq)]
pub struct OrderAPI {
    pub _id: OrderId,
    pub waiter: WaiterInOrder,
    pub table: TableAPI,
    pub products: Vec<ProductInOrder>,
    pub sum: u64,
    pub created_at: i64,
}

/// The total of `price * quantity` over a sequence of resolved lines.
pub open spec fn view_sum(s: Seq<ProductInOrder>) -> int
    decreases s.len(),
{
    if s.len() == 0 {
        0
    } else {
        view_sum(s.drop_last()) + s.last().price * s.last().quantity
    }
}

} // verus!
