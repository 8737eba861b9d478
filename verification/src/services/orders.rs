use vstd::prelude::*;

use crate::models::orders::NewOrder;
use crate::models::orders::Order;
use crate::models::orders::OrderAPI;
use crate::models::products::AddProductQuery;
use crate::repo::error::RepoErrorModel;
use crate::repo::orders::lines_with_added;
use crate::repo::orders::lines_with_removed;
use crate::repo::orders::orders_of_table;
use crate::repo::orders::orders_of_waiter;
use crate::repo::repository::delete_one;
use crate::repo::repository::entry_of;
use crate::repo::repository::has_id;
use crate::repo::repository::idx_of;
use crate::repo::repository::insert_one;
use crate::repo::repository::Repository;
use crate::services::error::service_err_of;
use crate::services::error::ServiceError;

verus! {

/// The composition contract as the boundary sees it: the same view on
/// success, the store error translated on failure.
pub open spec fn service_composes_to(
    s: Repository,
    id: u128,
    r: Result<OrderAPI, ServiceError>,
) -> bool {
    if s.compose_ok(id) {
        r matches Ok(v) && s.view_of(id, v)
    } else {
        r matches Err(e) && e@ == service_err_of(s.compose_err(id))
    }
}

/// Create an order under a caller-supplied fresh identifier, owned by the
/// given waiter and table, with no lines and the given creation
/// timestamp. The owning references are not checked at write time; they
/// must resolve at read-composition time.
pub fn add_order(repo: &mut Repository, data: NewOrder, id: u128, created_at: i64) -> (r: Result<
    Order,
    ServiceError,
>)
    requires
        old(repo).inv(),
    ensures
        final(repo).inv(),
        final(repo).waiters == old(repo).waiters,
        final(repo).tables == old(repo).tables,
        final(repo).categories == old(repo).categories,
        final(repo).products == old(repo).products,
        ({
            if has_id(old(repo).orders@, id) {
                final(repo).orders@ == old(repo).orders@ && (r matches Err(e) && e@
                    == service_err_of(RepoErrorModel::Conflict))
            } else {
                &&& final(repo).orders@.len() == old(repo).orders@.len() + 1
                &&& (forall|j: int|
                    0 <= j < old(repo).orders@.len() ==> (#[trigger] final(repo).orders@[j])
                        == old(repo).orders@[j])
                &&& final(repo).orders@.last()._id == id
                &&& final(repo).orders@.last().waiter_id == data.waiter_id
                &&& final(repo).orders@.last().table_id == data.table_id
                &&& final(repo).orders@.last().created_at == created_at
                &&& final(repo).orders@.last().products@.len() == 0
                &&& (r matches Ok(o) && o._id == id && o.waiter_id == data.waiter_id && o.table_id
                    == data.table_id && o.created_at == created_at && o.products@.len() == 0)
            }
        }),
{
    let o = Order {
        _id: id,
        waiter_id: data.waiter_id,
        table_id: data.table_id,
        products: Vec::new(),
        created_at,
    };
    match insert_one(&mut repo.orders, o) {
        Ok(()) => {
            let ret = Order {
                _id: id,
                waiter_id: data.waiter_id,
                table_id: data.table_id,
                products: Vec::new(),
                created_at,
            };
            Ok(ret)
        },
        Err(e) => Err(ServiceError::of_repo_error(&e)),
    }
}

/// Read the fully resolved view of one order.
pub fn get_order(repo: &Repository, id: &u128) -> (r: Result<OrderAPI, ServiceError>)
    requires
        repo.inv(),
    ensures
        service_composes_to(*repo, *id, r),
{
    match repo.query_order_api(id) {
        Ok(v) => Ok(v),
        Err(e) => Err(ServiceError::of_repo_error(&e)),
    }
}

/// List the views of every order, in scan order; the first failing
/// composition aborts the listing.
pub fn get_all_orders(repo: &Repository) -> (r: Result<Vec<OrderAPI>, ServiceError>)
    requires
        repo.inv(),
    ensures
        match r {
            Ok(res) => res@.len() == repo.orders@.len() && (forall|k: int|
                0 <= k < repo.orders@.len() ==> repo.compose_ok((#[trigger] repo.orders@[k])._id)
                    && repo.view_of(repo.orders@[k]._id, res@[k])),
            Err(e) => exists|k: int|
                0 <= k < repo.orders@.len() && !repo.compose_ok((#[trigger] repo.orders@[k])._id)
                    && (forall|j: int|
                    0 <= j < k ==> repo.compose_ok((#[trigger] repo.orders@[j])._id)) && e@
                    == service_err_of(repo.compose_err(repo.orders@[k]._id)),
        },
{
    match repo.query_all_orders_api() {
        Ok(res) => Ok(res),
        Err(e) => Err(ServiceError::of_repo_error(&e)),
    }
}

/// List the views of the orders owned by one waiter, in scan order.
pub fn get_orders_by_waiter(repo: &Repository, id: &u128) -> (r: Result<Vec<OrderAPI>, ServiceError>)
    requires
        repo.inv(),
    ensures
        match r {
            Ok(res) => res@.len() == orders_of_waiter(repo.orders@, *id).len() && (forall|k: int|
                0 <= k < orders_of_waiter(repo.orders@, *id).len() ==> repo.compose_ok(
                    #[trigger] orders_of_waiter(repo.orders@, *id)[k],
                ) && repo.view_of(orders_of_waiter(repo.orders@, *id)[k], res@[k])),
            Err(e) => exists|k: int|
                0 <= k < orders_of_waiter(repo.orders@, *id).len() && !repo.compose_ok(
                    #[trigger] orders_of_waiter(repo.orders@, *id)[k],
                ) && (forall|j: int|
                    0 <= j < k ==> repo.compose_ok(orders_of_waiter(repo.orders@, *id)[j])) && e@
                    == service_err_of(repo.compose_err(orders_of_waiter(repo.orders@, *id)[k])),
        },
{
    match repo.query_orders_by_waiter(id) {
        Ok(res) => Ok(res),
        Err(e) => Err(ServiceError::of_repo_error(&e)),
    }
}

/// List the views of the orders placed at one table, in scan order.
pub fn get_orders_by_table(repo: &Repository, id: &u128) -> (r: Result<Vec<OrderAPI>, ServiceError>)
    requires
        repo.inv(),
    ensures
        match r {
            Ok(res) => res@.len() == orders_of_table(repo.orders@, *id).len() && (forall|k: int|
                0 <= k < orders_of_table(repo.orders@, *id).len() ==> repo.compose_ok(
                    #[trigger] orders_of_table(repo.orders@, *id)[k],
                ) && repo.view_of(orders_of_table(repo.orders@, *id)[k], res@[k])),
            Err(e) => exists|k: int|
                0 <= k < orders_of_table(repo.orders@, *id).len() && !repo.compose_ok(
                    #[trigger] orders_of_table(repo.orders@, *id)[k],
                ) && (forall|j: int|
                    0 <= j < k ==> repo.compose_ok(orders_of_table(repo.orders@, *id)[j])) && e@
                    == service_err_of(repo.compose_err(orders_of_table(repo.orders@, *id)[k])),
        },
{
    match repo.query_orders_by_table(id) {
        Ok(res) => Ok(res),
        Err(e) => Err(ServiceError::of_repo_error(&e)),
    }
}

/// Add one unit of the given product to an order and return the fresh
/// view. The mutation persists even when the following composition
/// fails; a line already at the maximum representable quantity is
/// refused and mutates nothing.
pub fn add_product_to_order(repo: &mut Repository, id: &u128, data: AddProductQuery) -> (r: Result<
    OrderAPI,
    ServiceError,
>)
    requires
        old(repo).inv(),
    ensures
        final(repo).inv(),
        final(repo).same_refs(old(repo)),
        ({
            let orders0 = old(repo).orders@;
            if !has_id(orders0, *id) {
                final(repo).orders@ == orders0 && service_composes_to(*final(repo), *id, r)
            } else {
                let k = idx_of(orders0, *id);
                let lines0 = orders0[k].products@;
                if has_id(lines0, data.product_id) && entry_of(lines0, data.product_id).quantity
                    == u64::MAX {
                    final(repo).orders@ == orders0 && (r matches Err(e) && e@ == service_err_of(
                        RepoErrorModel::OutOfRange,
                    ))
                } else {
                    &&& final(repo).orders@.len() == orders0.len()
                    &&& (forall|j: int|
                        0 <= j < orders0.len() && j != k
                            ==> (#[trigger] final(repo).orders@[j]) == orders0[j])
                    &&& final(repo).orders@[k]._id == orders0[k]._id
                    &&& final(repo).orders@[k].waiter_id == orders0[k].waiter_id
                    &&& final(repo).orders@[k].table_id == orders0[k].table_id
                    &&& final(repo).orders@[k].created_at == orders0[k].created_at
                    &&& final(repo).orders@[k].products@ == lines_with_added(
                        lines0,
                        data.product_id,
                    )
                    &&& service_composes_to(*final(repo), *id, r)
                }
            }
        }),
{
    match repo.order_add_product(id, &data.product_id) {
        Ok(v) => Ok(v),
        Err(e) => Err(ServiceError::of_repo_error(&e)),
    }
}

/// Remove one unit of the given product from an order, prune the line
/// when its quantity reaches zero, and return the fresh view. A missing
/// order or line mutates nothing; the composition error, if any, still
/// surfaces.
pub fn remove_product_from_order(repo: &mut Repository, id: &u128, data: AddProductQuery) -> (r:
    Result<OrderAPI, ServiceError>)
    requires
        old(repo).inv(),
    ensures
        final(repo).inv(),
        final(repo).same_refs(old(repo)),
        service_composes_to(*final(repo), *id, r),
        ({
            let orders0 = old(repo).orders@;
            if !has_id(orders0, *id) {
                final(repo).orders@ == orders0
            } else {
                let k = idx_of(orders0, *id);
                let lines0 = orders0[k].products@;
                &&& final(repo).orders@.len() == orders0.len()
                &&& (forall|j: int|
                    0 <= j < orders0.len() && j != k ==> (#[trigger] final(repo).orders@[j])
                        == orders0[j])
                &&& final(repo).orders@[k]._id == orders0[k]._id
                &&& final(repo).orders@[k].waiter_id == orders0[k].waiter_id
                &&& final(repo).orders@[k].table_id == orders0[k].table_id
                &&& final(repo).orders@[k].created_at == orders0[k].created_at
                &&& final(repo).orders@[k].products@ == lines_with_removed(
                    lines0,
                    data.product_id,
                )
            }
        }),
{
    match repo.order_remove_product(id, &data.product_id) {
        Ok(v) => Ok(v),
        Err(e) => Err(ServiceError::of_repo_error(&e)),
    }
}

/// Compose an order's view; when it has no lines, delete the order and
/// report `true`, else leave it untouched and report `false`. A failing
/// composition aborts the check and mutates nothing.
pub fn check_empty_order(repo: &mut Repository, id: &u128) -> (r: Result<bool, ServiceError>)
    requires
        old(repo).inv(),
    ensures
        final(repo).inv(),
        final(repo).same_refs(old(repo)),
        ({
            let s0 = *old(repo);
            if !s0.compose_ok(*id) {
                final(repo).orders@ == s0.orders@ && (r matches Err(e) && e@ == service_err_of(
                    s0.compose_err(*id),
                ))
            } else {
                let o = entry_of(s0.orders@, *id);
                if o.products@.len() > 0 {
                    final(repo).orders@ == s0.orders@ && r == Result::<bool, ServiceError>::Ok(
                        false,
                    )
                } else {
                    &&& r == Result::<bool, ServiceError>::Ok(true)
                    &&& final(repo).orders@ == s0.orders@.remove(idx_of(s0.orders@, *id))
                    &&& !has_id(final(repo).orders@, *id)
                    &&& !final(repo).compose_ok(*id)
                    &&& final(repo).compose_err(*id) == RepoErrorModel::IdNotFound(*id)
                }
            }
        }),
{
    let view = match repo.query_order_api(id) {
        Ok(v) => v,
        Err(e) => {
            return Err(ServiceError::of_repo_error(&e));
        },
    };
    if view.products.len() > 0 {
        return Ok(false);
    }
    let res = delete_one(&mut repo.orders, id);
    proof {
        let orders0 = old(repo).orders@;
        let k = idx_of(orders0, *id);
        assert forall|p: int| 0 <= p < repo.orders@.len() implies (
        #[trigger] repo.orders@[p]).lines_wf() by {
            assert(repo.orders@[p] == if p < k {
                orders0[p]
            } else {
                orders0[p + 1]
            });
        }
    }
    match res {
        Ok(()) => Ok(true),
        Err(e) => Err(ServiceError::of_repo_error(&e)),
    }
}

} // verus!
