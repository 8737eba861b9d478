use vstd::prelude::*;

use crate::models::tables::NewTable;
use crate::models::tables::Table;
use crate::repo::error::RepoErrorModel;
use crate::repo::repository::entry_of;
use crate::repo::repository::has_id;
use crate::repo::repository::insert_one;
use crate::repo::repository::query_all;
use crate::repo::repository::query_one;
use crate::repo::repository::Repository;
use crate::services::error::service_err_of;
use crate::services::error::ServiceError;

verus! {

/// Create a table under a caller-supplied fresh identifier. An identifier
/// already in use is a conflict; the store is then left untouched.
pub fn add_table(repo: &mut Repository, data: NewTable, id: u128) -> (r: Result<
    Table,
    ServiceError,
>)
    requires
        old(repo).inv(),
    ensures
        final(repo).inv(),
        final(repo).waiters == old(repo).waiters,
        final(repo).categories == old(repo).categories,
        final(repo).products == old(repo).products,
        final(repo).orders == old(repo).orders,
        ({
            if has_id(old(repo).tables@, id) {
                final(repo).tables@ == old(repo).tables@ && (r matches Err(e) && e@
                    == service_err_of(RepoErrorModel::Conflict))
            } else {
                r matches Ok(t) && t == (Table {
                    _id: id,
                    name: data.name,
                    x: data.x,
                    y: data.y,
                    level: data.level,
                }) && final(repo).tables@ == old(repo).tables@.push(t)
            }
        }),
{
    let t = Table { _id: id, name: data.name, x: data.x, y: data.y, level: data.level };
    match insert_one(&mut repo.tables, t.clone()) {
        Ok(()) => Ok(t),
        Err(e) => Err(ServiceError::of_repo_error(&e)),
    }
}

/// Look a table up by identifier.
pub fn get_table(repo: &Repository, id: &u128) -> (r: Result<Table, ServiceError>)
    requires
        repo.inv(),
    ensures
        match r {
            Ok(t) => has_id(repo.tables@, *id) && t == entry_of(repo.tables@, *id),
            Err(e) => !has_id(repo.tables@, *id) && e@ == service_err_of(
                RepoErrorModel::IdNotFound(*id),
            ),
        },
{
    match query_one(&repo.tables, id) {
        Ok(t) => Ok(t),
        Err(e) => Err(ServiceError::of_repo_error(&e)),
    }
}

/// List every table, in scan order.
pub fn get_all_tables(repo: &Repository) -> (r: Vec<Table>)
    ensures
        r@ == repo.tables@,
{
    let r = query_all(&repo.tables);
    proof {
        assert(r@ =~= repo.tables@);
    }
    r
}

} // verus!
