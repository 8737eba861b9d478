use vstd::prelude::*;

use crate::models::categories::Category;
use crate::models::categories::NewCategory;
use crate::repo::error::RepoErrorModel;
use crate::repo::repository::entry_of;
use crate::repo::repository::find_index;
use crate::repo::repository::has_id;
use crate::repo::repository::insert_one;
use crate::repo::repository::lemma_unique_entry;
use crate::repo::repository::query_all;
use crate::repo::repository::Repository;
use crate::services::error::service_err_of;
use crate::services::error::ServiceError;

verus! {

/// Create a category under a caller-supplied fresh identifier. An
/// identifier already in use is a conflict; the store is then left
/// untouched.
pub fn add_category(repo: &mut Repository, data: NewCategory, id: u128) -> (r: Result<
    Category,
    ServiceError,
>)
    requires
        old(repo).inv(),
    ensures
        final(repo).inv(),
        final(repo).waiters == old(repo).waiters,
        final(repo).tables == old(repo).tables,
        final(repo).products == old(repo).products,
        final(repo).orders == old(repo).orders,
        ({
            if has_id(old(repo).categories@, id) {
                final(repo).categories@ == old(repo).categories@ && (r matches Err(e) && e@
                    == service_err_of(RepoErrorModel::Conflict))
            } else {
                r matches Ok(c) && c == (Category {
                    _id: id,
                    name: data.name,
                    icon: data.icon,
                    color: data.color,
                }) && final(repo).categories@ == old(repo).categories@.push(c)
            }
        }),
{
    let c = Category { _id: id, name: data.name, icon: data.icon, color: data.color };
    match insert_one(&mut repo.categories, c.clone()) {
        Ok(()) => Ok(c),
        Err(e) => Err(ServiceError::of_repo_error(&e)),
    }
}

/// Look a category up by identifier; an absent identifier yields no
/// value rather than an error.
pub fn get_category(repo: &Repository, id: &u128) -> (r: Option<Category>)
    requires
        repo.inv(),
    ensures
        match r {
            Some(c) => has_id(repo.categories@, *id) && c == entry_of(repo.categories@, *id),
            None => !has_id(repo.categories@, *id),
        },
{
    match find_index(&repo.categories, *id) {
        Some(i) => {
            proof {
                lemma_unique_entry(repo.categories@, i as int);
            }
            Some(repo.categories[i].clone())
        },
        None => None,
    }
}

/// List every category, in scan order.
pub fn get_all_categories(repo: &Repository) -> (r: Vec<Category>)
    ensures
        r@ == repo.categories@,
{
    let r = query_all(&repo.categories);
    proof {
        assert(r@ =~= repo.categories@);
    }
    r
}

} // verus!
