use vstd::prelude::*;

use crate::models::categories::Category;
use crate::models::products::NewProduct;
use crate::models::products::Product;
use crate::models::products::ProductAPI;
use crate::models::Entity;
use crate::repo::error::RepoError;
use crate::repo::error::RepoErrorModel;
use crate::repo::repository::entry_of;
use crate::repo::repository::find_index;
use crate::repo::repository::has_id;
use crate::repo::repository::insert_one;
use crate::repo::repository::lemma_unique_entry;
use crate::repo::repository::Repository;
use crate::services::error::service_err_of;
use crate::services::error::ServiceError;

verus! {

/// Whether product `k` names a category that does not resolve.
pub open spec fn product_cat_missing_at(
    products: Seq<Product>,
    categories: Seq<Category>,
    k: int,
) -> bool {
    !has_id(categories, products[k].category_id)
}

/// Create a product under a caller-supplied fresh identifier. An
/// identifier already in use is a conflict; the store is then left
/// untouched. The owning category is not checked at write time; it must
/// resolve at read-composition time.
pub fn add_product(repo: &mut Repository, data: NewProduct, id: u128) -> (r: Result<
    Product,
    ServiceError,
>)
    requires
        old(repo).inv(),
    ensures
        final(repo).inv(),
        final(repo).waiters == old(repo).waiters,
        final(repo).tables == old(repo).tables,
        final(repo).categories == old(repo).categories,
        final(repo).orders == old(repo).orders,
        ({
            if has_id(old(repo).products@, id) {
                final(repo).products@ == old(repo).products@ && (r matches Err(e) && e@
                    == service_err_of(RepoErrorModel::Conflict))
            } else {
                r matches Ok(p) && p == (Product {
                    _id: id,
                    name: data.name,
                    price: data.price,
                    category_id: data.category_id,
                }) && final(repo).products@ == old(repo).products@.push(p)
            }
        }),
{
    let p = Product { _id: id, name: data.name, price: data.price, category_id: data.category_id };
    match insert_one(&mut repo.products, p.clone()) {
        Ok(()) => Ok(p),
        Err(e) => Err(ServiceError::of_repo_error(&e)),
    }
}

/// Look a product up by identifier; an absent identifier yields no value
/// rather than an error.
pub fn get_product(repo: &Repository, id: &u128) -> (r: Option<Product>)
    requires
        repo.inv(),
    ensures
        match r {
            Some(p) => has_id(repo.products@, *id) && p == entry_of(repo.products@, *id),
            None => !has_id(repo.products@, *id),
        },
{
    match find_index(&repo.products, *id) {
        Some(i) => {
            proof {
                lemma_unique_entry(repo.products@, i as int);
            }
            Some(repo.products[i].clone())
        },
        None => None,
    }
}

/// List every product with its category resolved, in scan order. The
/// first product whose category does not resolve aborts the listing.
#[verifier::loop_isolation(false)]
pub fn get_all_products(repo: &Repository) -> (r: Result<Vec<ProductAPI>, ServiceError>)
    requires
        repo.inv(),
    ensures
        match r {
            Ok(res) => res@.len() == repo.products@.len() && (forall|k: int|
                0 <= k < repo.products@.len() ==> !(#[trigger] product_cat_missing_at(
                    repo.products@,
                    repo.categories@,
                    k,
                ))) && (forall|k: int|
                0 <= k < repo.products@.len() ==> (#[trigger] res@[k]) == (ProductAPI {
                    _id: repo.products@[k]._id,
                    name: repo.products@[k].name,
                    price: repo.products@[k].price,
                    category: entry_of(repo.categories@, repo.products@[k].category_id),
                })),
            Err(e) => exists|k: int|
                0 <= k < repo.products@.len() && #[trigger] product_cat_missing_at(
                    repo.products@,
                    repo.categories@,
                    k,
                ) && (forall|j: int|
                    0 <= j < k ==> !product_cat_missing_at(repo.products@, repo.categories@, j))
                    && e@ == service_err_of(
                    RepoErrorModel::IdNotFound(repo.products@[k].category_id),
                ),
        },
{
    let mut res: Vec<ProductAPI> = Vec::new();
    let mut i: usize = 0;
    while i < repo.products.len()
        invariant
            i <= repo.products@.len(),
            res@.len() == i,
            forall|k: int|
                0 <= k < i ==> !(#[trigger] product_cat_missing_at(
                    repo.products@,
                    repo.categories@,
                    k,
                )),
            forall|k: int|
                0 <= k < i ==> (#[trigger] res@[k]) == (ProductAPI {
                    _id: repo.products@[k]._id,
                    name: repo.products@[k].name,
                    price: repo.products@[k].price,
                    category: entry_of(repo.categories@, repo.products@[k].category_id),
                }),
        decreases repo.products@.len() - i,
    {
        let p = &repo.products[i];
        let ci = match find_index(&repo.categories, p.category_id) {
            Some(c) => c,
            None => {
                proof {
                    assert(product_cat_missing_at(repo.products@, repo.categories@, i as int));
                }
                return Err(
                    ServiceError::of_repo_error(&RepoError::IdNotFound(p.category_id)),
                );
            },
        };
        proof {
            lemma_unique_entry(repo.categories@, ci as int);
        }
        res.push(
            ProductAPI {
                _id: p.id(),
                name: p.name.clone(),
                price: p.price,
                category: repo.categories[ci].clone(),
            },
        );
        i = i + 1;
    }
    Ok(res)
}

} // verus!
