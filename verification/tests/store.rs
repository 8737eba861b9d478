use std::collections::HashMap;

use restaurant_pos::ids::uuid_text_of;
use restaurant_pos::models::categories::NewCategory;
use restaurant_pos::models::products::NewProduct;
use restaurant_pos::models::products::Product;
use restaurant_pos::models::tables::NewTable;
use restaurant_pos::repo::error::RepoError;
use restaurant_pos::repo::orders::count_frequency;
use restaurant_pos::repo::repository::delete_one;
use restaurant_pos::repo::repository::insert_one;
use restaurant_pos::repo::repository::query_all;
use restaurant_pos::repo::repository::query_many;
use restaurant_pos::repo::repository::query_one;
use restaurant_pos::repo::repository::Repository;
use restaurant_pos::services::categories::add_category;
use restaurant_pos::services::categories::get_all_categories;
use restaurant_pos::services::categories::get_category;
use restaurant_pos::services::error::ServiceError;
use restaurant_pos::services::products::add_product;
use restaurant_pos::services::products::get_all_products;
use restaurant_pos::services::products::get_product;
use restaurant_pos::services::tables::add_table;
use restaurant_pos::services::tables::get_all_tables;
use restaurant_pos::services::tables::get_table;

fn product(id: u128, name: &str, price: u64, category_id: u128) -> Product {
    Product { _id: id, name: name.to_string(), price, category_id }
}

#[test]
fn point_lookup_finds_or_names_the_missing_identifier() {
    let mut repo = Repository::new();
    insert_one(&mut repo.products, product(1, "Tea", 250, 9)).unwrap();
    let found: Product = query_one(&repo.products, &1).unwrap();
    assert_eq!(found, product(1, "Tea", 250, 9));
    let err = query_one(&repo.products, &2).unwrap_err();
    assert_eq!(err, RepoError::IdNotFound(2));
}

#[test]
fn insert_with_duplicate_identifier_is_a_conflict() {
    let mut repo = Repository::new();
    insert_one(&mut repo.products, product(1, "Tea", 250, 9)).unwrap();
    let err = insert_one(&mut repo.products, product(1, "Copy", 1, 9)).unwrap_err();
    assert_eq!(err, RepoError::Conflict);
    assert_eq!(repo.products.len(), 1);
    assert_eq!(repo.products[0].name, "Tea");
}

#[test]
fn multi_lookup_is_all_or_nothing_and_lists_the_missing_set() {
    let mut repo = Repository::new();
    insert_one(&mut repo.products, product(1, "Tea", 250, 9)).unwrap();
    insert_one(&mut repo.products, product(2, "Cake", 475, 9)).unwrap();

    let ok: Vec<Product> = query_many(&repo.products, &vec![2, 1]).unwrap();
    assert_eq!(ok.len(), 2);
    assert_eq!(ok[0]._id, 2);
    assert_eq!(ok[1]._id, 1);

    // partial results are never returned: the call fails, carrying
    // exactly the identifiers that did not resolve, in request order
    let err = query_many::<Product>(&repo.products, &vec![1, 7, 2, 9]).unwrap_err();
    assert_eq!(err, RepoError::IdsNotFound(vec![7, 9]));
}

#[test]
fn full_scan_copies_everything_in_scan_order() {
    let mut repo = Repository::new();
    assert_eq!(query_all(&repo.products).len(), 0);
    insert_one(&mut repo.products, product(1, "Tea", 250, 9)).unwrap();
    insert_one(&mut repo.products, product(2, "Cake", 475, 9)).unwrap();
    let all = query_all(&repo.products);
    assert_eq!(all.len(), 2);
    assert_eq!(all[0], product(1, "Tea", 250, 9));
    assert_eq!(all[1], product(2, "Cake", 475, 9));
}

#[test]
fn delete_removes_and_tolerates_absent_identifiers() {
    let mut repo = Repository::new();
    insert_one(&mut repo.products, product(1, "Tea", 250, 9)).unwrap();
    insert_one(&mut repo.products, product(2, "Cake", 475, 9)).unwrap();
    delete_one(&mut repo.products, &1).unwrap();
    assert_eq!(repo.products.len(), 1);
    assert_eq!(repo.products[0]._id, 2);
    delete_one(&mut repo.products, &1).unwrap();
    assert_eq!(repo.products.len(), 1);
}

#[test]
fn count_frequency_counts_occurrences_by_value() {
    let m: HashMap<u128, i32> = count_frequency(vec![5, 7, 5, 5, 11, 7]);
    assert_eq!(m.len(), 3);
    assert_eq!(m[&5], 3);
    assert_eq!(m[&7], 2);
    assert_eq!(m[&11], 1);
    let empty: HashMap<u128, i32> = count_frequency(vec![]);
    assert_eq!(empty.len(), 0);
}

#[test]
fn repo_errors_name_the_unresolved_identifiers() {
    assert_eq!(
        RepoError::IdNotFound(1).message(),
        "Id not found: 00000000-0000-0000-0000-000000000001"
    );
    assert_eq!(
        RepoError::IdsNotFound(vec![1, 255]).message(),
        "Ids not found: 00000000-0000-0000-0000-000000000001, \
         00000000-0000-0000-0000-0000000000ff"
    );
    assert_eq!(RepoError::Conflict.message(), "Uniqueness constraint violated");
    assert_eq!(RepoError::OutOfRange.message(), "Value out of range");
    assert_eq!(RepoError::IdInvalidUuid.message(), "Invalid UUID id");
}

#[test]
fn tables_roundtrip_through_the_store() {
    let mut repo = Repository::new();
    let t = add_table(&mut repo, NewTable { name: "T9".to_string(), x: -1, y: 4, level: 2 }, 1)
        .unwrap();
    assert_eq!(get_table(&repo, &1).unwrap(), t);
    assert_eq!(
        get_table(&repo, &2).unwrap_err(),
        ServiceError::NotFound(format!("Id not found: {}", uuid_text_of(2)))
    );
    assert_eq!(get_all_tables(&repo).len(), 1);
}

#[test]
fn categories_roundtrip_and_report_absence_as_none() {
    let mut repo = Repository::new();
    let c = add_category(
        &mut repo,
        NewCategory {
            name: "Food".to_string(),
            icon: "plate".to_string(),
            color: "#fff".to_string(),
        },
        1,
    )
    .unwrap();
    assert_eq!(get_category(&repo, &1), Some(c));
    assert_eq!(get_category(&repo, &2), None);
    assert_eq!(get_all_categories(&repo).len(), 1);
}

#[test]
fn products_list_with_categories_resolved() {
    let mut repo = Repository::new();
    add_category(
        &mut repo,
        NewCategory {
            name: "Food".to_string(),
            icon: "plate".to_string(),
            color: "#fff".to_string(),
        },
        1,
    )
    .unwrap();
    let p = add_product(
        &mut repo,
        NewProduct { name: "Tea".to_string(), price: 250, category_id: 1 },
        2,
    )
    .unwrap();
    assert_eq!(get_product(&repo, &2), Some(p));
    assert_eq!(get_product(&repo, &3), None);

    let listed = get_all_products(&repo).unwrap();
    assert_eq!(listed.len(), 1);
    assert_eq!(listed[0]._id, 2);
    assert_eq!(listed[0].price, 250);
    assert_eq!(listed[0].category.name, "Food");
}

#[test]
fn product_listing_fails_on_an_unresolvable_category() {
    let mut repo = Repository::new();
    add_product(
        &mut repo,
        NewProduct { name: "Orphan".to_string(), price: 100, category_id: 777 },
        1,
    )
    .unwrap();
    let err = get_all_products(&repo).unwrap_err();
    assert_eq!(
        err,
        ServiceError::NotFound(format!("Id not found: {}", uuid_text_of(777)))
    );
}
