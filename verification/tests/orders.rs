use restaurant_pos::ids::uuid_text_of;
use restaurant_pos::models::categories::NewCategory;
use restaurant_pos::models::orders::NewOrder;
use restaurant_pos::models::orders::Order;
use restaurant_pos::models::products::AddProductQuery;
use restaurant_pos::models::products::NewProduct;
use restaurant_pos::models::products::ProductIdWithQuantity;
use restaurant_pos::models::tables::NewTable;
use restaurant_pos::models::waiters::NewWaiter;
use restaurant_pos::repo::repository::Repository;
use restaurant_pos::services::categories::add_category;
use restaurant_pos::services::error::ServiceError;
use restaurant_pos::services::orders::add_order;
use restaurant_pos::services::orders::add_product_to_order;
use restaurant_pos::services::orders::check_empty_order;
use restaurant_pos::services::orders::get_all_orders;
use restaurant_pos::services::orders::get_order;
use restaurant_pos::services::orders::get_orders_by_table;
use restaurant_pos::services::orders::get_orders_by_waiter;
use restaurant_pos::services::orders::remove_product_from_order;
use restaurant_pos::services::products::add_product;
use restaurant_pos::services::tables::add_table;
use restaurant_pos::services::waiters::add_waiter;

fn base() -> Repository {
    let mut repo = Repository::new();
    add_category(
        &mut repo,
        NewCategory {
            name: "Drinks".to_string(),
            icon: "cup".to_string(),
            color: "#0000ff".to_string(),
        },
        1,
    )
    .unwrap();
    add_waiter(&mut repo, NewWaiter { name: "Ada".to_string(), code: "2222".to_string() }, 2)
        .unwrap();
    add_table(&mut repo, NewTable { name: "T2".to_string(), x: 1, y: 1, level: 1 }, 3).unwrap();
    add_product(&mut repo, NewProduct { name: "Tea".to_string(), price: 250, category_id: 1 }, 4)
        .unwrap();
    repo
}

#[test]
fn compose_missing_order_is_not_found() {
    let repo = base();
    let err = get_order(&repo, &999).unwrap_err();
    assert_eq!(
        err,
        ServiceError::NotFound(format!("Id not found: {}", uuid_text_of(999)))
    );
}

#[test]
fn compose_missing_waiter_fails_without_partial_view() {
    let mut repo = base();
    add_order(&mut repo, NewOrder { waiter_id: 777, table_id: 3 }, 10, 5).unwrap();
    let err = get_order(&repo, &10).unwrap_err();
    assert_eq!(
        err,
        ServiceError::NotFound(format!("Id not found: {}", uuid_text_of(777)))
    );
}

#[test]
fn compose_missing_table_fails() {
    let mut repo = base();
    add_order(&mut repo, NewOrder { waiter_id: 2, table_id: 777 }, 10, 5).unwrap();
    let err = get_order(&repo, &10).unwrap_err();
    assert_eq!(
        err,
        ServiceError::NotFound(format!("Id not found: {}", uuid_text_of(777)))
    );
}

#[test]
fn compose_missing_line_product_fails() {
    let mut repo = base();
    add_order(&mut repo, NewOrder { waiter_id: 2, table_id: 3 }, 10, 5).unwrap();
    // the line for an unknown product is appended, and the following
    // composition reports the all-or-nothing multi-lookup failure
    let err = add_product_to_order(&mut repo, &10, AddProductQuery { product_id: 999 })
        .unwrap_err();
    let expected = format!("Ids not found: {}", uuid_text_of(999));
    assert_eq!(err, ServiceError::NotFound(expected.clone()));
    let err = get_order(&repo, &10).unwrap_err();
    assert_eq!(err, ServiceError::NotFound(expected));
}

#[test]
fn compose_missing_category_fails() {
    let mut repo = base();
    add_product(
        &mut repo,
        NewProduct { name: "Orphan".to_string(), price: 100, category_id: 777 },
        5,
    )
    .unwrap();
    add_order(&mut repo, NewOrder { waiter_id: 2, table_id: 3 }, 10, 5).unwrap();
    let err = add_product_to_order(&mut repo, &10, AddProductQuery { product_id: 5 })
        .unwrap_err();
    assert_eq!(
        err,
        ServiceError::NotFound(format!("Id not found: {}", uuid_text_of(777)))
    );
}

#[test]
fn sum_is_exact_over_several_lines() {
    let mut repo = base();
    add_product(
        &mut repo,
        NewProduct { name: "Cake".to_string(), price: 475, category_id: 1 },
        5,
    )
    .unwrap();
    add_order(&mut repo, NewOrder { waiter_id: 2, table_id: 3 }, 10, 5).unwrap();
    // three teas and two cakes: 3 * 250 + 2 * 475 == 1700
    for _ in 0..3 {
        add_product_to_order(&mut repo, &10, AddProductQuery { product_id: 4 }).unwrap();
    }
    add_product_to_order(&mut repo, &10, AddProductQuery { product_id: 5 }).unwrap();
    let v = add_product_to_order(&mut repo, &10, AddProductQuery { product_id: 5 }).unwrap();
    assert_eq!(v.sum, 1700);
    assert_eq!(v.products.len(), 2);
    assert_eq!(v.products[0].quantity, 3);
    assert_eq!(v.products[1].quantity, 2);
}

#[test]
fn add_twice_yields_one_line_not_two() {
    let mut repo = base();
    add_order(&mut repo, NewOrder { waiter_id: 2, table_id: 3 }, 10, 5).unwrap();
    add_product_to_order(&mut repo, &10, AddProductQuery { product_id: 4 }).unwrap();
    add_product_to_order(&mut repo, &10, AddProductQuery { product_id: 4 }).unwrap();
    // inspect the stored order itself: one line, quantity 2
    assert_eq!(repo.orders.len(), 1);
    assert_eq!(repo.orders[0].products.len(), 1);
    assert_eq!(
        repo.orders[0].products[0],
        ProductIdWithQuantity { _id: 4, quantity: 2 }
    );
}

#[test]
fn remove_at_quantity_one_prunes_the_line() {
    let mut repo = base();
    add_order(&mut repo, NewOrder { waiter_id: 2, table_id: 3 }, 10, 5).unwrap();
    add_product_to_order(&mut repo, &10, AddProductQuery { product_id: 4 }).unwrap();
    remove_product_from_order(&mut repo, &10, AddProductQuery { product_id: 4 }).unwrap();
    // the line is gone, not present with quantity 0
    assert_eq!(repo.orders[0].products.len(), 0);
}

#[test]
fn remove_of_absent_line_is_a_no_op() {
    let mut repo = base();
    add_order(&mut repo, NewOrder { waiter_id: 2, table_id: 3 }, 10, 5).unwrap();
    add_product_to_order(&mut repo, &10, AddProductQuery { product_id: 4 }).unwrap();
    let v = remove_product_from_order(&mut repo, &10, AddProductQuery { product_id: 999 })
        .unwrap();
    assert_eq!(v.products.len(), 1);
    assert_eq!(v.products[0].quantity, 1);
    assert_eq!(repo.orders[0].products.len(), 1);
}

#[test]
fn check_empty_deletes_only_empty_orders() {
    let mut repo = base();
    add_order(&mut repo, NewOrder { waiter_id: 2, table_id: 3 }, 10, 5).unwrap();
    add_order(&mut repo, NewOrder { waiter_id: 2, table_id: 3 }, 11, 6).unwrap();
    add_product_to_order(&mut repo, &11, AddProductQuery { product_id: 4 }).unwrap();

    assert_eq!(check_empty_order(&mut repo, &11).unwrap(), false);
    assert!(get_order(&repo, &11).is_ok());

    assert_eq!(check_empty_order(&mut repo, &10).unwrap(), true);
    let err = get_order(&repo, &10).unwrap_err();
    assert_eq!(
        err,
        ServiceError::NotFound(format!("Id not found: {}", uuid_text_of(10)))
    );
}

#[test]
fn quantity_at_maximum_is_refused_and_store_untouched() {
    let mut repo = base();
    add_order(&mut repo, NewOrder { waiter_id: 2, table_id: 3 }, 10, 5).unwrap();
    repo.orders[0].products.push(ProductIdWithQuantity { _id: 4, quantity: u64::MAX });
    let err = add_product_to_order(&mut repo, &10, AddProductQuery { product_id: 4 })
        .unwrap_err();
    assert_eq!(err, ServiceError::BadRequest("Value out of range".to_string()));
    assert_eq!(repo.orders[0].products[0].quantity, u64::MAX);
}

#[test]
fn overflowing_total_is_out_of_range() {
    let mut repo = base();
    add_product(
        &mut repo,
        NewProduct { name: "Vault".to_string(), price: u64::MAX, category_id: 1 },
        6,
    )
    .unwrap();
    add_order(&mut repo, NewOrder { waiter_id: 2, table_id: 3 }, 10, 5).unwrap();
    add_product_to_order(&mut repo, &10, AddProductQuery { product_id: 6 }).unwrap();
    let err = add_product_to_order(&mut repo, &10, AddProductQuery { product_id: 6 })
        .unwrap_err();
    assert_eq!(err, ServiceError::BadRequest("Value out of range".to_string()));
}

#[test]
fn listings_follow_scan_order_and_filters() {
    let mut repo = base();
    add_waiter(&mut repo, NewWaiter { name: "Bo".to_string(), code: "3333".to_string() }, 7)
        .unwrap();
    add_table(&mut repo, NewTable { name: "T3".to_string(), x: 5, y: 5, level: 2 }, 8).unwrap();
    add_order(&mut repo, NewOrder { waiter_id: 2, table_id: 3 }, 10, 5).unwrap();
    add_order(&mut repo, NewOrder { waiter_id: 7, table_id: 3 }, 11, 6).unwrap();
    add_order(&mut repo, NewOrder { waiter_id: 2, table_id: 8 }, 12, 7).unwrap();

    let all = get_all_orders(&repo).unwrap();
    assert_eq!(all.len(), 3);
    assert_eq!(all[0]._id, 10);
    assert_eq!(all[1]._id, 11);
    assert_eq!(all[2]._id, 12);

    let by_waiter = get_orders_by_waiter(&repo, &2).unwrap();
    assert_eq!(by_waiter.len(), 2);
    assert_eq!(by_waiter[0]._id, 10);
    assert_eq!(by_waiter[1]._id, 12);

    let by_table = get_orders_by_table(&repo, &3).unwrap();
    assert_eq!(by_table.len(), 2);
    assert_eq!(by_table[0]._id, 10);
    assert_eq!(by_table[1]._id, 11);

    let none = get_orders_by_waiter(&repo, &999).unwrap();
    assert_eq!(none.len(), 0);
}

#[test]
fn listing_fails_when_one_order_does_not_compose() {
    let mut repo = base();
    add_order(&mut repo, NewOrder { waiter_id: 2, table_id: 3 }, 10, 5).unwrap();
    add_order(&mut repo, NewOrder { waiter_id: 777, table_id: 3 }, 11, 6).unwrap();
    let err = get_all_orders(&repo).unwrap_err();
    assert_eq!(
        err,
        ServiceError::NotFound(format!("Id not found: {}", uuid_text_of(777)))
    );
}

#[test]
fn duplicate_order_identifier_is_a_conflict() {
    let mut repo = base();
    add_order(&mut repo, NewOrder { waiter_id: 2, table_id: 3 }, 10, 5).unwrap();
    let err = add_order(&mut repo, NewOrder { waiter_id: 2, table_id: 3 }, 10, 6).unwrap_err();
    assert_eq!(
        err,
        ServiceError::BadRequest("Uniqueness constraint violated".to_string())
    );
    assert_eq!(repo.orders.len(), 1);
}

#[test]
fn creation_timestamp_is_kept_verbatim() {
    let mut repo = base();
    let o: Order =
        add_order(&mut repo, NewOrder { waiter_id: 2, table_id: 3 }, 10, -42).unwrap();
    assert_eq!(o.created_at, -42);
    let v = get_order(&repo, &10).unwrap();
    assert_eq!(v.created_at, -42);
}
