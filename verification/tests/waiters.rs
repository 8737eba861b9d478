use restaurant_pos::models::waiters::NewWaiter;
use restaurant_pos::models::waiters::Waiter;
use restaurant_pos::repo::error::RepoError;
use restaurant_pos::repo::repository::insert_waiter;
use restaurant_pos::repo::repository::Repository;
use restaurant_pos::services::error::ServiceError;
use restaurant_pos::services::waiters::add_waiter;
use restaurant_pos::services::waiters::delete_waiter;
use restaurant_pos::services::waiters::get_all_waiters;
use restaurant_pos::services::waiters::get_waiter;

#[test]
fn test() {
    // a created waiter is read back, by code, exactly as written
    let mut repo = Repository::new();
    let waiter = add_waiter(
        &mut repo,
        NewWaiter { name: "Kacper".to_string(), code: "1111".to_string() },
        1,
    )
    .unwrap();
    let response = get_waiter(&repo, &"1111".to_string()).unwrap();
    assert_eq!(response, waiter);
}

#[test]
fn duplicate_code_is_a_conflict_and_original_unaffected() {
    let mut repo = Repository::new();
    add_waiter(&mut repo, NewWaiter { name: "Ann".to_string(), code: "1111".to_string() }, 1)
        .unwrap();
    let err = add_waiter(
        &mut repo,
        NewWaiter { name: "Bob".to_string(), code: "1111".to_string() },
        2,
    )
    .unwrap_err();
    assert_eq!(
        err,
        ServiceError::BadRequest("Uniqueness constraint violated".to_string())
    );
    // the original waiter is unaffected
    let w = get_waiter(&repo, &"1111".to_string()).unwrap();
    assert_eq!(w._id, 1);
    assert_eq!(w.name, "Ann");
    assert_eq!(get_all_waiters(&repo).len(), 1);
}

#[test]
fn duplicate_code_conflicts_at_the_store_too() {
    // the unique secondary index on the login code rejects the insert
    let mut repo = Repository::new();
    insert_waiter(
        &mut repo.waiters,
        Waiter { _id: 1, name: "Ann".to_string(), code: "1111".to_string() },
    )
    .unwrap();
    let err = insert_waiter(
        &mut repo.waiters,
        Waiter { _id: 2, name: "Bob".to_string(), code: "1111".to_string() },
    )
    .unwrap_err();
    assert_eq!(err, RepoError::Conflict);
    assert_eq!(repo.waiters.len(), 1);
    assert_eq!(repo.waiters[0].name, "Ann");
}

#[test]
fn unknown_code_reports_not_found_naming_it() {
    let repo = Repository::new();
    let err = get_waiter(&repo, &"9999".to_string()).unwrap_err();
    assert_eq!(
        err,
        ServiceError::NotFound("Waiter with code 9999 not found".to_string())
    );
}

#[test]
fn waiters_are_listed_in_insertion_order() {
    let mut repo = Repository::new();
    assert_eq!(get_all_waiters(&repo).len(), 0);
    add_waiter(&mut repo, NewWaiter { name: "Ann".to_string(), code: "1111".to_string() }, 1)
        .unwrap();
    add_waiter(&mut repo, NewWaiter { name: "Bob".to_string(), code: "2222".to_string() }, 2)
        .unwrap();
    let all = get_all_waiters(&repo);
    assert_eq!(all.len(), 2);
    assert_eq!(all[0].name, "Ann");
    assert_eq!(all[1].name, "Bob");
}

#[test]
fn deleted_waiter_is_gone_and_second_delete_is_a_no_op() {
    let mut repo = Repository::new();
    add_waiter(&mut repo, NewWaiter { name: "Ann".to_string(), code: "1111".to_string() }, 1)
        .unwrap();
    delete_waiter(&mut repo, &1).unwrap();
    assert!(get_waiter(&repo, &"1111".to_string()).is_err());
    assert_eq!(get_all_waiters(&repo).len(), 0);
    delete_waiter(&mut repo, &1).unwrap();
    assert_eq!(get_all_waiters(&repo).len(), 0);
}

#[test]
fn freed_code_can_be_reused() {
    let mut repo = Repository::new();
    add_waiter(&mut repo, NewWaiter { name: "Ann".to_string(), code: "1111".to_string() }, 1)
        .unwrap();
    delete_waiter(&mut repo, &1).unwrap();
    let w = add_waiter(
        &mut repo,
        NewWaiter { name: "Cleo".to_string(), code: "1111".to_string() },
        2,
    )
    .unwrap();
    assert_eq!(w._id, 2);
    assert_eq!(get_waiter(&repo, &"1111".to_string()).unwrap().name, "Cleo");
}

#[test]
fn service_errors_carry_status_and_message() {
    let not_found = ServiceError::NotFound(
        "Id not found: 00000000-0000-0000-0000-000000000001".to_string(),
    );
    assert_eq!(not_found.status_code(), 404);
    assert_eq!(
        not_found.message(),
        "Not Found: Id not found: 00000000-0000-0000-0000-000000000001"
    );

    let bad = ServiceError::BadRequest("Value out of range".to_string());
    assert_eq!(bad.status_code(), 400);
    assert_eq!(bad.message(), "Bad Request: Value out of range");

    let internal = ServiceError::InternalError("boom".to_string());
    assert_eq!(internal.status_code(), 500);
    assert_eq!(internal.message(), "Internal Server Error: boom");
}
