use restaurant_pos::ids::parse_uuid;
use restaurant_pos::ids::uuid_text_of;
use restaurant_pos::repo::error::RepoError;
use restaurant_pos::services::error::ServiceError;

#[test]
fn canonical_text_parses_to_its_value() {
    assert_eq!(parse_uuid("00000000-0000-0000-0000-000000000000").unwrap(), 0);
    assert_eq!(parse_uuid("00000000-0000-0000-0000-000000000001").unwrap(), 1);
    assert_eq!(
        parse_uuid("ffffffff-ffff-ffff-ffff-ffffffffffff").unwrap(),
        u128::MAX
    );
    assert_eq!(
        parse_uuid("00000000-0000-0000-0000-0000000000ff").unwrap(),
        255
    );
    assert_eq!(
        parse_uuid("67e55044-10b1-426f-9247-bb680e5fe0c8").unwrap(),
        0x67e5504410b1426f9247bb680e5fe0c8
    );
}

#[test]
fn either_letter_case_is_accepted() {
    let lower = parse_uuid("67e55044-10b1-426f-9247-bb680e5fe0c8").unwrap();
    let upper = parse_uuid("67E55044-10B1-426F-9247-BB680E5FE0C8").unwrap();
    assert_eq!(lower, upper);
}

#[test]
fn malformed_text_is_an_invalid_identifier() {
    // wrong length
    assert_eq!(parse_uuid("").unwrap_err(), RepoError::IdInvalidUuid);
    assert_eq!(parse_uuid("1234").unwrap_err(), RepoError::IdInvalidUuid);
    assert_eq!(
        parse_uuid("00000000-0000-0000-0000-00000000001").unwrap_err(),
        RepoError::IdInvalidUuid
    );
    // separator out of place
    assert_eq!(
        parse_uuid("000000000-000-0000-0000-000000000001").unwrap_err(),
        RepoError::IdInvalidUuid
    );
    // a digit that is not hexadecimal
    assert_eq!(
        parse_uuid("0000000g-0000-0000-0000-000000000001").unwrap_err(),
        RepoError::IdInvalidUuid
    );
    // correct length, no separators at all
    assert_eq!(
        parse_uuid("000000000000000000000000000000000000").unwrap_err(),
        RepoError::IdInvalidUuid
    );
}

#[test]
fn value_renders_to_canonical_text() {
    assert_eq!(
        uuid_text_of(0),
        "00000000-0000-0000-0000-000000000000"
    );
    assert_eq!(
        uuid_text_of(u128::MAX),
        "ffffffff-ffff-ffff-ffff-ffffffffffff"
    );
    assert_eq!(
        uuid_text_of(0x67e5504410b1426f9247bb680e5fe0c8),
        "67e55044-10b1-426f-9247-bb680e5fe0c8"
    );
}

#[test]
fn text_encoding_round_trips() {
    for v in [0u128, 1, 15, 16, 255, 0x67e5504410b1426f9247bb680e5fe0c8, u128::MAX] {
        assert_eq!(parse_uuid(uuid_text_of(v).as_str()).unwrap(), v);
    }
}

#[test]
fn malformed_identifier_is_the_callers_fault_at_the_boundary() {
    let e = ServiceError::of_repo_error(&RepoError::IdInvalidUuid);
    assert_eq!(e, ServiceError::BadRequest("Invalid UUID id".to_string()));
    assert_eq!(e.status_code(), 400);
}

#[test]
fn boundary_errors_name_the_unresolved_identifiers() {
    let one = ServiceError::of_repo_error(&RepoError::IdNotFound(255));
    assert_eq!(
        one,
        ServiceError::NotFound("Id not found: 00000000-0000-0000-0000-0000000000ff".to_string())
    );
    let many = ServiceError::of_repo_error(&RepoError::IdsNotFound(vec![1, 2]));
    assert_eq!(
        many,
        ServiceError::NotFound(format!(
            "Ids not found: {}, {}",
            uuid_text_of(1),
            uuid_text_of(2)
        ))
    );
    assert_eq!(one.status_code(), 404);
}
