use vstd::prelude::*;
use vstd::string::StringExecFns;

use crate::ids::uuid_list_text;
use crate::ids::uuid_list_text_of;
use crate::ids::uuid_text;
use crate::ids::uuid_text_of;

verus! {

/// A store-level error, as seen by specifications. It mirrors `RepoError`
/// with the missing-identifier list abstracted to a sequence.
pub enum RepoErrorModel {
    /// A single identifier did not resolve.
    IdNotFound(u128),
    /// A multi-identifier lookup had missing members; carries the missing set.
    IdsNotFound(Seq<u128>),
    /// A uniqueness constraint was violated on insert.
    Conflict,
    /// A numeric field left the representable range.
    OutOfRange,
    /// A text-encoded identifier was malformed.
    IdInvalidUuid,
}

/// A store-level error.
#[derive(Debug, PartialEq)]
pub enum RepoError {
    /// A single identifier did not resolve.
    IdNotFound(u128),
    /// A multi-identifier lookup had one or more missing members; carries
    /// the missing identifiers, in request order.
    IdsNotFound(Vec<u128>),
    /// A uniqueness constraint (identifier, or waiter login code) was
    /// violated on insert.
    Conflict,
    /// A numeric field (a quantity, or an order total) left the
    /// representable range.
    OutOfRange,
    /// A text-encoded identifier was malformed: a caller input error,
    /// distinct from "not found".
    IdInvalidUuid,
}

impl View for RepoError {
    type V = RepoErrorModel;

    open spec fn view(&self) -> RepoErrorModel {
        match self {
            RepoError::IdNotFound(id) => RepoErrorModel::IdNotFound(*id),
            RepoError::IdsNotFound(ids) => RepoErrorModel::IdsNotFound(ids@),
            RepoError::Conflict => RepoErrorModel::Conflict,
            RepoError::OutOfRange => RepoErrorModel::OutOfRange,
            RepoError::IdInvalidUuid => RepoErrorModel::IdInvalidUuid,
        }
    }
}

/// The text a store error describes itself with, naming the identifier
/// or identifiers that did not resolve.
pub open spec fn repo_error_text(e: RepoErrorModel) -> Seq<char> {
    match e {
        RepoErrorModel::IdNotFound(id) => "Id not found: "@ + uuid_text(id),
        RepoErrorModel::IdsNotFound(ids) => "Ids not found: "@ + uuid_list_text(ids),
        RepoErrorModel::Conflict => "Uniqueness constraint violated"@,
        RepoErrorModel::OutOfRange => "Value out of range"@,
        RepoErrorModel::IdInvalidUuid => "Invalid UUID id"@,
    }
}

impl RepoError {
    /// A human-readable description of the error, carrying the
    /// unresolved identifier(s) in canonical text form.
    pub fn message(&self) -> (r: String)
        ensures
            r@ == repo_error_text(self@),
    {
        match self {
            RepoError::IdNotFound(id) => String::from_str("Id not found: ").concat(
                uuid_text_of(*id).as_str(),
            ),
            RepoError::IdsNotFound(ids) => String::from_str("Ids not found: ").concat(
                uuid_list_text_of(ids).as_str(),
            ),
            RepoError::Conflict => String::from_str("Uniqueness constraint violated"),
            RepoError::OutOfRange => String::from_str("Value out of range"),
            RepoError::IdInvalidUuid => String::from_str("Invalid UUID id"),
        }
    }
}

} // verus!
