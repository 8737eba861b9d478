use vstd::prelude::*;

use crate::repo::error::repo_error_text;
use crate::repo::error::RepoError;
use crate::repo::error::RepoErrorModel;

verus! {

/// A boundary-level error, as seen by specifications: the variant carries
/// the text of its message.
pub enum ServiceErrorModel {
    InternalError(Seq<char>),
    BadRequest(Seq<char>),
    NotFound(Seq<char>),
}

/// The error shape handed to the boundary layer, carrying a message.
#[derive(Debug, PartialEq)]
pub enum ServiceError {
    InternalError(String),
    BadRequest(String),
    NotFound(String),
}

impl View for ServiceError {
    type V = ServiceErrorModel;

    open spec fn view(&self) -> ServiceErrorModel {
        match self {
            ServiceError::InternalError(m) => ServiceErrorModel::InternalError(m@),
            ServiceError::BadRequest(m) => ServiceErrorModel::BadRequest(m@),
            ServiceError::NotFound(m) => ServiceErrorModel::NotFound(m@),
        }
    }
}

/// How each store error surfaces at the boundary: an unresolved
/// identifier (or identifier set) becomes a not-found error whose
/// message names it; a violated uniqueness constraint, an out-of-range
/// value and a malformed identifier are the caller's fault.
pub open spec fn service_err_of(e: RepoErrorModel) -> ServiceErrorModel {
    match e {
        RepoErrorModel::IdNotFound(_) => ServiceErrorModel::NotFound(repo_error_text(e)),
        RepoErrorModel::IdsNotFound(_) => ServiceErrorModel::NotFound(repo_error_text(e)),
        RepoErrorModel::Conflict => ServiceErrorModel::BadRequest(repo_error_text(e)),
        RepoErrorModel::OutOfRange => ServiceErrorModel::BadRequest(repo_error_text(e)),
        RepoErrorModel::IdInvalidUuid => ServiceErrorModel::BadRequest(repo_error_text(e)),
    }
}

impl ServiceError {
    /// Translate a store error into its boundary shape, keeping the
    /// error's own text, identifiers included.
    pub fn of_repo_error(e: &RepoError) -> (r: ServiceError)
        ensures
            r@ == service_err_of(e@),
    {
        match e {
            RepoError::IdNotFound(_) | RepoError::IdsNotFound(_) => ServiceError::NotFound(
                e.message(),
            ),
            RepoError::Conflict | RepoError::OutOfRange | RepoError::IdInvalidUuid => ServiceError::BadRequest(
                e.message(),
            ),
        }
    }

    /// The status code the boundary reports for this error.
    pub fn status_code(&self) -> (r: u16)
        ensures
            (self@ matches ServiceErrorModel::InternalError(_)) <==> r == 500,
            (self@ matches ServiceErrorModel::BadRequest(_)) <==> r == 400,
            (self@ matches ServiceErrorModel::NotFound(_)) <==> r == 404,
    {
        match self {
            ServiceError::InternalError(_) => 500,
            ServiceError::BadRequest(_) => 400,
            ServiceError::NotFound(_) => 404,
        }
    }

    /// The full error text, as the boundary renders it.
    pub fn message(&self) -> (r: String)
        ensures
            self@ matches ServiceErrorModel::InternalError(m) ==> r@ == "Internal Server Error: "@
                + m,
            self@ matches ServiceErrorModel::BadRequest(m) ==> r@ == "Bad Request: "@ + m,
            self@ matches ServiceErrorModel::NotFound(m) ==> r@ == "Not Found: "@ + m,
    {
        match self {
            ServiceError::InternalError(m) => String::from_str("Internal Server Error: ").concat(
                m.as_str(),
            ),
            ServiceError::BadRequest(m) => String::from_str("Bad Request: ").concat(m.as_str()),
            ServiceError::NotFound(m) => String::from_str("Not Found: ").concat(m.as_str()),
        }
    }
}

} // verus!
