//! The kinds of failure, and how each looks to a client.

use vstd::prelude::*;

verus! {

/// Why an operation failed.
#[derive(Debug, Clone, Copy, PartialEq, Eq, Structural)]
pub enum Error {
    /// Deriving or checking a credential hash failed.
    HashError,
    /// The content store could not carry out the operation.
    DatabaseErr,
    /// No user or post matches the id or email that was asked for.
    NotFound,
    /// A user with the same email is already registered.
    UserAlreadyExists,
    /// The search index failed.
    SearchErr,
    /// The text of a search query is malformed.
    QueryParseErr,
    /// The credentials of a login did not match.
    LoginFailed,
    /// An uploaded image is too large, corrupt or of an unknown format.
    ImageUploadFailed,
}

/// What a client is told of a failure.
#[derive(Debug, Clone, Copy, PartialEq, Eq, Structural)]
pub enum Status {
    /// The request itself is malformed.
    BadRequest,
    /// The caller did not prove who they are.
    Unauthorized,
    /// What was asked for does not exist.
    NotFound,
    /// What was to be created exists already.
    Conflict,
    /// The request is well-formed, but its content cannot be used.
    UnprocessableEntity,
    /// The service failed; the caller is told no more than that.
    InternalServerError,
}

impl Status {
    /// The HTTP status code.
    pub open spec fn code_spec(self) -> u16 {
        match self {
            Status::BadRequest => 400,
            Status::Unauthorized => 401,
            Status::NotFound => 404,
            Status::Conflict => 409,
            Status::UnprocessableEntity => 422,
            Status::InternalServerError => 500,
        }
    }

    /// The HTTP status code.
    pub fn code(&self) -> (r: u16)
        ensures
            r == self.code_spec(),
    {
        match self {
            Status::BadRequest => 400,
            Status::Unauthorized => 401,
            Status::NotFound => 404,
            Status::Conflict => 409,
            Status::UnprocessableEntity => 422,
            Status::InternalServerError => 500,
        }
    }
}

impl Error {
    /// Whether the failure is a fault of the service, not of the request:
    /// the hasher, the store or the index did not work.
    pub open spec fn is_fault(self) -> bool {
        self == Error::HashError || self == Error::DatabaseErr || self == Error::SearchErr
    }

    /// What a client is told of this failure.
    pub open spec fn status_spec(self) -> Status {
        match self {
            Error::HashError => Status::InternalServerError,
            Error::DatabaseErr => Status::InternalServerError,
            Error::SearchErr => Status::InternalServerError,
            Error::NotFound => Status::NotFound,
            Error::UserAlreadyExists => Status::Conflict,
            Error::QueryParseErr => Status::BadRequest,
            Error::LoginFailed => Status::Unauthorized,
            Error::ImageUploadFailed => Status::UnprocessableEntity,
        }
    }

    /// What a client is told of this failure.
    pub fn status(&self) -> (r: Status)
        ensures
            r == self.status_spec(),
    {
        match self {
            Error::HashError => Status::InternalServerError,
            Error::DatabaseErr => Status::InternalServerError,
            Error::SearchErr => Status::InternalServerError,
            Error::NotFound => Status::NotFound,
            Error::UserAlreadyExists => Status::Conflict,
            Error::QueryParseErr => Status::BadRequest,
            Error::LoginFailed => Status::Unauthorized,
            Error::ImageUploadFailed => Status::UnprocessableEntity,
        }
    }

    /// Whether the failure is to be logged: a fault of the service is, a
    /// mistake of the caller is not.
    pub fn is_logged(&self) -> (r: bool)
        ensures
            r == self.is_fault(),
    {
        match self {
            Error::HashError => true,
            Error::DatabaseErr => true,
            Error::SearchErr => true,
            _ => false,
        }
    }
}

/// A client can tell the mistakes of a request apart, each by its own
/// status, and learns nothing of a fault of the service but that there was
/// one: all faults look alike, and no mistake looks like a fault.
pub proof fn statuses_tell_mistakes_apart(a: Error, b: Error)
    ensures
        a.is_fault() <==> a.status_spec() == Status::InternalServerError,
        a.is_fault() && b.is_fault() ==> a.status_spec() == b.status_spec(),
        !a.is_fault() && a != b ==> a.status_spec() != b.status_spec(),
        a.status_spec() != b.status_spec() ==> a.status_spec().code_spec()
            != b.status_spec().code_spec(),
{
}

} // verus!
