//! The errors the service reports, by kind and message.

use vstd::prelude::*;

verus! {

/// What went wrong, as the caller of the service sees it.
#[derive(Debug, Clone, Copy, PartialEq, Eq, Structural)]
pub enum ErrorKind {
    /// An account or a book is absent.
    NotFound,
    /// The request cannot be served as it stands.
    BadRequest,
    /// The caller has not shown who it is, or its token is no longer good.
    Unauthorized,
    /// The record to create exists already.
    Conflict,
    /// Storage failed.
    Internal,
}

/// An error with its message.
#[derive(Debug, PartialEq, Eq)]
pub enum AppError {
    NotFound(String),
    BadRequest(String),
    Unauthorized(String),
    Conflict(String),
    Internal(String),
}

/// An error as a plain value: its kind and the characters of its message.
pub struct ErrorView {
    pub kind: ErrorKind,
    pub message: Seq<char>,
}

pub open spec fn not_found(message: Seq<char>) -> ErrorView {
    ErrorView { kind: ErrorKind::NotFound, message }
}

pub open spec fn bad_request(message: Seq<char>) -> ErrorView {
    ErrorView { kind: ErrorKind::BadRequest, message }
}

pub open spec fn unauthorized(message: Seq<char>) -> ErrorView {
    ErrorView { kind: ErrorKind::Unauthorized, message }
}

pub open spec fn conflict(message: Seq<char>) -> ErrorView {
    ErrorView { kind: ErrorKind::Conflict, message }
}

pub open spec fn internal(message: Seq<char>) -> ErrorView {
    ErrorView { kind: ErrorKind::Internal, message }
}

/// The outcome of an operation that returns nothing on success.
pub open spec fn outcome(r: Result<(), AppError>) -> Result<(), ErrorView> {
    match r {
        Ok(_) => Ok(()),
        Err(e) => Err(e@),
    }
}

impl View for AppError {
    type V = ErrorView;

    open spec fn view(&self) -> ErrorView {
        match self {
            AppError::NotFound(m) => not_found(m@),
            AppError::BadRequest(m) => bad_request(m@),
            AppError::Unauthorized(m) => unauthorized(m@),
            AppError::Conflict(m) => conflict(m@),
            AppError::Internal(m) => internal(m@),
        }
    }
}

impl AppError {
    pub fn not_found(message: &str) -> (r: AppError)
        ensures
            r@ == not_found(message@),
    {
        AppError::NotFound(message.to_owned())
    }

    pub fn bad_request(message: &str) -> (r: AppError)
        ensures
            r@ == bad_request(message@),
    {
        AppError::BadRequest(message.to_owned())
    }

    pub fn unauthorized(message: &str) -> (r: AppError)
        ensures
            r@ == unauthorized(message@),
    {
        AppError::Unauthorized(message.to_owned())
    }

    pub fn conflict(message: &str) -> (r: AppError)
        ensures
            r@ == conflict(message@),
    {
        AppError::Conflict(message.to_owned())
    }

    pub fn internal(message: &str) -> (r: AppError)
        ensures
            r@ == internal(message@),
    {
        AppError::Internal(message.to_owned())
    }

    pub fn kind(&self) -> (r: ErrorKind)
        ensures
            r == self@.kind,
    {
        match self {
            AppError::NotFound(_) => ErrorKind::NotFound,
            AppError::BadRequest(_) => ErrorKind::BadRequest,
            AppError::Unauthorized(_) => ErrorKind::Unauthorized,
            AppError::Conflict(_) => ErrorKind::Conflict,
            AppError::Internal(_) => ErrorKind::Internal,
        }
    }

    pub fn message(&self) -> (r: &str)
        ensures
            r@ == self@.message,
    {
        match self {
            AppError::NotFound(m) => m.as_str(),
            AppError::BadRequest(m) => m.as_str(),
            AppError::Unauthorized(m) => m.as_str(),
            AppError::Conflict(m) => m.as_str(),
            AppError::Internal(m) => m.as_str(),
        }
    }

    /// The HTTP status the error is answered with.
    pub fn status_code(&self) -> (r: u16)
        ensures
            r == status_of(self@.kind),
    {
        match self {
            AppError::NotFound(_) => 404,
            AppError::BadRequest(_) => 400,
            AppError::Unauthorized(_) => 401,
            AppError::Conflict(_) => 409,
            AppError::Internal(_) => 500,
        }
    }

}

impl Clone for AppError {
    fn clone(&self) -> (r: AppError)
        ensures
            r@ == self@,
    {
        match self {
            AppError::NotFound(m) => AppError::NotFound(m.clone()),
            AppError::BadRequest(m) => AppError::BadRequest(m.clone()),
            AppError::Unauthorized(m) => AppError::Unauthorized(m.clone()),
            AppError::Conflict(m) => AppError::Conflict(m.clone()),
            AppError::Internal(m) => AppError::Internal(m.clone()),
        }
    }
}

pub open spec fn status_of(kind: ErrorKind) -> u16 {
    match kind {
        ErrorKind::NotFound => 404,
        ErrorKind::BadRequest => 400,
        ErrorKind::Unauthorized => 401,
        ErrorKind::Conflict => 409,
        ErrorKind::Internal => 500,
    }
}

} // verus!
