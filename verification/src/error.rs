//! The closed set of failures the service reports to a client, and how each
//! maps to an HTTP status code. Internal detail never reaches a caller: it
//! collapses to `InternalError`.

use vstd::prelude::*;

verus! {

#[derive(Clone, Debug, PartialEq, Eq)]
pub enum AppError {
    NotFound,
    AlreadyExists,
    ValidateError(String),
    Forbidden,
    Unauthorized,
    InternalError,
}

impl AppError {
    /// The HTTP status code a failure is reported with.
    pub open spec fn spec_status_code(self) -> u16 {
        match self {
            AppError::NotFound => 404,
            AppError::AlreadyExists => 400,
            AppError::ValidateError(_) => 400,
            AppError::InternalError => 500,
            AppError::Forbidden => 403,
            AppError::Unauthorized => 401,
        }
    }

    pub fn status_code(&self) -> (code: u16)
        ensures
            code == self.spec_status_code(),
    {
        match self {
            AppError::NotFound => 404,
            AppError::AlreadyExists => 400,
            AppError::ValidateError(_) => 400,
            AppError::InternalError => 500,
            AppError::Forbidden => 403,
            AppError::Unauthorized => 401,
        }
    }

    /// Collapses any internal failure to the opaque kind. The context and the
    /// underlying error go to the operator's log at the boundary, never to
    /// the caller.
    pub fn internal_with_log<E>(_context: &str, _err: E) -> (r: AppError)
        ensures
            r == AppError::InternalError,
    {
        AppError::InternalError
    }
}

} // verus!
