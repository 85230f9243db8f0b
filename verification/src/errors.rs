//! Error taxonomy of the library, with the mapping from each error kind to
//! an HTTP status code and a response category.

use vstd::prelude::*;

verus! {

/// An error raised by the library's operations.
///
/// Each variant carries a human-readable message. The variants are:
/// `NotFound` for a requested ID with no matching row, `ValidationError`
/// for malformed input, `UpstreamError` for a failed or unparseable reply
/// from an upstream API, and `StorageError` for a failed transaction or
/// query against a store.
#[derive(Debug)]
pub enum AppError {
    NotFound(String),
    ValidationError(String),
    UpstreamError(String),
    StorageError(String),
}

impl AppError {
    /// The HTTP status code that this error maps to.
    pub fn status_code(&self) -> (code: u16)
        ensures
            code == match self {
                AppError::NotFound(_) => 404u16,
                AppError::ValidationError(_) => 400u16,
                AppError::UpstreamError(_) => 500u16,
                AppError::StorageError(_) => 500u16,
            },
    {
        match self {
            AppError::NotFound(_) => 404,
            AppError::ValidationError(_) => 400,
            AppError::UpstreamError(_) => 500,
            AppError::StorageError(_) => 500,
        }
    }

    /// The category string placed in the `error` field of an error response.
    pub fn category(&self) -> (cat: String)
        ensures
            cat@ == match self {
                AppError::NotFound(_) => "Not Found"@,
                AppError::ValidationError(_) => "Bad Request"@,
                AppError::UpstreamError(_) => "Internal Server Error"@,
                AppError::StorageError(_) => "Internal Server Error"@,
            },
    {
        match self {
            AppError::NotFound(_) => String::from_str("Not Found"),
            AppError::ValidationError(_) => String::from_str("Bad Request"),
            AppError::UpstreamError(_) => String::from_str("Internal Server Error"),
            AppError::StorageError(_) => String::from_str("Internal Server Error"),
        }
    }

    /// The message carried by this error.
    pub fn message(&self) -> (msg: String)
        ensures
            msg@ == match self {
                AppError::NotFound(m) => m@,
                AppError::ValidationError(m) => m@,
                AppError::UpstreamError(m) => m@,
                AppError::StorageError(m) => m@,
            },
    {
        match self {
            AppError::NotFound(m) => m.clone(),
            AppError::ValidationError(m) => m.clone(),
            AppError::UpstreamError(m) => m.clone(),
            AppError::StorageError(m) => m.clone(),
        }
    }
}

} // verus!
