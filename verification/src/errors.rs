//! The error taxonomy of the storefront core, and the structured error
//! payload returned over the HTTP surface.

use vstd::prelude::*;

verus! {

/// Machine-readable error kinds of the core, each tied to one HTTP status.
#[derive(Clone, Copy, Debug, PartialEq, Eq, Structural)]
pub enum StoreError {
    InvalidInput,
    DuplicateEmail,
    NotFound,
    InvalidCredentials,
    Unauthenticated,
    EmptyCart,
    InvalidEmail,
    InvalidInstallments,
    InsufficientStock,
    InternalError,
}

impl StoreError {
    /// The HTTP status code that each error kind is surfaced with.
    pub fn http_status(&self) -> (code: u16)
        ensures
            code == match *self {
                StoreError::InvalidInput => 400u16,
                StoreError::DuplicateEmail => 400u16,
                StoreError::NotFound => 404u16,
                StoreError::InvalidCredentials => 401u16,
                StoreError::Unauthenticated => 401u16,
                StoreError::EmptyCart => 400u16,
                StoreError::InvalidEmail => 422u16,
                StoreError::InvalidInstallments => 422u16,
                StoreError::InsufficientStock => 400u16,
                StoreError::InternalError => 500u16,
            },
    {
        match *self {
            StoreError::InvalidInput => 400,
            StoreError::DuplicateEmail => 400,
            StoreError::NotFound => 404,
            StoreError::InvalidCredentials => 401,
            StoreError::Unauthenticated => 401,
            StoreError::EmptyCart => 400,
            StoreError::InvalidEmail => 422,
            StoreError::InvalidInstallments => 422,
            StoreError::InsufficientStock => 400,
            StoreError::InternalError => 500,
        }
    }
}

/// Structured error payload: a machine-readable kind, a human message,
/// the HTTP status code, and an optional field name for validation errors.
pub struct ApiError {
    pub error: String,
    pub message: String,
    pub code: u16,
    pub field: Option<String>,
}

impl ApiError {
    pub fn new(code: u16, error: &str, message: &str) -> (r: ApiError)
        ensures
            r.code == code,
            r.error@ == error@,
            r.message@ == message@,
            r.field is None,
    {
        ApiError {
            error: String::from_str(error),
            message: String::from_str(message),
            code,
            field: None,
        }
    }

    pub fn bad_request(message: &str) -> (r: ApiError)
        ensures
            r.code == 400,
            r.error@ == "Bad Request"@,
            r.message@ == message@,
            r.field is None,
    {
        Self::new(400, "Bad Request", message)
    }

    pub fn not_found(message: &str) -> (r: ApiError)
        ensures
            r.code == 404,
            r.error@ == "Not Found"@,
            r.message@ == message@,
            r.field is None,
    {
        Self::new(404, "Not Found", message)
    }

    pub fn internal_server_error(message: &str) -> (r: ApiError)
        ensures
            r.code == 500,
            r.error@ == "Internal Server Error"@,
            r.message@ == message@,
            r.field is None,
    {
        Self::new(500, "Internal Server Error", message)
    }

    pub fn validation_error(field: &str, message: &str) -> (r: ApiError)
        ensures
            r.code == 422,
            r.error@ == "Unprocessable Entity"@,
            r.message@ == message@,
            r.field matches Some(f) && f@ == field@,
    {
        ApiError {
            error: String::from_str("Unprocessable Entity"),
            message: String::from_str(message),
            code: 422,
            field: Some(String::from_str(field)),
        }
    }
}

} // verus!
