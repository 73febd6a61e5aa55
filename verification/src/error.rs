//! The error taxonomy every operation reports through.
//!
//! Store and cache failures are wrapped into `InternalError` at the
//! boundary; validation and authorization failures are produced
//! deliberately by the core logic.

use vstd::prelude::*;

verus! {

/// One failure outcome, carrying its kind and a human-readable message or
/// the offending identity.
#[derive(Debug)]
pub enum ApiError {
    UserNotFound { id: u128 },
    TaskNotFound { id: u128 },
    InvalidUuid(String),
    EmailAlreadyExists { email: String },
    InternalError(String),
    ValidationError(String),
    Forbidden(String),
    Unauthorized(String),
    BadRequest(String),
    Conflict(String),
    NotFound(String),
}

impl Clone for ApiError {
    fn clone(&self) -> (res: Self)
        ensures
            res@ == self@,
    {
        match self {
            ApiError::UserNotFound { id } => ApiError::UserNotFound { id: *id },
            ApiError::TaskNotFound { id } => ApiError::TaskNotFound { id: *id },
            ApiError::InvalidUuid(m) => ApiError::InvalidUuid(m.clone()),
            ApiError::EmailAlreadyExists { email } => ApiError::EmailAlreadyExists {
                email: email.clone(),
            },
            ApiError::InternalError(m) => ApiError::InternalError(m.clone()),
            ApiError::ValidationError(m) => ApiError::ValidationError(m.clone()),
            ApiError::Forbidden(m) => ApiError::Forbidden(m.clone()),
            ApiError::Unauthorized(m) => ApiError::Unauthorized(m.clone()),
            ApiError::BadRequest(m) => ApiError::BadRequest(m.clone()),
            ApiError::Conflict(m) => ApiError::Conflict(m.clone()),
            ApiError::NotFound(m) => ApiError::NotFound(m.clone()),
        }
    }
}

/// The mathematical value of an error: same variants over plain values.
pub ghost enum ApiErrorView {
    UserNotFound { id: u128 },
    TaskNotFound { id: u128 },
    InvalidUuid(Seq<char>),
    EmailAlreadyExists { email: Seq<char> },
    InternalError(Seq<char>),
    ValidationError(Seq<char>),
    Forbidden(Seq<char>),
    Unauthorized(Seq<char>),
    BadRequest(Seq<char>),
    Conflict(Seq<char>),
    NotFound(Seq<char>),
}

impl View for ApiError {
    type V = ApiErrorView;

    open spec fn view(&self) -> ApiErrorView {
        match self {
            ApiError::UserNotFound { id } => ApiErrorView::UserNotFound { id: *id },
            ApiError::TaskNotFound { id } => ApiErrorView::TaskNotFound { id: *id },
            ApiError::InvalidUuid(m) => ApiErrorView::InvalidUuid(m@),
            ApiError::EmailAlreadyExists { email } => ApiErrorView::EmailAlreadyExists {
                email: email@,
            },
            ApiError::InternalError(m) => ApiErrorView::InternalError(m@),
            ApiError::ValidationError(m) => ApiErrorView::ValidationError(m@),
            ApiError::Forbidden(m) => ApiErrorView::Forbidden(m@),
            ApiError::Unauthorized(m) => ApiErrorView::Unauthorized(m@),
            ApiError::BadRequest(m) => ApiErrorView::BadRequest(m@),
            ApiError::Conflict(m) => ApiErrorView::Conflict(m@),
            ApiError::NotFound(m) => ApiErrorView::NotFound(m@),
        }
    }
}

impl ApiError {
    /// The human-readable text of this error, its kind named first.
    pub fn message(&self) -> (r: String)
        ensures
            match self@ {
                ApiErrorView::UserNotFound { id } => r@ == "User not found: "@
                    + crate::ids::spec_uuid_str(id),
                ApiErrorView::TaskNotFound { id } => r@ == "Task not found: "@
                    + crate::ids::spec_uuid_str(id),
                ApiErrorView::InvalidUuid(m) => r@ == "Invalid UUID: "@ + m,
                ApiErrorView::EmailAlreadyExists { email } => r@ == "Email already exists: "@
                    + email,
                ApiErrorView::InternalError(m) => r@ == "Internal server error: "@ + m,
                ApiErrorView::ValidationError(m) => r@ == "Validation error: "@ + m,
                ApiErrorView::Forbidden(m) => r@ == "Forbidden: "@ + m,
                ApiErrorView::Unauthorized(m) => r@ == "Unauthorized: "@ + m,
                ApiErrorView::BadRequest(m) => r@ == "Bad request: "@ + m,
                ApiErrorView::Conflict(m) => r@ == "Conflict: "@ + m,
                ApiErrorView::NotFound(m) => r@ == "Not found: "@ + m,
            },
    {
        match self {
            ApiError::UserNotFound { id } => {
                let mut r = String::from_str("User not found: ");
                r.append(crate::ids::uuid_to_string(*id).as_str());
                r
            },
            ApiError::TaskNotFound { id } => {
                let mut r = String::from_str("Task not found: ");
                r.append(crate::ids::uuid_to_string(*id).as_str());
                r
            },
            ApiError::InvalidUuid(m) => {
                let mut r = String::from_str("Invalid UUID: ");
                r.append(m.as_str());
                r
            },
            ApiError::EmailAlreadyExists { email } => {
                let mut r = String::from_str("Email already exists: ");
                r.append(email.as_str());
                r
            },
            ApiError::InternalError(m) => {
                let mut r = String::from_str("Internal server error: ");
                r.append(m.as_str());
                r
            },
            ApiError::ValidationError(m) => {
                let mut r = String::from_str("Validation error: ");
                r.append(m.as_str());
                r
            },
            ApiError::Forbidden(m) => {
                let mut r = String::from_str("Forbidden: ");
                r.append(m.as_str());
                r
            },
            ApiError::Unauthorized(m) => {
                let mut r = String::from_str("Unauthorized: ");
                r.append(m.as_str());
                r
            },
            ApiError::BadRequest(m) => {
                let mut r = String::from_str("Bad request: ");
                r.append(m.as_str());
                r
            },
            ApiError::Conflict(m) => {
                let mut r = String::from_str("Conflict: ");
                r.append(m.as_str());
                r
            },
            ApiError::NotFound(m) => {
                let mut r = String::from_str("Not found: ");
                r.append(m.as_str());
                r
            },
        }
    }

    /// The HTTP status this error maps to at the transport boundary.
    pub fn status_code(&self) -> (r: u16)
        ensures
            r == match self@ {
                ApiErrorView::UserNotFound { .. } => 404u16,
                ApiErrorView::TaskNotFound { .. } => 404u16,
                ApiErrorView::NotFound(_) => 404u16,
                ApiErrorView::InvalidUuid(_) => 400u16,
                ApiErrorView::BadRequest(_) => 400u16,
                ApiErrorView::ValidationError(_) => 400u16,
                ApiErrorView::EmailAlreadyExists { .. } => 409u16,
                ApiErrorView::Conflict(_) => 409u16,
                ApiErrorView::Forbidden(_) => 403u16,
                ApiErrorView::Unauthorized(_) => 401u16,
                ApiErrorView::InternalError(_) => 500u16,
            },
    {
        match self {
            ApiError::UserNotFound { .. } => 404,
            ApiError::TaskNotFound { .. } => 404,
            ApiError::NotFound(_) => 404,
            ApiError::InvalidUuid(_) => 400,
            ApiError::BadRequest(_) => 400,
            ApiError::ValidationError(_) => 400,
            ApiError::EmailAlreadyExists { .. } => 409,
            ApiError::Conflict(_) => 409,
            ApiError::Forbidden(_) => 403,
            ApiError::Unauthorized(_) => 401,
            ApiError::InternalError(_) => 500,
        }
    }

    pub fn unauthorized(message: &str) -> (r: Self)
        ensures
            r@ == ApiErrorView::Unauthorized(message@),
    {
        ApiError::Unauthorized(String::from_str(message))
    }

    pub fn forbidden(message: &str) -> (r: Self)
        ensures
            r@ == ApiErrorView::Forbidden(message@),
    {
        ApiError::Forbidden(String::from_str(message))
    }

    pub fn bad_request(message: &str) -> (r: Self)
        ensures
            r@ == ApiErrorView::BadRequest(message@),
    {
        ApiError::BadRequest(String::from_str(message))
    }

    pub fn not_found(message: &str) -> (r: Self)
        ensures
            r@ == ApiErrorView::NotFound(message@),
    {
        ApiError::NotFound(String::from_str(message))
    }

    pub fn conflict(message: &str) -> (r: Self)
        ensures
            r@ == ApiErrorView::Conflict(message@),
    {
        ApiError::Conflict(String::from_str(message))
    }

    pub fn validation_error(message: &str) -> (r: Self)
        ensures
            r@ == ApiErrorView::ValidationError(message@),
    {
        ApiError::ValidationError(String::from_str(message))
    }

    pub fn internal_error(message: &str) -> (r: Self)
        ensures
            r@ == ApiErrorView::InternalError(message@),
    {
        ApiError::InternalError(String::from_str(message))
    }
}

} // verus!
