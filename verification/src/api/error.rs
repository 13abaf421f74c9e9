//! What a handler can answer instead of a result.

use crate::auth::types::{AuthError, AuthErrorView};
use crate::storage::error::{StorageError, StorageErrorView};
use crate::text::concat;
use vstd::prelude::*;

verus! {

#[derive(Debug)]
pub enum ApiError {
    KeyNotFound(String),
    PermissionDenied(String),
    InvalidRequest(String),
    AuthError(AuthError),
    StorageError(StorageError),
    InternalServerError,
}

/// An [`ApiError`] with its texts as character sequences.
pub enum ApiErrorView {
    KeyNotFound(Seq<char>),
    PermissionDenied(Seq<char>),
    InvalidRequest(Seq<char>),
    AuthError(AuthErrorView),
    StorageError(StorageErrorView),
    InternalServerError,
}

impl View for ApiError {
    type V = ApiErrorView;

    open spec fn view(&self) -> ApiErrorView {
        match *self {
            ApiError::KeyNotFound(s) => ApiErrorView::KeyNotFound(s@),
            ApiError::PermissionDenied(s) => ApiErrorView::PermissionDenied(s@),
            ApiError::InvalidRequest(s) => ApiErrorView::InvalidRequest(s@),
            ApiError::AuthError(e) => ApiErrorView::AuthError(e@),
            ApiError::StorageError(e) => ApiErrorView::StorageError(e@),
            ApiError::InternalServerError => ApiErrorView::InternalServerError,
        }
    }
}

impl ApiErrorView {
    /// The HTTP status that answers the error.
    pub open spec fn status(self) -> u16 {
        match self {
            ApiErrorView::KeyNotFound(_) => 404,
            ApiErrorView::PermissionDenied(_) => 403,
            ApiErrorView::InvalidRequest(_) => 400,
            ApiErrorView::AuthError(_) => 401,
            ApiErrorView::StorageError(_) => 500,
            ApiErrorView::InternalServerError => 500,
        }
    }

    /// The error in words.
    pub open spec fn message_text(self) -> Seq<char> {
        match self {
            ApiErrorView::KeyNotFound(s) => "Key not found: "@ + s,
            ApiErrorView::PermissionDenied(s) => "Permission denied: "@ + s,
            ApiErrorView::InvalidRequest(s) => "Invalid request: "@ + s,
            ApiErrorView::AuthError(e) => "Auth error: "@ + e.message_text(),
            ApiErrorView::StorageError(e) => "Storage error: "@ + e.message_text(),
            ApiErrorView::InternalServerError => "Internal server error"@,
        }
    }
}

impl ApiError {
    /// The HTTP status that answers the error: 404 for a missing key, 403
    /// for a denied operation, 400 for a bad request, 401 for a failed
    /// authentication, 500 for everything else.
    pub fn status_code(&self) -> (code: u16)
        ensures
            code == self@.status(),
    {
        match self {
            ApiError::KeyNotFound(_) => 404,
            ApiError::PermissionDenied(_) => 403,
            ApiError::InvalidRequest(_) => 400,
            ApiError::AuthError(_) => 401,
            ApiError::StorageError(_) => 500,
            ApiError::InternalServerError => 500,
        }
    }

    /// The error in words, as it goes into the body of the answer.
    pub fn message(&self) -> (text: String)
        ensures
            text@ == self@.message_text(),
    {
        match self {
            ApiError::KeyNotFound(s) => concat("Key not found: ", s.as_str()),
            ApiError::PermissionDenied(s) => concat("Permission denied: ", s.as_str()),
            ApiError::InvalidRequest(s) => concat("Invalid request: ", s.as_str()),
            ApiError::AuthError(e) => concat("Auth error: ", e.message().as_str()),
            ApiError::StorageError(e) => concat("Storage error: ", e.message().as_str()),
            ApiError::InternalServerError => "Internal server error".to_owned(),
        }
    }
}

} // verus!
