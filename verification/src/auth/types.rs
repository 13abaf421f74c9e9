//! The identity behind a request.

use crate::catalog::error::{CatalogError, CatalogErrorView};
use crate::storage::error::{StorageError, StorageErrorView};
use crate::text::{concat, strings_view};
use vstd::prelude::*;
use vstd::string::StringExecFns;

verus! {

/// How a caller proved who it is.
#[derive(Debug)]
pub enum AuthMethod {
    /// By an API key; the key's id.
    ApiKey(String),
    /// By a token; the token.
    Jwt(String),
    Password,
}

/// An [`AuthMethod`] as plain data.
pub enum AuthMethodView {
    ApiKey(Seq<char>),
    Jwt(Seq<char>),
    Password,
}

impl View for AuthMethod {
    type V = AuthMethodView;

    open spec fn view(&self) -> AuthMethodView {
        match *self {
            AuthMethod::ApiKey(s) => AuthMethodView::ApiKey(s@),
            AuthMethod::Jwt(s) => AuthMethodView::Jwt(s@),
            AuthMethod::Password => AuthMethodView::Password,
        }
    }
}

impl AuthMethodView {
    /// The method's name in the audit trail.
    pub open spec fn label(self) -> Seq<char> {
        match self {
            AuthMethodView::ApiKey(_) => "api_key"@,
            AuthMethodView::Jwt(_) => "jwt"@,
            AuthMethodView::Password => "password"@,
        }
    }
}

impl AuthMethod {
    /// The method's name in the audit trail.
    pub fn label(&self) -> (name: String)
        ensures
            name@ == self@.label(),
    {
        match self {
            AuthMethod::ApiKey(_) => "api_key".to_owned(),
            AuthMethod::Jwt(_) => "jwt".to_owned(),
            AuthMethod::Password => "password".to_owned(),
        }
    }
}

/// An authenticated caller.
#[derive(Debug)]
pub struct AuthContext {
    pub user: String,
    pub roles: Vec<String>,
    pub permissions: Vec<String>,
    /// The caller's address, as text.
    pub source_ip: String,
    pub auth_method: AuthMethod,
    pub session_id: String,
}

/// An [`AuthContext`] as plain data.
pub struct AuthContextView {
    pub user: Seq<char>,
    pub roles: Seq<Seq<char>>,
    pub permissions: Seq<Seq<char>>,
    pub source_ip: Seq<char>,
    pub auth_method: AuthMethodView,
    pub session_id: Seq<char>,
}

impl View for AuthContext {
    type V = AuthContextView;

    open spec fn view(&self) -> AuthContextView {
        AuthContextView {
            user: self.user@,
            roles: strings_view(self.roles@),
            permissions: strings_view(self.permissions@),
            source_ip: self.source_ip@,
            auth_method: self.auth_method@,
            session_id: self.session_id@,
        }
    }
}

#[derive(Debug)]
pub enum AuthError {
    InvalidCredentials,
    UserNotFound(String),
    UserInactive,
    AccountExpired,
    /// The operation, then the user who may not do it.
    PermissionDenied(String, String),
    /// The token was refused; the text says why.
    JwtError(String),
    CatalogError(CatalogError),
    StorageError(StorageError),
}

/// An [`AuthError`] with its texts as character sequences.
pub enum AuthErrorView {
    InvalidCredentials,
    UserNotFound(Seq<char>),
    UserInactive,
    AccountExpired,
    PermissionDenied(Seq<char>, Seq<char>),
    JwtError(Seq<char>),
    CatalogError(CatalogErrorView),
    StorageError(StorageErrorView),
}

impl View for AuthError {
    type V = AuthErrorView;

    open spec fn view(&self) -> AuthErrorView {
        match *self {
            AuthError::InvalidCredentials => AuthErrorView::InvalidCredentials,
            AuthError::UserNotFound(s) => AuthErrorView::UserNotFound(s@),
            AuthError::UserInactive => AuthErrorView::UserInactive,
            AuthError::AccountExpired => AuthErrorView::AccountExpired,
            AuthError::PermissionDenied(op, user) => AuthErrorView::PermissionDenied(op@, user@),
            AuthError::JwtError(s) => AuthErrorView::JwtError(s@),
            AuthError::CatalogError(e) => AuthErrorView::CatalogError(e@),
            AuthError::StorageError(e) => AuthErrorView::StorageError(e@),
        }
    }
}

impl AuthErrorView {
    /// The error in words.
    pub open spec fn message_text(self) -> Seq<char> {
        match self {
            AuthErrorView::InvalidCredentials => "Invalid credentials"@,
            AuthErrorView::UserNotFound(s) => "User not found: "@ + s,
            AuthErrorView::UserInactive => "User inactive"@,
            AuthErrorView::AccountExpired => "Account expired"@,
            AuthErrorView::PermissionDenied(op, user) => "Permission denied: "@ + op
                + " not allowed for user "@ + user,
            AuthErrorView::JwtError(s) => "JWT error: "@ + s,
            AuthErrorView::CatalogError(e) => "Catalog error: "@ + e.message_text(),
            AuthErrorView::StorageError(e) => "Storage error: "@ + e.message_text(),
        }
    }
}

impl AuthError {
    /// The error in words.
    pub fn message(&self) -> (text: String)
        ensures
            text@ == self@.message_text(),
    {
        match self {
            AuthError::InvalidCredentials => "Invalid credentials".to_owned(),
            AuthError::UserNotFound(s) => concat("User not found: ", s.as_str()),
            AuthError::UserInactive => "User inactive".to_owned(),
            AuthError::AccountExpired => "Account expired".to_owned(),
            AuthError::PermissionDenied(op, user) => {
                let mut text = concat("Permission denied: ", op.as_str());
                text.append(" not allowed for user ");
                text.append(user.as_str());
                text
            },
            AuthError::JwtError(s) => concat("JWT error: ", s.as_str()),
            AuthError::CatalogError(e) => concat("Catalog error: ", e.message().as_str()),
            AuthError::StorageError(e) => concat("Storage error: ", e.message().as_str()),
        }
    }
}

} // verus!
