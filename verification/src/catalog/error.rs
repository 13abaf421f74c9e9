//! What can go wrong in the catalog.

use crate::storage::error::{StorageError, StorageErrorView};
use crate::text::concat;
use vstd::prelude::*;

verus! {

#[derive(Debug)]
pub enum CatalogError {
    KeyNotFound(String),
    InvalidKeyFormat(String),
    /// An entry of the catalog could not be read or written as JSON.
    Serialization(String),
    Storage(StorageError),
    Password(String),
}

/// A [`CatalogError`] with its texts as character sequences.
pub enum CatalogErrorView {
    KeyNotFound(Seq<char>),
    InvalidKeyFormat(Seq<char>),
    Serialization(Seq<char>),
    Storage(StorageErrorView),
    Password(Seq<char>),
}

impl View for CatalogError {
    type V = CatalogErrorView;

    open spec fn view(&self) -> CatalogErrorView {
        match *self {
            CatalogError::KeyNotFound(s) => CatalogErrorView::KeyNotFound(s@),
            CatalogError::InvalidKeyFormat(s) => CatalogErrorView::InvalidKeyFormat(s@),
            CatalogError::Serialization(s) => CatalogErrorView::Serialization(s@),
            CatalogError::Storage(e) => CatalogErrorView::Storage(e@),
            CatalogError::Password(s) => CatalogErrorView::Password(s@),
        }
    }
}

impl CatalogErrorView {
    /// The error in words.
    pub open spec fn message_text(self) -> Seq<char> {
        match self {
            CatalogErrorView::KeyNotFound(s) => "System key not found: "@ + s,
            CatalogErrorView::InvalidKeyFormat(s) => "Invalid system key format: "@ + s,
            CatalogErrorView::Serialization(s) => "Serialization error: "@ + s,
            CatalogErrorView::Storage(e) => "Storage error: "@ + e.message_text(),
            CatalogErrorView::Password(s) => "Password error: "@ + s,
        }
    }
}

impl CatalogError {
    /// The error in words.
    pub fn message(&self) -> (text: String)
        ensures
            text@ == self@.message_text(),
    {
        match self {
            CatalogError::KeyNotFound(s) => concat("System key not found: ", s.as_str()),
            CatalogError::InvalidKeyFormat(s) => concat("Invalid system key format: ", s.as_str()),
            CatalogError::Serialization(s) => concat("Serialization error: ", s.as_str()),
            CatalogError::Storage(e) => concat("Storage error: ", e.message().as_str()),
            CatalogError::Password(s) => concat("Password error: ", s.as_str()),
        }
    }

    /// A failure of the engine as a failure of the catalog.
    pub fn from_storage(e: StorageError) -> (r: Self)
        ensures
            r@ == CatalogErrorView::Storage(e@),
    {
        CatalogError::Storage(e)
    }
}

} // verus!
