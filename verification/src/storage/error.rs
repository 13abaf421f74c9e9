//! What can go wrong in the store.

use crate::text::{decimal_string, decimal_text};
use vstd::prelude::*;
use vstd::string::StringExecFns;

verus! {

/// A failure of the storage engine.
#[derive(Debug)]
pub enum StorageError {
    /// The key is absent, or its entry has expired.
    KeyNotFound(String),
    /// The caller expected another version than the one stored.
    CasFailed { key: String, expected: u64, got: u64 },
    Io(String),
    /// A snapshot could not be decoded.
    Serialization(String),
    Concurrency(String),
}

/// A [`StorageError`] with its texts as character sequences.
pub enum StorageErrorView {
    KeyNotFound(Seq<char>),
    CasFailed { key: Seq<char>, expected: u64, got: u64 },
    Io(Seq<char>),
    Serialization(Seq<char>),
    Concurrency(Seq<char>),
}

impl View for StorageError {
    type V = StorageErrorView;

    open spec fn view(&self) -> StorageErrorView {
        match *self {
            StorageError::KeyNotFound(k) => StorageErrorView::KeyNotFound(k@),
            StorageError::CasFailed { key, expected, got } => StorageErrorView::CasFailed {
                key: key@,
                expected,
                got,
            },
            StorageError::Io(s) => StorageErrorView::Io(s@),
            StorageError::Serialization(s) => StorageErrorView::Serialization(s@),
            StorageError::Concurrency(s) => StorageErrorView::Concurrency(s@),
        }
    }
}

impl StorageErrorView {
    /// The error in words.
    pub open spec fn message_text(self) -> Seq<char> {
        match self {
            StorageErrorView::KeyNotFound(k) => "Key not found: "@ + k,
            StorageErrorView::CasFailed { key, expected, got } =>
                "CAS failed: version mismatch for key "@ + key + " (expected "@ + decimal_text(
                expected as nat,
            ) + ", got "@ + decimal_text(got as nat) + ")"@,
            StorageErrorView::Io(s) => "I/O error: "@ + s,
            StorageErrorView::Serialization(s) => "Serialization error: "@ + s,
            StorageErrorView::Concurrency(s) => "Concurrency error: "@ + s,
        }
    }
}

impl StorageError {
    /// The error in words.
    pub fn message(&self) -> (text: String)
        ensures
            text@ == self@.message_text(),
    {
        match self {
            StorageError::KeyNotFound(k) => {
                let mut text = "Key not found: ".to_owned();
                text.append(k.as_str());
                text
            },
            StorageError::CasFailed { key, expected, got } => {
                let mut text = "CAS failed: version mismatch for key ".to_owned();
                text.append(key.as_str());
                text.append(" (expected ");
                text.append(decimal_string(*expected).as_str());
                text.append(", got ");
                text.append(decimal_string(*got).as_str());
                text.append(")");
                text
            },
            StorageError::Io(s) => {
                let mut text = "I/O error: ".to_owned();
                text.append(s.as_str());
                text
            },
            StorageError::Serialization(s) => {
                let mut text = "Serialization error: ".to_owned();
                text.append(s.as_str());
                text
            },
            StorageError::Concurrency(s) => {
                let mut text = "Concurrency error: ".to_owned();
                text.append(s.as_str());
                text
            },
        }
    }
}

} // verus!
