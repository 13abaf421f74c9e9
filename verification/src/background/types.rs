//! What can go wrong in a background worker.

use crate::storage::error::{StorageError, StorageErrorView};
use crate::text::concat;
use crate::wal::error::{WalError, WalErrorView};
use vstd::prelude::*;

verus! {

#[derive(Debug)]
pub enum WorkerError {
    Storage(StorageError),
    Wal(WalError),
    /// The object store refused; the text says why.
    S3(String),
    Io(String),
    Shutdown,
}

/// A [`WorkerError`] with its texts as character sequences.
pub enum WorkerErrorView {
    Storage(StorageErrorView),
    Wal(WalErrorView),
    S3(Seq<char>),
    Io(Seq<char>),
    Shutdown,
}

impl View for WorkerError {
    type V = WorkerErrorView;

    open spec fn view(&self) -> WorkerErrorView {
        match *self {
            WorkerError::Storage(e) => WorkerErrorView::Storage(e@),
            WorkerError::Wal(e) => WorkerErrorView::Wal(e@),
            WorkerError::S3(s) => WorkerErrorView::S3(s@),
            WorkerError::Io(s) => WorkerErrorView::Io(s@),
            WorkerError::Shutdown => WorkerErrorView::Shutdown,
        }
    }
}

impl WorkerErrorView {
    /// The error in words.
    pub open spec fn message_text(self) -> Seq<char> {
        match self {
            WorkerErrorView::Storage(e) => "Storage error: "@ + e.message_text(),
            WorkerErrorView::Wal(e) => "WAL error: "@ + e.message_text(),
            WorkerErrorView::S3(s) => "S3 error: "@ + s,
            WorkerErrorView::Io(s) => "I/O error: "@ + s,
            WorkerErrorView::Shutdown => "Shutdown requested"@,
        }
    }
}

impl WorkerError {
    /// The error in words.
    pub fn message(&self) -> (text: String)
        ensures
            text@ == self@.message_text(),
    {
        match self {
            WorkerError::Storage(e) => concat("Storage error: ", e.message().as_str()),
            WorkerError::Wal(e) => concat("WAL error: ", e.message().as_str()),
            WorkerError::S3(s) => concat("S3 error: ", s.as_str()),
            WorkerError::Io(s) => concat("I/O error: ", s.as_str()),
            WorkerError::Shutdown => "Shutdown requested".to_owned(),
        }
    }
}

} // verus!
