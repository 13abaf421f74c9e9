//! What can go wrong in the log.

use crate::text::{decimal_string, decimal_text};
use vstd::prelude::*;
use vstd::string::StringExecFns;

verus! {

/// A failure of the write-ahead log.
#[derive(Debug)]
pub enum WalError {
    /// The underlying file operation failed; the text is the system's message.
    Io(String),
    /// The bytes at `offset` are not a record.
    InvalidEntry { offset: u64, reason: String },
    /// The record is whole but its checksum does not match its body.
    ChecksumMismatch { offset: u64, expected: u32, got: u32 },
    FileNotFound(String),
    /// Replay met a record it could not accept and stopped.
    ReplayError { offset: u64, reason: String },
}

/// A [`WalError`] with its texts as character sequences.
pub enum WalErrorView {
    Io(Seq<char>),
    InvalidEntry { offset: u64, reason: Seq<char> },
    ChecksumMismatch { offset: u64, expected: u32, got: u32 },
    FileNotFound(Seq<char>),
    ReplayError { offset: u64, reason: Seq<char> },
}

impl View for WalError {
    type V = WalErrorView;

    open spec fn view(&self) -> WalErrorView {
        match *self {
            WalError::Io(s) => WalErrorView::Io(s@),
            WalError::InvalidEntry { offset, reason } => WalErrorView::InvalidEntry {
                offset,
                reason: reason@,
            },
            WalError::ChecksumMismatch { offset, expected, got } => WalErrorView::ChecksumMismatch {
                offset,
                expected,
                got,
            },
            WalError::FileNotFound(s) => WalErrorView::FileNotFound(s@),
            WalError::ReplayError { offset, reason } => WalErrorView::ReplayError {
                offset,
                reason: reason@,
            },
        }
    }
}

impl WalErrorView {
    /// The error in words.
    pub open spec fn message_text(self) -> Seq<char> {
        match self {
            WalErrorView::Io(s) => "I/O error: "@ + s,
            WalErrorView::InvalidEntry { offset, reason } => "Invalid WAL entry at offset "@
                + decimal_text(offset as nat) + ": "@ + reason,
            WalErrorView::ChecksumMismatch { offset, expected, got } =>
                "Checksum mismatch at offset "@ + decimal_text(offset as nat) + ": expected "@
                + decimal_text(expected as nat) + ", got "@ + decimal_text(got as nat),
            WalErrorView::FileNotFound(s) => "WAL file not found: "@ + s,
            WalErrorView::ReplayError { offset, reason } => "Replay stopped at offset "@
                + decimal_text(offset as nat) + ": "@ + reason,
        }
    }
}

impl WalError {
    /// The error in words, for logs and for wrapping in another error.
    pub fn message(&self) -> (text: String)
        ensures
            text@ == self@.message_text(),
    {
        match self {
            WalError::Io(s) => {
                let mut text = "I/O error: ".to_owned();
                text.append(s.as_str());
                text
            },
            WalError::InvalidEntry { offset, reason } => {
                let mut text = "Invalid WAL entry at offset ".to_owned();
                text.append(decimal_string(*offset).as_str());
                text.append(": ");
                text.append(reason.as_str());
                text
            },
            WalError::ChecksumMismatch { offset, expected, got } => {
                let mut text = "Checksum mismatch at offset ".to_owned();
                text.append(decimal_string(*offset).as_str());
                text.append(": expected ");
                text.append(decimal_string(*expected as u64).as_str());
                text.append(", got ");
                text.append(decimal_string(*got as u64).as_str());
                text
            },
            WalError::FileNotFound(s) => {
                let mut text = "WAL file not found: ".to_owned();
                text.append(s.as_str());
                text
            },
            WalError::ReplayError { offset, reason } => {
                let mut text = "Replay stopped at offset ".to_owned();
                text.append(decimal_string(*offset).as_str());
                text.append(": ");
                text.append(reason.as_str());
                text
            },
        }
    }
}

} // verus!
