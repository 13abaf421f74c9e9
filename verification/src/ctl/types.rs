//! What can go wrong in the tool.

use crate::text::concat;
use vstd::prelude::*;

verus! {

#[derive(Debug)]
pub enum KvCtlError {
    /// The connection could not be made.
    Grpc(String),
    /// The server answered with an error.
    Rpc(String),
    Io(String),
    Serialization(String),
    InvalidArgument(String),
}

/// A [`KvCtlError`] with its texts as character sequences.
pub enum KvCtlErrorView {
    Grpc(Seq<char>),
    Rpc(Seq<char>),
    Io(Seq<char>),
    Serialization(Seq<char>),
    InvalidArgument(Seq<char>),
}

impl View for KvCtlError {
    type V = KvCtlErrorView;

    open spec fn view(&self) -> KvCtlErrorView {
        match *self {
            KvCtlError::Grpc(s) => KvCtlErrorView::Grpc(s@),
            KvCtlError::Rpc(s) => KvCtlErrorView::Rpc(s@),
            KvCtlError::Io(s) => KvCtlErrorView::Io(s@),
            KvCtlError::Serialization(s) => KvCtlErrorView::Serialization(s@),
            KvCtlError::InvalidArgument(s) => KvCtlErrorView::InvalidArgument(s@),
        }
    }
}

impl KvCtlErrorView {
    /// The error in words.
    pub open spec fn message_text(self) -> Seq<char> {
        match self {
            KvCtlErrorView::Grpc(s) => "gRPC error: "@ + s,
            KvCtlErrorView::Rpc(s) => "RPC error: "@ + s,
            KvCtlErrorView::Io(s) => "I/O error: "@ + s,
            KvCtlErrorView::Serialization(s) => "Serialization error: "@ + s,
            KvCtlErrorView::InvalidArgument(s) => "Invalid argument: "@ + s,
        }
    }
}

impl KvCtlError {
    /// The error in words.
    pub fn message(&self) -> (text: String)
        ensures
            text@ == self@.message_text(),
    {
        match self {
            KvCtlError::Grpc(s) => concat("gRPC error: ", s.as_str()),
            KvCtlError::Rpc(s) => concat("RPC error: ", s.as_str()),
            KvCtlError::Io(s) => concat("I/O error: ", s.as_str()),
            KvCtlError::Serialization(s) => concat("Serialization error: ", s.as_str()),
            KvCtlError::InvalidArgument(s) => concat("Invalid argument: ", s.as_str()),
        }
    }
}

} // verus!
