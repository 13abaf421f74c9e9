//! The shapes of requests and responses.

use vstd::prelude::*;

verus! {

/// Entries handed out by a scan where the request names no limit.
pub const DEFAULT_SCAN_LIMIT: u64 = 100;

/// The limit of a scan that names none.
pub fn default_limit() -> (limit: u64)
    ensures
        limit == DEFAULT_SCAN_LIMIT,
{
    DEFAULT_SCAN_LIMIT
}

#[derive(Debug)]
pub struct GetParams {
    pub key: String,
}

#[derive(Debug)]
pub struct GetResponse {
    pub found: bool,
    /// The value in base64.
    pub value: Option<String>,
    pub version: u64,
}

#[derive(Debug)]
pub struct SetParams {
    pub key: String,
    /// The value in base64.
    pub value: String,
    /// Time to live in seconds.
    pub ttl: Option<u64>,
}

#[derive(Debug, Clone, Copy, PartialEq, Eq, Structural)]
pub struct SetResponse {
    pub success: bool,
    pub version: u64,
}

#[derive(Debug)]
pub struct DeleteParams {
    pub key: String,
}

#[derive(Debug, Clone, Copy, PartialEq, Eq, Structural)]
pub struct DeleteResponse {
    pub success: bool,
}

#[derive(Debug)]
pub struct IncrParams {
    pub key: String,
    pub delta: i64,
}

#[derive(Debug, Clone, Copy, PartialEq, Eq, Structural)]
pub struct IncrResponse {
    pub success: bool,
    pub new_value: i64,
}

#[derive(Debug)]
pub struct ScanParams {
    pub pattern: String,
    pub limit: u64,
}

#[derive(Debug)]
pub struct ScanItem {
    pub key: String,
    pub value: Option<String>,
    pub version: u64,
}

#[derive(Debug)]
pub struct ScanResponse {
    pub items: Vec<ScanItem>,
    pub has_more: bool,
}

} // verus!
