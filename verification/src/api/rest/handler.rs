//! What the handlers decide.
//!
//! A handler gets the request already parsed and the caller already
//! authenticated. It checks the permission, works on the engine and shapes
//! the answer. Beside the answer it hands out what the caller has to carry
//! on: the log record of a mutation, to be made durable before the answer
//! goes out, and the audit event of a denial.

use crate::api::encoding::{base64_decode, base64_encode, base64_text, base64_value};
use crate::api::error::{ApiError, ApiErrorView};
use crate::api::rest::types::{
    DeleteParams, DeleteResponse, GetParams, GetResponse, SetParams, SetResponse,
};
use crate::auth::audit::AuditEvent;
use crate::auth::manager::{denial_event, has_permission, AuthManager};
use crate::auth::types::{AuthContext, AuthErrorView};
use crate::storage::engine::StorageEngine;
use crate::storage::error::StorageErrorView;
use crate::storage::model::{
    apply_to_shards, del_record, event_of, queue_with, set_entry, set_record,
    visible,
};
use crate::wal::entry::WalEntry;
use vstd::prelude::*;

verus! {

/// What a handler hands back.
pub struct Handled<T> {
    pub result: Result<T, ApiError>,
    /// The record of the mutation made, to be logged before the answer goes
    /// out.
    pub record: Option<WalEntry>,
    /// The event of a denial, for the audit trail.
    pub audit: Option<AuditEvent>,
}

/// Answers a read of `params.key` at `now`.
///
/// A key that a reader does not see is answered as a storage error before
/// the permission is looked at; then the caller needs `GET`.
pub fn get_handler(
    engine: &StorageEngine,
    auth: &AuthManager,
    ctx: &AuthContext,
    params: &GetParams,
    now: u64,
    now_secs: u64,
) -> (out: Handled<GetResponse>)
    requires
        engine.wf(),
    ensures
        out.record is None,
        match visible(engine@, params.key@, now) {
            None => out.audit is None && (out.result matches Err(e) && e@
                == ApiErrorView::StorageError(StorageErrorView::KeyNotFound(params.key@))),
            Some(entry) => if !has_permission(ctx@.permissions, "GET"@) {
                &&& out.result matches Err(e) && e@ == ApiErrorView::AuthError(
                    AuthErrorView::PermissionDenied("GET"@, ctx@.user),
                )
                &&& out.audit matches Some(ev) && ev@ == denial_event(
                    ctx@,
                    "GET"@,
                    params.key@,
                    now_secs,
                )
            } else if entry.value.len() >= usize::MAX / 2 {
                out.audit is None && (out.result matches Err(e) && e@
                    == ApiErrorView::InternalServerError)
            } else {
                out.audit is None && (out.result matches Ok(resp) && resp.found && resp.version
                    == entry.version && (resp.value matches Some(v) && v@ == base64_text(
                    entry.value,
                )))
            },
        },
{
    let entry = match engine.get_at(params.key.as_str(), now) {
        Ok(e) => e,
        Err(e) => {
            return Handled { result: Err(ApiError::StorageError(e)), record: None, audit: None };
        },
    };
    match auth.authorize(ctx, "GET", params.key.as_str(), now_secs) {
        Ok(_) => {},
        Err((e, event)) => {
            return Handled {
                result: Err(ApiError::AuthError(e)),
                record: None,
                audit: Some(event),
            };
        },
    }
    if entry.value.len() >= usize::MAX / 2 {
        return Handled { result: Err(ApiError::InternalServerError), record: None, audit: None };
    }
    let text = base64_encode(entry.value.as_slice());
    Handled {
        result: Ok(GetResponse { found: true, value: Some(text), version: entry.version }),
        record: None,
        audit: None,
    }
}

/// Answers a write at `now`.
///
/// The caller needs `SET`; the value has to be base64. The answer names the
/// version that was written.
pub fn set_handler(
    engine: &mut StorageEngine,
    auth: &AuthManager,
    ctx: &AuthContext,
    params: &SetParams,
    now: u64,
    now_secs: u64,
) -> (out: Handled<SetResponse>)
    requires
        old(engine).wf(),
    ensures
        final(engine).wf(),
        final(engine).is_read_only() == old(engine).is_read_only(),
        if !has_permission(ctx@.permissions, "SET"@) {
            &&& out.result matches Err(e) && e@ == ApiErrorView::AuthError(
                AuthErrorView::PermissionDenied("SET"@, ctx@.user),
            )
            &&& out.audit matches Some(ev) && ev@ == denial_event(
                ctx@,
                "SET"@,
                params.key@,
                now_secs,
            )
            &&& out.record is None
            &&& final(engine).shard_maps() == old(engine).shard_maps()
        } else {
            &&& out.audit is None
            &&& match base64_value(params.value@) {
                None => {
                    &&& out.result matches Err(e) && e@ == ApiErrorView::InvalidRequest(
                        "Invalid base64 value"@,
                    )
                    &&& out.record is None
                    &&& final(engine).shard_maps() == old(engine).shard_maps()
                },
                Some(value) => match old(engine).set_refusal(params.key@, now) {
                    Some(err) => {
                        &&& out.result matches Err(e) && e@ == ApiErrorView::StorageError(err)
                        &&& out.record is None
                        &&& final(engine).shard_maps() == old(engine).shard_maps()
                    },
                    None => {
                        let entry = set_entry(old(engine)@, params.key@, value, params.ttl, now);
                        &&& out.result == Ok::<SetResponse, ApiError>(
                            SetResponse { success: true, version: entry.version },
                        )
                        &&& out.record matches Some(rec) && rec@ == set_record(params.key@, entry)
                        &&& final(engine).shard_maps() == apply_to_shards(
                            old(engine).shard_maps(),
                            set_record(params.key@, entry),
                        )
                        &&& final(engine).ttl_events() == queue_with(
                            old(engine).ttl_events(),
                            event_of(params.key@, entry),
                        )
                    },
                },
            }
        },
{
    match auth.authorize(ctx, "SET", params.key.as_str(), now_secs) {
        Ok(_) => {},
        Err((e, event)) => {
            return Handled {
                result: Err(ApiError::AuthError(e)),
                record: None,
                audit: Some(event),
            };
        },
    }
    let value = match base64_decode(params.value.as_str()) {
        Some(v) => v,
        None => {
            return Handled {
                result: Err(ApiError::InvalidRequest("Invalid base64 value".to_owned())),
                record: None,
                audit: None,
            };
        },
    };
    match engine.set_at(params.key.as_str(), value, params.ttl, now) {
        Ok(rec) => {
            let version: u64 = rec.version;
            Handled {
                result: Ok(SetResponse { success: true, version }),
                record: Some(rec),
                audit: None,
            }
        },
        Err(e) => Handled { result: Err(ApiError::StorageError(e)), record: None, audit: None },
    }
}

/// Answers a delete at `now`. The caller needs `DEL`.
pub fn delete_handler(
    engine: &mut StorageEngine,
    auth: &AuthManager,
    ctx: &AuthContext,
    params: &DeleteParams,
    now: u64,
    now_secs: u64,
) -> (out: Handled<DeleteResponse>)
    requires
        old(engine).wf(),
    ensures
        final(engine).wf(),
        final(engine).is_read_only() == old(engine).is_read_only(),
        final(engine).ttl_events() == old(engine).ttl_events(),
        if !has_permission(ctx@.permissions, "DEL"@) {
            &&& out.result matches Err(e) && e@ == ApiErrorView::AuthError(
                AuthErrorView::PermissionDenied("DEL"@, ctx@.user),
            )
            &&& out.audit matches Some(ev) && ev@ == denial_event(
                ctx@,
                "DEL"@,
                params.key@,
                now_secs,
            )
            &&& out.record is None
            &&& final(engine).shard_maps() == old(engine).shard_maps()
        } else {
            &&& out.audit is None
            &&& match old(engine).del_refusal(params.key@, None, now) {
                Some(err) => {
                    &&& out.result matches Err(e) && e@ == ApiErrorView::StorageError(err)
                    &&& out.record is None
                    &&& final(engine).shard_maps() == old(engine).shard_maps()
                },
                None => {
                    let rec = del_record(params.key@, old(engine)@[params.key@].version, now);
                    &&& out.result == Ok::<DeleteResponse, ApiError>(
                        DeleteResponse { success: true },
                    )
                    &&& out.record matches Some(r) && r@ == rec
                    &&& final(engine).shard_maps() == apply_to_shards(
                        old(engine).shard_maps(),
                        rec,
                    )
                },
            }
        },
{
    match auth.authorize(ctx, "DEL", params.key.as_str(), now_secs) {
        Ok(_) => {},
        Err((e, event)) => {
            return Handled {
                result: Err(ApiError::AuthError(e)),
                record: None,
                audit: Some(event),
            };
        },
    }
    match engine.del_at(params.key.as_str(), None, now) {
        Ok(rec) => Handled {
            result: Ok(DeleteResponse { success: true }),
            record: Some(rec),
            audit: None,
        },
        Err(e) => Handled { result: Err(ApiError::StorageError(e)), record: None, audit: None },
    }
}

} // verus!
