//! Authentication outcomes and the permission check.

use crate::auth::audit::{AuditEvent, AuditEventView};
use crate::auth::jwt::{Claims, JwtManager};
use crate::auth::types::{
    AuthContext, AuthContextView, AuthError, AuthErrorView, AuthMethod, AuthMethodView,
};
use crate::text::{concat, contains_string, option_text, strings_view};
use vstd::prelude::*;

verus! {

/// Whether a caller with these permissions may do `op`: it holds `*`, which
/// stands for every operation, or `op` itself.
pub open spec fn has_permission(permissions: Seq<Seq<char>>, op: Seq<char>) -> bool {
    permissions.contains("*"@) || permissions.contains(op)
}

/// The event logged when an operation is denied.
pub open spec fn denial_event(
    ctx: AuthContextView,
    op: Seq<char>,
    key: Seq<char>,
    timestamp: u64,
) -> AuditEventView {
    AuditEventView {
        timestamp,
        event: "permission_denied"@,
        user: Some(ctx.user),
        source_ip: ctx.source_ip,
        auth_method: ctx.auth_method.label(),
        key_id: None,
        op: Some(op),
        key: Some(key),
        success: false,
        details: Some("required permission: "@ + op),
    }
}

/// The event logged for a login.
pub open spec fn login_event(
    timestamp: u64,
    user: Option<Seq<char>>,
    source_ip: Seq<char>,
    method: Seq<char>,
    key_id: Option<Seq<char>>,
    failure: Option<Seq<char>>,
) -> AuditEventView {
    AuditEventView {
        timestamp,
        event: if failure is None {
            "login_success"@
        } else {
            "login_failed"@
        },
        user,
        source_ip,
        auth_method: method,
        key_id,
        op: None,
        key: None,
        success: failure is None,
        details: failure,
    }
}

pub struct AuthManager {
    jwt_manager: JwtManager,
}

impl AuthManager {
    pub fn new(jwt_secret: String) -> (m: Self)
        ensures
            m.jwt().secret_text() == jwt_secret@,
    {
        AuthManager { jwt_manager: JwtManager::new(jwt_secret) }
    }

    pub closed spec fn jwt(&self) -> JwtManager {
        self.jwt_manager
    }

    pub fn jwt_manager(&self) -> (j: &JwtManager)
        ensures
            *j == self.jwt(),
    {
        &self.jwt_manager
    }

    /// The caller behind a good API key, and the event to log. The key's own
    /// permissions count; roles are not looked at.
    pub fn authenticate_api_key(
        &self,
        key_id: &str,
        user: String,
        permissions: Vec<String>,
        source_ip: &str,
        session_id: String,
        now_secs: u64,
    ) -> (r: (AuthContext, AuditEvent))
        ensures
            r.0@ == (AuthContextView {
                user: user@,
                roles: Seq::empty(),
                permissions: strings_view(permissions@),
                source_ip: source_ip@,
                auth_method: AuthMethodView::ApiKey(key_id@),
                session_id: session_id@,
            }),
            r.1@ == login_event(
                now_secs,
                Some(user@),
                source_ip@,
                "api_key"@,
                Some(key_id@),
                None,
            ),
    {
        let event = AuditEvent {
            timestamp: now_secs,
            event: "login_success".to_owned(),
            user: Some(user.clone()),
            source_ip: source_ip.to_owned(),
            auth_method: "api_key".to_owned(),
            key_id: Some(key_id.to_owned()),
            op: None,
            key: None,
            success: true,
            details: None,
        };
        let roles: Vec<String> = Vec::new();
        assert(strings_view(roles@) =~= Seq::<Seq<char>>::empty());
        let ctx = AuthContext {
            user,
            roles,
            permissions,
            source_ip: source_ip.to_owned(),
            auth_method: AuthMethod::ApiKey(key_id.to_owned()),
            session_id,
        };
        (ctx, event)
    }

    /// The caller behind a token whose signature held, and the event to
    /// log. The token is trusted for what it claims.
    pub fn authenticate_jwt(
        &self,
        token: &str,
        claims: Claims,
        source_ip: &str,
        now_secs: u64,
    ) -> (r: (AuthContext, AuditEvent))
        ensures
            r.0@ == (AuthContextView {
                user: claims@.sub,
                roles: Seq::empty(),
                permissions: claims@.perms,
                source_ip: source_ip@,
                auth_method: AuthMethodView::Jwt(token@),
                session_id: claims@.session_id,
            }),
            r.1@ == login_event(now_secs, Some(claims@.sub), source_ip@, "jwt"@, None, None),
    {
        let event = AuditEvent {
            timestamp: now_secs,
            event: "login_success".to_owned(),
            user: Some(claims.sub.clone()),
            source_ip: source_ip.to_owned(),
            auth_method: "jwt".to_owned(),
            key_id: None,
            op: None,
            key: None,
            success: true,
            details: None,
        };
        let roles: Vec<String> = Vec::new();
        assert(strings_view(roles@) =~= Seq::<Seq<char>>::empty());
        let ctx = AuthContext {
            user: claims.sub,
            roles,
            permissions: claims.perms,
            source_ip: source_ip.to_owned(),
            auth_method: AuthMethod::Jwt(token.to_owned()),
            session_id: claims.session_id,
        };
        (ctx, event)
    }

    /// The event to log for a login that failed; `method` is `api_key` or
    /// `jwt`, `reason` the failure in words.
    pub fn login_failed(
        &self,
        method: &str,
        key_id: Option<String>,
        source_ip: &str,
        reason: String,
        now_secs: u64,
    ) -> (event: AuditEvent)
        ensures
            event@ == login_event(
                now_secs,
                None,
                source_ip@,
                method@,
                option_text(key_id),
                Some(reason@),
            ),
    {
        AuditEvent {
            timestamp: now_secs,
            event: "login_failed".to_owned(),
            user: None,
            source_ip: source_ip.to_owned(),
            auth_method: method.to_owned(),
            key_id,
            op: None,
            key: None,
            success: false,
            details: Some(reason),
        }
    }

    /// Whether the caller may do `op` on `key`. A caller may do what its
    /// permissions name, and everything where they hold `*`. A denial comes
    /// with the event to log.
    pub fn authorize(&self, ctx: &AuthContext, op: &str, key: &str, now_secs: u64) -> (r: Result<
        (),
        (AuthError, AuditEvent),
    >)
        ensures
            r is Ok <==> has_permission(ctx@.permissions, op@),
            r matches Err((e, event)) ==> e@ == AuthErrorView::PermissionDenied(op@, ctx@.user)
                && event@ == denial_event(ctx@, op@, key@, now_secs),
    {
        if contains_string(&ctx.permissions, "*") || contains_string(&ctx.permissions, op) {
            Ok(())
        } else {
            let event = AuditEvent {
                timestamp: now_secs,
                event: "permission_denied".to_owned(),
                user: Some(ctx.user.clone()),
                source_ip: ctx.source_ip.clone(),
                auth_method: ctx.auth_method.label(),
                key_id: None,
                op: Some(op.to_owned()),
                key: Some(key.to_owned()),
                success: false,
                details: Some(concat("required permission: ", op)),
            };
            Err((AuthError::PermissionDenied(op.to_owned(), ctx.user.clone()), event))
        }
    }
}

} // verus!
