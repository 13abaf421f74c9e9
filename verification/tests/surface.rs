use kvstore_plus_plus::api::auth_middleware::{read_credentials, Credentials};
use kvstore_plus_plus::api::error::ApiError;
use kvstore_plus_plus::api::rest::handler::{delete_handler, get_handler, set_handler};
use kvstore_plus_plus::api::rest::types::{
    default_limit, DeleteParams, DeleteResponse, GetParams, SetParams, SetResponse,
};
use kvstore_plus_plus::auth::apikey::{ApiKeyRecord, ApiKeyValidator};
use kvstore_plus_plus::auth::jwt::JwtManager;
use kvstore_plus_plus::auth::manager::AuthManager;
use kvstore_plus_plus::auth::types::{AuthContext, AuthError, AuthMethod};
use kvstore_plus_plus::catalog::error::CatalogError;
use kvstore_plus_plus::catalog::keys::{api_key_key, auth_settings_key, user_key};
use kvstore_plus_plus::catalog::manager::{bootstrap_if_needed, BootstrapDocs, CatalogManager};
use kvstore_plus_plus::catalog::types::{AuditSettings, AuthSettings};
use kvstore_plus_plus::config::AppConfig;
use kvstore_plus_plus::connection::config::{default_idle_timeout, ConnectionConfig};
use kvstore_plus_plus::connection::manager::{
    find_connection_to_evict, must_evict, Candidate, ConnectionError,
};
use kvstore_plus_plus::connection::metrics::{
    dec_active, inc_accepted, inc_active, inc_evicted, ConnectionMetrics,
};
use kvstore_plus_plus::connection::types::{CloseReason, ConnectionInfo};
use kvstore_plus_plus::ctl::commands::keys::KeysArgs;
use kvstore_plus_plus::ctl::commands::snapshot::SnapshotCommand;
use kvstore_plus_plus::ctl::commands::user::{UserCommand, UserCreateArgs};
use kvstore_plus_plus::ctl::commands::wal::WalArgs;
use kvstore_plus_plus::ctl::types::KvCtlError;
use kvstore_plus_plus::ctl::{Commands, KvCtl};
use kvstore_plus_plus::storage::engine::StorageEngine;
use kvstore_plus_plus::storage::error::StorageError;
use kvstore_plus_plus::storage::types::StorageConfig;
use kvstore_plus_plus::text::{decimal_string, string_from_utf8};

fn engine() -> StorageEngine {
    StorageEngine::new(StorageConfig { num_shards: 4, snapshot_dir: String::new() })
}

fn ctx(perms: &[&str]) -> AuthContext {
    AuthContext {
        user: "alice".to_string(),
        roles: Vec::new(),
        permissions: perms.iter().map(|s| s.to_string()).collect(),
        source_ip: "10.0.0.1".to_string(),
        auth_method: AuthMethod::Password,
        session_id: "s1".to_string(),
    }
}

fn cand(id: u128, idle: u64, priority: u8, connected_at: u64) -> Candidate {
    Candidate { id, idle, priority, connected_at }
}

#[test]
fn numbers_are_written_in_decimal() {
    assert_eq!(decimal_string(0), "0");
    assert_eq!(decimal_string(9), "9");
    assert_eq!(decimal_string(10), "10");
    assert_eq!(decimal_string(u64::MAX), "18446744073709551615");
    assert_eq!(string_from_utf8(b"hi"), Some("hi".to_string()));
    assert_eq!(string_from_utf8(&[0xC3, 0x28]), None);
}

#[test]
fn star_or_the_operation_itself_permits() {
    let auth = AuthManager::new("secret".to_string());
    assert_eq!(auth.jwt_manager().secret(), "secret");
    assert!(auth.authorize(&ctx(&["*"]), "SET", "k", 1).is_ok());
    assert!(auth.authorize(&ctx(&["GET", "SET"]), "SET", "k", 1).is_ok());
    let (err, event) = auth.authorize(&ctx(&["GET"]), "SET", "k", 99).unwrap_err();
    match err {
        AuthError::PermissionDenied(op, user) => {
            assert_eq!(op, "SET");
            assert_eq!(user, "alice");
        }
        other => panic!("unexpected: {:?}", other),
    }
    assert_eq!(event.timestamp, 99);
    assert_eq!(event.event, "permission_denied");
    assert_eq!(event.user.as_deref(), Some("alice"));
    assert_eq!(event.source_ip, "10.0.0.1");
    assert_eq!(event.auth_method, "password");
    assert_eq!(event.op.as_deref(), Some("SET"));
    assert_eq!(event.key.as_deref(), Some("k"));
    assert!(!event.success);
    assert_eq!(event.details.as_deref(), Some("required permission: SET"));
    assert!(auth.authorize(&ctx(&[]), "GET", "k", 1).is_err());
}

#[test]
fn logins_build_the_context_and_the_event() {
    let auth = AuthManager::new("secret".to_string());
    let (c, ev) = auth.authenticate_api_key(
        "key1",
        "bob".to_string(),
        vec!["GET".to_string()],
        "1.2.3.4",
        "sess".to_string(),
        5,
    );
    assert_eq!(c.user, "bob");
    assert!(c.roles.is_empty());
    assert_eq!(c.permissions, vec!["GET".to_string()]);
    assert!(matches!(c.auth_method, AuthMethod::ApiKey(ref k) if k == "key1"));
    assert_eq!(c.auth_method.label(), "api_key");
    assert_eq!(ev.event, "login_success");
    assert_eq!(ev.key_id.as_deref(), Some("key1"));
    assert!(ev.success);
    let claims = auth
        .jwt_manager()
        .claims("carol", vec!["*".to_string()], 3600, 1000, "sid".to_string())
        .unwrap();
    assert_eq!(claims.exp, 4600);
    assert_eq!(claims.sub, "carol");
    let (c, ev) = auth.authenticate_jwt("tok", claims, "1.2.3.4", 6);
    assert_eq!(c.user, "carol");
    assert_eq!(c.session_id, "sid");
    assert_eq!(c.auth_method.label(), "jwt");
    assert_eq!(ev.auth_method, "jwt");
    assert_eq!(ev.user.as_deref(), Some("carol"));
    let failed = auth.login_failed("jwt", None, "1.2.3.4", "expired".to_string(), 7);
    assert_eq!(failed.event, "login_failed");
    assert!(!failed.success);
    assert_eq!(failed.details.as_deref(), Some("expired"));
    assert!(JwtManager::new("s".to_string())
        .claims("x", Vec::new(), u64::MAX, 1, String::new())
        .is_none());
}

#[test]
fn api_key_must_be_live_and_unrevoked() {
    let v = ApiKeyValidator::new();
    let mut rec = ApiKeyRecord {
        owner_user: "bob".to_string(),
        permissions: vec!["GET".to_string()],
        expires_at: Some(100),
        revoked: false,
    };
    let (user, perms) = v.validate(&rec, 100).unwrap();
    assert_eq!(user, "bob");
    assert_eq!(perms, vec!["GET".to_string()]);
    assert!(matches!(v.validate(&rec, 101), Err(AuthError::InvalidCredentials)));
    rec.expires_at = None;
    assert!(v.validate(&rec, i64::MAX).is_ok());
    rec.revoked = true;
    assert!(matches!(v.validate(&rec, 0), Err(AuthError::InvalidCredentials)));
}

#[test]
fn auth_errors_read_as_sentences() {
    assert_eq!(AuthError::InvalidCredentials.message(), "Invalid credentials");
    assert_eq!(AuthError::UserNotFound("u".to_string()).message(), "User not found: u");
    assert_eq!(AuthError::UserInactive.message(), "User inactive");
    assert_eq!(AuthError::AccountExpired.message(), "Account expired");
    assert_eq!(
        AuthError::PermissionDenied("SET".to_string(), "u".to_string()).message(),
        "Permission denied: SET not allowed for user u"
    );
    assert_eq!(AuthError::JwtError("bad".to_string()).message(), "JWT error: bad");
    assert_eq!(
        AuthError::CatalogError(CatalogError::Password("weak".to_string())).message(),
        "Catalog error: Password error: weak"
    );
    assert_eq!(
        AuthError::StorageError(StorageError::Io("x".to_string())).message(),
        "Storage error: I/O error: x"
    );
}

#[test]
fn api_errors_map_to_status_codes() {
    assert_eq!(ApiError::KeyNotFound("k".to_string()).status_code(), 404);
    assert_eq!(ApiError::PermissionDenied("x".to_string()).status_code(), 403);
    assert_eq!(ApiError::InvalidRequest("x".to_string()).status_code(), 400);
    assert_eq!(ApiError::AuthError(AuthError::InvalidCredentials).status_code(), 401);
    assert_eq!(
        ApiError::StorageError(StorageError::KeyNotFound("k".to_string())).status_code(),
        500
    );
    assert_eq!(ApiError::InternalServerError.status_code(), 500);
    assert_eq!(ApiError::InternalServerError.message(), "Internal server error");
    assert_eq!(ApiError::KeyNotFound("k".to_string()).message(), "Key not found: k");
    assert_eq!(
        ApiError::AuthError(AuthError::InvalidCredentials).message(),
        "Auth error: Invalid credentials"
    );
    assert_eq!(default_limit(), 100);
}

#[test]
fn handlers_write_read_and_delete() {
    let mut e = engine();
    let auth = AuthManager::new("s".to_string());
    let all = ctx(&["*"]);
    let set = set_handler(
        &mut e,
        &auth,
        &all,
        &SetParams { key: "k".to_string(), value: "d29ybGQ=".to_string(), ttl: None },
        10,
        1,
    );
    assert_eq!(set.result.unwrap(), SetResponse { success: true, version: 1 });
    assert_eq!(set.record.unwrap().value, b"world");
    assert!(set.audit.is_none());
    let again = set_handler(
        &mut e,
        &auth,
        &all,
        &SetParams { key: "k".to_string(), value: "".to_string(), ttl: Some(1) },
        11,
        1,
    );
    assert_eq!(again.result.unwrap().version, 2);
    let set = set_handler(
        &mut e,
        &auth,
        &all,
        &SetParams { key: "k".to_string(), value: "d29ybGQ=".to_string(), ttl: None },
        12,
        1,
    );
    assert_eq!(set.result.unwrap().version, 3);
    let get = get_handler(&e, &auth, &all, &GetParams { key: "k".to_string() }, 13, 1);
    let resp = get.result.unwrap();
    assert!(resp.found);
    assert_eq!(resp.value.as_deref(), Some("d29ybGQ="));
    assert_eq!(resp.version, 3);
    assert!(get.record.is_none());
    let del = delete_handler(&mut e, &auth, &all, &DeleteParams { key: "k".to_string() }, 14, 1);
    assert_eq!(del.result.unwrap(), DeleteResponse { success: true });
    assert_eq!(del.record.unwrap().version, 3);
    let gone = get_handler(&e, &auth, &all, &GetParams { key: "k".to_string() }, 15, 1);
    assert!(matches!(
        gone.result,
        Err(ApiError::StorageError(StorageError::KeyNotFound(_)))
    ));
}

#[test]
fn handlers_refuse_bad_input_and_missing_rights() {
    let mut e = engine();
    let auth = AuthManager::new("s".to_string());
    let bad = set_handler(
        &mut e,
        &auth,
        &ctx(&["SET"]),
        &SetParams { key: "k".to_string(), value: "!!!".to_string(), ttl: None },
        10,
        1,
    );
    match bad.result {
        Err(ApiError::InvalidRequest(m)) => assert_eq!(m, "Invalid base64 value"),
        other => panic!("unexpected: {:?}", other),
    }
    assert!(bad.record.is_none());
    let denied = set_handler(
        &mut e,
        &auth,
        &ctx(&["GET"]),
        &SetParams { key: "k".to_string(), value: "QQ==".to_string(), ttl: None },
        10,
        7,
    );
    assert!(matches!(denied.result, Err(ApiError::AuthError(AuthError::PermissionDenied(_, _)))));
    assert_eq!(denied.audit.unwrap().timestamp, 7);
    assert_eq!(e.key_count(), Some(0));
    e.set_at("k", b"v".to_vec(), None, 1).unwrap();
    let denied = get_handler(&e, &auth, &ctx(&["SET"]), &GetParams { key: "k".to_string() }, 2, 8);
    assert!(matches!(denied.result, Err(ApiError::AuthError(_))));
    assert_eq!(denied.audit.unwrap().op.as_deref(), Some("GET"));
    let denied =
        delete_handler(&mut e, &auth, &ctx(&["SET"]), &DeleteParams { key: "k".to_string() }, 2, 8);
    assert!(matches!(denied.result, Err(ApiError::AuthError(_))));
    assert!(e.exists_at("k", 2));
    let missing =
        delete_handler(&mut e, &auth, &ctx(&["DEL"]), &DeleteParams { key: "x".to_string() }, 2, 8);
    assert!(matches!(
        missing.result,
        Err(ApiError::StorageError(StorageError::KeyNotFound(_)))
    ));
}

#[test]
fn catalog_keys_are_reserved_names() {
    assert_eq!(user_key("admin"), "_sys.users:admin");
    assert_eq!(api_key_key("abc"), "_sys.api_keys:abc");
    assert_eq!(auth_settings_key(), "_sys.settings:auth");
}

#[test]
fn test_catalog_bootstrap_and_user_crud() {
    let mut engine = StorageEngine::new(StorageConfig::default());
    let catalog = CatalogManager::new();
    let docs = BootstrapDocs {
        roles: vec![
            ("admin".to_string(), b"{\"name\":\"admin\",\"permissions\":[\"*\"]}".to_vec()),
            ("reader".to_string(), b"{\"name\":\"reader\"}".to_vec()),
            ("writer".to_string(), b"{\"name\":\"writer\"}".to_vec()),
        ],
        admin_user: b"{\"username\":\"admin\"}".to_vec(),
        admin_grant: b"{\"username\":\"admin\",\"roles\":[\"admin\"]}".to_vec(),
        auth_settings: b"{}".to_vec(),
        audit_settings: b"{}".to_vec(),
    };
    let (records, bootstrapped) = bootstrap_if_needed(&mut engine, docs, 10);
    assert!(bootstrapped.unwrap());
    assert_eq!(records.len(), 7);
    assert_eq!(records[0].key, "_sys.roles:admin");
    assert_eq!(records[6].key, "_sys.settings:audit");
    let user = catalog.get_user(&engine, "admin", 11).unwrap();
    assert_eq!(user, b"{\"username\":\"admin\"}");
    let role = catalog.get_role(&engine, "admin", 11).unwrap();
    assert_eq!(role, b"{\"name\":\"admin\",\"permissions\":[\"*\"]}");
    let grant = catalog.get_grant(&engine, "admin", 11).unwrap();
    assert_eq!(grant, b"{\"username\":\"admin\",\"roles\":[\"admin\"]}");
    assert!(catalog.get_auth_settings(&engine, 11).is_ok());
    assert!(catalog.get_audit_settings(&engine, 11).is_ok());
    assert!(catalog.get_user(&engine, "nobody", 11).is_err());
    let again = BootstrapDocs {
        roles: Vec::new(),
        admin_user: Vec::new(),
        admin_grant: Vec::new(),
        auth_settings: Vec::new(),
        audit_settings: Vec::new(),
    };
    let (records, bootstrapped) = bootstrap_if_needed(&mut engine, again, 12);
    assert!(!bootstrapped.unwrap());
    assert!(records.is_empty());
    assert_eq!(catalog.get_user(&engine, "admin", 13).unwrap(), b"{\"username\":\"admin\"}");
    let rec = catalog.set_user(&mut engine, "dave", b"{}".to_vec(), 14).unwrap();
    assert_eq!(rec.key, "_sys.users:dave");
    catalog.set_role(&mut engine, "ops", b"r".to_vec(), 14).unwrap();
    catalog.set_grant(&mut engine, "dave", b"g".to_vec(), 14).unwrap();
    assert_eq!(catalog.get_grant(&engine, "dave", 15).unwrap(), b"g");
}

#[test]
fn catalog_settings_have_their_defaults() {
    let a = AuthSettings::default();
    assert_eq!(a.password_encryption, "scrypt");
    assert_eq!(a.min_password_length, 8);
    assert_eq!(a.login_attempt_limit, 5);
    assert_eq!(a.lockout_duration_sec, 300);
    assert_eq!(a.session_timeout_sec, 3600);
    let d = AuditSettings::default();
    assert!(d.log_successful_logins && d.log_failed_logins);
    assert_eq!(d.retain_logs_days, 90);
    assert_eq!(
        CatalogError::KeyNotFound("k".to_string()).message(),
        "System key not found: k"
    );
    assert_eq!(
        CatalogError::from_storage(StorageError::Io("x".to_string())).message(),
        "Storage error: I/O error: x"
    );
}

#[test]
fn app_config_defaults_are_valid() {
    let c = AppConfig::default();
    assert!(c.validate());
    assert_eq!(c.background.checkpoint_interval_sec, 60);
    let mut bad = AppConfig::default();
    bad.storage.num_shards = 3;
    assert!(!bad.validate());
    let mut bad = AppConfig::default();
    bad.wal.max_file_size = 44;
    assert!(!bad.validate());
    let mut bad = AppConfig::default();
    bad.background.checkpoint_interval_sec = 0;
    assert!(!bad.validate());
}

#[test]
fn connection_limits_have_their_defaults() {
    let c = ConnectionConfig::default();
    assert_eq!(c.max_connections, 1000);
    assert_eq!(c.idle_timeout_sec, 300);
    assert_eq!(c.evict_policy, "idle_then_priority");
    assert_eq!(c.idle_timeout_for("admin"), 300);
    assert_eq!(default_idle_timeout(), 300);
    assert!(must_evict(1000, 1000));
    assert!(!must_evict(999, 1000));
    assert_eq!(ConnectionError::MaxConnectionsExceeded.message(), "Max connections exceeded");
    assert_eq!(ConnectionError::NotFound.message(), "Connection not found");
}

#[test]
fn eviction_follows_the_policy() {
    let table = vec![cand(1, 50, 9, 300), cand(2, 90, 5, 100), cand(3, 90, 2, 200), cand(4, 10, 7, 100)];
    assert_eq!(find_connection_to_evict("idle_then_priority", &table), Some(3));
    assert_eq!(find_connection_to_evict("fifo", &table), Some(2));
    assert_eq!(find_connection_to_evict("priority_then_idle", &table), Some(4));
    assert_eq!(find_connection_to_evict("something_else", &table), Some(2));
    assert_eq!(find_connection_to_evict("fifo", &Vec::new()), None);
    let ties = vec![cand(7, 5, 1, 1), cand(8, 5, 1, 1)];
    assert_eq!(find_connection_to_evict("idle_then_priority", &ties), Some(7));
}

#[test]
fn connection_tracks_user_and_idle_time() {
    let mut c = ConnectionInfo::new(42, "1.2.3.4:5".to_string(), true, 1000);
    assert_eq!(c.id, 42);
    assert_eq!(c.priority, 0);
    assert!(c.user.is_none() && c.role.is_none());
    assert_eq!(c.idle_time(5000), 0);
    c.touch(2000);
    assert_eq!(c.idle_time(5000), 3000);
    assert_eq!(c.idle_time(1500), 0);
    c.set_user("alice".to_string(), "admin".to_string(), 255);
    assert_eq!(c.user.as_deref(), Some("alice"));
    assert_eq!(c.role.as_deref(), Some("admin"));
    assert_eq!(c.priority, 255);
    assert_eq!(CloseReason::IdleTimeout.label(), "idle_timeout");
    assert_eq!(CloseReason::MaxConnectionsReached.label(), "max_reached");
    assert_eq!(CloseReason::ClientClosed.label(), "client_closed");
    assert_eq!(CloseReason::ServerShutdown.label(), "server_shutdown");
    assert_eq!(CloseReason::AuthFailed.label(), "auth_failed");
}

#[test]
fn counters_count_by_label() {
    let mut m = ConnectionMetrics::new();
    inc_accepted(&mut m, "unknown");
    inc_accepted(&mut m, "admin");
    inc_accepted(&mut m, "admin");
    inc_evicted(&mut m, "idle_timeout");
    inc_active(&mut m, "admin");
    inc_active(&mut m, "admin");
    dec_active(&mut m, "admin");
    dec_active(&mut m, "reader");
    assert_eq!(m.accepted.get("admin"), Some(&2));
    assert_eq!(m.accepted.get("unknown"), Some(&1));
    assert_eq!(m.accepted.get("reader"), None);
    assert_eq!(m.evicted.get("idle_timeout"), Some(&1));
    assert_eq!(m.active.get("admin"), Some(&1));
    assert_eq!(m.active.get("reader"), Some(&-1));
}

#[test]
fn tool_reports_what_it_would_do() {
    let keys = KvCtl {
        server: "http://[::1]:9090".to_string(),
        command: Commands::Keys(KeysArgs {
            pattern: Some("user:*".to_string()),
            include_system: false,
            limit: 100,
        }),
    };
    assert_eq!(
        keys.run(),
        vec![
            "Scanning keys with pattern: Some(\"user:*\")".to_string(),
            "Note: SCAN not implemented in gRPC yet — returning empty".to_string(),
        ]
    );
    let wal = KvCtl {
        server: String::new(),
        command: Commands::Wal(WalArgs { lines: 10, follow: true }),
    };
    assert_eq!(
        wal.run(),
        vec![
            "WAL tailing not implemented in MVP — requires direct WAL file access".to_string(),
            "Requested: 10 lines, follow=true".to_string(),
        ]
    );
    let restore = KvCtl {
        server: String::new(),
        command: Commands::Snapshot(SnapshotCommand::Restore { filename: "s.bin".to_string() }),
    };
    assert_eq!(
        restore.run(),
        vec!["Restoring from s.bin... (not implemented — requires server RPC)".to_string()]
    );
    let create = KvCtl {
        server: String::new(),
        command: Commands::User(UserCommand::Create(UserCreateArgs {
            username: "bob".to_string(),
            password: None,
            roles: "reader".to_string(),
        })),
    };
    assert_eq!(create.run()[0], "Creating user: bob");
    assert_eq!(create.run()[1], "Roles: reader");
    assert_eq!(create.run().len(), 3);
    let delete = KvCtl {
        server: String::new(),
        command: Commands::User(UserCommand::Delete { username: "bob".to_string() }),
    };
    assert_eq!(delete.run(), vec!["Deleting user: bob".to_string()]);
    assert_eq!(
        KvCtlError::InvalidArgument("addr".to_string()).message(),
        "Invalid argument: addr"
    );
    assert_eq!(KvCtlError::Rpc("down".to_string()).message(), "RPC error: down");
}

#[test]
fn credentials_come_from_the_api_key_or_the_bearer_token() {
    assert!(matches!(read_credentials(Some("k1"), None), Credentials::ApiKey(ref k) if k == "k1"));
    assert!(matches!(
        read_credentials(Some("k1"), Some("Bearer t")),
        Credentials::ApiKey(ref k) if k == "k1"
    ));
    assert!(matches!(
        read_credentials(None, Some("Bearer abc.def")),
        Credentials::Bearer(ref t) if t == "abc.def"
    ));
    assert!(matches!(read_credentials(None, Some("Bearer ")), Credentials::Bearer(ref t) if t.is_empty()));
    assert!(matches!(read_credentials(None, Some("bearer abc")), Credentials::Missing));
    assert!(matches!(read_credentials(None, Some("Basic abc")), Credentials::Missing));
    assert!(matches!(read_credentials(None, Some("Bear")), Credentials::Missing));
    assert!(matches!(read_credentials(None, None), Credentials::Missing));
}
