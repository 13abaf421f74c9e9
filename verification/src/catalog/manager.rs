//! Reading and writing the catalog's entries.
//!
//! An entry of the catalog is a JSON document under a reserved key. The
//! library finds and stores the documents as bytes; reading the JSON is the
//! caller's work.

use crate::catalog::error::{CatalogError, CatalogErrorView};
use crate::catalog::keys::{audit_settings_key, auth_settings_key, grant_key, role_key, user_key};
use crate::storage::engine::{wal_views, StorageEngine};
use crate::storage::error::StorageErrorView;
use crate::storage::model::{
    apply_to_shards, replay_shards, set_entry, set_record, visible,
};
use crate::wal::entry::{WalEntry, WalEntryView};
use vstd::prelude::*;

verus! {

/// The documents that set the catalog up.
pub struct BootstrapDocs {
    /// The default roles, each a name and its document.
    pub roles: Vec<(String, Vec<u8>)>,
    /// The document of the user `admin`.
    pub admin_user: Vec<u8>,
    /// The document that grants `admin` its role.
    pub admin_grant: Vec<u8>,
    pub auth_settings: Vec<u8>,
    pub audit_settings: Vec<u8>,
}

pub struct CatalogManager {}

impl CatalogManager {
    pub fn new() -> Self {
        CatalogManager {  }
    }

    /// The document under `key`, as a reader at `now` sees it.
    pub fn get_document(&self, engine: &StorageEngine, key: &str, now: u64) -> (r: Result<
        Vec<u8>,
        CatalogError,
    >)
        requires
            engine.wf(),
        ensures
            match r {
                Ok(doc) => visible(engine@, key@, now) matches Some(e) && doc@ == e.value,
                Err(e) => visible(engine@, key@, now) is None && e@ == CatalogErrorView::Storage(
                    StorageErrorView::KeyNotFound(key@),
                ),
            },
    {
        match engine.get_at(key, now) {
            Ok(entry) => Ok(entry.value),
            Err(e) => Err(CatalogError::Storage(e)),
        }
    }

    /// Stores a document under `key` and hands back the record to log.
    pub fn set_document(&self, engine: &mut StorageEngine, key: &str, doc: Vec<u8>, now: u64) -> (r:
        Result<WalEntry, CatalogError>)
        requires
            old(engine).wf(),
        ensures
            final(engine).wf(),
            final(engine).is_read_only() == old(engine).is_read_only(),
            final(engine).ttl_events() == old(engine).ttl_events(),
            match r {
                Ok(rec) => {
                    let entry = set_entry(old(engine)@, key@, doc@, None, now);
                    &&& old(engine).set_refusal(key@, now) is None
                    &&& rec@ == set_record(key@, entry)
                    &&& final(engine).shard_maps() == apply_to_shards(
                        old(engine).shard_maps(),
                        rec@,
                    )
                    &&& final(engine)@ == old(engine)@.insert(key@, entry)
                },
                Err(e) => {
                    &&& final(engine).shard_maps() == old(engine).shard_maps()
                    &&& old(engine).set_refusal(key@, now) matches Some(err) && e@
                        == CatalogErrorView::Storage(err)
                },
            },
    {
        match engine.set_at(key, doc, None, now) {
            Ok(rec) => Ok(rec),
            Err(e) => Err(CatalogError::Storage(e)),
        }
    }

    /// The document of a user, from `_sys.users:<username>`.
    pub fn get_user(&self, engine: &StorageEngine, username: &str, now: u64) -> (r: Result<
        Vec<u8>,
        CatalogError,
    >)
        requires
            engine.wf(),
        ensures
            match r {
                Ok(doc) => visible(engine@, "_sys.users:"@ + username@, now) matches Some(e)
                    && doc@ == e.value,
                Err(e) => visible(engine@, "_sys.users:"@ + username@, now) is None && e@
                    == CatalogErrorView::Storage(
                        StorageErrorView::KeyNotFound("_sys.users:"@ + username@),
                    ),
            },
    {
        self.get_document(engine, user_key(username).as_str(), now)
    }

    /// Stores the document of a user.
    pub fn set_user(
        &self,
        engine: &mut StorageEngine,
        username: &str,
        doc: Vec<u8>,
        now: u64,
    ) -> (r: Result<WalEntry, CatalogError>)
        requires
            old(engine).wf(),
        ensures
            final(engine).wf(),
            final(engine).is_read_only() == old(engine).is_read_only(),
            final(engine).ttl_events() == old(engine).ttl_events(),
            r matches Ok(rec) ==> final(engine).shard_maps() == apply_to_shards(
                old(engine).shard_maps(),
                rec@,
            ) && rec@ == set_record(
                "_sys.users:"@ + username@,
                set_entry(old(engine)@, "_sys.users:"@ + username@, doc@, None, now),
            ),
            r matches Err(e) ==> final(engine).shard_maps() == old(engine).shard_maps() && (
            old(engine).set_refusal("_sys.users:"@ + username@, now) matches Some(err) && e@
                == CatalogErrorView::Storage(err)),
            r is Ok <==> old(engine).set_refusal("_sys.users:"@ + username@, now) is None,
    {
        self.set_document(engine, user_key(username).as_str(), doc, now)
    }

    /// The document of a role, from `_sys.roles:<name>`.
    pub fn get_role(&self, engine: &StorageEngine, role_name: &str, now: u64) -> (r: Result<
        Vec<u8>,
        CatalogError,
    >)
        requires
            engine.wf(),
        ensures
            match r {
                Ok(doc) => visible(engine@, "_sys.roles:"@ + role_name@, now) matches Some(e)
                    && doc@ == e.value,
                Err(e) => visible(engine@, "_sys.roles:"@ + role_name@, now) is None && e@
                    == CatalogErrorView::Storage(
                        StorageErrorView::KeyNotFound("_sys.roles:"@ + role_name@),
                    ),
            },
    {
        self.get_document(engine, role_key(role_name).as_str(), now)
    }

    /// Stores the document of a role.
    pub fn set_role(
        &self,
        engine: &mut StorageEngine,
        role_name: &str,
        doc: Vec<u8>,
        now: u64,
    ) -> (r: Result<WalEntry, CatalogError>)
        requires
            old(engine).wf(),
        ensures
            final(engine).wf(),
            final(engine).is_read_only() == old(engine).is_read_only(),
            final(engine).ttl_events() == old(engine).ttl_events(),
            r matches Ok(rec) ==> final(engine).shard_maps() == apply_to_shards(
                old(engine).shard_maps(),
                rec@,
            ) && rec@ == set_record(
                "_sys.roles:"@ + role_name@,
                set_entry(old(engine)@, "_sys.roles:"@ + role_name@, doc@, None, now),
            ),
            r matches Err(e) ==> final(engine).shard_maps() == old(engine).shard_maps() && (
            old(engine).set_refusal("_sys.roles:"@ + role_name@, now) matches Some(err) && e@
                == CatalogErrorView::Storage(err)),
            r is Ok <==> old(engine).set_refusal("_sys.roles:"@ + role_name@, now) is None,
    {
        self.set_document(engine, role_key(role_name).as_str(), doc, now)
    }

    /// The document of a user's grants, from `_sys.grants:<username>`.
    pub fn get_grant(&self, engine: &StorageEngine, username: &str, now: u64) -> (r: Result<
        Vec<u8>,
        CatalogError,
    >)
        requires
            engine.wf(),
        ensures
            match r {
                Ok(doc) => visible(engine@, "_sys.grants:"@ + username@, now) matches Some(e)
                    && doc@ == e.value,
                Err(e) => visible(engine@, "_sys.grants:"@ + username@, now) is None && e@
                    == CatalogErrorView::Storage(
                        StorageErrorView::KeyNotFound("_sys.grants:"@ + username@),
                    ),
            },
    {
        self.get_document(engine, grant_key(username).as_str(), now)
    }

    /// Stores the document of a user's grants.
    pub fn set_grant(
        &self,
        engine: &mut StorageEngine,
        username: &str,
        doc: Vec<u8>,
        now: u64,
    ) -> (r: Result<WalEntry, CatalogError>)
        requires
            old(engine).wf(),
        ensures
            final(engine).wf(),
            final(engine).is_read_only() == old(engine).is_read_only(),
            final(engine).ttl_events() == old(engine).ttl_events(),
            r matches Ok(rec) ==> final(engine).shard_maps() == apply_to_shards(
                old(engine).shard_maps(),
                rec@,
            ) && rec@ == set_record(
                "_sys.grants:"@ + username@,
                set_entry(old(engine)@, "_sys.grants:"@ + username@, doc@, None, now),
            ),
            r matches Err(e) ==> final(engine).shard_maps() == old(engine).shard_maps() && (
            old(engine).set_refusal("_sys.grants:"@ + username@, now) matches Some(err) && e@
                == CatalogErrorView::Storage(err)),
            r is Ok <==> old(engine).set_refusal("_sys.grants:"@ + username@, now) is None,
    {
        self.set_document(engine, grant_key(username).as_str(), doc, now)
    }

    /// The document of the authentication settings.
    pub fn get_auth_settings(&self, engine: &StorageEngine, now: u64) -> (r: Result<
        Vec<u8>,
        CatalogError,
    >)
        requires
            engine.wf(),
        ensures
            match r {
                Ok(doc) => visible(engine@, "_sys.settings:auth"@, now) matches Some(e) && doc@
                    == e.value,
                Err(e) => visible(engine@, "_sys.settings:auth"@, now) is None && e@
                    == CatalogErrorView::Storage(
                        StorageErrorView::KeyNotFound("_sys.settings:auth"@),
                    ),
            },
    {
        self.get_document(engine, auth_settings_key().as_str(), now)
    }

    /// The document of the audit settings.
    pub fn get_audit_settings(&self, engine: &StorageEngine, now: u64) -> (r: Result<
        Vec<u8>,
        CatalogError,
    >)
        requires
            engine.wf(),
        ensures
            match r {
                Ok(doc) => visible(engine@, "_sys.settings:audit"@, now) matches Some(e)
                    && doc@ == e.value,
                Err(e) => visible(engine@, "_sys.settings:audit"@, now) is None && e@
                    == CatalogErrorView::Storage(
                        StorageErrorView::KeyNotFound("_sys.settings:audit"@),
                    ),
            },
    {
        self.get_document(engine, audit_settings_key().as_str(), now)
    }
}

/// Sets the catalog up unless it is set up already.
///
/// The catalog counts as set up when a reader finds the authentication
/// settings. Then nothing is done and `None` comes back. Else the roles, the
/// user `admin`, its grant and the two settings are stored, in this order,
/// and the records to log come back. Where a document cannot be stored the
/// error comes back; what was stored before it stays, described by the
/// records handed back beside the error.
pub fn bootstrap_if_needed(engine: &mut StorageEngine, docs: BootstrapDocs, now: u64) -> (r: (
    Vec<WalEntry>,
    Result<bool, CatalogError>,
))
    requires
        old(engine).wf(),
    ensures
        final(engine).wf(),
        final(engine).is_read_only() == old(engine).is_read_only(),
        final(engine).ttl_events() == old(engine).ttl_events(),
        final(engine).shard_maps() == replay_shards(old(engine).shard_maps(), wal_views(r.0@)),
        visible(old(engine)@, "_sys.settings:auth"@, now) is Some ==> r.0@.len() == 0 && r.1
            == Ok::<bool, CatalogError>(false),
        visible(old(engine)@, "_sys.settings:auth"@, now) is None ==> (r.1 matches Ok(done)
            ==> done && r.0@.len() == docs.roles@.len() + 4),
        r.1 matches Ok(done) && done ==> forall|later: u64|
            (#[trigger] visible(final(engine)@, "_sys.settings:auth"@, later)) is Some,
        r.1 matches Ok(done) && done ==> final(engine)@["_sys.settings:auth"@].value
            == docs.auth_settings@ && final(engine)@.contains_key("_sys.settings:audit"@)
            && final(engine)@["_sys.settings:audit"@].value == docs.audit_settings@,
        r.1 matches Err(e) ==> e@ is Storage,
{
    let catalog = CatalogManager::new();
    let mut records: Vec<WalEntry> = Vec::new();
    assert(wal_views(records@) =~= Seq::<WalEntryView>::empty());
    if engine.exists_at(auth_settings_key().as_str(), now) {
        return (records, Ok(false));
    }
    let ghost start = engine.shard_maps();
    let BootstrapDocs { roles, admin_user, admin_grant, auth_settings, audit_settings } = docs;
    let mut i: usize = 0;
    while i < roles.len()
        invariant
            i <= roles@.len(),
            engine.wf(),
            engine.is_read_only() == old(engine).is_read_only(),
            engine.ttl_events() == old(engine).ttl_events(),
            records@.len() == i,
            start == old(engine).shard_maps(),
            visible(old(engine)@, "_sys.settings:auth"@, now) is None,
            engine.shard_maps() == replay_shards(start, wal_views(records@)),
        decreases roles@.len() - i,
    {
        let doc = roles[i].1.clone();
        match catalog.set_role(engine, roles[i].0.as_str(), doc, now) {
            Ok(rec) => {
                let ghost before = wal_views(records@);
                records.push(rec);
                proof {
                    assert(wal_views(records@).drop_last() =~= before);
                }
            },
            Err(e) => {
                return (records, Err(e));
            },
        }
        i = i + 1;
    }
    let ghost before = wal_views(records@);
    match catalog.set_user(engine, "admin", admin_user, now) {
        Ok(rec) => {
            records.push(rec);
        },
        Err(e) => {
            return (records, Err(e));
        },
    }
    assert(wal_views(records@).drop_last() =~= before);
    assert(engine.shard_maps() == replay_shards(start, wal_views(records@)));
    let ghost before = wal_views(records@);
    match catalog.set_grant(engine, "admin", admin_grant, now) {
        Ok(rec) => {
            records.push(rec);
        },
        Err(e) => {
            return (records, Err(e));
        },
    }
    assert(wal_views(records@).drop_last() =~= before);
    assert(engine.shard_maps() == replay_shards(start, wal_views(records@)));
    let ghost before = wal_views(records@);
    match catalog.set_document(engine, auth_settings_key().as_str(), auth_settings, now) {
        Ok(rec) => {
            records.push(rec);
        },
        Err(e) => {
            return (records, Err(e));
        },
    }
    assert(wal_views(records@).drop_last() =~= before);
    assert(engine.shard_maps() == replay_shards(start, wal_views(records@)));
    let ghost before = wal_views(records@);
    proof {
        reveal_strlit("_sys.settings:auth");
        reveal_strlit("_sys.settings:audit");
        assert("_sys.settings:auth"@.len() != "_sys.settings:audit"@.len());
    }
    match catalog.set_document(engine, audit_settings_key().as_str(), audit_settings, now) {
        Ok(rec) => {
            records.push(rec);
        },
        Err(e) => {
            return (records, Err(e));
        },
    }
    assert(wal_views(records@).drop_last() =~= before);
    assert(engine.shard_maps() == replay_shards(start, wal_views(records@)));
    (records, Ok(true))
}

} // verus!
