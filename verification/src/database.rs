//! A database as its callers hold it.

use crate::collections::lists_blocks;
use crate::db_list::{
    chars_in, get_persistent_database_list, merge_database_names, sorted, stored_names,
};
use crate::leadership::{
    denied, leader_answer, leader_info, leader_only, leader_status, leadership_requested, permit,
    Election, LeaderInfo, StorageStatus, WaitPhase,
};
use crate::names::{
    bare_name, indexeddb_name, law_normalizing_once_is_enough, normalize_db_name, normalized_name,
    pool_key, test_lock_name, vfs_name,
};
use crate::numbers::decimal;
use crate::open::{
    begun_opening, metrics_failure, plain_error, reachable_opening, settings, OpenPhase, OpenState,
    Opening, Setting,
};
use crate::procedure::{
    after_part, begun_procedure, procedure_over, OnFailure, Part, Policy, Procedure, Progress,
    Reason, Work,
};
use crate::sql::{leading, leading_text};
use crate::statement::{
    begun, has_nul, holds_nul, params_in, reachable, text_in, StatementRun,
};
use crate::storage::{lists_checksums, BlockMetadataPersist, GlobalStorage, GlobalView};
use crate::telemetry::{election_measured, measure_election, Metric};
use crate::text::concat;
use crate::types::{all_texts, ColumnValue, DatabaseConfig, DatabaseError};
use crate::write_queue::{begun_write, QueuedWrite, DEFAULT_TIMEOUT_MS};
use vstd::prelude::*;

verus! {

/// An open database.
#[derive(Debug)]
pub struct Database {
    /// The name, with the extension `.db`.
    pub name: String,
    /// Whether this instance may write though it is not the leader.
    pub allow_non_leader_writes: bool,
    /// The largest export in bytes, if exports are limited.
    pub max_export_size_bytes: Option<u64>,
    /// Whether there is a connection to SQLite.
    pub connected: bool,
}

/// The statement that moves what is in the log into the database, without
/// waiting for others.
pub open spec fn checkpoint_sql() -> Seq<char> {
    "PRAGMA wal_checkpoint(PASSIVE)"@
}

/// The largest export in bytes, unless it is said otherwise.
pub const DEFAULT_MAX_EXPORT_BYTES: u64 = 2_147_483_648;

/// For what a connection is opened.
#[derive(Clone, Copy, Debug, PartialEq, Eq, Structural)]
pub enum Opener {
    /// For a new database, with the virtual file system of its own.
    New,
    /// For a new database, with a given virtual file system.
    WithVfs,
    /// For a database that has been imported.
    Reopen,
}

/// Whether SQLite can be given these names, which may not hold a NUL character.
pub fn check_names(database: &str, vfs: &str) -> (r: Result<(), String>)
    ensures
        r is Ok <==> !holds_nul(database@) && !holds_nul(vfs@),
        r matches Err(error) ==> error@ == if holds_nul(database@) {
            "Invalid database name"@
        } else {
            "Invalid VFS name"@
        },
{
    if has_nul(database) {
        Err("Invalid database name".to_owned())
    } else if has_nul(vfs) {
        Err("Invalid VFS name".to_owned())
    } else {
        Ok(())
    }
}

/// The error where SQLite does not open a connection. `has_handle` says whether
/// there is a handle all the same, and `message` is the message of SQLite, if it
/// has one.
pub fn open_failure(opener: Opener, has_handle: bool, message: Option<String>) -> (error: String)
    ensures
        error@ == (match opener {
            Opener::New => "Failed to open database with IndexedDB VFS: "@,
            Opener::WithVfs => "SQLITE_ERROR: "@,
            Opener::Reopen => "Failed to reopen database after import: "@,
        }) + if opener is WithVfs && !has_handle {
            "Failed to open database"@
        } else {
            match message {
                Some(message) => message@,
                None => "Unknown error"@,
            }
        },
{
    let prefix: &str = match opener {
        Opener::New => "Failed to open database with IndexedDB VFS: ",
        Opener::WithVfs => "SQLITE_ERROR: ",
        Opener::Reopen => "Failed to reopen database after import: ",
    };
    let with_vfs: bool = match opener {
        Opener::WithVfs => true,
        _ => false,
    };
    if with_vfs && !has_handle {
        return concat(prefix, "Failed to open database");
    }
    match message {
        Some(message) => concat(prefix, message.as_str()),
        None => concat(prefix, "Unknown error"),
    }
}

/// A database that is being opened with a given virtual file system.
#[derive(Debug)]
pub struct VfsOpening {
    /// The name, with the extension `.db`.
    pub name: String,
    /// The name under which its connections are pooled.
    pub pool_key: String,
    /// The virtual file system.
    pub vfs: String,
}

impl VfsOpening {
    /// The open database, once the pool has given a connection and the metrics
    /// are set up, or one of these has failed with its error.
    pub fn finish(self, pool_error: Option<String>, metrics_error: Option<String>) -> (r: Result<
        Database,
        DatabaseError,
    >)
        ensures
            r is Ok <==> pool_error is None && metrics_error is None,
            r matches Ok(database) ==> {
                &&& database.name@ == self.name@
                &&& !database.allow_non_leader_writes
                &&& database.max_export_size_bytes == Some(DEFAULT_MAX_EXPORT_BYTES)
                &&& database.connected
            },
            r matches Err(e) ==> e@ == match pool_error {
                Some(reason) => plain_error("OPEN_ERROR"@, reason@),
                None => crate::open::metrics_error(metrics_error->0@),
            },
    {
        match (pool_error, metrics_error) {
            (Some(reason), _) => Err(DatabaseError::new("OPEN_ERROR", reason.as_str())),
            (None, Some(reason)) => Err(metrics_failure(reason.as_str())),
            (None, None) => Ok(
                Database {
                    name: self.name,
                    allow_non_leader_writes: false,
                    max_export_size_bytes: Some(DEFAULT_MAX_EXPORT_BYTES),
                    connected: true,
                },
            ),
        }
    }
}

/// Why a statement is not run.
#[derive(Debug)]
pub enum ExecuteError {
    /// This instance may not run it.
    Denied(DatabaseError),
    /// It cannot be run.
    Failed(DatabaseError),
    /// There is no connection to run it on.
    NoConnection,
}

/// What callers outside are told about.
#[derive(Clone, Copy, Debug, PartialEq, Eq, Structural)]
pub enum Complaint {
    /// This instance may not run a statement.
    WriteDenied,
    /// A statement failed.
    ExecutionFailed,
    /// The parameters of a statement cannot be read.
    InvalidParameters,
    /// A database cannot be opened.
    NotCreated,
    /// Requests of other instances cannot be listened for.
    NoQueueListener,
    /// Changes by other instances cannot be listened for.
    NoChangeListener,
}

/// What callers are told before the error itself.
pub open spec fn complaint_prefix(complaint: Complaint) -> Seq<char> {
    match complaint {
        Complaint::WriteDenied => "Write permission denied: "@,
        Complaint::ExecutionFailed => "Query execution failed: "@,
        Complaint::InvalidParameters => "Invalid parameters: "@,
        Complaint::NotCreated => "Failed to create database: "@,
        Complaint::NoQueueListener => "Failed to register write queue listener: "@,
        Complaint::NoChangeListener => "Failed to register change listener: "@,
    }
}

/// What callers are told of an error that is shown as `error`.
pub fn complain(complaint: Complaint, error: &str) -> (text: String)
    ensures
        text@ == complaint_prefix(complaint) + error@,
{
    match complaint {
        Complaint::WriteDenied => concat("Write permission denied: ", error),
        Complaint::ExecutionFailed => concat("Query execution failed: ", error),
        Complaint::InvalidParameters => concat("Invalid parameters: ", error),
        Complaint::NotCreated => concat("Failed to create database: ", error),
        Complaint::NoQueueListener => concat("Failed to register write queue listener: ", error),
        Complaint::NoChangeListener => concat("Failed to register change listener: ", error),
    }
}

/// The settings of a connection to a database of which only the name is given.
pub open spec fn default_settings() -> Seq<Setting> {
    seq![
        Setting { sql: "PRAGMA busy_timeout = 10000"@, strict: true },
        Setting { sql: "PRAGMA page_size = "@ + decimal(4096), strict: true },
        Setting { sql: "PRAGMA cache_size = "@ + decimal(10_000), strict: true },
        Setting { sql: "PRAGMA journal_mode = "@ + "WAL"@, strict: false },
        Setting { sql: "PRAGMA auto_vacuum = 1"@, strict: true },
    ]
}

/// What a sync has collected, and how it goes on.
#[derive(Debug)]
pub struct SyncWork {
    /// The number of the commit.
    pub commit_marker: u64,
    /// The blocks of the database.
    pub blocks: Vec<(u64, Vec<u8>)>,
    /// The checksums of its blocks.
    pub checksums: Vec<(u64, u64)>,
    /// What is left to do.
    pub procedure: Procedure,
}

/// The parts of a sync, after the blocks are collected.
pub open spec fn sync_tasks(name: Seq<char>, blocks: nat) -> Seq<(Part, Policy)> {
    let notify = (Part::Notify { database: name }, Policy::Ignore);
    if blocks > 0 {
        seq![(Part::Persist, Policy::Keep), notify]
    } else {
        seq![notify]
    }
}

/// The parts of closing a database.
pub open spec fn close_tasks(name: Seq<char>, connected: bool) -> Seq<(Part, Policy)> {
    if connected {
        seq![
            (Part::Execute { sql: checkpoint_sql() }, Policy::Ignore),
            (Part::Sync, Policy::Keep),
            (Part::StopElection { database: name }, Policy::Ignore),
        ]
    } else {
        Seq::empty()
    }
}

/// The parts of closing a database and its connection for good.
pub open spec fn force_close_tasks(name: Seq<char>) -> Seq<(Part, Policy)> {
    seq![
        (Part::Close, Policy::Ignore),
        (Part::ForceClose { pool_key: bare_name(name) }, Policy::Ignore),
        (Part::CleanUp { pool_key: bare_name(name) }, Policy::Explain("Cleanup failed: "@)),
    ]
}

/// The parts of an export. What is still in the log, or not synced, is brought
/// into the blocks first.
pub open spec fn export_tasks(name: Seq<char>, max_bytes: Option<u64>) -> Seq<(Part, Policy)> {
    seq![
        (Part::Lock { name }, Policy::Keep),
        (
            Part::FindStorage { database: name },
            Policy::Replace("Storage not found for database: "@ + name),
        ),
        (Part::ReloadCache, Policy::Ignore),
        (Part::Checkpoint { sql: checkpoint_sql() }, Policy::Ignore),
        (Part::SyncStorage, Policy::Explain("Sync failed: "@)),
        (Part::Export { max_bytes }, Policy::Explain("Export failed: "@)),
    ]
}

/// The parts of an import. The old connection is dropped before the blocks are
/// replaced, and there is a new one after it.
pub open spec fn import_tasks(name: Seq<char>, data: Seq<u8>) -> Seq<(Part, Policy)> {
    seq![
        (Part::Lock { name }, Policy::Keep),
        (Part::Close, Policy::Explain("Failed to close before import: "@)),
        (Part::DropConnection { pool_key: bare_name(name) }, Policy::Ignore),
        (Part::Import { database: name, data }, Policy::Explain("Import failed: "@)),
        (
            Part::Reopen {
                pool_key: bare_name(name),
                database: name,
                vfs: "vfs_"@ + bare_name(name),
            },
            Policy::Explain("Failed to reopen connection after import: "@),
        ),
    ]
}

/// The parts of deleting a database, but for what is in memory.
pub open spec fn delete_tasks(name: Seq<char>) -> Seq<(Part, Policy)> {
    seq![
        (Part::RemoveStorage { database: name }, Policy::Ignore),
        (Part::FindIndexedDb, Policy::Explain("Failed to access indexedDB: "@)),
        (Part::CastIndexedDb, Policy::Replace("indexedDB is not available"@)),
        (
            Part::DeleteIndexedDb { name: "absurder_"@ + name },
            Policy::Explain("Failed to delete IndexedDB: "@),
        ),
        (Part::Unlist { database: name }, Policy::Keep),
    ]
}

/// Whether there is a connection after a part of an import.
pub open spec fn connected_after(connected: bool, part: Part, ok: bool) -> bool {
    match part {
        Part::DropConnection { .. } => false,
        Part::Reopen { .. } => connected || ok,
        _ => connected,
    }
}

impl Database {
    /// Begins to open a database.
    pub fn new(config: &DatabaseConfig) -> (r: Result<Opening, DatabaseError>)
        ensures
            r is Err <==> holds_nul("vfs_"@ + bare_name(normalized_name(config.name@))),
            r matches Err(e) ==> e.is("INVALID_VFS_NAME"@, "Invalid VFS name"@),
            r matches Ok(opening) ==> opening@ == begun_opening(*config) && reachable_opening(
                opening@,
            ),
    {
        Opening::begin(config)
    }

    /// How a database is opened where only its name is given.
    pub fn default_config(name: &str) -> (config: DatabaseConfig)
        ensures
            config.name@ == normalized_name(name@),
            config.version == Some(1u32),
            config.cache_size == Some(10_000usize),
            config.page_size == Some(4096usize),
            config.auto_vacuum == Some(true),
            text_in(config.journal_mode) == Some("WAL"@),
            config.max_export_size_bytes == Some(DEFAULT_MAX_EXPORT_BYTES),
    {
        DatabaseConfig {
            name: normalize_db_name(name),
            version: Some(1),
            cache_size: Some(10_000),
            page_size: Some(4096),
            auto_vacuum: Some(true),
            journal_mode: Some("WAL".to_owned()),
            max_export_size_bytes: Some(DEFAULT_MAX_EXPORT_BYTES),
        }
    }

    /// Begins to open a database with a given virtual file system.
    pub fn open_with_vfs(filename: &str, vfs: &str) -> (opening: VfsOpening)
        ensures
            opening.name@ == normalized_name(filename@),
            opening.pool_key@ == bare_name(normalized_name(filename@)),
            opening.vfs@ == vfs@,
    {
        let name: String = normalize_db_name(filename);
        let key: String = pool_key(name.as_str());
        VfsOpening { name, pool_key: key, vfs: vfs.to_owned() }
    }

    /// Begins to open a database of which only the name is given.
    pub fn new_wasm(name: &str) -> (r: Result<Opening, DatabaseError>)
        ensures
            r is Err <==> holds_nul("vfs_"@ + bare_name(normalized_name(name@))),
            r matches Err(e) ==> e.is("INVALID_VFS_NAME"@, "Invalid VFS name"@),
            r matches Ok(opening) ==> reachable_opening(opening@) && opening@ == (OpenState {
                name: normalized_name(name@),
                settings: default_settings(),
                max_export_size_bytes: Some(DEFAULT_MAX_EXPORT_BYTES),
                phase: OpenPhase::FindVfs,
                error: None,
            }),
    {
        let config: DatabaseConfig = Self::default_config(name);
        proof {
            law_normalizing_once_is_enough(name@);
            assert(settings(config) =~= default_settings());
        }
        Self::new(&config)
    }

    /// The name, with the extension `.db`.
    pub fn name(&self) -> (name: String)
        ensures
            name@ == self.name@,
    {
        self.name.clone()
    }

    /// Lets this instance write though it is not the leader, or not.
    pub fn allow_non_leader_writes(&mut self, allow: bool)
        ensures
            *final(self) == (Database { allow_non_leader_writes: allow, ..*old(self) }),
    {
        self.allow_non_leader_writes = allow;
    }

    /// Whether this instance may run a statement.
    pub fn check_write_permission(&self, sql: &str, status: StorageStatus) -> (r: Result<
        (),
        DatabaseError,
    >)
        ensures
            r is Ok <==> !leader_only(leading(sql@), self.allow_non_leader_writes)
                || status is Missing || status is Leader,
            r matches Err(e) ==> denied(e, status),
    {
        let upper: String = leading_text(sql);
        permit(upper.as_str(), self.allow_non_leader_writes, status)
    }

    /// Begins to run a statement without parameters.
    pub fn execute_internal(&self, sql: &str, metrics: &mut Vec<Metric>) -> (r: Result<
        StatementRun,
        DatabaseError,
    >)
        requires
            self.connected,
        ensures
            final(metrics)@ == old(metrics)@.push(Metric::QueriesTotal),
            r is Err <==> holds_nul(sql@),
            r matches Err(e) ==> e.is("INVALID_SQL"@, "Invalid SQL string"@),
            r matches Ok(run) ==> run@ == begun(sql@, leading(sql@), None) && reachable(run@),
    {
        metrics.push(Metric::QueriesTotal);
        StatementRun::start(sql, None)
    }

    /// Begins to run a statement with parameters.
    pub fn execute_with_params_internal(
        &self,
        sql: &str,
        params: Vec<ColumnValue>,
        metrics: &mut Vec<Metric>,
    ) -> (r: Result<StatementRun, DatabaseError>)
        requires
            self.connected || holds_nul(sql@),
            params@.len() <= i32::MAX,
        ensures
            final(metrics)@ == old(metrics)@.push(Metric::QueriesTotal),
            r is Err <==> holds_nul(sql@),
            r matches Err(e) ==> e.is("INVALID_SQL"@, "Invalid SQL string"@),
            r matches Ok(run) ==> run@ == begun(sql@, leading(sql@), params_in(Some(params)))
                && reachable(run@),
    {
        metrics.push(Metric::QueriesTotal);
        StatementRun::start(sql, Some(params))
    }

    /// Begins to run a statement, if this instance may.
    pub fn execute(&self, sql: &str, status: StorageStatus, metrics: &mut Vec<Metric>) -> (r:
        Result<StatementRun, ExecuteError>)
        ensures
            final(metrics)@ == if r matches Err(ExecuteError::Denied(_)) {
                old(metrics)@
            } else {
                old(metrics)@.push(Metric::QueriesTotal)
            },
            r matches Err(ExecuteError::Denied(_)) <==> leader_only(
                leading(sql@),
                self.allow_non_leader_writes,
            ) && (status is Follower || status is Busy),
            r matches Err(ExecuteError::Denied(e)) ==> denied(e, status),
            r matches Err(ExecuteError::NoConnection) ==> !self.connected,
            r matches Err(ExecuteError::Failed(e)) ==> {
                &&& self.connected
                &&& holds_nul(sql@)
                &&& e.is("INVALID_SQL"@, "Invalid SQL string"@)
            },
            r matches Ok(run) ==> {
                &&& self.connected
                &&& !holds_nul(sql@)
                &&& run@ == begun(sql@, leading(sql@), None)
                &&& reachable(run@)
            },
    {
        match self.check_write_permission(sql, status) {
            Err(e) => Err(ExecuteError::Denied(e)),
            Ok(_) => if !self.connected {
                metrics.push(Metric::QueriesTotal);
                Err(ExecuteError::NoConnection)
            } else {
                match self.execute_internal(sql, metrics) {
                    Ok(run) => Ok(run),
                    Err(e) => Err(ExecuteError::Failed(e)),
                }
            },
        }
    }

    /// Begins to run a statement with parameters, if this instance may.
    pub fn execute_with_params(
        &self,
        sql: &str,
        params: Vec<ColumnValue>,
        status: StorageStatus,
        metrics: &mut Vec<Metric>,
    ) -> (r: Result<StatementRun, ExecuteError>)
        requires
            params@.len() <= i32::MAX,
        ensures
            final(metrics)@ == if r matches Err(ExecuteError::Denied(_)) {
                old(metrics)@
            } else {
                old(metrics)@.push(Metric::QueriesTotal)
            },
            r matches Err(ExecuteError::Denied(_)) <==> leader_only(
                leading(sql@),
                self.allow_non_leader_writes,
            ) && (status is Follower || status is Busy),
            r matches Err(ExecuteError::Denied(e)) ==> denied(e, status),
            r matches Err(ExecuteError::NoConnection) ==> !self.connected && !holds_nul(sql@),
            r matches Err(ExecuteError::Failed(e)) ==> {
                &&& holds_nul(sql@)
                &&& e.is("INVALID_SQL"@, "Invalid SQL string"@)
            },
            r matches Ok(run) ==> {
                &&& self.connected
                &&& !holds_nul(sql@)
                &&& run@ == begun(sql@, leading(sql@), params_in(Some(params)))
                &&& reachable(run@)
            },
    {
        match self.check_write_permission(sql, status) {
            Err(e) => Err(ExecuteError::Denied(e)),
            Ok(_) => if !self.connected && !has_nul(sql) {
                metrics.push(Metric::QueriesTotal);
                Err(ExecuteError::NoConnection)
            } else {
                match self.execute_with_params_internal(sql, params, metrics) {
                    Ok(run) => Ok(run),
                    Err(e) => Err(ExecuteError::Failed(e)),
                }
            },
        }
    }

    /// Begins to run a statement of which only the rows are wanted.
    pub fn query(&self, sql: &str, metrics: &mut Vec<Metric>) -> (r: Result<
        StatementRun,
        DatabaseError,
    >)
        requires
            self.connected,
        ensures
            final(metrics)@ == old(metrics)@.push(Metric::QueriesTotal),
            r is Err <==> holds_nul(sql@),
            r matches Err(e) ==> e.is("INVALID_SQL"@, "Invalid SQL string"@),
            r matches Ok(run) ==> run@ == begun(sql@, leading(sql@), None) && reachable(run@),
    {
        self.execute_internal(sql, metrics)
    }

    /// Begins a sync: counts a commit, and collects the blocks that are written
    /// to IndexedDB.
    pub fn sync_internal(&self, globals: &mut GlobalStorage, metrics: &mut Vec<Metric>) -> (work:
        SyncWork)
        requires
            old(globals).wf(),
            old(globals)@.marker_of(self.name@) < u64::MAX,
        ensures
            final(globals).wf(),
            final(globals)@ == (GlobalView {
                commit_markers: old(globals)@.commit_markers.insert(
                    self.name@,
                    work.commit_marker,
                ),
                ..old(globals)@
            }),
            work.commit_marker == old(globals)@.marker_of(self.name@) + 1,
            lists_blocks(work.blocks@, old(globals)@.blocks_of(self.name@)),
            lists_checksums(work.checksums@, old(globals)@.metadata_of(self.name@)),
            work.procedure@ == begun_procedure(sync_tasks(self.name@, work.blocks@.len())),
            final(metrics)@ == old(metrics)@.push(Metric::SyncOperationsTotal),
    {
        metrics.push(Metric::SyncOperationsTotal);
        let commit_marker: u64 = globals.advance_marker(self.name.as_str());
        let blocks: Vec<(u64, Vec<u8>)> = globals.stored_blocks(self.name.as_str());
        let checksums: Vec<(u64, u64)> = globals.stored_checksums(self.name.as_str());
        let procedure = Procedure::new();
        let procedure = if blocks.len() > 0 {
            procedure.then_do(Work::Persist, OnFailure::Keep)
        } else {
            procedure
        };
        let procedure = procedure.then_do(
            Work::Notify { database: self.name.clone() },
            OnFailure::Ignore,
        );
        assert(procedure@.tasks =~= sync_tasks(self.name@, blocks@.len()));
        SyncWork { commit_marker, blocks, checksums, procedure }
    }

    /// Begins a sync on behalf of a caller outside.
    pub fn sync(&self) -> (procedure: Procedure)
        ensures
            procedure@ == begun_procedure(
                seq![(Part::Sync, Policy::Explain("Failed to sync database: "@))],
            ),
    {
        let procedure = Procedure::new().then_do(
            Work::Sync,
            OnFailure::Explain("Failed to sync database: ".to_owned()),
        );
        assert(procedure@.tasks =~= seq![
            (Part::Sync, Policy::Explain("Failed to sync database: "@)),
        ]);
        procedure
    }

    /// Begins to close the database. The connection itself is released later.
    pub fn close_internal(&self) -> (procedure: Procedure)
        ensures
            procedure@ == begun_procedure(close_tasks(self.name@, self.connected)),
    {
        let procedure = Procedure::new();
        let procedure = if self.connected {
            procedure.then_do(
                Work::Execute { sql: "PRAGMA wal_checkpoint(PASSIVE)".to_owned() },
                OnFailure::Ignore,
            ).then_do(Work::Sync, OnFailure::Keep).then_do(
                Work::StopElection { database: self.name.clone() },
                OnFailure::Ignore,
            )
        } else {
            procedure
        };
        assert(procedure@.tasks =~= close_tasks(self.name@, self.connected));
        procedure
    }

    /// Begins to close the database on behalf of a caller outside.
    pub fn close(&self) -> (procedure: Procedure)
        ensures
            procedure@ == begun_procedure(
                seq![(Part::Close, Policy::Explain("Failed to close database: "@))],
            ),
    {
        let procedure = Procedure::new().then_do(
            Work::Close,
            OnFailure::Explain("Failed to close database: ".to_owned()),
        );
        assert(procedure@.tasks =~= seq![
            (Part::Close, Policy::Explain("Failed to close database: "@)),
        ]);
        procedure
    }

    /// Begins to close the database and its connection for good.
    pub fn force_close_connection(&self) -> (procedure: Procedure)
        ensures
            procedure@ == begun_procedure(force_close_tasks(self.name@)),
    {
        let procedure = Procedure::new().then_do(Work::Close, OnFailure::Ignore).then_do(
            Work::ForceClose { pool_key: pool_key(self.name.as_str()) },
            OnFailure::Ignore,
        ).then_do(
            Work::CleanUp { pool_key: pool_key(self.name.as_str()) },
            OnFailure::Explain("Cleanup failed: ".to_owned()),
        );
        assert(procedure@.tasks =~= force_close_tasks(self.name@));
        procedure
    }

    /// Begins to give up what this instance holds, when it is dropped.
    pub fn release(&self) -> (procedure: Procedure)
        ensures
            procedure@ == begun_procedure(
                seq![
                    (Part::Release { pool_key: bare_name(self.name@) }, Policy::Ignore),
                    (Part::ClearHeartbeat { database: self.name@ }, Policy::Ignore),
                ],
            ),
    {
        let procedure = Procedure::new().then_do(
            Work::Release { pool_key: pool_key(self.name.as_str()) },
            OnFailure::Ignore,
        ).then_do(Work::ClearHeartbeat { database: self.name.clone() }, OnFailure::Ignore);
        assert(procedure@.tasks =~= seq![
            (Part::Release { pool_key: bare_name(self.name@) }, Policy::Ignore),
            (Part::ClearHeartbeat { database: self.name@ }, Policy::Ignore),
        ]);
        procedure
    }

    /// Begins to export the database.
    pub fn export_to_file(&self) -> (procedure: Procedure)
        ensures
            procedure@ == begun_procedure(export_tasks(self.name@, self.max_export_size_bytes)),
    {
        let procedure = Procedure::new().then_do(
            Work::Lock { name: self.name.clone() },
            OnFailure::Keep,
        ).then_do(
            Work::FindStorage { database: self.name.clone() },
            OnFailure::Replace(concat("Storage not found for database: ", self.name.as_str())),
        ).then_do(Work::ReloadCache, OnFailure::Ignore).then_do(
            Work::Checkpoint { sql: "PRAGMA wal_checkpoint(PASSIVE)".to_owned() },
            OnFailure::Ignore,
        ).then_do(Work::SyncStorage, OnFailure::Explain("Sync failed: ".to_owned())).then_do(
            Work::Export { max_bytes: self.max_export_size_bytes },
            OnFailure::Explain("Export failed: ".to_owned()),
        );
        assert(procedure@.tasks =~= export_tasks(self.name@, self.max_export_size_bytes));
        procedure
    }

    /// Begins to replace the database by the file with these data.
    pub fn import_from_file(&self, data: Vec<u8>) -> (procedure: Procedure)
        ensures
            procedure@ == begun_procedure(import_tasks(self.name@, data@)),
    {
        let procedure = Procedure::new().then_do(
            Work::Lock { name: self.name.clone() },
            OnFailure::Keep,
        ).then_do(
            Work::Close,
            OnFailure::Explain("Failed to close before import: ".to_owned()),
        ).then_do(
            Work::DropConnection { pool_key: pool_key(self.name.as_str()) },
            OnFailure::Ignore,
        ).then_do(
            Work::Import { database: self.name.clone(), data },
            OnFailure::Explain("Import failed: ".to_owned()),
        ).then_do(
            Work::Reopen {
                pool_key: pool_key(self.name.as_str()),
                database: self.name.clone(),
                vfs: vfs_name(self.name.as_str()),
            },
            OnFailure::Explain("Failed to reopen connection after import: ".to_owned()),
        );
        assert(procedure@.tasks =~= import_tasks(self.name@, data@));
        procedure
    }

    /// Takes note of what a part of an import means for the connection.
    pub fn note_connection(&mut self, work: &Work, ok: bool)
        ensures
            *final(self) == (Database {
                connected: connected_after(old(self).connected, work@, ok),
                ..*old(self)
            }),
    {
        match work {
            Work::DropConnection { .. } => {
                self.connected = false;
            },
            Work::Reopen { .. } => {
                self.connected = self.connected || ok;
            },
            _ => {},
        }
    }

    /// The lock, the delay and the result of the lock test.
    pub fn test_lock(&self, value: u32) -> (r: (Procedure, u32))
        requires
            value < u32::MAX,
        ensures
            r.0@ == begun_procedure(
                seq![
                    (Part::Lock { name: self.name@ + ".lock_test"@ }, Policy::Keep),
                    (Part::Delay { ms: 10 }, Policy::Keep),
                ],
            ),
            r.1 == value + 1,
    {
        let procedure = Procedure::new().then_do(
            Work::Lock { name: test_lock_name(self.name.as_str()) },
            OnFailure::Keep,
        ).then_do(Work::Delay { ms: 10 }, OnFailure::Keep);
        assert(procedure@.tasks =~= seq![
            (Part::Lock { name: self.name@ + ".lock_test"@ }, Policy::Keep),
            (Part::Delay { ms: 10 }, Policy::Keep),
        ]);
        (procedure, value + 1)
    }

    /// All known databases. `persistent` is the stored list, if it can be read,
    /// and `open` are the names of those that are open.
    pub fn get_all_databases(
        persistent: Option<&str>,
        open: &Vec<String>,
        globals: &GlobalStorage,
    ) -> (names: Vec<String>)
        requires
            globals.wf(),
        ensures
            sorted(all_texts(names@)),
            all_texts(names@).no_duplicates(),
            forall|name: Seq<char>| #[trigger]
                all_texts(names@).contains(name) <==> stored_names(chars_in(persistent)).contains(
                    name,
                ) || all_texts(open@).contains(name) || globals@.blocks.contains_key(name),
    {
        let listed: Vec<String> = get_persistent_database_list(persistent);
        let stored: Vec<String> = globals.blocks.names();
        proof {
            assert forall|name: Seq<char>| all_texts(stored@).contains(name)
                <==> globals@.blocks.contains_key(name) by {
                if all_texts(stored@).contains(name) {
                    let i = choose|i: int|
                        0 <= i < all_texts(stored@).len() && all_texts(stored@)[i] == name;
                    assert(stored@[i]@ == name);
                }
                if globals.blocks@.contains_key(name) {
                    let i = choose|i: int|
                        0 <= i < stored@.len() && (#[trigger] stored@[i])@ == name;
                    assert(all_texts(stored@)[i] == name);
                }
            }
        }
        merge_database_names(&listed, open, &stored)
    }

    /// Begins to delete a database: forgets what is kept of it in memory.
    pub fn delete_database(name: &str, globals: &mut GlobalStorage) -> (procedure: Procedure)
        requires
            old(globals).wf(),
        ensures
            final(globals).wf(),
            final(globals)@ == (GlobalView {
                blocks: old(globals)@.blocks.remove(normalized_name(name@)),
                metadata: old(globals)@.metadata.remove(normalized_name(name@)),
                commit_markers: old(globals)@.commit_markers.remove(normalized_name(name@)),
            }),
            procedure@ == begun_procedure(delete_tasks(normalized_name(name@))),
    {
        let normalized: String = normalize_db_name(name);
        globals.delete(normalized.as_str());
        let procedure = Procedure::new().then_do(
            Work::RemoveStorage { database: normalized.clone() },
            OnFailure::Ignore,
        ).then_do(
            Work::FindIndexedDb,
            OnFailure::Explain("Failed to access indexedDB: ".to_owned()),
        ).then_do(
            Work::CastIndexedDb,
            OnFailure::Replace("indexedDB is not available".to_owned()),
        ).then_do(
            Work::DeleteIndexedDb { name: indexeddb_name(normalized.as_str()) },
            OnFailure::Explain("Failed to delete IndexedDB: ".to_owned()),
        ).then_do(Work::Unlist { database: normalized.clone() }, OnFailure::Keep);
        assert(procedure@.tasks =~= delete_tasks(normalized_name(name@)));
        procedure
    }

    /// Begins to wait until this instance is the leader.
    pub fn wait_for_leadership(&self, metrics: &mut Vec<Metric>) -> (phase: WaitPhase)
        ensures
            phase is Look,
            final(metrics)@ == old(metrics)@.push(Metric::LeaderElectionAttemptsTotal),
    {
        metrics.push(Metric::LeaderElectionAttemptsTotal);
        WaitPhase::Look
    }

    /// How a request for leadership went. `was_leader` and `is_leader` say whether
    /// this instance was the leader before, and is now.
    pub fn request_leadership(
        &self,
        election: Election,
        was_leader: bool,
        is_leader: bool,
        metrics: &mut Vec<Metric>,
    ) -> (r: Result<(), String>)
        ensures
            final(metrics)@ == old(metrics)@ + election_measured(
                election is Started,
                was_leader,
                is_leader,
            ),
            r is Ok <==> election is Started,
            r matches Err(error) ==> error@ == match election {
                Election::NoStorage => "No storage found for database: "@ + self.name@,
                Election::Busy => "Failed to acquire storage lock for leadership request"@,
                Election::Failed(reason) => "Failed to request leadership: "@ + reason@,
                Election::Started => error@,
            },
    {
        let started: bool = match &election {
            Election::Started => true,
            _ => false,
        };
        measure_election(started, was_leader, is_leader, metrics);
        leadership_requested(self.name.as_str(), election)
    }

    /// What is told about the leader.
    pub fn get_leader_info(&self, status: StorageStatus) -> (r: Result<LeaderInfo, String>)
        ensures
            match r {
                Ok(info) => {
                    &&& leader_answer(self.name@, status) == Ok::<bool, Seq<char>>(info.is_leader)
                    &&& info.leader_id@ == if info.is_leader {
                        "leader_"@ + self.name@
                    } else {
                        "unknown"@
                    }
                },
                Err(error) => leader_answer(self.name@, status) == Err::<bool, Seq<char>>(error@),
            },
    {
        leader_info(self.name.as_str(), status)
    }

    /// Whether this instance is the leader.
    pub fn is_leader_wasm(&self, status: StorageStatus) -> (r: Result<bool, String>)
        ensures
            match r {
                Ok(leader) => leader_answer(self.name@, status) == Ok::<bool, Seq<char>>(leader),
                Err(error) => leader_answer(self.name@, status) == Err::<bool, Seq<char>>(error@),
            },
    {
        leader_status(self.name.as_str(), status)
    }

    /// Whether this instance is the leader.
    pub fn is_leader(&self, status: StorageStatus) -> (r: Result<bool, String>)
        ensures
            match r {
                Ok(leader) => leader_answer(self.name@, status) == Ok::<bool, Seq<char>>(leader),
                Err(error) => leader_answer(self.name@, status) == Err::<bool, Seq<char>>(error@),
            },
    {
        self.is_leader_wasm(status)
    }

    /// Begins a write that the leader carries out.
    pub fn queue_write(&self, sql: &str) -> (write: QueuedWrite)
        ensures
            write@ == begun_write(sql@, 5000),
    {
        self.queue_write_with_timeout(sql, DEFAULT_TIMEOUT_MS)
    }

    /// Begins a write that the leader carries out, and whose answer is waited
    /// for this many milliseconds.
    pub fn queue_write_with_timeout(&self, sql: &str, timeout_ms: u32) -> (write: QueuedWrite)
        ensures
            write@ == begun_write(sql@, timeout_ms),
    {
        QueuedWrite::begin(sql, timeout_ms)
    }
}

/// Nothing is left in memory of a deleted database, and every other database is
/// as it was.
pub proof fn law_deleted_database_is_gone(view: GlobalView, name: Seq<char>, other: Seq<char>)
    requires
        name != other,
    ensures
        ({
            let after = GlobalView {
                blocks: view.blocks.remove(name),
                metadata: view.metadata.remove(name),
                commit_markers: view.commit_markers.remove(name),
            };
            &&& after.blocks_of(name) == Map::<u64, Seq<u8>>::empty()
            &&& after.metadata_of(name) == Map::<u64, BlockMetadataPersist>::empty()
            &&& after.marker_of(name) == 0
            &&& after.blocks_of(other) == view.blocks_of(other)
            &&& after.metadata_of(other) == view.metadata_of(other)
            &&& after.marker_of(other) == view.marker_of(other)
        }),
{
}

/// Whether there is a connection after the first parts of a procedure have
/// succeeded.
pub open spec fn connected_after_parts(
    connected: bool,
    tasks: Seq<(Part, Policy)>,
    count: nat,
) -> bool
    decreases count,
{
    if count == 0 {
        connected
    } else {
        connected_after(
            connected_after_parts(connected, tasks, (count - 1) as nat),
            tasks[count - 1].0,
            true,
        )
    }
}

/// A database can be used at once after it has been imported: when the import
/// is done there is a connection. While the blocks are replaced there is none,
/// and none is left where an import fails from there on.
pub proof fn law_import_leaves_a_connection(name: Seq<char>, data: Seq<u8>, connected: bool)
    ensures
        ({
            let tasks = import_tasks(name, data);
            &&& connected_after_parts(connected, tasks, tasks.len())
            &&& tasks[3].0 == (Part::Import { database: name, data })
            &&& !connected_after_parts(connected, tasks, 3)
            &&& !connected_after(connected_after_parts(connected, tasks, 3), tasks[3].0, false)
            &&& !connected_after(connected_after_parts(connected, tasks, 4), tasks[4].0, false)
        }),
{
    reveal_with_fuel(connected_after_parts, 6);
    assert(import_tasks(name, data).len() == 5);
}

/// What is exported has been synced: an export holds the lock, moves what is in
/// the log into the database and syncs it before it reads the blocks.
pub proof fn law_exports_are_synced(name: Seq<char>, max_bytes: Option<u64>, i: int)
    requires
        0 <= i < export_tasks(name, max_bytes).len(),
        export_tasks(name, max_bytes)[i].0 is Export,
    ensures
        ({
            let tasks = export_tasks(name, max_bytes);
            &&& tasks[0] == (Part::Lock { name }, Policy::Keep)
            &&& tasks[i - 2].0 == (Part::Checkpoint { sql: checkpoint_sql() })
            &&& tasks[i - 1].0 is SyncStorage
            &&& tasks[i - 1].1 is Explain
        }),
{
}

/// Closing a database without a connection does nothing, and succeeds.
pub proof fn law_closing_twice_is_fine(name: Seq<char>)
    ensures
        procedure_over(begun_procedure(close_tasks(name, false))),
        begun_procedure(close_tasks(name, false)).failure is None,
{
}

/// How a procedure ends if the part of this number is the first that fails.
pub open spec fn failing_at(tasks: Seq<(Part, Policy)>, i: int, error: Seq<char>) -> Option<
    Reason,
> {
    after_part(Progress { tasks, done: i as nat, failure: None }, Some(error)).failure
}

/// A sync writes the collected blocks, if there are any, and fails with the error
/// where that fails. In any case it tells other instances that the data of this
/// database have changed, and does not fail where it cannot.
pub proof fn law_syncs_persist_and_notify(name: Seq<char>, blocks: nat, error: Seq<char>)
    ensures
        ({
            let tasks = sync_tasks(name, blocks);
            let last = tasks.len() - 1;
            &&& blocks > 0 ==> tasks.len() == 2 && tasks[0].0 is Persist && failing_at(
                tasks,
                0,
                error,
            ) == Some(Reason::Kept)
            &&& blocks == 0 ==> tasks.len() == 1
            &&& tasks[last].0 == (Part::Notify { database: name })
            &&& failing_at(tasks, last, error) is None
        }),
{
}

/// Closing a database with a connection moves what is in the log into the
/// database, syncs it, and stops the election of this database; only the sync can
/// make it fail, with its error. Without a connection there is nothing to do.
pub proof fn law_closing_syncs(name: Seq<char>, error: Seq<char>)
    ensures
        ({
            let tasks = close_tasks(name, true);
            &&& tasks.len() == 3
            &&& tasks[0].0 == (Part::Execute { sql: "PRAGMA wal_checkpoint(PASSIVE)"@ })
            &&& tasks[1].0 is Sync
            &&& tasks[2].0 == (Part::StopElection { database: name })
            &&& failing_at(tasks, 0, error) is None
            &&& failing_at(tasks, 1, error) == Some(Reason::Kept)
            &&& failing_at(tasks, 2, error) is None
            &&& close_tasks(name, false).len() == 0
        }),
{
}

/// Closing for good closes the database and its pooled connection, whatever comes
/// of it, and fails only where cleaning up fails.
pub proof fn law_forced_closing_cleans_up(name: Seq<char>, error: Seq<char>)
    ensures
        ({
            let tasks = force_close_tasks(name);
            let key = crate::text::without_trailing(name, ".db"@);
            &&& tasks.len() == 3
            &&& tasks[0].0 is Close
            &&& tasks[1].0 == (Part::ForceClose { pool_key: key })
            &&& tasks[2].0 == (Part::CleanUp { pool_key: key })
            &&& failing_at(tasks, 0, error) is None
            &&& failing_at(tasks, 1, error) is None
            &&& failing_at(tasks, 2, error) == Some(Reason::Text("Cleanup failed: "@ + error))
        }),
{
}

/// An export holds the lock of the database, finds its storage, brings everything
/// into the blocks and exports them within the limit; and what fails is told.
pub proof fn law_course_of_an_export(name: Seq<char>, max_bytes: Option<u64>, error: Seq<char>)
    ensures
        ({
            let tasks = export_tasks(name, max_bytes);
            &&& tasks.len() == 6
            &&& tasks[0].0 == (Part::Lock { name })
            &&& tasks[1].0 == (Part::FindStorage { database: name })
            &&& tasks[2].0 is ReloadCache
            &&& tasks[3].0 == (Part::Checkpoint { sql: "PRAGMA wal_checkpoint(PASSIVE)"@ })
            &&& tasks[4].0 is SyncStorage
            &&& tasks[5].0 == (Part::Export { max_bytes })
            &&& failing_at(tasks, 0, error) == Some(Reason::Kept)
            &&& failing_at(tasks, 1, error) == Some(
                Reason::Text("Storage not found for database: "@ + name),
            )
            &&& failing_at(tasks, 2, error) is None
            &&& failing_at(tasks, 3, error) is None
            &&& failing_at(tasks, 4, error) == Some(Reason::Text("Sync failed: "@ + error))
            &&& failing_at(tasks, 5, error) == Some(Reason::Text("Export failed: "@ + error))
        }),
{
}

/// An import holds the lock of the database, closes it, drops the connection,
/// replaces the blocks by the given data, and gets a new connection; and what
/// fails is told.
pub proof fn law_course_of_an_import(name: Seq<char>, data: Seq<u8>, error: Seq<char>)
    ensures
        ({
            let tasks = import_tasks(name, data);
            let key = crate::text::without_trailing(name, ".db"@);
            &&& tasks.len() == 5
            &&& tasks[0].0 == (Part::Lock { name })
            &&& tasks[1].0 is Close
            &&& tasks[2].0 == (Part::DropConnection { pool_key: key })
            &&& tasks[3].0 == (Part::Import { database: name, data })
            &&& tasks[4].0 == (Part::Reopen { pool_key: key, database: name, vfs: "vfs_"@ + key })
            &&& failing_at(tasks, 0, error) == Some(Reason::Kept)
            &&& failing_at(tasks, 1, error) == Some(
                Reason::Text("Failed to close before import: "@ + error),
            )
            &&& failing_at(tasks, 2, error) is None
            &&& failing_at(tasks, 3, error) == Some(Reason::Text("Import failed: "@ + error))
            &&& failing_at(tasks, 4, error) == Some(
                Reason::Text("Failed to reopen connection after import: "@ + error),
            )
        }),
{
}

/// Deleting a database removes its storage, its IndexedDB database and its place
/// in the list of databases; and what fails is told.
pub proof fn law_course_of_a_deletion(name: Seq<char>, error: Seq<char>)
    ensures
        ({
            let tasks = delete_tasks(name);
            &&& tasks.len() == 5
            &&& tasks[0].0 == (Part::RemoveStorage { database: name })
            &&& tasks[1].0 is FindIndexedDb
            &&& tasks[2].0 is CastIndexedDb
            &&& tasks[3].0 == (Part::DeleteIndexedDb { name: "absurder_"@ + name })
            &&& tasks[4].0 == (Part::Unlist { database: name })
            &&& failing_at(tasks, 0, error) is None
            &&& failing_at(tasks, 1, error) == Some(
                Reason::Text("Failed to access indexedDB: "@ + error),
            )
            &&& failing_at(tasks, 2, error) == Some(Reason::Text("indexedDB is not available"@))
            &&& failing_at(tasks, 3, error) == Some(
                Reason::Text("Failed to delete IndexedDB: "@ + error),
            )
            &&& failing_at(tasks, 4, error) == Some(Reason::Kept)
        }),
{
}

/// Only dropping a connection and opening one again change whether there is one:
/// the first ends it, whether it succeeds or not, and the second gives one if it
/// succeeds.
pub proof fn law_what_changes_the_connection(connected: bool, part: Part, ok: bool)
    ensures
        part is DropConnection ==> !connected_after(connected, part, ok),
        part is Reopen && ok ==> connected_after(connected, part, ok),
        part is Reopen && !ok ==> connected_after(connected, part, ok) == connected,
        !(part is DropConnection) && !(part is Reopen) ==> connected_after(connected, part, ok)
            == connected,
{
}

/// A database of which only the name is given has pages of four kibibytes, a cache
/// of ten thousand pages, a log that is written ahead, and is vacuumed.
pub proof fn law_default_settings()
    ensures
        ({
            let made = default_settings();
            &&& made.len() == 5
            &&& made[0].sql == "PRAGMA busy_timeout = 10000"@ && made[0].strict
            &&& made[1].sql == "PRAGMA page_size = "@ + decimal(4096) && made[1].strict
            &&& made[2].sql == "PRAGMA cache_size = "@ + decimal(10_000) && made[2].strict
            &&& made[3].sql == "PRAGMA journal_mode = "@ + "WAL"@ && !made[3].strict
            &&& made[4].sql == "PRAGMA auto_vacuum = 1"@ && made[4].strict
            &&& DEFAULT_MAX_EXPORT_BYTES == 2 * 1024 * 1024 * 1024
        }),
{
}

/// Callers are told the error itself, behind what it is about.
pub proof fn law_complaints_tell_the_error()
    ensures
        complaint_prefix(Complaint::WriteDenied) == "Write permission denied: "@,
        complaint_prefix(Complaint::ExecutionFailed) == "Query execution failed: "@,
        complaint_prefix(Complaint::InvalidParameters) == "Invalid parameters: "@,
        complaint_prefix(Complaint::NotCreated) == "Failed to create database: "@,
        complaint_prefix(Complaint::NoQueueListener)
            == "Failed to register write queue listener: "@,
        complaint_prefix(Complaint::NoChangeListener) == "Failed to register change listener: "@,
{
}

} // verus!
