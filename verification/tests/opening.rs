use absurder_sql::database::{
    check_names, complain, open_failure, Complaint, Database, ExecuteError, Opener,
};
use absurder_sql::leadership::StorageStatus;
use absurder_sql::open::{pragmas_of, OpenAction, OpenEvent, OpenLocks, Opening, LOCK_ATTEMPTS};
use absurder_sql::telemetry::Metric;
use absurder_sql::types::{ColumnValue, DatabaseConfig, DatabaseError};

fn config(name: &str) -> DatabaseConfig {
    DatabaseConfig {
        name: name.to_string(),
        version: None,
        cache_size: None,
        page_size: None,
        auto_vacuum: None,
        journal_mode: None,
        max_export_size_bytes: None,
    }
}

fn open(mut opening: Opening, locks: &mut OpenLocks) -> (Database, Vec<String>) {
    let mut log = Vec::new();
    loop {
        let action = opening.action();
        log.push(format!("{:?}", action));
        let event = match action {
            OpenAction::FindVfs { .. } => OpenEvent::VfsFound(false),
            OpenAction::CreateVfs { .. } => OpenEvent::VfsReady,
            OpenAction::Wait { .. } => OpenEvent::Waited,
            OpenAction::Connect { .. } => OpenEvent::Connected,
            OpenAction::Execute { .. } => OpenEvent::Executed,
            OpenAction::StartMetrics => OpenEvent::MetricsReady,
            OpenAction::Return => break,
        };
        opening.advance(locks, event);
    }
    (opening.into_result().unwrap().unwrap(), log)
}

fn until_connect(locks: &mut OpenLocks, config: &DatabaseConfig) -> Opening {
    let mut opening = Database::new(config).unwrap();
    opening.advance(locks, OpenEvent::VfsFound(true));
    opening.advance(locks, OpenEvent::VfsReady);
    opening
}

fn error(opening: Opening) -> DatabaseError {
    opening.into_result().unwrap().unwrap_err()
}

#[test]
fn opening_with_the_default_configuration() {
    let mut locks = OpenLocks::new();
    let (database, log) = open(Database::new_wasm("test").unwrap(), &mut locks);
    assert_eq!(database.name(), "test.db");
    assert!(database.connected);
    assert!(!database.allow_non_leader_writes);
    assert_eq!(database.max_export_size_bytes, Some(2 * 1024 * 1024 * 1024));
    assert_eq!(
        log,
        [
            "FindVfs { vfs: \"vfs_test\" }",
            "CreateVfs { database: \"test.db\", register_as: Some(\"vfs_test\") }",
            "Connect { pool_key: \"test\", database: \"test.db\", vfs: \"vfs_test\" }",
            "Execute { sql: \"PRAGMA busy_timeout = 10000\" }",
            "Execute { sql: \"PRAGMA page_size = 4096\" }",
            "Execute { sql: \"PRAGMA cache_size = 10000\" }",
            "Execute { sql: \"PRAGMA journal_mode = WAL\" }",
            "Execute { sql: \"PRAGMA auto_vacuum = 1\" }",
            "StartMetrics",
            "Return",
        ]
    );
    assert!(locks.acquire("test.db"));
}

#[test]
fn default_configuration() {
    let config = Database::default_config("x.db");
    assert_eq!(config.name, "x.db");
    assert_eq!(config.version, Some(1));
    assert_eq!(config.cache_size, Some(10_000));
    assert_eq!(config.page_size, Some(4096));
    assert_eq!(config.auto_vacuum, Some(true));
    assert_eq!(config.journal_mode.as_deref(), Some("WAL"));
}

#[test]
fn settings_that_are_not_given_are_not_made() {
    let pragmas = pragmas_of(&config("x"));
    assert_eq!(pragmas.len(), 1);
    assert_eq!(pragmas[0].sql, "PRAGMA busy_timeout = 10000");
    assert!(pragmas[0].strict);
    let mut some = config("x");
    some.auto_vacuum = Some(false);
    some.journal_mode = Some("MEMORY".to_string());
    let pragmas = pragmas_of(&some);
    assert_eq!(pragmas[1].sql, "PRAGMA journal_mode = MEMORY");
    assert!(!pragmas[1].strict);
    assert_eq!(pragmas[2].sql, "PRAGMA auto_vacuum = 0");
}

#[test]
fn names_with_nul_cannot_be_opened() {
    let e = Database::new(&config("a\0b")).unwrap_err();
    assert_eq!(e.code, "INVALID_VFS_NAME");
    assert_eq!(e.message, "Invalid VFS name");
    assert_eq!(check_names("a", "b"), Ok(()));
    assert_eq!(check_names("a\0", "b\0"), Err("Invalid database name".to_string()));
    assert_eq!(check_names("a", "b\0"), Err("Invalid VFS name".to_string()));
}

#[test]
fn openings_of_one_name_wait_for_each_other() {
    let mut locks = OpenLocks::new();
    let first = until_connect(&mut locks, &config("x"));
    assert!(matches!(first.action(), OpenAction::Connect { .. }));
    let other = until_connect(&mut locks, &config("y"));
    assert!(matches!(other.action(), OpenAction::Connect { .. }));
    let mut second = until_connect(&mut locks, &config("x"));
    for _ in 0..3 {
        assert!(matches!(second.action(), OpenAction::Wait { ms: 10 }));
        second.advance(&mut locks, OpenEvent::Waited);
    }
    open(first, &mut locks);
    second.advance(&mut locks, OpenEvent::Waited);
    assert!(matches!(second.action(), OpenAction::Connect { .. }));
}

#[test]
fn waiting_for_an_opening_ends() {
    let mut locks = OpenLocks::new();
    assert!(locks.acquire("x.db"));
    assert!(!locks.acquire("x.db"));
    let mut opening = until_connect(&mut locks, &config("x"));
    let mut waits = 0;
    while matches!(opening.action(), OpenAction::Wait { .. }) {
        waits += 1;
        opening.advance(&mut locks, OpenEvent::Waited);
    }
    assert_eq!(waits, LOCK_ATTEMPTS);
    assert_eq!(waits, 100);
    assert!(matches!(opening.action(), OpenAction::Connect { .. }));
    opening.advance(&mut locks, OpenEvent::NotConnected("no".to_string()));
    assert!(!locks.acquire("x.db"));
}

#[test]
fn names_with_and_without_extension_wait_for_each_other() {
    let mut locks = OpenLocks::new();
    let first = until_connect(&mut locks, &config("x"));
    let mut second = until_connect(&mut locks, &config("x.db"));
    assert!(matches!(second.action(), OpenAction::Wait { .. }));
    open(first, &mut locks);
    second.advance(&mut locks, OpenEvent::Waited);
    assert!(matches!(second.action(), OpenAction::Connect { .. }));
    assert!(matches!(
        until_connect(&mut locks, &config("x")).action(),
        OpenAction::Wait { .. }
    ));
}

#[test]
fn metrics_that_cannot_be_set_up() {
    let mut locks = OpenLocks::new();
    let mut opening = until_connect(&mut locks, &config("x"));
    opening.advance(&mut locks, OpenEvent::Connected);
    opening.advance(&mut locks, OpenEvent::Executed);
    assert!(matches!(opening.action(), OpenAction::StartMetrics));
    opening.advance(&mut locks, OpenEvent::MetricsFailed("twice".to_string()));
    let e = error(opening);
    assert_eq!(
        (e.code.as_str(), e.message.as_str()),
        ("METRICS_ERROR", "Failed to initialize metrics: twice")
    );
    assert!(!locks.acquire("x.db"));
    let e = Database::open_with_vfs("x", "memory")
        .finish(None, Some("twice".to_string()))
        .unwrap_err();
    assert_eq!(
        (e.code.as_str(), e.message.as_str()),
        ("METRICS_ERROR", "Failed to initialize metrics: twice")
    );
}

#[test]
fn openings_that_fail() {
    let mut locks = OpenLocks::new();
    let mut opening = Database::new(&config("x")).unwrap();
    opening.advance(&mut locks, OpenEvent::VfsFound(false));
    opening.advance(&mut locks, OpenEvent::VfsFailed(DatabaseError::new("VFS", "broken")));
    let e = error(opening);
    assert_eq!((e.code.as_str(), e.message.as_str()), ("VFS", "broken"));
    assert!(locks.acquire("x.db"));
    locks.release("x.db");

    let mut opening = until_connect(&mut locks, &config("x"));
    opening.advance(&mut locks, OpenEvent::NotConnected("no".to_string()));
    let e = error(opening);
    assert_eq!((e.code.as_str(), e.message.as_str()), ("CONNECTION_POOL_ERROR", "no"));
    assert!(!locks.acquire("x.db"));
    locks.release("x.db");

    let mut opening = until_connect(&mut locks, &config("x"));
    opening.advance(&mut locks, OpenEvent::Connected);
    opening.advance(&mut locks, OpenEvent::NotExecuted(None));
    let e = error(opening);
    assert_eq!(
        (e.code.as_str(), e.message.as_str()),
        ("SQLITE_ERROR", "Failed to execute: Unknown error")
    );
    assert!(!locks.acquire("x.db"));
    locks.release("x.db");

    let mut with_nul = config("x");
    with_nul.journal_mode = Some("W\0".to_string());
    let mut opening = until_connect(&mut locks, &with_nul);
    opening.advance(&mut locks, OpenEvent::Connected);
    opening.advance(&mut locks, OpenEvent::Executed);
    let e = error(opening);
    assert_eq!(
        (e.code.as_str(), e.message.as_str()),
        ("INVALID_SQL", "Invalid SQL statement")
    );
    assert!(!locks.acquire("x.db"));
}

#[test]
fn a_failed_opening_delays_the_next_one() {
    let mut locks = OpenLocks::new();
    let mut first = until_connect(&mut locks, &config("x"));
    first.advance(&mut locks, OpenEvent::NotConnected("no".to_string()));
    let mut second = until_connect(&mut locks, &config("x"));
    for _ in 0..LOCK_ATTEMPTS {
        assert!(matches!(second.action(), OpenAction::Wait { .. }));
        second.advance(&mut locks, OpenEvent::Waited);
    }
    open(second, &mut locks);
    assert!(matches!(
        until_connect(&mut locks, &config("x")).action(),
        OpenAction::Connect { .. }
    ));
}

#[test]
fn journal_mode_may_fail() {
    let mut locks = OpenLocks::new();
    let mut with_mode = config("x");
    with_mode.journal_mode = Some("WAL".to_string());
    let mut opening = until_connect(&mut locks, &with_mode);
    opening.advance(&mut locks, OpenEvent::Connected);
    opening.advance(&mut locks, OpenEvent::Executed);
    opening.advance(&mut locks, OpenEvent::NotExecuted(Some("busy".to_string())));
    opening.advance(&mut locks, OpenEvent::MetricsReady);
    let database = opening.into_result().unwrap().unwrap();
    assert_eq!(database.name, "x.db");
    assert_eq!(database.max_export_size_bytes, None);
    assert!(locks.acquire("x.db"));
}

#[test]
fn opening_with_a_given_vfs() {
    let opening = Database::open_with_vfs("x", "memory");
    assert_eq!(opening.name, "x.db");
    assert_eq!(opening.pool_key, "x");
    assert_eq!(opening.vfs, "memory");
    let database = opening.finish(None, None).unwrap();
    assert_eq!(database.max_export_size_bytes, Some(2_147_483_648));
    let e = Database::open_with_vfs("x", "memory")
        .finish(Some("no".to_string()), Some("twice".to_string()))
        .unwrap_err();
    assert_eq!((e.code.as_str(), e.message.as_str()), ("OPEN_ERROR", "no"));
}

#[test]
fn connections_that_are_not_opened() {
    assert_eq!(
        open_failure(Opener::New, true, Some("m".to_string())),
        "Failed to open database with IndexedDB VFS: m"
    );
    assert_eq!(
        open_failure(Opener::New, false, Some("out of memory".to_string())),
        "Failed to open database with IndexedDB VFS: out of memory"
    );
    assert_eq!(open_failure(Opener::WithVfs, true, None), "SQLITE_ERROR: Unknown error");
    assert_eq!(
        open_failure(Opener::WithVfs, false, Some("out of memory".to_string())),
        "SQLITE_ERROR: Failed to open database"
    );
    assert_eq!(
        open_failure(Opener::Reopen, true, None),
        "Failed to reopen database after import: Unknown error"
    );
}

fn database() -> Database {
    open(Database::new(&config("x")).unwrap(), &mut OpenLocks::new()).0
}

#[test]
fn only_the_leader_writes() {
    let mut db = database();
    let insert = "insert into t values (1)";
    assert!(db.check_write_permission(insert, StorageStatus::Leader).is_ok());
    assert!(db.check_write_permission(insert, StorageStatus::Missing).is_ok());
    assert!(db.check_write_permission("select 1", StorageStatus::Follower).is_ok());
    let e = db.check_write_permission(insert, StorageStatus::Follower).unwrap_err();
    assert_eq!(e.code, "WRITE_PERMISSION_DENIED");
    assert!(e.message.starts_with("Only the leader tab can write to this database. Use"));
    let e = db.check_write_permission(insert, StorageStatus::Busy).unwrap_err();
    assert_eq!(e.code, "BORROW_CONFLICT");
    db.allow_non_leader_writes(true);
    assert!(db.check_write_permission(insert, StorageStatus::Follower).is_ok());
}

#[test]
fn running_statements_for_callers() {
    let mut db = database();
    let mut metrics = Vec::new();
    assert!(db.execute("select 1", StorageStatus::Follower, &mut metrics).is_ok());
    assert!(db.query("select 1", &mut metrics).is_ok());
    assert!(db.execute_internal("select 1", &mut metrics).is_ok());
    let params = vec![ColumnValue::Null];
    assert!(db.execute_with_params_internal("select ?", params, &mut metrics).is_ok());
    let params = vec![ColumnValue::Null];
    let status = StorageStatus::Leader;
    assert!(db.execute_with_params("select ?", params, status, &mut metrics).is_ok());
    assert_eq!(metrics, [Metric::QueriesTotal; 5]);
    let denied = db.execute("delete from t", StorageStatus::Follower, &mut metrics).unwrap_err();
    assert!(matches!(denied, ExecuteError::Denied(_)));
    assert_eq!(metrics.len(), 5);
    let failed = db.execute("select\0", StorageStatus::Leader, &mut metrics).unwrap_err();
    assert!(matches!(&failed, ExecuteError::Failed(e) if e.code == "INVALID_SQL"));
    assert_eq!(metrics.len(), 6);
    assert!(matches!(
        db.execute_with_params("update t", vec![], StorageStatus::Follower, &mut metrics),
        Err(ExecuteError::Denied(_))
    ));
    assert_eq!(metrics.len(), 6);
    db.connected = false;
    let none = db.execute("select 1", StorageStatus::Leader, &mut metrics).unwrap_err();
    assert!(matches!(none, ExecuteError::NoConnection));
    assert!(matches!(
        db.execute_with_params("select\0", vec![], StorageStatus::Leader, &mut metrics),
        Err(ExecuteError::Failed(_))
    ));
    assert_eq!(metrics, [Metric::QueriesTotal; 8]);
}

#[test]
fn what_callers_are_told() {
    for (complaint, text) in [
        (Complaint::WriteDenied, "Write permission denied: why"),
        (Complaint::ExecutionFailed, "Query execution failed: why"),
        (Complaint::InvalidParameters, "Invalid parameters: why"),
        (Complaint::NotCreated, "Failed to create database: why"),
        (Complaint::NoQueueListener, "Failed to register write queue listener: why"),
        (Complaint::NoChangeListener, "Failed to register change listener: why"),
    ] {
        assert_eq!(complain(complaint, "why"), text);
    }
}
