use absurder_sql::database::Database;
use absurder_sql::leadership::{
    is_write_operation, permit, wait_on, wait_result, Election, StorageStatus, WaitEvent, WaitPhase,
};
use absurder_sql::procedure::{Failure, OnFailure, Procedure, Work};
use absurder_sql::storage::GlobalStorage;
use absurder_sql::telemetry::{measure_sync, Metric};
use absurder_sql::write_queue::{
    answer, request_to_serve, QueueAction, QueueEvent, QueuedWrite, WriteQueueMessage, WriteRequest,
    WriteResponse,
};
use std::collections::HashMap;

fn database() -> Database {
    Database {
        name: "x.db".to_string(),
        allow_non_leader_writes: false,
        max_export_size_bytes: Some(5),
        connected: true,
    }
}

/// Carries a procedure out, with the part of this number failing, and notes the
/// parts.
fn carry_out(mut procedure: Procedure, fails: usize) -> (Vec<String>, Result<(), Failure>) {
    let mut log = Vec::new();
    loop {
        let part = match procedure.next() {
            Some(work) => format!("{:?}", work),
            None => break,
        };
        let error = if log.len() == fails { Some("boom") } else { None };
        log.push(part);
        procedure.advance(error);
    }
    (log, procedure.into_result().unwrap())
}

fn outcomes(make: impl Fn() -> Procedure) -> Vec<String> {
    let count = carry_out(make(), usize::MAX).0.len();
    (0..count)
        .map(|i| match carry_out(make(), i) {
            (log, Ok(())) => {
                assert_eq!(log.len(), count);
                "passed".to_string()
            }
            (log, Err(Failure::Kept)) => {
                assert_eq!(log.len(), i + 1);
                "kept".to_string()
            }
            (log, Err(Failure::Text(text))) => {
                assert_eq!(log.len(), i + 1);
                text
            }
        })
        .collect()
}

#[test]
fn closing_a_database() {
    let mut db = database();
    assert_eq!(
        carry_out(db.close_internal(), usize::MAX).0,
        [
            "Execute { sql: \"PRAGMA wal_checkpoint(PASSIVE)\" }",
            "Sync",
            "StopElection { database: \"x.db\" }",
        ]
    );
    assert_eq!(outcomes(|| db.close_internal()), ["passed", "kept", "passed"]);
    assert_eq!(outcomes(|| db.close()), ["Failed to close database: boom"]);
    assert_eq!(outcomes(|| db.sync()), ["Failed to sync database: boom"]);
    db.connected = false;
    assert!(carry_out(db.close_internal(), usize::MAX).0.is_empty());
}

#[test]
fn closing_for_good() {
    let db = database();
    assert_eq!(
        carry_out(db.force_close_connection(), usize::MAX).0,
        ["Close", "ForceClose { pool_key: \"x\" }", "CleanUp { pool_key: \"x\" }"]
    );
    assert_eq!(
        outcomes(|| db.force_close_connection()),
        ["passed", "passed", "Cleanup failed: boom"]
    );
    assert_eq!(
        carry_out(db.release(), usize::MAX).0,
        ["Release { pool_key: \"x\" }", "ClearHeartbeat { database: \"x.db\" }"]
    );
}

#[test]
fn exporting_a_database() {
    let db = database();
    assert_eq!(
        carry_out(db.export_to_file(), usize::MAX).0,
        [
            "Lock { name: \"x.db\" }",
            "FindStorage { database: \"x.db\" }",
            "ReloadCache",
            "Checkpoint { sql: \"PRAGMA wal_checkpoint(PASSIVE)\" }",
            "SyncStorage",
            "Export { max_bytes: Some(5) }",
        ]
    );
    assert_eq!(
        outcomes(|| db.export_to_file()),
        [
            "kept",
            "Storage not found for database: x.db",
            "passed",
            "passed",
            "Sync failed: boom",
            "Export failed: boom",
        ]
    );
}

fn import(db: &mut Database, fails: usize) -> bool {
    let mut procedure = db.import_from_file(vec![1, 2]);
    let mut i = 0;
    while let Some(work) = procedure.next() {
        db.note_connection(work, i != fails);
        let error = if i == fails { Some("boom") } else { None };
        procedure.advance(error);
        i += 1;
    }
    procedure.into_result().unwrap().is_ok()
}

#[test]
fn importing_a_database() {
    let mut db = database();
    assert_eq!(
        carry_out(db.import_from_file(vec![1, 2]), usize::MAX).0,
        [
            "Lock { name: \"x.db\" }",
            "Close",
            "DropConnection { pool_key: \"x\" }",
            "Import { database: \"x.db\", data: [1, 2] }",
            "Reopen { pool_key: \"x\", database: \"x.db\", vfs: \"vfs_x\" }",
        ]
    );
    assert_eq!(
        outcomes(|| db.import_from_file(vec![1, 2])),
        [
            "kept",
            "Failed to close before import: boom",
            "passed",
            "Import failed: boom",
            "Failed to reopen connection after import: boom",
        ]
    );
    assert!(import(&mut db, usize::MAX));
    assert!(db.connected);
    assert!(!import(&mut db, 1));
    assert!(db.connected);
    assert!(!import(&mut db, 3));
    assert!(!db.connected);
    assert!(!import(&mut db, 4));
    assert!(!db.connected);
    assert!(import(&mut db, usize::MAX));
    assert!(db.connected);
}

#[test]
fn deleting_a_database() {
    let mut globals = GlobalStorage::new();
    let blocks = HashMap::from([(1u64, vec![1u8])]);
    globals.commit("x.db", &blocks, &HashMap::new(), 1, true);
    globals.commit("y.db", &blocks, &HashMap::new(), 1, true);
    let procedure = Database::delete_database("x", &mut globals);
    assert_eq!(globals.commit_marker("x.db"), 0);
    assert!(globals.stored_blocks("x.db").is_empty());
    assert_eq!(globals.commit_marker("y.db"), 1);
    assert_eq!(
        carry_out(procedure, usize::MAX).0,
        [
            "RemoveStorage { database: \"x.db\" }",
            "FindIndexedDb",
            "CastIndexedDb",
            "DeleteIndexedDb { name: \"absurder_x.db\" }",
            "Unlist { database: \"x.db\" }",
        ]
    );
    assert_eq!(
        outcomes(|| Database::delete_database("x.db", &mut GlobalStorage::new())),
        [
            "passed",
            "Failed to access indexedDB: boom",
            "indexedDB is not available",
            "Failed to delete IndexedDB: boom",
            "kept",
        ]
    );
}

#[test]
fn syncing_a_database() {
    let db = database();
    let mut globals = GlobalStorage::new();
    let mut metrics = Vec::new();
    let mut work = db.sync_internal(&mut globals, &mut metrics);
    assert_eq!(metrics, [Metric::SyncOperationsTotal]);
    assert_eq!(work.commit_marker, 1);
    assert!(work.blocks.is_empty() && work.checksums.is_empty());
    assert_eq!(measure_sync(&work.procedure), []);
    assert!(matches!(
        work.procedure.next(),
        Some(Work::Notify { database }) if database == "x.db"
    ));
    work.procedure.advance(Some("nobody listens"));
    assert_eq!(measure_sync(&work.procedure), [Metric::SyncDuration]);
    assert!(matches!(work.procedure.into_result(), Some(Ok(()))));
    let blocks = HashMap::from([(1u64, vec![1u8])]);
    globals.commit("x.db", &blocks, &HashMap::new(), 1, true);
    let mut work = db.sync_internal(&mut globals, &mut metrics);
    assert_eq!(metrics, [Metric::SyncOperationsTotal, Metric::SyncOperationsTotal]);
    assert_eq!(work.commit_marker, 3);
    assert_eq!(globals.commit_marker("x.db"), 3);
    assert_eq!(work.blocks, vec![(1, vec![1])]);
    assert!(matches!(work.procedure.next(), Some(Work::Persist)));
    work.procedure.advance(Some("full"));
    assert_eq!(measure_sync(&work.procedure), []);
    assert!(matches!(work.procedure.into_result(), Some(Err(Failure::Kept))));
}

#[test]
fn all_databases_that_are_known() {
    let mut globals = GlobalStorage::new();
    globals.commit("c.db", &HashMap::new(), &HashMap::new(), 1, true);
    assert_eq!(
        Database::get_all_databases(
            Some("[\"d.db\",\"a.db\"]"),
            &vec!["c.db".to_string(), "b.db".to_string()],
            &globals
        ),
        ["a.db", "b.db", "c.db", "d.db"]
    );
    assert_eq!(Database::get_all_databases(None, &vec![], &globals), ["c.db"]);
}

#[test]
fn testing_the_lock() {
    let (procedure, value) = database().test_lock(41);
    assert_eq!(value, 42);
    assert_eq!(
        carry_out(procedure, usize::MAX).0,
        ["Lock { name: \"x.db.lock_test\" }", "Delay { ms: 10 }"]
    );
}

#[test]
fn procedures_that_are_over_stay_over() {
    let mut procedure = Procedure::new().then_do(Work::Sync, OnFailure::Keep);
    assert!(procedure.next().is_some());
    procedure.advance(Some("boom"));
    assert!(procedure.next().is_none());
    procedure.advance(None);
    assert!(matches!(procedure.into_result(), Some(Err(Failure::Kept))));
    assert!(matches!(Procedure::new().into_result(), Some(Ok(()))));
    let open = Procedure::new().then_do(Work::Sync, OnFailure::Ignore);
    assert!(open.into_result().is_none());
}

#[test]
fn what_is_told_about_the_leader() {
    let db = database();
    assert_eq!(db.is_leader(StorageStatus::Leader), Ok(true));
    assert_eq!(db.is_leader_wasm(StorageStatus::Follower), Ok(false));
    assert_eq!(
        db.is_leader(StorageStatus::Missing),
        Err("No storage found for database: x.db".to_string())
    );
    assert_eq!(
        db.is_leader(StorageStatus::Busy),
        Err("Failed to access storage for database: x.db".to_string())
    );
    let info = db.get_leader_info(StorageStatus::Leader).unwrap();
    assert!(info.is_leader);
    assert_eq!(info.leader_id, "leader_x.db");
    let info = db.get_leader_info(StorageStatus::Follower).unwrap();
    assert!(!info.is_leader);
    assert_eq!(info.leader_id, "unknown");
    assert!(db.get_leader_info(StorageStatus::Missing).is_err());
}

#[test]
fn asking_for_leadership() {
    let db = database();
    let mut metrics = Vec::new();
    assert_eq!(db.request_leadership(Election::Started, false, true, &mut metrics), Ok(()));
    assert_eq!(
        metrics,
        [
            Metric::LeaderElectionsTotal,
            Metric::LeaderElectionDuration,
            Metric::IsLeader(true),
            Metric::LeadershipChangesTotal,
        ]
    );
    let mut metrics = Vec::new();
    assert_eq!(
        db.request_leadership(Election::NoStorage, false, false, &mut metrics),
        Err("No storage found for database: x.db".to_string())
    );
    assert_eq!(metrics, [Metric::LeaderElectionsTotal]);
    assert_eq!(
        db.request_leadership(Election::Busy, false, false, &mut metrics),
        Err("Failed to acquire storage lock for leadership request".to_string())
    );
    assert_eq!(
        db.request_leadership(Election::Failed("why".to_string()), true, true, &mut metrics),
        Err("Failed to request leadership: why".to_string())
    );
    assert_eq!(metrics, [Metric::LeaderElectionsTotal; 3]);
}

#[test]
fn waiting_for_leadership() {
    let mut metrics = Vec::new();
    let phase = database().wait_for_leadership(&mut metrics);
    assert_eq!(metrics, [Metric::LeaderElectionAttemptsTotal]);
    assert_eq!(wait_result(phase), None);
    assert_eq!(wait_on(phase, WaitEvent::Status(StorageStatus::Busy)), WaitPhase::Look);
    let leader = wait_on(phase, WaitEvent::Status(StorageStatus::Leader));
    assert_eq!(wait_result(leader), Some(Ok(())));
    let clock = wait_on(phase, WaitEvent::Status(StorageStatus::Missing));
    assert_eq!(clock, WaitPhase::ReadClock);
    assert_eq!(wait_on(clock, WaitEvent::Elapsed(5000)), WaitPhase::Wait);
    assert_eq!(wait_on(WaitPhase::Wait, WaitEvent::Waited), WaitPhase::Look);
    let late = wait_on(clock, WaitEvent::Elapsed(5001));
    assert_eq!(wait_result(late), Some(Err("Timeout waiting for leadership".to_string())));
    assert_eq!(wait_on(late, WaitEvent::Waited), late);
}

#[test]
fn permission_by_kind_of_statement() {
    assert!(is_write_operation("  Insert into t values (1)"));
    assert!(!is_write_operation("select 1"));
    assert!(is_write_operation("WITH c AS (SELECT 1) INSERT INTO t SELECT * FROM c"));
    assert!(!is_write_operation("WITH c AS (SELECT 1) SELECT * FROM c"));
    assert!(permit("WITH C AS (SELECT 1) DELETE FROM T", false, StorageStatus::Follower).is_err());
    assert!(permit("CREATE TABLE T(X)", false, StorageStatus::Follower).is_ok());
    assert!(permit("UPDATE T", true, StorageStatus::Follower).is_ok());
    assert!(permit("UPDATE T", false, StorageStatus::Follower).is_err());
    assert!(permit("SELECT", false, StorageStatus::Follower).is_ok());
}

fn request(id: &str) -> WriteRequest {
    WriteRequest { request_id: id.to_string(), sql: "delete from t".to_string() }
}

fn waiting(id: &str) -> QueuedWrite {
    let mut write = database().queue_write("delete from t");
    assert!(matches!(write.action(), QueueAction::AskLeader));
    write.advance(QueueEvent::Leader(Some(false)));
    assert!(matches!(write.action(), QueueAction::Send { sql } if sql == "delete from t"));
    write.advance(QueueEvent::Sent(id.to_string()));
    assert!(matches!(write.action(), QueueAction::Listen));
    write.advance(QueueEvent::Listening(None));
    assert!(matches!(write.action(), QueueAction::ReadClock));
    write.advance(QueueEvent::Elapsed(5000));
    assert!(matches!(write.action(), QueueAction::Wait { ms: 100 }));
    write
}

fn received(write: &mut QueuedWrite, response: WriteResponse) {
    write.advance(QueueEvent::Received(WriteQueueMessage::WriteResponse(response)));
}

#[test]
fn the_leader_answers_requests() {
    let message = || WriteQueueMessage::WriteRequest(request("r1"));
    assert!(request_to_serve(message(), None).is_none());
    assert!(request_to_serve(message(), Some(false)).is_none());
    let served = request_to_serve(message(), Some(true)).unwrap();
    assert_eq!(served.sql, "delete from t");
    let response = WriteQueueMessage::WriteResponse(answer(&served, Ok(3)));
    assert!(request_to_serve(response, Some(true)).is_none());
    assert!(matches!(
        answer(&served, Ok(3)),
        WriteResponse::Success { request_id, affected_rows: 3 } if request_id == "r1"
    ));
    assert!(matches!(
        answer(&served, Err("no".to_string())),
        WriteResponse::Error { request_id, error_message } if request_id == "r1" && error_message == "no"
    ));
}

#[test]
fn answers_reach_who_asked() {
    let mut write = waiting("r1");
    received(&mut write, answer(&request("r2"), Err("other".to_string())));
    write.advance(QueueEvent::Waited);
    assert!(matches!(write.action(), QueueAction::ReadClock));
    write.advance(QueueEvent::Elapsed(1));
    received(&mut write, answer(&request("r1"), Ok(1)));
    write.advance(QueueEvent::Waited);
    assert!(matches!(write.action(), QueueAction::Return));
    assert_eq!(write.into_result(), Some(Ok(())));

    let mut write = waiting("r1");
    received(&mut write, answer(&request("r1"), Err("no".to_string())));
    received(&mut write, answer(&request("r1"), Ok(1)));
    write.advance(QueueEvent::Waited);
    assert_eq!(write.into_result(), Some(Err("Write failed: no".to_string())));
}

#[test]
fn queued_writes_that_fail() {
    let mut write = waiting("r1");
    write.advance(QueueEvent::Waited);
    write.advance(QueueEvent::Elapsed(5001));
    assert_eq!(write.into_result(), Some(Err("Write request timed out".to_string())));

    let mut write = database().queue_write_with_timeout("delete from t", 10);
    write.advance(QueueEvent::Leader(None));
    write.advance(QueueEvent::NotSent("no".to_string()));
    assert_eq!(
        write.into_result(),
        Some(Err("Failed to send write request: no".to_string()))
    );

    let mut write = database().queue_write_with_timeout("delete from t", 10);
    write.advance(QueueEvent::Leader(Some(false)));
    write.advance(QueueEvent::Sent("r".to_string()));
    write.advance(QueueEvent::Listening(Some("deaf".to_string())));
    assert_eq!(
        write.into_result(),
        Some(Err("Failed to register listener: deaf".to_string()))
    );
    assert_eq!(QueuedWrite::begin("x", 1).into_result(), None);
}

#[test]
fn the_leader_writes_itself() {
    let mut write = database().queue_write("delete from t");
    write.advance(QueueEvent::Leader(Some(true)));
    assert!(matches!(write.action(), QueueAction::Execute { sql } if sql == "delete from t"));
    write.advance(QueueEvent::Executed(None));
    assert_eq!(write.into_result(), Some(Ok(())));
    let mut write = database().queue_write("delete from t");
    write.advance(QueueEvent::Leader(Some(true)));
    write.advance(QueueEvent::Executed(Some("bad".to_string())));
    assert_eq!(write.into_result(), Some(Err("Execute failed: bad".to_string())));
}
