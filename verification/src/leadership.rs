//! Which instance may write.
//!
//! Of the instances that have a database open, one is the leader.

use crate::sql::{ascii, ascii_upper, is_write, leading, leading_text, upper_is_write};
use crate::text::{concat, trimmed};
use crate::types::DatabaseError;
use crate::verbs::{main_verb, writes};
use vstd::prelude::*;

verus! {

/// What the block storage of a database says about leadership.
#[derive(Clone, Copy, Debug, PartialEq, Eq, Structural)]
pub enum StorageStatus {
    /// There is no storage for the database.
    Missing,
    /// The storage cannot be asked at the moment.
    Busy,
    Leader,
    Follower,
}

/// Whether a statement whose text in upper case is `upper` may only run if this
/// instance is the leader.
pub open spec fn leader_only(upper: Seq<char>, allow_non_leader_writes: bool) -> bool {
    upper_is_write(upper) && !allow_non_leader_writes
}

/// Whether an error is the one with which a write is refused.
pub open spec fn denied(error: DatabaseError, status: StorageStatus) -> bool {
    if status is Busy {
        error.is("BORROW_CONFLICT"@, "Failed to check leader status"@)
    } else {
        error.is(
            "WRITE_PERMISSION_DENIED"@,
            "Only the leader tab can write to this database. Use db.isLeader() to check status or call db.allowNonLeaderWrites(true) for single-tab mode."@,
        )
    }
}

/// Whether a statement may run. `upper` is its text in upper case and without
/// the whitespace around it. Without a storage there is only this instance, and
/// it may write.
pub fn permit(upper: &str, allow_non_leader_writes: bool, status: StorageStatus) -> (r: Result<
    (),
    DatabaseError,
>)
    ensures
        r is Ok <==> !leader_only(upper@, allow_non_leader_writes) || status is Missing
            || status is Leader,
        r matches Err(e) ==> denied(e, status),
{
    if !is_write(upper) || allow_non_leader_writes {
        return Ok(());
    }
    match status {
        StorageStatus::Missing => Ok(()),
        StorageStatus::Leader => Ok(()),
        StorageStatus::Busy => Err(
            DatabaseError::new("BORROW_CONFLICT", "Failed to check leader status"),
        ),
        StorageStatus::Follower => Err(
            DatabaseError::new(
                "WRITE_PERMISSION_DENIED",
                "Only the leader tab can write to this database. Use db.isLeader() to check status or call db.allowNonLeaderWrites(true) for single-tab mode.",
            ),
        ),
    }
}

/// Whether a statement is one that writes: one that inserts, updates, deletes or
/// replaces rows, whatever comments and common table expressions stand before
/// its verb.
pub fn is_write_operation(sql: &str) -> (r: bool)
    ensures
        r == writes(main_verb(leading(sql@))),
        ascii(sql@) ==> r == writes(
            main_verb(trimmed(sql@).map_values(|c: char| ascii_upper(c))),
        ),
{
    let upper: String = leading_text(sql);
    is_write(upper.as_str())
}

/// Whether this instance is the leader.
pub open spec fn leader_answer(name: Seq<char>, status: StorageStatus) -> Result<bool, Seq<char>> {
    match status {
        StorageStatus::Missing => Err("No storage found for database: "@ + name),
        StorageStatus::Busy => Err("Failed to access storage for database: "@ + name),
        StorageStatus::Leader => Ok(true),
        StorageStatus::Follower => Ok(false),
    }
}

/// Whether this instance is the leader of the database `name`.
pub fn leader_status(name: &str, status: StorageStatus) -> (r: Result<bool, String>)
    ensures
        match r {
            Ok(leader) => leader_answer(name@, status) == Ok::<bool, Seq<char>>(leader),
            Err(error) => leader_answer(name@, status) == Err::<bool, Seq<char>>(error@),
        },
{
    match status {
        StorageStatus::Missing => Err(concat("No storage found for database: ", name)),
        StorageStatus::Busy => Err(concat("Failed to access storage for database: ", name)),
        StorageStatus::Leader => Ok(true),
        StorageStatus::Follower => Ok(false),
    }
}

/// What is told about the leader.
#[derive(Debug)]
pub struct LeaderInfo {
    pub is_leader: bool,
    pub leader_id: String,
}

/// What is told about the leader of the database `name`. Only the leader knows
/// its own id.
pub fn leader_info(name: &str, status: StorageStatus) -> (r: Result<LeaderInfo, String>)
    ensures
        match r {
            Ok(info) => {
                &&& leader_answer(name@, status) == Ok::<bool, Seq<char>>(info.is_leader)
                &&& info.leader_id@ == if info.is_leader {
                    "leader_"@ + name@
                } else {
                    "unknown"@
                }
            },
            Err(error) => leader_answer(name@, status) == Err::<bool, Seq<char>>(error@),
        },
{
    match leader_status(name, status) {
        Err(error) => Err(error),
        Ok(is_leader) => Ok(
            LeaderInfo {
                is_leader,
                leader_id: if is_leader {
                    concat("leader_", name)
                } else {
                    "unknown".to_owned()
                },
            },
        ),
    }
}

/// How starting an election went.
#[derive(Debug)]
pub enum Election {
    /// There is no storage for the database.
    NoStorage,
    /// The storage cannot be used at the moment.
    Busy,
    /// An election could not be started, and this is why.
    Failed(String),
    Started,
}

/// How a request for leadership went.
pub fn leadership_requested(name: &str, election: Election) -> (r: Result<(), String>)
    ensures
        r is Ok <==> election is Started,
        r matches Err(error) ==> error@ == match election {
            Election::NoStorage => "No storage found for database: "@ + name@,
            Election::Busy => "Failed to acquire storage lock for leadership request"@,
            Election::Failed(reason) => "Failed to request leadership: "@ + reason@,
            Election::Started => error@,
        },
{
    match election {
        Election::NoStorage => Err(concat("No storage found for database: ", name)),
        Election::Busy => Err("Failed to acquire storage lock for leadership request".to_owned()),
        Election::Failed(reason) => Err(
            concat("Failed to request leadership: ", reason.as_str()),
        ),
        Election::Started => Ok(()),
    }
}

/// The milliseconds for which leadership is waited for.
pub const LEADERSHIP_TIMEOUT_MS: i64 = 5000;

/// The milliseconds between two looks at whether this instance is the leader.
pub const LEADERSHIP_POLL_MS: u32 = 100;

/// How far waiting for leadership has come.
#[derive(Clone, Copy, Debug, PartialEq, Eq, Structural)]
pub enum WaitPhase {
    /// Look whether this instance is the leader.
    Look,
    /// See how long leadership has been waited for.
    ReadClock,
    /// Wait for [`LEADERSHIP_POLL_MS`] before looking again.
    Wait,
    /// This instance is the leader.
    Leader,
    /// The time is over.
    TimedOut,
}

/// What happens while leadership is waited for.
#[derive(Clone, Copy, Debug, PartialEq, Eq, Structural)]
pub enum WaitEvent {
    /// What the storage says.
    Status(StorageStatus),
    /// Leadership has been waited for this many milliseconds.
    Elapsed(i64),
    /// The time to wait is over.
    Waited,
}

/// Waiting for leadership, after an event. A storage that cannot be asked is
/// asked again at once. An event that does not fit changes nothing.
pub open spec fn waited_on(phase: WaitPhase, event: WaitEvent) -> WaitPhase {
    match (phase, event) {
        (WaitPhase::Look, WaitEvent::Status(StorageStatus::Leader)) => WaitPhase::Leader,
        (WaitPhase::Look, WaitEvent::Status(StorageStatus::Busy)) => WaitPhase::Look,
        (WaitPhase::Look, WaitEvent::Status(_)) => WaitPhase::ReadClock,
        (WaitPhase::ReadClock, WaitEvent::Elapsed(ms)) => if ms > LEADERSHIP_TIMEOUT_MS {
            WaitPhase::TimedOut
        } else {
            WaitPhase::Wait
        },
        (WaitPhase::Wait, WaitEvent::Waited) => WaitPhase::Look,
        _ => phase,
    }
}

/// Goes on waiting for leadership after an event.
pub fn wait_on(phase: WaitPhase, event: WaitEvent) -> (r: WaitPhase)
    ensures
        r == waited_on(phase, event),
{
    match (phase, event) {
        (WaitPhase::Look, WaitEvent::Status(status)) => match status {
            StorageStatus::Leader => WaitPhase::Leader,
            StorageStatus::Busy => WaitPhase::Look,
            _ => WaitPhase::ReadClock,
        },
        (WaitPhase::ReadClock, WaitEvent::Elapsed(ms)) => if ms > LEADERSHIP_TIMEOUT_MS {
            WaitPhase::TimedOut
        } else {
            WaitPhase::Wait
        },
        (WaitPhase::Wait, WaitEvent::Waited) => WaitPhase::Look,
        _ => phase,
    }
}

/// How waiting for leadership ended, once it has.
pub fn wait_result(phase: WaitPhase) -> (r: Option<Result<(), String>>)
    ensures
        r is None <==> !(phase is Leader) && !(phase is TimedOut),
        r matches Some(Ok(_)) ==> phase is Leader,
        r matches Some(Err(error)) ==> phase is TimedOut && error@
            == "Timeout waiting for leadership"@,
{
    match phase {
        WaitPhase::Leader => Some(Ok(())),
        WaitPhase::TimedOut => Some(Err("Timeout waiting for leadership".to_owned())),
        _ => None,
    }
}

/// Waiting for leadership succeeds only for the leader, and once it is over it
/// stays over.
pub proof fn law_only_the_leader_stops_waiting(phase: WaitPhase, event: WaitEvent)
    ensures
        !(phase is Leader) && waited_on(phase, event) is Leader ==> event == WaitEvent::Status(
            StorageStatus::Leader,
        ),
        phase is Leader || phase is TimedOut ==> waited_on(phase, event) == phase,
{
}

/// A follower that has waited for too long gives up when it looks next.
pub proof fn law_waiting_for_leadership_ends(elapsed_ms: i64)
    requires
        elapsed_ms > LEADERSHIP_TIMEOUT_MS,
    ensures
        ({
            let woken = waited_on(WaitPhase::Wait, WaitEvent::Waited);
            let looked = waited_on(woken, WaitEvent::Status(StorageStatus::Follower));
            waited_on(looked, WaitEvent::Elapsed(elapsed_ms)) is TimedOut
        }),
{
}

/// A follower is refused every statement that begins with `INSERT`, `UPDATE`,
/// `DELETE` or `REPLACE`, unless it is allowed to write, and no statement that
/// begins with `SELECT`, `CREATE`, `DROP` or `PRAGMA`.
pub proof fn law_followers_may_not_write(upper: Seq<char>)
    ensures
        "INSERT"@.is_prefix_of(upper) || "UPDATE"@.is_prefix_of(upper) || "DELETE"@.is_prefix_of(
            upper,
        ) || "REPLACE"@.is_prefix_of(upper) ==> leader_only(upper, false),
        "SELECT"@.is_prefix_of(upper) || "CREATE"@.is_prefix_of(upper) || "DROP"@.is_prefix_of(
            upper,
        ) || "PRAGMA"@.is_prefix_of(upper) ==> !leader_only(upper, false),
        !leader_only(upper, true),
{
    crate::sql::law_writes_begin_with_a_verb(upper);
    reveal_strlit("INSERT");
    reveal_strlit("UPDATE");
    reveal_strlit("DELETE");
    reveal_strlit("REPLACE");
    reveal_strlit("SELECT");
    reveal_strlit("CREATE");
    reveal_strlit("DROP");
    reveal_strlit("PRAGMA");
    reveal_strlit("WITH");
    assert("INSERT"@.is_prefix_of(upper) ==> upper[0] == "INSERT"@[0]);
    assert("UPDATE"@.is_prefix_of(upper) ==> upper[0] == "UPDATE"@[0]);
    assert("DELETE"@.is_prefix_of(upper) ==> upper[0] == "DELETE"@[0] && upper[1]
        == "DELETE"@[1]);
    assert("REPLACE"@.is_prefix_of(upper) ==> upper[0] == "REPLACE"@[0]);
    assert("SELECT"@.is_prefix_of(upper) ==> upper[0] == "SELECT"@[0]);
    assert("CREATE"@.is_prefix_of(upper) ==> upper[0] == "CREATE"@[0]);
    assert("DROP"@.is_prefix_of(upper) ==> upper[0] == "DROP"@[0] && upper[1] == "DROP"@[1]);
    assert("PRAGMA"@.is_prefix_of(upper) ==> upper[0] == "PRAGMA"@[0]);
    assert("WITH"@.is_prefix_of(upper) ==> upper[0] == "WITH"@[0]);
}

/// A refused write is answered with the reason: that only the leader writes, or
/// that the leader cannot be found out at the moment.
pub proof fn law_refusals_tell_the_reason(error: DatabaseError, status: StorageStatus)
    requires
        denied(error, status),
    ensures
        error.sql is None,
        status is Busy <==> error.code@ == "BORROW_CONFLICT"@,
        status is Busy ==> error.message@ == "Failed to check leader status"@,
        !(status is Busy) ==> error.code@ == "WRITE_PERMISSION_DENIED"@,
        !(status is Busy) ==> error.message@
            == "Only the leader tab can write to this database. Use db.isLeader() to check status or call db.allowNonLeaderWrites(true) for single-tab mode."@,
{
    reveal_strlit("BORROW_CONFLICT");
    reveal_strlit("WRITE_PERMISSION_DENIED");
    assert("BORROW_CONFLICT"@.len() != "WRITE_PERMISSION_DENIED"@.len());
}

/// Whether this instance is the leader is what the storage says; where it cannot
/// be asked the answer names the database.
pub proof fn law_leader_answers(name: Seq<char>)
    ensures
        leader_answer(name, StorageStatus::Leader) == Ok::<bool, Seq<char>>(true),
        leader_answer(name, StorageStatus::Follower) == Ok::<bool, Seq<char>>(false),
        leader_answer(name, StorageStatus::Missing) == Err::<bool, Seq<char>>(
            "No storage found for database: "@ + name,
        ),
        leader_answer(name, StorageStatus::Busy) == Err::<bool, Seq<char>>(
            "Failed to access storage for database: "@ + name,
        ),
{
}

/// Leadership is waited for five seconds, neither longer nor shorter: after a
/// look that finds another leader, or none, waiting ends exactly if more time
/// than that has passed, and there is a look every tenth of a second otherwise.
pub proof fn law_leadership_is_waited_for_five_seconds(elapsed_ms: i64, status: StorageStatus)
    ensures
        waited_on(WaitPhase::ReadClock, WaitEvent::Elapsed(elapsed_ms)) is TimedOut <==> elapsed_ms
            > 5000,
        waited_on(WaitPhase::ReadClock, WaitEvent::Elapsed(elapsed_ms)) is Wait <==> elapsed_ms
            <= 5000,
        waited_on(WaitPhase::Look, WaitEvent::Status(status)) is Leader <==> status is Leader,
        waited_on(WaitPhase::Look, WaitEvent::Status(status)) is Look <==> status is Busy,
        waited_on(WaitPhase::Look, WaitEvent::Status(status)) is ReadClock <==> status is Missing
            || status is Follower,
        waited_on(WaitPhase::Wait, WaitEvent::Waited) is Look,
        LEADERSHIP_POLL_MS == 100,
{
}

/// Whether only the leader may run a statement depends on whether the statement
/// writes and on whether others are allowed to, and on nothing else.
pub proof fn law_permission_depends_on_the_verb(upper: Seq<char>, allow: bool)
    ensures
        leader_only(upper, allow) <==> !allow && writes(main_verb(upper)),
{
}

/// Only what is waited for counts: a look is answered by a status, the clock by a
/// time, and a pause ends; nothing else changes anything.
pub proof fn law_waiting_heeds_nothing_else(phase: WaitPhase, event: WaitEvent)
    ensures
        !(phase is Look && event is Status) && !(phase is ReadClock && event is Elapsed) && !(
        phase is Wait && event is Waited) ==> waited_on(phase, event) == phase,
{
}

} // verus!
