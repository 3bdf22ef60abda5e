//! Work that consists of several parts, one after the other.
//!
//! A [`Procedure`] says which part comes next and is told how it went. What a
//! failed part means is laid down with the part: it may be passed over, or end
//! the procedure.

use crate::text::concat;
use vstd::prelude::*;

verus! {

/// A part of a procedure.
#[derive(Debug)]
pub enum Work {
    /// Run a statement, as one that is given from outside, if there is a
    /// connection.
    Execute { sql: String },
    /// Step a statement once, if there is a connection; nothing of it is
    /// measured.
    Checkpoint { sql: String },
    /// Sync the database.
    Sync,
    /// Write the collected blocks to IndexedDB.
    Persist,
    /// Tell other instances that the data of the database have changed.
    Notify { database: String },
    /// Stop the leader election in the storage of the database.
    StopElection { database: String },
    /// Get the lock of this name for this instance alone.
    Lock { name: String },
    /// Find the storage of the database.
    FindStorage { database: String },
    /// Have the storage reload its cache from the memory of the process.
    ReloadCache,
    /// Have the storage sync its blocks.
    SyncStorage,
    /// Export the database; a limit on its size is given in bytes.
    Export { max_bytes: Option<u64> },
    /// Close the database.
    Close,
    /// Remove the connection from the pool, and close it.
    ForceClose { pool_key: String },
    /// As [`Work::ForceClose`], and this instance has no connection after it.
    DropConnection { pool_key: String },
    /// Replace the blocks of the database by those of the file with these data.
    Import { database: String, data: Vec<u8> },
    /// Get a connection from the pool, or have the pool open one.
    Reopen { pool_key: String, database: String, vfs: String },
    /// Remove everything that is kept in memory about the database.
    CleanUp { pool_key: String },
    /// Remove the storage of the database.
    RemoveStorage { database: String },
    /// Find the property `indexedDB` of the global object.
    FindIndexedDb,
    /// Take the property for the factory that it should be.
    CastIndexedDb,
    /// Delete the IndexedDB database of this name.
    DeleteIndexedDb { name: String },
    /// Remove the database from the stored list of databases.
    Unlist { database: String },
    /// Give the connection back to the pool.
    Release { pool_key: String },
    /// Stop the heartbeat of the leader, if the storage has one.
    ClearHeartbeat { database: String },
    /// Wait for this many milliseconds.
    Delay { ms: u32 },
}

/// What a [`Work`] is about.
#[verifier::ext_equal]
pub enum Part {
    Execute { sql: Seq<char> },
    Checkpoint { sql: Seq<char> },
    Sync,
    Persist,
    Notify { database: Seq<char> },
    StopElection { database: Seq<char> },
    Lock { name: Seq<char> },
    FindStorage { database: Seq<char> },
    ReloadCache,
    SyncStorage,
    Export { max_bytes: Option<u64> },
    Close,
    ForceClose { pool_key: Seq<char> },
    DropConnection { pool_key: Seq<char> },
    Import { database: Seq<char>, data: Seq<u8> },
    Reopen { pool_key: Seq<char>, database: Seq<char>, vfs: Seq<char> },
    CleanUp { pool_key: Seq<char> },
    RemoveStorage { database: Seq<char> },
    FindIndexedDb,
    CastIndexedDb,
    DeleteIndexedDb { name: Seq<char> },
    Unlist { database: Seq<char> },
    Release { pool_key: Seq<char> },
    ClearHeartbeat { database: Seq<char> },
    Delay { ms: u32 },
}

impl Work {
    pub open spec fn view(&self) -> Part {
        match self {
            Work::Execute { sql } => Part::Execute { sql: sql@ },
            Work::Checkpoint { sql } => Part::Checkpoint { sql: sql@ },
            Work::Sync => Part::Sync,
            Work::Persist => Part::Persist,
            Work::Notify { database } => Part::Notify { database: database@ },
            Work::StopElection { database } => Part::StopElection { database: database@ },
            Work::Lock { name } => Part::Lock { name: name@ },
            Work::FindStorage { database } => Part::FindStorage { database: database@ },
            Work::ReloadCache => Part::ReloadCache,
            Work::SyncStorage => Part::SyncStorage,
            Work::Export { max_bytes } => Part::Export { max_bytes: *max_bytes },
            Work::Close => Part::Close,
            Work::ForceClose { pool_key } => Part::ForceClose { pool_key: pool_key@ },
            Work::DropConnection { pool_key } => Part::DropConnection { pool_key: pool_key@ },
            Work::Import { database, data } => Part::Import { database: database@, data: data@ },
            Work::Reopen { pool_key, database, vfs } => Part::Reopen {
                pool_key: pool_key@,
                database: database@,
                vfs: vfs@,
            },
            Work::CleanUp { pool_key } => Part::CleanUp { pool_key: pool_key@ },
            Work::RemoveStorage { database } => Part::RemoveStorage { database: database@ },
            Work::FindIndexedDb => Part::FindIndexedDb,
            Work::CastIndexedDb => Part::CastIndexedDb,
            Work::DeleteIndexedDb { name } => Part::DeleteIndexedDb { name: name@ },
            Work::Unlist { database } => Part::Unlist { database: database@ },
            Work::Release { pool_key } => Part::Release { pool_key: pool_key@ },
            Work::ClearHeartbeat { database } => Part::ClearHeartbeat { database: database@ },
            Work::Delay { ms } => Part::Delay { ms: *ms },
        }
    }
}

/// What the failure of a part means.
#[derive(Debug)]
pub enum OnFailure {
    /// The procedure goes on.
    Ignore,
    /// The procedure fails with the error of the part.
    Keep,
    /// The procedure fails with this text and the error of the part behind it.
    Explain(String),
    /// The procedure fails with this text.
    Replace(String),
}

/// What an [`OnFailure`] says.
#[verifier::ext_equal]
pub enum Policy {
    Ignore,
    Keep,
    Explain(Seq<char>),
    Replace(Seq<char>),
}

impl OnFailure {
    pub open spec fn view(&self) -> Policy {
        match self {
            OnFailure::Ignore => Policy::Ignore,
            OnFailure::Keep => Policy::Keep,
            OnFailure::Explain(prefix) => Policy::Explain(prefix@),
            OnFailure::Replace(text) => Policy::Replace(text@),
        }
    }
}

/// A part of a procedure, with what its failure means.
#[derive(Debug)]
pub struct Task {
    pub work: Work,
    pub on_failure: OnFailure,
}

impl Task {
    pub open spec fn view(&self) -> (Part, Policy) {
        (self.work@, self.on_failure@)
    }
}

/// What several tasks are about.
pub open spec fn all_tasks(tasks: Seq<Task>) -> Seq<(Part, Policy)> {
    Seq::new(tasks.len(), |i: int| tasks[i]@)
}

/// How a procedure failed.
#[derive(Debug)]
pub enum Failure {
    /// With the error of the part that came last.
    Kept,
    /// With this text.
    Text(String),
}

/// What a [`Failure`] says.
#[verifier::ext_equal]
pub enum Reason {
    Kept,
    Text(Seq<char>),
}

impl Failure {
    pub open spec fn view(&self) -> Reason {
        match self {
            Failure::Kept => Reason::Kept,
            Failure::Text(text) => Reason::Text(text@),
        }
    }
}

/// The state of a procedure.
#[verifier::ext_equal]
pub struct Progress {
    pub tasks: Seq<(Part, Policy)>,
    /// How many parts are done.
    pub done: nat,
    pub failure: Option<Reason>,
}

/// A procedure that has just begun.
pub open spec fn begun_procedure(tasks: Seq<(Part, Policy)>) -> Progress {
    Progress { tasks, done: 0, failure: None }
}

/// Whether a procedure is over.
pub open spec fn procedure_over(progress: Progress) -> bool {
    progress.failure is Some || progress.done >= progress.tasks.len()
}

/// A procedure after a part that succeeded, or failed with an error. A
/// procedure that is over stays as it is.
pub open spec fn after_part(progress: Progress, error: Option<Seq<char>>) -> Progress {
    if procedure_over(progress) {
        progress
    } else {
        match error {
            None => Progress { done: progress.done + 1, ..progress },
            Some(error) => match progress.tasks[progress.done as int].1 {
                Policy::Ignore => Progress { done: progress.done + 1, ..progress },
                Policy::Keep => Progress { failure: Some(Reason::Kept), ..progress },
                Policy::Explain(prefix) => Progress {
                    failure: Some(Reason::Text(prefix + error)),
                    ..progress
                },
                Policy::Replace(text) => Progress {
                    failure: Some(Reason::Text(text)),
                    ..progress
                },
            },
        }
    }
}

/// Work that consists of several parts.
#[derive(Debug)]
pub struct Procedure {
    tasks: Vec<Task>,
    done: usize,
    failure: Option<Failure>,
}

impl Procedure {
    pub closed spec fn view(&self) -> Progress {
        Progress {
            tasks: all_tasks(self.tasks@),
            done: self.done as nat,
            failure: match self.failure {
                Some(failure) => Some(failure@),
                None => None,
            },
        }
    }

    /// A procedure without parts.
    pub fn new() -> (r: Procedure)
        ensures
            r@ == begun_procedure(Seq::empty()),
    {
        let r = Procedure { tasks: Vec::new(), done: 0, failure: None };
        assert(r@ =~= begun_procedure(Seq::empty()));
        r
    }

    /// The procedure with one more part at its end.
    pub fn then_do(self, work: Work, on_failure: OnFailure) -> (r: Procedure)
        ensures
            r@ == (Progress { tasks: self@.tasks.push((work@, on_failure@)), ..self@ }),
    {
        let ghost before = self@;
        let mut tasks: Vec<Task> = self.tasks;
        tasks.push(Task { work, on_failure });
        let r = Procedure { tasks, done: self.done, failure: self.failure };
        assert(r@ =~= (Progress { tasks: before.tasks.push((work@, on_failure@)), ..before }));
        r
    }

    /// The part that comes next, if the procedure is not over.
    pub fn next(&self) -> (r: Option<&Work>)
        ensures
            match r {
                Some(work) => !procedure_over(self@) && work@
                    == self@.tasks[self@.done as int].0,
                None => procedure_over(self@),
            },
    {
        if self.failure.is_some() || self.done >= self.tasks.len() {
            None
        } else {
            Some(&self.tasks[self.done].work)
        }
    }

    /// Takes note of how the part went that came next: it succeeded, or failed
    /// with this error.
    pub fn advance(&mut self, error: Option<&str>)
        ensures
            final(self)@ == after_part(
                old(self)@,
                match error {
                    Some(error) => Some(error@),
                    None => None,
                },
            ),
    {
        let ghost before = self@;
        if self.failure.is_some() || self.done >= self.tasks.len() {
            return;
        }
        match error {
            None => {
                self.done = self.done + 1;
            },
            Some(error) => match &self.tasks[self.done].on_failure {
                OnFailure::Ignore => {
                    self.done = self.done + 1;
                },
                OnFailure::Keep => {
                    self.failure = Some(Failure::Kept);
                },
                OnFailure::Explain(prefix) => {
                    self.failure = Some(Failure::Text(concat(prefix.as_str(), error)));
                },
                OnFailure::Replace(text) => {
                    self.failure = Some(Failure::Text(text.clone()));
                },
            },
        }
        assert(self@ =~= after_part(
            before,
            match error {
                Some(error) => Some(error@),
                None => None,
            },
        ));
    }

    /// Whether the procedure is over, and succeeded.
    pub fn has_succeeded(&self) -> (r: bool)
        ensures
            r == (procedure_over(self@) && self@.failure is None),
    {
        self.failure.is_none() && self.done >= self.tasks.len()
    }

    /// Whether the procedure succeeded, or how it failed, once it is over.
    pub fn into_result(self) -> (r: Option<Result<(), Failure>>)
        ensures
            r is None <==> !procedure_over(self@),
            r matches Some(Ok(_)) ==> self@.failure is None,
            r matches Some(Err(failure)) ==> self@.failure == Some(failure@),
    {
        match self.failure {
            Some(failure) => Some(Err(failure)),
            None => if self.done >= self.tasks.len() {
                Some(Ok(()))
            } else {
                None
            },
        }
    }
}

/// A procedure after its first parts went as `errors` says.
pub open spec fn after_parts(progress: Progress, errors: Seq<Option<Seq<char>>>) -> Progress
    decreases errors.len(),
{
    if errors.len() == 0 {
        progress
    } else {
        after_part(after_parts(progress, errors.drop_last()), errors.last())
    }
}

/// A part passes if it succeeds, or if its failure is passed over.
pub open spec fn passes(task: (Part, Policy), error: Option<Seq<char>>) -> bool {
    error is None || task.1 is Ignore
}

/// A procedure whose parts all pass does every part, in order, and succeeds.
pub proof fn law_every_part_is_done(
    tasks: Seq<(Part, Policy)>,
    errors: Seq<Option<Seq<char>>>,
)
    requires
        errors.len() <= tasks.len(),
        forall|i: int| 0 <= i < errors.len() ==> passes(tasks[i], #[trigger] errors[i]),
    ensures
        after_parts(begun_procedure(tasks), errors) == (Progress {
            tasks,
            done: errors.len(),
            failure: None,
        }),
    decreases errors.len(),
{
    if errors.len() > 0 {
        let fewer = errors.drop_last();
        assert forall|i: int| 0 <= i < fewer.len() implies passes(tasks[i], #[trigger] fewer[i]) by {
            assert(passes(tasks[i], errors[i]));
        }
        law_every_part_is_done(tasks, fewer);
        assert(passes(tasks[errors.len() - 1], errors[errors.len() - 1]));
    }
}

/// The first part that does not pass ends the procedure: whatever comes later
/// is not done.
pub proof fn law_first_failure_ends(
    tasks: Seq<(Part, Policy)>,
    errors: Seq<Option<Seq<char>>>,
    error: Seq<char>,
    later: Option<Seq<char>>,
)
    requires
        errors.len() < tasks.len(),
        forall|i: int| 0 <= i < errors.len() ==> passes(tasks[i], #[trigger] errors[i]),
        !(tasks[errors.len() as int].1 is Ignore),
    ensures
        ({
            let failed = after_part(after_parts(begun_procedure(tasks), errors), Some(error));
            &&& procedure_over(failed)
            &&& failed.done == errors.len()
            &&& failed.failure is Some
            &&& after_part(failed, later) == failed
        }),
{
    law_every_part_is_done(tasks, errors);
}

/// What becomes of a procedure after a part: a part that succeeds is done, and so
/// is one whose failure is passed over. Any other failure ends the procedure:
/// with the error itself, with a text and the error behind it, or with a text.
pub proof fn law_failures_are_told(progress: Progress, error: Seq<char>)
    requires
        progress.failure is None,
        progress.done < progress.tasks.len(),
    ensures
        ({
            let done = Progress { done: progress.done + 1, ..progress };
            let failed = after_part(progress, Some(error));
            &&& after_part(progress, None) == done
            &&& match progress.tasks[progress.done as int].1 {
                Policy::Ignore => failed == done,
                Policy::Keep => failed.failure == Some(Reason::Kept),
                Policy::Explain(text) => failed.failure == Some(Reason::Text(text + error)),
                Policy::Replace(text) => failed.failure == Some(Reason::Text(text)),
            }
            &&& failed.tasks == progress.tasks
            &&& !(progress.tasks[progress.done as int].1 is Ignore) ==> failed.done == progress.done
        }),
{
}

/// A procedure is over once it has failed or every part is done, and begins with
/// its first part.
pub proof fn law_procedures_end(tasks: Seq<(Part, Policy)>, progress: Progress)
    ensures
        procedure_over(progress) <==> progress.failure is Some || progress.done
            >= progress.tasks.len(),
        begun_procedure(tasks).tasks == tasks,
        begun_procedure(tasks).done == 0,
        begun_procedure(tasks).failure is None,
{
}

/// What a part is about is seen as it is.
pub proof fn law_parts_are_seen_as_they_are(work: Work, on_failure: OnFailure, failure: Failure)
    ensures
        match work {
            Work::Execute { sql } => work@ == (Part::Execute { sql: sql@ }),
            Work::Checkpoint { sql } => work@ == (Part::Checkpoint { sql: sql@ }),
            Work::Notify { database } => work@ == (Part::Notify { database: database@ }),
            Work::StopElection { database } => work@ == (Part::StopElection {
                database: database@,
            }),
            Work::Lock { name } => work@ == (Part::Lock { name: name@ }),
            Work::FindStorage { database } => work@ == (Part::FindStorage { database: database@ }),
            Work::Export { max_bytes } => work@ == (Part::Export { max_bytes }),
            Work::ForceClose { pool_key } => work@ == (Part::ForceClose { pool_key: pool_key@ }),
            Work::DropConnection { pool_key } => work@ == (Part::DropConnection {
                pool_key: pool_key@,
            }),
            Work::Import { database, data } => work@ == (Part::Import {
                database: database@,
                data: data@,
            }),
            Work::Reopen { pool_key, database, vfs } => work@ == (Part::Reopen {
                pool_key: pool_key@,
                database: database@,
                vfs: vfs@,
            }),
            Work::CleanUp { pool_key } => work@ == (Part::CleanUp { pool_key: pool_key@ }),
            Work::RemoveStorage { database } => work@ == (Part::RemoveStorage {
                database: database@,
            }),
            Work::DeleteIndexedDb { name } => work@ == (Part::DeleteIndexedDb { name: name@ }),
            Work::Unlist { database } => work@ == (Part::Unlist { database: database@ }),
            Work::Release { pool_key } => work@ == (Part::Release { pool_key: pool_key@ }),
            Work::ClearHeartbeat { database } => work@ == (Part::ClearHeartbeat {
                database: database@,
            }),
            Work::Delay { ms } => work@ == (Part::Delay { ms }),
            Work::Sync => work@ is Sync,
            Work::Persist => work@ is Persist,
            Work::ReloadCache => work@ is ReloadCache,
            Work::SyncStorage => work@ is SyncStorage,
            Work::Close => work@ is Close,
            Work::FindIndexedDb => work@ is FindIndexedDb,
            Work::CastIndexedDb => work@ is CastIndexedDb,
        },
        match on_failure {
            OnFailure::Ignore => on_failure@ is Ignore,
            OnFailure::Keep => on_failure@ is Keep,
            OnFailure::Explain(text) => on_failure@ == Policy::Explain(text@),
            OnFailure::Replace(text) => on_failure@ == Policy::Replace(text@),
        },
        match failure {
            Failure::Kept => failure@ is Kept,
            Failure::Text(text) => failure@ == Reason::Text(text@),
        },
{
}

} // verus!
