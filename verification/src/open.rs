//! Opening a database.
//!
//! An [`Opening`] says what is to be done next, is told how it went, and in the
//! end holds the open database.

use crate::collections::NameMap;
use crate::database::Database;
use crate::names::{bare_name, normalize_db_name, normalized_name, pool_key, vfs_name};
use crate::numbers::{decimal, to_decimal};
use crate::statement::{has_nul, holds_nul};
use crate::text::concat;
use crate::types::{DatabaseConfig, DatabaseError, ErrorView};
use vstd::prelude::*;

verus! {

/// The locks under which databases are opened, one for each name.
pub struct OpenLocks {
    held: NameMap<bool>,
}

impl OpenLocks {
    /// No name is locked twice.
    pub closed spec fn wf(&self) -> bool {
        self.held.wf()
    }

    /// The names that are locked.
    pub closed spec fn view(&self) -> Set<Seq<char>> {
        self.held@.dom()
    }

    /// No locks.
    pub fn new() -> (r: OpenLocks)
        ensures
            r.wf(),
            r@ == Set::<Seq<char>>::empty(),
    {
        let r = OpenLocks { held: NameMap::new() };
        assert(r@ =~= Set::<Seq<char>>::empty());
        r
    }

    /// Locks a name, unless it is locked already.
    pub fn acquire(&mut self, name: &str) -> (acquired: bool)
        requires
            old(self).wf(),
        ensures
            final(self).wf(),
            acquired == !old(self)@.contains(name@),
            final(self)@ == old(self)@.insert(name@),
    {
        if self.held.get(name).is_some() {
            assert(self@ =~= old(self)@.insert(name@));
            return false;
        }
        self.held.set(name, true);
        assert(self@ =~= old(self)@.insert(name@));
        true
    }

    /// Unlocks a name.
    pub fn release(&mut self, name: &str)
        requires
            old(self).wf(),
        ensures
            final(self).wf(),
            final(self)@ == old(self)@.remove(name@),
    {
        let _ = self.held.remove(name);
        assert(self@ =~= old(self)@.remove(name@));
    }
}

/// How often the lock is asked for before a database is opened without it.
pub const LOCK_ATTEMPTS: u32 = 100;

/// The milliseconds between two attempts.
pub const LOCK_POLL_MS: u32 = 10;

/// A statement that sets an option of a new connection.
#[derive(Debug)]
pub struct Pragma {
    pub sql: String,
    /// Whether the database is not opened if the statement fails.
    pub strict: bool,
}

/// What a [`Pragma`] says.
#[verifier::ext_equal]
pub struct Setting {
    pub sql: Seq<char>,
    pub strict: bool,
}

impl Pragma {
    pub open spec fn view(&self) -> Setting {
        Setting { sql: self.sql@, strict: self.strict }
    }
}

/// What several pragmas say.
pub open spec fn all_settings(pragmas: Seq<Pragma>) -> Seq<Setting> {
    Seq::new(pragmas.len(), |i: int| pragmas[i]@)
}

/// A single setting where there is a value for it, and none otherwise.
pub open spec fn optional(value: Option<Seq<char>>, prefix: Seq<char>, strict: bool) -> Seq<
    Setting,
> {
    match value {
        Some(value) => seq![Setting { sql: prefix + value, strict }],
        None => Seq::empty(),
    }
}

/// The settings of a new connection, in the order in which they are made. The
/// timeout for a busy database comes first. A journal mode that cannot be set
/// is no reason not to open the database.
pub open spec fn settings(config: DatabaseConfig) -> Seq<Setting> {
    seq![Setting { sql: "PRAGMA busy_timeout = 10000"@, strict: true }] + optional(
        match config.page_size {
            Some(n) => Some(decimal(n as nat)),
            None => None,
        },
        "PRAGMA page_size = "@,
        true,
    ) + optional(
        match config.cache_size {
            Some(n) => Some(decimal(n as nat)),
            None => None,
        },
        "PRAGMA cache_size = "@,
        true,
    ) + optional(
        match config.journal_mode {
            Some(mode) => Some(mode@),
            None => None,
        },
        "PRAGMA journal_mode = "@,
        false,
    ) + match config.auto_vacuum {
        Some(true) => seq![Setting { sql: "PRAGMA auto_vacuum = 1"@, strict: true }],
        Some(false) => seq![Setting { sql: "PRAGMA auto_vacuum = 0"@, strict: true }],
        None => Seq::empty(),
    }
}

/// Appends a setting, if there is a value for it.
fn add_setting(pragmas: &mut Vec<Pragma>, prefix: &str, value: Option<&str>, strict: bool)
    ensures
        all_settings(final(pragmas)@) == all_settings(old(pragmas)@) + optional(
            match value {
                Some(value) => Some(value@),
                None => None,
            },
            prefix@,
            strict,
        ),
{
    match value {
        Some(value) => {
            pragmas.push(Pragma { sql: concat(prefix, value), strict });
        },
        None => {},
    }
    assert(all_settings(pragmas@) =~= all_settings(old(pragmas)@) + optional(
        match value {
            Some(value) => Some(value@),
            None => None,
        },
        prefix@,
        strict,
    ));
}

/// The settings of a new connection, in the order in which they are made.
pub fn pragmas_of(config: &DatabaseConfig) -> (pragmas: Vec<Pragma>)
    ensures
        all_settings(pragmas@) == settings(*config),
{
    let mut pragmas: Vec<Pragma> = Vec::new();
    pragmas.push(Pragma { sql: "PRAGMA busy_timeout = 10000".to_owned(), strict: true });
    assert(all_settings(pragmas@) =~= seq![
        Setting { sql: "PRAGMA busy_timeout = 10000"@, strict: true },
    ]);
    match config.page_size {
        Some(n) => {
            let numeral: String = to_decimal(n as u64);
            add_setting(&mut pragmas, "PRAGMA page_size = ", Some(numeral.as_str()), true);
        },
        None => {
            add_setting(&mut pragmas, "PRAGMA page_size = ", None, true);
        },
    }
    match config.cache_size {
        Some(n) => {
            let numeral: String = to_decimal(n as u64);
            add_setting(&mut pragmas, "PRAGMA cache_size = ", Some(numeral.as_str()), true);
        },
        None => {
            add_setting(&mut pragmas, "PRAGMA cache_size = ", None, true);
        },
    }
    match &config.journal_mode {
        Some(mode) => {
            add_setting(&mut pragmas, "PRAGMA journal_mode = ", Some(mode.as_str()), false);
        },
        None => {
            add_setting(&mut pragmas, "PRAGMA journal_mode = ", None, false);
        },
    }
    let ghost before = all_settings(pragmas@);
    match config.auto_vacuum {
        Some(full) => {
            let sql: String = if full {
                "PRAGMA auto_vacuum = 1".to_owned()
            } else {
                "PRAGMA auto_vacuum = 0".to_owned()
            };
            pragmas.push(Pragma { sql, strict: true });
            assert(all_settings(pragmas@) =~= before.push(pragmas@.last()@));
        },
        None => {},
    }
    assert(all_settings(pragmas@) =~= settings(*config));
    pragmas
}

/// How far an opening has come.
#[derive(Clone, Copy, Debug, PartialEq, Eq, Structural)]
pub enum OpenPhase {
    /// Find out whether the virtual file system is registered.
    FindVfs,
    /// Create the virtual file system, and register it where it is not.
    CreateVfs(bool),
    /// Wait after this many further attempts to get the lock.
    Wait(u32),
    /// Get a connection.
    Connect,
    /// Make this setting.
    Configure(usize),
    /// Set up the metrics.
    StartMetrics,
    Over,
}

/// How a part of an opening went.
#[derive(Debug)]
pub enum OpenEvent {
    /// The virtual file system is registered, or not.
    VfsFound(bool),
    /// The virtual file system is there.
    VfsReady,
    /// The virtual file system cannot be created or registered.
    VfsFailed(DatabaseError),
    /// The time to wait is over.
    Waited,
    /// There is a connection.
    Connected,
    /// There is no connection, and this is why.
    NotConnected(String),
    /// A setting has been made.
    Executed,
    /// A setting has failed, with the message of SQLite, if it has one.
    NotExecuted(Option<String>),
    /// The metrics are set up.
    MetricsReady,
    /// The metrics cannot be set up, and this is why.
    MetricsFailed(String),
}

/// The state of an opening.
#[verifier::ext_equal]
pub struct OpenState {
    /// The name with the extension `.db`, under which the opening is locked.
    pub name: Seq<char>,
    pub settings: Seq<Setting>,
    pub max_export_size_bytes: Option<u64>,
    pub phase: OpenPhase,
    pub error: Option<ErrorView>,
}

/// An opening that has just begun.
pub open spec fn begun_opening(config: DatabaseConfig) -> OpenState {
    OpenState {
        name: normalized_name(config.name@),
        settings: settings(config),
        max_export_size_bytes: config.max_export_size_bytes,
        phase: OpenPhase::FindVfs,
        error: None,
    }
}

/// An opening that failed. A name that it has locked stays locked: a lock is
/// released only once a database is open. Later openings of the name wait as
/// often as they may, and go on.
pub open spec fn failed_opening(state: OpenState, error: ErrorView) -> OpenState {
    OpenState { phase: OpenPhase::Over, error: Some(error), ..state }
}

/// An error that names no statement.
pub open spec fn plain_error(code: Seq<char>, message: Seq<char>) -> ErrorView {
    ErrorView { code, message, sql: None }
}

/// The error for metrics that cannot be set up.
pub open spec fn metrics_error(reason: Seq<char>) -> ErrorView {
    plain_error("METRICS_ERROR"@, "Failed to initialize metrics: "@ + reason)
}

/// An opening that asks for the lock, and goes on without it after too many
/// attempts.
pub open spec fn asking(state: OpenState, locks: Set<Seq<char>>, attempts: u32) -> (
    OpenState,
    Set<Seq<char>>,
) {
    if attempts >= LOCK_ATTEMPTS {
        (OpenState { phase: OpenPhase::Connect, ..state }, locks)
    } else if locks.contains(state.name) {
        (OpenState { phase: OpenPhase::Wait(attempts), ..state }, locks)
    } else {
        (
            OpenState { phase: OpenPhase::Connect, ..state },
            locks.insert(state.name),
        )
    }
}

/// An opening that goes on with a setting, or with the metrics after the last
/// one.
pub open spec fn configuring(state: OpenState, locks: Set<Seq<char>>, setting: int) -> (
    OpenState,
    Set<Seq<char>>,
) {
    if setting >= state.settings.len() {
        (OpenState { phase: OpenPhase::StartMetrics, ..state }, locks)
    } else if holds_nul(state.settings[setting].sql) {
        (failed_opening(state, plain_error("INVALID_SQL"@, "Invalid SQL statement"@)), locks)
    } else {
        (OpenState { phase: OpenPhase::Configure(setting as usize), ..state }, locks)
    }
}

/// An opening, and the locks, after an event. An event that does not fit leaves
/// them as they are.
pub open spec fn proceeded(state: OpenState, locks: Set<Seq<char>>, event: OpenEvent) -> (
    OpenState,
    Set<Seq<char>>,
) {
    match (state.phase, event) {
        (OpenPhase::FindVfs, OpenEvent::VfsFound(found)) => (
            OpenState { phase: OpenPhase::CreateVfs(!found), ..state },
            locks,
        ),
        (OpenPhase::CreateVfs(_), OpenEvent::VfsReady) => asking(state, locks, 0),
        (OpenPhase::CreateVfs(_), OpenEvent::VfsFailed(error)) => (
            failed_opening(state, error@),
            locks,
        ),
        (OpenPhase::Wait(attempts), OpenEvent::Waited) => asking(
            state,
            locks,
            (attempts + 1) as u32,
        ),
        (OpenPhase::Connect, OpenEvent::Connected) => configuring(state, locks, 0),
        (OpenPhase::Connect, OpenEvent::NotConnected(reason)) => (
            failed_opening(state, plain_error("CONNECTION_POOL_ERROR"@, reason@)),
            locks,
        ),
        (OpenPhase::Configure(setting), OpenEvent::Executed) => configuring(
            state,
            locks,
            setting + 1,
        ),
        (OpenPhase::Configure(setting), OpenEvent::NotExecuted(message)) => if state.settings[
            setting as int
        ].strict {
            (
                failed_opening(
                    state,
                    plain_error(
                        "SQLITE_ERROR"@,
                        "Failed to execute: "@ + match message {
                            Some(message) => message@,
                            None => "Unknown error"@,
                        },
                    ),
                ),
                locks,
            )
        } else {
            configuring(state, locks, setting + 1)
        },
        (OpenPhase::StartMetrics, OpenEvent::MetricsReady) => (
            OpenState { phase: OpenPhase::Over, ..state },
            locks.remove(state.name),
        ),
        (OpenPhase::StartMetrics, OpenEvent::MetricsFailed(reason)) => (
            failed_opening(state, metrics_error(reason@)),
            locks,
        ),
        _ => (state, locks),
    }
}

/// Whether a state is one that an opening can be in.
pub open spec fn reachable_opening(state: OpenState) -> bool {
    &&& state.phase matches OpenPhase::Wait(attempts) ==> attempts < LOCK_ATTEMPTS
    &&& state.phase matches OpenPhase::Configure(setting) ==> {
        &&& setting < state.settings.len()
        &&& !holds_nul(state.settings[setting as int].sql)
    }
    &&& state.error is Some ==> state.phase is Over
    &&& 0 < state.settings.len() < usize::MAX
}

/// What an opening does next.
#[derive(Debug)]
pub enum OpenAction {
    /// Find out whether a virtual file system of this name is registered.
    FindVfs { vfs: String },
    /// Create the virtual file system of a database; it brings the block
    /// storage of the database with it. Register it under the name, if any.
    CreateVfs { database: String, register_as: Option<String> },
    /// Wait for this many milliseconds.
    Wait { ms: u32 },
    /// Get a connection from the pool, or have the pool open one.
    Connect { pool_key: String, database: String, vfs: String },
    /// Execute a setting.
    Execute { sql: String },
    /// Set up the metrics.
    StartMetrics,
    /// None: the opening is over.
    Return,
}

/// Whether an action is the one that an opening does next.
pub open spec fn is_next_opening(action: OpenAction, state: OpenState) -> bool {
    match state.phase {
        OpenPhase::FindVfs => action matches OpenAction::FindVfs { vfs } && vfs@ == "vfs_"@
            + bare_name(state.name),
        OpenPhase::CreateVfs(register) => action matches OpenAction::CreateVfs {
            database,
            register_as,
        } && database@ == state.name && match register_as {
            Some(vfs) => register && vfs@ == "vfs_"@ + bare_name(state.name),
            None => !register,
        },
        OpenPhase::Wait(_) => action matches OpenAction::Wait { ms } && ms == LOCK_POLL_MS,
        OpenPhase::Connect => action matches OpenAction::Connect { pool_key, database, vfs }
            && pool_key@ == bare_name(state.name) && database@ == state.name && vfs@ == "vfs_"@
            + bare_name(state.name),
        OpenPhase::Configure(setting) => action matches OpenAction::Execute { sql } && sql@
            == state.settings[setting as int].sql,
        OpenPhase::StartMetrics => action is StartMetrics,
        OpenPhase::Over => action is Return,
    }
}

/// The error for metrics that cannot be set up.
pub fn metrics_failure(reason: &str) -> (error: DatabaseError)
    ensures
        error@ == metrics_error(reason@),
{
    let text: String = concat("Failed to initialize metrics: ", reason);
    DatabaseError::new("METRICS_ERROR", text.as_str())
}

/// A database that is being opened.
#[derive(Debug)]
pub struct Opening {
    name: String,
    pragmas: Vec<Pragma>,
    max_export_size_bytes: Option<u64>,
    phase: OpenPhase,
    error: Option<DatabaseError>,
}

impl Opening {
    pub closed spec fn view(&self) -> OpenState {
        OpenState {
            name: self.name@,
            settings: all_settings(self.pragmas@),
            max_export_size_bytes: self.max_export_size_bytes,
            phase: self.phase,
            error: match self.error {
                Some(error) => Some(error@),
                None => None,
            },
        }
    }

    /// Begins to open a database.
    pub fn begin(config: &DatabaseConfig) -> (r: Result<Opening, DatabaseError>)
        ensures
            r is Err <==> holds_nul("vfs_"@ + bare_name(normalized_name(config.name@))),
            r matches Err(e) ==> e.is("INVALID_VFS_NAME"@, "Invalid VFS name"@),
            r matches Ok(opening) ==> opening@ == begun_opening(*config) && reachable_opening(
                opening@,
            ),
    {
        let name: String = normalize_db_name(config.name.as_str());
        let vfs: String = vfs_name(name.as_str());
        if has_nul(vfs.as_str()) {
            return Err(DatabaseError::new("INVALID_VFS_NAME", "Invalid VFS name"));
        }
        let opening = Opening {
            name,
            pragmas: pragmas_of(config),
            max_export_size_bytes: config.max_export_size_bytes,
            phase: OpenPhase::FindVfs,
            error: None,
        };
        assert(opening@ =~= begun_opening(*config));
        assert(0 < opening@.settings.len() <= 5);
        Ok(opening)
    }

    /// What is done next.
    pub fn action(&self) -> (action: OpenAction)
        requires
            reachable_opening(self@),
        ensures
            is_next_opening(action, self@),
    {
        match self.phase {
            OpenPhase::FindVfs => OpenAction::FindVfs { vfs: vfs_name(self.name.as_str()) },
            OpenPhase::CreateVfs(register) => OpenAction::CreateVfs {
                database: self.name.clone(),
                register_as: if register {
                    Some(vfs_name(self.name.as_str()))
                } else {
                    None
                },
            },
            OpenPhase::Wait(_) => OpenAction::Wait { ms: LOCK_POLL_MS },
            OpenPhase::Connect => OpenAction::Connect {
                pool_key: pool_key(self.name.as_str()),
                database: self.name.clone(),
                vfs: vfs_name(self.name.as_str()),
            },
            OpenPhase::Configure(setting) => OpenAction::Execute {
                sql: self.pragmas[setting].sql.clone(),
            },
            OpenPhase::StartMetrics => OpenAction::StartMetrics,
            OpenPhase::Over => OpenAction::Return,
        }
    }

    fn fail(&mut self, error: DatabaseError)
        ensures
            final(self)@ == failed_opening(old(self)@, error@),
    {
        self.error = Some(error);
        self.phase = OpenPhase::Over;
        assert(self@ =~= failed_opening(old(self)@, error@));
    }

    fn ask(&mut self, locks: &mut OpenLocks, attempts: u32)
        requires
            old(locks).wf(),
        ensures
            final(locks).wf(),
            (final(self)@, final(locks)@) == asking(old(self)@, old(locks)@, attempts),
    {
        if attempts >= LOCK_ATTEMPTS || locks.acquire(self.name.as_str()) {
            self.phase = OpenPhase::Connect;
        } else {
            self.phase = OpenPhase::Wait(attempts);
        }
        assert(self@ =~= asking(old(self)@, old(locks)@, attempts).0);
        assert(locks@ =~= asking(old(self)@, old(locks)@, attempts).1);
    }

    fn configure(&mut self, locks: &mut OpenLocks, setting: usize)
        requires
            old(locks).wf(),
        ensures
            final(locks).wf(),
            (final(self)@, final(locks)@) == configuring(
                old(self)@,
                old(locks)@,
                setting as int,
            ),
    {
        if setting >= self.pragmas.len() {
            self.phase = OpenPhase::StartMetrics;
        } else if has_nul(self.pragmas[setting].sql.as_str()) {
            self.fail(DatabaseError::new("INVALID_SQL", "Invalid SQL statement"));
        } else {
            self.phase = OpenPhase::Configure(setting);
        }
        assert(self@ =~= configuring(old(self)@, old(locks)@, setting as int).0);
        assert(locks@ =~= configuring(old(self)@, old(locks)@, setting as int).1);
    }

    /// Takes note of how a part of the opening went.
    pub fn advance(&mut self, locks: &mut OpenLocks, event: OpenEvent)
        requires
            reachable_opening(old(self)@),
            old(locks).wf(),
        ensures
            (final(self)@, final(locks)@) == proceeded(old(self)@, old(locks)@, event),
            reachable_opening(final(self)@),
            final(locks).wf(),
    {
        let ghost before = self@;
        let ghost locked = locks@;
        match (self.phase, event) {
            (OpenPhase::FindVfs, OpenEvent::VfsFound(found)) => {
                self.phase = OpenPhase::CreateVfs(!found);
                assert(self@ =~= proceeded(before, locked, event).0);
            },
            (OpenPhase::CreateVfs(_), OpenEvent::VfsReady) => {
                self.ask(locks, 0);
            },
            (OpenPhase::CreateVfs(_), OpenEvent::VfsFailed(error)) => {
                self.fail(error);
            },
            (OpenPhase::Wait(attempts), OpenEvent::Waited) => {
                self.ask(locks, attempts + 1);
            },
            (OpenPhase::Connect, OpenEvent::Connected) => {
                self.configure(locks, 0);
            },
            (OpenPhase::Connect, OpenEvent::NotConnected(reason)) => {
                self.fail(DatabaseError::new("CONNECTION_POOL_ERROR", reason.as_str()));
            },
            (OpenPhase::Configure(setting), OpenEvent::Executed) => {
                self.configure(locks, setting + 1);
            },
            (OpenPhase::Configure(setting), OpenEvent::NotExecuted(message)) => {
                if self.pragmas[setting].strict {
                    let reason: String = match message {
                        Some(message) => message,
                        None => "Unknown error".to_owned(),
                    };
                    let text: String = concat("Failed to execute: ", reason.as_str());
                    self.fail(DatabaseError::new("SQLITE_ERROR", text.as_str()));
                } else {
                    self.configure(locks, setting + 1);
                }
            },
            (OpenPhase::StartMetrics, OpenEvent::MetricsReady) => {
                self.phase = OpenPhase::Over;
                locks.release(self.name.as_str());
                assert(self@ =~= proceeded(before, locked, event).0);
            },
            (OpenPhase::StartMetrics, OpenEvent::MetricsFailed(reason)) => {
                self.fail(metrics_failure(reason.as_str()));
            },
            _ => {},
        }
    }

    /// The open database, or why there is none, once the opening is over.
    pub fn into_result(self) -> (r: Option<Result<Database, DatabaseError>>)
        ensures
            match r {
                None => !(self@.phase is Over),
                Some(Ok(database)) => {
                    &&& self@.phase is Over
                    &&& self@.error is None
                    &&& database.name@ == self@.name
                    &&& !database.allow_non_leader_writes
                    &&& database.max_export_size_bytes == self@.max_export_size_bytes
                    &&& database.connected
                },
                Some(Err(error)) => self@.phase is Over && self@.error == Some(error@),
            },
    {
        match self.phase {
            OpenPhase::Over => match self.error {
                Some(error) => Some(Err(error)),
                None => Some(
                    Ok(
                        Database {
                            name: self.name,
                            allow_non_leader_writes: false,
                            max_export_size_bytes: self.max_export_size_bytes,
                            connected: true,
                        },
                    ),
                ),
            },
            _ => None,
        }
    }
}

/// Openings of one name are serialized: an opening goes on to get a connection
/// only by taking the lock while nobody holds it, or after it has waited for
/// the lock as often as it may.
pub proof fn law_openings_are_serialized(
    state: OpenState,
    locks: Set<Seq<char>>,
    event: OpenEvent,
)
    requires
        reachable_opening(state),
        !(state.phase is Connect),
        proceeded(state, locks, event).0.phase is Connect,
    ensures
        ({
            let after = proceeded(state, locks, event).1;
            ||| !locks.contains(state.name) && after.contains(state.name)
            ||| state.phase == OpenPhase::Wait((LOCK_ATTEMPTS - 1) as u32)
        }),
{
}

/// An opening touches the lock of no other name.
pub proof fn law_other_openings_go_on(
    state: OpenState,
    locks: Set<Seq<char>>,
    event: OpenEvent,
    other: Seq<char>,
)
    requires
        other != state.name,
    ensures
        proceeded(state, locks, event).1.contains(other) == locks.contains(other),
{
}

/// A database is open only once its metrics are set up; then its name is
/// unlocked.
pub proof fn law_open_database_is_measured(
    state: OpenState,
    locks: Set<Seq<char>>,
    event: OpenEvent,
)
    requires
        reachable_opening(state),
        !(state.phase is Over),
        proceeded(state, locks, event).0.phase is Over,
        proceeded(state, locks, event).0.error is None,
    ensures
        state.phase is StartMetrics,
        event is MetricsReady,
        !proceeded(state, locks, event).1.contains(state.name),
{
}

/// The metrics are set up only once the last setting is made, or the last may be
/// passed over.
pub proof fn law_open_database_is_configured(
    state: OpenState,
    locks: Set<Seq<char>>,
    event: OpenEvent,
)
    requires
        reachable_opening(state),
        !(state.phase is StartMetrics),
        proceeded(state, locks, event).0.phase is StartMetrics,
    ensures
        state.phase == OpenPhase::Configure((state.settings.len() - 1) as usize),
        event is Executed || (event is NotExecuted && !state.settings.last().strict),
{
}

/// A lock is released only once a database is open: what was locked before an
/// event is locked after it, unless the event completes the opening of a database
/// of that name. An opening that fails changes no lock.
pub proof fn law_only_open_databases_are_unlocked(
    state: OpenState,
    locks: Set<Seq<char>>,
    event: OpenEvent,
    name: Seq<char>,
)
    requires
        reachable_opening(state),
        locks.contains(name),
    ensures
        ({
            let (next, after) = proceeded(state, locks, event);
            &&& !after.contains(name) ==> {
                &&& name == state.name
                &&& state.phase is StartMetrics
                &&& next.phase is Over
                &&& next.error is None
            }
            &&& next.error is Some ==> after == locks
        }),
{
}

/// The timeout for a busy database is set before anything else.
pub proof fn law_busy_timeout_comes_first(config: DatabaseConfig)
    ensures
        settings(config).len() > 0,
        settings(config)[0] == (Setting { sql: "PRAGMA busy_timeout = 10000"@, strict: true }),
{
}

/// An opening never waits longer than its attempts allow: each time it waits
/// again, fewer attempts are left.
pub proof fn law_waiting_ends(state: OpenState, locks: Set<Seq<char>>, attempts: u32)
    requires
        reachable_opening(state),
        state.phase == OpenPhase::Wait(attempts),
    ensures
        match proceeded(state, locks, OpenEvent::Waited).0.phase {
            OpenPhase::Wait(more) => attempts < more < LOCK_ATTEMPTS,
            phase => phase is Connect,
        },
{
}

/// The settings of a new connection are those that are configured, with their
/// values, and no others: first the timeout for a busy database, and behind it
/// the page size, the cache size, the journal mode and whether the database is
/// vacuumed, as far as they are given. Only the journal mode may fail.
pub proof fn law_settings_follow_the_configuration(
    config: DatabaseConfig,
    page: int,
    cache: int,
    journal: int,
    vacuum: int,
)
    requires
        page == 1,
        cache == page + if config.page_size is Some {
            1int
        } else {
            0
        },
        journal == cache + if config.cache_size is Some {
            1int
        } else {
            0
        },
        vacuum == journal + if config.journal_mode is Some {
            1int
        } else {
            0
        },
    ensures
        ({
            let made = settings(config);
            &&& made.len() == vacuum + if config.auto_vacuum is Some {
                1int
            } else {
                0
            }
            &&& made[0].sql == "PRAGMA busy_timeout = 10000"@ && made[0].strict
            &&& (config.page_size matches Some(n) ==> made[page].sql == "PRAGMA page_size = "@
                + decimal(n as nat) && made[page].strict)
            &&& (config.cache_size matches Some(n) ==> made[cache].sql == "PRAGMA cache_size = "@
                + decimal(n as nat) && made[cache].strict)
            &&& (config.journal_mode matches Some(mode) ==> made[journal].sql
                == "PRAGMA journal_mode = "@ + mode@ && !made[journal].strict)
            &&& config.auto_vacuum == Some(true) ==> made[vacuum].sql == "PRAGMA auto_vacuum = 1"@
                && made[vacuum].strict
            &&& config.auto_vacuum == Some(false) ==> made[vacuum].sql == "PRAGMA auto_vacuum = 0"@
                && made[vacuum].strict
        }),
{
}

/// An opening is one of the configured database: it begins with the name of the
/// database and its limit on exports, and no event changes these or a setting.
pub proof fn law_openings_keep_their_configuration(
    config: DatabaseConfig,
    state: OpenState,
    locks: Set<Seq<char>>,
    event: OpenEvent,
)
    ensures
        ({
            let begun = begun_opening(config);
            let next = proceeded(state, locks, event).0;
            &&& ".db"@.is_suffix_of(config.name@) ==> begun.name == config.name@
            &&& !".db"@.is_suffix_of(config.name@) ==> begun.name == config.name@ + ".db"@
            &&& begun.max_export_size_bytes == config.max_export_size_bytes
            &&& begun.settings == settings(config)
            &&& begun.phase is FindVfs
            &&& begun.error is None
            &&& next.name == state.name
            &&& next.max_export_size_bytes == state.max_export_size_bytes
            &&& next.settings == state.settings
        }),
{
}

/// How an opening gets on: the virtual file system is created, and registered
/// where it is not; a name that nobody has locked is locked; and every tenth of a
/// second another attempt is made, a hundred in all.
pub proof fn law_course_up_to_the_connection(
    state: OpenState,
    locks: Set<Seq<char>>,
    found: bool,
    register: bool,
    attempts: u32,
)
    ensures
        state.phase is FindVfs ==> proceeded(state, locks, OpenEvent::VfsFound(found)) == (
            OpenState { phase: OpenPhase::CreateVfs(!found), ..state },
            locks,
        ),
        state.phase == OpenPhase::CreateVfs(register) && !locks.contains(state.name) ==> proceeded(
            state,
            locks,
            OpenEvent::VfsReady,
        ) == (OpenState { phase: OpenPhase::Connect, ..state }, locks.insert(state.name)),
        state.phase == OpenPhase::CreateVfs(register) && locks.contains(state.name) ==> proceeded(
            state,
            locks,
            OpenEvent::VfsReady,
        ) == (OpenState { phase: OpenPhase::Wait(0), ..state }, locks),
        state.phase == OpenPhase::Wait(attempts) && attempts < 99 && locks.contains(state.name)
            ==> proceeded(state, locks, OpenEvent::Waited) == (
            OpenState { phase: OpenPhase::Wait((attempts + 1) as u32), ..state },
            locks,
        ),
        state.phase == OpenPhase::Wait(attempts) && attempts < 99 && !locks.contains(state.name)
            ==> proceeded(state, locks, OpenEvent::Waited) == (
            OpenState { phase: OpenPhase::Connect, ..state },
            locks.insert(state.name),
        ),
        state.phase == OpenPhase::Wait(99) ==> proceeded(state, locks, OpenEvent::Waited) == (
            OpenState { phase: OpenPhase::Connect, ..state },
            locks,
        ),
        LOCK_ATTEMPTS == 100,
        LOCK_POLL_MS == 10,
{
}

/// How a connection is set up: each setting is made after the one before, and
/// after the last one the metrics are started. One that may fail counts as made.
pub proof fn law_every_setting_is_made(
    state: OpenState,
    locks: Set<Seq<char>>,
    i: usize,
    message: Option<String>,
)
    requires
        reachable_opening(state),
        i < state.settings.len(),
    ensures
        ({
            let after = if i + 1 < state.settings.len() {
                OpenState { phase: OpenPhase::Configure((i + 1) as usize), ..state }
            } else {
                OpenState { phase: OpenPhase::StartMetrics, ..state }
            };
            let fits = i + 1 < state.settings.len() ==> !state.settings[i + 1].sql.contains('\0');
            &&& state.phase is Connect && !state.settings[0].sql.contains('\0') ==> proceeded(
                state,
                locks,
                OpenEvent::Connected,
            ) == (OpenState { phase: OpenPhase::Configure(0), ..state }, locks)
            &&& state.phase == OpenPhase::Configure(i) && fits ==> proceeded(
                state,
                locks,
                OpenEvent::Executed,
            ) == (after, locks)
            &&& state.phase == OpenPhase::Configure(i) && fits && !state.settings[i as int].strict
                ==> proceeded(state, locks, OpenEvent::NotExecuted(message)) == (after, locks)
            &&& state.phase is StartMetrics ==> proceeded(state, locks, OpenEvent::MetricsReady)
                == (OpenState { phase: OpenPhase::Over, ..state }, locks.remove(state.name))
        }),
{
}

/// An opening that fails tells why: with the error of the virtual file system, or
/// with the message of the pool, of SQLite or of the metrics.
pub proof fn law_failed_openings_tell_the_reason(
    state: OpenState,
    locks: Set<Seq<char>>,
    error: DatabaseError,
    reason: String,
    register: bool,
    i: usize,
)
    requires
        reachable_opening(state),
    ensures
        state.phase == OpenPhase::CreateVfs(register) ==> {
            let failed = proceeded(state, locks, OpenEvent::VfsFailed(error)).0;
            failed.phase is Over && failed.error == Some(error@)
        },
        state.phase is Connect ==> {
            let failed = proceeded(state, locks, OpenEvent::NotConnected(reason)).0;
            &&& failed.phase is Over
            &&& failed.error == Some(
                ErrorView { code: "CONNECTION_POOL_ERROR"@, message: reason@, sql: None },
            )
        },
        state.phase == OpenPhase::Configure(i) && state.settings[i as int].strict ==> {
            let failed = proceeded(state, locks, OpenEvent::NotExecuted(Some(reason))).0;
            let silent = proceeded(state, locks, OpenEvent::NotExecuted(None)).0;
            &&& failed.phase is Over && silent.phase is Over
            &&& failed.error == Some(
                ErrorView {
                    code: "SQLITE_ERROR"@,
                    message: "Failed to execute: "@ + reason@,
                    sql: None,
                },
            )
            &&& silent.error == Some(
                ErrorView {
                    code: "SQLITE_ERROR"@,
                    message: "Failed to execute: "@ + "Unknown error"@,
                    sql: None,
                },
            )
        },
        state.phase == OpenPhase::Configure(i) && i + 1 < state.settings.len() && state.settings[i
            + 1].sql.contains('\0') ==> proceeded(state, locks, OpenEvent::Executed).0.error == Some(
            ErrorView { code: "INVALID_SQL"@, message: "Invalid SQL statement"@, sql: None },
        ),
        state.phase is StartMetrics ==> {
            let failed = proceeded(state, locks, OpenEvent::MetricsFailed(reason)).0;
            &&& failed.phase is Over
            &&& failed.error == Some(
                ErrorView {
                    code: "METRICS_ERROR"@,
                    message: "Failed to initialize metrics: "@ + reason@,
                    sql: None,
                },
            )
        },
{
}

/// What is done in each phase of an opening: it concerns the database by its name
/// with the extension, and the pool and the virtual file system by its name
/// without; and every setting is executed as it stands.
pub proof fn law_actions_of_an_opening(state: OpenState, action: OpenAction)
    requires
        is_next_opening(action, state),
    ensures
        match state.phase {
            OpenPhase::FindVfs => action is FindVfs && action->FindVfs_vfs@ == "vfs_"@ + bare_name(
                state.name,
            ),
            OpenPhase::CreateVfs(register) => {
                &&& action is CreateVfs
                &&& action->CreateVfs_database@ == state.name
                &&& action->register_as is Some <==> register
                &&& register ==> action->register_as->0@ == "vfs_"@ + bare_name(state.name)
            },
            OpenPhase::Wait(_) => action == (OpenAction::Wait { ms: 10 }),
            OpenPhase::Connect => {
                &&& action is Connect
                &&& action->pool_key@ == bare_name(state.name)
                &&& action->Connect_database@ == state.name
                &&& action->Connect_vfs@ == "vfs_"@ + bare_name(state.name)
            },
            OpenPhase::Configure(i) => action is Execute && action->sql@
                == state.settings[i as int].sql,
            OpenPhase::StartMetrics => action is StartMetrics,
            OpenPhase::Over => action is Return,
        },
{
}

/// A setting is seen as it is.
pub proof fn law_pragmas_are_seen_as_they_are(pragmas: Seq<Pragma>, i: int)
    requires
        0 <= i < pragmas.len(),
    ensures
        all_settings(pragmas).len() == pragmas.len(),
        all_settings(pragmas)[i].sql == pragmas[i].sql@,
        all_settings(pragmas)[i].strict == pragmas[i].strict,
{
}

/// Only what an opening waits for counts: nothing else changes it, or a lock.
pub proof fn law_openings_heed_nothing_else(
    state: OpenState,
    locks: Set<Seq<char>>,
    event: OpenEvent,
)
    ensures
        !(match state.phase {
            OpenPhase::FindVfs => event is VfsFound,
            OpenPhase::CreateVfs(_) => event is VfsReady || event is VfsFailed,
            OpenPhase::Wait(_) => event is Waited,
            OpenPhase::Connect => event is Connected || event is NotConnected,
            OpenPhase::Configure(_) => event is Executed || event is NotExecuted,
            OpenPhase::StartMetrics => event is MetricsReady || event is MetricsFailed,
            OpenPhase::Over => false,
        }) ==> proceeded(state, locks, event) == (state, locks),
{
}

} // verus!
