//! Running one statement.
//!
//! A [`StatementRun`] says which call to SQLite comes next, is told how the
//! call went, and in the end holds what the statement returns.

use crate::collections::copy_bytes;
use crate::numbers::{decimal, signed_decimal, to_decimal, to_signed_decimal};
use crate::sql::{
    is_insert, is_select, leading, leading_text, upper_is_insert, upper_is_select,
};
use crate::text::{chars_of, concat, concat3};
use crate::types::{
    all_cells, all_rows, all_texts, Cell, ColumnValue, DatabaseError, ErrorView, QueryResult,
    ResultView, Row,
};
use vstd::prelude::*;

verus! {

/// A column of a row as SQLite hands it out. A text or a blob is missing where
/// SQLite gives no pointer to it.
#[derive(Debug)]
pub enum RawValue {
    Null,
    Integer(i64),
    Float(u64),
    Text(Option<String>),
    Blob(Option<Vec<u8>>),
    Other,
}

/// What a [`RawValue`] stands for.
#[verifier::ext_equal]
pub enum RawCell {
    Null,
    Integer(i64),
    Float(u64),
    Text(Option<Seq<char>>),
    Blob(Option<Seq<u8>>),
    Other,
}

impl RawValue {
    pub open spec fn view(&self) -> RawCell {
        match self {
            RawValue::Null => RawCell::Null,
            RawValue::Integer(n) => RawCell::Integer(*n),
            RawValue::Float(bits) => RawCell::Float(*bits),
            RawValue::Text(Some(text)) => RawCell::Text(Some(text@)),
            RawValue::Text(None) => RawCell::Text(None),
            RawValue::Blob(Some(data)) => RawCell::Blob(Some(data@)),
            RawValue::Blob(None) => RawCell::Blob(None),
            RawValue::Other => RawCell::Other,
        }
    }
}

/// A value of a row that a `SELECT` returns.
pub open spec fn selected(raw: RawCell) -> Cell {
    match raw {
        RawCell::Integer(n) => Cell::Integer(n),
        RawCell::Float(bits) => Cell::Real(bits),
        RawCell::Text(Some(text)) => Cell::Text(text),
        RawCell::Blob(Some(data)) => Cell::Blob(data),
        RawCell::Blob(None) => Cell::Blob(Seq::empty()),
        _ => Cell::Null,
    }
}

/// A value of a row that another statement returns: only texts and integers
/// come through.
pub open spec fn reported(raw: RawCell) -> Cell {
    match raw {
        RawCell::Integer(n) => Cell::Integer(n),
        RawCell::Text(Some(text)) => Cell::Text(text),
        _ => Cell::Null,
    }
}

/// A value of a row.
fn decode(raw: &RawValue, select: bool) -> (value: ColumnValue)
    ensures
        value@ == if select {
            selected(raw@)
        } else {
            reported(raw@)
        },
{
    match raw {
        RawValue::Integer(n) => ColumnValue::Integer(*n),
        RawValue::Text(Some(text)) => ColumnValue::Text(text.clone()),
        RawValue::Float(bits) => if select {
            ColumnValue::Real(*bits)
        } else {
            ColumnValue::Null
        },
        RawValue::Blob(Some(data)) => if select {
            ColumnValue::Blob(copy_bytes(data))
        } else {
            ColumnValue::Null
        },
        RawValue::Blob(None) => if select {
            ColumnValue::Blob(Vec::new())
        } else {
            ColumnValue::Null
        },
        _ => ColumnValue::Null,
    }
}

/// What several columns stand for.
pub open spec fn all_raw(values: Seq<RawValue>) -> Seq<RawCell> {
    Seq::new(values.len(), |i: int| values[i]@)
}

/// The row that the columns of a result make up.
pub open spec fn decoded_row(values: Seq<RawCell>, select: bool) -> Seq<Cell> {
    Seq::new(
        values.len(),
        |i: int|
            if select {
                selected(values[i])
            } else {
                reported(values[i])
            },
    )
}

/// The row that the columns of a result make up.
fn decode_row(values: &Vec<RawValue>, select: bool) -> (row: Row)
    ensures
        row@ == decoded_row(all_raw(values@), select),
{
    let mut decoded: Vec<ColumnValue> = Vec::new();
    let mut i: usize = 0;
    while i < values.len()
        invariant
            i <= values@.len(),
            decoded@.len() == i,
            forall|j: int|
                0 <= j < i ==> (#[trigger] decoded@[j])@ == if select {
                    selected(values@[j]@)
                } else {
                    reported(values@[j]@)
                },
        decreases values@.len() - i,
    {
        decoded.push(decode(&values[i], select));
        i += 1;
    }
    let row = Row { values: decoded };
    assert(row@ =~= decoded_row(all_raw(values@), select));
    row
}

/// The names of several columns, as far as SQLite gives them.
pub open spec fn all_names(names: Seq<Option<String>>) -> Seq<Option<Seq<char>>> {
    Seq::new(
        names.len(),
        |i: int|
            match names[i] {
                Some(name) => Some(name@),
                None => None,
            },
    )
}

/// The names of the columns: a column without a name is called by its number.
pub open spec fn column_names(names: Seq<Option<Seq<char>>>, prefix: Seq<char>) -> Seq<Seq<char>> {
    Seq::new(
        names.len(),
        |i: int|
            match names[i] {
                Some(name) => name,
                None => prefix + decimal(i as nat),
            },
    )
}

/// The names of the columns.
fn name_columns(names: &Vec<Option<String>>, prefix: &str) -> (columns: Vec<String>)
    ensures
        all_texts(columns@) == column_names(all_names(names@), prefix@),
{
    let mut columns: Vec<String> = Vec::new();
    let mut i: usize = 0;
    while i < names.len()
        invariant
            i <= names@.len(),
            columns@.len() == i,
            forall|j: int|
                0 <= j < i ==> (#[trigger] columns@[j])@ == column_names(
                    all_names(names@),
                    prefix@,
                )[j],
        decreases names@.len() - i,
    {
        let column: String = match &names[i] {
            Some(name) => name.clone(),
            None => {
                let numeral: String = to_decimal(i as u64);
                concat(prefix, numeral.as_str())
            },
        };
        columns.push(column);
        i += 1;
    }
    assert(all_texts(columns@) =~= column_names(all_names(names@), prefix@));
    columns
}

/// A text without its NUL characters.
pub open spec fn without_nul(s: Seq<char>) -> Seq<char> {
    s.filter(|c: char| c != '\0')
}

/// Whether a text holds a NUL character.
pub open spec fn holds_nul(s: Seq<char>) -> bool {
    s.contains('\0')
}

/// Whether a text holds a NUL character.
pub fn has_nul(s: &str) -> (r: bool)
    ensures
        r == holds_nul(s@),
{
    let chars: Vec<char> = chars_of(s);
    let mut i: usize = 0;
    while i < chars.len()
        invariant
            i <= chars@.len(),
            chars@ == s@,
            forall|j: int| 0 <= j < i ==> chars@[j] != '\0',
        decreases chars@.len() - i,
    {
        if chars[i] == '\0' {
            assert(chars@[i as int] == '\0');
            return true;
        }
        i += 1;
    }
    false
}

/// A text without its NUL characters.
pub fn remove_nul(s: &str) -> (out: String)
    ensures
        out@ == without_nul(s@),
{
    let chars: Vec<char> = chars_of(s);
    let mut out = String::new();
    let mut i: usize = 0;
    let ghost keep = |c: char| c != '\0';
    assert(chars@.take(0).filter(keep) =~= Seq::<char>::empty()) by {
        reveal(Seq::filter);
    }
    while i < chars.len()
        invariant
            i <= chars@.len(),
            keep == (|c: char| c != '\0'),
            out@ == chars@.take(i as int).filter(keep),
        decreases chars@.len() - i,
    {
        proof {
            let longer = chars@.take(i as int + 1);
            assert(longer.drop_last() =~= chars@.take(i as int));
            reveal(Seq::filter);
        }
        if chars[i] != '\0' {
            out.push(chars[i]);
        }
        i += 1;
    }
    assert(chars@.take(chars@.len() as int) =~= chars@);
    out
}

/// What is bound for a parameter: texts lose their NUL characters, and what
/// SQLite has no type for is bound as null.
pub open spec fn binding(value: Cell) -> Cell {
    match value {
        Cell::Text(text) => Cell::Text(without_nul(text)),
        Cell::BigInt(_) => Cell::Null,
        Cell::Date(_) => Cell::Null,
        _ => value,
    }
}

/// What is bound for a parameter.
pub fn bind_value(value: &ColumnValue) -> (bound: ColumnValue)
    ensures
        bound@ == binding(value@),
{
    match value {
        ColumnValue::Null => ColumnValue::Null,
        ColumnValue::Integer(n) => ColumnValue::Integer(*n),
        ColumnValue::Real(bits) => ColumnValue::Real(*bits),
        ColumnValue::Text(text) => ColumnValue::Text(remove_nul(text.as_str())),
        ColumnValue::Blob(data) => ColumnValue::Blob(copy_bytes(data)),
        _ => ColumnValue::Null,
    }
}

/// What a run does once its statement is finalized.
#[derive(Clone, Copy, Debug, PartialEq, Eq, Structural)]
pub enum After {
    /// Returns the rows.
    Return,
    /// Reads the number of changed rows and the last inserted row.
    Totals,
    /// Reads why the statement failed.
    Explain,
    /// Returns an error.
    Fail,
}

/// How far a run has come.
#[derive(Clone, Copy, Debug, PartialEq, Eq, Structural)]
pub enum Phase {
    Prepare,
    Bind(usize),
    Step,
    Explain,
    Finalize(After),
    Totals,
    Over,
}

/// How a call to SQLite went.
#[derive(Debug)]
pub enum StatementEvent {
    /// The statement is prepared, and has these columns.
    Prepared(Vec<Option<String>>),
    /// The statement cannot be prepared: the code SQLite returned, and its
    /// message, if it has one.
    NotPrepared(i32, Option<String>),
    /// A parameter has been bound, or not.
    Bound(bool),
    /// A step gave a row.
    Row(Vec<RawValue>),
    /// A step found that the statement is done.
    Done,
    /// A step failed.
    Failed,
    /// SQLite's message about the failure, if it has one.
    Message(Option<String>),
    /// The statement is finalized.
    Finalized,
    /// The number of changed rows, and the last inserted row.
    Totals { changes: i32, last_rowid: i64 },
}

/// What a [`StatementEvent`] says.
#[verifier::ext_equal]
pub enum Event {
    Prepared(Seq<Option<Seq<char>>>),
    NotPrepared(i32, Option<Seq<char>>),
    Bound(bool),
    Row(Seq<RawCell>),
    Done,
    Failed,
    Message(Option<Seq<char>>),
    Finalized,
    Totals { changes: i32, last_rowid: i64 },
}

/// The characters of a text that may be missing.
pub open spec fn text_in(text: Option<String>) -> Option<Seq<char>> {
    match text {
        Some(text) => Some(text@),
        None => None,
    }
}

impl StatementEvent {
    pub open spec fn view(&self) -> Event {
        match self {
            StatementEvent::Prepared(names) => Event::Prepared(all_names(names@)),
            StatementEvent::NotPrepared(code, message) => Event::NotPrepared(
                *code,
                text_in(*message),
            ),
            StatementEvent::Bound(ok) => Event::Bound(*ok),
            StatementEvent::Row(values) => Event::Row(all_raw(values@)),
            StatementEvent::Done => Event::Done,
            StatementEvent::Failed => Event::Failed,
            StatementEvent::Message(message) => Event::Message(text_in(*message)),
            StatementEvent::Finalized => Event::Finalized,
            StatementEvent::Totals { changes, last_rowid } => Event::Totals {
                changes: *changes,
                last_rowid: *last_rowid,
            },
        }
    }
}

/// The state of a run.
#[verifier::ext_equal]
pub struct Run {
    pub sql: Seq<char>,
    /// Whether the statement is a `SELECT`.
    pub select: bool,
    /// Whether the statement is an `INSERT`.
    pub insert: bool,
    /// The parameters, if the statement was given any, be it none at all.
    pub params: Option<Seq<Cell>>,
    pub phase: Phase,
    /// Whether there is a prepared statement that is not finalized.
    pub open: bool,
    pub columns: Seq<Seq<char>>,
    pub rows: Seq<Seq<Cell>>,
    pub affected_rows: u32,
    pub last_insert_id: Option<i64>,
    pub error: Option<ErrorView>,
}

/// A run that has just begun, of a statement whose text in upper case and
/// without the whitespace around it is `upper`.
pub open spec fn begun(sql: Seq<char>, upper: Seq<char>, params: Option<Seq<Cell>>) -> Run {
    Run {
        sql,
        select: upper_is_select(upper),
        insert: upper_is_insert(upper),
        params,
        phase: Phase::Prepare,
        open: false,
        columns: Seq::empty(),
        rows: Seq::empty(),
        affected_rows: 0,
        last_insert_id: None,
        error: None,
    }
}

/// The number of parameters to bind.
pub open spec fn param_count(run: Run) -> nat {
    match run.params {
        Some(params) => params.len(),
        None => 0,
    }
}

/// Whether steps of the statement give rows: a `SELECT` does, and so does
/// another statement that has columns and was not given parameters.
pub open spec fn gives_rows(run: Run) -> bool {
    run.select || (run.params is None && run.columns.len() > 0)
}

/// An error of SQLite about the statement of a run.
pub open spec fn sqlite_error(run: Run, message: Seq<char>) -> ErrorView {
    ErrorView { code: "SQLITE_ERROR"@, message, sql: Some(run.sql) }
}

/// The message of SQLite, or what stands for it.
pub open spec fn message_or(message: Option<Seq<char>>, otherwise: Seq<char>) -> Seq<char> {
    match message {
        Some(message) => message,
        None => otherwise,
    }
}

/// Why a statement cannot be prepared: the message of SQLite, or the code it
/// returned.
pub open spec fn preparing_error(code: i32, message: Option<Seq<char>>) -> Seq<char> {
    message_or(message, "Unknown error (code: "@ + signed_decimal(code as int) + ")"@)
}

/// Why a statement cannot be prepared.
pub fn explain_preparing(code: i32, message: &Option<String>) -> (reason: String)
    ensures
        reason@ == preparing_error(code, text_in(*message)),
{
    match message {
        Some(message) => message.clone(),
        None => {
            let numeral: String = to_signed_decimal(code);
            concat3("Unknown error (code: ", numeral.as_str(), ")")
        },
    }
}

/// A run whose statement failed at a step. With parameters, and unless it is a
/// `SELECT`, the statement is finalized before the message is read.
pub open spec fn failing(run: Run) -> Run {
    if run.params is Some && !run.select {
        Run { phase: Phase::Finalize(After::Explain), ..run }
    } else {
        Run { phase: Phase::Explain, ..run }
    }
}

/// The number of changed rows as an unsigned number.
pub open spec fn as_unsigned(changes: i32) -> u32 {
    if changes < 0 {
        (changes + 0x1_0000_0000) as u32
    } else {
        changes as u32
    }
}

/// The number of changed rows as an unsigned number.
pub fn count_of(changes: i32) -> (r: u32)
    ensures
        r == as_unsigned(changes),
{
    if changes < 0 {
        (changes as i64 + 0x1_0000_0000) as u32
    } else {
        changes as u32
    }
}

/// A run after an event. An event that does not fit leaves it as it is.
pub open spec fn advanced(run: Run, event: Event) -> Run {
    match (run.phase, event) {
        (Phase::Prepare, Event::NotPrepared(code, message)) => Run {
            phase: Phase::Over,
            error: Some(
                sqlite_error(
                    run,
                    "Failed to prepare statement: "@ + preparing_error(code, message),
                ),
            ),
            ..run
        },
        (Phase::Prepare, Event::Prepared(names)) => Run {
            phase: if param_count(run) > 0 {
                Phase::Bind(0)
            } else {
                Phase::Step
            },
            open: true,
            columns: if run.select {
                column_names(names, "col_"@)
            } else if run.params is None {
                column_names(names, "column_"@)
            } else {
                Seq::empty()
            },
            ..run
        },
        (Phase::Bind(i), Event::Bound(true)) => Run {
            phase: if i + 1 < param_count(run) {
                Phase::Bind((i + 1) as usize)
            } else {
                Phase::Step
            },
            ..run
        },
        (Phase::Bind(i), Event::Bound(false)) => Run {
            phase: Phase::Finalize(After::Fail),
            error: Some(sqlite_error(run, "Failed to bind parameter"@)),
            ..run
        },
        (Phase::Step, Event::Row(values)) => if gives_rows(run) {
            Run { rows: run.rows.push(decoded_row(values, run.select)), ..run }
        } else {
            failing(run)
        },
        (Phase::Step, Event::Done) => Run {
            phase: Phase::Finalize(
                if run.select {
                    After::Return
                } else {
                    After::Totals
                },
            ),
            ..run
        },
        (Phase::Step, Event::Failed) => failing(run),
        (Phase::Explain, Event::Message(message)) => Run {
            phase: if run.open {
                Phase::Finalize(After::Fail)
            } else {
                Phase::Over
            },
            error: Some(
                sqlite_error(
                    run,
                    (if run.select {
                        "Error executing SELECT statement: "@
                    } else {
                        "Failed to execute statement: "@
                    }) + message_or(message, "Unknown SQLite error"@),
                ),
            ),
            ..run
        },
        (Phase::Finalize(after), Event::Finalized) => Run {
            phase: match after {
                After::Return => Phase::Over,
                After::Totals => Phase::Totals,
                After::Explain => Phase::Explain,
                After::Fail => Phase::Over,
            },
            open: false,
            ..run
        },
        (Phase::Totals, Event::Totals { changes, last_rowid }) => Run {
            phase: Phase::Over,
            affected_rows: as_unsigned(changes),
            last_insert_id: if run.insert {
                Some(last_rowid)
            } else {
                None
            },
            ..run
        },
        _ => run,
    }
}

/// What the statement of a run returns, once the run is over.
pub open spec fn result(run: Run) -> Option<Result<ResultView, ErrorView>> {
    if run.phase is Over {
        match run.error {
            Some(error) => Some(Err(error)),
            None => Some(
                Ok(
                    ResultView {
                        columns: run.columns,
                        rows: run.rows,
                        affected_rows: run.affected_rows,
                        last_insert_id: run.last_insert_id,
                    },
                ),
            ),
        }
    } else {
        None
    }
}

/// The call to SQLite that a run makes next.
#[derive(Debug)]
pub enum StatementAction {
    /// Prepare this statement.
    Prepare { sql: String },
    /// Bind the parameter with this number.
    Bind { index: i32, value: ColumnValue },
    /// Step the statement.
    Step,
    /// Read the message of SQLite about the failure.
    ReadMessage,
    /// Finalize the statement.
    Finalize,
    /// Read the number of changed rows and the last inserted row.
    ReadTotals,
    /// None: the run is over.
    Return,
}

/// Whether an action is the one that a run makes next.
pub open spec fn is_next(action: StatementAction, run: Run) -> bool {
    match run.phase {
        Phase::Prepare => action matches StatementAction::Prepare { sql } && sql@ == run.sql,
        Phase::Bind(i) => action matches StatementAction::Bind { index, value } && index == i + 1
            && run.params is Some && value@ == binding(run.params->0[i as int]),
        Phase::Step => action is Step,
        Phase::Explain => action is ReadMessage,
        Phase::Finalize(_) => action is Finalize,
        Phase::Totals => action is ReadTotals,
        Phase::Over => action is Return,
    }
}

/// Whether a state is one that a run can be in.
pub open spec fn reachable(run: Run) -> bool {
    &&& run.open == match run.phase {
        Phase::Prepare => false,
        Phase::Bind(_) => true,
        Phase::Step => true,
        Phase::Explain => run.select || run.params is None,
        Phase::Finalize(_) => true,
        Phase::Totals => false,
        Phase::Over => false,
    }
    &&& run.phase matches Phase::Bind(i) ==> i < param_count(run)
    &&& run.phase == Phase::Finalize(After::Explain) ==> run.params is Some && !run.select
    &&& run.phase == Phase::Finalize(After::Return) ==> run.select
    &&& run.phase == Phase::Finalize(After::Totals) ==> !run.select
    &&& run.phase is Totals ==> !run.select
    &&& run.phase == Phase::Finalize(After::Fail) <==> run.error is Some && !(run.phase is Over)
    &&& !run.select && run.params is Some ==> run.columns.len() == 0
    &&& !gives_rows(run) ==> run.rows.len() == 0
    &&& run.phase is Prepare ==> run.columns.len() == 0 && run.rows.len() == 0
    &&& run.select || !(run.phase is Over) ==> run.affected_rows == 0 && run.last_insert_id is None
    &&& run.last_insert_id is Some ==> run.insert
    &&& run.error matches Some(e) ==> e.code == "SQLITE_ERROR"@ && e.sql == Some(run.sql)
    &&& param_count(run) <= i32::MAX
}

/// A statement that is being run.
#[derive(Debug)]
pub struct StatementRun {
    sql: String,
    select: bool,
    insert: bool,
    params: Option<Vec<ColumnValue>>,
    phase: Phase,
    open: bool,
    columns: Vec<String>,
    rows: Vec<Row>,
    affected_rows: u32,
    last_insert_id: Option<i64>,
    error: Option<DatabaseError>,
}

/// What the parameters of a statement stand for.
pub open spec fn params_in(params: Option<Vec<ColumnValue>>) -> Option<Seq<Cell>> {
    match params {
        Some(params) => Some(all_cells(params@)),
        None => None,
    }
}

impl StatementRun {
    pub closed spec fn view(&self) -> Run {
        Run {
            sql: self.sql@,
            select: self.select,
            insert: self.insert,
            params: params_in(self.params),
            phase: self.phase,
            open: self.open,
            columns: all_texts(self.columns@),
            rows: all_rows(self.rows@),
            affected_rows: self.affected_rows,
            last_insert_id: self.last_insert_id,
            error: match self.error {
                Some(error) => Some(error@),
                None => None,
            },
        }
    }

    /// Begins a run of a statement. `upper` is its text in upper case and
    /// without the whitespace around it.
    pub fn begin(sql: &str, upper: &str, params: Option<Vec<ColumnValue>>) -> (r: Result<
        StatementRun,
        DatabaseError,
    >)
        requires
            params matches Some(params) ==> params@.len() <= i32::MAX,
        ensures
            r is Err <==> holds_nul(sql@),
            r matches Err(e) ==> e.is("INVALID_SQL"@, "Invalid SQL string"@),
            r matches Ok(run) ==> run@ == begun(sql@, upper@, params_in(params)) && reachable(
                run@,
            ),
    {
        if has_nul(sql) {
            return Err(DatabaseError::new("INVALID_SQL", "Invalid SQL string"));
        }
        let run = StatementRun {
            sql: sql.to_owned(),
            select: is_select(upper),
            insert: is_insert(upper),
            params,
            phase: Phase::Prepare,
            open: false,
            columns: Vec::new(),
            rows: Vec::new(),
            affected_rows: 0,
            last_insert_id: None,
            error: None,
        };
        assert(run@ =~= begun(sql@, upper@, params_in(params)));
        Ok(run)
    }

    /// Begins a run of a statement.
    pub fn start(sql: &str, params: Option<Vec<ColumnValue>>) -> (r: Result<
        StatementRun,
        DatabaseError,
    >)
        requires
            params matches Some(params) ==> params@.len() <= i32::MAX,
        ensures
            r is Err <==> holds_nul(sql@),
            r matches Err(e) ==> e.is("INVALID_SQL"@, "Invalid SQL string"@),
            r matches Ok(run) ==> run@ == begun(sql@, leading(sql@), params_in(params))
                && reachable(run@),
    {
        let upper: String = leading_text(sql);
        Self::begin(sql, upper.as_str(), params)
    }

    fn fail(&self, message: &str) -> (e: DatabaseError)
        ensures
            e@ == sqlite_error(self@, message@),
    {
        DatabaseError::new("SQLITE_ERROR", message).with_sql(self.sql.as_str())
    }

    fn param_len(&self) -> (n: usize)
        ensures
            n == param_count(self@),
    {
        match &self.params {
            Some(params) => params.len(),
            None => 0,
        }
    }

    /// How far the run has come.
    pub fn phase(&self) -> (phase: Phase)
        ensures
            phase == self@.phase,
    {
        self.phase
    }

    /// Whether the statement is a `SELECT`.
    pub fn is_select(&self) -> (r: bool)
        ensures
            r == self@.select,
    {
        self.select
    }

    /// Whether the statement was given parameters, be it none at all.
    pub fn has_params(&self) -> (r: bool)
        ensures
            r == (self@.params is Some),
    {
        self.params.is_some()
    }

    /// The number of rows that have been read.
    pub fn row_count(&self) -> (n: usize)
        ensures
            n == self@.rows.len(),
    {
        self.rows.len()
    }

    /// The call to SQLite that comes next.
    pub fn action(&self) -> (action: StatementAction)
        requires
            reachable(self@),
        ensures
            is_next(action, self@),
    {
        match self.phase {
            Phase::Prepare => StatementAction::Prepare { sql: self.sql.clone() },
            Phase::Bind(i) => match &self.params {
                Some(params) => StatementAction::Bind {
                    index: (i + 1) as i32,
                    value: bind_value(&params[i]),
                },
                None => StatementAction::Return,
            },
            Phase::Step => StatementAction::Step,
            Phase::Explain => StatementAction::ReadMessage,
            Phase::Finalize(_) => StatementAction::Finalize,
            Phase::Totals => StatementAction::ReadTotals,
            Phase::Over => StatementAction::Return,
        }
    }

    fn step_failed(&mut self)
        ensures
            final(self)@ == failing(old(self)@),
    {
        self.phase = if self.params.is_some() && !self.select {
            Phase::Finalize(After::Explain)
        } else {
            Phase::Explain
        };
        assert(self@ =~= failing(old(self)@));
    }

    fn prepared(&mut self, names: &Vec<Option<String>>)
        requires
            old(self)@.phase is Prepare,
            old(self)@.columns.len() == 0,
        ensures
            final(self)@ == advanced(old(self)@, Event::Prepared(all_names(names@))),
    {
        if self.select {
            self.columns = name_columns(names, "col_");
        } else if self.params.is_none() {
            self.columns = name_columns(names, "column_");
        }
        self.phase = if self.param_len() > 0 {
            Phase::Bind(0)
        } else {
            Phase::Step
        };
        self.open = true;
        assert(self@ =~= advanced(old(self)@, Event::Prepared(all_names(names@))));
    }

    /// Takes note of how a call to SQLite went.
    pub fn advance(&mut self, event: StatementEvent)
        requires
            reachable(old(self)@),
        ensures
            final(self)@ == advanced(old(self)@, event@),
            reachable(final(self)@),
    {
        let ghost before = self@;
        match (self.phase, event) {
            (Phase::Prepare, StatementEvent::NotPrepared(code, message)) => {
                let reason: String = explain_preparing(code, &message);
                let text: String = concat("Failed to prepare statement: ", reason.as_str());
                self.error = Some(self.fail(text.as_str()));
                self.phase = Phase::Over;
                assert(self@ =~= advanced(before, event@));
            },
            (Phase::Prepare, StatementEvent::Prepared(names)) => {
                self.prepared(&names);
            },
            (Phase::Bind(i), StatementEvent::Bound(ok)) => {
                if ok {
                    self.phase = if i + 1 < self.param_len() {
                        Phase::Bind(i + 1)
                    } else {
                        Phase::Step
                    };
                } else {
                    self.error = Some(self.fail("Failed to bind parameter"));
                    self.phase = Phase::Finalize(After::Fail);
                }
                assert(self@ =~= advanced(before, event@));
            },
            (Phase::Step, StatementEvent::Row(values)) => {
                if self.select || (self.params.is_none() && self.columns.len() > 0) {
                    let ghost rows = self.rows@;
                    self.rows.push(decode_row(&values, self.select));
                    assert(all_rows(self.rows@) =~= all_rows(rows).push(self.rows@.last()@));
                    assert(self@ =~= advanced(before, event@));
                } else {
                    self.step_failed();
                }
            },
            (Phase::Step, StatementEvent::Done) => {
                self.phase = Phase::Finalize(
                    if self.select {
                        After::Return
                    } else {
                        After::Totals
                    },
                );
                assert(self@ =~= advanced(before, event@));
            },
            (Phase::Step, StatementEvent::Failed) => {
                self.step_failed();
            },
            (Phase::Explain, StatementEvent::Message(message)) => {
                let reason: String = match message {
                    Some(message) => message,
                    None => "Unknown SQLite error".to_owned(),
                };
                let text: String = if self.select {
                    concat("Error executing SELECT statement: ", reason.as_str())
                } else {
                    concat("Failed to execute statement: ", reason.as_str())
                };
                self.error = Some(self.fail(text.as_str()));
                self.phase = if self.open {
                    Phase::Finalize(After::Fail)
                } else {
                    Phase::Over
                };
                assert(self@ =~= advanced(before, event@));
            },
            (Phase::Finalize(after), StatementEvent::Finalized) => {
                self.phase = match after {
                    After::Return => Phase::Over,
                    After::Totals => Phase::Totals,
                    After::Explain => Phase::Explain,
                    After::Fail => Phase::Over,
                };
                self.open = false;
                assert(self@ =~= advanced(before, event@));
            },
            (Phase::Totals, StatementEvent::Totals { changes, last_rowid }) => {
                self.affected_rows = count_of(changes);
                self.last_insert_id = if self.insert {
                    Some(last_rowid)
                } else {
                    None
                };
                self.phase = Phase::Over;
                assert(self@ =~= advanced(before, event@));
            },
            _ => {},
        }
    }

    /// What the statement returns, once the run is over.
    pub fn into_result(self) -> (r: Option<Result<QueryResult, DatabaseError>>)
        ensures
            match r {
                None => result(self@) is None,
                Some(Ok(returned)) => result(self@) == Some(
                    Ok::<ResultView, ErrorView>(returned@),
                ),
                Some(Err(e)) => result(self@) == Some(Err::<ResultView, ErrorView>(e@)),
            },
    {
        match self.phase {
            Phase::Over => match self.error {
                Some(e) => Some(Err(e)),
                None => Some(
                    Ok(
                        QueryResult {
                            columns: self.columns,
                            rows: self.rows,
                            affected_rows: self.affected_rows,
                            last_insert_id: self.last_insert_id,
                        },
                    ),
                ),
            },
            _ => None,
        }
    }
}

/// A run after several events.
pub open spec fn advanced_all(run: Run, events: Seq<Event>) -> Run
    decreases events.len(),
{
    if events.len() == 0 {
        run
    } else {
        advanced(advanced_all(run, events.drop_last()), events.last())
    }
}

/// Whatever the calls to SQLite give, every prepared statement is finalized:
/// only preparing opens one, only finalizing closes one, and a run that is over
/// has none open and stays as it is.
pub proof fn law_every_statement_is_finalized(run: Run, event: Event)
    requires
        reachable(run),
    ensures
        reachable(advanced(run, event)),
        !run.open && advanced(run, event).open ==> event is Prepared,
        run.open && !advanced(run, event).open ==> event is Finalized,
        run.phase is Over ==> !run.open && advanced(run, event) == run,
{
}

/// Whatever the calls to SQLite give, an error names the statement and is one
/// of SQLite's, a `SELECT` reports no changed rows, and only an `INSERT`
/// reports the row it inserted.
pub proof fn law_results_fit_the_statement(run: Run)
    requires
        reachable(run),
    ensures
        match result(run) {
            None => true,
            Some(Err(e)) => e.code == "SQLITE_ERROR"@ && e.sql == Some(run.sql),
            Some(Ok(returned)) => {
                &&& run.select ==> returned.affected_rows == 0 && returned.last_insert_id is None
                &&& returned.last_insert_id is Some ==> run.insert
            },
        },
{
}

/// The rows that a run has read, decoded.
pub open spec fn decoded_rows(rows: Seq<Seq<RawCell>>, select: bool) -> Seq<Seq<Cell>> {
    Seq::new(rows.len(), |i: int| decoded_row(rows[i], select))
}

/// Whether every row that a run reads is as wide as its columns.
pub open spec fn rows_fit(run: Run, events: Seq<Event>) -> bool
    decreases events.len(),
{
    if events.len() == 0 {
        true
    } else {
        let before = advanced_all(run, events.drop_last());
        &&& rows_fit(run, events.drop_last())
        &&& events.last() matches Event::Row(values) ==> before.phase is Step && gives_rows(before)
            ==> values.len() == before.columns.len()
    }
}

/// Every row of a result has a value for each column and none besides, if every
/// row that SQLite gave had.
pub proof fn law_rows_are_as_wide_as_the_columns(run: Run, events: Seq<Event>)
    requires
        reachable(run),
        run.phase is Prepare,
        rows_fit(run, events),
    ensures
        ({
            let after = advanced_all(run, events);
            &&& reachable(after)
            &&& forall|i: int|
                0 <= i < after.rows.len() ==> (#[trigger] after.rows[i]).len()
                    == after.columns.len()
            &&& result(after) matches Some(Ok(returned)) ==> forall|i: int|
                0 <= i < returned.rows.len() ==> (#[trigger] returned.rows[i]).len()
                    == returned.columns.len()
        }),
    decreases events.len(),
{
    if events.len() > 0 {
        law_rows_are_as_wide_as_the_columns(run, events.drop_last());
        let before = advanced_all(run, events.drop_last());
        law_every_statement_is_finalized(before, events.last());
    }
}

/// The events of a statement that is prepared and whose parameters are bound.
pub open spec fn opening_events(names: Seq<Option<Seq<char>>>, params: nat) -> Seq<Event> {
    seq![Event::Prepared(names)] + Seq::new(params, |i: int| Event::Bound(true))
}

/// The events of a statement that gives rows until it is done.
pub open spec fn row_events(rows: Seq<Seq<RawCell>>) -> Seq<Event> {
    Seq::new(rows.len(), |i: int| Event::Row(rows[i]))
}

proof fn lemma_advanced_all_joins(run: Run, first: Seq<Event>, second: Seq<Event>)
    ensures
        advanced_all(run, first + second) == advanced_all(advanced_all(run, first), second),
    decreases second.len(),
{
    if second.len() == 0 {
        assert(first + second =~= first);
    } else {
        lemma_advanced_all_joins(run, first, second.drop_last());
        assert((first + second).drop_last() =~= first + second.drop_last());
        assert((first + second).last() == second.last());
    }
}

proof fn lemma_opened(run: Run, names: Seq<Option<Seq<char>>>, n: nat)
    requires
        run.phase is Prepare,
        reachable(run),
        n <= param_count(run),
    ensures
        advanced_all(run, opening_events(names, n)) == (Run {
            phase: if n < param_count(run) {
                Phase::Bind(n as usize)
            } else {
                Phase::Step
            },
            ..advanced(run, Event::Prepared(names))
        }),
    decreases n,
{
    let events = opening_events(names, n);
    if n == 0 {
        assert(events.drop_last() =~= Seq::<Event>::empty());
        assert(advanced_all(run, events.drop_last()) == run);
        assert(events.last() == Event::Prepared(names));
    } else {
        lemma_opened(run, names, (n - 1) as nat);
        assert(events.drop_last() =~= opening_events(names, (n - 1) as nat));
        assert(events.last() == Event::Bound(true));
    }
}

proof fn lemma_rows_read(run: Run, rows: Seq<Seq<RawCell>>)
    requires
        run.phase is Step,
        gives_rows(run),
    ensures
        advanced_all(run, row_events(rows)) == (Run {
            rows: run.rows + decoded_rows(rows, run.select),
            ..run
        }),
    decreases rows.len(),
{
    let events = row_events(rows);
    if rows.len() == 0 {
        assert(run.rows + decoded_rows(rows, run.select) =~= run.rows);
    } else {
        lemma_rows_read(run, rows.drop_last());
        assert(events.drop_last() =~= row_events(rows.drop_last()));
        assert(events.last() == Event::Row(rows.last()));
        assert(run.rows + decoded_rows(rows, run.select) =~= (run.rows + decoded_rows(
            rows.drop_last(),
            run.select,
        )).push(decoded_row(rows.last(), run.select)));
    }
}

/// A `SELECT` returns what SQLite gives: its columns, every row in order and
/// none besides, with every value decoded.
pub proof fn law_select_returns_its_rows(
    sql: Seq<char>,
    upper: Seq<char>,
    params: Option<Seq<Cell>>,
    names: Seq<Option<Seq<char>>>,
    rows: Seq<Seq<RawCell>>,
)
    requires
        upper_is_select(upper),
        params matches Some(values) ==> values.len() <= i32::MAX,
    ensures
        ({
            let run = begun(sql, upper, params);
            let events = opening_events(names, param_count(run)) + row_events(rows) + seq![
                Event::Done,
                Event::Finalized,
            ];
            result(advanced_all(run, events)) == Some(
                Ok::<ResultView, ErrorView>(
                    ResultView {
                        columns: column_names(names, "col_"@),
                        rows: decoded_rows(rows, true),
                        affected_rows: 0,
                        last_insert_id: None,
                    },
                ),
            )
        }),
{
    let run = begun(sql, upper, params);
    let opening = opening_events(names, param_count(run)) + row_events(rows);
    lemma_rows_are_read(run, names, rows);
    lemma_advanced_all_joins(run, opening, seq![Event::Done, Event::Finalized]);
    lemma_two_events(advanced_all(run, opening), Event::Done, Event::Finalized);
}

proof fn lemma_two_events(run: Run, first: Event, second: Event)
    ensures
        advanced_all(run, seq![first, second]) == advanced(advanced(run, first), second),
{
    let events = seq![first, second];
    assert(events.drop_last() =~= seq![first]);
    assert(seq![first].drop_last() =~= Seq::<Event>::empty());
    assert(advanced_all(run, seq![first].drop_last()) == run);
    assert(advanced_all(run, seq![first]) == advanced(run, first));
}

/// A statement that is no `SELECT` returns the number of rows it changed, and
/// the last inserted row exactly if it is an `INSERT`. Where it has columns, and
/// was not given parameters, it also returns every row in order.
pub proof fn law_other_statements_return_their_totals(
    sql: Seq<char>,
    upper: Seq<char>,
    params: Option<Seq<Cell>>,
    names: Seq<Option<Seq<char>>>,
    rows: Seq<Seq<RawCell>>,
    changes: i32,
    last_rowid: i64,
)
    requires
        !upper_is_select(upper),
        params matches Some(values) ==> values.len() <= i32::MAX,
        rows.len() > 0 ==> params is None && names.len() > 0,
    ensures
        ({
            let run = begun(sql, upper, params);
            let events = opening_events(names, param_count(run)) + row_events(rows) + seq![
                Event::Done,
                Event::Finalized,
            ] + seq![Event::Totals { changes, last_rowid }];
            result(advanced_all(run, events)) == Some(
                Ok::<ResultView, ErrorView>(
                    ResultView {
                        columns: if params is None {
                            column_names(names, "column_"@)
                        } else {
                            Seq::empty()
                        },
                        rows: decoded_rows(rows, false),
                        affected_rows: as_unsigned(changes),
                        last_insert_id: if upper_is_insert(upper) {
                            Some(last_rowid)
                        } else {
                            None
                        },
                    },
                ),
            )
        }),
{
    let run = begun(sql, upper, params);
    let opening = opening_events(names, param_count(run)) + row_events(rows);
    let closing = seq![Event::Done, Event::Finalized];
    let totals = Event::Totals { changes, last_rowid };
    lemma_rows_are_read(run, names, rows);
    let read = advanced_all(run, opening);
    lemma_advanced_all_joins(run, opening, closing);
    lemma_two_events(read, Event::Done, Event::Finalized);
    let events = opening + closing + seq![totals];
    assert(events.drop_last() =~= opening + closing);
    assert(events.last() == totals);
}

/// The state of a run that has read rows.
proof fn lemma_rows_are_read(run: Run, names: Seq<Option<Seq<char>>>, rows: Seq<Seq<RawCell>>)
    requires
        reachable(run),
        run.phase is Prepare,
        rows.len() > 0 ==> run.select || (run.params is None && names.len() > 0),
    ensures
        advanced_all(run, opening_events(names, param_count(run)) + row_events(rows)) == (Run {
            phase: Phase::Step,
            rows: decoded_rows(rows, run.select),
            ..advanced(run, Event::Prepared(names))
        }),
{
    let opening = opening_events(names, param_count(run));
    let opened = advanced_all(run, opening);
    lemma_opened(run, names, param_count(run));
    lemma_advanced_all_joins(run, opening, row_events(rows));
    assert(run.rows =~= Seq::<Seq<Cell>>::empty());
    if rows.len() > 0 {
        lemma_rows_read(opened, rows);
        assert(opened.rows + decoded_rows(rows, run.select) =~= decoded_rows(rows, run.select));
    } else {
        assert(row_events(rows) =~= Seq::<Event>::empty());
        assert(decoded_rows(rows, run.select) =~= opened.rows);
    }
}

/// A statement that fails at a step returns the message of SQLite, and no rows.
pub proof fn law_failures_are_explained(
    sql: Seq<char>,
    upper: Seq<char>,
    params: Option<Seq<Cell>>,
    names: Seq<Option<Seq<char>>>,
    rows: Seq<Seq<RawCell>>,
    message: Seq<char>,
)
    requires
        params matches Some(values) ==> values.len() <= i32::MAX,
        rows.len() > 0 ==> upper_is_select(upper) || (params is None && names.len() > 0),
    ensures
        ({
            let run = begun(sql, upper, params);
            let told = Event::Message(Some(message));
            let events = opening_events(names, param_count(run)) + row_events(rows) + seq![
                Event::Failed,
            ] + if params is Some && !upper_is_select(upper) {
                seq![Event::Finalized, told]
            } else {
                seq![told, Event::Finalized]
            };
            result(advanced_all(run, events)) == Some(
                Err::<ResultView, ErrorView>(
                    sqlite_error(
                        run,
                        (if upper_is_select(upper) {
                            "Error executing SELECT statement: "@
                        } else {
                            "Failed to execute statement: "@
                        }) + message,
                    ),
                ),
            )
        }),
{
    let run = begun(sql, upper, params);
    let told = Event::Message(Some(message));
    let opening = opening_events(names, param_count(run)) + row_events(rows);
    let closing = if params is Some && !upper_is_select(upper) {
        seq![Event::Finalized, told]
    } else {
        seq![told, Event::Finalized]
    };
    lemma_rows_are_read(run, names, rows);
    let longer = opening + seq![Event::Failed];
    assert(longer.drop_last() =~= opening);
    let broken = advanced_all(run, longer);
    lemma_advanced_all_joins(run, longer, closing);
    lemma_two_events(broken, closing[0], closing[1]);
    assert(closing =~= seq![closing[0], closing[1]]);
}

/// A `SELECT` returns every value as SQLite gives it: integers, real numbers,
/// texts and blobs are the very ones that were read, and what is null or cannot
/// be read is null. The columns have the names that SQLite gives them, or their
/// number.
pub proof fn law_select_returns_values_as_they_are(
    sql: Seq<char>,
    upper: Seq<char>,
    params: Option<Seq<Cell>>,
    names: Seq<Option<Seq<char>>>,
    rows: Seq<Seq<RawCell>>,
    bound: nat,
    i: int,
    j: int,
)
    requires
        "SELECT"@.is_prefix_of(upper),
        params matches Some(values) ==> values.len() <= i32::MAX,
        bound == match params {
            Some(values) => values.len(),
            None => 0,
        },
        0 <= i < rows.len(),
        0 <= j < rows[i].len(),
    ensures
        ({
            let run = begun(sql, upper, params);
            let events = opening_events(names, bound) + row_events(rows) + seq![
                Event::Done,
                Event::Finalized,
            ];
            match result(advanced_all(run, events)) {
                Some(Ok(returned)) => {
                    &&& returned.columns.len() == names.len()
                    &&& forall|k: int|
                        0 <= k < names.len() ==> (#[trigger] returned.columns[k]) == match names[k] {
                            Some(name) => name,
                            None => "col_"@ + decimal(k as nat),
                        }
                    &&& returned.rows.len() == rows.len()
                    &&& returned.rows[i].len() == rows[i].len()
                    &&& match rows[i][j] {
                        RawCell::Integer(n) => returned.rows[i][j] == Cell::Integer(n),
                        RawCell::Float(bits) => returned.rows[i][j] == Cell::Real(bits),
                        RawCell::Text(Some(text)) => returned.rows[i][j] == Cell::Text(text),
                        RawCell::Blob(Some(data)) => returned.rows[i][j] == Cell::Blob(data),
                        RawCell::Blob(None) => returned.rows[i][j] == Cell::Blob(Seq::empty()),
                        _ => returned.rows[i][j] is Null,
                    }
                    &&& returned.affected_rows == 0
                    &&& returned.last_insert_id is None
                },
                _ => false,
            }
        }),
{
    law_select_returns_its_rows(sql, upper, params, names, rows);
    assert(decoded_rows(rows, true)[i] == decoded_row(rows[i], true));
}

/// Different values are returned as different values: of two integers, real
/// numbers, texts or blobs that a `SELECT` returns alike, one is the other.
pub proof fn law_selected_values_can_be_told_apart(a: RawCell, b: RawCell)
    requires
        a is Integer || a is Float || a matches RawCell::Text(Some(_)) || a matches RawCell::Blob(
            Some(_),
        ),
        b is Integer || b is Float || b matches RawCell::Text(Some(_)) || b matches RawCell::Blob(
            Some(_),
        ),
        selected(a) == selected(b),
    ensures
        a == b,
{
}

/// A statement that is no `SELECT` reports the number of rows that SQLite says
/// it changed. It tells the last inserted row exactly if it begins with
/// `INSERT`. The integers and texts in its rows are the very ones that were read,
/// and all other values are null.
pub proof fn law_other_statements_tell_their_totals(
    sql: Seq<char>,
    upper: Seq<char>,
    names: Seq<Option<Seq<char>>>,
    rows: Seq<Seq<RawCell>>,
    changes: i32,
    last_rowid: i64,
)
    requires
        !"SELECT"@.is_prefix_of(upper),
        rows.len() > 0 ==> names.len() > 0,
    ensures
        ({
            let run = begun(sql, upper, None);
            let events = opening_events(names, 0) + row_events(rows) + seq![
                Event::Done,
                Event::Finalized,
            ] + seq![Event::Totals { changes, last_rowid }];
            match result(advanced_all(run, events)) {
                Some(Ok(returned)) => {
                    &&& changes >= 0 ==> returned.affected_rows == changes
                    &&& changes < 0 ==> returned.affected_rows == changes + 0x1_0000_0000
                    &&& "INSERT"@.is_prefix_of(upper) ==> returned.last_insert_id == Some(
                        last_rowid,
                    )
                    &&& !"INSERT"@.is_prefix_of(upper) ==> returned.last_insert_id is None
                    &&& returned.columns.len() == names.len()
                    &&& forall|k: int|
                        0 <= k < names.len() ==> (#[trigger] returned.columns[k]) == match names[k] {
                            Some(name) => name,
                            None => "column_"@ + decimal(k as nat),
                        }
                    &&& returned.rows.len() == rows.len()
                    &&& forall|i: int|
                        0 <= i < rows.len() ==> (#[trigger] returned.rows[i]).len()
                            == rows[i].len()
                    &&& forall|i: int, j: int|
                        0 <= i < rows.len() && 0 <= j < rows[i].len() ==> (
                        #[trigger] returned.rows[i][j]) == match rows[i][j] {
                            RawCell::Integer(n) => Cell::Integer(n),
                            RawCell::Text(Some(text)) => Cell::Text(text),
                            _ => Cell::Null,
                        }
                },
                _ => false,
            }
        }),
{
    law_other_statements_return_their_totals(sql, upper, None, names, rows, changes, last_rowid);
    assert forall|i: int| 0 <= i < rows.len() implies decoded_rows(rows, false)[i] == decoded_row(
        rows[i],
        false,
    ) by {}
}

/// The same of a statement with parameters: it returns no columns and no rows.
pub proof fn law_statements_with_parameters_tell_their_totals(
    sql: Seq<char>,
    upper: Seq<char>,
    params: Seq<Cell>,
    names: Seq<Option<Seq<char>>>,
    changes: i32,
    last_rowid: i64,
)
    requires
        !"SELECT"@.is_prefix_of(upper),
        params.len() <= i32::MAX,
    ensures
        ({
            let run = begun(sql, upper, Some(params));
            let none = Seq::<Seq<RawCell>>::empty();
            let events = opening_events(names, params.len()) + row_events(none) + seq![
                Event::Done,
                Event::Finalized,
            ] + seq![Event::Totals { changes, last_rowid }];
            match result(advanced_all(run, events)) {
                Some(Ok(returned)) => {
                    &&& changes >= 0 ==> returned.affected_rows == changes
                    &&& "INSERT"@.is_prefix_of(upper) ==> returned.last_insert_id == Some(
                        last_rowid,
                    )
                    &&& !"INSERT"@.is_prefix_of(upper) ==> returned.last_insert_id is None
                    &&& returned.columns.len() == 0
                    &&& returned.rows.len() == 0
                },
                _ => false,
            }
        }),
{
    law_other_statements_return_their_totals(
        sql,
        upper,
        Some(params),
        names,
        Seq::empty(),
        changes,
        last_rowid,
    );
}

/// Parameters are bound one after the other, each under its number and as it is;
/// a text loses its NUL characters, and what SQLite has no type for is bound as
/// null. Only after the last one the statement is stepped.
pub proof fn law_parameters_are_bound_in_order(
    sql: Seq<char>,
    upper: Seq<char>,
    params: Seq<Cell>,
    names: Seq<Option<Seq<char>>>,
    k: nat,
    action: StatementAction,
)
    requires
        params.len() <= i32::MAX,
        k <= params.len(),
        is_next(action, advanced_all(begun(sql, upper, Some(params)), opening_events(names, k))),
    ensures
        k == params.len() ==> action is Step,
        k < params.len() ==> match action {
            StatementAction::Bind { index, value } => {
                &&& index == k + 1
                &&& match params[k as int] {
                    Cell::Null => value is Null,
                    Cell::Integer(n) => value@ == Cell::Integer(n),
                    Cell::Real(bits) => value@ == Cell::Real(bits),
                    Cell::Blob(data) => value@ == Cell::Blob(data),
                    Cell::Text(text) => value@ is Text && !value@->Text_0.contains('\0') && (
                    !text.contains('\0') ==> value@ == Cell::Text(text)),
                    Cell::BigInt(_) => value is Null,
                    Cell::Date(_) => value is Null,
                }
            },
            _ => false,
        },
{
    let run = begun(sql, upper, Some(params));
    lemma_opened(run, names, k);
    if k < params.len() {
        match params[k as int] {
            Cell::Text(text) => {
                law_only_nul_is_removed(text, Seq::empty());
            },
            _ => {},
        }
    }
}

/// Removing NUL characters leaves none, and every other character in its place:
/// it can be done part by part, and a text without NUL stays as it is.
pub proof fn law_only_nul_is_removed(a: Seq<char>, b: Seq<char>)
    ensures
        !without_nul(a).contains('\0'),
        !a.contains('\0') ==> without_nul(a) == a,
        without_nul(a + b) == without_nul(a) + without_nul(b),
        without_nul(a + seq!['\0'] + b) == without_nul(a + b),
        forall|c: char| c != '\0' ==> #[trigger] without_nul(a.push(c)) == without_nul(a).push(c),
    decreases a.len(),
{
    let keep = |c: char| c != '\0';
    lemma_filter_keeps(a);
    lemma_filter_joins(a, b);
    lemma_filter_joins(a + seq!['\0'], b);
    lemma_filter_joins(a, seq!['\0']);
    reveal(Seq::filter);
    let nul = seq!['\0'];
    lemma_filter_keeps(Seq::empty());
    assert(nul.drop_last() =~= Seq::<char>::empty());
    assert(without_nul(nul) =~= Seq::<char>::empty());
    assert(without_nul(a) + without_nul(nul) =~= without_nul(a));
    assert forall|c: char| c != '\0' implies #[trigger] without_nul(a.push(c)) == without_nul(
        a,
    ).push(c) by {
        assert(a.push(c).drop_last() =~= a);
    }
}

proof fn lemma_filter_keeps(a: Seq<char>)
    ensures
        !without_nul(a).contains('\0'),
        !a.contains('\0') ==> without_nul(a) == a,
    decreases a.len(),
{
    reveal(Seq::filter);
    if a.len() > 0 {
        let shorter = a.drop_last();
        lemma_filter_keeps(shorter);
        if !a.contains('\0') {
            assert(a[a.len() - 1] != '\0');
            assert forall|i: int| 0 <= i < shorter.len() implies shorter[i] != '\0' by {
                assert(a[i] != '\0');
            }
            assert(a =~= shorter.push(a.last()));
        }
        if without_nul(a).contains('\0') {
            let i = choose|i: int| 0 <= i < without_nul(a).len() && without_nul(a)[i] == '\0';
            assert(i < without_nul(shorter).len());
            assert(without_nul(shorter)[i] == '\0');
        }
    }
}

proof fn lemma_filter_joins(a: Seq<char>, b: Seq<char>)
    ensures
        without_nul(a + b) == without_nul(a) + without_nul(b),
    decreases b.len(),
{
    reveal(Seq::filter);
    if b.len() == 0 {
        assert(a + b =~= a);
        assert(without_nul(a) + without_nul(b) =~= without_nul(a));
    } else {
        lemma_filter_joins(a, b.drop_last());
        assert((a + b).drop_last() =~= a + b.drop_last());
        assert(without_nul(a + b) =~= without_nul(a) + without_nul(b));
    }
}

/// A statement that fails tells why, whatever it is: the message of SQLite, or
/// what stands for it, behind what failed, and the statement itself.
pub proof fn law_errors_tell_the_reason(
    run: Run,
    code: i32,
    message: Option<Seq<char>>,
    bound: usize,
)
    ensures
        run.phase is Prepare ==> {
            let after = advanced(run, Event::NotPrepared(code, message));
            &&& after.phase is Over
            &&& after.error is Some
            &&& after.error->0.code == "SQLITE_ERROR"@
            &&& after.error->0.sql == Some(run.sql)
            &&& message is Some ==> after.error->0.message == "Failed to prepare statement: "@
                + message->0
            &&& message is None && code >= 0 ==> after.error->0.message
                == "Failed to prepare statement: "@ + ("Unknown error (code: "@ + decimal(
                code as nat,
            ) + ")"@)
        },
        run.phase == Phase::Bind(bound) ==> {
            let after = advanced(run, Event::Bound(false));
            &&& after.phase == Phase::Finalize(After::Fail)
            &&& after.error == Some(
                ErrorView {
                    code: "SQLITE_ERROR"@,
                    message: "Failed to bind parameter"@,
                    sql: Some(run.sql),
                },
            )
        },
        run.phase is Explain ==> {
            let after = advanced(run, Event::Message(message));
            let reason = if message is Some {
                message->0
            } else {
                "Unknown SQLite error"@
            };
            &&& after.error is Some
            &&& after.error->0.code == "SQLITE_ERROR"@
            &&& after.error->0.sql == Some(run.sql)
            &&& run.select ==> after.error->0.message == "Error executing SELECT statement: "@
                + reason
            &&& !run.select ==> after.error->0.message == "Failed to execute statement: "@ + reason
        },
{
}

/// What has been read stays: no event changes the statement, its parameters, a
/// row or an error that are there, and the columns are told once.
pub proof fn law_what_was_read_stays(run: Run, event: Event, i: int)
    requires
        reachable(run),
    ensures
        ({
            let after = advanced(run, event);
            &&& after.sql == run.sql
            &&& after.select == run.select
            &&& after.insert == run.insert
            &&& after.params == run.params
            &&& !(run.phase is Prepare) ==> after.columns == run.columns
            &&& run.rows.len() <= after.rows.len() <= run.rows.len() + 1
            &&& 0 <= i < run.rows.len() ==> after.rows[i] == run.rows[i]
            &&& run.error is Some ==> after.error == run.error
        }),
{
}

/// A step that fails, or that gives a row where none is expected, makes the
/// statement fail: the message of SQLite is read, and the statement is finalized.
pub proof fn law_failed_steps_are_explained(run: Run, values: Seq<RawCell>)
    requires
        reachable(run),
        run.phase is Step,
    ensures
        ({
            let after = advanced(run, Event::Failed);
            &&& after.phase is Explain || after.phase == Phase::Finalize(After::Explain)
            &&& after.phase is Explain <==> run.select || run.params is None
            &&& after.open
            &&& !run.select && (run.params is Some || run.columns.len() == 0) ==> advanced(
                run,
                Event::Row(values),
            ) == after
        }),
{
}

/// A run begins with preparing the statement that was given, and steps it as
/// often as there are rows.
pub proof fn law_runs_begin_with_preparing(
    sql: Seq<char>,
    upper: Seq<char>,
    params: Option<Seq<Cell>>,
    action: StatementAction,
)
    requires
        is_next(action, begun(sql, upper, params)),
    ensures
        action is Prepare,
        action->Prepare_sql@ == sql,
        begun(sql, upper, params).params == params,
        begun(sql, upper, params).select == "SELECT"@.is_prefix_of(upper),
        begun(sql, upper, params).insert == "INSERT"@.is_prefix_of(upper),
{
}

/// What SQLite hands out is seen as it is, and so is what it tells of a call.
pub proof fn law_events_are_seen_as_they_are(
    value: RawValue,
    event: StatementEvent,
    values: Seq<RawValue>,
    names: Seq<Option<String>>,
    i: int,
)
    ensures
        match value {
            RawValue::Null => value@ is Null,
            RawValue::Integer(n) => value@ == RawCell::Integer(n),
            RawValue::Float(bits) => value@ == RawCell::Float(bits),
            RawValue::Text(Some(text)) => value@ == RawCell::Text(Some(text@)),
            RawValue::Text(None) => value@ == RawCell::Text(None),
            RawValue::Blob(Some(data)) => value@ == RawCell::Blob(Some(data@)),
            RawValue::Blob(None) => value@ == RawCell::Blob(None),
            RawValue::Other => value@ is Other,
        },
        all_raw(values).len() == values.len(),
        0 <= i < values.len() ==> all_raw(values)[i] == values[i]@,
        all_names(names).len() == names.len(),
        0 <= i < names.len() ==> match names[i] {
            Some(name) => all_names(names)[i] == Some(name@),
            None => all_names(names)[i] is None,
        },
        match event {
            StatementEvent::Prepared(names) => event@ is Prepared && event@->Prepared_0
                == all_names(names@),
            StatementEvent::NotPrepared(code, Some(message)) => event@ == Event::NotPrepared(
                code,
                Some(message@),
            ),
            StatementEvent::NotPrepared(code, None) => event@ == Event::NotPrepared(code, None),
            StatementEvent::Bound(ok) => event@ == Event::Bound(ok),
            StatementEvent::Row(values) => event@ is Row && event@->Row_0 == all_raw(values@),
            StatementEvent::Done => event@ is Done,
            StatementEvent::Failed => event@ is Failed,
            StatementEvent::Message(Some(message)) => event@ == Event::Message(Some(message@)),
            StatementEvent::Message(None) => event@ == Event::Message(None),
            StatementEvent::Finalized => event@ is Finalized,
            StatementEvent::Totals { changes, last_rowid } => event@ == (Event::Totals {
                changes,
                last_rowid,
            }),
        },
{
}

/// Only the event that a run waits for counts: nothing else changes anything.
pub proof fn law_runs_heed_nothing_else(run: Run, event: Event)
    ensures
        !(match run.phase {
            Phase::Prepare => event is Prepared || event is NotPrepared,
            Phase::Bind(_) => event is Bound,
            Phase::Step => event is Row || event is Done || event is Failed,
            Phase::Explain => event is Message,
            Phase::Finalize(_) => event is Finalized,
            Phase::Totals => event is Totals,
            Phase::Over => false,
        }) ==> advanced(run, event) == run,
{
}

/// Whether a text holds a NUL character does not depend on where it stands.
pub proof fn law_nul_is_found(s: Seq<char>, t: Seq<char>)
    ensures
        holds_nul(s + seq!['\0'] + t),
        holds_nul(s) <==> exists|i: int| 0 <= i < s.len() && s[i] == '\0',
        holds_nul(s + t) <==> holds_nul(s) || holds_nul(t),
{
    let whole = s + seq!['\0'] + t;
    assert(whole[s.len() as int] == '\0');
    let both = s + t;
    if holds_nul(s) {
        let i = choose|i: int| 0 <= i < s.len() && s[i] == '\0';
        assert(both[i] == '\0');
    }
    if holds_nul(t) {
        let i = choose|i: int| 0 <= i < t.len() && t[i] == '\0';
        assert(both[s.len() + i] == '\0');
    }
    if holds_nul(both) {
        let i = choose|i: int| 0 <= i < both.len() && both[i] == '\0';
        if i < s.len() {
            assert(s[i] == '\0');
        } else {
            assert(t[i - s.len()] == '\0');
        }
    }
}

/// The parameters of a statement are all that are given, in order; a statement
/// that is given none at all has a number of zero, as one that takes none.
pub proof fn law_parameters_are_taken_as_they_are(
    sql: Seq<char>,
    upper: Seq<char>,
    params: Vec<ColumnValue>,
    i: int,
)
    ensures
        params_in(Some(params)) is Some,
        params_in(Some(params))->0.len() == params@.len(),
        0 <= i < params@.len() ==> params_in(Some(params))->0[i] == params@[i]@,
        params_in(None) is None,
        param_count(begun(sql, upper, params_in(Some(params)))) == params@.len(),
        param_count(begun(sql, upper, None)) == 0,
{
}

} // verus!
