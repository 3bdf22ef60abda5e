//! Errors, configuration, and the values that statements take and return.

use vstd::prelude::*;

verus! {

/// Why an operation failed.
#[derive(Debug)]
pub struct DatabaseError {
    pub code: String,
    pub message: String,
    pub sql: Option<String>,
}

/// What a [`DatabaseError`] says.
#[verifier::ext_equal]
pub struct ErrorView {
    pub code: Seq<char>,
    pub message: Seq<char>,
    pub sql: Option<Seq<char>>,
}

impl DatabaseError {
    pub open spec fn view(&self) -> ErrorView {
        ErrorView {
            code: self.code@,
            message: self.message@,
            sql: match self.sql {
                Some(sql) => Some(sql@),
                None => None,
            },
        }
    }

    /// The error has this code and message, and names no statement.
    pub open spec fn is(self, code: Seq<char>, message: Seq<char>) -> bool {
        self.code@ == code && self.message@ == message && self.sql is None
    }

    /// The error has this code and message, and names the statement `sql`.
    pub open spec fn is_for(self, code: Seq<char>, message: Seq<char>, sql: Seq<char>) -> bool {
        self.code@ == code && self.message@ == message && self.sql is Some && self.sql->0@ == sql
    }

    /// An error with a code and a message.
    pub fn new(code: &str, message: &str) -> (e: DatabaseError)
        ensures
            e.is(code@, message@),
    {
        DatabaseError { code: code.to_owned(), message: message.to_owned(), sql: None }
    }

    /// The same error, naming the statement it is about.
    pub fn with_sql(self, sql: &str) -> (e: DatabaseError)
        ensures
            e.is_for(self.code@, self.message@, sql@),
    {
        DatabaseError { code: self.code, message: self.message, sql: Some(sql.to_owned()) }
    }
}

/// How a database is opened.
#[derive(Debug)]
pub struct DatabaseConfig {
    pub name: String,
    pub version: Option<u32>,
    pub cache_size: Option<usize>,
    pub page_size: Option<usize>,
    pub auto_vacuum: Option<bool>,
    pub journal_mode: Option<String>,
    pub max_export_size_bytes: Option<u64>,
}

/// A value in a row, or a parameter of a statement. A real number is given by
/// the bits of its double-precision representation, a date by its milliseconds
/// since the epoch.
#[derive(Debug)]
pub enum ColumnValue {
    Null,
    Integer(i64),
    Real(u64),
    Text(String),
    Blob(Vec<u8>),
    BigInt(String),
    Date(i64),
}

/// What a [`ColumnValue`] stands for.
#[verifier::ext_equal]
pub enum Cell {
    Null,
    Integer(i64),
    Real(u64),
    Text(Seq<char>),
    Blob(Seq<u8>),
    BigInt(Seq<char>),
    Date(i64),
}

impl ColumnValue {
    pub open spec fn view(&self) -> Cell {
        match self {
            ColumnValue::Null => Cell::Null,
            ColumnValue::Integer(n) => Cell::Integer(*n),
            ColumnValue::Real(bits) => Cell::Real(*bits),
            ColumnValue::Text(text) => Cell::Text(text@),
            ColumnValue::Blob(data) => Cell::Blob(data@),
            ColumnValue::BigInt(text) => Cell::BigInt(text@),
            ColumnValue::Date(ms) => Cell::Date(*ms),
        }
    }
}

/// What several values stand for.
pub open spec fn all_cells(values: Seq<ColumnValue>) -> Seq<Cell> {
    Seq::new(values.len(), |i: int| values[i]@)
}

/// One row of a result.
#[derive(Debug)]
pub struct Row {
    pub values: Vec<ColumnValue>,
}

impl Row {
    pub open spec fn view(&self) -> Seq<Cell> {
        all_cells(self.values@)
    }
}

/// What several rows stand for.
pub open spec fn all_rows(rows: Seq<Row>) -> Seq<Seq<Cell>> {
    Seq::new(rows.len(), |i: int| rows[i]@)
}

/// The characters of several strings.
pub open spec fn all_texts(texts: Seq<String>) -> Seq<Seq<char>> {
    Seq::new(texts.len(), |i: int| texts[i]@)
}

/// What a statement returns.
#[derive(Debug)]
pub struct QueryResult {
    pub columns: Vec<String>,
    pub rows: Vec<Row>,
    pub affected_rows: u32,
    pub last_insert_id: Option<i64>,
}

/// What a [`QueryResult`] stands for.
#[verifier::ext_equal]
pub struct ResultView {
    pub columns: Seq<Seq<char>>,
    pub rows: Seq<Seq<Cell>>,
    pub affected_rows: u32,
    pub last_insert_id: Option<i64>,
}

impl QueryResult {
    pub open spec fn view(&self) -> ResultView {
        ResultView {
            columns: all_texts(self.columns@),
            rows: all_rows(self.rows@),
            affected_rows: self.affected_rows,
            last_insert_id: self.last_insert_id,
        }
    }
}

/// Values, rows, results and errors are seen as they are: every number, every
/// character and every byte, in order.
pub proof fn law_values_are_seen_as_they_are(
    value: ColumnValue,
    result: QueryResult,
    error: DatabaseError,
    i: int,
    j: int,
)
    ensures
        match value {
            ColumnValue::Null => value@ is Null,
            ColumnValue::Integer(n) => value@ == Cell::Integer(n),
            ColumnValue::Real(bits) => value@ == Cell::Real(bits),
            ColumnValue::Text(text) => value@ == Cell::Text(text@),
            ColumnValue::Blob(data) => value@ == Cell::Blob(data@),
            ColumnValue::BigInt(text) => value@ == Cell::BigInt(text@),
            ColumnValue::Date(ms) => value@ == Cell::Date(ms),
        },
        result@.columns.len() == result.columns@.len(),
        0 <= i < result.columns@.len() ==> result@.columns[i] == result.columns@[i]@,
        result@.rows.len() == result.rows@.len(),
        0 <= i < result.rows@.len() ==> result@.rows[i].len() == result.rows@[i].values@.len(),
        0 <= i < result.rows@.len() && 0 <= j < result.rows@[i].values@.len() ==> result@.rows[i][j]
            == result.rows@[i].values@[j]@,
        result@.affected_rows == result.affected_rows,
        result@.last_insert_id == result.last_insert_id,
        error@.code == error.code@,
        error@.message == error.message@,
        error@.sql is Some <==> error.sql is Some,
        error.sql is Some ==> error@.sql->0 == error.sql->0@,
{
}

/// An error that is one of a kind has its code and its message, and names a
/// statement exactly if it is told to.
pub proof fn law_errors_are_what_they_say(
    error: DatabaseError,
    code: Seq<char>,
    message: Seq<char>,
    sql: Seq<char>,
)
    ensures
        error.is(code, message) <==> error.code@ == code && error.message@ == message
            && error.sql is None,
        error.is_for(code, message, sql) <==> error.code@ == code && error.message@ == message
            && error.sql is Some && error.sql->0@ == sql,
{
}

} // verus!
