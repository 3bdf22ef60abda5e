use absurder_sql::sql::{is_insert, is_select, is_write, leading_text};
use absurder_sql::statement::{
    bind_value, has_nul, remove_nul, RawValue, StatementAction, StatementEvent, StatementRun,
};
use absurder_sql::telemetry::{
    measure, measure_election, measure_wait, query_type, span_end, Metric, SpanEnd,
};
use absurder_sql::types::{ColumnValue, DatabaseError, QueryResult};
use absurder_sql::verbs::{changes_rows, statement_verb, Verb};

fn text(s: &str) -> Option<String> {
    Some(s.to_string())
}

/// Runs a statement against prepared events, and notes the actions.
fn drive(mut run: StatementRun, events: Vec<StatementEvent>) -> (StatementRun, Vec<String>) {
    let mut actions = Vec::new();
    for event in events {
        actions.push(name(&run.action()));
        run.advance(event);
    }
    (run, actions)
}

fn name(action: &StatementAction) -> String {
    match action {
        StatementAction::Prepare { .. } => "prepare".to_string(),
        StatementAction::Bind { index, value } => format!("bind {} {:?}", index, value),
        StatementAction::Step => "step".to_string(),
        StatementAction::ReadMessage => "message".to_string(),
        StatementAction::Finalize => "finalize".to_string(),
        StatementAction::ReadTotals => "totals".to_string(),
        StatementAction::Return => "return".to_string(),
    }
}

fn over(run: StatementRun) -> Result<QueryResult, DatabaseError> {
    assert!(matches!(run.action(), StatementAction::Return));
    run.into_result().unwrap()
}

fn failed(run: StatementRun, code: &str, message: &str, sql: Option<&str>) {
    let e = over(run).unwrap_err();
    assert_eq!(e.code, code);
    assert_eq!(e.message, message);
    assert_eq!(e.sql.as_deref(), sql);
}

#[test]
fn statements_are_told_by_their_verb() {
    for sql in ["insert into t", " \n UPDATE t", "Delete from t", "replace INTO t", "inserted"] {
        assert!(is_write(&leading_text(sql)), "{}", sql);
    }
    for sql in ["select 1", "create table t(x)", "", "drop table t", "-- insert into t", "ſelect"] {
        assert!(!is_write(&leading_text(sql)), "{}", sql);
    }
    assert!(is_select(&leading_text("\tselect 1")));
    assert!(is_select(&leading_text("SELECTED")));
    assert!(!is_select(&leading_text("with x as (select 1) select * from x")));
    assert!(is_insert(&leading_text("Insert or ignore into t")));
    assert!(!is_insert(&leading_text("replace into t")));
    assert_eq!(leading_text(" straße "), "STRASSE");
}

#[test]
fn select_returns_every_row() {
    let run = StatementRun::start(" select * from t", None).unwrap();
    let (run, actions) = drive(
        run,
        vec![
            StatementEvent::Prepared(vec![text("id"), None, text("c"), text("d")]),
            StatementEvent::Row(vec![
                RawValue::Integer(1),
                RawValue::Float(0x4004_0000_0000_0000),
                RawValue::Null,
                RawValue::Other,
            ]),
            StatementEvent::Row(vec![
                RawValue::Text(text("x")),
                RawValue::Blob(Some(vec![1, 2])),
                RawValue::Text(None),
                RawValue::Blob(None),
            ]),
            StatementEvent::Done,
            StatementEvent::Finalized,
        ],
    );
    assert_eq!(actions, ["prepare", "step", "step", "step", "finalize"]);
    let result = over(run).unwrap();
    assert_eq!(result.columns, ["id", "col_1", "c", "d"]);
    assert!(result.rows.iter().all(|row| row.values.len() == result.columns.len()));
    assert_eq!(result.affected_rows, 0);
    assert_eq!(result.last_insert_id, None);
    assert_eq!(result.rows.len(), 2);
    assert_eq!(
        format!("{:?}", result.rows[0].values),
        "[Integer(1), Real(4612811918334230528), Null, Null]"
    );
    assert_eq!(
        format!("{:?}", result.rows[1].values),
        "[Text(\"x\"), Blob([1, 2]), Null, Blob([])]"
    );
}

#[test]
fn pragma_returns_texts_and_integers() {
    let run = StatementRun::start("PRAGMA journal_mode", None).unwrap();
    let (run, actions) = drive(
        run,
        vec![
            StatementEvent::Prepared(vec![text("journal_mode"), None, text("c"), None]),
            StatementEvent::Row(vec![
                RawValue::Text(text("wal")),
                RawValue::Integer(2),
                RawValue::Float(1),
                RawValue::Blob(Some(vec![1])),
            ]),
            StatementEvent::Done,
            StatementEvent::Finalized,
            StatementEvent::Totals { changes: 3, last_rowid: 9 },
        ],
    );
    assert_eq!(actions, ["prepare", "step", "step", "finalize", "totals"]);
    let result = over(run).unwrap();
    assert_eq!(result.columns, ["journal_mode", "column_1", "c", "column_3"]);
    assert_eq!(
        format!("{:?}", result.rows[0].values),
        "[Text(\"wal\"), Integer(2), Null, Null]"
    );
    assert_eq!(result.affected_rows, 3);
    assert_eq!(result.last_insert_id, None);
}

#[test]
fn insert_reports_its_row() {
    let run = StatementRun::start("insert into t values (1)", None).unwrap();
    let (run, _) = drive(
        run,
        vec![
            StatementEvent::Prepared(vec![]),
            StatementEvent::Done,
            StatementEvent::Finalized,
            StatementEvent::Totals { changes: -1, last_rowid: 42 },
        ],
    );
    let result = over(run).unwrap();
    assert!(result.columns.is_empty() && result.rows.is_empty());
    assert_eq!(result.affected_rows, u32::MAX);
    assert_eq!(result.last_insert_id, Some(42));
}

#[test]
fn parameters_are_bound_in_order() {
    let params = vec![
        ColumnValue::Integer(5),
        ColumnValue::Text("a\0b".to_string()),
        ColumnValue::Date(1),
    ];
    let run = StatementRun::start("UPDATE t SET x = ?, y = ?, z = ?", Some(params)).unwrap();
    let (run, actions) = drive(
        run,
        vec![
            StatementEvent::Prepared(vec![text("ignored")]),
            StatementEvent::Bound(true),
            StatementEvent::Bound(true),
            StatementEvent::Bound(true),
            StatementEvent::Done,
            StatementEvent::Finalized,
            StatementEvent::Totals { changes: 2, last_rowid: 8 },
        ],
    );
    assert_eq!(
        actions,
        [
            "prepare", "bind 1 Integer(5)", "bind 2 Text(\"ab\")", "bind 3 Null", "step", "finalize",
            "totals"
        ]
    );
    let result = over(run).unwrap();
    assert!(result.columns.is_empty());
    assert_eq!(result.affected_rows, 2);
    assert_eq!(result.last_insert_id, None);
}

#[test]
fn bindings_of_values() {
    assert!(matches!(bind_value(&ColumnValue::BigInt("1".to_string())), ColumnValue::Null));
    assert!(matches!(bind_value(&ColumnValue::Null), ColumnValue::Null));
    assert!(matches!(bind_value(&ColumnValue::Real(7)), ColumnValue::Real(7)));
    assert!(matches!(bind_value(&ColumnValue::Blob(vec![0])), ColumnValue::Blob(b) if b == [0]));
    assert_eq!(remove_nul("\0a\0\0b"), "ab");
    assert!(has_nul("a\0"));
    assert!(!has_nul("a"));
}

#[test]
fn statements_with_nul_are_refused() {
    let e = StatementRun::start("select\0", None).unwrap_err();
    assert_eq!(e.code, "INVALID_SQL");
    assert_eq!(e.message, "Invalid SQL string");
    assert_eq!(e.sql, None);
}

#[test]
fn statements_that_cannot_be_prepared() {
    let run = StatementRun::start("select x", None).unwrap();
    let (run, _) = drive(run, vec![StatementEvent::NotPrepared(1, text("no such column: x"))]);
    failed(
        run,
        "SQLITE_ERROR",
        "Failed to prepare statement: no such column: x",
        Some("select x"),
    );
    let run = StatementRun::start("drop t", None).unwrap();
    let (run, _) = drive(run, vec![StatementEvent::NotPrepared(-14, None)]);
    failed(
        run,
        "SQLITE_ERROR",
        "Failed to prepare statement: Unknown error (code: -14)",
        Some("drop t"),
    );
}

#[test]
fn statements_that_fail_at_a_step() {
    let run = StatementRun::start("select 1", None).unwrap();
    let (run, actions) = drive(
        run,
        vec![
            StatementEvent::Prepared(vec![text("1")]),
            StatementEvent::Failed,
            StatementEvent::Message(text("disk I/O error")),
            StatementEvent::Finalized,
        ],
    );
    assert_eq!(actions, ["prepare", "step", "message", "finalize"]);
    failed(
        run,
        "SQLITE_ERROR",
        "Error executing SELECT statement: disk I/O error",
        Some("select 1"),
    );
    let run = StatementRun::start("delete from t", None).unwrap();
    let (run, actions) = drive(
        run,
        vec![
            StatementEvent::Prepared(vec![]),
            StatementEvent::Row(vec![]),
            StatementEvent::Message(None),
            StatementEvent::Finalized,
        ],
    );
    assert_eq!(actions, ["prepare", "step", "message", "finalize"]);
    failed(
        run,
        "SQLITE_ERROR",
        "Failed to execute statement: Unknown SQLite error",
        Some("delete from t"),
    );
    let run = StatementRun::start("delete from t", Some(vec![])).unwrap();
    let (run, actions) = drive(
        run,
        vec![
            StatementEvent::Prepared(vec![]),
            StatementEvent::Failed,
            StatementEvent::Finalized,
            StatementEvent::Message(text("locked")),
        ],
    );
    assert_eq!(actions, ["prepare", "step", "finalize", "message"]);
    failed(
        run,
        "SQLITE_ERROR",
        "Failed to execute statement: locked",
        Some("delete from t"),
    );
}

#[test]
fn parameters_that_cannot_be_bound() {
    let run = StatementRun::start("select ?", Some(vec![ColumnValue::Null])).unwrap();
    let (run, actions) = drive(
        run,
        vec![
            StatementEvent::Prepared(vec![text("?")]),
            StatementEvent::Bound(false),
            StatementEvent::Finalized,
        ],
    );
    assert_eq!(actions, ["prepare", "bind 1 Null", "finalize"]);
    failed(run, "SQLITE_ERROR", "Failed to bind parameter", Some("select ?"));
}

#[test]
fn events_that_do_not_fit_change_nothing() {
    let run = StatementRun::begin("x", "SELECT", None).unwrap();
    let (mut run, actions) =
        drive(run, vec![StatementEvent::Done, StatementEvent::Finalized, StatementEvent::Failed]);
    assert_eq!(actions, ["prepare", "prepare", "prepare"]);
    run.advance(StatementEvent::NotPrepared(1, text("a")));
    run.advance(StatementEvent::Prepared(vec![]));
    failed(run, "SQLITE_ERROR", "Failed to prepare statement: a", Some("x"));
    let run = StatementRun::start("x", None).unwrap();
    assert!(run.into_result().is_none());
}

fn measured(run: StatementRun, events: Vec<StatementEvent>) -> Vec<Metric> {
    let mut run = run;
    let mut metrics = Vec::new();
    for event in events {
        metrics.extend(measure(&run, &event));
        run.advance(event);
    }
    metrics
}

#[test]
fn what_statements_measure() {
    let run = StatementRun::start("select 1", None).unwrap();
    assert_eq!(measure(&run, &StatementEvent::NotPrepared(1, None)), [Metric::ErrorsTotal]);
    assert_eq!(measure(&run, &StatementEvent::Prepared(vec![])), []);
    let (run, _) =
        drive(run, vec![StatementEvent::Prepared(vec![text("1")]), StatementEvent::Done]);
    assert_eq!(measure(&run, &StatementEvent::Finalized), [Metric::QueryDuration]);
    let run = StatementRun::start("delete from t", None).unwrap();
    let (run, _) =
        drive(run, vec![StatementEvent::Prepared(vec![]), StatementEvent::Failed]);
    assert_eq!(measure(&run, &StatementEvent::Message(None)), [Metric::ErrorsTotal]);
}

#[test]
fn a_statement_with_parameters_that_succeeds_counts_no_error() {
    let run = StatementRun::start("delete from t where x = ?", Some(vec![ColumnValue::Null]));
    assert_eq!(
        measured(
            run.unwrap(),
            vec![
                StatementEvent::Prepared(vec![]),
                StatementEvent::Bound(true),
                StatementEvent::Done,
                StatementEvent::Finalized,
                StatementEvent::Totals { changes: 2, last_rowid: 0 },
            ],
        ),
        [Metric::QueryDuration]
    );
}

#[test]
fn a_statement_that_fails_counts_one_error() {
    for params in [None, Some(vec![])] {
        let early = params.is_some();
        let run = StatementRun::start("delete from t", params).unwrap();
        let mut closing = vec![
            StatementEvent::Message(text("locked")),
            StatementEvent::Finalized,
        ];
        if early {
            closing.reverse();
        }
        let mut events = vec![StatementEvent::Prepared(vec![]), StatementEvent::Failed];
        events.extend(closing);
        assert_eq!(measured(run, events), [Metric::ErrorsTotal]);
    }
    let run = StatementRun::start("select ?", Some(vec![ColumnValue::Null])).unwrap();
    assert_eq!(
        measured(
            run,
            vec![
                StatementEvent::Prepared(vec![text("?")]),
                StatementEvent::Bound(false),
                StatementEvent::Finalized,
            ],
        ),
        [Metric::ErrorsTotal]
    );
}

fn ended(sql: &str, params: Option<Vec<ColumnValue>>, events: Vec<StatementEvent>) -> Vec<SpanEnd> {
    let mut run = StatementRun::start(sql, params).unwrap();
    let mut ends = Vec::new();
    for event in events {
        ends.extend(span_end(&run, &event));
        run.advance(event);
    }
    ends
}

#[test]
fn how_spans_end() {
    let broken = || vec![StatementEvent::NotPrepared(7, None)];
    for (sql, params) in [("select 1", None), ("delete from t", Some(vec![]))] {
        let ends = ended(sql, params, broken());
        assert_eq!(ends.len(), 1);
        assert!(matches!(
            &ends[0],
            SpanEnd::Failed(message)
                if message == "Failed to prepare: Unknown error (code: 7)"
        ));
    }
    assert!(ended("delete from t", None, broken()).is_empty());

    let selected = || {
        vec![
            StatementEvent::Prepared(vec![text("x")]),
            StatementEvent::Row(vec![RawValue::Integer(1)]),
            StatementEvent::Done,
            StatementEvent::Finalized,
        ]
    };
    assert!(ended("select 1", None, selected()).is_empty());
    assert!(matches!(
        ended("select 1", Some(vec![]), selected())[..],
        [SpanEnd::Returned { affected_rows: None, row_count: Some(1) }]
    ));

    let changed = || {
        vec![
            StatementEvent::Prepared(vec![]),
            StatementEvent::Done,
            StatementEvent::Finalized,
            StatementEvent::Totals { changes: 3, last_rowid: 9 },
        ]
    };
    assert!(matches!(
        ended("delete from t", None, changed())[..],
        [SpanEnd::Returned { affected_rows: Some(3), row_count: Some(0) }]
    ));
    assert!(matches!(
        ended("delete from t", Some(vec![]), changed())[..],
        [SpanEnd::Returned { affected_rows: Some(3), row_count: None }]
    ));
    let failed = vec![
        StatementEvent::Prepared(vec![]),
        StatementEvent::Failed,
        StatementEvent::Message(None),
        StatementEvent::Finalized,
    ];
    assert!(ended("delete from t", None, failed).is_empty());
}

#[test]
fn the_given_statement_is_prepared() {
    let run = StatementRun::start(" select 1 ", None).unwrap();
    assert!(matches!(run.action(), StatementAction::Prepare { sql } if sql == " select 1 "));
}

#[test]
fn comments_and_common_tables_do_not_hide_a_write() {
    for sql in [
        "-- x\ninsert into t values (1)",
        "/* select */ delete from t",
        " ; /* a */ -- b\n /* c */ Replace into t values (1)",
        "with c as (select 1) insert into t select * from c",
        "WITH RECURSIVE c(x) AS (VALUES (1) UNION ALL SELECT x + 1 FROM c) DELETE FROM t",
        "with a as (select ')' from b), \"select\" as (select 2) update t set x = 1",
        "with [select] as (select 1), `values` as (select 2) replace into t select 1",
        "with c as (select 1 -- )\n) /* select */ update t set x = 2",
        "with selected as (select 1) insert into t select * from selected",
        "with replace as (select 1) replace into t select * from replace",
        "with c as (select 1) replace /* a */ -- b\n into t select 1",
        "with replace(x) as (select 1) delete from t",
    ] {
        assert!(is_write(&leading_text(sql)), "{}", sql);
    }
    for sql in [
        "-- insert into t\nselect 1",
        "/* unfinished delete from t",
        "with c as (select 1) select * from c",
        "with c as (select 1) values (1)",
        "with c as (delete from t) select 1",
        "with c as (select 'insert into t') select \"update\" from c",
        "within insert into t",
        "with replace as (select 1) select 1",
        "with c as (select 1), replace (x) as not materialized (select 1) select x from replace",
        "with recursive replace as (values (1)) values (2)",
        "explain insert into t values (1)",
        "with",
        ";",
    ] {
        assert!(!is_write(&leading_text(sql)), "{}", sql);
    }
}

#[test]
fn the_verbs_of_statements() {
    assert_eq!(statement_verb("SELECT 1"), Some(Verb::Select));
    assert_eq!(statement_verb("VALUES (1)"), Some(Verb::Values));
    assert_eq!(statement_verb("INSERT INTO T"), Some(Verb::Insert));
    assert_eq!(statement_verb("-- A\nUPDATE T"), Some(Verb::Update));
    assert_eq!(statement_verb("WITH C AS (SELECT 1) DELETE FROM T"), Some(Verb::Delete));
    assert_eq!(statement_verb("REPLACE INTO T"), Some(Verb::Replace));
    assert_eq!(statement_verb("PRAGMA X"), None);
    assert!(changes_rows(Some(Verb::Delete)));
    assert!(!changes_rows(Some(Verb::Values)));
    assert!(!changes_rows(None));
}

#[test]
fn what_leadership_measures() {
    let mut metrics = vec![Metric::QueriesTotal];
    measure_election(true, false, true, &mut metrics);
    assert_eq!(
        metrics,
        [
            Metric::QueriesTotal,
            Metric::LeaderElectionsTotal,
            Metric::LeaderElectionDuration,
            Metric::IsLeader(true),
            Metric::LeadershipChangesTotal,
        ]
    );
    let mut metrics = Vec::new();
    measure_election(true, false, false, &mut metrics);
    assert_eq!(
        metrics,
        [Metric::LeaderElectionsTotal, Metric::LeaderElectionDuration, Metric::IsLeader(false)]
    );
    let mut metrics = Vec::new();
    measure_election(false, true, false, &mut metrics);
    assert_eq!(metrics, [Metric::LeaderElectionsTotal]);
    assert_eq!(
        measure_wait(true),
        [Metric::LeaderElectionDuration, Metric::IsLeader(true), Metric::LeadershipChangesTotal]
    );
    assert_eq!(measure_wait(false), [Metric::LeaderElectionDuration]);
}

#[test]
fn types_of_statements() {
    assert_eq!(query_type("  select * from t"), "SELECT");
    assert_eq!(query_type("Insert\ninto t"), "INSERT");
    assert_eq!(query_type("vacuum"), "VACUUM");
    assert_eq!(query_type(" \t "), "UNKNOWN");
}
