//! What is measured: which metrics an operation counts up, sets or observes.

use crate::procedure::{procedure_over, Procedure};
use crate::sql::{to_uppercase, uppercase};
use crate::statement::{
    advanced_all, as_unsigned, count_of, explain_preparing, law_every_statement_is_finalized,
    preparing_error, reachable, After, Event, Phase, Run, StatementEvent, StatementRun,
};
use crate::text::{chars_of, concat, is_whitespace, string_of, whitespace};
use vstd::prelude::*;

verus! {

/// A change of a metric. A duration is observed by whoever measures it.
#[derive(Clone, Copy, Debug, PartialEq, Eq, Structural)]
pub enum Metric {
    QueriesTotal,
    ErrorsTotal,
    QueryDuration,
    SyncOperationsTotal,
    SyncDuration,
    LeaderElectionAttemptsTotal,
    LeaderElectionsTotal,
    LeaderElectionDuration,
    IsLeader(bool),
    LeadershipChangesTotal,
}

/// What an event in a run measures: an error where the statement fails, and its
/// duration where it returns.
pub open spec fn measured(run: Run, event: Event) -> Seq<Metric> {
    match (run.phase, event) {
        (Phase::Prepare, Event::NotPrepared(_, _)) => seq![Metric::ErrorsTotal],
        (Phase::Bind(_), Event::Bound(false)) => seq![Metric::ErrorsTotal],
        (Phase::Explain, Event::Message(_)) => seq![Metric::ErrorsTotal],
        (Phase::Finalize(After::Return), Event::Finalized) => seq![Metric::QueryDuration],
        (Phase::Totals, Event::Totals { .. }) => seq![Metric::QueryDuration],
        _ => Seq::empty(),
    }
}

/// The metric alone, or none.
fn only(metric: Metric, wanted: bool) -> (r: Vec<Metric>)
    ensures
        r@ == if wanted {
            seq![metric]
        } else {
            Seq::empty()
        },
{
    let mut r: Vec<Metric> = Vec::new();
    if wanted {
        r.push(metric);
    }
    assert(r@ =~= if wanted {
        seq![metric]
    } else {
        Seq::empty()
    });
    r
}

/// What an event in a run measures.
pub fn measure(run: &StatementRun, event: &StatementEvent) -> (r: Vec<Metric>)
    ensures
        r@ == measured(run@, event@),
{
    match (run.phase(), event) {
        (Phase::Prepare, StatementEvent::NotPrepared(_, _)) => only(Metric::ErrorsTotal, true),
        (Phase::Bind(_), StatementEvent::Bound(ok)) => only(Metric::ErrorsTotal, !*ok),
        (Phase::Explain, StatementEvent::Message(_)) => only(Metric::ErrorsTotal, true),
        (Phase::Finalize(After::Return), StatementEvent::Finalized) => only(
            Metric::QueryDuration,
            true,
        ),
        (Phase::Totals, StatementEvent::Totals { .. }) => only(Metric::QueryDuration, true),
        _ => Vec::new(),
    }
}

/// What several events in a run measure.
pub open spec fn all_measured(run: Run, events: Seq<Event>) -> Seq<Metric>
    decreases events.len(),
{
    if events.len() == 0 {
        Seq::empty()
    } else {
        all_measured(run, events.drop_last()) + measured(
            advanced_all(run, events.drop_last()),
            events.last(),
        )
    }
}

/// Whatever the calls to SQLite give, a run counts one error if it fails, and no
/// other does; its duration is observed once if it returns, and no other is.
pub proof fn law_runs_are_measured_once(run: Run, events: Seq<Event>)
    requires
        reachable(run),
        run.phase is Prepare,
    ensures
        reachable(advanced_all(run, events)),
        all_measured(run, events) == match (
            advanced_all(run, events).error,
            advanced_all(run, events).phase,
        ) {
            (Some(_), _) => seq![Metric::ErrorsTotal],
            (None, Phase::Over) => seq![Metric::QueryDuration],
            (None, _) => Seq::<Metric>::empty(),
        },
    decreases events.len(),
{
    if events.len() > 0 {
        law_runs_are_measured_once(run, events.drop_last());
        let before = advanced_all(run, events.drop_last());
        law_every_statement_is_finalized(before, events.last());
        let metrics = measured(before, events.last());
        assert(all_measured(run, events) =~= all_measured(run, events.drop_last()) + metrics);
    }
}

/// How the span of a statement ends, as traces show it.
#[derive(Debug)]
pub enum SpanEnd {
    /// The statement failed with this message.
    Failed(String),
    /// The statement returned. What it reports of changed and of returned rows is
    /// missing where the trace does not show it.
    Returned { affected_rows: Option<u32>, row_count: Option<usize> },
}

/// What a [`SpanEnd`] says.
#[verifier::ext_equal]
pub enum Ending {
    Failed(Seq<char>),
    Returned { affected_rows: Option<u32>, row_count: Option<nat> },
}

impl SpanEnd {
    pub open spec fn view(&self) -> Ending {
        match self {
            SpanEnd::Failed(message) => Ending::Failed(message@),
            SpanEnd::Returned { affected_rows, row_count } => Ending::Returned {
                affected_rows: *affected_rows,
                row_count: match row_count {
                    Some(n) => Some(*n as nat),
                    None => None,
                },
            },
        }
    }
}

/// How an event ends the span of a run, if it does. A `SELECT` without
/// parameters that returns leaves its span open, and so does another statement
/// without parameters that cannot be prepared.
pub open spec fn span_ended(run: Run, event: Event) -> Option<Ending> {
    match (run.phase, event) {
        (Phase::Prepare, Event::NotPrepared(code, message)) => if run.select || run.params is Some {
            Some(Ending::Failed("Failed to prepare: "@ + preparing_error(code, message)))
        } else {
            None
        },
        (Phase::Finalize(After::Return), Event::Finalized) => if run.params is Some {
            Some(Ending::Returned { affected_rows: None, row_count: Some(run.rows.len()) })
        } else {
            None
        },
        (Phase::Totals, Event::Totals { changes, .. }) => Some(
            Ending::Returned {
                affected_rows: Some(as_unsigned(changes)),
                row_count: if run.params is Some {
                    None
                } else {
                    Some(run.rows.len())
                },
            },
        ),
        _ => None,
    }
}

/// How an event ends the span of a run, if it does.
pub fn span_end(run: &StatementRun, event: &StatementEvent) -> (r: Option<SpanEnd>)
    ensures
        match r {
            Some(end) => span_ended(run@, event@) == Some(end@),
            None => span_ended(run@, event@) is None,
        },
{
    match (run.phase(), event) {
        (Phase::Prepare, StatementEvent::NotPrepared(code, message)) => {
            if run.is_select() || run.has_params() {
                let reason: String = explain_preparing(*code, message);
                Some(SpanEnd::Failed(concat("Failed to prepare: ", reason.as_str())))
            } else {
                None
            }
        },
        (Phase::Finalize(After::Return), StatementEvent::Finalized) => if run.has_params() {
            Some(SpanEnd::Returned { affected_rows: None, row_count: Some(run.row_count()) })
        } else {
            None
        },
        (Phase::Totals, StatementEvent::Totals { changes, .. }) => Some(
            SpanEnd::Returned {
                affected_rows: Some(count_of(*changes)),
                row_count: if run.has_params() {
                    None
                } else {
                    Some(run.row_count())
                },
            },
        ),
        _ => None,
    }
}

/// An event that ends a span is the one at which the run is measured: an error
/// where the span ends with one, and the duration where it does not.
pub proof fn law_ended_spans_are_measured(run: Run, event: Event)
    ensures
        span_ended(run, event) matches Some(Ending::Failed(_)) ==> measured(run, event) == seq![
            Metric::ErrorsTotal,
        ],
        span_ended(run, event) matches Some(Ending::Returned { .. }) ==> measured(run, event)
            == seq![Metric::QueryDuration],
{
}

/// What a sync measures, given how it has gone: its duration, once it has
/// succeeded.
pub fn measure_sync(procedure: &Procedure) -> (r: Vec<Metric>)
    ensures
        r@ == if procedure_over(procedure@) && procedure@.failure is None {
            seq![Metric::SyncDuration]
        } else {
            Seq::empty()
        },
{
    only(Metric::SyncDuration, procedure.has_succeeded())
}

/// What a request for leadership measures: an election, and once one has been
/// started its duration and how it changed who is the leader.
pub open spec fn election_measured(started: bool, was_leader: bool, is_leader: bool) -> Seq<
    Metric,
> {
    if !started {
        seq![Metric::LeaderElectionsTotal]
    } else if was_leader != is_leader {
        seq![
            Metric::LeaderElectionsTotal,
            Metric::LeaderElectionDuration,
            Metric::IsLeader(is_leader),
            Metric::LeadershipChangesTotal,
        ]
    } else {
        seq![
            Metric::LeaderElectionsTotal,
            Metric::LeaderElectionDuration,
            Metric::IsLeader(is_leader),
        ]
    }
}

/// Adds what a request for leadership measures: whether an election has been
/// started, and whether this instance was the leader before, and is now.
pub fn measure_election(
    started: bool,
    was_leader: bool,
    is_leader: bool,
    metrics: &mut Vec<Metric>,
)
    ensures
        final(metrics)@ == old(metrics)@ + election_measured(started, was_leader, is_leader),
{
    metrics.push(Metric::LeaderElectionsTotal);
    if started {
        metrics.push(Metric::LeaderElectionDuration);
        metrics.push(Metric::IsLeader(is_leader));
        if was_leader != is_leader {
            metrics.push(Metric::LeadershipChangesTotal);
        }
    }
    assert(metrics@ =~= old(metrics)@ + election_measured(started, was_leader, is_leader));
}

/// What waiting for leadership measures when it ends.
pub fn measure_wait(became_leader: bool) -> (r: Vec<Metric>)
    ensures
        r@ == if became_leader {
            seq![
                Metric::LeaderElectionDuration,
                Metric::IsLeader(true),
                Metric::LeadershipChangesTotal,
            ]
        } else {
            seq![Metric::LeaderElectionDuration]
        },
{
    let mut r: Vec<Metric> = Vec::new();
    r.push(Metric::LeaderElectionDuration);
    if became_leader {
        r.push(Metric::IsLeader(true));
        r.push(Metric::LeadershipChangesTotal);
    }
    assert(r@ =~= if became_leader {
        seq![
            Metric::LeaderElectionDuration,
            Metric::IsLeader(true),
            Metric::LeadershipChangesTotal,
        ]
    } else {
        seq![Metric::LeaderElectionDuration]
    });
    r
}

/// The first word of a text, if it has one.
pub open spec fn first_word(s: Seq<char>) -> Option<Seq<char>>
    decreases s.len(),
{
    if s.len() == 0 {
        None
    } else if whitespace(s[0]) {
        first_word(s.skip(1))
    } else {
        Some(word_at(s))
    }
}

/// The characters of a text up to the first whitespace.
pub open spec fn word_at(s: Seq<char>) -> Seq<char>
    decreases s.len(),
{
    if s.len() == 0 || whitespace(s[0]) {
        Seq::empty()
    } else {
        seq![s[0]] + word_at(s.skip(1))
    }
}

/// The type of a statement, as traces show it: its first word in upper case.
pub fn query_type(sql: &str) -> (r: String)
    ensures
        r@ == uppercase(
            match first_word(sql@) {
                Some(word) => word,
                None => "UNKNOWN"@,
            },
        ),
{
    let chars: Vec<char> = chars_of(sql);
    let mut from: usize = 0;
    assert(chars@.skip(0) =~= chars@);
    while from < chars.len() && is_whitespace(chars[from])
        invariant
            from <= chars@.len(),
            chars@ == sql@,
            first_word(chars@.skip(from as int)) == first_word(sql@),
        decreases chars@.len() - from,
    {
        assert(chars@.skip(from as int).skip(1) =~= chars@.skip(from as int + 1));
        from += 1;
    }
    if from == chars.len() {
        return to_uppercase("UNKNOWN");
    }
    let ghost rest = chars@.skip(from as int);
    let mut to: usize = from;
    assert(chars@.subrange(from as int, to as int) + word_at(rest) =~= word_at(rest));
    while to < chars.len() && !is_whitespace(chars[to])
        invariant
            from <= to <= chars@.len(),
            chars@.subrange(from as int, to as int) + word_at(chars@.skip(to as int)) == word_at(
                rest,
            ),
        decreases chars@.len() - to,
    {
        proof {
            let tail = chars@.skip(to as int);
            assert(tail.skip(1) =~= chars@.skip(to as int + 1));
            assert(chars@.subrange(from as int, to as int + 1) =~= chars@.subrange(
                from as int,
                to as int,
            ).push(tail[0]));
            assert(chars@.subrange(from as int, to as int) + word_at(tail) =~= chars@.subrange(
                from as int,
                to as int + 1,
            ) + word_at(tail.skip(1)));
        }
        to += 1;
    }
    assert(word_at(chars@.skip(to as int)) =~= Seq::<char>::empty());
    assert(chars@.subrange(from as int, to as int) =~= word_at(rest));
    let word: String = string_of(&chars, from, to);
    to_uppercase(word.as_str())
}

/// Every request for leadership counts one election. Only a started one has a
/// duration, which is observed once, and tells whether this instance is the
/// leader; and a change is counted exactly if that differs from before.
pub proof fn law_elections_are_counted(started: bool, was_leader: bool, is_leader: bool)
    ensures
        ({
            let metrics = election_measured(started, was_leader, is_leader);
            &&& metrics.len() == 1 + (if started {
                2int
            } else {
                0
            }) + (if started && was_leader != is_leader {
                1int
            } else {
                0
            })
            &&& metrics.no_duplicates()
            &&& metrics.contains(Metric::LeaderElectionsTotal)
            &&& metrics.contains(Metric::LeaderElectionDuration) <==> started
            &&& metrics.contains(Metric::IsLeader(is_leader)) <==> started
            &&& !metrics.contains(Metric::IsLeader(!is_leader))
            &&& metrics.contains(Metric::LeadershipChangesTotal) <==> started && was_leader
                != is_leader
        }),
{
    let metrics = election_measured(started, was_leader, is_leader);
    assert(metrics[0] == Metric::LeaderElectionsTotal);
    if started {
        assert(metrics[1] == Metric::LeaderElectionDuration);
        assert(metrics[2] == Metric::IsLeader(is_leader));
        if was_leader != is_leader {
            assert(metrics[3] == Metric::LeadershipChangesTotal);
        }
    }
}

/// The first word of a text is what stands between whitespace: whitespace before
/// it does not matter, and neither does what follows the whitespace after it.
pub proof fn law_first_word(word: Seq<char>, c: char, rest: Seq<char>)
    requires
        forall|i: int| 0 <= i < word.len() ==> !whitespace(#[trigger] word[i]),
        whitespace(c),
    ensures
        word.len() > 0 ==> first_word(word) == Some(word),
        word.len() > 0 ==> first_word(word + seq![c] + rest) == Some(word),
        first_word(seq![c] + rest) == first_word(rest),
        first_word(Seq::empty()) is None,
{
    lemma_word_up_to(word, c, rest);
    assert((seq![c] + rest).skip(1) =~= rest);
}

proof fn lemma_word_up_to(word: Seq<char>, c: char, rest: Seq<char>)
    requires
        forall|i: int| 0 <= i < word.len() ==> !whitespace(#[trigger] word[i]),
        whitespace(c),
    ensures
        word_at(word) == word,
        word_at(word + seq![c] + rest) == word,
    decreases word.len(),
{
    let text = word + seq![c] + rest;
    if word.len() == 0 {
        assert(word =~= Seq::<char>::empty());
    } else {
        lemma_word_up_to(word.skip(1), c, rest);
        assert(text.skip(1) =~= word.skip(1) + seq![c] + rest);
        assert(seq![word[0]] + word.skip(1) =~= word);
    }
}

/// How spans end. A `SELECT`, and a statement with parameters, that cannot be
/// prepared ends its span with the message. A statement that returns ends its
/// span with the numbers that it reports: the changed rows unless it is a
/// `SELECT`, the read rows unless it is another statement with parameters.
pub proof fn law_spans_tell_what_is_reported(
    run: Run,
    code: i32,
    message: Seq<char>,
    changes: i32,
    last_rowid: i64,
)
    ensures
        run.phase is Prepare && (run.select || run.params is Some) ==> span_ended(
            run,
            Event::NotPrepared(code, Some(message)),
        ) == Some(Ending::Failed("Failed to prepare: "@ + message)),
        run.phase is Prepare && !run.select && run.params is None ==> span_ended(
            run,
            Event::NotPrepared(code, Some(message)),
        ) is None,
        run.phase == Phase::Finalize(After::Return) && run.params is Some ==> span_ended(
            run,
            Event::Finalized,
        ) == Some(Ending::Returned { affected_rows: None, row_count: Some(run.rows.len()) }),
        run.phase == Phase::Finalize(After::Return) && run.params is None ==> span_ended(
            run,
            Event::Finalized,
        ) is None,
        run.phase is Totals && changes >= 0 ==> match span_ended(
            run,
            Event::Totals { changes, last_rowid },
        ) {
            Some(Ending::Returned { affected_rows, row_count }) => {
                &&& affected_rows is Some
                &&& affected_rows->0 == changes
                &&& run.params is Some ==> row_count is None
                &&& run.params is None ==> row_count == Some(run.rows.len())
            },
            _ => false,
        },
{
}

/// How a span ended is seen as it is.
pub proof fn law_endings_are_seen_as_they_are(end: SpanEnd)
    ensures
        match end {
            SpanEnd::Failed(message) => end@ == Ending::Failed(message@),
            SpanEnd::Returned { affected_rows, row_count } => {
                &&& end@ is Returned
                &&& end@->affected_rows == affected_rows
                &&& row_count is None ==> end@->row_count is None
                &&& row_count is Some ==> end@->row_count == Some(row_count->0 as nat)
            },
        },
{
}

} // verus!
